use comment_board::{
    Comment, CommentForm, CommentStore, PageError, get_comments, get_page, page_location,
    post_comment, post_page, render_page,
};

fn expected_page(page_id: &str, comments: &[(&str, &str)]) -> String {
    let mut comments_html = String::new();
    for (comment_id, (user, body)) in comments.iter().enumerate() {
        comments_html.push_str(&format!("\
<div id=\"page-{page_id}-comment-{comment_id}\" class=\"comment\">
    <p class=\"comment-body\"><em class=\"comment-user\" style=\"display:inline\">{user}: </em>{body}</p>
</div>\
        "));
    }
    let comment_form = format!("\
    <form id=\"comment-form\" action=\"/pages/{page_id}/comments\" method=\"post\">
      <label for=\"user\">Username:</label>
      <br>
      <input id=\"user\" name=\"user\" type=\"text\" maxlength=\"50\" size=\"20\" pattern=\"[A-Za-z0-9]+\" title=\"A-Z, a-z, 0-9 only\" placeholder=\"username\" />
      <br>

      <label for=\"body\">Comment:</label>
      <br>
      <textarea id=\"body\" name=\"body\" maxlength=\"1000\" cols=\"50\" rows=\"5\" placeholder=\"comment\"></textarea>
      <br>
      <br>

      <input type=\"submit\" value=\"Submit\">
    </form>\
    ");
    format!("\
<!DOCTYPE html>
<html>
<head>
    <title>{page_id}</title>
    <meta charset=\"utf-8\">
</head>
<body>
    {comments_html}
    {comment_form}
</body>
</html>\
    ")
}

fn comment(user: &str, body: &str) -> Comment {
    Comment { user: user.to_string(), body: body.to_string() }
}

#[test]
fn render_empty_page_exactly() {
    assert_eq!(render_page("demo", &vec![]), expected_page("demo", &[]));
}

#[test]
fn render_two_comments_exactly() {
    let cs = vec![comment("alice", "hi"), comment("bob", "yo")];
    assert_eq!(render_page("p", &cs), expected_page("p", &[("alice", "hi"), ("bob", "yo")]));
}

#[test]
fn render_numbers_comments_past_ten() {
    let pairs: Vec<(String, String)> = (0..12).map(|i| (format!("u{i}"), format!("b{i}"))).collect();
    let cs: Vec<Comment> = pairs.iter().map(|(u, b)| comment(u, b)).collect();
    let refs: Vec<(&str, &str)> = pairs.iter().map(|(u, b)| (u.as_str(), b.as_str())).collect();
    let html = render_page("n", &cs);
    assert_eq!(html, expected_page("n", &refs));
    assert!(html.contains("id=\"page-n-comment-11\""));
    assert!(html.contains("id=\"page-n-comment-10\""));
}

#[test]
fn render_embeds_markup_unescaped() {
    let html = render_page("x", &vec![comment("<b>x</b>", "y")]);
    assert!(html.contains("<b>x</b>"));
    assert!(!html.contains("&lt;b&gt;"));
}

#[test]
fn location_of_page() {
    assert_eq!(page_location("demo"), "/pages/demo");
    assert_eq!(page_location(""), "/pages/");
}

#[test]
fn create_page_then_view_has_form_and_no_comments() {
    let mut store: Option<CommentStore> = None;
    assert_eq!(post_page(&mut store, "demo"), "/pages/demo");
    let html = get_page(store.as_ref(), "demo").unwrap();
    assert!(html.contains("<form id=\"comment-form\" action=\"/pages/demo/comments\""));
    assert!(!html.contains("class=\"comment\""));
    assert_eq!(html, expected_page("demo", &[]));
}

#[test]
fn post_comment_then_view_shows_it() {
    let mut store: Option<CommentStore> = None;
    let form = CommentForm { user: "alice", body: "hi" };
    assert_eq!(post_comment(&mut store, "demo", form), "/pages/demo");
    let html = get_page(store.as_ref(), "demo").unwrap();
    assert_eq!(html.matches("class=\"comment\"").count(), 1);
    assert!(html.contains("alice: </em>hi</p>"));
    assert_eq!(html, expected_page("demo", &[("alice", "hi")]));
}

#[test]
fn post_comment_twice_stores_two() {
    let mut store: Option<CommentStore> = None;
    post_comment(&mut store, "demo", CommentForm { user: "a", body: "b" });
    post_comment(&mut store, "demo", CommentForm { user: "a", body: "b" });
    let html = get_page(store.as_ref(), "demo").unwrap();
    assert_eq!(html, expected_page("demo", &[("a", "b"), ("a", "b")]));
}

#[test]
fn post_page_keeps_existing_comments() {
    let mut store: Option<CommentStore> = None;
    post_comment(&mut store, "demo", CommentForm { user: "a", body: "b" });
    assert_eq!(post_page(&mut store, "demo"), "/pages/demo");
    let html = get_page(store.as_ref(), "demo").unwrap();
    assert_eq!(html, expected_page("demo", &[("a", "b")]));
}

#[test]
fn view_of_missing_page_is_not_found() {
    let mut store: Option<CommentStore> = None;
    post_page(&mut store, "hello-world");
    assert_eq!(get_page(store.as_ref(), "does-not-exist"), Err(PageError::NotFound));
    let empty = CommentStore::new();
    assert_eq!(get_page(Some(&empty), "does-not-exist"), Err(PageError::NotFound));
}

#[test]
fn view_without_store_is_unavailable() {
    assert_eq!(get_page(None, "demo"), Err(PageError::StoreUnavailable));
}

#[test]
fn comments_route_redirects_to_page_whether_or_not_it_exists() {
    assert_eq!(get_comments("does-not-exist"), "/pages/does-not-exist");
    let mut store: Option<CommentStore> = None;
    post_page(&mut store, "does-not-exist");
    assert_eq!(get_comments("does-not-exist"), "/pages/does-not-exist");
}
