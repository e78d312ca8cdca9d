use comment_board::{Comment, CommentStore};

fn comment(user: &str, body: &str) -> Comment {
    Comment { user: user.to_string(), body: body.to_string() }
}

#[test]
fn lookup_of_never_created_page_is_none() {
    let mut store = CommentStore::new();
    assert!(store.fetch_comments_for_page("nowhere").is_none());
    assert!(store.comments_for_page("nowhere").is_none());
    store.fetch_or_create_comments_for_page("elsewhere").push(comment("a", "b"));
    assert!(store.fetch_comments_for_page("nowhere").is_none());
    assert!(store.comments_for_page("nowhere").is_none());
}

#[test]
fn default_store_is_empty() {
    let mut store = CommentStore::default();
    assert!(store.fetch_comments_for_page("").is_none());
}

#[test]
fn ensure_then_lookup_is_empty() {
    let mut store = CommentStore::new();
    assert!(store.fetch_or_create_comments_for_page("demo").is_empty());
    let found = store.fetch_comments_for_page("demo");
    assert_eq!(found.map(|v| v.len()), Some(0));
}

#[test]
fn empty_identifier_is_a_page_like_any_other() {
    let mut store = CommentStore::new();
    store.fetch_or_create_comments_for_page("").push(comment("u", "b"));
    assert_eq!(store.comments_for_page(""), Some(&vec![comment("u", "b")]));
    assert!(store.comments_for_page(" ").is_none());
}

#[test]
fn ensure_keeps_existing_comments() {
    let mut store = CommentStore::new();
    store.fetch_or_create_comments_for_page("p").push(comment("a", "1"));
    let again = store.fetch_or_create_comments_for_page("p");
    assert_eq!(*again, vec![comment("a", "1")]);
}

#[test]
fn appends_keep_call_order() {
    let mut store = CommentStore::new();
    let items = [("u1", "b1"), ("u2", "b2"), ("u3", "b3")];
    for (u, b) in items {
        store.fetch_or_create_comments_for_page("p").push(comment(u, b));
    }
    let expected: Vec<Comment> = items.iter().map(|(u, b)| comment(u, b)).collect();
    assert_eq!(store.comments_for_page("p"), Some(&expected));
}

#[test]
fn identical_appends_are_both_kept() {
    let mut store = CommentStore::new();
    store.fetch_or_create_comments_for_page("p").push(comment("same", "same"));
    store.fetch_or_create_comments_for_page("p").push(comment("same", "same"));
    assert_eq!(
        store.comments_for_page("p"),
        Some(&vec![comment("same", "same"), comment("same", "same")])
    );
}

#[test]
fn pages_are_kept_apart() {
    let mut store = CommentStore::new();
    store.fetch_or_create_comments_for_page("a").push(comment("x", "1"));
    store.fetch_or_create_comments_for_page("b").push(comment("y", "2"));
    assert_eq!(store.comments_for_page("a"), Some(&vec![comment("x", "1")]));
    assert_eq!(store.comments_for_page("b"), Some(&vec![comment("y", "2")]));
}

#[test]
fn fetched_comments_can_be_extended() {
    let mut store = CommentStore::new();
    store.fetch_or_create_comments_for_page("p");
    if let Some(v) = store.fetch_comments_for_page("p") {
        v.push(comment("late", "entry"));
    }
    assert_eq!(store.comments_for_page("p"), Some(&vec![comment("late", "entry")]));
}
