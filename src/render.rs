use vstd::prelude::*;
use crate::store::{Comment, CommentView, comments_view};

verus! {

/// Start of the document, up to the title.
pub const DOC_HEAD: &'static str = "<!DOCTYPE html>\n<html>\n<head>\n    <title>";

/// From the title to the first comment block.
pub const DOC_BODY: &'static str = "</title>\n    <meta charset=\"utf-8\">\n</head>\n<body>\n    ";

/// Between the comment blocks and the form.
pub const DOC_SEP: &'static str = "\n    ";

/// End of the document, after the form.
pub const DOC_END: &'static str = "\n</body>\n</html>";

/// Start of a comment block, up to the page identifier in its element id.
pub const BLOCK_OPEN: &'static str = "<div id=\"page-";

/// Between the page identifier and the comment's index in the element id.
pub const BLOCK_INDEX: &'static str = "-comment-";

/// From the element id to the author.
pub const BLOCK_USER: &'static str =
    "\" class=\"comment\">\n    <p class=\"comment-body\"><em class=\"comment-user\" style=\"display:inline\">";

/// Between the author and the comment text.
pub const BLOCK_BODY: &'static str = ": </em>";

/// End of a comment block.
pub const BLOCK_CLOSE: &'static str = "</p>\n</div>";

/// Start of the submission form, up to the page identifier in its action.
pub const FORM_OPEN: &'static str = "<form id=\"comment-form\" action=\"/pages/";

/// The rest of the submission form.
pub const FORM_REST: &'static str = "/comments\" method=\"post\">
      <label for=\"user\">Username:</label>
      <br>
      <input id=\"user\" name=\"user\" type=\"text\" maxlength=\"50\" size=\"20\" pattern=\"[A-Za-z0-9]+\" title=\"A-Z, a-z, 0-9 only\" placeholder=\"username\" />
      <br>

      <label for=\"body\">Comment:</label>
      <br>
      <textarea id=\"body\" name=\"body\" maxlength=\"1000\" cols=\"50\" rows=\"5\" placeholder=\"comment\"></textarea>
      <br>
      <br>

      <input type=\"submit\" value=\"Submit\">
    </form>";

/// The decimal digit for `d`, which is below ten.
pub open spec fn digit_char(d: nat) -> char {
    if d == 0 {
        '0'
    } else if d == 1 {
        '1'
    } else if d == 2 {
        '2'
    } else if d == 3 {
        '3'
    } else if d == 4 {
        '4'
    } else if d == 5 {
        '5'
    } else if d == 6 {
        '6'
    } else if d == 7 {
        '7'
    } else if d == 8 {
        '8'
    } else {
        '9'
    }
}

/// `n` written in decimal, without leading zeros.
pub open spec fn decimal(n: nat) -> Seq<char>
    decreases n,
{
    if n < 10 {
        seq![digit_char(n)]
    } else {
        decimal(n / 10).push(digit_char(n % 10))
    }
}

/// The markup of the comment at index `i` of page `p`; author and text go in unescaped.
pub open spec fn comment_block(p: Seq<char>, i: nat, c: CommentView) -> Seq<char> {
    BLOCK_OPEN@ + p + BLOCK_INDEX@ + decimal(i) + BLOCK_USER@ + c.user + BLOCK_BODY@ + c.body
        + BLOCK_CLOSE@
}

/// The blocks of all comments of page `p`, in order.
pub open spec fn comment_blocks(p: Seq<char>, cs: Seq<CommentView>) -> Seq<char>
    decreases cs.len(),
{
    if cs.len() == 0 {
        Seq::empty()
    } else {
        comment_blocks(p, cs.drop_last()) + comment_block(p, (cs.len() - 1) as nat, cs.last())
    }
}

/// The submission form of page `p`.
pub open spec fn comment_form(p: Seq<char>) -> Seq<char> {
    FORM_OPEN@ + p + FORM_REST@
}

/// The whole document for page `p` with comments `cs`.
pub open spec fn page_html(p: Seq<char>, cs: Seq<CommentView>) -> Seq<char> {
    DOC_HEAD@ + p + DOC_BODY@ + comment_blocks(p, cs) + DOC_SEP@ + comment_form(p) + DOC_END@
}

/// `needle` occurs in `hay` as a contiguous run of characters.
pub open spec fn contains_text(hay: Seq<char>, needle: Seq<char>) -> bool {
    exists|k: int| 0 <= k && k + needle.len() <= hay.len() && #[trigger] hay.subrange(k, k + needle.len()) == needle
}

proof fn lemma_contains_left(a: Seq<char>, b: Seq<char>, n: Seq<char>)
    requires
        contains_text(a, n),
    ensures
        contains_text(a + b, n),
{
    let k = choose|k: int| 0 <= k && k + n.len() <= a.len() && #[trigger] a.subrange(k, k + n.len()) == n;
    assert((a + b).subrange(k, k + n.len()) =~= a.subrange(k, k + n.len()));
}

proof fn lemma_contains_right(a: Seq<char>, b: Seq<char>, n: Seq<char>)
    requires
        contains_text(b, n),
    ensures
        contains_text(a + b, n),
{
    let k = choose|k: int| 0 <= k && k + n.len() <= b.len() && #[trigger] b.subrange(k, k + n.len()) == n;
    assert((a + b).subrange(a.len() + k, a.len() + k + n.len()) =~= b.subrange(k, k + n.len()));
}

proof fn lemma_contains_self(n: Seq<char>)
    ensures
        contains_text(n, n),
{
    let k: int = 0;
    assert(n.subrange(k, k + n.len()) =~= n);
}

proof fn lemma_block_embeds(p: Seq<char>, i: nat, c: CommentView)
    ensures
        contains_text(comment_block(p, i, c), c.user),
        contains_text(comment_block(p, i, c), c.body),
{
    let head = BLOCK_OPEN@ + p + BLOCK_INDEX@ + decimal(i) + BLOCK_USER@;
    lemma_contains_self(c.user);
    lemma_contains_self(c.body);
    lemma_contains_right(head, c.user, c.user);
    lemma_contains_left(head + c.user, BLOCK_BODY@ + c.body + BLOCK_CLOSE@, c.user);
    assert(comment_block(p, i, c) =~= (head + c.user) + (BLOCK_BODY@ + c.body + BLOCK_CLOSE@));
    lemma_contains_right(head + c.user + BLOCK_BODY@, c.body, c.body);
    lemma_contains_left(head + c.user + BLOCK_BODY@ + c.body, BLOCK_CLOSE@, c.body);
    assert(comment_block(p, i, c) =~= (head + c.user + BLOCK_BODY@ + c.body) + BLOCK_CLOSE@);
}

proof fn lemma_blocks_embed(p: Seq<char>, cs: Seq<CommentView>, j: int)
    requires
        0 <= j < cs.len(),
    ensures
        contains_text(comment_blocks(p, cs), cs[j].user),
        contains_text(comment_blocks(p, cs), cs[j].body),
    decreases cs.len(),
{
    let rest = comment_blocks(p, cs.drop_last());
    let last = comment_block(p, (cs.len() - 1) as nat, cs.last());
    if j == cs.len() - 1 {
        lemma_block_embeds(p, (cs.len() - 1) as nat, cs.last());
        lemma_contains_right(rest, last, cs[j].user);
        lemma_contains_right(rest, last, cs[j].body);
    } else {
        lemma_blocks_embed(p, cs.drop_last(), j);
        lemma_contains_left(rest, last, cs[j].user);
        lemma_contains_left(rest, last, cs[j].body);
    }
}

/// The page markup holds each comment's author and text verbatim, with no escaping:
/// markup in a comment reaches the reader as markup.
pub proof fn lemma_page_embeds_comments_verbatim(p: Seq<char>, cs: Seq<CommentView>, j: int)
    requires
        0 <= j < cs.len(),
    ensures
        contains_text(page_html(p, cs), cs[j].user),
        contains_text(page_html(p, cs), cs[j].body),
{
    let head = DOC_HEAD@ + p + DOC_BODY@;
    let tail = DOC_SEP@ + comment_form(p) + DOC_END@;
    let blocks = comment_blocks(p, cs);
    lemma_blocks_embed(p, cs, j);
    lemma_contains_right(head, blocks, cs[j].user);
    lemma_contains_right(head, blocks, cs[j].body);
    lemma_contains_left(head + blocks, tail, cs[j].user);
    lemma_contains_left(head + blocks, tail, cs[j].body);
    assert(page_html(p, cs) =~= (head + blocks) + tail);
}

fn digit_str(d: usize) -> (r: &'static str)
    requires
        d < 10,
    ensures
        r@ == seq![digit_char(d as nat)],
{
    proof {
        reveal_strlit("0");
        reveal_strlit("1");
        reveal_strlit("2");
        reveal_strlit("3");
        reveal_strlit("4");
        reveal_strlit("5");
        reveal_strlit("6");
        reveal_strlit("7");
        reveal_strlit("8");
        reveal_strlit("9");
    }
    if d == 0 {
        "0"
    } else if d == 1 {
        "1"
    } else if d == 2 {
        "2"
    } else if d == 3 {
        "3"
    } else if d == 4 {
        "4"
    } else if d == 5 {
        "5"
    } else if d == 6 {
        "6"
    } else if d == 7 {
        "7"
    } else if d == 8 {
        "8"
    } else {
        "9"
    }
}

/// Appends `n` in decimal to `s`.
pub fn push_decimal(s: &mut String, n: usize)
    ensures
        final(s)@ == old(s)@ + decimal(n as nat),
    decreases n,
{
    if n >= 10 {
        push_decimal(s, n / 10);
    }
    s.append(digit_str(n % 10));
    assert(s@ =~= old(s)@ + decimal(n as nat));
}

/// The HTML document for page `page_id` with `comments`: one block per comment, in
/// order, then the submission form. Authors and texts are embedded as they are.
pub fn render_page(page_id: &str, comments: &Vec<Comment>) -> (r: String)
    ensures
        r@ == page_html(page_id@, comments_view(comments@)),
{
    let ghost p = page_id@;
    let ghost cv = comments_view(comments@);
    let mut s = String::new();
    s.append(DOC_HEAD);
    s.append(page_id);
    s.append(DOC_BODY);
    let ghost head = s@;
    assert(cv.subrange(0, 0) =~= Seq::<CommentView>::empty());
    let mut i: usize = 0;
    while i < comments.len()
        invariant
            i <= comments@.len(),
            cv == comments_view(comments@),
            p == page_id@,
            s@ == head + comment_blocks(p, cv.subrange(0, i as int)),
        decreases comments@.len() - i,
    {
        let c = &comments[i];
        let ghost before = s@;
        s.append(BLOCK_OPEN);
        s.append(page_id);
        s.append(BLOCK_INDEX);
        push_decimal(&mut s, i);
        s.append(BLOCK_USER);
        s.append(c.user.as_str());
        s.append(BLOCK_BODY);
        s.append(c.body.as_str());
        s.append(BLOCK_CLOSE);
        proof {
            let next = cv.subrange(0, i + 1);
            assert(next.drop_last() =~= cv.subrange(0, i as int));
            assert(next.last() == c@);
            assert(s@ =~= before + comment_block(p, i as nat, c@));
        }
        i = i + 1;
    }
    assert(cv.subrange(0, i as int) =~= cv);
    s.append(DOC_SEP);
    s.append(FORM_OPEN);
    s.append(page_id);
    s.append(FORM_REST);
    s.append(DOC_END);
    assert(s@ =~= page_html(p, cv));
    s
}

} // verus!
