use vstd::prelude::*;
use crate::render::{page_html, render_page};
use crate::store::{
    CommentForm, CommentStore, CommentView, StoreModel, Comment, appended, comments_view, ensured,
    lookup,
};

verus! {

/// Why a page cannot be shown.
#[derive(Debug, Clone, Copy, PartialEq, Eq, Structural)]
pub enum PageError {
    /// No page with that identifier was ever created.
    NotFound,
    /// The store has not been set up yet.
    StoreUnavailable,
}

/// Where pages live.
pub const PAGES_PREFIX: &'static str = "/pages/";

/// The location of page `p`.
pub open spec fn page_path(p: Seq<char>) -> Seq<char> {
    PAGES_PREFIX@ + p
}

/// The model of a store that may not exist yet: none is a store with no pages.
pub open spec fn model_of(store: Option<CommentStore>) -> StoreModel {
    match store {
        Some(s) => s@,
        None => StoreModel::empty(),
    }
}

/// A store that may not exist yet is valid when it is absent or well formed.
pub open spec fn store_ok(store: Option<CommentStore>) -> bool {
    match store {
        Some(s) => s.wf(),
        None => true,
    }
}

/// The location of page `page_id`.
pub fn page_location(page_id: &str) -> (r: String)
    ensures
        r@ == page_path(page_id@),
{
    let mut s = String::new();
    s.append(PAGES_PREFIX);
    s.append(page_id);
    s
}

/// Where a request for the comments of `page_id` is sent on: the page itself, whether
/// or not it exists.
pub fn get_comments(page_id: &str) -> (r: String)
    ensures
        r@ == page_path(page_id@),
{
    page_location(page_id)
}

/// The document shown for page `page_id`, or why there is none.
pub fn get_page(store: Option<&CommentStore>, page_id: &str) -> (r: Result<String, PageError>)
    requires
        store matches Some(s) ==> s.wf(),
    ensures
        store is None ==> r == Err::<String, PageError>(PageError::StoreUnavailable),
        store matches Some(s) ==> match lookup(s@, page_id@) {
            None => r == Err::<String, PageError>(PageError::NotFound),
            Some(cs) => r matches Ok(html) && html@ == page_html(page_id@, cs),
        },
{
    match store {
        None => Err(PageError::StoreUnavailable),
        Some(s) => match s.comments_for_page(page_id) {
            None => Err(PageError::NotFound),
            Some(comments) => Ok(render_page(page_id, comments)),
        },
    }
}

/// Sets up the store if it does not exist yet.
fn store_mut(store: &mut Option<CommentStore>) -> (r: &mut CommentStore)
    requires
        store_ok(*old(store)),
    ensures
        r.wf(),
        r@ == model_of(*old(store)),
        *final(store) == Some(*final(r)),
{
    store.get_or_insert(CommentStore::new())
}

/// Appends the submitted comment to page `page_id`, creating the page and the store as
/// needed, and gives the location of the page.
pub fn post_comment(store: &mut Option<CommentStore>, page_id: &str, comment: CommentForm) -> (r: String)
    requires
        store_ok(*old(store)),
    ensures
        *final(store) is Some,
        store_ok(*final(store)),
        model_of(*final(store)) == appended(
            model_of(*old(store)),
            page_id@,
            CommentView { user: comment.user@, body: comment.body@ },
        ),
        r@ == page_path(page_id@),
{
    let s = store_mut(store);
    let comments = s.fetch_or_create_comments_for_page(page_id);
    let c = Comment { user: comment.user.to_owned(), body: comment.body.to_owned() };
    let ghost before = comments@;
    comments.push(c);
    proof {
        assert(comments_view(comments@) =~= comments_view(before).push(c@));
    }
    page_location(page_id)
}

/// Creates page `page` if it does not exist, and the store as needed, and gives the
/// location of the page.
pub fn post_page(store: &mut Option<CommentStore>, page: &str) -> (r: String)
    requires
        store_ok(*old(store)),
    ensures
        *final(store) is Some,
        store_ok(*final(store)),
        model_of(*final(store)) == ensured(model_of(*old(store)), page@),
        r@ == page_path(page@),
{
    let s = store_mut(store);
    let _ = s.fetch_or_create_comments_for_page(page);
    page_location(page)
}

} // verus!
