pub mod handlers;
pub mod render;
pub mod store;

pub use handlers::{PageError, get_comments, get_page, page_location, post_comment, post_page};
pub use render::render_page;
pub use store::{Comment, CommentForm, CommentStore};
