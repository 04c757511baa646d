//! In-memory stores behind a small blog service: posts keyed by a
//! sequential identifier, and per-post comment threads.

pub mod comment_store;
pub mod post_store;

pub use comment_store::{Comment, CommentStore};
pub use post_store::{Post, PostStore};
