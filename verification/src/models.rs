//! The data model shared with the service around the library.

pub mod auth_model;
pub mod book_model;
pub mod bookmark_model;
pub mod paging;
pub mod upload_model;
pub mod user_model;
