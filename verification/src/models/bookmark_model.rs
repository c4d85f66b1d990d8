//! Bookmarks and the book summaries shown with them.

use vstd::prelude::*;

verus! {

/// A request to bookmark a book.
#[derive(Debug, Clone)]
pub struct CreateBookmarkDto {
    pub book_id: String,
}

/// A book as summarised beside a bookmark.
#[derive(Debug, Clone)]
pub struct BookSummary {
    pub id: String,
    pub title: String,
    pub cover: String,
    pub author: String,
    pub description: String,
}

/// Whether a book is bookmarked, and under which bookmark.
#[derive(Debug, Clone)]
pub struct BookmarkStatusResponse {
    pub is_bookmarked: bool,
    pub bookmark_id: Option<String>,
}

} // verus!
