//! Books as callers create and update them.

use vstd::prelude::*;

verus! {

/// The languages the catalogue distinguishes.
#[derive(Debug, Clone, Copy, PartialEq, Eq, Structural)]
pub enum Language {
    English,
    Korean,
    Japanese,
}

/// A request to create a book.
#[derive(Debug, Clone)]
pub struct CreateBookDto {
    pub title: String,
    pub author: String,
    pub cover: String,
    pub status: String,
    pub language: String,
    pub release_date: String,
}

/// A request to update a book; absent fields stay unchanged.
#[derive(Debug, Clone)]
pub struct UpdateBookDto {
    pub title: Option<String>,
    pub author: Option<String>,
    pub cover: Option<String>,
    pub status: Option<String>,
    pub language: Option<String>,
    pub release_date: Option<String>,
}

/// The page selection of the book-listing endpoint.
#[derive(Debug, Clone)]
pub struct PaginationParams {
    /// The 1-based page number.
    pub page: i64,
    /// How many books one page holds.
    pub page_size: i64,
}

} // verus!
