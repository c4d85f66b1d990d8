//! Content uploads as reported to callers.

use vstd::prelude::*;

verus! {

/// One relocated image as reported in an upload response.
#[derive(Debug, Clone)]
pub struct ImageInfoDto {
    pub filename: String,
    pub url: String,
    pub content_type: String,
    pub size: u64,
}

/// A request to turn an extracted upload into a chapter.
#[derive(Debug, Clone)]
pub struct CreateChapterFromUploadDto {
    pub upload_id: String,
    pub title: String,
    pub book_id: String,
    pub description: String,
    pub chapter_num: i32,
}

} // verus!
