//! Extraction of book-chapter content from uploaded manuscript containers.
//!
//! EPUB and DOCX manuscripts are both ZIP archives carrying different
//! internal schemas.  This library sniffs the true format from the archive
//! contents, collects the embedded raster and vector images, plans their
//! relocation to durable object storage, rewrites every in-document image
//! reference to the relocated location, and, for DOCX, reconstructs a
//! simplified HTML document from the paragraph/run markup model.
//!
//! Archive decoding is delegated to the `zip` crate behind a small trusted
//! boundary; everything the pipeline decides on top of it is verified.

pub mod archive;
pub mod config;
pub mod docx;
pub mod errors;
pub mod extract;
pub mod models;
pub mod pathmap;
pub mod rewrite;
pub mod sniff;
pub mod strutil;
