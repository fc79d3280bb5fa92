//! EPUB 2 documents.
pub mod ncx;
