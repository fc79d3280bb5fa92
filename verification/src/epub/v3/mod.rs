//! EPUB 3 documents.
pub mod nav;
pub mod package;
