//! Segmenting text into its basic parts.
use vstd::prelude::*;

verus! {

/// A part of a segmented text.
pub trait IsSegment {
    /// The text of the segment.
    fn text(&self) -> &str;
}

/// A type that can segment a given text into its basic parts for further
/// text processing.
pub trait TextSegmenter {
    type Feature: IsSegment;

    fn segment(&self, text: &str) -> Vec<Self::Feature>;
}

/// A segment of text, with where it came from.
#[derive(Debug)]
pub struct Segment<TData, TSource> {
    pub data: TData,
    pub source: TSource,
}

} // verus!
