//! Language-independent text processing: transforms, processors, segmenters
//! and suffix deinflection.
pub mod processor;
pub mod segment;
pub mod transform;
pub mod pipeline;
pub mod lexicon;
pub mod resolve;
pub mod transcription;

pub use self::processor::{Processor, TextProcessor, TextProcessors, Transform};
pub use self::segment::{IsSegment, TextSegmenter};
