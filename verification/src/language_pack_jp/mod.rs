//! Japanese language support: character tables, text processors,
//! morphological segments and inflection grouping.
pub mod text;
pub mod morphology;
pub mod processor;
pub mod splitting;
pub mod segment;
pub mod transform;
pub mod transforms;
pub mod transcription;

use vstd::prelude::*;
use crate::language_pack::pipeline::{create_pipeline, LanguagePipeline};
use self::segment::JapaneseTextSegmenter;

verus! {

/// The Japanese pipeline: segmenting with the UniDic dictionary under the
/// `home` directory.
pub fn japanese_language_pipeline(home: &str) -> (r: LanguagePipeline<JapaneseTextSegmenter>)
    ensures
        r.segmenter.tagger_args@ == JapaneseTextSegmenter::args_for(home@),
{
    create_pipeline(JapaneseTextSegmenter::new(home))
}

} // verus!
