//! A language pipeline: a segmenter shared by the timing and text data.
use vstd::prelude::*;

verus! {

/// A pipeline that segments text with `segmenter`.
pub struct LanguagePipeline<TSegmenter> {
    pub segmenter: TSegmenter,
}

/// Builds a pipeline around `segmenter`.
pub fn create_pipeline<TSegmenter>(segmenter: TSegmenter) -> (r: LanguagePipeline<TSegmenter>)
    ensures
        r.segmenter == segmenter,
{
    LanguagePipeline { segmenter }
}

/// A run of segments that the aligner matched: where it starts and how
/// many segments it covers, on the timing side and on the text side.
#[derive(Debug, Clone, Copy, PartialEq, Eq, Structural)]
pub struct Alignment {
    pub timing_pos: usize,
    pub timing_len: usize,
    pub text_pos: usize,
    pub text_len: usize,
}

/// How a timestamp is handed from the timing data to the text data.
#[derive(Debug, Clone, Copy, PartialEq, Eq, Structural)]
pub enum TimingStep {
    /// The text segment at `text` takes the timestamp of the timing segment
    /// at `timing`.
    Accept { timing: usize, text: usize },
    /// The text segments of a range take, if they come from one place, the
    /// timestamp that the timing segments of a range produce together.
    AcceptRanged { timing_pos: usize, timing_len: usize, text_pos: usize, text_len: usize },
}

/// The steps for one alignment: segment by segment where both sides are
/// equally long, else one step for the two ranges.
pub open spec fn alignment_steps(a: Alignment) -> Seq<TimingStep> {
    if a.timing_len == a.text_len {
        Seq::new(a.timing_len as nat, |i: int| TimingStep::Accept { timing: (a.timing_pos + i) as usize, text: (a.text_pos + i) as usize })
    } else {
        seq![TimingStep::AcceptRanged { timing_pos: a.timing_pos, timing_len: a.timing_len, text_pos: a.text_pos, text_len: a.text_len }]
    }
}

/// The steps for the alignments `als`, in order.
pub open spec fn steps_of(als: Seq<Alignment>) -> Seq<TimingStep>
    decreases als.len(),
{
    if als.len() == 0 {
        Seq::empty()
    } else {
        steps_of(als.drop_last()) + alignment_steps(als.last())
    }
}

/// Whether the ranges of an alignment end within the machine's indices.
pub open spec fn alignment_fits(a: Alignment) -> bool {
    a.timing_pos + a.timing_len <= usize::MAX && a.text_pos + a.text_len <= usize::MAX
}

impl<TSegmenter> LanguagePipeline<TSegmenter> {
    /// The steps by which the timestamps of the timing data reach the text
    /// data, given the alignments of their segments.
    pub fn timing_steps(&self, alignments: &Vec<Alignment>) -> (r: Vec<TimingStep>)
        requires
            forall|k: int| 0 <= k < alignments@.len() ==> alignment_fits(#[trigger] alignments@[k]),
        ensures
            r@ == steps_of(alignments@),
    {
        let mut steps: Vec<TimingStep> = Vec::new();
        let mut k: usize = 0;
        while k < alignments.len()
            invariant
                k <= alignments@.len(),
                forall|j: int| 0 <= j < alignments@.len() ==> alignment_fits(#[trigger] alignments@[j]),
                steps@ == steps_of(alignments@.take(k as int)),
            decreases alignments.len() - k,
        {
            let a = alignments[k];
            proof {
                assert(alignment_fits(alignments@[k as int]));
                assert(alignments@.take(k + 1).drop_last() =~= alignments@.take(k as int));
                assert(alignments@.take(k + 1).last() == a);
            }
            let ghost before = steps@;
            if a.timing_len == a.text_len {
                let mut i: usize = 0;
                while i < a.timing_len
                    invariant
                        a.timing_len == a.text_len,
                        alignment_fits(a),
                        i <= a.timing_len,
                        steps@ == before + alignment_steps(a).take(i as int),
                    decreases a.timing_len - i,
                {
                    steps.push(TimingStep::Accept { timing: a.timing_pos + i, text: a.text_pos + i });
                    proof {
                        assert(alignment_steps(a).take(i + 1) =~= alignment_steps(a).take(i as int).push(alignment_steps(a)[i as int]));
                    }
                    i = i + 1;
                }
                proof {
                    assert(alignment_steps(a).take(i as int) =~= alignment_steps(a));
                }
            } else {
                steps.push(TimingStep::AcceptRanged {
                    timing_pos: a.timing_pos,
                    timing_len: a.timing_len,
                    text_pos: a.text_pos,
                    text_len: a.text_len,
                });
                proof {
                    assert(steps@ =~= before + alignment_steps(a));
                }
            }
            k = k + 1;
        }
        proof {
            assert(alignments@.take(k as int) =~= alignments@);
        }
        steps
    }
}

} // verus!
