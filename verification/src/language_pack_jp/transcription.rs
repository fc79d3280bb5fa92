//! The segments of an ebook, as the text side of an alignment.
use vstd::prelude::*;
use crate::language_pack::segment::Segment;

verus! {

/// The text segments of an ebook, in reading order.
#[derive(Debug)]
pub struct EbookSegments<S>(pub Vec<S>);

impl<S> EbookSegments<S> {
    /// The segments `data`, as they are.
    pub fn new(data: Vec<S>) -> (r: Self)
        ensures
            r.0@ == data@,
    {
        Self(data)
    }

    /// The segments of the passages, in order, each with the index of the
    /// passage it came from; `segmented` holds what the segmenter gave for
    /// each passage.
    pub fn segments<T>(&self, segmented: Vec<Vec<T>>) -> (r: Vec<Segment<T, usize>>)
        ensures
            r@.map_values(|s: Segment<T, usize>| (s.data, s.source as int)) == sourced(segmented@.map_values(|v: Vec<T>| v@)),
    {
        let ghost parts = segmented@.map_values(|v: Vec<T>| v@);
        let n = segmented.len();
        let mut rest = segmented;
        let mut out: Vec<Segment<T, usize>> = Vec::new();
        let mut k: usize = 0;
        proof {
            assert(parts.take(0) =~= Seq::<Seq<T>>::empty());
            assert(out@.map_values(|s: Segment<T, usize>| (s.data, s.source as int)) =~= Seq::<(T, int)>::empty());
        }
        while k < n
            invariant
                n == parts.len(),
                k <= n,
                rest@.len() == n - k,
                forall|j: int| 0 <= j < n - k ==> (#[trigger] rest@[j])@ == parts[k + j],
                out@.map_values(|s: Segment<T, usize>| (s.data, s.source as int)) == sourced(parts.take(k as int)),
            decreases n - k,
        {
            let ghost old_rest = rest@;
            let mut items = rest.remove(0);
            proof {
                assert(items@ == parts[k as int]);
                assert forall|j: int| 0 <= j < n - (k + 1) implies (#[trigger] rest@[j])@ == parts[k + 1 + j] by {
                    assert(rest@[j] == old_rest[j + 1]);
                }
            }
            let ghost before = out@.map_values(|s: Segment<T, usize>| (s.data, s.source as int));
            let ghost all_items = items@;
            let m = items.len();
            let mut i: usize = 0;
            while i < m
                invariant
                    m == all_items.len(),
                    i <= m,
                    items@.len() == m - i,
                    forall|j: int| 0 <= j < m - i ==> #[trigger] items@[j] == all_items[i + j],
                    out@.map_values(|s: Segment<T, usize>| (s.data, s.source as int)) == before + all_items.take(i as int).map_values(|d: T| (d, k as int)),
                decreases m - i,
            {
                let ghost old_items = items@;
                let d = items.remove(0);
                proof {
                    assert(d == all_items[i as int]);
                    assert forall|j: int| 0 <= j < m - (i + 1) implies #[trigger] items@[j] == all_items[i + 1 + j] by {
                        assert(items@[j] == old_items[j + 1]);
                    }
                }
                let ghost ov = out@.map_values(|s: Segment<T, usize>| (s.data, s.source as int));
                let ghost dg = d;
                out.push(Segment { data: d, source: k });
                proof {
                    assert(out@.map_values(|s: Segment<T, usize>| (s.data, s.source as int)) =~= ov.push((dg, k as int)));
                    assert(all_items.take(i + 1).map_values(|d: T| (d, k as int)) =~= all_items.take(i as int).map_values(|d: T| (d, k as int)).push((all_items[i as int], k as int)));
                    assert(out@.map_values(|s: Segment<T, usize>| (s.data, s.source as int)) =~= before + all_items.take(i + 1).map_values(|d: T| (d, k as int)));
                }
                i = i + 1;
            }
            proof {
                assert(all_items.take(m as int) =~= all_items);
                assert(parts.take(k + 1).drop_last() =~= parts.take(k as int));
                assert(parts.take(k + 1).last() == all_items);
            }
            k = k + 1;
        }
        proof {
            assert(parts.take(n as int) =~= parts);
        }
        out
    }

    /// The passage a segment came from.
    pub fn source<'a, T>(&self, segment: &'a Segment<T, usize>) -> (r: &'a usize)
        ensures
            *r == segment.source,
    {
        &segment.source
    }
}

/// The passage that all of `sources` come from, where they come from one;
/// `None` where there are none or they come from more than one.
pub fn common_source(sources: &[usize]) -> (r: Option<usize>)
    ensures
        r is Some <==> (sources@.len() > 0 && forall|i: int| 0 <= i < sources@.len() ==> #[trigger] sources@[i] == sources@[0]),
        r matches Some(s) ==> s == sources@[0],
{
    if sources.len() == 0 {
        return None;
    }
    let source = sources[0];
    let mut i: usize = 1;
    while i < sources.len()
        invariant
            1 <= i <= sources@.len(),
            source == sources@[0],
            forall|j: int| 0 <= j < i ==> #[trigger] sources@[j] == source,
        decreases sources.len() - i,
    {
        if sources[i] != source {
            return None;
        }
        i = i + 1;
    }
    Some(source)
}

/// Each item of the parts, in order, with the index of its part.
pub open spec fn sourced<T>(parts: Seq<Seq<T>>) -> Seq<(T, int)>
    decreases parts.len(),
{
    if parts.len() == 0 {
        Seq::empty()
    } else {
        sourced(parts.drop_last()) + parts.last().map_values(|d: T| (d, parts.len() - 1))
    }
}

} // verus!
