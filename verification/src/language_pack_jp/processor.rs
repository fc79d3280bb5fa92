//! Japanese text processors: half-width katakana, combining voicing marks,
//! Unicode normalization and emphatic sequences.
use vstd::prelude::*;
use core::ops::Range;
use crate::language_pack::processor::{
    char_width, lemma_utf8_size_append, lemma_utf8_size_prefix, lemma_utf8_size_prefix_le,
    utf8_size, utf8_width, Mapping, Processor, TextProcessor, Transform,
};
use crate::text::{chars_of, string_of};
use super::text::{
    dakuten, half_width, half_width_dakuten, half_width_handakuten, handakuten, is_dakuten,
    is_halfwidth, spec_dakuten, spec_half_width, spec_half_width_dakuten,
    spec_half_width_handakuten, spec_handakuten, spec_is_dakuten, spec_is_halfwidth, DAKUTEN_COMB,
    DAKUTEN_FULL, DAKUTEN_HALF, HANDAKUTEN_COMB, HANDAKUTEN_FULL, HANDAKUTEN_HALF,
};

verus! {

/// Which characters a merging pass joins.
#[derive(Clone, Copy, PartialEq, Eq, Structural)]
pub enum MarkMerge {
    /// Half-width katakana, joined with a following half-width voicing mark.
    HalfWidth,
    /// Full-width kana, joined with a following voicing mark in any form.
    Combining,
}

/// The single character that `curr` and the voicing mark `next` join into,
/// if they join.
pub open spec fn merged_pair(kind: MarkMerge, curr: char, next: char) -> Option<char> {
    match kind {
        MarkMerge::HalfWidth => if next == DAKUTEN_HALF {
            spec_half_width_dakuten(curr)
        } else if next == HANDAKUTEN_HALF {
            spec_half_width_handakuten(curr)
        } else {
            None
        },
        MarkMerge::Combining => if next == DAKUTEN_HALF || next == DAKUTEN_FULL || next == DAKUTEN_COMB {
            spec_dakuten(curr)
        } else if next == HANDAKUTEN_HALF || next == HANDAKUTEN_FULL || next == HANDAKUTEN_COMB {
            spec_handakuten(curr)
        } else {
            None
        },
    }
}

/// What a character that joins with nothing becomes.
pub open spec fn single_char(kind: MarkMerge, c: char) -> char {
    match kind {
        MarkMerge::HalfWidth => match spec_half_width(c) {
            Some(f) => f,
            None => c,
        },
        MarkMerge::Combining => c,
    }
}

/// The text of a merging pass over `s`, from the front: a character and the
/// voicing mark after it become one character where they join; every other
/// character is taken on its own.
pub open spec fn merge_text(s: Seq<char>, kind: MarkMerge) -> Seq<char>
    decreases s.len(),
{
    if s.len() == 0 {
        Seq::empty()
    } else if s.len() >= 2 && merged_pair(kind, s[0], s[1]) is Some {
        seq![merged_pair(kind, s[0], s[1])->0] + merge_text(s.skip(2), kind)
    } else {
        seq![single_char(kind, s[0])] + merge_text(s.skip(1), kind)
    }
}

/// The byte ranges that a merging pass records: for each output character,
/// the range `src..src + w` it takes in the new text (`w` being the width
/// of the joined character, or of the input character when nothing joins)
/// and the range `dst..` that the input characters it came from took in the
/// old text.
pub open spec fn merge_mappings(s: Seq<char>, kind: MarkMerge, src: nat, dst: nat) -> Seq<(nat, nat, nat, nat)>
    decreases s.len(),
{
    if s.len() == 0 {
        Seq::empty()
    } else if s.len() >= 2 && merged_pair(kind, s[0], s[1]) is Some {
        let m = merged_pair(kind, s[0], s[1])->0;
        let w = utf8_width(s[0]) + utf8_width(s[1]);
        seq![(src, src + utf8_width(m), dst, dst + w)] + merge_mappings(s.skip(2), kind, src + utf8_width(m), dst + w)
    } else {
        let w = utf8_width(s[0]);
        seq![(src, src + w, dst, dst + w)] + merge_mappings(s.skip(1), kind, src + w, dst + w)
    }
}

/// The four bounds of a mapping.
pub open spec fn mapping_bounds(m: Mapping) -> (nat, nat, nat, nat) {
    (m.0.start as nat, m.0.end as nat, m.1.start as nat, m.1.end as nat)
}

fn merged_pair_exec(kind: MarkMerge, curr: char, next: char) -> (r: Option<char>)
    ensures
        r == merged_pair(kind, curr, next),
{
    match kind {
        MarkMerge::HalfWidth => if next == DAKUTEN_HALF {
            half_width_dakuten(curr)
        } else if next == HANDAKUTEN_HALF {
            half_width_handakuten(curr)
        } else {
            None
        },
        MarkMerge::Combining => if next == DAKUTEN_HALF || next == DAKUTEN_FULL || next == DAKUTEN_COMB {
            dakuten(curr)
        } else if next == HANDAKUTEN_HALF || next == HANDAKUTEN_FULL || next == HANDAKUTEN_COMB {
            handakuten(curr)
        } else {
            None
        },
    }
}

fn single_char_exec(kind: MarkMerge, c: char) -> (r: char)
    ensures
        r == single_char(kind, c),
{
    match kind {
        MarkMerge::HalfWidth => match half_width(c) {
            Some(f) => f,
            None => c,
        },
        MarkMerge::Combining => c,
    }
}

proof fn lemma_merged_width(kind: MarkMerge, curr: char, next: char)
    requires
        merged_pair(kind, curr, next) is Some,
    ensures
        utf8_width(merged_pair(kind, curr, next)->0) <= utf8_width(curr) + utf8_width(next),
{
}

/// One merging pass over `text`: the new text and its byte mappings.
fn merge_pass(text: &Vec<char>, kind: MarkMerge) -> (r: (Vec<char>, Vec<Mapping>))
    requires
        utf8_size(text@) <= usize::MAX,
    ensures
        r.0@ == merge_text(text@, kind),
        r.1@.map_values(|m: Mapping| mapping_bounds(m)) == merge_mappings(text@, kind, 0, 0),
{
    let mut line: Vec<char> = Vec::new();
    let mut mappings: Vec<Mapping> = Vec::new();
    let mut src_idx: usize = 0;
    let mut dst_idx: usize = 0;
    let mut i: usize = 0;
    let n = text.len();
    proof {
        assert(text@.skip(0) =~= text@);
        assert(text@.subrange(0, 0) =~= Seq::<char>::empty());
    }
    while i < n
        invariant
            n == text.len(),
            i <= n,
            utf8_size(text@) <= usize::MAX,
            dst_idx == utf8_size(text@.subrange(0, i as int)),
            src_idx <= dst_idx,
            line@ + merge_text(text@.skip(i as int), kind) == merge_text(text@, kind),
            mappings@.map_values(|m: Mapping| mapping_bounds(m)) + merge_mappings(text@.skip(i as int), kind, src_idx as nat, dst_idx as nat) == merge_mappings(text@, kind, 0, 0),
        decreases n - i,
    {
        let curr = text[i];
        let curr_len = char_width(curr);
        let rest = Ghost(text@.skip(i as int));
        proof {
            assert(rest@[0] == curr);
            lemma_utf8_size_prefix(text@, i as int);
            lemma_utf8_size_prefix_le(text@, i + 1);
        }
        let mut merged: Option<char> = None;
        if i + 1 < n {
            merged = merged_pair_exec(kind, curr, text[i + 1]);
        }
        match merged {
            Some(m) => {
                let next_len = char_width(text[i + 1]);
                let merged_len = char_width(m);
                proof {
                    assert(rest@[1] == text@[i + 1]);
                    assert(rest@.len() >= 2);
                    lemma_merged_width(kind, curr, text@[i + 1]);
                    lemma_utf8_size_prefix(text@, i + 1);
                    lemma_utf8_size_prefix_le(text@, i + 2);
                    assert(rest@.skip(2) =~= text@.skip(i + 2));
                }
                let ghost old_maps = mappings@.map_values(|m: Mapping| mapping_bounds(m));
                line.push(m);
                mappings.push(
                    (
                        Range { start: src_idx, end: src_idx + merged_len },
                        Range { start: dst_idx, end: dst_idx + curr_len + next_len },
                    ),
                );
                proof {
                    assert(mappings@.map_values(|m: Mapping| mapping_bounds(m)) =~= old_maps.push(
                        (src_idx as nat, (src_idx + merged_len) as nat, dst_idx as nat, (dst_idx + curr_len + next_len) as nat),
                    ));
                }
                src_idx = src_idx + merged_len;
                dst_idx = dst_idx + curr_len + next_len;
                i = i + 2;
            },
            None => {
                let c = single_char_exec(kind, curr);
                proof {
                    assert(rest@.skip(1) =~= text@.skip(i + 1));
                    if rest@.len() >= 2 {
                        assert(rest@[1] == text@[i + 1]);
                    }
                }
                let ghost old_maps = mappings@.map_values(|m: Mapping| mapping_bounds(m));
                line.push(c);
                mappings.push(
                    (
                        Range { start: src_idx, end: src_idx + curr_len },
                        Range { start: dst_idx, end: dst_idx + curr_len },
                    ),
                );
                proof {
                    assert(mappings@.map_values(|m: Mapping| mapping_bounds(m)) =~= old_maps.push(
                        (src_idx as nat, (src_idx + curr_len) as nat, dst_idx as nat, (dst_idx + curr_len) as nat),
                    ));
                }
                src_idx = src_idx + curr_len;
                dst_idx = dst_idx + curr_len;
                i = i + 1;
            },
        }
    }
    proof {
        assert(text@.skip(n as int) =~= Seq::<char>::empty());
    }
    (line, mappings)
}

/// Converts half-width katakana into full-width katakana.
///
/// Dakuten and handakuten will be merged into a single character if the
/// mapping is legal. Illegal mappings will remain separate.
///
/// For example:
///
///   - ﾖﾐﾁｬﾝ -> ヨミチャン
///   - ﾏﾂｵ ﾊﾞｼｮｳ ｱﾟ -> マツオ バショウ ア゚
pub struct ConvertHalfWidth;

impl TextProcessor for ConvertHalfWidth {
    open spec fn applies_to(&self, text: Seq<char>) -> bool {
        exists|i: int| 0 <= i < text.len() && spec_is_halfwidth(#[trigger] text[i])
    }

    open spec fn processed_text(&self, text: Seq<char>) -> Seq<char> {
        merge_text(text, MarkMerge::HalfWidth)
    }

    open spec fn can_process(&self, text: Seq<char>) -> bool {
        utf8_size(text) <= usize::MAX
    }

    fn matches(&self, text: &str) -> (r: bool) {
        let chars = chars_of(text);
        let mut i: usize = 0;
        while i < chars.len()
            invariant
                i <= chars.len(),
                chars@ == text@,
                forall|j: int| 0 <= j < i ==> !spec_is_halfwidth(#[trigger] chars@[j]),
            decreases chars.len() - i,
        {
            if is_halfwidth(chars[i]) {
                return true;
            }
            i = i + 1;
        }
        false
    }

    fn process(&self, transform: Transform) -> (r: Transform)
        ensures
            r.mappings@.map_values(|m: Mapping| mapping_bounds(m)) == merge_mappings(transform.text@, MarkMerge::HalfWidth, 0, 0),
            tiles(r.mappings@.map_values(|m: Mapping| mapping_bounds(m)), 0, utf8_size(r.text@), 0, utf8_size(transform.text@)),
    {
        let chars = chars_of(transform.text.as_str());
        let (line, mappings) = merge_pass(&chars, MarkMerge::HalfWidth);
        proof {
            lemma_merge_mappings_tile(chars@, MarkMerge::HalfWidth, 0, 0);
        }
        Transform { text: string_of(&line), mappings, previous: Some(Box::new(transform)) }
    }
}

/// Normalizes text containing combining voicing marks.
///
/// For example:
///
///   - ド -> ド (U+30C8 U+3099 -> U+30C9)
pub struct NormalizeCombiningCharacters;

impl TextProcessor for NormalizeCombiningCharacters {
    open spec fn applies_to(&self, text: Seq<char>) -> bool {
        exists|i: int| 0 <= i < text.len() && spec_is_dakuten(#[trigger] text[i])
    }

    open spec fn processed_text(&self, text: Seq<char>) -> Seq<char> {
        merge_text(text, MarkMerge::Combining)
    }

    open spec fn can_process(&self, text: Seq<char>) -> bool {
        utf8_size(text) <= usize::MAX
    }

    fn matches(&self, text: &str) -> (r: bool) {
        let chars = chars_of(text);
        let mut i: usize = 0;
        while i < chars.len()
            invariant
                i <= chars.len(),
                chars@ == text@,
                forall|j: int| 0 <= j < i ==> !spec_is_dakuten(#[trigger] chars@[j]),
            decreases chars.len() - i,
        {
            if is_dakuten(chars[i]) {
                return true;
            }
            i = i + 1;
        }
        false
    }

    fn process(&self, transform: Transform) -> (r: Transform)
        ensures
            r.mappings@.map_values(|m: Mapping| mapping_bounds(m)) == merge_mappings(transform.text@, MarkMerge::Combining, 0, 0),
            tiles(r.mappings@.map_values(|m: Mapping| mapping_bounds(m)), 0, utf8_size(r.text@), 0, utf8_size(transform.text@)),
    {
        let chars = chars_of(transform.text.as_str());
        let (line, mappings) = merge_pass(&chars, MarkMerge::Combining);
        proof {
            lemma_merge_mappings_tile(chars@, MarkMerge::Combining, 0, 0);
        }
        Transform { text: string_of(&line), mappings, previous: Some(Box::new(transform)) }
    }
}

/// Merging never makes a text longer in UTF-8.
pub proof fn lemma_merge_text_size(s: Seq<char>, kind: MarkMerge)
    ensures
        utf8_size(merge_text(s, kind)) <= utf8_size(s),
    decreases s.len(),
{
    if s.len() > 0 {
        assert(s =~= seq![s[0]] + s.skip(1));
        lemma_utf8_size_append(seq![s[0]], s.skip(1));
        lemma_utf8_size_single(s[0]);
        if s.len() >= 2 && merged_pair(kind, s[0], s[1]) is Some {
            let m = merged_pair(kind, s[0], s[1])->0;
            assert(s.skip(1) =~= seq![s[1]] + s.skip(2));
            lemma_utf8_size_append(seq![s[1]], s.skip(2));
            lemma_utf8_size_single(s[1]);
            lemma_merge_text_size(s.skip(2), kind);
            lemma_merged_width(kind, s[0], s[1]);
            lemma_utf8_size_single(m);
            lemma_utf8_size_append(seq![m], merge_text(s.skip(2), kind));
        } else {
            lemma_merge_text_size(s.skip(1), kind);
            let c = single_char(kind, s[0]);
            lemma_single_width(kind, s[0]);
            lemma_utf8_size_single(c);
            lemma_utf8_size_append(seq![c], merge_text(s.skip(1), kind));
        }
    }
}

/// Whether the ranges `ms` tile the new text's bytes `src..src_end` and the
/// old text's bytes `dst..dst_end`: in order, each range starting where the
/// one before it ended, none of them empty, and the last one ending at the
/// end.
pub open spec fn tiles(ms: Seq<(nat, nat, nat, nat)>, src: nat, src_end: nat, dst: nat, dst_end: nat) -> bool
    decreases ms.len(),
{
    if ms.len() == 0 {
        src == src_end && dst == dst_end
    } else {
        &&& ms[0].0 == src
        &&& ms[0].2 == dst
        &&& ms[0].0 < ms[0].1
        &&& ms[0].2 < ms[0].3
        &&& tiles(ms.skip(1), ms[0].1, src_end, ms[0].3, dst_end)
    }
}

/// The mappings of a merging pass cover both texts without gap or overlap:
/// one range per output character, the output ranges tiling the new text's
/// bytes and the input ranges tiling the old text's bytes, so that a joined
/// pair maps one output character to both input characters.
pub proof fn lemma_merge_mappings_tile(s: Seq<char>, kind: MarkMerge, src: nat, dst: nat)
    ensures
        merge_mappings(s, kind, src, dst).len() == merge_text(s, kind).len(),
        tiles(
            merge_mappings(s, kind, src, dst),
            src,
            src + utf8_size(merge_text(s, kind)),
            dst,
            dst + utf8_size(s),
        ),
    decreases s.len(),
{
    let ms = merge_mappings(s, kind, src, dst);
    if s.len() == 0 {
        assert(utf8_size(s) == 0);
        assert(utf8_size(merge_text(s, kind)) == 0) by {
            assert(merge_text(s, kind) =~= Seq::<char>::empty());
        }
    } else {
        assert(s =~= seq![s[0]] + s.skip(1));
        lemma_utf8_size_append(seq![s[0]], s.skip(1));
        lemma_utf8_size_single(s[0]);
        if s.len() >= 2 && merged_pair(kind, s[0], s[1]) is Some {
            let m = merged_pair(kind, s[0], s[1])->0;
            let w = utf8_width(s[0]) + utf8_width(s[1]);
            assert(s.skip(1) =~= seq![s[1]] + s.skip(2));
            lemma_utf8_size_append(seq![s[1]], s.skip(2));
            lemma_utf8_size_single(s[1]);
            lemma_utf8_size_single(m);
            lemma_utf8_size_append(seq![m], merge_text(s.skip(2), kind));
            lemma_merge_mappings_tile(s.skip(2), kind, src + utf8_width(m), dst + w);
            assert(ms.skip(1) =~= merge_mappings(s.skip(2), kind, src + utf8_width(m), dst + w));
        } else {
            let c = single_char(kind, s[0]);
            let w = utf8_width(s[0]);
            lemma_utf8_size_single(c);
            lemma_utf8_size_append(seq![c], merge_text(s.skip(1), kind));
            lemma_merge_mappings_tile(s.skip(1), kind, src + w, dst + w);
            assert(ms.skip(1) =~= merge_mappings(s.skip(1), kind, src + w, dst + w));
            assert(utf8_width(c) == w);
        }
    }
}

proof fn lemma_single_width(kind: MarkMerge, c: char)
    ensures
        utf8_width(single_char(kind, c)) <= utf8_width(c),
{
}

proof fn lemma_utf8_size_single(c: char)
    ensures
        utf8_size(seq![c]) == utf8_width(c),
{
    assert(seq![c].drop_last() =~= Seq::<char>::empty());
    assert(utf8_size(Seq::<char>::empty()) == 0);
    assert(seq![c].last() == c);
}

/// Whether `c` is one of the emphatic characters `っ`, `ッ` and `ー`.
pub open spec fn spec_is_emphatic(c: char) -> bool {
    c == '\u{3063}' || c == '\u{30C3}' || c == '\u{30FC}'
}

/// Whether `c` is one of the emphatic characters `っ`, `ッ` and `ー`.
pub fn is_emphatic(c: char) -> (r: bool)
    ensures
        r == spec_is_emphatic(c),
{
    c == '\u{3063}' || c == '\u{30C3}' || c == '\u{30FC}'
}

/// Whether the character at `i` is kept when emphatic sequences are
/// collapsed: it is dropped when it is emphatic and a neighbour is too.
pub open spec fn kept_in_collapse(s: Seq<char>, i: int) -> bool {
    !(spec_is_emphatic(s[i]) && ((i > 0 && spec_is_emphatic(s[i - 1])) || (i + 1 < s.len()
        && spec_is_emphatic(s[i + 1]))))
}

/// The characters among the first `n` of `s` that collapsing keeps.
pub open spec fn collapse_prefix(s: Seq<char>, n: int) -> Seq<char>
    decreases n,
{
    if n <= 0 {
        Seq::empty()
    } else if kept_in_collapse(s, n - 1) {
        collapse_prefix(s, n - 1).push(s[n - 1])
    } else {
        collapse_prefix(s, n - 1)
    }
}

/// `s` with every run of two or more emphatic characters removed; single
/// emphatic characters stay.
pub open spec fn collapse_emphatic(s: Seq<char>) -> Seq<char> {
    collapse_prefix(s, s.len() as int)
}

/// Collapses emphatic sequences.
///
/// Sequences are only collapsed when they are 2 characters or longer, and
/// they are collapsed down to zero. Sequences of one character are not
/// touched.
///
/// For example:
///
///   - すっっごーーい -> すごい
/// Whether no two neighbouring characters of `s` are both emphatic.
pub open spec fn no_emphatic_pairs(s: Seq<char>) -> bool {
    forall|i: int| 0 <= i < s.len() - 1 ==> !(spec_is_emphatic(#[trigger] s[i]) && spec_is_emphatic(s[i + 1]))
}

/// An emphatic character at the end of what is kept of the first `n`
/// characters is the last of them.
proof fn lemma_collapse_last(s: Seq<char>, n: int)
    requires
        0 <= n <= s.len(),
    ensures
        collapse_prefix(s, n).len() > 0 && spec_is_emphatic(collapse_prefix(s, n).last())
            ==> n > 0 && kept_in_collapse(s, n - 1) && collapse_prefix(s, n).last() == s[n - 1],
    decreases n,
{
    if n > 0 {
        lemma_collapse_last(s, n - 1);
    }
}

/// What is kept of the first `n` characters has no emphatic pair.
proof fn lemma_collapse_prefix_pairs(s: Seq<char>, n: int)
    requires
        0 <= n <= s.len(),
    ensures
        no_emphatic_pairs(collapse_prefix(s, n)),
    decreases n,
{
    if n > 0 {
        lemma_collapse_prefix_pairs(s, n - 1);
        lemma_collapse_last(s, n - 1);
        let before = collapse_prefix(s, n - 1);
        if kept_in_collapse(s, n - 1) {
            let after = before.push(s[n - 1]);
            assert forall|i: int| 0 <= i < after.len() - 1 implies !(spec_is_emphatic(#[trigger] after[i]) && spec_is_emphatic(after[i + 1])) by {
                if i < before.len() - 1 {
                    assert(after[i] == before[i] && after[i + 1] == before[i + 1]);
                } else {
                    assert(after[i] == before.last());
                    assert(after[i + 1] == s[n - 1]);
                }
            }
        }
    }
}

/// A text without emphatic pairs is kept whole.
proof fn lemma_collapse_keeps_all(s: Seq<char>, n: int)
    requires
        0 <= n <= s.len(),
        no_emphatic_pairs(s),
    ensures
        collapse_prefix(s, n) == s.take(n),
    decreases n,
{
    if n > 0 {
        lemma_collapse_keeps_all(s, n - 1);
        if n - 1 > 0 {
            assert(!(spec_is_emphatic(s[n - 2]) && spec_is_emphatic(s[n - 1])));
        }
        if n < s.len() {
            assert(!(spec_is_emphatic(s[n - 1]) && spec_is_emphatic(s[n])));
        }
        assert(kept_in_collapse(s, n - 1));
        assert(s.take(n) =~= s.take(n - 1).push(s[n - 1]));
    }
}

/// Collapsing leaves no two neighbouring emphatic characters, and
/// collapsing again changes nothing.
pub proof fn lemma_collapse_idempotent(s: Seq<char>)
    ensures
        no_emphatic_pairs(collapse_emphatic(s)),
        collapse_emphatic(collapse_emphatic(s)) == collapse_emphatic(s),
{
    lemma_collapse_prefix_pairs(s, s.len() as int);
    let t = collapse_emphatic(s);
    lemma_collapse_keeps_all(t, t.len() as int);
    assert(t.take(t.len() as int) =~= t);
}

pub struct CollapseEmphaticSequences;

impl TextProcessor for CollapseEmphaticSequences {
    open spec fn applies_to(&self, text: Seq<char>) -> bool {
        exists|i: int| 0 <= i < text.len() && spec_is_emphatic(#[trigger] text[i])
    }

    open spec fn processed_text(&self, text: Seq<char>) -> Seq<char> {
        collapse_emphatic(text)
    }

    open spec fn can_process(&self, text: Seq<char>) -> bool {
        true
    }

    fn matches(&self, text: &str) -> (r: bool) {
        let chars = chars_of(text);
        let mut i: usize = 0;
        while i < chars.len()
            invariant
                i <= chars.len(),
                chars@ == text@,
                forall|j: int| 0 <= j < i ==> !spec_is_emphatic(#[trigger] chars@[j]),
            decreases chars.len() - i,
        {
            if is_emphatic(chars[i]) {
                return true;
            }
            i = i + 1;
        }
        false
    }

    fn process(&self, transform: Transform) -> (r: Transform)
        ensures
            r.mappings@.len() == 0,
    {
        let chars = chars_of(transform.text.as_str());
        let mut line: Vec<char> = Vec::new();
        let mut prev = false;
        let mut i: usize = 0;
        while i < chars.len()
            invariant
                i <= chars.len(),
                line@ == collapse_prefix(chars@, i as int),
                i > 0 ==> (prev <==> !kept_in_collapse(chars@, i - 1)),
                i == 0 ==> !prev,
            decreases chars.len() - i,
        {
            let curr = chars[i];
            let skip = if prev && is_emphatic(curr) {
                true
            } else if i + 1 < chars.len() && is_emphatic(curr) && is_emphatic(chars[i + 1]) {
                true
            } else {
                false
            };
            proof {
                if i > 0 && spec_is_emphatic(curr) && spec_is_emphatic(chars@[i - 1]) {
                    // the previous character was dropped: it is emphatic with
                    // an emphatic neighbour
                    assert(!kept_in_collapse(chars@, i - 1));
                }
                assert(skip == !kept_in_collapse(chars@, i as int));
            }
            if !skip {
                line.push(curr);
            }
            prev = skip;
            i = i + 1;
        }
        let mappings: Vec<Mapping> = Vec::new();
        Transform { text: string_of(&line), mappings, previous: Some(Box::new(transform)) }
    }
}

/// Whether a quick check finds `text` to be in NFKC form for certain
/// (`unicode_normalization::is_nfkc_quick` answers `IsNormalized::Yes`).
pub uninterp spec fn nfkc_quick_yes(text: Seq<char>) -> bool;

/// The NFKC normal form of `text` (`UnicodeNormalization::nfkc`).
pub uninterp spec fn nfkc(text: Seq<char>) -> Seq<char>;

/// `unicode_normalization::is_nfkc_quick(text.chars()) == IsNormalized::Yes`.
#[verifier::external_body]
fn is_nfkc_quick_yes(text: &str) -> (r: bool)
    ensures
        r == nfkc_quick_yes(text@),
{
    unicode_normalization::is_nfkc_quick(text.chars()) == unicode_normalization::IsNormalized::Yes
}

/// `text.nfkc().collect::<String>()`: the NFKC normal form of `text`.
#[verifier::external_body]
pub(crate) fn nfkc_string(text: &str) -> (r: String)
    ensures
        r@ == nfkc(text@),
{
    unicode_normalization::UnicodeNormalization::nfkc(text).collect()
}

/// Normalizes UTF-8 text.
///
/// We specifically run NFKC normalization, the most aggressive form, which
/// reduces all possible text down to its most basic form.
///
/// For example:
///
///   - ㌀ → アパート
///   - ⼀ → 一 (U+2F00 → U+4E00)
pub struct NormalizeUnicode;

impl TextProcessor for NormalizeUnicode {
    open spec fn applies_to(&self, text: Seq<char>) -> bool {
        !nfkc_quick_yes(text)
    }

    open spec fn processed_text(&self, text: Seq<char>) -> Seq<char> {
        nfkc(text)
    }

    open spec fn can_process(&self, text: Seq<char>) -> bool {
        true
    }

    fn matches(&self, text: &str) -> (r: bool) {
        !is_nfkc_quick_yes(text)
    }

    fn process(&self, transform: Transform) -> (r: Transform)
        ensures
            r.mappings@.len() == 0,
    {
        let line = nfkc_string(transform.text.as_str());
        let mappings: Vec<Mapping> = Vec::new();
        Transform { text: line, mappings, previous: Some(Box::new(transform)) }
    }
}

/// The text after a processor that runs only where it applies.
pub open spec fn step<P: TextProcessor>(p: P, text: Seq<char>) -> Seq<char> {
    if p.applies_to(text) {
        p.processed_text(text)
    } else {
        text
    }
}

/// The Japanese text processing: half-width katakana to full width,
/// combining voicing marks joined, NFKC normalization, emphatic sequences
/// collapsed, each where it applies.
pub open spec fn japanese_text(text: Seq<char>) -> Seq<char> {
    step(
        CollapseEmphaticSequences,
        step(NormalizeUnicode, step(NormalizeCombiningCharacters, step(ConvertHalfWidth, text))),
    )
}

/// The Japanese processors, in the order they run.
pub struct JapaneseProcessor;

impl JapaneseProcessor {
    /// The processors run before segmentation, in order.
    pub fn processors(&self) -> (r: (ConvertHalfWidth, NormalizeCombiningCharacters, NormalizeUnicode, CollapseEmphaticSequences)) {
        (ConvertHalfWidth, NormalizeCombiningCharacters, NormalizeUnicode, CollapseEmphaticSequences)
    }
}

impl Processor for JapaneseProcessor {
    open spec fn transformed_text(&self, text: Seq<char>) -> Seq<char> {
        japanese_text(text)
    }

    fn transform(&self, text: String) -> (r: Transform) {
        let mut transform = Transform::from_text(text);
        let (half, combining, unicode, emphatic) = self.processors();
        let ghost t0 = transform.text@;
        if half.matches(transform.text.as_str()) {
            transform = half.process(transform);
        }
        let ghost t1 = transform.text@;
        proof {
            lemma_merge_text_size(t0, MarkMerge::HalfWidth);
        }
        if combining.matches(transform.text.as_str()) {
            transform = combining.process(transform);
        }
        if unicode.matches(transform.text.as_str()) {
            transform = unicode.process(transform);
        }
        if emphatic.matches(transform.text.as_str()) {
            transform = emphatic.process(transform);
        }
        transform
    }
}

} // verus!
