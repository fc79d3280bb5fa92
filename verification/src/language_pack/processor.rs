//! Text transforms and the processors that produce them.
use vstd::prelude::*;
use vstd::string::StringSliceAdditionalSpecFns;
use core::ops::Range;

verus! {

/// The number of bytes that `c` takes in UTF-8.
pub open spec fn utf8_width(c: char) -> nat {
    if (c as u32) < 0x80 {
        1
    } else if (c as u32) < 0x800 {
        2
    } else if (c as u32) < 0x10000 {
        3
    } else {
        4
    }
}

/// The number of bytes that `s` takes in UTF-8.
pub open spec fn utf8_size(s: Seq<char>) -> nat
    decreases s.len(),
{
    if s.len() == 0 {
        0
    } else {
        utf8_size(s.drop_last()) + utf8_width(s.last())
    }
}

/// `char::len_utf8`.
pub fn char_width(c: char) -> (r: usize)
    ensures
        r == utf8_width(c),
        1 <= r <= 4,
{
    let v = c as u32;
    if v < 0x80 {
        1
    } else if v < 0x800 {
        2
    } else if v < 0x10000 {
        3
    } else {
        4
    }
}

pub proof fn lemma_utf8_size_append(a: Seq<char>, b: Seq<char>)
    ensures
        utf8_size(a + b) == utf8_size(a) + utf8_size(b),
    decreases b.len(),
{
    if b.len() == 0 {
        assert(a + b =~= a);
    } else {
        lemma_utf8_size_append(a, b.drop_last());
        assert((a + b).drop_last() =~= a + b.drop_last());
    }
}

pub proof fn lemma_utf8_size_prefix(s: Seq<char>, i: int)
    requires
        0 <= i < s.len(),
    ensures
        utf8_size(s.subrange(0, i + 1)) == utf8_size(s.subrange(0, i)) + utf8_width(s[i]),
{
    assert(s.subrange(0, i + 1).drop_last() =~= s.subrange(0, i));
}

pub proof fn lemma_utf8_size_prefix_le(s: Seq<char>, i: int)
    requires
        0 <= i <= s.len(),
    ensures
        utf8_size(s.subrange(0, i)) <= utf8_size(s),
    decreases s.len() - i,
{
    if i < s.len() {
        lemma_utf8_size_prefix(s, i);
        lemma_utf8_size_prefix_le(s, i + 1);
    } else {
        assert(s.subrange(0, i) =~= s);
    }
}

/// A mapping between a byte range of a transformed text and the byte range
/// of the text it came from.
pub type Mapping = (Range<usize>, Range<usize>);

/// A `Transform` represents a transformation that has been applied to some text.
pub struct Transform {
    /// The transformed text.
    pub text: String,
    /// Mapping to the original text.
    ///
    /// This is done using byte-position and not character position.
    pub mappings: Vec<Mapping>,
    /// The previous transform that was done.
    pub previous: Option<Box<Transform>>,
}

impl Transform {
    /// The untransformed text: it maps its `n` bytes onto themselves.
    pub fn from_text(value: String) -> (r: Transform)
        ensures
            r.text@ == value@,
            r.previous is None,
            r.mappings@.len() == 1,
            r.mappings@[0].0 == (Range { start: 0usize, end: vstd::utf8::encode_utf8(value@).len() as usize }),
            r.mappings@[0].1 == (Range { start: 0usize, end: vstd::utf8::encode_utf8(value@).len() as usize }),
    {
        let len = value.as_str().len();
        let mut mappings: Vec<Mapping> = Vec::new();
        mappings.push((Range { start: 0, end: len }, Range { start: 0, end: len }));
        Transform { text: value, mappings, previous: None }
    }

    /// The untransformed text of a string slice.
    pub fn from_str(value: &str) -> (r: Transform)
        ensures
            r.text@ == value@,
            r.previous is None,
            r.mappings@.len() == 1,
    {
        Self::from_text(value.to_owned())
    }
}

/// A processor that can be run over a text to produce a new transform.
pub trait TextProcessor {
    /// Whether the processor has anything to do on `text`.
    spec fn applies_to(&self, text: Seq<char>) -> bool;

    /// The text that processing `text` gives.
    spec fn processed_text(&self, text: Seq<char>) -> Seq<char>;

    /// Whether the processor can work on `text` within the machine's limits
    /// (byte offsets into it must fit a `usize`).
    spec fn can_process(&self, text: Seq<char>) -> bool;

    /// Checks whether the processor can be run over a given text.
    fn matches(&self, text: &str) -> (r: bool)
        ensures
            r == self.applies_to(text@),
    ;

    /// Processes the transform's text; the result records the transform it
    /// came from.
    fn process(&self, transform: Transform) -> (r: Transform)
        requires
            self.can_process(transform.text@),
        ensures
            r.text@ == self.processed_text(transform.text@),
            r.previous == Some(Box::new(transform)),
    ;
}

/// The processors a language runs before (`pre`) and after (`post`) its
/// other work, in order.
pub struct TextProcessors<P> {
    pub pre: Vec<P>,
    pub post: Vec<P>,
}

/// A language's text processing.
pub trait Processor {
    /// The text that transforming `text` gives.
    spec fn transformed_text(&self, text: Seq<char>) -> Seq<char>;

    /// Runs the language's processors over `text`.
    fn transform(&self, text: String) -> (r: Transform)
        requires
            utf8_size(text@) <= usize::MAX,
        ensures
            r.text@ == self.transformed_text(text@),
    ;
}

/// The length in bytes of the UTF-8 text `s`, as `str::len` reports it.
pub open spec fn byte_length(s: Seq<char>) -> usize {
    utf8_size(s) as usize
}

/// The UTF-8 encoding of `s` takes `utf8_size(s)` bytes.
pub proof fn lemma_encode_utf8_len(s: Seq<char>)
    ensures
        vstd::utf8::encode_utf8(s).len() == utf8_size(s),
    decreases s.len(),
{
    if s.len() > 0 {
        lemma_encode_utf8_len(s.drop_first());
        lemma_utf8_size_append(seq![s[0]], s.drop_first());
        assert(seq![s[0]] + s.drop_first() =~= s);
        assert(seq![s[0]].drop_last() =~= Seq::<char>::empty());
        assert(utf8_size(Seq::<char>::empty()) == 0);
        assert(utf8_size(seq![s[0]]) == utf8_width(s[0]));
        let v = s[0] as u32;
        vstd::utf8::char_is_scalar(s[0]);
        if v < 0x80 {
            assert(vstd::utf8::has_width_1_encoding(v));
        } else if v < 0x800 {
            assert(vstd::utf8::has_width_2_encoding(v));
        } else if v < 0x10000 {
            assert(vstd::utf8::has_width_3_encoding(v));
        } else {
            assert(vstd::utf8::has_width_4_encoding(v));
        }
        assert(vstd::utf8::encode_scalar(v).len() == utf8_width(s[0]));
    }
}

/// The length in bytes of `s` (`str::len`).
pub fn byte_len(s: &String) -> (r: usize)
    ensures
        r == byte_length(s@),
        r as nat == utf8_size(s@),
{
    let t = s.as_str();
    proof {
        assert(t@ == s@);
        lemma_encode_utf8_len(s@);
        assert(t.spec_bytes() == vstd::utf8::encode_utf8(t@));
    }
    let b = t.as_bytes();
    proof {
        vstd::slice::axiom_spec_len(b);
    }
    b.len()
}

} // verus!
