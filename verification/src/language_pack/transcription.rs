//! Which of the words that forced alignment picked out of a transcribed
//! line each character of the line's segments falls on. The words carry
//! the timestamps; combining them is left to the caller.
use vstd::prelude::*;
use crate::text::{chars_of, str_eq};

verus! {

/// The first word at or after `from` that is the single character `c`.
pub open spec fn char_match(words: Seq<Seq<char>>, c: char, from: int) -> Option<int>
    decreases words.len() - from,
{
    if from < 0 || from >= words.len() {
        None
    } else if words[from] == seq![c] {
        Some(from)
    } else {
        char_match(words, c, from + 1)
    }
}

/// The word each character of `text` falls on, searching on from `from`
/// (a character may fall on the word of the one before it), and where the
/// search stands afterwards; none when a character is not found.
pub open spec fn text_matches(words: Seq<Seq<char>>, text: Seq<char>, from: int) -> Option<(Seq<int>, int)>
    decreases text.len(),
{
    if text.len() == 0 {
        Some((Seq::empty(), from))
    } else {
        match char_match(words, text[0], from) {
            None => None,
            Some(i) => match text_matches(words, text.skip(1), i) {
                None => None,
                Some((rest, end)) => Some((seq![i] + rest, end)),
            },
        }
    }
}

/// The words each segment's characters fall on, one search running through
/// all segments from `from`. A segment that is `UNK`, or any segment when
/// there are no words, falls on none and leaves the search where it is.
/// `None` when a character is not found.
pub open spec fn segment_matches(words: Seq<Seq<char>>, segments: Seq<Seq<char>>, from: int) -> Option<Seq<Seq<int>>>
    decreases segments.len(),
{
    if segments.len() == 0 {
        Some(Seq::empty())
    } else if segments[0] == "UNK"@ || words.len() == 0 {
        match segment_matches(words, segments.skip(1), from) {
            None => None,
            Some(rest) => Some(seq![Seq::<int>::empty()] + rest),
        }
    } else {
        match text_matches(words, segments[0], from) {
            None => None,
            Some((is, end)) => match segment_matches(words, segments.skip(1), end) {
                None => None,
                Some(rest) => Some(seq![is] + rest),
            },
        }
    }
}

/// The words as character sequences.
pub open spec fn word_texts(words: Seq<String>) -> Seq<Seq<char>> {
    words.map_values(|w: String| w@)
}

/// The indices as integers.
pub open spec fn index_seqs(v: Seq<Vec<usize>>) -> Seq<Seq<int>> {
    v.map_values(|x: Vec<usize>| x@.map_values(|i: usize| i as int))
}

fn is_single(w: &str, c: char) -> (r: bool)
    ensures
        r == (w@ == seq![c]),
{
    let v = chars_of(w);
    if v.len() == 1 && v[0] == c {
        proof {
            assert(v@ =~= seq![c]);
        }
        true
    } else {
        proof {
            if v@.len() == 1 {
                assert(v@[0] != seq![c][0]);
            }
        }
        false
    }
}

/// The indices as integers.
pub open spec fn ints(v: Seq<usize>) -> Seq<int> {
    v.map_values(|i: usize| i as int)
}

fn match_text(words: &Vec<String>, text: &str, from: usize) -> (r: Option<(Vec<usize>, usize)>)
    requires
        from <= words.len(),
    ensures
        r matches Some((v, end)) ==> text_matches(word_texts(words@), text@, from as int) == Some((ints(v@), end as int)) && end <= words.len(),
        r is None ==> text_matches(word_texts(words@), text@, from as int) is None,
{
    let ghost ws = word_texts(words@);
    let chars = chars_of(text);
    let mut found: Vec<usize> = Vec::new();
    let mut word_idx: usize = from;
    let mut j: usize = 0;
    proof {
        assert(chars@.skip(0) =~= chars@);
        assert(ints(found@) =~= Seq::<int>::empty());
        match text_matches(ws, chars@, from as int) {
            Some((is, end)) => {
                assert(Seq::<int>::empty() + is =~= is);
            },
            None => {},
        }
    }
    while j < chars.len()
        invariant
            ws == word_texts(words@),
            chars@ == text@,
            j <= chars.len(),
            word_idx <= words.len(),
            text_matches(ws, chars@, from as int) == (match text_matches(ws, chars@.skip(j as int), word_idx as int) {
                None => None,
                Some((is, end)) => Some((ints(found@) + is, end)),
            }),
        decreases chars.len() - j,
    {
        let c = chars[j];
        let ghost tail = chars@.skip(j as int);
        proof {
            assert(tail[0] == c);
            assert(tail.skip(1) =~= chars@.skip(j + 1));
        }
        let ghost at = word_idx as int;
        while word_idx < words.len() && !is_single(words[word_idx].as_str(), c)
            invariant
                ws == word_texts(words@),
                at <= word_idx <= words.len(),
                char_match(ws, c, at) == char_match(ws, c, word_idx as int),
            decreases words.len() - word_idx,
        {
            proof {
                assert(ws[word_idx as int] == words@[word_idx as int]@);
            }
            word_idx = word_idx + 1;
        }
        if word_idx >= words.len() {
            proof {
                assert(char_match(ws, c, word_idx as int) is None);
            }
            return None;
        }
        proof {
            assert(ws[word_idx as int] == words@[word_idx as int]@);
            assert(char_match(ws, c, word_idx as int) == Some(word_idx as int));
        }
        let ghost fb = ints(found@);
        found.push(word_idx);
        proof {
            assert(ints(found@) =~= fb.push(word_idx as int));
            match text_matches(ws, chars@.skip(j + 1), word_idx as int) {
                Some((is, end)) => {
                    assert(fb + (seq![word_idx as int] + is) =~= fb.push(word_idx as int) + is);
                },
                None => {},
            }
        }
        j = j + 1;
    }
    proof {
        assert(chars@.skip(j as int) =~= Seq::<char>::empty());
        assert(ints(found@) + Seq::<int>::empty() =~= ints(found@));
    }
    Some((found, word_idx))
}

/// For each segment of a transcribed line, the indices of the aligned words
/// its characters fall on (see `segment_matches`); `None` when a character
/// is not found among the words.
pub fn match_line_words(words: &Vec<String>, segments: &Vec<String>) -> (r: Option<Vec<Vec<usize>>>)
    ensures
        r matches Some(v) ==> segment_matches(word_texts(words@), word_texts(segments@), 0) == Some(index_seqs(v@)),
        r is None ==> segment_matches(word_texts(words@), word_texts(segments@), 0) is None,
{
    let ghost ws = word_texts(words@);
    let ghost all = word_texts(segments@);
    let mut out: Vec<Vec<usize>> = Vec::new();
    let mut word_idx: usize = 0;
    let mut k: usize = 0;
    proof {
        assert(all.skip(0) =~= all);
        assert(index_seqs(out@) =~= Seq::<Seq<int>>::empty());
        match segment_matches(ws, all, 0) {
            Some(x) => {
                assert(Seq::<Seq<int>>::empty() + x =~= x);
            },
            None => {},
        }
    }
    while k < segments.len()
        invariant
            ws == word_texts(words@),
            all == word_texts(segments@),
            k <= segments.len(),
            word_idx <= words.len(),
            segment_matches(ws, all, 0) == (match segment_matches(ws, all.skip(k as int), word_idx as int) {
                None => None,
                Some(rest) => Some(index_seqs(out@) + rest),
            }),
        decreases segments.len() - k,
    {
        let ghost rest = all.skip(k as int);
        let ghost before = index_seqs(out@);
        proof {
            assert(rest[0] == segments@[k as int]@);
            assert(rest.skip(1) =~= all.skip(k + 1));
        }
        let text = segments[k].as_str();
        let mut matched: Vec<usize> = Vec::new();
        proof {
            assert(ints(matched@) =~= Seq::<int>::empty());
        }
        if !(str_eq(text, "UNK") || words.len() == 0) {
            match match_text(words, text, word_idx) {
                None => {
                    return None;
                },
                Some((v, end)) => {
                    matched = v;
                    word_idx = end;
                },
            }
        }
        let ghost mv = ints(matched@);
        out.push(matched);
        proof {
            assert(index_seqs(out@) =~= before.push(mv));
            match segment_matches(ws, all.skip(k + 1), word_idx as int) {
                Some(x) => {
                    assert(before + (seq![mv] + x) =~= index_seqs(out@) + x);
                },
                None => {},
            }
        }
        k = k + 1;
    }
    proof {
        assert(all.skip(k as int) =~= Seq::<Seq<char>>::empty());
        assert(index_seqs(out@) + Seq::<Seq<int>>::empty() =~= index_seqs(out@));
    }
    Some(out)
}

} // verus!
