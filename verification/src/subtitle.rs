//! Cleaning subtitle text before it is shown and copied.
use vstd::prelude::*;
use crate::text::{chars_of, string_of};

verus! {

/// The invisible and spacing characters that subtitles drop.
pub open spec fn is_blank_mark(c: char) -> bool {
    c == '\u{a0}' || c == '\u{180e}' || c == '\u{1680}' || c == '\u{2002}' || c == '\u{2003}'
        || c == '\u{2004}' || c == '\u{2005}' || c == '\u{2006}' || c == '\u{2007}' || c == '\u{2008}'
        || c == '\u{2009}' || c == '\u{200a}' || c == '\u{200b}' || c == '\u{202f}' || c == '\u{205f}'
        || c == '\u{3000}' || c == '\u{feff}' || c == '\u{202a}'
}

/// `s` with every `%s` taken out, scanning from the front.
pub open spec fn without_placeholders(s: Seq<char>) -> Seq<char>
    decreases s.len(),
{
    if s.len() == 0 {
        Seq::empty()
    } else if s.len() >= 2 && s[0] == '%' && s[1] == 's' {
        without_placeholders(s.skip(2))
    } else {
        seq![s[0]] + without_placeholders(s.skip(1))
    }
}

/// `s` without the characters for which `drop` holds.
pub open spec fn without_chars(s: Seq<char>, drop: spec_fn(char) -> bool) -> Seq<char>
    decreases s.len(),
{
    if s.len() == 0 {
        Seq::empty()
    } else if drop(s[0]) {
        without_chars(s.skip(1), drop)
    } else {
        seq![s[0]] + without_chars(s.skip(1), drop)
    }
}

/// Whether `c` ends a line.
pub open spec fn is_line_break(c: char) -> bool {
    c == '\n' || c == '\r'
}

fn is_blank_mark_exec(c: char) -> (r: bool)
    ensures
        r == is_blank_mark(c),
{
    c == '\u{a0}' || c == '\u{180e}' || c == '\u{1680}' || c == '\u{2002}' || c == '\u{2003}'
        || c == '\u{2004}' || c == '\u{2005}' || c == '\u{2006}' || c == '\u{2007}' || c == '\u{2008}'
        || c == '\u{2009}' || c == '\u{200a}' || c == '\u{200b}' || c == '\u{202f}' || c == '\u{205f}'
        || c == '\u{3000}' || c == '\u{feff}' || c == '\u{202a}'
}

fn drop_placeholders(s: &Vec<char>) -> (r: Vec<char>)
    ensures
        r@ == without_placeholders(s@),
{
    let mut out: Vec<char> = Vec::new();
    let mut i: usize = 0;
    proof {
        assert(s@.skip(0) =~= s@);
    }
    while i < s.len()
        invariant
            i <= s.len(),
            out@ + without_placeholders(s@.skip(i as int)) == without_placeholders(s@),
        decreases s.len() - i,
    {
        let ghost rest = s@.skip(i as int);
        if i + 1 < s.len() && s[i] == '%' && s[i + 1] == 's' {
            proof {
                assert(rest[0] == '%' && rest[1] == 's');
                assert(rest.skip(2) =~= s@.skip(i + 2));
            }
            i = i + 2;
        } else {
            proof {
                assert(rest[0] == s@[i as int]);
                assert(rest.skip(1) =~= s@.skip(i + 1));
                assert(!(rest.len() >= 2 && rest[0] == '%' && rest[1] == 's'));
            }
            let ghost before = out@;
            out.push(s[i]);
            proof {
                assert(before + (seq![s@[i as int]] + without_placeholders(s@.skip(i + 1))) =~= out@ + without_placeholders(s@.skip(i + 1)));
            }
            i = i + 1;
        }
    }
    proof {
        assert(out@ + Seq::<char>::empty() =~= out@);
    }
    out
}

fn drop_chars(s: &Vec<char>, blanks: bool) -> (r: Vec<char>)
    ensures
        blanks ==> r@ == without_chars(s@, |c: char| is_blank_mark(c)),
        !blanks ==> r@ == without_chars(s@, |c: char| is_line_break(c)),
{
    let ghost drop = if blanks { |c: char| is_blank_mark(c) } else { |c: char| is_line_break(c) };
    let mut out: Vec<char> = Vec::new();
    let mut i: usize = 0;
    proof {
        assert(s@.skip(0) =~= s@);
    }
    while i < s.len()
        invariant
            i <= s.len(),
            drop == (if blanks { |c: char| is_blank_mark(c) } else { |c: char| is_line_break(c) }),
            out@ + without_chars(s@.skip(i as int), drop) == without_chars(s@, drop),
        decreases s.len() - i,
    {
        let c = s[i];
        let ghost rest = s@.skip(i as int);
        proof {
            assert(rest[0] == c);
            assert(rest.skip(1) =~= s@.skip(i + 1));
        }
        let dropped = if blanks { is_blank_mark_exec(c) } else { c == '\n' || c == '\r' };
        if !dropped {
            let ghost before = out@;
            out.push(c);
            proof {
                assert(before + (seq![c] + without_chars(s@.skip(i + 1), drop)) =~= out@ + without_chars(s@.skip(i + 1), drop));
            }
        }
        i = i + 1;
    }
    proof {
        assert(out@ + Seq::<char>::empty() =~= out@);
    }
    out
}

/// Subtitle text as it is shown: every `%s` taken out, then the invisible
/// and spacing characters.
pub fn clean_text(input: &str) -> (r: String)
    ensures
        r@ == without_chars(without_placeholders(input@), |c: char| is_blank_mark(c)),
{
    let chars = chars_of(input);
    let kept = drop_placeholders(&chars);
    string_of(&drop_chars(&kept, true))
}

/// Subtitle text as it is copied: on one line, without line breaks.
pub fn clipboard_text(text: &str) -> (r: String)
    ensures
        r@ == without_chars(text@, |c: char| is_line_break(c)),
{
    let chars = chars_of(text);
    string_of(&drop_chars(&chars, false))
}

} // verus!
