//! Lexicographic ranks: `bucket|rank` strings whose rank part is a base-36
//! number, handed out between a marker's bounds so that new items can be
//! placed before the first or after the last ranked item.
pub mod radix;

use vstd::prelude::*;
use self::radix::{
    all_digits, digit_char, digit_value, digits_value, lemma_radix_text_roundtrip, parse_radix, radix_digits,
    radix_parse, radix_pow, radix_text, Base36,
};
use crate::text::{chars_of, string_of};

verus! {

/// Why a [`LexoRank`] could not be made.
#[derive(Debug, PartialEq, Eq, Structural)]
pub enum LexoRankError {
    /// A bound of the rank space could not be read as a base-36 number.
    InvalidNumber { number: u64 },
    /// The rank width is outside 4 to 12 characters.
    ByteRange { bytes: u8 },
    /// More slots were asked for than ranks of that width exist.
    TooManySlots { slots: u32, bytes: u8 },
}

/// A rank: a bucket number and a position within the bucket.
#[derive(Debug, PartialEq, Eq, Structural)]
pub struct Rank {
    bucket: u8,
    rank: u64,
}

/// The bounds of the rank space and the default distance between
/// neighbouring ranks.
#[derive(Debug)]
pub struct Marker {
    min: u64,
    max: u64,
    slot_size: u64,
}

/// Hands out ranks within a rank space of `bytes` base-36 characters.
#[derive(Debug)]
pub struct LexoRank {
    bytes: u8,
    marker: Marker,
}

/// An item that carries a rank.
pub trait Ranked {
    /// Returns the rank for this item.
    fn rank(&self) -> Rank;
}

/// The text of a rank: the bucket in decimal, `|`, the rank in base 36.
pub open spec fn rank_text(bucket: nat, rank: nat) -> Seq<char> {
    radix_text(bucket, 10) + seq!['|'] + radix_text(rank, 36)
}

/// The number of `|` characters in `s`.
pub open spec fn bar_count(s: Seq<char>) -> nat
    decreases s.len(),
{
    if s.len() == 0 {
        0
    } else {
        bar_count(s.drop_last()) + if s.last() == '|' {
            1nat
        } else {
            0nat
        }
    }
}

/// The position of the first `|` in `s` (its length when there is none).
pub open spec fn first_bar(s: Seq<char>) -> nat
    decreases s.len(),
{
    if s.len() == 0 {
        0
    } else if s[0] == '|' {
        0
    } else {
        1 + first_bar(s.drop_first())
    }
}

/// The bucket and rank that a rank's text holds, where the text has exactly
/// one `|`, a decimal bucket that fits a `u8` before it and a base-36 rank
/// that fits a `u64` after it.
pub open spec fn parse_rank_text(s: Seq<char>) -> Option<(nat, nat)> {
    let p = first_bar(s) as int;
    if bar_count(s) == 1 {
        match (radix_parse(s.subrange(0, p), 10, 255), radix_parse(s.subrange(p + 1, s.len() as int), 36, 0xffff_ffff_ffff_ffff)) {
            (Some(b), Some(r)) => Some((b, r)),
            _ => None,
        }
    } else {
        None
    }
}

proof fn lemma_first_bar_facts(s: Seq<char>)
    ensures
        first_bar(s) <= s.len(),
        first_bar(s) < s.len() ==> s[first_bar(s) as int] == '|',
        forall|i: int| 0 <= i < first_bar(s) ==> s[i] != '|',
    decreases s.len(),
{
    if s.len() > 0 && s[0] != '|' {
        lemma_first_bar_facts(s.drop_first());
        assert forall|i: int| 0 <= i < first_bar(s) implies s[i] != '|' by {
            if i > 0 {
                assert(s[i] == s.drop_first()[i - 1]);
            }
        }
    }
}

proof fn lemma_no_bar_count(s: Seq<char>)
    requires
        forall|i: int| 0 <= i < s.len() ==> s[i] != '|',
    ensures
        bar_count(s) == 0,
    decreases s.len(),
{
    if s.len() > 0 {
        assert forall|i: int| 0 <= i < s.drop_last().len() implies s.drop_last()[i] != '|' by {
            assert(s.drop_last()[i] == s[i]);
        }
        lemma_no_bar_count(s.drop_last());
    }
}

proof fn lemma_bar_count_append(a: Seq<char>, b: Seq<char>)
    ensures
        bar_count(a + b) == bar_count(a) + bar_count(b),
    decreases b.len(),
{
    if b.len() == 0 {
        assert(a + b =~= a);
    } else {
        lemma_bar_count_append(a, b.drop_last());
        assert((a + b).drop_last() =~= a + b.drop_last());
    }
}

proof fn lemma_no_bar_in_digits(n: nat, radix: nat)
    requires
        2 <= radix <= 36,
    ensures
        bar_count(radix_text(n, radix)) == 0,
        forall|i: int| 0 <= i < radix_text(n, radix).len() ==> radix_text(n, radix)[i] != '|',
{
    lemma_no_bar_in_radix_digits(n, radix);
    if n == 0 {
        assert(seq!['0'].drop_last() =~= Seq::<char>::empty());
    }
}

proof fn lemma_no_bar_in_radix_digits(n: nat, radix: nat)
    requires
        2 <= radix <= 36,
    ensures
        bar_count(radix_digits(n, radix)) == 0,
        forall|i: int| 0 <= i < radix_digits(n, radix).len() ==> radix_digits(n, radix)[i] != '|',
    decreases n,
{
    if n > 0 {
        assert(n / radix < n) by (nonlinear_arith)
            requires
                n > 0,
                radix >= 2,
        ;
        lemma_no_bar_in_radix_digits(n / radix, radix);
        let s = radix_digits(n, radix);
        assert(s.drop_last() =~= radix_digits(n / radix, radix));
        assert forall|i: int| 0 <= i < s.len() implies s[i] != '|' by {
            if i < s.len() - 1 {
                assert(s[i] == radix_digits(n / radix, radix)[i]);
            }
        }
    }
}

proof fn lemma_first_bar_of_concat(a: Seq<char>, b: Seq<char>)
    requires
        forall|i: int| 0 <= i < a.len() ==> a[i] != '|',
        b.len() > 0,
        b[0] == '|',
    ensures
        first_bar(a + b) == a.len(),
    decreases a.len(),
{
    if a.len() > 0 {
        assert((a + b).drop_first() =~= a.drop_first() + b);
        lemma_first_bar_of_concat(a.drop_first(), b);
    } else {
        assert(a + b =~= b);
    }
}

/// Reading back the text of a rank gives the same bucket and rank.
pub proof fn lemma_rank_text_roundtrip(bucket: u8, rank: u64)
    ensures
        parse_rank_text(rank_text(bucket as nat, rank as nat)) == Some((bucket as nat, rank as nat)),
{
    let a = radix_text(bucket as nat, 10);
    let c = radix_text(rank as nat, 36);
    let s = rank_text(bucket as nat, rank as nat);
    lemma_no_bar_in_digits(bucket as nat, 10);
    lemma_no_bar_in_digits(rank as nat, 36);
    assert(bar_count(seq!['|']) == 1) by {
        assert(seq!['|'].drop_last() =~= Seq::<char>::empty());
        assert(bar_count(Seq::<char>::empty()) == 0);
        assert(seq!['|'].last() == '|');
    }
    lemma_bar_count_append(a, seq!['|']);
    lemma_bar_count_append(a + seq!['|'], c);
    lemma_first_bar_of_concat(a, seq!['|'] + c);
    assert(s =~= a + (seq!['|'] + c));
    assert(s.subrange(0, a.len() as int) =~= a);
    assert(s.subrange(a.len() as int + 1, s.len() as int) =~= c);
    lemma_radix_text_roundtrip(bucket as nat, 10, 255);
    lemma_radix_text_roundtrip(rank as nat, 36, 0xffff_ffff_ffff_ffff);
}

/// The characters of `n` in `radix`, as `radix_text` gives them.
pub fn radix_chars(n: u64, radix: u64) -> (r: Vec<char>)
    requires
        2 <= radix <= 36,
    ensures
        r@ == radix_text(n as nat, radix as nat),
{
    let mut rev: Vec<char> = Vec::new();
    let mut value = n;
    if value == 0 {
        rev.push('0');
        proof {
            assert(rev@ =~= seq!['0']);
        }
        return rev;
    }
    while value > 0
        invariant
            2 <= radix <= 36,
            n > 0,
            radix_digits(n as nat, radix as nat) == radix_digits(value as nat, radix as nat) + rev@.reverse(),
        decreases value,
    {
        let d = value % radix;
        let c: char = if d < 10 {
            ((48 + d) as u8) as char
        } else {
            ((87 + d) as u8) as char
        };
        let ghost before = rev@;
        rev.push(c);
        proof {
            assert(c == digit_char(d as nat));
            assert(radix_digits(value as nat, radix as nat) == radix_digits(
                (value / radix) as nat,
                radix as nat,
            ).push(c));
            assert(rev@.reverse() =~= seq![c] + before.reverse()) by {
                assert forall|i: int| 0 <= i < rev@.len() implies rev@.reverse()[i] == (seq![c]
                    + before.reverse())[i] by {
                    if i > 0 {
                        assert(rev@.reverse()[i] == rev@[rev@.len() - 1 - i]);
                    }
                }
            }
            assert(radix_digits((value / radix) as nat, radix as nat) + rev@.reverse()
                =~= radix_digits(value as nat, radix as nat) + before.reverse());
        }
        value = value / radix;
    }
    let mut out: Vec<char> = Vec::new();
    let mut i = rev.len();
    while i > 0
        invariant
            i <= rev.len(),
            out@ == rev@.reverse().subrange(0, (rev.len() - i) as int),
        decreases i,
    {
        i = i - 1;
        out.push(rev[i]);
        proof {
            assert(out@ =~= rev@.reverse().subrange(0, (rev.len() - i) as int));
        }
    }
    proof {
        assert(radix_digits(0, radix as nat) == Seq::<char>::empty());
        assert(out@ =~= radix_digits(n as nat, radix as nat));
    }
    out
}

impl View for Rank {
    type V = (u8, u64);

    closed spec fn view(&self) -> (u8, u64) {
        (self.bucket, self.rank)
    }
}

impl Rank {
    /// A rank in `bucket` at position `rank`.
    pub fn new(bucket: u8, rank: u64) -> (r: Rank)
        ensures
            r@ == (bucket, rank),
    {
        Rank { bucket, rank }
    }

    /// The bucket of the rank.
    pub fn bucket(&self) -> (r: u8)
        ensures
            r == self@.0,
    {
        self.bucket
    }

    /// The position within the bucket.
    pub fn position(&self) -> (r: u64)
        ensures
            r == self@.1,
    {
        self.rank
    }

    /// Parses `bucket|rank`: a decimal bucket and a base-36 rank, separated
    /// by the one `|` of the text; `None` for any other text.
    pub fn parse(data: &str) -> (r: Option<Rank>)
        ensures
            r matches Some(k) ==> parse_rank_text(data@) == Some((k@.0 as nat, k@.1 as nat)),
            r is None ==> parse_rank_text(data@) is None,
    {
        let s = chars_of(data);
        let mut bars: usize = 0;
        let mut pos: usize = s.len();
        let mut i: usize = 0;
        proof {
            lemma_first_bar_facts(s@);
        }
        while i < s.len()
            invariant
                i <= s.len(),
                s@ == data@,
                bars as nat == bar_count(s@.subrange(0, i as int)),
                bars <= i,
                pos == (if first_bar(s@) < i { first_bar(s@) } else { s.len() as nat }),
                first_bar(s@) <= s.len(),
                first_bar(s@) < s.len() ==> s@[first_bar(s@) as int] == '|',
                forall|j: int| 0 <= j < first_bar(s@) ==> s@[j] != '|',
            decreases s.len() - i,
        {
            proof {
                assert(s@.subrange(0, i + 1).drop_last() =~= s@.subrange(0, i as int));
            }
            if s[i] == '|' {
                if pos == s.len() {
                    pos = i;
                }
                bars = bars + 1;
            }
            i = i + 1;
        }
        proof {
            assert(s@.subrange(0, s.len() as int) =~= s@);
            if first_bar(s@) == s.len() {
                lemma_no_bar_count(s@);
            }
        }
        if bars != 1 {
            return None;
        }
        let bucket = parse_radix(&s, 0, pos, 10, 255);
        let rank = parse_radix(&s, pos + 1, s.len(), 36, 0xffff_ffff_ffff_ffff);
        match (bucket, rank) {
            (Some(b), Some(r)) => Some(Rank { bucket: b as u8, rank: r }),
            _ => None,
        }
    }

    /// Parses `bucket|rank`: a decimal bucket and a base-36 rank, separated
    /// by the one `|` of the text.
    pub fn from_str(data: &str) -> (r: Rank)
        requires
            parse_rank_text(data@) is Some,
        ensures
            parse_rank_text(data@) == Some((r@.0 as nat, r@.1 as nat)),
    {
        match Rank::parse(data) {
            Some(r) => r,
            None => {
                assert(false);
                Rank { bucket: 0, rank: 0 }
            },
        }
    }

    /// The text of the rank: `bucket|rank`.
    pub fn to_string(&self) -> (r: String)
        ensures
            r@ == rank_text(self@.0 as nat, self@.1 as nat),
    {
        let bucket = radix_chars(self.bucket as u64, 10);
        let mut out = string_of(&bucket);
        out.append("|");
        let rank = Base36::new(self.rank).to_string();
        out.append(rank.as_str());
        proof {
            reveal_strlit("|");
        }
        out
    }
}

/// Reading back the text that [`Rank::to_string`] gives yields the same rank.
pub proof fn lemma_rank_roundtrip(bucket: u8, rank: u64)
    ensures
        parse_rank_text(rank_text(bucket as nat, rank as nat)) == Some((bucket as nat, rank as nat)),
{
    lemma_rank_text_roundtrip(bucket, rank);
}

/// The mean of `a` and `b`, rounded down (as `u64::midpoint` computes it).
fn midpoint(a: u64, b: u64) -> (r: u64)
    ensures
        r as int == (a as int + b as int) / 2,
{
    if a <= b {
        a + (b - a) / 2
    } else {
        b + (a - b) / 2
    }
}

/// The text of `count` copies of `c`.
pub open spec fn repeated(c: char, count: nat) -> Seq<char> {
    Seq::new(count, |_i: int| c)
}

/// `str::repeat`: `count` copies of the one-character text `c`.
fn repeat_char(c: char, count: usize) -> (r: Vec<char>)
    ensures
        r@ == repeated(c, count as nat),
{
    let mut v: Vec<char> = Vec::new();
    let mut i: usize = 0;
    while i < count
        invariant
            i <= count,
            v@ == repeated(c, i as nat),
        decreases count - i,
    {
        v.push(c);
        i = i + 1;
        assert(v@ =~= repeated(c, i as nat));
    }
    v
}

proof fn lemma_repeated_value(c: char, d: nat, count: nat)
    requires
        digit_value(c, 36) == Some(d),
    ensures
        all_digits(repeated(c, count), 36),
        d == 0 ==> digits_value(repeated(c, count), 36) == 0,
        d == 35 ==> digits_value(repeated(c, count), 36) + 1 == radix_pow(36, count),
    decreases count,
{
    if count > 0 {
        lemma_repeated_value(c, d, (count - 1) as nat);
        assert(repeated(c, count).drop_last() =~= repeated(c, (count - 1) as nat));
    } else {
        assert(repeated(c, count) =~= Seq::<char>::empty());
    }
}

proof fn lemma_pow36_mono(a: nat, b: nat)
    requires
        a <= b,
    ensures
        radix_pow(36, a) <= radix_pow(36, b),
        radix_pow(36, a) >= 1,
    decreases b,
{
    if a < b {
        lemma_pow36_mono(a, (b - 1) as nat);
    } else if a > 0 {
        lemma_pow36_mono((a - 1) as nat, (a - 1) as nat);
    }
}

/// The largest number that `count` base-36 digits hold, when it fits a `u64`.
pub open spec fn marker_max(count: nat) -> nat {
    (radix_pow(36, count) - 1) as nat
}

impl View for Marker {
    type V = (u64, u64, u64);

    closed spec fn view(&self) -> (u64, u64, u64) {
        (self.min, self.max, self.slot_size)
    }
}

impl Marker {
    /// The rank space of `bytes` base-36 digits split into `slots` slots:
    /// its bounds are `0...0` and `z...z` read in base 36.
    pub fn new(bytes: u8, slots: u32) -> (r: Result<Self, LexoRankError>)
        requires
            slots > 0,
        ensures
            r is Ok <==> 1 <= bytes <= 12,
            !(1 <= bytes <= 12) ==> r == Err::<Self, LexoRankError>(LexoRankError::InvalidNumber { number: 0 }),
            r matches Ok(m) ==> m@ == (0u64, marker_max(bytes as nat) as u64, (marker_max(bytes as nat) / slots as nat) as u64),
    {
        let zeros = repeat_char('0', bytes as usize);
        let min = match parse_radix(&zeros, 0, zeros.len(), 36, 0xffff_ffff_ffff_ffff) {
            Some(v) => v,
            None => {
                proof {
                    assert(zeros@.subrange(0, zeros.len() as int) =~= zeros@);
                    lemma_repeated_value('0', 0, bytes as nat);
                    if bytes > 0 {
                        assert(zeros@[0] != '+');
                    }
                }
                return Err(LexoRankError::InvalidNumber { number: 0 });
            },
        };
        let nines = repeat_char('z', bytes as usize);
        let max = match parse_radix(&nines, 0, nines.len(), 36, 0xffff_ffff_ffff_ffff) {
            Some(v) => v,
            None => {
                proof {
                    assert(nines@.subrange(0, nines.len() as int) =~= nines@);
                    lemma_repeated_value('z', 35, bytes as nat);
                    if bytes > 0 {
                        assert(nines@[0] != '+');
                    }
                    if 1 <= bytes <= 12 {
                        lemma_pow36_mono(bytes as nat, 12);
                        reveal_with_fuel(radix_pow, 13);
                        assert(radix_pow(36, 12) == 4738381338321616896);
                    }
                }
                return Err(LexoRankError::InvalidNumber { number: 0 });
            },
        };
        proof {
            assert(zeros@.subrange(0, zeros.len() as int) =~= zeros@);
            assert(nines@.subrange(0, nines.len() as int) =~= nines@);
            lemma_repeated_value('0', 0, bytes as nat);
            lemma_repeated_value('z', 35, bytes as nat);
            if bytes == 0 {
                assert(zeros@.len() == 0);
            } else {
                assert(zeros@[0] != '+');
                assert(nines@[0] != '+');
            }
            if bytes > 12 {
                lemma_pow36_mono(13, bytes as nat);
                reveal_with_fuel(radix_pow, 14);
            }
        }
        let slot_size = max / (slots as u64);
        Ok(Self { min, max, slot_size })
    }

    /// The rank halfway between the bounds.
    pub fn first(&self) -> (r: u64)
        ensures
            r as int == (self@.0 as int + self@.1 as int) / 2,
    {
        midpoint(self.min, self.max)
    }

    /// The rank one slot before `from`; when that would reach the lower
    /// bound, the rank halfway between the lower bound and `from`, if there
    /// is room for one.
    pub fn prev(&self, from: u64) -> (r: Option<u64>)
        requires
            self@.0 <= from,
        ensures
            r == prev_position(self@.0 as nat, self@.2 as nat, from as nat),
    {
        if from - self.min > self.slot_size {
            Some(from - self.slot_size)
        } else {
            // The default slots are exhausted: fall back to midpoint ranking.
            Self::middlepoint(self.min, from)
        }
    }

    /// The rank one slot after `from`; when that would reach the upper
    /// bound, the rank halfway between `from` and the upper bound, if there
    /// is room for one.
    pub fn next(&self, from: u64) -> (r: Option<u64>)
        requires
            from + self@.2 <= u64::MAX,
            from + self@.2 >= self@.1 ==> from <= self@.1,
        ensures
            r == next_position(self@.1 as nat, self@.2 as nat, from as nat),
    {
        let next = from + self.slot_size;
        // The default slots are exhausted: fall back to midpoint ranking.
        if next >= self.max {
            Self::middlepoint(from, self.max)
        } else {
            Some(next)
        }
    }

    /// The rank halfway between `left` and `right`, if one lies strictly
    /// between them.
    pub fn middlepoint(left: u64, right: u64) -> (r: Option<u64>)
        requires
            left <= right,
        ensures
            r == middle(left as nat, right as nat),
    {
        let difference = right - left;
        if difference < 2 {
            None
        } else {
            Some(left + difference / 2)
        }
    }
}

/// The rank halfway between `left` and `right`, when they are at least two apart.
pub open spec fn middle(left: nat, right: nat) -> Option<u64> {
    if right - left < 2 {
        None
    } else {
        Some((left + (right - left) / 2) as u64)
    }
}

/// A rank found by midpoint ranking lies strictly between the two ranks it
/// was found between.
pub proof fn lemma_middle_between(left: u64, right: u64)
    requires
        left <= right,
    ensures
        middle(left as nat, right as nat) matches Some(m) ==> left < m < right,
        middle(left as nat, right as nat) is None ==> right - left < 2,
{
}

/// What [`Marker::prev`] hands out before `from`, for a marker whose lower
/// bound is `min` and whose slot size is `slot`.
pub open spec fn prev_position(min: nat, slot: nat, from: nat) -> Option<u64> {
    if from - min > slot {
        Some((from - slot) as u64)
    } else {
        middle(min, from)
    }
}

/// What [`Marker::next`] hands out after `from`, for a marker whose upper
/// bound is `max` and whose slot size is `slot`.
pub open spec fn next_position(max: nat, slot: nat, from: nat) -> Option<u64> {
    if from + slot < max {
        Some((from + slot) as u64)
    } else {
        middle(from, max)
    }
}

/// In a rank space whose lower bound is zero, with slots of at least one,
/// the rank handed out before `from` is smaller than `from`; and one handed
/// out after `from`, below the upper bound, is larger than `from`.
pub proof fn lemma_marker_steps_order(min: u64, max: u64, slot: u64, from: u64)
    requires
        min == 0,
        slot > 0,
        from <= max,
    ensures
        prev_position(min as nat, slot as nat, from as nat) matches Some(v) ==> v < from,
        next_position(max as nat, slot as nat, from as nat) matches Some(v) ==> from < v,
        next_position(max as nat, slot as nat, from as nat) matches Some(v) ==> v <= max,
{
}

impl View for LexoRank {
    type V = (u8, (u64, u64, u64));

    closed spec fn view(&self) -> (u8, (u64, u64, u64)) {
        (self.bytes, self.marker@)
    }
}

proof fn lemma_pow36_values()
    ensures
        radix_pow(36, 4) == 1679616,
        radix_pow(36, 12) == 4738381338321616896,
{
    reveal_with_fuel(radix_pow, 13);
}

/// Whether a rank can be placed before the rank written `s` in the rank
/// space `m` (bounds and slot size): the text is a rank at or above the
/// lower bound, and where a slot below would reach the lower bound, there
/// is room for one between the bound and the rank.
pub open spec fn prev_allowed(m: (u64, u64, u64), s: Seq<char>) -> bool {
    parse_rank_text(s) matches Some((b, p)) && p >= m.0
        && (p - m.0 <= m.2 ==> middle(m.0 as nat, p) is Some)
}

/// Whether a rank can be placed after the rank written `s` in the rank
/// space `m`: the text is a rank a slot above which fits in a `u64`, and
/// where that slot would reach the upper bound, the rank lies at or below
/// it with room for one between them.
pub open spec fn next_allowed(m: (u64, u64, u64), s: Seq<char>) -> bool {
    parse_rank_text(s) matches Some((b, p)) && p + m.2 <= u64::MAX && (p + m.2 >= m.1 ==> p <= m.1)
        && (p + m.2 >= m.1 ==> middle(p, m.1 as nat) is Some)
}

impl LexoRank {
    /// A rank space of `bytes` base-36 characters split into `slots` slots.
    pub fn new(bytes: u8, slots: u32) -> (r: Result<Self, LexoRankError>)
        requires
            slots > 0,
        ensures
            !(4 <= bytes <= 12) ==> r == Err::<Self, LexoRankError>(LexoRankError::ByteRange { bytes }),
            (4 <= bytes <= 12 && slots > radix_pow(36, bytes as nat)) ==> r == Err::<Self, LexoRankError>(LexoRankError::TooManySlots { slots, bytes }),
            (4 <= bytes <= 12 && slots <= radix_pow(36, bytes as nat)) ==> (r matches Ok(l) && l@ == (bytes, (0u64, marker_max(bytes as nat) as u64, (marker_max(bytes as nat) / slots as nat) as u64))),
    {
        if !(4 <= bytes && bytes <= 12) {
            return Err(LexoRankError::ByteRange { bytes });
        }
        let mut power: u64 = 1;
        let mut i: u8 = 0;
        proof {
            lemma_pow36_mono(bytes as nat, 12);
            lemma_pow36_values();
        }
        while i < bytes
            invariant
                i <= bytes <= 12,
                power as nat == radix_pow(36, i as nat),
                radix_pow(36, bytes as nat) <= 4738381338321616896,
            decreases bytes - i,
        {
            proof {
                lemma_pow36_mono((i + 1) as nat, bytes as nat);
            }
            power = power * 36;
            i = i + 1;
        }
        if (slots as u64) > power {
            return Err(LexoRankError::TooManySlots { slots, bytes });
        }
        let marker = match Marker::new(bytes, slots) {
            Ok(m) => m,
            Err(e) => {
                return Err(e);
            },
        };
        Ok(Self { bytes, marker })
    }

    /// The rank to place before the first ranked item (`first`), or the
    /// middle of the rank space when nothing is ranked yet.
    pub fn prev(&self, first: Option<&str>) -> (r: Rank)
        requires
            first matches Some(s) ==> prev_allowed(self@.1, s@),
        ensures
            first is None ==> r@ == (0u8, ((self@.1.0 as int + self@.1.1 as int) / 2) as u64),
            first matches Some(s) ==> (parse_rank_text(s@) matches Some((b, p)) && r@.0 == b && (p - self@.1.0 > self@.1.2 ==> r@.1 == p - self@.1.2) && (p - self@.1.0 <= self@.1.2 ==> Some(r@.1) == middle(self@.1.0 as nat, p))),
    {
        match first {
            Some(text) => {
                let rank = Rank::from_str(text);
                let position = match self.marker.prev(rank.rank) {
                    Some(p) => p,
                    None => {
                        assert(false);
                        0
                    },
                };
                Rank { bucket: rank.bucket, rank: position }
            },
            None => Rank { bucket: 0, rank: self.marker.first() },
        }
    }

    /// The rank to place after the last ranked item (`last`), or the middle
    /// of the rank space when nothing is ranked yet.
    pub fn next(&self, last: Option<&str>) -> (r: Rank)
        requires
            last matches Some(s) ==> next_allowed(self@.1, s@),
        ensures
            last is None ==> r@ == (0u8, ((self@.1.0 as int + self@.1.1 as int) / 2) as u64),
            last matches Some(s) ==> (parse_rank_text(s@) matches Some((b, p)) && r@.0 == b && (p + self@.1.2 < self@.1.1 ==> r@.1 == p + self@.1.2) && (p + self@.1.2 >= self@.1.1 ==> Some(r@.1) == middle(p, self@.1.1 as nat))),
    {
        match last {
            Some(text) => {
                let rank = Rank::from_str(text);
                let position = match self.marker.next(rank.rank) {
                    Some(p) => p,
                    None => {
                        assert(false);
                        0
                    },
                };
                Rank { bucket: rank.bucket, rank: position }
            },
            None => Rank { bucket: 0, rank: self.marker.first() },
        }
    }

    /// `prev`, or `None` where no rank can be placed before `first`.
    pub fn try_prev(&self, first: Option<&str>) -> (r: Option<Rank>)
        ensures
            first is None ==> (r matches Some(k) && k@ == (0u8, ((self@.1.0 as int + self@.1.1 as int) / 2) as u64)),
            first matches Some(s) ==> (r is Some <==> prev_allowed(self@.1, s@)),
            first matches Some(s) ==> (r matches Some(k) ==> (parse_rank_text(s@) matches Some((b, p)) && k@.0 == b && (p - self@.1.0 > self@.1.2 ==> k@.1 == p - self@.1.2) && (p - self@.1.0 <= self@.1.2 ==> Some(k@.1) == middle(self@.1.0 as nat, p)))),
    {
        match first {
            None => Some(self.prev(None)),
            Some(text) => match Rank::parse(text) {
                None => None,
                Some(rank) => {
                    let p = rank.rank;
                    let slot = self.marker.slot_size;
                    let min = self.marker.min;
                    if p < min {
                        return None;
                    }
                    if p - min <= slot && p - min < 2 {
                        return None;
                    }
                    Some(self.prev(Some(text)))
                },
            },
        }
    }

    /// `next`, or `None` where no rank can be placed after `last`.
    pub fn try_next(&self, last: Option<&str>) -> (r: Option<Rank>)
        ensures
            last is None ==> (r matches Some(k) && k@ == (0u8, ((self@.1.0 as int + self@.1.1 as int) / 2) as u64)),
            last matches Some(s) ==> (r is Some <==> next_allowed(self@.1, s@)),
            last matches Some(s) ==> (r matches Some(k) ==> (parse_rank_text(s@) matches Some((b, p)) && k@.0 == b && (p + self@.1.2 < self@.1.1 ==> k@.1 == p + self@.1.2) && (p + self@.1.2 >= self@.1.1 ==> Some(k@.1) == middle(p, self@.1.1 as nat)))),
    {
        match last {
            None => Some(self.next(None)),
            Some(text) => match Rank::parse(text) {
                None => None,
                Some(rank) => {
                    let p = rank.rank;
                    let slot = self.marker.slot_size;
                    let max = self.marker.max;
                    if p > u64::MAX - slot {
                        return None;
                    }
                    if p + slot >= max && (p > max || max - p < 2) {
                        return None;
                    }
                    Some(self.next(Some(text)))
                },
            },
        }
    }
}

impl Default for LexoRank {
    fn default() -> (r: Self)
        ensures
            r@ == (12u8, (0u64, marker_max(12) as u64, (marker_max(12) / 0xffff_ffffnat) as u64)),
    {
        proof {
            lemma_pow36_values();
        }
        match Self::new(12, u32::MAX) {
            Ok(l) => l,
            Err(_) => {
                assert(false);
                LexoRank { bytes: 12, marker: Marker { min: 0, max: 0, slot_size: 0 } }
            },
        }
    }
}

} // verus!
