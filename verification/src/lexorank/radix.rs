//! Base-36 rendering and radix parsing of unsigned numbers.
use vstd::prelude::*;

verus! {

/// The character that stands for digit `d` (`d < 36`): `0`-`9`, then `a`-`z`.
pub open spec fn digit_char(d: nat) -> char {
    if d < 10 {
        (48 + d) as char
    } else {
        (87 + d) as char
    }
}

/// The value of `c` as a digit in `radix` (`char::to_digit`): decimal digits,
/// then letters of either case, as far as the radix reaches.
pub open spec fn digit_value(c: char, radix: nat) -> Option<nat> {
    let v: int = if '0' <= c && c <= '9' {
        c as int - 48
    } else if 'a' <= c && c <= 'z' {
        c as int - 87
    } else if 'A' <= c && c <= 'Z' {
        c as int - 55
    } else {
        -1
    };
    if 0 <= v && v < radix {
        Some(v as nat)
    } else {
        None
    }
}

/// The digits of `n` in `radix`, most significant first, with no leading
/// zero (empty for zero).
pub open spec fn radix_digits(n: nat, radix: nat) -> Seq<char>
    recommends
        2 <= radix <= 36,
    decreases n,
{
    if n == 0 || radix < 2 {
        Seq::empty()
    } else {
        proof {
            assert(n / radix < n) by (nonlinear_arith)
                requires
                    n > 0,
                    radix >= 2,
            ;
        }
        radix_digits(n / radix, radix).push(digit_char(n % radix))
    }
}

/// The text of `n` in `radix`: its digits, or `0` for zero.
pub open spec fn radix_text(n: nat, radix: nat) -> Seq<char> {
    if n == 0 {
        seq!['0']
    } else {
        radix_digits(n, radix)
    }
}

/// Whether every character of `s` is a digit in `radix`.
pub open spec fn all_digits(s: Seq<char>, radix: nat) -> bool {
    forall|i: int| 0 <= i < s.len() ==> (#[trigger] digit_value(s[i], radix)) is Some
}

/// The number that the digits `s` spell in `radix`.
pub open spec fn digits_value(s: Seq<char>, radix: nat) -> nat
    decreases s.len(),
{
    if s.len() == 0 {
        0
    } else {
        digits_value(s.drop_last(), radix) * radix + match digit_value(s.last(), radix) {
            Some(d) => d,
            None => 0,
        }
    }
}

/// The digits of a number's text, after an optional leading `+`.
pub open spec fn unsigned_digits(s: Seq<char>) -> Seq<char> {
    if s.len() > 0 && s[0] == '+' {
        s.drop_first()
    } else {
        s
    }
}

/// What `from_str_radix` makes of `s` for an unsigned type whose largest
/// value is `max`: an optional `+`, then at least one digit, and a value
/// that fits.
pub open spec fn radix_parse(s: Seq<char>, radix: nat, max: nat) -> Option<nat> {
    let d = unsigned_digits(s);
    if d.len() > 0 && all_digits(d, radix) && digits_value(d, radix) <= max {
        Some(digits_value(d, radix))
    } else {
        None
    }
}

proof fn lemma_digit_roundtrip(d: nat, radix: nat)
    requires
        d < radix <= 36,
    ensures
        digit_value(digit_char(d), radix) == Some(d),
{
}

proof fn lemma_digits_value_push(s: Seq<char>, c: char, radix: nat)
    ensures
        digits_value(s.push(c), radix) == digits_value(s, radix) * radix + match digit_value(
            c,
            radix,
        ) {
            Some(d) => d,
            None => 0,
        },
{
    assert(s.push(c).drop_last() =~= s);
}

/// Reading back the digits of `n` gives `n`.
pub proof fn lemma_radix_digits_value(n: nat, radix: nat)
    requires
        2 <= radix <= 36,
    ensures
        digits_value(radix_digits(n, radix), radix) == n,
        all_digits(radix_digits(n, radix), radix),
    decreases n,
{
    if n > 0 {
        lemma_radix_digits_value(n / radix, radix);
        lemma_digit_roundtrip(n % radix, radix);
        vstd::arithmetic::div_mod::lemma_fundamental_div_mod(n as int, radix as int);
        lemma_digits_value_push(radix_digits(n / radix, radix), digit_char(n % radix), radix);
        let s = radix_digits(n / radix, radix);
        assert forall|i: int| 0 <= i < s.push(digit_char(n % radix)).len() implies (
        #[trigger] digit_value(s.push(digit_char(n % radix))[i], radix)) is Some by {
            if i < s.len() {
                assert(s.push(digit_char(n % radix))[i] == s[i]);
            }
        }
    }
}

/// Reading back the text of `n` in `radix` gives `n`.
pub proof fn lemma_radix_text_roundtrip(n: nat, radix: nat, max: nat)
    requires
        2 <= radix <= 36,
        n <= max,
    ensures
        radix_parse(radix_text(n, radix), radix, max) == Some(n),
{
    if n == 0 {
        assert(digit_value('0', radix) == Some(0nat));
        assert(seq!['0'].drop_last() =~= Seq::<char>::empty());
        assert(seq!['0'].last() == '0');
        let z = digits_value(Seq::<char>::empty(), radix);
        assert(z == 0);
        assert(z * radix == 0) by (nonlinear_arith)
            requires
                z == 0,
        ;
        assert(digits_value(seq!['0'], radix) == z * radix + 0);
        assert(digits_value(seq!['0'], radix) == 0);
    } else {
        lemma_radix_digits_value(n, radix);
        lemma_radix_digits_nonempty(n, radix);
        let s = radix_digits(n, radix);
        assert(digit_value(s[0], radix) is Some);
    }
}

proof fn lemma_radix_digits_nonempty(n: nat, radix: nat)
    requires
        2 <= radix <= 36,
        n > 0,
    ensures
        radix_digits(n, radix).len() > 0,
{
}

/// `radix` raised to the power `k`.
pub open spec fn radix_pow(radix: nat, k: nat) -> nat
    decreases k,
{
    if k == 0 {
        1
    } else {
        radix * radix_pow(radix, (k - 1) as nat)
    }
}

/// The digits of a number below `radix^k` are at most `k` characters long.
proof fn lemma_radix_digits_len(n: nat, radix: nat, k: nat)
    requires
        2 <= radix <= 36,
        n < radix_pow(radix, k),
    ensures
        radix_digits(n, radix).len() <= k,
    decreases k,
{
    if n > 0 && k > 0 {
        let b2 = radix_pow(radix, (k - 1) as nat);
        assert(n / radix < b2) by (nonlinear_arith)
            requires
                n < radix * b2,
                radix >= 2,
        {
        }
        lemma_radix_digits_len(n / radix, radix, (k - 1) as nat);
    }
}

proof fn lemma_u64_digits_fit()
    ensures
        radix_pow(36, 13) > 0xffff_ffff_ffff_ffff,
{
    reveal_with_fuel(radix_pow, 14);
}

/// Whether `c` is a lowercase base-36 digit: `0` to `9` or `a` to `z`.
pub open spec fn is_base36_char(c: char) -> bool {
    ('0' <= c && c <= '9') || ('a' <= c && c <= 'z')
}

proof fn lemma_digits_shape(n: nat)
    ensures
        forall|i: int| 0 <= i < radix_digits(n, 36).len() ==> is_base36_char(#[trigger] radix_digits(n, 36)[i]),
        n >= 1 ==> radix_digits(n, 36).len() >= 1 && radix_digits(n, 36)[0] != '0',
    decreases n,
{
    if n > 0 {
        assert(n / 36 < n);
        lemma_digits_shape(n / 36);
        let d = (n % 36) as nat;
        assert(d < 36);
        assert(is_base36_char(digit_char(d)));
        if n / 36 == 0 {
            assert(radix_digits(n / 36, 36) =~= Seq::<char>::empty());
            assert(n == d);
            assert(digit_char(d) != '0');
        }
    }
}

/// The base-36 text of a positive number is one to thirteen lowercase
/// base-36 digits, the first of them not `0`.
pub proof fn lemma_base36_text_shape(n: u64)
    requires
        n >= 1,
    ensures
        radix_text(n as nat, 36).len() >= 1,
        radix_text(n as nat, 36).len() <= 13,
        forall|i: int| 0 <= i < radix_text(n as nat, 36).len() ==> is_base36_char(#[trigger] radix_text(n as nat, 36)[i]),
        radix_text(n as nat, 36)[0] != '0',
{
    lemma_digits_shape(n as nat);
    lemma_u64_digits_fit();
    lemma_radix_digits_len(n as nat, 36, 13);
}

/// The lowercase base-36 digit character for `d` (as `char::from_digit(d, 36)`).
fn from_digit_36(d: u32) -> (r: Option<char>)
    ensures
        d < 36 ==> r == Some(digit_char(d as nat)),
        d >= 36 ==> r is None,
{
    if d < 10 {
        Some(((48 + d) as u8) as char)
    } else if d < 36 {
        Some(((87 + d) as u8) as char)
    } else {
        None
    }
}

#[verifier::external_type_specification]
#[verifier::external_body]
pub struct ExCapacityError(heapless::CapacityError);

/// A fixed-capacity `heapless::String<13>` that the base-36 digits are
/// gathered in. (Verus cannot name the storage type behind the string, so the
/// string is held here and reached only through the functions below.)
#[verifier::external_body]
pub struct DigitBuffer {
    inner: heapless::String<13>,
}

/// The characters held by a digit buffer.
pub uninterp spec fn buffer_chars(b: DigitBuffer) -> Seq<char>;

/// `heapless::String::<13>::new`: an empty buffer.
#[verifier::external_body]
fn buffer_new() -> (b: DigitBuffer)
    ensures
        buffer_chars(b) == Seq::<char>::empty(),
{
    DigitBuffer { inner: heapless::String::<13>::new() }
}

/// `heapless::String::push`: appends `c` when its UTF-8 bytes still fit in
/// the 13 bytes of the buffer, else leaves the buffer as it was and fails.
/// An ASCII character fits while fewer than 13 ASCII characters are held.
#[verifier::external_body]
fn buffer_push(b: &mut DigitBuffer, c: char) -> (r: Result<(), heapless::CapacityError>)
    ensures
        r is Ok ==> buffer_chars(*final(b)) == buffer_chars(*old(b)).push(c),
        r is Err ==> buffer_chars(*final(b)) == buffer_chars(*old(b)),
        (vstd::utf8::is_ascii_chars(buffer_chars(*old(b))) && (c as nat) < 128 && buffer_chars(
            *old(b),
        ).len() < 13) ==> r is Ok,
{
    b.inner.push(c)
}

/// `b.chars().rev().collect::<heapless::String<13>>()`: the same characters
/// in reverse order (they take the same bytes, so they fit).
#[verifier::external_body]
fn buffer_reversed(b: &DigitBuffer) -> (r: DigitBuffer)
    ensures
        buffer_chars(r) == buffer_chars(*b).reverse(),
{
    DigitBuffer { inner: b.inner.chars().rev().collect::<heapless::String<13>>() }
}

/// `heapless::String::as_str`, copied into a `String`.
#[verifier::external_body]
fn buffer_to_string(b: &DigitBuffer) -> (r: String)
    ensures
        r@ == buffer_chars(*b),
{
    b.inner.as_str().to_owned()
}

/// A number to be written in base 36.
pub struct Base36(u64);

impl View for Base36 {
    type V = u64;

    closed spec fn view(&self) -> u64 {
        self.0
    }
}

proof fn lemma_digit_ascii(d: nat)
    requires
        d < 36,
    ensures
        (digit_char(d) as nat) < 128,
{
}

impl Base36 {
    pub fn new(num: u64) -> (r: Self)
        ensures
            r@ == num,
    {
        Self(num)
    }

    /// The base-36 text of the number: lowercase digits, most significant
    /// first, `0` for zero.
    pub fn to_string(&self) -> (r: String)
        ensures
            r@ == radix_text(self@ as nat, 36),
    {
        let n = self.0;
        let mut value = self.0;
        let mut output = buffer_new();
        proof {
            lemma_u64_digits_fit();
            lemma_radix_digits_len(n as nat, 36, 13);
        }
        loop
            invariant_except_break
                value > 0 || buffer_chars(output).len() == 0,
                radix_digits(n as nat, 36) == radix_digits(value as nat, 36) + buffer_chars(
                    output,
                ).reverse(),
            invariant
                radix_digits(n as nat, 36).len() <= 13,
                vstd::utf8::is_ascii_chars(buffer_chars(output)),
                n == 0 ==> value == 0,
            ensures
                n == 0 ==> buffer_chars(output) == seq!['0'],
                n > 0 ==> radix_digits(n as nat, 36) == buffer_chars(output).reverse(),
            decreases value,
        {
            let remainder = (value % 36) as u32;
            let digit = match from_digit_36(remainder) {
                Some(c) => c,
                None => {
                    assert(false);
                    '0'
                },
            };
            let ghost before = buffer_chars(output);
            proof {
                lemma_digit_ascii(remainder as nat);
                if value > 0 {
                    assert(radix_digits(value as nat, 36).len() > 0);
                }
                assert(before.len() < 13 || value == 0) by {
                    if value > 0 {
                        assert(before.reverse().len() == before.len());
                    }
                }
            }
            let pushed = buffer_push(&mut output, digit);
            if pushed.is_err() {
                // digits of a u64 always fit: unreachable
                proof {
                    assert(value == 0);
                    assert(before.len() == 0);
                }
                assert(false);
            }
            proof {
                let after = buffer_chars(output);
                assert(after == before.push(digit));
                assert(after.reverse() =~= seq![digit] + before.reverse()) by {
                    assert forall|i: int| 0 <= i < after.len() implies after.reverse()[i] == (seq![digit] + before.reverse())[i] by {
                        if i > 0 {
                            assert(after.reverse()[i] == after[after.len() - 1 - i]);
                        }
                    }
                }
                assert forall|i: int| 0 <= i < after.len() implies (after[i] as nat) < 128 by {
                    if i < before.len() {
                        assert(after[i] == before[i]);
                    }
                }
                if value > 0 {
                    assert(radix_digits(value as nat, 36) == radix_digits((value / 36) as nat, 36).push(
                        digit,
                    ));
                    assert(radix_digits((value / 36) as nat, 36) + after.reverse() =~= radix_digits(
                        value as nat,
                        36,
                    ) + before.reverse());
                } else {
                    assert(before.len() == 0);
                    assert(digit == '0');
                }
            }
            value = value / 36;
            if value == 0 {
                proof {
                    if n == 0 {
                        assert(buffer_chars(output) =~= seq!['0']);
                    } else {
                        assert(radix_digits(0, 36) == Seq::<char>::empty());
                        assert(radix_digits(n as nat, 36) =~= buffer_chars(output).reverse());
                    }
                }
                break;
            }
        }
        let reversed = buffer_reversed(&output);
        proof {
            let out = buffer_chars(output);
            if n > 0 {
                assert(out.reverse() =~= radix_digits(n as nat, 36));
            } else {
                assert(out.reverse() =~= seq!['0']);
            }
        }
        buffer_to_string(&reversed)
    }
}

/// Parses the characters `s[start..end]` as an unsigned number in `radix`
/// that must not exceed `max`, as `from_str_radix` does.
pub fn parse_radix(s: &Vec<char>, start: usize, end: usize, radix: u32, max: u64) -> (r: Option<u64>)
    requires
        start <= end <= s.len(),
        2 <= radix <= 36,
    ensures
        r matches Some(v) ==> radix_parse(s@.subrange(start as int, end as int), radix as nat, max as nat) == Some(v as nat),
        r is None ==> radix_parse(s@.subrange(start as int, end as int), radix as nat, max as nat) is None,
{
    let ghost full = s@.subrange(start as int, end as int);
    let mut i = start;
    if i < end && s[i] == '+' {
        i = i + 1;
    }
    let ghost d = s@.subrange(i as int, end as int);
    proof {
        if i > start {
            assert(d =~= full.drop_first());
        } else {
            assert(d =~= full);
        }
        assert(unsigned_digits(full) == d);
    }
    if i == end {
        return None;
    }
    let first = i;
    let mut acc: u64 = 0;
    proof {
        assert(s@.subrange(first as int, first as int) =~= Seq::<char>::empty());
    }
    while i < end
        invariant
            first <= i <= end <= s.len(),
            first < end,
            2 <= radix <= 36,
            full == s@.subrange(start as int, end as int),
            d == s@.subrange(first as int, end as int),
            unsigned_digits(full) == d,
            all_digits(s@.subrange(first as int, i as int), radix as nat),
            acc as nat == digits_value(s@.subrange(first as int, i as int), radix as nat),
            acc <= max,
        decreases end - i,
    {
        let c = s[i];
        let dv: u32 = if '0' <= c && c <= '9' {
            (c as u32) - 48
        } else if 'a' <= c && c <= 'z' {
            (c as u32) - 87
        } else if 'A' <= c && c <= 'Z' {
            (c as u32) - 55
        } else {
            36
        };
        let ghost pre = s@.subrange(first as int, i as int);
        let ghost next = s@.subrange(first as int, i + 1);
        proof {
            assert(next =~= pre.push(c));
            assert(next.drop_last() =~= pre);
            assert(d[i - first] == c);
        }
        if dv >= radix {
            proof {
                assert(digit_value(c, radix as nat) is None);
                assert(digit_value(d[i - first], radix as nat) is None);
                assert(!all_digits(d, radix as nat));
            }
            return None;
        }
        proof {
            assert(digit_value(c, radix as nat) == Some(dv as nat));
            assert(digits_value(next, radix as nat) == acc * radix + dv);
            assert forall|j: int| 0 <= j < next.len() implies (#[trigger] digit_value(
                next[j],
                radix as nat,
            )) is Some by {
                if j < pre.len() {
                    assert(next[j] == pre[j]);
                }
            }
        }
        let step = match acc.checked_mul(radix as u64) {
            Some(m) => m.checked_add(dv as u64),
            None => None,
        };
        match step {
            Some(v) if v <= max => {
                acc = v;
            },
            _ => {
                proof {
                    assert(digits_value(next, radix as nat) > max);
                    assert(d.subrange(0, (i + 1 - first) as int) =~= next);
                    lemma_digits_value_monotone(d, (i + 1 - first) as nat, radix as nat);
                }
                return None;
            },
        }
        i = i + 1;
    }
    proof {
        assert(s@.subrange(first as int, i as int) =~= d);
    }
    Some(acc)
}

/// A longer run of digits never spells a smaller number than its prefix.
proof fn lemma_digits_value_monotone(d: Seq<char>, k: nat, radix: nat)
    requires
        k <= d.len(),
        radix >= 1,
    ensures
        all_digits(d, radix) ==> digits_value(d.subrange(0, k as int), radix) <= digits_value(d, radix),
    decreases d.len() - k,
{
    if k < d.len() && all_digits(d, radix) {
        let p = d.subrange(0, k as int);
        let q = d.subrange(0, (k + 1) as int);
        assert(q.drop_last() =~= p);
        assert(digits_value(q, radix) >= digits_value(p, radix)) by (nonlinear_arith)
            requires
                digits_value(q, radix) >= digits_value(p, radix) * radix,
                radix >= 1,
        {
        }
        lemma_digits_value_monotone(d, k + 1, radix);
        if k + 1 == d.len() {
            assert(q =~= d);
        }
    } else if k == d.len() {
        assert(d.subrange(0, k as int) =~= d);
    }
}

} // verus!
