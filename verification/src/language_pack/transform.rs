//! Suffix inflection rules and the deinflection of text by them.
use vstd::prelude::*;
use super::processor::{byte_len, char_width, lemma_utf8_size_append, utf8_size, utf8_width};
use crate::text::{chars_of, string_of};

verus! {

/// Whether `s` ends with `t`.
pub open spec fn ends_with(s: Seq<char>, t: Seq<char>) -> bool {
    t.len() <= s.len() && s.subrange(s.len() - t.len(), s.len() as int) == t
}

/// `s` without its last `n` characters.
pub open spec fn drop_end(s: Seq<char>, n: nat) -> Seq<char> {
    s.subrange(0, s.len() - n)
}

/// The number of leading characters of `s` that take exactly `n` bytes in
/// UTF-8, if `n` falls on a character boundary.
pub open spec fn byte_prefix(s: Seq<char>, n: nat) -> Option<nat>
    decreases s.len(),
{
    if n == 0 {
        Some(0)
    } else if s.len() == 0 {
        None
    } else if utf8_width(s[0]) <= n {
        match byte_prefix(s.skip(1), (n - utf8_width(s[0])) as nat) {
            Some(k) => Some(k + 1),
            None => None,
        }
    } else {
        None
    }
}

/// The kind of an inflection rule.
#[derive(Debug, Clone, Copy, PartialEq, Eq, Structural)]
pub enum InflectionKind {
    Suffix,
}

/// An inflection rule: text that ends with `test` is deinflected by
/// replacing that ending with `deinflection`.
#[derive(Debug)]
pub struct Inflection {
    pub kind: InflectionKind,
    pub test: &'static str,
    pub deinflection: &'static str,
    pub conditions_in: u32,
    pub conditions_out: u32,
    pub replacements: &'static [(&'static str, &'static str)],
}

/// An inflection rule as plain values: its ending, the text that replaces
/// it, its conditions in and out, and the endings it rewrites first.
pub type RuleView = (Seq<char>, Seq<char>, u32, u32, Seq<(Seq<char>, Seq<char>)>);

/// A rule as plain values.
pub open spec fn rule_view(r: Inflection) -> RuleView {
    (r.test@, r.deinflection@, r.conditions_in, r.conditions_out,
        r.replacements@.map_values(|p: (&'static str, &'static str)| (p.0@, p.1@)))
}

/// Rules as plain values.
pub open spec fn rules_view(rs: Seq<Inflection>) -> Seq<RuleView> {
    rs.map_values(|r: Inflection| rule_view(r))
}

/// Each character takes at most four bytes.
pub proof fn lemma_utf8_size_bound(s: Seq<char>)
    ensures
        utf8_size(s) <= 4 * s.len(),
    decreases s.len(),
{
    if s.len() > 0 {
        lemma_utf8_size_bound(s.drop_last());
    }
}

/// Whether a rule, as plain values, is one the resolver takes: its
/// ending, its replacement and the endings it rewrites fit the machine's
/// sizes.
pub open spec fn rule_view_ok(v: RuleView) -> bool {
    &&& utf8_size(v.0) <= usize::MAX
    &&& utf8_size(v.1) <= usize::MAX
    &&& forall|k: int| 0 <= k < v.4.len() ==> utf8_size((#[trigger] v.4[k]).0) <= usize::MAX
}

/// A suffix inflection rule without replacements.
pub fn suffix_inflection(
    test: &'static str,
    deinflection: &'static str,
    conditions_in: u32,
    conditions_out: u32,
) -> (r: Inflection)
    ensures
        r.kind == InflectionKind::Suffix,
        r.test == test,
        r.deinflection == deinflection,
        r.conditions_in == conditions_in,
        r.conditions_out == conditions_out,
        r.replacements@.len() == 0,
{
    let replacements: &'static [(&'static str, &'static str)] = &[];
    Inflection {
        kind: InflectionKind::Suffix,
        test,
        deinflection,
        conditions_in,
        conditions_out,
        replacements,
    }
}

/// A suffix inflection rule with `replacements`: endings of the text that
/// are rewritten before the rule applies, for the replacement result.
pub fn suffix_inflection_with_replacements(
    test: &'static str,
    deinflection: &'static str,
    conditions_in: u32,
    conditions_out: u32,
    replacements: &'static [(&'static str, &'static str)],
) -> (r: Inflection)
    ensures
        r.kind == InflectionKind::Suffix,
        r.test == test,
        r.deinflection == deinflection,
        r.conditions_in == conditions_in,
        r.conditions_out == conditions_out,
        r.replacements == replacements,
{
    Inflection {
        kind: InflectionKind::Suffix,
        test,
        deinflection,
        conditions_in,
        conditions_out,
        replacements,
    }
}

/// What applying an inflection rule to a text gives.
#[derive(Debug)]
pub struct InflectionResult {
    pub text: String,
    pub replacement: Option<String>,
    pub inflection: String,
    pub deinflection: String,
    pub conditions: u32,
}

/// A text on its way through deinflection.
#[derive(Clone, Debug)]
pub struct TextTransform {
    pub text: String,
    pub replacement: Option<String>,
    pub inflection: String,
    pub last_inflection: String,
    pub conditions: u32,
    pub chain: Vec<(usize, usize)>,
    pub i: usize,
}

impl TextTransform {
    /// The text before any rule was applied.
    pub fn new(text: String) -> (r: Self)
        ensures
            r.text@ == text@,
            r.replacement is None,
            r.inflection@.len() == 0,
            r.last_inflection@.len() == 0,
            r.conditions == 0,
            r.chain@.len() == 0,
            r.i == 0,
    {
        Self {
            text,
            replacement: None,
            inflection: String::new(),
            last_inflection: String::new(),
            conditions: 0,
            chain: Vec::new(),
            i: 0,
        }
    }
}

/// The first replacement `(from, to)` whose `from` ends `text`.
pub open spec fn first_replacement(text: Seq<char>, replacements: Seq<(&'static str, &'static str)>) -> Option<(Seq<char>, Seq<char>)>
    decreases replacements.len(),
{
    if replacements.len() == 0 {
        None
    } else if ends_with(text, replacements[0].0@) {
        Some((replacements[0].0@, replacements[0].1@))
    } else {
        first_replacement(text, replacements.skip(1))
    }
}

/// What the replacement `from` → `to` gives for `text` under a rule with
/// ending `test` and replacement `deinflection`: the text's ending `from`
/// rewritten to `to`, cut to the byte length of `text` without `test`, and
/// `deinflection` appended; `None` where that cut falls past the end or
/// inside a character.
pub open spec fn replaced_text(text: Seq<char>, from: Seq<char>, to: Seq<char>, test: Seq<char>, deinflection: Seq<char>) -> Option<Seq<char>> {
    let rw = drop_end(text, from.len()) + to;
    match byte_prefix(rw, (utf8_size(text) - utf8_size(test)) as nat) {
        Some(k) => Some(rw.subrange(0, k as int) + deinflection),
        None => None,
    }
}

/// The byte size of a text that ends with `t` splits over that ending.
pub proof fn lemma_utf8_ends(s: Seq<char>, t: Seq<char>)
    requires
        ends_with(s, t),
    ensures
        utf8_size(s) == utf8_size(drop_end(s, t.len())) + utf8_size(t),
{
    assert(drop_end(s, t.len()) + t =~= s);
    lemma_utf8_size_append(drop_end(s, t.len()), t);
}

/// Whether the replacement that applies to `text` under `rule` cuts the
/// rewritten text past its end or inside a character.
pub open spec fn replacement_fails(rule: Inflection, text: Seq<char>) -> bool {
    first_replacement(text, rule.replacements@) matches Some((from, to))
        && replaced_text(text, from, to, rule.test@, rule.deinflection@) is None
}

impl Inflection {
    /// The leading part of the rule's `test` that the last applied rule's
    /// ending (`last`) does not cover, measured in bytes.
    pub open spec fn inflection_prefix(&self, last: Seq<char>) -> Option<nat> {
        byte_prefix(self.test@, (if utf8_size(self.test@) >= utf8_size(last) { utf8_size(self.test@) - utf8_size(last) } else { 0 }) as nat)
    }

    /// Applies the rule to `text`: when the text ends with `test`, the
    /// ending is replaced by `deinflection`; the replacement result does the
    /// same after the first matching replacement rewrote the text's ending
    /// (see `replaced_text`). `None` where the text does not end with
    /// `test`, or the replacement cuts its text inside a character or past
    /// its end.
    pub fn deinflect(&self, text: &TextTransform) -> (r: Option<InflectionResult>)
        requires
            ends_with(text.text@, self.test@) ==> self.inflection_prefix(text.last_inflection@) is Some,
            utf8_size(self.test@) <= usize::MAX,
            utf8_size(text.last_inflection@) <= usize::MAX,
        ensures
            !ends_with(text.text@, self.test@) ==> r is None,
            ends_with(text.text@, self.test@) ==> (r is None <==> replacement_fails(*self, text.text@)),
            r matches Some(res) ==> ({
                &&& res.text@ == drop_end(text.text@, self.test@.len()) + self.deinflection@
                &&& res.deinflection@ == self.deinflection@
                &&& res.conditions == self.conditions_out
                &&& res.inflection@ == self.test@.subrange(0, self.inflection_prefix(text.last_inflection@)->0 as int)
                &&& match first_replacement(text.text@, self.replacements@) {
                    Some((from, to)) => res.replacement matches Some(rep) && Some(rep@) == replaced_text(text.text@, from, to, self.test@, self.deinflection@),
                    None => res.replacement is None,
                }
            }),
    {
        let s = chars_of(text.text.as_str());
        let test = chars_of(self.test);
        if !ends_with_chars(&s, &test) {
            return None;
        }
        let base_len = s.len() - test.len();
        let deinflection = chars_of(self.deinflection);
        // The replacement result.
        let mut replacement: Option<String> = None;
        let mut k: usize = 0;
        proof {
            assert(self.replacements@.skip(0) =~= self.replacements@);
        }
        while k < self.replacements.len()
            invariant
                self.inflection_prefix(text.last_inflection@) is Some,
                utf8_size(self.test@) <= usize::MAX,
                utf8_size(text.last_inflection@) <= usize::MAX,
                k <= self.replacements@.len(),
                replacement is None,
                s@ == text.text@,
                first_replacement(text.text@, self.replacements@) == first_replacement(text.text@, self.replacements@.skip(k as int)),
                test@ == self.test@,
                deinflection@ == self.deinflection@,
                ends_with(s@, test@),
            ensures
                match first_replacement(text.text@, self.replacements@) {
                    Some((from, to)) => replacement matches Some(rep) && Some(rep@) == replaced_text(text.text@, from, to, self.test@, self.deinflection@),
                    None => replacement is None,
                },
            decreases self.replacements@.len() - k,
        {
            let (from, to) = self.replacements[k];
            let from_chars = chars_of(from);
            let reps = Ghost(self.replacements@.skip(k as int));
            proof {
                assert(reps@[0] == self.replacements@[k as int]);
                assert(reps@.skip(1) =~= self.replacements@.skip(k + 1));
            }
            if ends_with_chars(&s, &from_chars) {
                let to_chars = chars_of(to);
                let mut rewritten: Vec<char> = Vec::new();
                let mut j: usize = 0;
                let keep = s.len() - from_chars.len();
                while j < keep
                    invariant
                        j <= keep <= s.len(),
                        rewritten@ == s@.subrange(0, j as int),
                    decreases keep - j,
                {
                    rewritten.push(s[j]);
                    j = j + 1;
                    assert(rewritten@ =~= s@.subrange(0, j as int));
                }
                crate::text::push_chars(&mut rewritten, &to_chars);
                proof {
                    assert(rewritten@ =~= drop_end(s@, from_chars@.len()) + to_chars@);
                    assert(first_replacement(text.text@, self.replacements@) == Some((from@, to@)));
                    lemma_utf8_ends(s@, test@);
                }
                let total = byte_len(&text.text);
                let test_size = utf8_size_of(&test);
                let cut = match super::transform::byte_prefix_exec(&rewritten, total - test_size) {
                    Some(c) => c,
                    None => {
                        return None;
                    },
                };
                proof {
                    lemma_byte_prefix_bound(rewritten@, (total - test_size) as nat);
                }
                let mut out: Vec<char> = Vec::new();
                let mut j: usize = 0;
                while j < cut
                    invariant
                        j <= cut <= rewritten.len(),
                        out@ == rewritten@.subrange(0, j as int),
                    decreases cut - j,
                {
                    out.push(rewritten[j]);
                    j = j + 1;
                    assert(out@ =~= rewritten@.subrange(0, j as int));
                }
                crate::text::push_chars(&mut out, &deinflection);
                replacement = Some(string_of(&out));
                return build_result(self, text, &s, &test, &deinflection, replacement);
            }
            k = k + 1;
        }
        proof {
            assert(self.replacements@.skip(self.replacements@.len() as int) =~= Seq::<(&'static str, &'static str)>::empty());
        }
        build_result(self, text, &s, &test, &deinflection, replacement)
    }
}

/// Whether `s` ends with `t`.
pub fn ends_with_chars(s: &Vec<char>, t: &Vec<char>) -> (r: bool)
    ensures
        r == ends_with(s@, t@),
{
    if t.len() > s.len() {
        return false;
    }
    let off = s.len() - t.len();
    let mut i: usize = 0;
    while i < t.len()
        invariant
            off == s.len() - t.len(),
            i <= t.len(),
            forall|j: int| 0 <= j < i ==> s@[off + j] == t@[j],
        decreases t.len() - i,
    {
        if s[off + i] != t[i] {
            assert(s@.subrange(off as int, s.len() as int)[i as int] != t@[i as int]);
            return false;
        }
        i = i + 1;
    }
    assert(s@.subrange(off as int, s.len() as int) =~= t@);
    true
}

/// The number of UTF-8 bytes that `s` takes.
pub fn utf8_size_of(s: &Vec<char>) -> (r: usize)
    requires
        utf8_size(s@) <= usize::MAX,
    ensures
        r == utf8_size(s@),
{
    let mut total: usize = 0;
    let mut i: usize = 0;
    proof {
        assert(s@.subrange(0, 0) =~= Seq::<char>::empty());
    }
    while i < s.len()
        invariant
            i <= s.len(),
            total == utf8_size(s@.subrange(0, i as int)),
            utf8_size(s@) <= usize::MAX,
        decreases s.len() - i,
    {
        proof {
            crate::language_pack::processor::lemma_utf8_size_prefix(s@, i as int);
            crate::language_pack::processor::lemma_utf8_size_prefix_le(s@, i + 1);
        }
        total = total + char_width(s[i]);
        i = i + 1;
    }
    proof {
        assert(s@.subrange(0, i as int) =~= s@);
    }
    total
}

proof fn lemma_byte_prefix_bound(s: Seq<char>, n: nat)
    ensures
        byte_prefix(s, n) matches Some(k) ==> k <= s.len(),
    decreases s.len(),
{
    if n > 0 && s.len() > 0 && utf8_width(s[0]) <= n {
        lemma_byte_prefix_bound(s.skip(1), (n - utf8_width(s[0])) as nat);
    }
}

/// The number of leading characters of `s` that take `n` bytes.
pub(crate) fn byte_prefix_exec(s: &Vec<char>, n: usize) -> (r: Option<usize>)
    ensures
        r matches Some(k) ==> byte_prefix(s@, n as nat) == Some(k as nat),
        r is None ==> byte_prefix(s@, n as nat) is None,
{
    let mut i: usize = 0;
    let mut left: usize = n;
    proof {
        assert(s@.skip(0) =~= s@);
    }
    while i < s.len()
        invariant
            i <= s.len(),
            left <= n,
            byte_prefix(s@, n as nat) == match byte_prefix(s@.skip(i as int), left as nat) {
                Some(k) => Some((k + i) as nat),
                None => None,
            },
        decreases s.len() - i,
    {
        if left == 0 {
            return Some(i);
        }
        let w = char_width(s[i]);
        proof {
            assert(s@.skip(i as int)[0] == s@[i as int]);
            assert(s@.skip(i as int).skip(1) =~= s@.skip(i + 1));
        }
        if w > left {
            return None;
        }
        left = left - w;
        i = i + 1;
    }
    proof {
        assert(s@.skip(i as int).len() == 0);
    }
    if left == 0 {
        Some(i)
    } else {
        None
    }
}

fn build_result(
    rule: &Inflection,
    text: &TextTransform,
    s: &Vec<char>,
    test: &Vec<char>,
    deinflection: &Vec<char>,
    replacement: Option<String>,
) -> (r: Option<InflectionResult>)
    requires
        s@ == text.text@,
        test@ == rule.test@,
        deinflection@ == rule.deinflection@,
        ends_with(s@, test@),
        rule.inflection_prefix(text.last_inflection@) is Some,
        utf8_size(rule.test@) <= usize::MAX,
        utf8_size(text.last_inflection@) <= usize::MAX,
    ensures
        r matches Some(res) && {
            &&& res.text@ == drop_end(text.text@, rule.test@.len()) + rule.deinflection@
            &&& res.deinflection@ == rule.deinflection@
            &&& res.conditions == rule.conditions_out
            &&& res.inflection@ == rule.test@.subrange(0, rule.inflection_prefix(text.last_inflection@)->0 as int)
            &&& res.replacement == replacement
        },
{
    let base_len = s.len() - test.len();
    let mut out: Vec<char> = Vec::new();
    let mut j: usize = 0;
    while j < base_len
        invariant
            j <= base_len <= s.len(),
            out@ == s@.subrange(0, j as int),
        decreases base_len - j,
    {
        out.push(s[j]);
        j = j + 1;
        assert(out@ =~= s@.subrange(0, j as int));
    }
    crate::text::push_chars(&mut out, deinflection);
    let last = chars_of(text.last_inflection.as_str());
    let test_size = utf8_size_of(test);
    let last_size = utf8_size_of(&last);
    let cut_bytes = if test_size >= last_size { test_size - last_size } else { 0 };
    let cut = match byte_prefix_exec(test, cut_bytes) {
        Some(k) => k,
        None => {
            assert(false);
            0
        },
    };
    proof {
        lemma_byte_prefix_bound(test@, cut_bytes as nat);
    }
    let mut infl: Vec<char> = Vec::new();
    let mut j: usize = 0;
    while j < cut
        invariant
            j <= cut <= test.len(),
            infl@ == test@.subrange(0, j as int),
        decreases test.len() - j,
    {
        infl.push(test[j]);
        j = j + 1;
        assert(infl@ =~= test@.subrange(0, j as int));
    }
    Some(
        InflectionResult {
            text: string_of(&out),
            replacement,
            inflection: string_of(&infl),
            deinflection: rule.deinflection.to_owned(),
            conditions: rule.conditions_out,
        },
    )
}

/// A named set of conditions.
pub struct Condition {
    pub name: &'static str,
    pub short: &'static str,
    pub description: &'static str,
    pub is_dictionary_form: bool,
    pub subconditions: u32,
}

/// A named group of inflection rules.
pub struct Transform {
    pub name: &'static str,
    pub description: &'static str,
    pub rules: Vec<Inflection>,
}

} // verus!
