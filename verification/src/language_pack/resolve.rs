//! Resolving a text into a dictionary word and the inflections that lead
//! to it, by undoing suffix inflections against two dictionaries.
use vstd::prelude::*;
use super::lexicon::{exact_match, lex_get, Lexicon};
use super::processor::{byte_len, byte_length, char_width, utf8_size};
use super::transform::{
    byte_prefix, drop_end, ends_with, ends_with_chars, first_replacement, replaced_text, replacement_fails,
    utf8_size_of, Condition, Inflection, TextTransform, Transform,
};
use crate::language_pack::processor::lemma_encode_utf8_len;
use crate::text::{chars_of, string_of};
use vstd::string::StringSliceAdditionalSpecFns;

verus! {

/// The longest chain of rules that one resolution may apply.
pub const MAX_CHAIN: usize = 14;

/// A text on its way through deinflection, as plain values.
pub struct TransformView {
    pub text: Seq<char>,
    pub replacement: Option<Seq<char>>,
    pub inflection: Seq<char>,
    pub last_inflection: Seq<char>,
    pub conditions: u32,
    pub chain: Seq<(usize, usize)>,
    pub i: usize,
}

impl View for TextTransform {
    type V = TransformView;

    open spec fn view(&self) -> TransformView {
        TransformView {
            text: self.text@,
            replacement: match self.replacement {
                Some(r) => Some(r@),
                None => None,
            },
            inflection: self.inflection@,
            last_inflection: self.last_inflection@,
            conditions: self.conditions,
            chain: self.chain@,
            i: self.i,
        }
    }
}

/// Whether the ending, replacement and rewritten endings of every rule are
/// texts whose UTF-8 size fits the machine's sizes.
pub open spec fn rules_ok(ts: Seq<Transform>) -> bool {
    forall|tp: int, rp: int| 0 <= tp < ts.len() && 0 <= rp < ts[tp].rules@.len() ==> {
        let rule = #[trigger] ts[tp].rules@[rp];
        &&& utf8_size(rule.test@) <= usize::MAX
        &&& utf8_size(rule.deinflection@) <= usize::MAX
        &&& forall|k: int| 0 <= k < rule.replacements@.len() ==> utf8_size((#[trigger] rule.replacements@[k]).0@) <= usize::MAX
    }
}

/// Whether `rule` applies to `t`: the conditions match (or `t` has none)
/// and the text ends with the rule's ending.
pub open spec fn applies(rule: Inflection, t: TransformView) -> bool {
    (t.conditions == 0 || (t.conditions & rule.conditions_in) != 0) && ends_with(t.text, rule.test@)
}

/// What applying `rule` to `t` at position `p`, after the chain `seen`,
/// gives: the text with its ending undone, the replacement text, the
/// inflection so far, and the rule's conditions.
pub open spec fn applied(rule: Inflection, t: TransformView, seen: Seq<(usize, usize)>, p: (usize, usize)) -> TransformView {
    TransformView {
        text: drop_end(t.text, rule.test@.len()) + rule.deinflection@,
        replacement: match first_replacement(t.text, rule.replacements@) {
            Some((from, to)) => replaced_text(t.text, from, to, rule.test@, rule.deinflection@),
            None => None,
        },
        inflection: rule.test@.subrange(0, rule.inflection_prefix(t.last_inflection)->0 as int) + t.inflection,
        last_inflection: rule.deinflection@,
        conditions: rule.conditions_out,
        chain: seen.push(p),
        i: (t.i + 1) as usize,
    }
}

/// Both lists, joined, when both are there.
pub open spec fn join_both<T>(a: Option<Seq<T>>, b: Option<Seq<T>>) -> Option<Seq<T>> {
    match (a, b) {
        (Some(x), Some(y)) => Some(x + y),
        _ => None,
    }
}

/// Everything that the rules from position `(tp, rp)` on lead `t` to,
/// depth first; `None` where the ending of an applying rule is not on a
/// character boundary of what it measures, its replacement cuts the text
/// inside a character or past its end, or the chain would grow past its
/// limit.
pub open spec fn rules_from(ts: Seq<Transform>, t: TransformView, seen: Seq<(usize, usize)>, tp: int, rp: int) -> Option<Seq<TransformView>>
    decreases MAX_CHAIN - seen.len(), 1int, ts.len() - tp, if 0 <= tp < ts.len() { ts[tp].rules@.len() - rp } else { 0 },
{
    if tp < 0 || tp >= ts.len() || seen.len() > MAX_CHAIN {
        Some(Seq::empty())
    } else if rp < 0 || rp >= ts[tp].rules@.len() {
        rules_from(ts, t, seen, tp + 1, 0)
    } else {
        let rule = ts[tp].rules@[rp];
        let p = (tp as usize, rp as usize);
        if !applies(rule, t) {
            rules_from(ts, t, seen, tp, rp + 1)
        } else if rule.inflection_prefix(t.last_inflection) is None {
            None
        } else if replacement_fails(rule, t.text) {
            None
        } else if seen.contains(p) {
            rules_from(ts, t, seen, tp, rp + 1)
        } else if seen.len() >= MAX_CHAIN {
            None
        } else {
            join_both(resolve_tree(ts, applied(rule, t, seen, p), seen.push(p)), rules_from(ts, t, seen, tp, rp + 1))
        }
    }
}

/// Everything that `t` can be deinflected into by chains of rules that
/// extend `seen`, depth first, followed by `t` itself.
pub open spec fn resolve_tree(ts: Seq<Transform>, t: TransformView, seen: Seq<(usize, usize)>) -> Option<Seq<TransformView>>
    decreases MAX_CHAIN - seen.len(), 2int, 0int, 0int,
{
    if seen.len() > MAX_CHAIN {
        None
    } else {
        join_both(rules_from(ts, t, seen, 0, 0), Some(seq![t]))
    }
}

/// The plain values of a list of texts under deinflection.
pub open spec fn transform_views(v: Seq<TextTransform>) -> Seq<TransformView> {
    v.map_values(|t: TextTransform| t@)
}

/// A resolver of texts by the inflection rules `transforms`, against the
/// dictionaries of words and of readings.
pub struct LanguageTransformer<'a> {
    pub transforms: &'a Vec<Transform>,
    pub conditions: &'a Vec<(u32, Condition)>,
    pub dictionary: &'a Lexicon,
    pub dictionary_readings: &'a Lexicon,
}

fn checked_size(v: &Vec<char>) -> (r: Option<usize>)
    ensures
        r matches Some(n) ==> n == utf8_size(v@),
        r is None ==> utf8_size(v@) > usize::MAX,
{
    let mut total: usize = 0;
    let mut i: usize = 0;
    proof {
        assert(v@.subrange(0, 0) =~= Seq::<char>::empty());
    }
    while i < v.len()
        invariant
            i <= v.len(),
            total == utf8_size(v@.subrange(0, i as int)),
        decreases v.len() - i,
    {
        proof {
            crate::language_pack::processor::lemma_utf8_size_prefix(v@, i as int);
        }
        let w = char_width(v[i]);
        if total > usize::MAX - w {
            proof {
                crate::language_pack::processor::lemma_utf8_size_prefix_le(v@, i + 1);
            }
            return None;
        }
        total = total + w;
        i = i + 1;
    }
    proof {
        assert(v@.subrange(0, i as int) =~= v@);
    }
    Some(total)
}

fn rule_ok(rule: &Inflection) -> (r: bool)
    ensures
        r == ({
                &&& utf8_size(rule.test@) <= usize::MAX
            &&& utf8_size(rule.deinflection@) <= usize::MAX
            &&& forall|k: int| 0 <= k < rule.replacements@.len() ==> utf8_size((#[trigger] rule.replacements@[k]).0@) <= usize::MAX
        }),
{
    let test = chars_of(rule.test);
    let deinflection = chars_of(rule.deinflection);
    if checked_size(&test).is_none() || checked_size(&deinflection).is_none() {
        return false;
    }
    let mut k: usize = 0;
    while k < rule.replacements.len()
        invariant
            k <= rule.replacements@.len(),
            forall|j: int| 0 <= j < k ==> utf8_size((#[trigger] rule.replacements@[j]).0@) <= usize::MAX,
        decreases rule.replacements.len() - k,
    {
        let (from, _to) = rule.replacements[k];
        let from_chars = chars_of(from);
        if checked_size(&from_chars).is_none() {
            return false;
        }
        k = k + 1;
    }
    true
}

fn rules_valid(ts: &Vec<Transform>) -> (r: bool)
    ensures
        r == rules_ok(ts@),
{
    let mut tp: usize = 0;
    while tp < ts.len()
        invariant
            tp <= ts@.len(),
            forall|a: int, b: int| 0 <= a < tp && 0 <= b < ts@[a].rules@.len() ==> {
                let rule = #[trigger] ts@[a].rules@[b];
                        &&& utf8_size(rule.test@) <= usize::MAX
                &&& utf8_size(rule.deinflection@) <= usize::MAX
                &&& forall|k: int| 0 <= k < rule.replacements@.len() ==> utf8_size((#[trigger] rule.replacements@[k]).0@) <= usize::MAX
            },
        decreases ts.len() - tp,
    {
        let mut rp: usize = 0;
        while rp < ts[tp].rules.len()
            invariant
                tp < ts@.len(),
                rp <= ts@[tp as int].rules@.len(),
                forall|a: int, b: int| 0 <= a < tp && 0 <= b < ts@[a].rules@.len() ==> {
                    let rule = #[trigger] ts@[a].rules@[b];
                                &&& utf8_size(rule.test@) <= usize::MAX
                    &&& utf8_size(rule.deinflection@) <= usize::MAX
                    &&& forall|k: int| 0 <= k < rule.replacements@.len() ==> utf8_size((#[trigger] rule.replacements@[k]).0@) <= usize::MAX
                },
                forall|b: int| 0 <= b < rp ==> {
                    let rule = #[trigger] ts@[tp as int].rules@[b];
                                &&& utf8_size(rule.test@) <= usize::MAX
                    &&& utf8_size(rule.deinflection@) <= usize::MAX
                    &&& forall|k: int| 0 <= k < rule.replacements@.len() ==> utf8_size((#[trigger] rule.replacements@[k]).0@) <= usize::MAX
                },
            decreases ts@[tp as int].rules@.len() - rp,
        {
            if !rule_ok(&ts[tp].rules[rp]) {
                return false;
            }
            rp = rp + 1;
        }
        tp = tp + 1;
    }
    true
}

fn seen_contains(seen: &Vec<(usize, usize)>, p: (usize, usize)) -> (r: bool)
    ensures
        r == seen@.contains(p),
{
    let mut i: usize = 0;
    while i < seen.len()
        invariant
            i <= seen@.len(),
            forall|j: int| 0 <= j < i ==> seen@[j] != p,
        decreases seen.len() - i,
    {
        if seen[i].0 == p.0 && seen[i].1 == p.1 {
            proof {
                assert(seen@[i as int] == p);
            }
            return true;
        }
        i = i + 1;
    }
    false
}

fn copy_chain(seen: &Vec<(usize, usize)>) -> (r: Vec<(usize, usize)>)
    ensures
        r@ == seen@,
{
    let mut out: Vec<(usize, usize)> = Vec::new();
    let mut i: usize = 0;
    while i < seen.len()
        invariant
            i <= seen@.len(),
            out@ == seen@.take(i as int),
        decreases seen.len() - i,
    {
        out.push(seen[i]);
        i = i + 1;
        proof {
            assert(out@ =~= seen@.take(i as int));
        }
    }
    proof {
        assert(seen@.take(i as int) =~= seen@);
    }
    out
}

impl<'a> LanguageTransformer<'a> {
    /// A resolver by `transforms` against the two dictionaries; `None` when
    /// a rule's texts do not fit the machine's sizes (see `rules_ok`).
    pub fn new(
        transforms: &'a Vec<Transform>,
        conditions: &'a Vec<(u32, Condition)>,
        dictionary: &'a Lexicon,
        dictionary_readings: &'a Lexicon,
    ) -> (r: Option<Self>)
        ensures
            r is Some <==> rules_ok(transforms@),
            r matches Some(t) ==> t.transforms == transforms && t.dictionary == dictionary
                && t.dictionary_readings == dictionary_readings && t.conditions == conditions,
    {
        if rules_valid(transforms) {
            Some(LanguageTransformer { transforms, conditions, dictionary, dictionary_readings })
        } else {
            None
        }
    }

    /// Everything that `resolve` can be deinflected into by chains of rules
    /// that extend `seen`; see `resolve_tree`.
    pub fn resolve_from(&self, resolve: TextTransform, seen: Vec<(usize, usize)>) -> (r: Option<Vec<TextTransform>>)
        requires
            rules_ok(self.transforms@),
            seen@.len() <= MAX_CHAIN,
            utf8_size(resolve.last_inflection@) <= usize::MAX,
            resolve.i <= seen@.len(),
        ensures
            r matches Some(v) ==> resolve_tree(self.transforms@, resolve@, seen@) == Some(transform_views(v@)),
            r is None ==> resolve_tree(self.transforms@, resolve@, seen@) is None,
        decreases MAX_CHAIN - seen@.len(), 2int, 0int, 0int,
    {
        let ghost ts = self.transforms@;
        let ghost t = resolve@;
        let mut result: Vec<TextTransform> = Vec::new();
        let mut tp: usize = 0;
        proof {
            assert(transform_views(result@) =~= Seq::<TransformView>::empty());
            assert(rules_from(ts, t, seen@, 0, 0) == join_both(Some(transform_views(result@)), rules_from(ts, t, seen@, 0, 0)));
        }
        while tp < self.transforms.len()
            invariant
                ts == self.transforms@,
                t == resolve@,
                rules_ok(ts),
                seen@.len() <= MAX_CHAIN,
                utf8_size(resolve.last_inflection@) <= usize::MAX,
                resolve.i <= seen@.len(),
                tp <= ts.len(),
                rules_from(ts, t, seen@, 0, 0) == join_both(Some(transform_views(result@)), rules_from(ts, t, seen@, tp as int, 0)),
            decreases ts.len() - tp,
        {
            let rules = &self.transforms[tp].rules;
            let mut rp: usize = 0;
            while rp < rules.len()
                invariant
                    ts == self.transforms@,
                    t == resolve@,
                    rules_ok(ts),
                    seen@.len() <= MAX_CHAIN,
                    utf8_size(resolve.last_inflection@) <= usize::MAX,
                    resolve.i <= seen@.len(),
                    tp < ts.len(),
                    rules@ == ts[tp as int].rules@,
                    rp <= rules@.len(),
                    rules_from(ts, t, seen@, 0, 0) == join_both(Some(transform_views(result@)), rules_from(ts, t, seen@, tp as int, rp as int)),
                decreases rules.len() - rp,
            {
                let rule = &rules[rp];
                let ghost p = (tp, rp);
                let cond_ok = resolve.conditions == 0 || (resolve.conditions & rule.conditions_in) != 0;
                let text = chars_of(resolve.text.as_str());
                let test = chars_of(rule.test);
                if cond_ok && ends_with_chars(&text, &test) {
                    proof {
                        assert(rule == ts[tp as int].rules@[rp as int]);
                    }
                    // The rule's ending must be measured on a character boundary.
                    let last = chars_of(resolve.last_inflection.as_str());
                    let test_size = utf8_size_of(&test);
                    let last_size = utf8_size_of(&last);
                    let cut = if test_size >= last_size { test_size - last_size } else { 0 };
                    let boundary = super::transform::byte_prefix_exec(&test, cut);
                    if boundary.is_none() {
                        proof {
                            assert(rules_from(ts, t, seen@, tp as int, rp as int) is None);
                        }
                        return None;
                    }
                    // The replacement must cut its text on a character boundary.
                    let res = match rule.deinflect(&resolve) {
                        Some(res) => res,
                        None => {
                            proof {
                                assert(rules_from(ts, t, seen@, tp as int, rp as int) is None);
                            }
                            return None;
                        },
                    };
                    if seen_contains(&seen, (tp, rp)) {
                        rp = rp + 1;
                        continue;
                    }
                    if seen.len() >= MAX_CHAIN {
                        proof {
                            assert(rules_from(ts, t, seen@, tp as int, rp as int) is None);
                        }
                        return None;
                    }
                    let mut child_seen = copy_chain(&seen);
                    child_seen.push((tp, rp));
                    let chain = copy_chain(&child_seen);
                    let mut inflection = res.inflection;
                    inflection.append(resolve.inflection.as_str());
                    let child = TextTransform {
                        text: res.text,
                        replacement: res.replacement,
                        inflection,
                        last_inflection: res.deinflection,
                        conditions: res.conditions,
                        chain,
                        i: resolve.i + 1,
                    };
                    proof {
                        assert(child@ == applied(*rule, t, seen@, (tp, rp)));
                        assert(decreases_to!(MAX_CHAIN - seen@.len() => MAX_CHAIN - child_seen@.len()));
                    }
                    let data = self.resolve_from(child, child_seen);
                    match data {
                        None => {
                            proof {
                                assert(rules_from(ts, t, seen@, tp as int, rp as int) is None);
                            }
                            return None;
                        },
                        Some(mut data) => {
                            let ghost before = transform_views(result@);
                            let ghost added = transform_views(data@);
                            result.append(&mut data);
                            proof {
                                assert(transform_views(result@) =~= before + added);
                                let rest = rules_from(ts, t, seen@, tp as int, rp + 1);
                                match rest {
                                    Some(x) => {
                                        assert(before + (added + x) =~= (before + added) + x);
                                    },
                                    None => {},
                                }
                            }
                        },
                    }
                }
                rp = rp + 1;
            }
            proof {
                assert(rules_from(ts, t, seen@, tp as int, rp as int) == rules_from(ts, t, seen@, tp + 1, 0));
            }
            tp = tp + 1;
        }
        proof {
            assert(rules_from(ts, t, seen@, tp as int, 0) == Some(Seq::<TransformView>::empty()));
            assert(transform_views(result@) + Seq::<TransformView>::empty() =~= transform_views(result@));
        }
        let ghost before = transform_views(result@);
        result.push(resolve);
        proof {
            assert(transform_views(result@) =~= before + seq![t]);
        }
        Some(result)
    }
}

// ---- resolving a text ----

/// A text before any rule was applied.
pub open spec fn initial_view(s: Seq<char>) -> TransformView {
    TransformView {
        text: s,
        replacement: None,
        inflection: Seq::empty(),
        last_inflection: Seq::empty(),
        conditions: 0,
        chain: Seq::empty(),
        i: 0,
    }
}

/// Whether a candidate of the text `work` stands: it applied at least one
/// rule, its inflected form is no longer than `work` (in bytes), and its
/// replacement text (or else its text) is in a dictionary, whose rank it
/// takes (the word dictionary first). The outer `None` is where the length
/// of its text without its last inflection does not end on a character.
pub open spec fn accept(c: TransformView, work: Seq<char>, a: Lexicon, r: Lexicon) -> Option<Option<(TransformView, Option<usize>)>> {
    if c.i == 0 {
        Some(None)
    } else {
        let n = if byte_length(c.text) >= byte_length(c.last_inflection) { byte_length(c.text) - byte_length(c.last_inflection) } else { 0 };
        match byte_prefix(c.text, n as nat) {
            None => None,
            Some(_) => if n + byte_length(c.inflection) > byte_length(work) {
                Some(None)
            } else {
                let key = match c.replacement {
                    Some(x) => x,
                    None => c.text,
                };
                match lex_get(a, key) {
                    Some(f) => Some(Some((c, f))),
                    None => match lex_get(r, key) {
                        Some(f) => Some(Some((c, f))),
                        None => Some(None),
                    },
                }
            },
        }
    }
}

/// The candidates that stand, in order, with their ranks.
pub open spec fn accepted(cs: Seq<TransformView>, work: Seq<char>, a: Lexicon, r: Lexicon) -> Option<Seq<(TransformView, Option<usize>)>>
    decreases cs.len(),
{
    if cs.len() == 0 {
        Some(Seq::empty())
    } else {
        match (accepted(cs.drop_last(), work, a, r), accept(cs.last(), work, a, r)) {
            (Some(v), Some(Some(x))) => Some(v.push(x)),
            (Some(v), Some(None)) => Some(v),
            _ => None,
        }
    }
}

/// Whether rank `x` is above rank `y` (any rank is above none).
pub open spec fn rank_above(x: Option<usize>, y: Option<usize>) -> bool {
    match (x, y) {
        (Some(p), Some(q)) => p > q,
        (Some(_), None) => true,
        _ => false,
    }
}

/// Whether candidate `x` is better than `y`: more rules applied, then a
/// higher rank, then a longer text.
pub open spec fn better(x: (TransformView, Option<usize>), y: (TransformView, Option<usize>)) -> bool {
    x.0.i > y.0.i || (x.0.i == y.0.i && (rank_above(x.1, y.1) || (x.1 == y.1 && byte_length(x.0.text) > byte_length(y.0.text))))
}

/// The first best of the first `k` candidates.
pub open spec fn best_index(acc: Seq<(TransformView, Option<usize>)>, k: int) -> int
    decreases k,
{
    if k <= 1 {
        0
    } else {
        let b = best_index(acc, k - 1);
        if better(acc[k - 1], acc[b]) { k - 1 } else { b }
    }
}

/// A resolution part as plain values.
pub type Part = (Option<TransformView>, Seq<char>);

/// The resolution of the first `w` characters of `text`: the best standing
/// candidate of the longest prefix that has one, followed by each character
/// after that prefix on its own.
pub open spec fn resolution(ts: Seq<Transform>, a: Lexicon, r: Lexicon, text: Seq<char>, w: nat) -> Option<Seq<Part>>
    decreases w,
{
    if w == 0 || w > text.len() {
        Some(Seq::empty())
    } else {
        let work = text.take(w as int);
        match resolve_tree(ts, initial_view(work), Seq::empty()) {
            None => None,
            Some(cands) => match accepted(cands, work, a, r) {
                None => None,
                Some(acc) => if acc.len() == 0 {
                    match resolution(ts, a, r, text, (w - 1) as nat) {
                        Some(rest) => Some(rest.push((None, seq![text[w - 1]]))),
                        None => None,
                    }
                } else {
                    let b = acc[best_index(acc, acc.len() as int)];
                    Some(seq![(Some(b.0), b.0.text)])
                },
            },
        }
    }
}

/// Resolution parts as plain values.
pub open spec fn part_views(v: Seq<(Option<TextTransform>, String)>) -> Seq<Part> {
    v.map_values(|p: (Option<TextTransform>, String)| (match p.0 {
        Some(t) => Some(t@),
        None => None,
    }, p.1@))
}

/// The plain values of accepted candidates.
pub open spec fn accepted_views(v: Seq<(TextTransform, Option<usize>)>) -> Seq<(TransformView, Option<usize>)> {
    v.map_values(|c: (TextTransform, Option<usize>)| (c.0@, c.1))
}

impl<'a> LanguageTransformer<'a> {
    fn accept_all(&self, cands: Vec<TextTransform>, work: &String) -> (r: Option<Vec<(TextTransform, Option<usize>)>>)
        ensures
            r matches Some(v) ==> accepted(transform_views(cands@), work@, *self.dictionary, *self.dictionary_readings) == Some(accepted_views(v@)),
            r is None ==> accepted(transform_views(cands@), work@, *self.dictionary, *self.dictionary_readings) is None,
    {
        let ghost all = cands@;
        let ghost cv = transform_views(all);
        let mut rest = cands;
        let mut rev: Vec<TextTransform> = Vec::new();
        while rest.len() > 0
            invariant
                rest@ + rev@.reverse() == all,
            decreases rest.len(),
        {
            let x = rest.pop().unwrap();
            proof {
                assert(rest@.push(x) + rev@.reverse() =~= rest@ + rev@.push(x).reverse());
            }
            rev.push(x);
        }
        proof {
            assert(rev@.reverse() =~= all);
            assert(cv.take(0) =~= Seq::<TransformView>::empty());
        }
        let work_len = byte_len(work);
        let n = rev.len();
        let mut out: Vec<(TextTransform, Option<usize>)> = Vec::new();
        proof {
            assert(accepted_views(out@) =~= Seq::<(TransformView, Option<usize>)>::empty());
        }
        while rev.len() > 0
            invariant
                n == all.len(),
                all == cands@,
                cv == transform_views(all),
                work_len == byte_length(work@),
                rev@.len() <= n,
                all == all.take(n - rev@.len()) + rev@.reverse(),
                accepted(cv.take(n - rev@.len()), work@, *self.dictionary, *self.dictionary_readings) == Some(accepted_views(out@)),
            decreases rev.len(),
        {
            let ghost k = n - rev@.len();
            let c = rev.pop().unwrap();
            proof {
                assert(all.take(k) + seq![c] + rev@.reverse() =~= all.take(k) + rev@.push(c).reverse());
                assert(all[k] == c);
                assert(all == all.take(k + 1) + rev@.reverse());
                assert(cv.take(k + 1).drop_last() =~= cv.take(k));
                assert(cv.take(k + 1).last() == c@);
            }
            let ghost before = accepted_views(out@);
            if c.i == 0 {
                // Not deinflected at all.
            } else {
                let text_len = byte_len(&c.text);
                let last_len = byte_len(&c.last_inflection);
                let cut = if text_len >= last_len { text_len - last_len } else { 0 };
                let text_chars = chars_of(c.text.as_str());
                if super::transform::byte_prefix_exec(&text_chars, cut).is_none() {
                    proof {
                        assert(accepted(cv.take(k + 1), work@, *self.dictionary, *self.dictionary_readings) is None);
                        lemma_accepted_none(cv, work@, *self.dictionary, *self.dictionary_readings, k + 1);
                    }
                    return None;
                }
                let infl_len = byte_len(&c.inflection);
                let too_long = match cut.checked_add(infl_len) {
                    Some(total) => total > work_len,
                    None => true,
                };
                if !too_long {
                    let found: Option<Option<usize>> = {
                        let key: &str = match &c.replacement {
                            Some(x) => x.as_str(),
                            None => c.text.as_str(),
                        };
                        match exact_match(self.dictionary, key) {
                            Some(f) => Some(*f),
                            None => match exact_match(self.dictionary_readings, key) {
                                Some(f) => Some(*f),
                                None => None,
                            },
                        }
                    };
                    match found {
                        Some(f) => {
                            out.push((c, f));
                            proof {
                                assert(accepted_views(out@) =~= before.push((c@, f)));
                            }
                        },
                        None => {},
                    }
                }
            }
        }
        proof {
            assert(cv.take(n as int) =~= cv);
        }
        Some(out)
    }

    /// Resolves `text` into a dictionary word: of the longest prefix that
    /// can be deinflected into a word of either dictionary, the best such
    /// deinflection (see `better`), followed by each character after that
    /// prefix on its own; see `resolution`. `None` where a rule's ending is
    /// not measured on a character boundary, or a chain grows past its limit.
    pub fn resolve(&self, text: &str) -> (r: Option<Vec<(Option<TextTransform>, String)>>)
        requires
            rules_ok(self.transforms@),
        ensures
            r matches Some(v) ==> resolution(self.transforms@, *self.dictionary, *self.dictionary_readings, text@, text@.len()) == Some(part_views(v@)),
            r is None ==> resolution(self.transforms@, *self.dictionary, *self.dictionary_readings, text@, text@.len()) is None,
    {
        let ghost ts = self.transforms@;
        let ghost a = *self.dictionary;
        let ghost rd = *self.dictionary_readings;
        let chars = chars_of(text);
        let mut w = chars.len();
        let mut tail: Vec<(Option<TextTransform>, String)> = Vec::new();
        proof {
            assert(part_views(tail@).reverse() =~= Seq::<Part>::empty());
            match resolution(ts, a, rd, text@, w as nat) {
                Some(x) => {
                    assert(x + Seq::<Part>::empty() =~= x);
                },
                None => {},
            }
        }
        while w > 0
            invariant
                ts == self.transforms@,
                a == *self.dictionary,
                rd == *self.dictionary_readings,
                rules_ok(ts),
                chars@ == text@,
                w <= chars@.len(),
                resolution(ts, a, rd, text@, text@.len()) == join_both(resolution(ts, a, rd, text@, w as nat), Some(part_views(tail@).reverse())),
            decreases w,
        {
            let mut prefix: Vec<char> = Vec::new();
            let mut j: usize = 0;
            while j < w
                invariant
                    w <= chars@.len(),
                    j <= w,
                    prefix@ == chars@.take(j as int),
                decreases w - j,
            {
                prefix.push(chars[j]);
                j = j + 1;
                proof {
                    assert(prefix@ =~= chars@.take(j as int));
                }
            }
            let work = string_of(&prefix);
            let start = TextTransform::new(work.clone());
            proof {
                assert(work@ =~= text@.take(w as int));
                assert(start.chain@ =~= Seq::<(usize, usize)>::empty());
                assert(start.inflection@ =~= Seq::<char>::empty());
                assert(start.last_inflection@ =~= Seq::<char>::empty());
                assert(start@ == initial_view(text@.take(w as int)));
            }
            let cands = match self.resolve_from(start, Vec::new()) {
                None => {
                    proof {
                        assert(resolution(ts, a, rd, text@, w as nat) is None);
                    }
                    return None;
                },
                Some(c) => c,
            };
            let acc = match self.accept_all(cands, &work) {
                None => {
                    proof {
                        assert(resolution(ts, a, rd, text@, w as nat) is None);
                    }
                    return None;
                },
                Some(acc) => acc,
            };
            if acc.len() == 0 {
                let last = chars[w - 1];
                let mut one: Vec<char> = Vec::new();
                one.push(last);
                let piece = string_of(&one);
                let ghost before = part_views(tail@);
                tail.push((None, piece));
                proof {
                    assert(part_views(tail@) =~= before.push((None, seq![text@[w - 1]])));
                    assert(part_views(tail@).reverse() =~= seq![(None::<TransformView>, seq![text@[w - 1]])] + before.reverse());
                    match resolution(ts, a, rd, text@, (w - 1) as nat) {
                        Some(x) => {
                            assert(x.push((None, seq![text@[w - 1]])) + before.reverse() =~= x + part_views(tail@).reverse());
                        },
                        None => {},
                    }
                }
                w = w - 1;
            } else {
                let ghost av = accepted_views(acc@);
                let mut b: usize = 0;
                let mut k: usize = 1;
                while k < acc.len()
                    invariant
                        av == accepted_views(acc@),
                        1 <= k <= acc@.len(),
                        b == best_index(av, k as int),
                        b < k,
                    decreases acc.len() - k,
                {
                    let x = &acc[k];
                    let y = &acc[b];
                    let xl = byte_len(&x.0.text);
                    let yl = byte_len(&y.0.text);
                    let above = match (x.1, y.1) {
                        (Some(p), Some(q)) => p > q,
                        (Some(_), None) => true,
                        _ => false,
                    };
                    let better_x = x.0.i > y.0.i || (x.0.i == y.0.i && (above || (x.1 == y.1 && xl > yl)));
                    proof {
                        assert(av[k as int] == (x.0@, x.1));
                        assert(av[b as int] == (y.0@, y.1));
                        assert(better_x == better(av[k as int], av[b as int]));
                    }
                    if better_x {
                        b = k;
                    }
                    k = k + 1;
                }
                let mut acc = acc;
                let best = acc.remove(b);
                let text_copy = best.0.text.clone();
                let mut out: Vec<(Option<TextTransform>, String)> = Vec::new();
                let ghost bv = best.0@;
                out.push((Some(best.0), text_copy));
                proof {
                    assert(part_views(out@) =~= seq![(Some(bv), bv.text)]);
                }
                append_reversed(&mut out, tail);
                proof {
                    assert(resolution(ts, a, rd, text@, w as nat) == Some(seq![(Some(bv), bv.text)]));
                }
                return Some(out);
            }
        }
        proof {
            assert(resolution(ts, a, rd, text@, 0) == Some(Seq::<Part>::empty()));
            assert(Seq::<Part>::empty() + part_views(tail@).reverse() =~= part_views(tail@).reverse());
        }
        let mut out: Vec<(Option<TextTransform>, String)> = Vec::new();
        append_reversed(&mut out, tail);
        proof {
            assert(part_views(out@) =~= part_views(tail@).reverse());
        }
        Some(out)
    }
}

fn append_reversed(out: &mut Vec<(Option<TextTransform>, String)>, tail: Vec<(Option<TextTransform>, String)>)
    ensures
        part_views(final(out)@) == part_views(old(out)@) + part_views(tail@).reverse(),
{
    let ghost orig = tail@;
    let ghost rv = part_views(orig).reverse();
    let mut tail = tail;
    proof {
        assert(part_views(out@) + rv.take(0) =~= part_views(out@));
    }
    while tail.len() > 0
        invariant
            tail@ == orig.take(tail@.len() as int),
            tail@.len() <= orig.len(),
            rv == part_views(orig).reverse(),
            part_views(out@) == part_views(old(out)@) + rv.take(orig.len() - tail@.len()),
        decreases tail.len(),
    {
        let ghost m = tail@.len();
        let ghost before = part_views(out@);
        let entry = tail.pop().unwrap();
        proof {
            assert(entry == orig[m - 1]);
            assert(tail@ =~= orig.take(m - 1));
            assert(rv[orig.len() - m] == part_views(orig)[m - 1]);
        }
        out.push(entry);
        proof {
            assert(rv.take(orig.len() - m + 1) =~= rv.take(orig.len() - m).push(rv[orig.len() - m]));
            assert(part_views(out@) =~= before.push(part_views(orig)[m - 1]));
        }
    }
    proof {
        assert(rv.take(orig.len() as int) =~= rv);
    }
}

/// Once a prefix of the candidates has an unmeasurable one, none stand.
pub proof fn lemma_accepted_none(cs: Seq<TransformView>, work: Seq<char>, a: Lexicon, r: Lexicon, k: int)
    requires
        0 <= k <= cs.len(),
        accepted(cs.take(k), work, a, r) is None,
    ensures
        accepted(cs, work, a, r) is None,
    decreases cs.len() - k,
{
    if k < cs.len() {
        assert(cs.take(k + 1).drop_last() =~= cs.take(k));
        lemma_accepted_none(cs, work, a, r, k + 1);
    } else {
        assert(cs.take(k) =~= cs);
    }
}

} // verus!
