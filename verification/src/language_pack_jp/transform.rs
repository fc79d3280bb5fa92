//! Grouping morphemes into inflected words, and the condition flags of the
//! Japanese inflection rules.
use vstd::prelude::*;
use crate::language_pack::lexicon::{exact_match, is_prefix, lex_get, lex_is_prefix, Lexicon};
use crate::language_pack::processor::{byte_len, byte_length, utf8_size};
use crate::language_pack::transform::{byte_prefix, ends_with, Condition, TextTransform};
use crate::language_pack::resolve::{part_views, resolution, rules_ok, LanguageTransformer, Part, TransformView};
use crate::language_pack_jp::transforms::{japanese_rules, lemma_japanese_rules_ok, JAPANESE_TRANSFORMS};
use crate::language_pack::transform::{rule_view, rule_view_ok, rules_view, Transform};
use crate::language_pack_jp::segment::{field_or_unk, unk_text, Morpheme};
use crate::text::{chars_of, str_eq, string_of};

verus! {

/// Whether a morpheme with parts of speech `pos` and `pos2` attaches to the
/// word before it: a particle or auxiliary verb that is not a binding, case
/// or nominalising particle.
pub open spec fn attaches_pos(pos: Seq<char>, pos2: Seq<char>) -> bool {
    (pos == "助詞"@ || pos == "助動詞"@) && !(pos2 == "係助詞"@ || pos2 == "格助詞"@ || pos2 == "準体助詞"@)
}

/// Whether a morpheme with part of speech `pos` inflects: it is none of
/// noun, pronoun, particle, adverb, adnominal, conjunction, interjection.
pub open spec fn inflecting_pos(pos: Seq<char>) -> bool {
    !(pos == "名詞"@ || pos == "代名詞"@ || pos == "助詞"@ || pos == "副詞"@ || pos == "連体詞"@
        || pos == "接続詞"@ || pos == "感動詞"@)
}

/// Whether a morpheme with part of speech `pos` starts a new word: an
/// adjectival noun or a verb.
pub open spec fn root_pos(pos: Seq<char>) -> bool {
    pos == "形状詞"@ || pos == "動詞"@
}

/// Whether `s` ends in a small tsu, so that the next morpheme continues it.
pub open spec fn conjugating_text(s: Seq<char>) -> bool {
    ends_with(s, seq!['っ'])
}

fn attaches(pos: &str, pos2: &str) -> (r: bool)
    ensures
        r == attaches_pos(pos@, pos2@),
{
    (str_eq(pos, "助詞") || str_eq(pos, "助動詞")) && !(str_eq(pos2, "係助詞") || str_eq(pos2, "格助詞")
        || str_eq(pos2, "準体助詞"))
}

fn inflects(pos: &str) -> (r: bool)
    ensures
        r == inflecting_pos(pos@),
{
    !(str_eq(pos, "名詞") || str_eq(pos, "代名詞") || str_eq(pos, "助詞") || str_eq(pos, "副詞")
        || str_eq(pos, "連体詞") || str_eq(pos, "接続詞") || str_eq(pos, "感動詞"))
}

fn is_new_root(pos: &str) -> (r: bool)
    ensures
        r == root_pos(pos@),
{
    str_eq(pos, "形状詞") || str_eq(pos, "動詞")
}

fn is_conjugating(s: &str) -> (r: bool)
    ensures
        r == conjugating_text(s@),
{
    let c = chars_of(s);
    if c.len() == 0 {
        proof {
            assert(!ends_with(s@, seq!['っ']));
        }
        return false;
    }
    let last = c[c.len() - 1];
    proof {
        assert(c@.subrange(c@.len() - 1, c@.len() as int) =~= seq![last]);
        if last != 'っ' {
            assert(seq![last][0] != seq!['っ'][0]);
        }
    }
    last == 'っ'
}

/// A group of morphemes: its text and whether it may be inflected.
pub type Group = (Seq<char>, bool);

/// The morpheme after the one at `i`; an unknown morpheme past the end.
pub open spec fn next_morpheme(ms: Seq<Option<Seq<Seq<char>>>>, i: int) -> Option<Seq<Seq<char>>> {
    if i + 1 < ms.len() {
        ms[i + 1]
    } else {
        None
    }
}

/// One step of the grouping: the morpheme `curr`, followed by `next`, joins
/// the groups `acc`. An inflecting or attaching morpheme, or any morpheme
/// after a small tsu, extends the last group, unless it starts a new root
/// (then it opens a group of its own). Any other morpheme is a group of its
/// own, which stays open for the next one only when that one attaches.
pub open spec fn group_step(acc: Seq<Group>, curr: Option<Seq<Seq<char>>>, next: Option<Seq<Seq<char>>>) -> Seq<Group> {
    let conjugating = acc.len() > 0 && conjugating_text(acc.last().0);
    let pos = field_or_unk(curr, 1);
    let text = field_or_unk(curr, 0);
    if inflecting_pos(pos) || conjugating || attaches_pos(pos, field_or_unk(curr, 2)) {
        if !root_pos(pos) || conjugating {
            acc.update(acc.len() - 1, (acc.last().0 + text, true))
        } else {
            acc.push((text, true))
        }
    } else if attaches_pos(field_or_unk(next, 1), field_or_unk(next, 2)) {
        acc.push((text, true))
    } else {
        acc.push((text, false)).push((Seq::empty(), true))
    }
}

/// The groups after the first `n` morphemes of `ms`, starting from one empty
/// open group.
pub open spec fn group_prefix(ms: Seq<Option<Seq<Seq<char>>>>, n: nat) -> Seq<Group>
    decreases n,
{
    if n == 0 {
        seq![(Seq::<char>::empty(), true)]
    } else {
        let k = (n - 1) as nat;
        group_step(group_prefix(ms, k), ms[k as int], next_morpheme(ms, k as int))
    }
}

/// Whether a group holds any text.
pub open spec fn non_empty_group(g: Group) -> bool {
    g.0.len() > 0
}

/// The non-empty groups of `ms`, in order.
pub open spec fn grouped(ms: Seq<Option<Seq<Seq<char>>>>) -> Seq<Group> {
    group_prefix(ms, ms.len()).filter(|g: Group| non_empty_group(g))
}

/// The groups of morphemes are never empty lists.
pub proof fn lemma_group_prefix_nonempty(ms: Seq<Option<Seq<Seq<char>>>>, n: nat)
    ensures
        group_prefix(ms, n).len() >= 1,
    decreases n,
{
    if n > 0 {
        lemma_group_prefix_nonempty(ms, (n - 1) as nat);
    }
}

/// The texts of the morphemes `ms` (`UNK` for an unknown one), joined.
pub open spec fn morpheme_texts(ms: Seq<Option<Seq<Seq<char>>>>) -> Seq<char>
    decreases ms.len(),
{
    if ms.len() == 0 {
        Seq::empty()
    } else {
        morpheme_texts(ms.drop_last()) + field_or_unk(ms.last(), 0)
    }
}

/// The texts of the groups `gs`, joined.
pub open spec fn group_texts(gs: Seq<Group>) -> Seq<char>
    decreases gs.len(),
{
    if gs.len() == 0 {
        Seq::empty()
    } else {
        group_texts(gs.drop_last()) + gs.last().0
    }
}

proof fn lemma_group_texts_push(gs: Seq<Group>, g: Group)
    ensures
        group_texts(gs.push(g)) == group_texts(gs) + g.0,
{
    assert(gs.push(g).drop_last() =~= gs);
}

proof fn lemma_group_texts_extend_last(gs: Seq<Group>, t: Seq<char>)
    requires
        gs.len() > 0,
    ensures
        group_texts(gs.update(gs.len() - 1, (gs.last().0 + t, true))) == group_texts(gs) + t,
{
    let u = gs.update(gs.len() - 1, (gs.last().0 + t, true));
    assert(u.drop_last() =~= gs.drop_last());
    assert(group_texts(gs) + t =~= group_texts(gs.drop_last()) + (gs.last().0 + t));
}

/// The groups after `n` morphemes hold exactly the texts of those
/// morphemes, in order.
proof fn lemma_group_prefix_texts(ms: Seq<Option<Seq<Seq<char>>>>, n: nat)
    requires
        n <= ms.len(),
    ensures
        group_texts(group_prefix(ms, n)) == morpheme_texts(ms.take(n as int)),
    decreases n,
{
    if n == 0 {
        let g = seq![(Seq::<char>::empty(), true)];
        assert(g.drop_last() =~= Seq::<Group>::empty());
        assert(group_texts(Seq::<Group>::empty()) =~= Seq::<char>::empty());
        assert(g.last().0 =~= Seq::<char>::empty());
        assert(group_texts(g) =~= Seq::<char>::empty());
        assert(morpheme_texts(Seq::<Option<Seq<Seq<char>>>>::empty()) =~= Seq::<char>::empty());
        assert(ms.take(0) =~= Seq::<Option<Seq<Seq<char>>>>::empty());
    } else {
        let k = (n - 1) as nat;
        lemma_group_prefix_texts(ms, k);
        lemma_group_prefix_nonempty(ms, k);
        let acc = group_prefix(ms, k);
        let curr = ms[k as int];
        let text = field_or_unk(curr, 0);
        let conjugating = acc.len() > 0 && conjugating_text(acc.last().0);
        let pos = field_or_unk(curr, 1);
        if inflecting_pos(pos) || conjugating || attaches_pos(pos, field_or_unk(curr, 2)) {
            if !root_pos(pos) || conjugating {
                lemma_group_texts_extend_last(acc, text);
            } else {
                lemma_group_texts_push(acc, (text, true));
            }
        } else if attaches_pos(field_or_unk(next_morpheme(ms, k as int), 1), field_or_unk(next_morpheme(ms, k as int), 2)) {
            lemma_group_texts_push(acc, (text, true));
        } else {
            lemma_group_texts_push(acc, (text, false));
            lemma_group_texts_push(acc.push((text, false)), (Seq::empty(), true));
            assert(group_texts(acc) + text + Seq::<char>::empty() =~= group_texts(acc) + text);
        }
        assert(ms.take(n as int).drop_last() =~= ms.take(k as int));
        assert(ms.take(n as int).last() == curr);
    }
}

/// Leaving out the empty groups keeps the text.
proof fn lemma_group_texts_filter(gs: Seq<Group>)
    ensures
        group_texts(gs.filter(|g: Group| non_empty_group(g))) == group_texts(gs),
    decreases gs.len(),
{
    reveal(Seq::filter);
    if gs.len() > 0 {
        lemma_group_texts_filter(gs.drop_last());
        let f = gs.drop_last().filter(|g: Group| non_empty_group(g));
        if non_empty_group(gs.last()) {
            lemma_group_texts_push(f, gs.last());
        } else {
            assert(gs.last().0 =~= Seq::<char>::empty());
            assert(group_texts(gs) =~= group_texts(gs.drop_last()));
        }
    }
}

/// Grouping loses no text: the groups, joined, are the morphemes' texts,
/// joined.
pub proof fn lemma_grouping_keeps_text(ms: Seq<Option<Seq<Seq<char>>>>)
    ensures
        group_texts(grouped(ms)) == morpheme_texts(ms),
{
    lemma_group_prefix_texts(ms, ms.len());
    lemma_group_texts_filter(group_prefix(ms, ms.len()));
    assert(ms.take(ms.len() as int) =~= ms);
}

/// Binding (係助詞), case (格助詞) and nominalising (準体助詞) particles
/// never attach to the word before them. Unless that word ends in a small
/// tsu, such a particle leaves the groups before it as they are and begins
/// a group of its own; and a noun or pronoun followed by one is closed as a
/// group of its own that is not inflected.
pub proof fn lemma_detached_particles(acc: Seq<Group>, curr: Option<Seq<Seq<char>>>, next: Option<Seq<Seq<char>>>)
    ensures
        ({
            let detached = |m: Option<Seq<Seq<char>>>| m matches Some(f) && f[1] == "助詞"@
                && (f[2] == "係助詞"@ || f[2] == "格助詞"@ || f[2] == "準体助詞"@);
            let after_tsu = acc.len() > 0 && ends_with(acc.last().0, seq!['っ']);
            let r = group_step(acc, curr, next);
            &&& detached(curr) && !after_tsu ==> r.len() > acc.len() && r.take(acc.len() as int) == acc
                && r[acc.len() as int].0 == curr->0[0]
            &&& (curr matches Some(f) && (f[1] == "名詞"@ || f[1] == "代名詞"@)) && detached(next) && !after_tsu
                ==> r == acc.push((curr->0[0], false)).push((Seq::<char>::empty(), true))
        }),
{
    reveal_strlit("名詞");
    reveal_strlit("代名詞");
    reveal_strlit("助詞");
    reveal_strlit("助動詞");
    assert("名詞"@[0] != "助詞"@[0] && "名詞"@[0] != "助動詞"@[0]);
    assert("代名詞"@.len() != "助詞"@.len() && "代名詞"@[0] != "助動詞"@[0]);
    let r = group_step(acc, curr, next);
    assert(acc.push((field_or_unk(curr, 0), true)).take(acc.len() as int) =~= acc);
    assert(acc.push((field_or_unk(curr, 0), false)).push((Seq::<char>::empty(), true)).take(acc.len() as int) =~= acc);
}

/// A noun or pronoun followed by a binding, case or nominalising particle
/// gives two groups, neither of them inflected: the noun, then the
/// particle (本は gives 本 and は).
pub proof fn lemma_noun_then_particle(n: Seq<Seq<char>>, p: Seq<Seq<char>>)
    requires
        n[1] == "名詞"@ || n[1] == "代名詞"@,
        p[1] == "助詞"@,
        p[2] == "係助詞"@ || p[2] == "格助詞"@ || p[2] == "準体助詞"@,
        n[0].len() > 0,
        p[0].len() > 0,
    ensures
        grouped(seq![Some(n), Some(p)]) == seq![(n[0], false), (p[0], false)],
{
    reveal_strlit("名詞");
    reveal_strlit("代名詞");
    reveal_strlit("助詞");
    reveal_strlit("助動詞");
    reveal_strlit("係助詞");
    reveal_strlit("格助詞");
    reveal_strlit("準体助詞");
    reveal_strlit("形状詞");
    reveal_strlit("動詞");
    let ms = seq![Some(n), Some(p)];
    let e = (Seq::<char>::empty(), true);
    let g0 = group_prefix(ms, 0);
    assert(g0 == seq![e]);
    assert(!conjugating_text(Seq::<char>::empty()));
    let g1 = group_prefix(ms, 1);
    assert(next_morpheme(ms, 0) == Some(p));
    assert("名詞"@[0] != "助詞"@[0] && "名詞"@[0] != "助動詞"@[0]);
    assert("代名詞"@.len() != "助詞"@.len() && "代名詞"@[0] != "助動詞"@[0]);
    assert(!attaches_pos(n[1], n[2]));
    assert(attaches_pos(p[1], p[2]) == false);
    assert(g1 == seq![e, (n[0], false), e]);
    let g2 = group_prefix(ms, 2);
    assert(next_morpheme(ms, 1) is None);
    assert(!attaches_pos(unk_text(), unk_text())) by {
        assert(unk_text() != "助詞"@);
        assert(unk_text() != "助動詞"@);
    }
    assert(g2 == seq![e, (n[0], false), e, (p[0], false), e]);
    let f = |g: Group| non_empty_group(g);
    let s0 = Seq::<Group>::empty();
    assert(s0.filter(f) =~= s0) by {
        reveal(Seq::filter);
    }
    lemma_filter_push(s0, e, f);
    lemma_filter_push(s0.push(e), (n[0], false), f);
    lemma_filter_push(s0.push(e).push((n[0], false)), e, f);
    lemma_filter_push(s0.push(e).push((n[0], false)).push(e), (p[0], false), f);
    lemma_filter_push(s0.push(e).push((n[0], false)).push(e).push((p[0], false)), e, f);
    assert(g2 =~= s0.push(e).push((n[0], false)).push(e).push((p[0], false)).push(e));
    assert(g2.filter(f) =~= seq![(n[0], false), (p[0], false)]);
}

proof fn lemma_filter_push(s: Seq<Group>, x: Group, f: spec_fn(Group) -> bool)
    ensures
        s.push(x).filter(f) == if f(x) { s.filter(f).push(x) } else { s.filter(f) },
{
    reveal(Seq::filter);
    assert(s.push(x).drop_last() =~= s);
}

/// The text and flag of each group, as plain values.
pub open spec fn group_views(v: Seq<(String, bool)>) -> Seq<Group> {
    v.map_values(|p: (String, bool)| (p.0@, p.1))
}

/// Groups morphemes into words: each group is the text of the morphemes in
/// it, with whether the group may be inflected. Empty groups are left out.
pub fn group_inflected(list: Vec<Morpheme>) -> (r: Vec<(String, bool)>)
    ensures
        group_views(r@) == grouped(list@.map_values(|m: Morpheme| m@)),
{
    let ghost ms = list@.map_values(|m: Morpheme| m@);
    let sentinel = Morpheme::Unk;
    let mut acc: Vec<(String, bool)> = Vec::new();
    acc.push((String::new(), true));
    let n = list.len();
    let mut i: usize = 0;
    proof {
        assert(group_views(acc@) =~= group_prefix(ms, 0));
    }
    while i < n
        invariant
            n == list.len(),
            ms == list@.map_values(|m: Morpheme| m@),
            i <= n,
            group_views(acc@) == group_prefix(ms, i as nat),
            acc@.len() >= 1,
            sentinel@ is None,
        decreases n - i,
    {
        let curr = &list[i];
        let next = if i + 1 < n { &list[i + 1] } else { &sentinel };
        proof {
            assert(curr@ == ms[i as int]);
            assert(next@ == next_morpheme(ms, i as int));
        }
        let ghost before = group_views(acc@);
        let last_index = acc.len() - 1;
        let conjugating = is_conjugating(acc[last_index].0.as_str());
        let pos = curr.pos();
        if inflects(pos) || conjugating || attaches(pos, curr.pos2()) {
            if !is_new_root(pos) || conjugating {
                let (mut text, _) = acc.pop().unwrap();
                let piece = curr.to_string();
                text.append(piece.as_str());
                acc.push((text, true));
                proof {
                    assert(group_views(acc@) =~= before.update(before.len() - 1, (before.last().0 + field_or_unk(curr@, 0), true)));
                }
            } else {
                acc.push((curr.to_string(), true));
                proof {
                    assert(group_views(acc@) =~= before.push((field_or_unk(curr@, 0), true)));
                }
            }
        } else if attaches(next.pos(), next.pos2()) {
            acc.push((curr.to_string(), true));
            proof {
                assert(group_views(acc@) =~= before.push((field_or_unk(curr@, 0), true)));
            }
        } else {
            acc.push((curr.to_string(), false));
            acc.push((String::new(), true));
            proof {
                assert(group_views(acc@) =~= before.push((field_or_unk(curr@, 0), false)).push((Seq::empty(), true)));
            }
        }
        i = i + 1;
    }
    let mut result: Vec<(String, bool)> = Vec::new();
    let mut j: usize = 0;
    let ghost all = group_views(acc@);
    let ghost pred = |g: Group| non_empty_group(g);
    proof {
        assert(all.take(0) =~= Seq::<Group>::empty());
        reveal(Seq::filter);
        assert(group_views(result@) =~= all.take(0).filter(pred));
    }
    while j < acc.len()
        invariant
            all == group_views(acc@),
            j <= acc.len(),
            group_views(result@) == all.take(j as int).filter(pred),
            pred == (|g: Group| non_empty_group(g)),
        decreases acc.len() - j,
    {
        let ghost before = group_views(result@);
        proof {
            reveal(Seq::filter);
            assert(all.take(j + 1).drop_last() =~= all.take(j as int));
            assert(all.take(j + 1).last() == all[j as int]);
        }
        if !acc[j].0.as_str().is_empty() {
            let text = acc[j].0.clone();
            result.push((text, acc[j].1));
            proof {
                assert(group_views(result@) =~= before.push(all[j as int]));
            }
        } else {
            proof {
                assert(acc@[j as int].0@.len() == 0);
            }
        }
        j = j + 1;
    }
    proof {
        assert(all.take(acc.len() as int) =~= all);
    }
    result
}

/// A set of inflection conditions, one bit each.
pub struct Conditions(pub u32);

/// The condition flags.
#[allow(non_upper_case_globals)]
impl Conditions {
    pub const v: u32 = 1;
    pub const v1: u32 = 2;
    pub const v1d: u32 = 4;
    pub const v1p: u32 = 8;
    pub const v5: u32 = 16;
    pub const v5d: u32 = 32;
    pub const v5s: u32 = 64;
    pub const v5ss: u32 = 128;
    pub const v5sp: u32 = 256;
    pub const vk: u32 = 512;
    pub const vs: u32 = 1024;
    pub const vz: u32 = 2048;
    pub const adj_i: u32 = 4096;
    pub const masu: u32 = 8192;
    pub const masen: u32 = 16384;
    pub const te: u32 = 32768;
    pub const ba: u32 = 65536;
    pub const ku: u32 = 131072;
    pub const ta: u32 = 262144;
    pub const n: u32 = 524288;
    pub const nasai: u32 = 1048576;
    pub const ya: u32 = 2097152;
}

/// The flag and subconditions of each Japanese inflection condition, in
/// table order.
pub open spec fn condition_table() -> Seq<(u32, u32)> {
    seq![
        (Conditions::v, Conditions::v1 | Conditions::v5 | Conditions::vk | Conditions::vs | Conditions::vz),
        (Conditions::v1, Conditions::v1d | Conditions::v1p),
        (Conditions::v1d, 0),
        (Conditions::v1p, 0),
        (Conditions::v5, Conditions::v5d | Conditions::v5s),
        (Conditions::v5d, 0),
        (Conditions::v5s, Conditions::v5ss | Conditions::v5sp),
        (Conditions::v5ss, 0),
        (Conditions::v5sp, 0),
        (Conditions::vk, 0),
        (Conditions::vs, 0),
        (Conditions::vz, 0),
        (Conditions::adj_i, 0),
        (Conditions::masu, 0),
        (Conditions::masen, 0),
        (Conditions::te, 0),
        (Conditions::ba, 0),
        (Conditions::ku, 0),
        (Conditions::ta, 0),
        (Conditions::n, 0),
        (Conditions::nasai, 0),
        (Conditions::ya, 0)
    ]
}

/// The flag and subconditions of each entry of a condition table.
pub open spec fn condition_entries(t: Seq<(u32, Condition)>) -> Seq<(u32, u32)> {
    t.map_values(|e: (u32, Condition)| (e.0, e.1.subconditions))
}

/// The Japanese inflection conditions, each with its flag.
#[allow(non_snake_case)]
pub fn JAPANESE_CONDITIONS() -> (r: Vec<(u32, Condition)>)
    ensures
        condition_entries(r@) == condition_table(),
{
    let mut table: Vec<(u32, Condition)> = Vec::new();
    table.push((Conditions::v, Condition {
        name: "Verb",
        short: "v",
        description: "動詞",
        is_dictionary_form: false,
        subconditions: Conditions::v1 | Conditions::v5 | Conditions::vk | Conditions::vs | Conditions::vz,
    }));
    table.push((Conditions::v1, Condition {
        name: "Ichidan verb",
        short: "v1",
        description: "一段動詞",
        is_dictionary_form: true,
        subconditions: Conditions::v1d | Conditions::v1p,
    }));
    table.push((Conditions::v1d, Condition {
        name: "Ichidan verb, dictionary form",
        short: "v1d",
        description: "一段動詞、終止形",
        is_dictionary_form: false,
        subconditions: 0,
    }));
    table.push((Conditions::v1p, Condition {
        name: "Ichidan verb, progressive or perfect form",
        short: "v1p",
        description: "一段動詞、～てる・でる",
        is_dictionary_form: false,
        subconditions: 0,
    }));
    table.push((Conditions::v5, Condition {
        name: "Godan verb",
        short: "v5",
        description: "五段動詞",
        is_dictionary_form: true,
        subconditions: Conditions::v5d | Conditions::v5s,
    }));
    table.push((Conditions::v5d, Condition {
        name: "Godan verb, dictionary form",
        short: "v5d",
        description: "五段動詞、終止形",
        is_dictionary_form: false,
        subconditions: 0,
    }));
    table.push((Conditions::v5s, Condition {
        name: "Godan verb, short causative form",
        short: "v5s",
        description: "五段動詞、～す・さす",
        is_dictionary_form: false,
        subconditions: Conditions::v5ss | Conditions::v5sp,
    }));
    table.push((Conditions::v5ss, Condition {
        name: "Godan verb, short causative form having さす ending (cannot conjugate with passive form)",
        short: "v5ss",
        description: "五段動詞、～さす",
        is_dictionary_form: false,
        subconditions: 0,
    }));
    table.push((Conditions::v5sp, Condition {
        name: "Godan verb, short causative form not having さす ending (can conjugate with passive form)",
        short: "v5sp",
        description: "五段動詞、～す",
        is_dictionary_form: false,
        subconditions: 0,
    }));
    table.push((Conditions::vk, Condition {
        name: "Kuru verb",
        short: "vk",
        description: "来る動詞",
        is_dictionary_form: true,
        subconditions: 0,
    }));
    table.push((Conditions::vs, Condition {
        name: "Suru verb",
        short: "vs",
        description: "する動詞",
        is_dictionary_form: true,
        subconditions: 0,
    }));
    table.push((Conditions::vz, Condition {
        name: "Zuru verb",
        short: "vz",
        description: "ずる動詞",
        is_dictionary_form: true,
        subconditions: 0,
    }));
    table.push((Conditions::adj_i, Condition {
        name: "Adjective with i ending",
        short: "adj-i",
        description: "形容詞",
        is_dictionary_form: true,
        subconditions: 0,
    }));
    table.push((Conditions::masu, Condition {
        name: "Polite -ます ending",
        short: "-ます",
        description: "",
        is_dictionary_form: false,
        subconditions: 0,
    }));
    table.push((Conditions::masen, Condition {
        name: "Polite negative -ません ending",
        short: "-ません",
        description: "",
        is_dictionary_form: false,
        subconditions: 0,
    }));
    table.push((Conditions::te, Condition {
        name: "Intermediate -て endings for progressive or perfect tense",
        short: "-て",
        description: "",
        is_dictionary_form: false,
        subconditions: 0,
    }));
    table.push((Conditions::ba, Condition {
        name: "Intermediate -ば endings for conditional contraction",
        short: "-ば",
        description: "",
        is_dictionary_form: false,
        subconditions: 0,
    }));
    table.push((Conditions::ku, Condition {
        name: "Intermediate -く endings for adverbs",
        short: "-く",
        description: "",
        is_dictionary_form: false,
        subconditions: 0,
    }));
    table.push((Conditions::ta, Condition {
        name: "-た form ending",
        short: "-た",
        description: "",
        is_dictionary_form: false,
        subconditions: 0,
    }));
    table.push((Conditions::n, Condition {
        name: "-ん negative ending",
        short: "-ん",
        description: "",
        is_dictionary_form: false,
        subconditions: 0,
    }));
    table.push((Conditions::nasai, Condition {
        name: "Intermediate -なさい ending (polite imperative)",
        short: "-なさい",
        description: "",
        is_dictionary_form: false,
        subconditions: 0,
    }));
    table.push((Conditions::ya, Condition {
        name: "Intermediate -や ending (conditional contraction)",
        short: "-ゃ",
        description: "",
        is_dictionary_form: false,
        subconditions: 0,
    }));
    proof {
        assert(condition_entries(table@) =~= condition_table());
    }
    table
}

/// The subconditions of the first entry of `t` with flag `flag`.
pub open spec fn lookup_subconditions(t: Seq<(u32, u32)>, flag: u32) -> Option<u32>
    decreases t.len(),
{
    if t.len() == 0 {
        None
    } else if t[0].0 == flag {
        Some(t[0].1)
    } else {
        lookup_subconditions(t.skip(1), flag)
    }
}

/// `acc` with the subconditions of the condition `flag` added.
pub open spec fn add_subconditions(acc: u32, flag: u32) -> u32 {
    match lookup_subconditions(condition_table(), flag) {
        Some(sub) => acc | sub,
        None => acc,
    }
}

fn subcondition_fold(prev: u32, curr: u32) -> (r: u32)
    ensures
        r == add_subconditions(prev, curr),
{
    let table = JAPANESE_CONDITIONS();
    let ghost t = condition_table();
    let mut i: usize = 0;
    proof {
        assert(t.skip(0) =~= t);
    }
    while i < table.len()
        invariant
            condition_entries(table@) == t,
            t == condition_table(),
            i <= table.len(),
            lookup_subconditions(t, curr) == lookup_subconditions(t.skip(i as int), curr),
        decreases table.len() - i,
    {
        proof {
            assert(t.skip(i as int)[0] == t[i as int]);
            assert(t.skip(i as int).skip(1) =~= t.skip(i + 1));
        }
        if table[i].0 == curr {
            return prev | table[i].1.subconditions;
        }
        i = i + 1;
    }
    proof {
        assert(t.skip(i as int).len() == 0);
    }
    prev
}

/// Whether `fold` visits the bit `i` of `initial`: when the bit, masked
/// out of `initial`, equals `i` shifted left by itself.
pub open spec fn bit_selected(initial: u32, i: u32) -> bool {
    ((1u32 << i) & initial) == (i << i)
}

/// Of the bits that `fold` looks at, it visits the lowest one when it is
/// clear and the next one when it is set, and no other.
pub proof fn lemma_selected_bits(initial: u32, i: u32)
    requires
        i <= 21,
    ensures
        bit_selected(initial, i) <==> ((i == 0 && initial & 1 == 0) || (i == 1 && initial & 2 == 2)),
{
    assert(bit_selected(initial, i) <==> ((i == 0 && initial & 1 == 0) || (i == 1 && initial & 2 == 2))) by (bit_vector)
        requires
            i <= 21,
    ;
}

/// `c` with the subconditions added that `with_subconditions` adds.
pub open spec fn subconditions_added(c: u32) -> u32 {
    let a = if bit_selected(c, 0) { add_subconditions(c, 1) } else { c };
    if bit_selected(c, 1) { add_subconditions(a, 2) } else { a }
}

impl Conditions {
    /// The conditions with the subconditions of the visited flags added.
    pub fn with_subconditions(&self) -> (r: u32)
        ensures
            r == subconditions_added(self.0),
    {
        self.fold(self.0, &subcondition_fold)
    }

    /// Folds `f` over the bits `1 << i`, `i` from 0 to 21, that
    /// `bit_selected` picks from `initial`, starting from `initial`.
    pub fn fold<F: Fn(u32, u32) -> u32>(&self, initial: u32, f: &F) -> (r: u32)
        requires
            forall|a: u32, b: u32| f.requires((a, b)),
        ensures
            bit_selected(initial, 0) && bit_selected(initial, 1) ==> exists|m: u32| call_ensures(*f, (initial, 1u32), m) && call_ensures(*f, (m, 2u32), r),
            bit_selected(initial, 0) && !bit_selected(initial, 1) ==> call_ensures(*f, (initial, 1u32), r),
            !bit_selected(initial, 0) && bit_selected(initial, 1) ==> call_ensures(*f, (initial, 2u32), r),
            !bit_selected(initial, 0) && !bit_selected(initial, 1) ==> r == initial,
    {
        let mut curr = initial;
        let ghost mut first = initial;
        let mut i: u32 = 0;
        let end: u32 = 21;
        while i <= end
            invariant
                end == 21,
                i <= 22,
                forall|a: u32, b: u32| f.requires((a, b)),
                i == 0 ==> curr == initial,
                i >= 1 ==> (bit_selected(initial, 0) ==> call_ensures(*f, (initial, 1u32), first)),
                i >= 1 ==> (!bit_selected(initial, 0) ==> first == initial),
                i == 1 ==> curr == first,
                i >= 2 ==> (bit_selected(initial, 1) ==> call_ensures(*f, (first, 2u32), curr)),
                i >= 2 ==> (!bit_selected(initial, 1) ==> curr == first),
            decreases 22 - i,
        {
            proof {
                lemma_selected_bits(initial, i);
            }
            if (1u32 << i) & initial == (i << i) {
                assert(i == 0 || i == 1);
                if i == 1 {
                    assert((1u32 << 1u32) == 2u32) by (bit_vector);
                } else {
                    assert((1u32 << 0u32) == 1u32) by (bit_vector);
                }
                curr = f(curr, 1 << i);
            }
            if i == 0 {
                proof {
                    first = curr;
                }
            }
            i += 1;
        }
        curr
    }
}

// ---- segments against the dictionary ----

/// A candidate word: its text as written, its base form, and the base form
/// to look up in its place, if any.
pub type Candidate = (Seq<char>, Seq<char>, Option<Seq<char>>);

/// The characters of an optional string.
pub open spec fn opt_chars(s: Option<String>) -> Option<Seq<char>> {
    match s {
        Some(v) => Some(v@),
        None => None,
    }
}

/// The candidate for one resolved part `(t, base)` of a segment: the base
/// as it is without an inflection; the inflection where it covers the whole
/// base; else the base with its last inflection (counted in bytes) replaced
/// by the full inflection. `None` where that count does not end on a
/// character.
pub open spec fn resolved_candidate(t: Option<TransformView>, base: Seq<char>) -> Option<Candidate> {
    match t {
        None => Some((base, base, None)),
        Some(inf) => {
            let last = inf.last_inflection;
            if last.len() == 0 {
                Some((base, base, None))
            } else if byte_length(last) == byte_length(base) {
                Some((inf.inflection, base, None))
            } else {
                let n = if byte_length(base) >= byte_length(last) { byte_length(base) - byte_length(last) } else { 0 };
                match byte_prefix(base, n as nat) {
                    Some(k) => Some((base.take(k as int) + inf.inflection, base, inf.replacement)),
                    None => None,
                }
            }
        },
    }
}

/// The candidates of all resolved parts, in order.
pub open spec fn resolved_candidates(res: Seq<Part>) -> Option<Seq<Candidate>>
    decreases res.len(),
{
    if res.len() == 0 {
        Some(Seq::empty())
    } else {
        match (resolved_candidates(res.drop_last()), resolved_candidate(res.last().0, res.last().1)) {
            (Some(a), Some(c)) => Some(a.push(c)),
            _ => None,
        }
    }
}

/// Whether either dictionary holds `text`.
pub open spec fn either_has(a: Lexicon, r: Lexicon, text: Seq<char>) -> bool {
    lex_get(a, text) is Some || lex_get(r, text) is Some
}

/// The candidates of a segment: the segment itself when it does not
/// inflect; else its resolved parts, unless the resolution split it (or
/// grew it) while the segment as a whole is a dictionary word, which then
/// stands. `None` where a segment that inflects has no resolution.
pub open spec fn candidates_of(seg: Seq<char>, inflects: bool, res: Seq<Part>, a: Lexicon, r: Lexicon) -> Option<Seq<Candidate>> {
    if !inflects {
        Some(seq![(seg, seg, None)])
    } else if res.len() == 0 {
        None
    } else if (res.len() > 1 || byte_length(res[0].1) > byte_length(seg)) && either_has(a, r, seg) {
        Some(seq![(seg, seg, None)])
    } else {
        resolved_candidates(res)
    }
}

/// The candidates as plain values.
pub open spec fn candidate_views(v: Seq<(String, String, Option<String>)>) -> Seq<Candidate> {
    v.map_values(|c: (String, String, Option<String>)| (c.0@, c.1@, opt_chars(c.2)))
}

fn byte_prefix_of(s: &Vec<char>, n: usize) -> (r: Option<usize>)
    ensures
        r matches Some(k) ==> byte_prefix(s@, n as nat) == Some(k as nat) && k <= s@.len(),
        r is None ==> byte_prefix(s@, n as nat) is None,
{
    let mut i: usize = 0;
    let mut left: usize = n;
    proof {
        assert(s@.skip(0) =~= s@);
    }
    while left > 0
        invariant
            i <= s@.len(),
            byte_prefix(s@, n as nat) == match byte_prefix(s@.skip(i as int), left as nat) {
                Some(k) => Some((k + i) as nat),
                None => None::<nat>,
            },
        decreases left,
    {
        if i >= s.len() {
            proof {
                assert(s@.skip(i as int).len() == 0);
            }
            return None;
        }
        let w = crate::language_pack::processor::char_width(s[i]);
        proof {
            assert(s@.skip(i as int)[0] == s@[i as int]);
            assert(s@.skip(i as int).skip(1) =~= s@.skip(i + 1));
        }
        if w > left {
            return None;
        }
        left = left - w;
        i = i + 1;
    }
    proof {
        lemma_byte_prefix_le(s@.skip(i as int));
    }
    Some(i)
}

/// A prefix of no bytes is no characters.
proof fn lemma_byte_prefix_le(s: Seq<char>)
    ensures
        byte_prefix(s, 0) == Some(0nat),
{
}

/// The plain values of an optional text under deinflection.
pub open spec fn opt_transform(t: Option<TextTransform>) -> Option<TransformView> {
    match t {
        Some(x) => Some(x@),
        None => None,
    }
}

fn candidate_for(t: &Option<TextTransform>, base: &String) -> (r: Option<(String, String, Option<String>)>)
    ensures
        r matches Some(c) ==> resolved_candidate(opt_transform(*t), base@) == Some((c.0@, c.1@, opt_chars(c.2))),
        r is None ==> resolved_candidate(opt_transform(*t), base@) is None,
{
    match t {
        None => Some((base.clone(), base.clone(), None)),
        Some(inf) => {
            if inf.last_inflection.as_str().is_empty() {
                return Some((base.clone(), base.clone(), None));
            }
            let last_len = byte_len(&inf.last_inflection);
            let base_len = byte_len(base);
            if last_len == base_len {
                return Some((inf.inflection.clone(), base.clone(), None));
            }
            let n = if base_len >= last_len { base_len - last_len } else { 0 };
            let chars = chars_of(base.as_str());
            match byte_prefix_of(&chars, n) {
                None => None,
                Some(k) => {
                    let mut head: Vec<char> = Vec::new();
                    let mut j: usize = 0;
                    while j < k
                        invariant
                            k <= chars@.len(),
                            j <= k,
                            head@ == chars@.take(j as int),
                        decreases k - j,
                    {
                        head.push(chars[j]);
                        j = j + 1;
                        proof {
                            assert(head@ =~= chars@.take(j as int));
                        }
                    }
                    let mut text = string_of(&head);
                    text.append(inf.inflection.as_str());
                    let replacement = match &inf.replacement {
                        Some(rep) => Some(rep.clone()),
                        None => None,
                    };
                    Some((text, base.clone(), replacement))
                },
            }
        },
    }
}

/// The candidates of a segment; see `candidates_of`.
pub fn segment_candidates(segment: &String, inflects: bool, resolved: &Vec<(Option<TextTransform>, String)>, adaptive: &Lexicon, readings: &Lexicon) -> (r: Option<Vec<(String, String, Option<String>)>>)
    ensures
        r matches Some(v) ==> candidates_of(segment@, inflects, part_views(resolved@), *adaptive, *readings) == Some(candidate_views(v@)),
        r is None ==> candidates_of(segment@, inflects, part_views(resolved@), *adaptive, *readings) is None,
{
    let mut out: Vec<(String, String, Option<String>)> = Vec::new();
    if !inflects {
        out.push((segment.clone(), segment.clone(), None));
        proof {
            assert(candidate_views(out@) =~= seq![(segment@, segment@, None::<Seq<char>>)]);
        }
        return Some(out);
    }
    if resolved.len() == 0 {
        return None;
    }
    let in_dict = exact_match(adaptive, segment.as_str()).is_some() || exact_match(readings, segment.as_str()).is_some();
    if (resolved.len() > 1 || byte_len(&resolved[0].1) > byte_len(segment)) && in_dict {
        out.push((segment.clone(), segment.clone(), None));
        proof {
            assert(candidate_views(out@) =~= seq![(segment@, segment@, None::<Seq<char>>)]);
        }
        return Some(out);
    }
    let ghost res = part_views(resolved@);
    let mut i: usize = 0;
    proof {
        assert(candidates_of(segment@, inflects, part_views(resolved@), *adaptive, *readings) == resolved_candidates(res));
        assert(res.take(0) =~= Seq::<Part>::empty());
        assert(candidate_views(out@) =~= Seq::<Candidate>::empty());
    }
    while i < resolved.len()
        invariant
            res == part_views(resolved@),
            candidates_of(segment@, inflects, part_views(resolved@), *adaptive, *readings) == resolved_candidates(res),
            i <= res.len(),
            resolved_candidates(res.take(i as int)) == Some(candidate_views(out@)),
        decreases resolved.len() - i,
    {
        let ghost k = i as int;
        proof {
            assert(res.take(k + 1).drop_last() =~= res.take(k));
            assert(res.take(k + 1).last() == res[k]);
        }
        match candidate_for(&resolved[i].0, &resolved[i].1) {
            None => {
                proof {
                    lemma_resolved_none(res, k + 1);
                }
                return None;
            },
            Some(c) => {
                let ghost before = candidate_views(out@);
                out.push(c);
                proof {
                    assert(candidate_views(out@) =~= before.push(resolved_candidate(res[k].0, res[k].1)->0));
                }
            },
        }
        i = i + 1;
    }
    proof {
        assert(res.take(i as int) =~= res);
    }
    Some(out)
}

/// Once a resolved part has no candidate, the parts have none.
pub proof fn lemma_resolved_none(res: Seq<Part>, k: int)
    requires
        0 < k <= res.len(),
        resolved_candidate(res[k - 1].0, res[k - 1].1) is None,
    ensures
        resolved_candidates(res) is None,
    decreases res.len() - k,
{
    assert(res.take(k).drop_last() =~= res.take(k - 1));
    assert(res.take(k).last() == res[k - 1]);
    lemma_resolved_prefix_none(res, k);
}

/// Once a prefix of the resolved parts has no candidates, the parts have
/// none.
pub proof fn lemma_resolved_prefix_none(res: Seq<Part>, k: int)
    requires
        0 <= k <= res.len(),
        resolved_candidates(res.take(k)) is None,
    ensures
        resolved_candidates(res) is None,
    decreases res.len() - k,
{
    if k < res.len() {
        assert(res.take(k + 1).drop_last() =~= res.take(k));
        lemma_resolved_prefix_none(res, k + 1);
    } else {
        assert(res.take(k) =~= res);
    }
}

/// The written texts of `out[i..j]`, joined.
pub open spec fn joined(out: Seq<Candidate>, i: int, j: int) -> Seq<char>
    decreases j - i,
{
    if j <= i {
        Seq::empty()
    } else {
        joined(out, i, j - 1) + out[j - 1].0
    }
}

/// Whether a text may begin or is a word of either dictionary.
pub open spec fn either_prefix(a: Lexicon, r: Lexicon, text: Seq<char>) -> bool {
    lex_is_prefix(a, text) || lex_is_prefix(r, text) || either_has(a, r, text)
}

/// How far the candidates from `i` join into a dictionary word: growing
/// from `curr` while the joined text may begin a word, the end of the
/// longest joined text that is a word (`kwb` so far).
pub open spec fn word_boundary(out: Seq<Candidate>, a: Lexicon, r: Lexicon, i: int, curr: int, kwb: int) -> int
    decreases out.len() - curr,
{
    if curr < 0 || curr >= out.len() {
        kwb
    } else {
        let data = joined(out, i, curr + 1);
        if either_prefix(a, r, data) {
            word_boundary(out, a, r, i, curr + 1, if either_has(a, r, data) { curr + 1 } else { kwb })
        } else {
            kwb
        }
    }
}

/// The candidates from `i` on with runs that join into a dictionary word
/// merged into that word: a candidate that may begin a word takes the
/// longest run after it that makes a word.
pub open spec fn merged_from(out: Seq<Candidate>, a: Lexicon, r: Lexicon, i: int) -> Seq<Candidate>
    decreases out.len() - i,
{
    if i < 0 || i >= out.len() {
        Seq::empty()
    } else if i == out.len() - 1 {
        seq![out[i]]
    } else if !lex_is_prefix(a, out[i].0) && !lex_is_prefix(r, out[i].0) {
        seq![out[i]] + merged_from(out, a, r, i + 1)
    } else {
        let k = word_boundary(out, a, r, i, i + 1, i + 1);
        if k > i + 1 && k <= out.len() {
            let t = joined(out, i, k);
            seq![(t, t, None)] + merged_from(out, a, r, k)
        } else {
            seq![out[i]] + merged_from(out, a, r, i + 1)
        }
    }
}

/// The boundary never falls below where it starts, nor past the end.
pub proof fn lemma_word_boundary_bounds(out: Seq<Candidate>, a: Lexicon, r: Lexicon, i: int, curr: int, kwb: int)
    requires
        0 <= curr <= out.len(),
        kwb <= curr,
    ensures
        kwb <= word_boundary(out, a, r, i, curr, kwb) <= out.len(),
        kwb <= out.len() ==> word_boundary(out, a, r, i, curr, kwb) >= kwb,
    decreases out.len() - curr,
{
    if curr < out.len() {
        let data = joined(out, i, curr + 1);
        if either_prefix(a, r, data) {
            lemma_word_boundary_bounds(out, a, r, i, curr + 1, if either_has(a, r, data) { curr + 1 } else { kwb });
        }
    }
}

/// The written texts of the candidates `cs`, joined.
pub open spec fn written(cs: Seq<Candidate>) -> Seq<char>
    decreases cs.len(),
{
    if cs.len() == 0 {
        Seq::empty()
    } else {
        cs[0].0 + written(cs.skip(1))
    }
}

proof fn lemma_joined_split(out: Seq<Candidate>, i: int, j: int, k: int)
    requires
        i <= j <= k,
    ensures
        joined(out, i, j) + joined(out, j, k) == joined(out, i, k),
    decreases k - j,
{
    if k == j {
        assert(joined(out, i, j) + joined(out, j, k) =~= joined(out, i, j));
    } else {
        lemma_joined_split(out, i, j, k - 1);
        assert(joined(out, i, j) + (joined(out, j, k - 1) + out[k - 1].0) =~= (joined(out, i, j) + joined(out, j, k - 1)) + out[k - 1].0);
    }
}

proof fn lemma_written_prepend(x: Candidate, rest: Seq<Candidate>)
    ensures
        written(seq![x] + rest) == x.0 + written(rest),
{
    assert((seq![x] + rest).skip(1) =~= rest);
    assert((seq![x] + rest)[0] == x);
}

/// Merging from `i` keeps the text of the candidates from `i` on.
proof fn lemma_merged_text_from(out: Seq<Candidate>, a: Lexicon, r: Lexicon, i: int)
    requires
        0 <= i <= out.len(),
    ensures
        written(merged_from(out, a, r, i)) == joined(out, i, out.len() as int),
    decreases out.len() - i,
{
    let n = out.len() as int;
    if i == n {
        assert(written(Seq::<Candidate>::empty()) =~= Seq::<char>::empty());
        assert(joined(out, i, n) =~= Seq::<char>::empty());
    } else {
        assert(joined(out, i, i) =~= Seq::<char>::empty());
        assert(joined(out, i, i + 1) =~= out[i].0);
        if i == n - 1 {
            lemma_written_prepend(out[i], Seq::empty());
            assert(written(Seq::<Candidate>::empty()) =~= Seq::<char>::empty());
            assert(out[i].0 + Seq::<char>::empty() =~= out[i].0);
        } else if !lex_is_prefix(a, out[i].0) && !lex_is_prefix(r, out[i].0) {
            lemma_merged_text_from(out, a, r, i + 1);
            lemma_written_prepend(out[i], merged_from(out, a, r, i + 1));
            lemma_joined_split(out, i, i + 1, n);
        } else {
            let k = word_boundary(out, a, r, i, i + 1, i + 1);
            if k > i + 1 && k <= n {
                let t = joined(out, i, k);
                lemma_merged_text_from(out, a, r, k);
                lemma_written_prepend((t, t, None), merged_from(out, a, r, k));
                lemma_joined_split(out, i, k, n);
            } else {
                lemma_merged_text_from(out, a, r, i + 1);
                lemma_written_prepend(out[i], merged_from(out, a, r, i + 1));
                lemma_joined_split(out, i, i + 1, n);
            }
        }
    }
}

/// Merging runs into dictionary words keeps the text: the merged words,
/// joined, are the candidates' texts, joined.
pub proof fn lemma_merging_keeps_text(out: Seq<Candidate>, a: Lexicon, r: Lexicon)
    ensures
        written(merged_from(out, a, r, 0)) == written(out),
{
    lemma_merged_text_from(out, a, r, 0);
    lemma_joined_written(out, 0);
    assert(out.skip(0) =~= out);
}

/// The candidates from `i` on, joined, are their written texts.
proof fn lemma_joined_written(out: Seq<Candidate>, i: int)
    requires
        0 <= i <= out.len(),
    ensures
        joined(out, i, out.len() as int) == written(out.skip(i)),
    decreases out.len() - i,
{
    let n = out.len() as int;
    if i == n {
        assert(out.skip(i) =~= Seq::<Candidate>::empty());
        assert(joined(out, i, n) =~= Seq::<char>::empty());
    } else {
        lemma_joined_written(out, i + 1);
        assert(out.skip(i).skip(1) =~= out.skip(i + 1));
        assert(out.skip(i)[0] == out[i]);
        assert(joined(out, i, i) =~= Seq::<char>::empty());
        lemma_joined_split(out, i, i + 1, n);
        assert(joined(out, i, i + 1) =~= out[i].0);
    }
}

/// The frequency rank of a word: the lower of its ranks in the two
/// dictionaries (the readings first), where it has any.
pub open spec fn rank_of(a: Lexicon, r: Lexicon, text: Seq<char>) -> Option<usize> {
    let fa = match lex_get(r, text) {
        Some(v) => v,
        None => None,
    };
    let fb = match lex_get(a, text) {
        Some(v) => v,
        None => None,
    };
    match (fa, fb) {
        (None, None) => None,
        (None, Some(y)) => Some(y),
        (Some(x), None) => Some(x),
        (Some(x), Some(y)) => Some(if x <= y { x } else { y }),
    }
}

/// Each candidate with the rank of its replacement base, or else its base.
pub open spec fn ranked(a: Lexicon, r: Lexicon, cs: Seq<Candidate>) -> Seq<(Seq<char>, Seq<char>, Option<usize>)> {
    cs.map_values(|c: Candidate| (c.0, c.1, rank_of(a, r, match c.2 {
        Some(t) => t,
        None => c.1,
    })))
}

fn join_range(out: &Vec<(String, String, Option<String>)>, i: usize, j: usize) -> (r: String)
    requires
        i <= j <= out@.len(),
    ensures
        r@ == joined(candidate_views(out@), i as int, j as int),
{
    let mut text = String::new();
    let mut k = i;
    while k < j
        invariant
            i <= k <= j <= out@.len(),
            text@ == joined(candidate_views(out@), i as int, k as int),
        decreases j - k,
    {
        text.append(out[k].0.as_str());
        k = k + 1;
    }
    text
}

fn rank(adaptive: &Lexicon, readings: &Lexicon, text: &str) -> (r: Option<usize>)
    ensures
        r == rank_of(*adaptive, *readings, text@),
{
    let fa: Option<usize> = match exact_match(readings, text) {
        Some(v) => *v,
        None => None,
    };
    let fb: Option<usize> = match exact_match(adaptive, text) {
        Some(v) => *v,
        None => None,
    };
    match (fa, fb) {
        (None, None) => None,
        (None, Some(y)) => Some(y),
        (Some(x), None) => Some(x),
        (Some(x), Some(y)) => Some(if x <= y { x } else { y }),
    }
}

/// The ranked words of the candidates `output`: runs that join into a
/// dictionary word merged (see `merged_from`), each with its frequency rank
/// (see `rank_of`).
pub fn merge_segments(output: &Vec<(String, String, Option<String>)>, adaptive: &Lexicon, readings: &Lexicon) -> (r: Vec<(String, String, Option<usize>)>)
    ensures
        r@.map_values(|x: (String, String, Option<usize>)| (x.0@, x.1@, x.2)) == ranked(*adaptive, *readings, merged_from(candidate_views(output@), *adaptive, *readings, 0)),
{
    let ghost cv = candidate_views(output@);
    let n = output.len();
    let mut merged: Vec<(String, String, Option<String>)> = Vec::new();
    let mut i: usize = 0;
    proof {
        assert(candidate_views(merged@) + merged_from(cv, *adaptive, *readings, 0) =~= merged_from(cv, *adaptive, *readings, 0));
    }
    while i < n
        invariant
            n == output@.len(),
            cv == candidate_views(output@),
            i <= n,
            candidate_views(merged@) + merged_from(cv, *adaptive, *readings, i as int) == merged_from(cv, *adaptive, *readings, 0),
        decreases n - i,
    {
        let ghost before = candidate_views(merged@);
        let seg = &output[i];
        let seg_copy = (seg.0.clone(), seg.1.clone(), match &seg.2 {
            Some(t) => Some(t.clone()),
            None => None,
        });
        if i == n - 1 {
            merged.push(seg_copy);
            proof {
                assert(candidate_views(merged@) =~= before.push(cv[i as int]));
                assert(merged_from(cv, *adaptive, *readings, i + 1) =~= Seq::<Candidate>::empty());
            }
            i = i + 1;
        } else if !is_prefix(adaptive, seg.0.as_str()) && !is_prefix(readings, seg.0.as_str()) {
            merged.push(seg_copy);
            proof {
                assert(candidate_views(merged@) =~= before.push(cv[i as int]));
                assert(before + merged_from(cv, *adaptive, *readings, i as int) =~= candidate_views(merged@) + merged_from(cv, *adaptive, *readings, i + 1));
            }
            i = i + 1;
        } else {
            let mut key_with_boundary = i + 1;
            let mut curr_check = i + 1;
            let mut growing = true;
            proof {
                lemma_word_boundary_bounds(cv, *adaptive, *readings, i as int, i + 1, i + 1);
            }
            while growing && curr_check < n
                invariant
                    n == output@.len(),
                    cv == candidate_views(output@),
                    i + 1 <= key_with_boundary <= curr_check <= n,
                    growing ==> word_boundary(cv, *adaptive, *readings, i as int, curr_check as int, key_with_boundary as int)
                        == word_boundary(cv, *adaptive, *readings, i as int, i + 1, i + 1),
                    !growing ==> key_with_boundary == word_boundary(cv, *adaptive, *readings, i as int, i + 1, i + 1),
                decreases n - curr_check + (if growing { 1int } else { 0int }),
            {
                let data = join_range(output, i, curr_check + 1);
                let exact = exact_match(adaptive, data.as_str()).is_some() || exact_match(readings, data.as_str()).is_some();
                if is_prefix(adaptive, data.as_str()) || is_prefix(readings, data.as_str()) || exact {
                    if exact {
                        key_with_boundary = curr_check + 1;
                    }
                    curr_check = curr_check + 1;
                } else {
                    growing = false;
                }
            }
            let ghost k = word_boundary(cv, *adaptive, *readings, i as int, i + 1, i + 1);
            proof {
                lemma_word_boundary_bounds(cv, *adaptive, *readings, i as int, i + 1, i + 1);
                assert(key_with_boundary == k);
            }
            if key_with_boundary == i + 1 {
                merged.push(seg_copy);
                proof {
                    assert(candidate_views(merged@) =~= before.push(cv[i as int]));
                    assert(before + merged_from(cv, *adaptive, *readings, i as int) =~= candidate_views(merged@) + merged_from(cv, *adaptive, *readings, i + 1));
                }
                i = i + 1;
            } else {
                let text = join_range(output, i, key_with_boundary);
                let copy = text.clone();
                merged.push((text, copy, None));
                proof {
                    let t = joined(cv, i as int, k);
                    assert(candidate_views(merged@) =~= before.push((t, t, None)));
                    assert(before + merged_from(cv, *adaptive, *readings, i as int) =~= candidate_views(merged@) + merged_from(cv, *adaptive, *readings, k));
                }
                i = key_with_boundary;
            }
        }
    }
    proof {
        assert(candidate_views(merged@) =~= merged_from(cv, *adaptive, *readings, 0));
    }
    let ghost mv = candidate_views(merged@);
    let mut result: Vec<(String, String, Option<usize>)> = Vec::new();
    let mut j: usize = 0;
    while j < merged.len()
        invariant
            mv == candidate_views(merged@),
            j <= merged@.len(),
            result@.map_values(|x: (String, String, Option<usize>)| (x.0@, x.1@, x.2)) == ranked(*adaptive, *readings, mv.take(j as int)),
        decreases merged.len() - j,
    {
        let c = &merged[j];
        let key: &str = match &c.2 {
            Some(t) => t.as_str(),
            None => c.1.as_str(),
        };
        let freq = rank(adaptive, readings, key);
        let ghost before = result@.map_values(|x: (String, String, Option<usize>)| (x.0@, x.1@, x.2));
        proof {
            assert(mv[j as int] == (c.0@, c.1@, opt_chars(c.2)));
            assert(key@ == match mv[j as int].2 {
                Some(t) => t,
                None => mv[j as int].1,
            });
        }
        result.push((c.0.clone(), c.1.clone(), freq));
        proof {
            assert(mv.take(j + 1) =~= mv.take(j as int).push(mv[j as int]));
            assert(result@.map_values(|x: (String, String, Option<usize>)| (x.0@, x.1@, x.2)) =~= before.push((c.0@, c.1@, freq)));
            assert(ranked(*adaptive, *readings, mv.take(j + 1)) =~= ranked(*adaptive, *readings, mv.take(j as int)).push((c.0@, c.1@, freq)));
            assert(result@.map_values(|x: (String, String, Option<usize>)| (x.0@, x.1@, x.2)) =~= ranked(*adaptive, *readings, mv.take(j + 1)));
        }
        j = j + 1;
    }
    proof {
        assert(mv.take(j as int) =~= mv);
    }
    result
}

// ---- the whole text ----

/// The candidates of one group: resolved against the rules `ts` when it
/// may inflect.
pub open spec fn group_candidates(ts: Seq<Transform>, g: Group, a: Lexicon, r: Lexicon) -> Option<Seq<Candidate>> {
    if g.1 {
        match resolution(ts, a, r, g.0, g.0.len()) {
            Some(res) => candidates_of(g.0, true, res, a, r),
            None => None,
        }
    } else {
        candidates_of(g.0, false, Seq::empty(), a, r)
    }
}

/// The candidates of all groups, in order.
pub open spec fn groups_candidates(ts: Seq<Transform>, gs: Seq<Group>, a: Lexicon, r: Lexicon) -> Option<Seq<Candidate>>
    decreases gs.len(),
{
    if gs.len() == 0 {
        Some(Seq::empty())
    } else {
        match (groups_candidates(ts, gs.drop_last(), a, r), group_candidates(ts, gs.last(), a, r)) {
            (Some(x), Some(y)) => Some(x + y),
            _ => None,
        }
    }
}

/// The words of a text whose morphemes are `ms`, by the rules `ts`: the
/// morphemes grouped into words, each group that may inflect resolved
/// against the dictionaries, then runs merged into dictionary words and
/// ranked.
pub open spec fn text_words(ts: Seq<Transform>, ms: Seq<Option<Seq<Seq<char>>>>, a: Lexicon, r: Lexicon) -> Option<Seq<(Seq<char>, Seq<char>, Option<usize>)>> {
    match groups_candidates(ts, grouped(ms), a, r) {
        Some(cs) => Some(ranked(a, r, merged_from(cs, a, r, 0))),
        None => None,
    }
}

/// Once a prefix of the groups has no candidates, the groups have none.
pub proof fn lemma_groups_none(ts: Seq<Transform>, gs: Seq<Group>, a: Lexicon, r: Lexicon, k: int)
    requires
        0 <= k <= gs.len(),
        groups_candidates(ts, gs.take(k), a, r) is None,
    ensures
        groups_candidates(ts, gs, a, r) is None,
    decreases gs.len() - k,
{
    if k < gs.len() {
        assert(gs.take(k + 1).drop_last() =~= gs.take(k));
        lemma_groups_none(ts, gs, a, r, k + 1);
    } else {
        assert(gs.take(k) =~= gs);
    }
}

/// Whether `ts` holds the Japanese inflection rules (`japanese_rules`).
pub open spec fn is_japanese_table(ts: Seq<Transform>) -> bool {
    ts.map_values(|t: Transform| rules_view(t.rules@)) == japanese_rules()
}

/// The Japanese rules satisfy `rules_ok`: a resolver is always built over
/// them, so reading a text fails only where a resolution is not defined.
pub proof fn lemma_japanese_table_rules_ok(ts: Seq<Transform>)
    requires
        is_japanese_table(ts),
    ensures
        rules_ok(ts),
{
    lemma_japanese_rules_ok();
    assert forall|tp: int, rp: int| 0 <= tp < ts.len() && 0 <= rp < ts[tp].rules@.len() implies {
        let rule = #[trigger] ts[tp].rules@[rp];
        &&& utf8_size(rule.test@) <= usize::MAX
        &&& utf8_size(rule.deinflection@) <= usize::MAX
        &&& forall|k: int| 0 <= k < rule.replacements@.len() ==> utf8_size((#[trigger] rule.replacements@[k]).0@) <= usize::MAX
    } by {
        let rule = ts[tp].rules@[rp];
        let m = ts.map_values(|t: Transform| rules_view(t.rules@));
        assert(m[tp] == rules_view(ts[tp].rules@));
        assert(japanese_rules()[tp] == rules_view(ts[tp].rules@));
        assert(rules_view(ts[tp].rules@)[rp] == rule_view(rule));
        let v = rule_view(rule);
        assert(rule_view_ok(japanese_rules()[tp][rp]));
        assert(rule_view_ok(v));
        assert forall|k: int| 0 <= k < rule.replacements@.len() implies
            (#[trigger] v.4[k]) == (rule.replacements@[k].0@, rule.replacements@[k].1@) by {}
        assert forall|k: int| 0 <= k < rule.replacements@.len() implies utf8_size((#[trigger] rule.replacements@[k]).0@) <= usize::MAX by {
            assert(v.4[k] == (rule.replacements@[k].0@, rule.replacements@[k].1@));
        }
    }
}

/// The words of the text whose morphemes are `morphemes`, with the base
/// form of each and its frequency rank: `text_words` under the Japanese
/// rules. `None` where a resolution is not defined.
pub fn transform_japanese_text(morphemes: Vec<Morpheme>, adaptive: &Lexicon, readings: &Lexicon) -> (r: Option<Vec<(String, String, Option<usize>)>>)
    ensures
        exists|ts: Seq<Transform>| #[trigger] is_japanese_table(ts) && text_words(ts, morphemes@.map_values(|m: Morpheme| m@), *adaptive, *readings) == (match r {
            Some(v) => Some(v@.map_values(|x: (String, String, Option<usize>)| (x.0@, x.1@, x.2))),
            None => None,
        }),
{
    let ghost ms = morphemes@.map_values(|m: Morpheme| m@);
    let segments = group_inflected(morphemes);
    let conditions = JAPANESE_CONDITIONS();
    let transforms = JAPANESE_TRANSFORMS();
    proof {
        assert(is_japanese_table(transforms@));
        lemma_japanese_table_rules_ok(transforms@);
    }
    let transformer = match LanguageTransformer::new(&transforms, &conditions, adaptive, readings) {
        Some(t) => t,
        None => {
            assert(false);
            return None;
        },
    };
    let ghost ts = transforms@;
    let ghost gs = grouped(ms);
    let mut output: Vec<(String, String, Option<String>)> = Vec::new();
    let mut i: usize = 0;
    proof {
        assert(gs.take(0) =~= Seq::<Group>::empty());
        assert(candidate_views(output@) =~= Seq::<Candidate>::empty());
    }
    while i < segments.len()
        invariant
            gs == group_views(segments@),
            ts == transformer.transforms@,
            is_japanese_table(ts),
            ms == morphemes@.map_values(|m: Morpheme| m@),
            gs == grouped(ms),
            rules_ok(ts),
            *transformer.dictionary == *adaptive,
            *transformer.dictionary_readings == *readings,
            i <= gs.len(),
            groups_candidates(ts, gs.take(i as int), *adaptive, *readings) == Some(candidate_views(output@)),
        decreases segments.len() - i,
    {
        let ghost k = i as int;
        proof {
            assert(gs.take(k + 1).drop_last() =~= gs.take(k));
            assert(gs.take(k + 1).last() == gs[k]);
            assert(gs[k] == (segments@[k].0@, segments@[k].1));
        }
        let segment = &segments[i].0;
        let inflects = segments[i].1;
        let resolved: Vec<(Option<TextTransform>, String)> = if inflects {
            match transformer.resolve(segment.as_str()) {
                Some(res) => res,
                None => {
                    proof {
                        assert(group_candidates(ts, gs[k], *adaptive, *readings) is None);
                        lemma_groups_none(ts, gs, *adaptive, *readings, k + 1);
                    }
                    return None;
                },
            }
        } else {
            Vec::new()
        };
        proof {
            if !inflects {
                assert(part_views(resolved@) =~= Seq::<Part>::empty());
            }
        }
        match segment_candidates(segment, inflects, &resolved, adaptive, readings) {
            None => {
                proof {
                    assert(group_candidates(ts, gs[k], *adaptive, *readings) is None);
                    lemma_groups_none(ts, gs, *adaptive, *readings, k + 1);
                }
                return None;
            },
            Some(mut cands) => {
                let ghost before = candidate_views(output@);
                let ghost added = candidate_views(cands@);
                output.append(&mut cands);
                proof {
                    assert(candidate_views(output@) =~= before + added);
                }
            },
        }
        i = i + 1;
    }
    proof {
        assert(gs.take(i as int) =~= gs);
    }
    Some(merge_segments(&output, adaptive, readings))
}

} // verus!
