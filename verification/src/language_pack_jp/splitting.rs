//! A line split into words for study: tagged morphemes grouped so that
//! auxiliaries, conjunctive particles and suffixes stay with the word they
//! follow.
use vstd::prelude::*;
use crate::text::{chars_of, str_eq};
use crate::language_pack_jp::morphology::{read_words, tagged_words};

verus! {

/// A word of the line: its text, its base form, and whether it is a word
/// whose frequency is worth looking up.
#[derive(Debug, Clone)]
pub struct Segment {
    pub word: String,
    pub base: String,
    pub freq: bool,
}

impl View for Segment {
    type V = (Seq<char>, Seq<char>, bool);

    open spec fn view(&self) -> (Seq<char>, Seq<char>, bool) {
        (self.word@, self.base@, self.freq)
    }
}

/// Whether `s` begins with `p`.
pub open spec fn starts_with(s: Seq<char>, p: Seq<char>) -> bool {
    p.len() <= s.len() && s.subrange(0, p.len() as int) == p
}

/// The parts of speech whose words have a frequency worth looking up.
pub open spec fn has_freq(pos1: Seq<char>) -> bool {
    pos1 == "動詞"@ || pos1 == "名詞"@ || pos1 == "形容詞"@ || pos1 == "代名詞"@ || pos1 == "形状詞"@
        || pos1 == "副詞"@ || pos1 == "連体詞"@
}

/// A group being built: word, base, frequency flag, and the conjugation
/// shape of its last morpheme.
pub type SplitGroup = (Seq<char>, Seq<char>, bool, Seq<char>);

/// One morpheme (its tagger fields `m`) joins the groups `gs`. It opens a
/// group of its own when it is the first or is in the terminal form;
/// otherwise an auxiliary verb after a conjunctive or irrealis form, or a
/// conjunctive particle after a conjunctive form, extends the last word;
/// a suffix extends the last word and its base; anything else opens a
/// group. The eleventh field is taken as the base form.
pub open spec fn split_step(gs: Seq<SplitGroup>, m: Seq<Seq<char>>) -> Seq<SplitGroup> {
    let unit = m[0];
    let pos1 = m[1];
    let pos2 = m[2];
    let c_form = m[6];
    let fresh = (unit, m[10], has_freq(pos1), c_form);
    if gs.len() == 0 || starts_with(c_form, "終止形"@) {
        gs.push(fresh)
    } else {
        let last = gs.last();
        let conjunctive = starts_with(last.3, "連用形"@) || starts_with(last.3, "未然形"@);
        if pos1 == "助動詞"@ && conjunctive {
            gs.drop_last().push((last.0 + unit, last.1, last.2, c_form))
        } else if pos2 == "接続助詞"@ && starts_with(last.3, "連用形"@) {
            gs.drop_last().push((last.0 + unit, last.1, last.2, c_form))
        } else if pos1 == "接尾辞"@ {
            gs.drop_last().push((last.0 + unit, last.1 + unit, last.2, c_form))
        } else {
            gs.push(fresh)
        }
    }
}

/// The groups that the morphemes `ms` form, in order.
pub open spec fn split_groups(ms: Seq<Seq<Seq<char>>>) -> Seq<SplitGroup>
    decreases ms.len(),
{
    if ms.len() == 0 {
        Seq::empty()
    } else {
        split_step(split_groups(ms.drop_last()), ms.last())
    }
}

/// The words the groups make.
pub open spec fn group_words(gs: Seq<SplitGroup>) -> Seq<(Seq<char>, Seq<char>, bool)> {
    gs.map_values(|g: SplitGroup| (g.0, g.1, g.2))
}

/// The words of the groups `gs`, joined.
pub open spec fn groups_text(gs: Seq<SplitGroup>) -> Seq<char>
    decreases gs.len(),
{
    if gs.len() == 0 {
        Seq::empty()
    } else {
        groups_text(gs.drop_last()) + gs.last().0
    }
}

/// The surfaces of the morphemes `ms`, joined.
pub open spec fn units_text(ms: Seq<Seq<Seq<char>>>) -> Seq<char>
    decreases ms.len(),
{
    if ms.len() == 0 {
        Seq::empty()
    } else {
        units_text(ms.drop_last()) + ms.last()[0]
    }
}

/// Splitting keeps the text: the words, joined, are the surfaces of the
/// morphemes, joined.
pub proof fn lemma_split_keeps_text(ms: Seq<Seq<Seq<char>>>)
    ensures
        groups_text(split_groups(ms)) == units_text(ms),
    decreases ms.len(),
{
    if ms.len() > 0 {
        let gs = split_groups(ms.drop_last());
        lemma_split_keeps_text(ms.drop_last());
        let m = ms.last();
        let ng = split_step(gs, m);
        if ng.len() == gs.len() + 1 {
            assert(ng.drop_last() =~= gs);
        } else {
            let last = gs.last();
            assert(ng.drop_last() =~= gs.drop_last());
            assert(groups_text(gs) == groups_text(gs.drop_last()) + last.0);
            assert(groups_text(ng) =~= groups_text(gs.drop_last()) + last.0 + m[0]);
        }
    }
}

/// After at least one morpheme, there is a last group, and its last
/// morpheme's conjugation shape is that of the last morpheme.
proof fn lemma_last_shape(ms: Seq<Seq<Seq<char>>>)
    requires
        ms.len() > 0,
    ensures
        split_groups(ms).len() > 0,
        split_groups(ms).last().3 == ms.last()[6],
{
}

/// How one more morpheme `m` (its tagger fields: surface, pos1, pos2, ...,
/// c_form at 6, base at 10) changes the words of the morphemes `ms` before
/// it, when it is not in the terminal form (終止形):
/// - an auxiliary verb (助動詞) after a morpheme in the conjunctive (連用形)
///   or irrealis (未然形) form joins the last word, whose base stays;
/// - a conjunctive particle (接続助詞) after a conjunctive form joins the
///   last word, whose base stays;
/// - otherwise a suffix (接尾辞) joins both the last word and its base;
/// - anything else is a word of its own, with its base form.
/// The first morpheme, and one in the terminal form, always starts a word.
pub proof fn lemma_split_step_words(ms: Seq<Seq<Seq<char>>>, m: Seq<Seq<char>>)
    ensures
        ({
            let before = group_words(split_groups(ms));
            let after = group_words(split_groups(ms.push(m)));
            let terminal = starts_with(m[6], "終止形"@);
            let prev_conj = ms.len() > 0 && starts_with(ms.last()[6], "連用形"@);
            let prev_irr = ms.len() > 0 && starts_with(ms.last()[6], "未然形"@);
            let joins_word = !terminal && ms.len() > 0 && ((m[1] == "助動詞"@ && (prev_conj || prev_irr))
                || (m[2] == "接続助詞"@ && prev_conj));
            let joins_base = !terminal && ms.len() > 0 && !joins_word && m[1] == "接尾辞"@;
            &&& joins_word ==> after == before.drop_last().push((before.last().0 + m[0], before.last().1, before.last().2))
            &&& joins_base ==> after == before.drop_last().push((before.last().0 + m[0], before.last().1 + m[0], before.last().2))
            &&& !joins_word && !joins_base ==> after == before.push((m[0], m[10], has_freq(m[1])))
        }),
{
    let gs = split_groups(ms);
    assert(ms.push(m).drop_last() =~= ms);
    assert(ms.push(m).last() == m);
    if ms.len() > 0 {
        lemma_last_shape(ms);
    }
    let ng = split_groups(ms.push(m));
    assert(ng == split_step(gs, m));
    if gs.len() > 0 {
        assert(group_words(gs).last() == (gs.last().0, gs.last().1, gs.last().2));
        assert(group_words(gs.drop_last()) =~= group_words(gs).drop_last());
        assert(group_words(gs.drop_last().push((gs.last().0 + m[0], gs.last().1, gs.last().2, m[6])))
            =~= group_words(gs).drop_last().push((gs.last().0 + m[0], gs.last().1, gs.last().2)));
        assert(group_words(gs.drop_last().push((gs.last().0 + m[0], gs.last().1 + m[0], gs.last().2, m[6])))
            =~= group_words(gs).drop_last().push((gs.last().0 + m[0], gs.last().1 + m[0], gs.last().2)));
    }
    assert(group_words(gs.push((m[0], m[10], has_freq(m[1]), m[6]))) =~= group_words(gs).push((m[0], m[10], has_freq(m[1]))));
}

fn starts_with_exec(s: &str, p: &str) -> (r: bool)
    ensures
        r == starts_with(s@, p@),
{
    let sc = chars_of(s);
    let pc = chars_of(p);
    if pc.len() > sc.len() {
        return false;
    }
    let mut i: usize = 0;
    while i < pc.len()
        invariant
            pc.len() <= sc.len(),
            i <= pc.len(),
            sc@ == s@,
            pc@ == p@,
            forall|j: int| 0 <= j < i ==> sc@[j] == pc@[j],
        decreases pc.len() - i,
    {
        if sc[i] != pc[i] {
            proof {
                assert(s@.subrange(0, p@.len() as int)[i as int] != p@[i as int]);
            }
            return false;
        }
        i = i + 1;
    }
    proof {
        assert(s@.subrange(0, p@.len() as int) =~= p@);
    }
    true
}

fn has_freq_exec(pos1: &str) -> (r: bool)
    ensures
        r == has_freq(pos1@),
{
    str_eq(pos1, "動詞") || str_eq(pos1, "名詞") || str_eq(pos1, "形容詞") || str_eq(pos1, "代名詞")
        || str_eq(pos1, "形状詞") || str_eq(pos1, "副詞") || str_eq(pos1, "連体詞")
}

/// Splits a line into words from the tagger's output for it (see
/// `split_step`).
pub fn segment_text(tagger_output: &str) -> (r: Vec<Segment>)
    ensures
        r@.map_values(|s: Segment| s@) == group_words(split_groups(tagged_words(tagger_output@))),
{
    let words = read_words(tagger_output);
    let ghost ms = tagged_words(tagger_output@);
    let mut done: Vec<Segment> = Vec::new();
    let mut cur_word = String::new();
    let mut cur_base = String::new();
    let mut cur_freq = false;
    let mut cur_form = String::new();
    let mut open = false;
    let mut i: usize = 0;
    proof {
        assert(ms.take(0) =~= Seq::<Seq<Seq<char>>>::empty());
        assert(done@.map_values(|s: Segment| s@) =~= Seq::<(Seq<char>, Seq<char>, bool)>::empty());
    }
    while i < words.len()
        invariant
            ms == tagged_words(tagger_output@),
            words@.len() == ms.len(),
            forall|j: int| 0 <= j < words@.len() ==> (#[trigger] words@[j]).fields() == ms[j],
            i <= words.len(),
            open == (i > 0),
            ({
                let gs = split_groups(ms.take(i as int));
                &&& gs.len() == done@.len() + (if open { 1int } else { 0int })
                &&& done@.map_values(|s: Segment| s@) == group_words(gs.take(done@.len() as int))
                &&& open ==> gs.last() == (cur_word@, cur_base@, cur_freq, cur_form@)
            }),
        decreases words.len() - i,
    {
        let w = &words[i];
        let ghost m = ms[i as int];
        let ghost gs = split_groups(ms.take(i as int));
        proof {
            assert(w.fields() == m);
            assert(ms.take(i + 1).drop_last() =~= ms.take(i as int));
            assert(ms.take(i + 1).last() == m);
            assert(m[0] == w.surface@);
            assert(m[1] == w.feature.pos1@);
            assert(m[2] == w.feature.pos2@);
            assert(m[6] == w.feature.c_form@);
            assert(m[10] == w.feature.pron@);
        }
        let ghost before = done@.map_values(|s: Segment| s@);
        let terminal = starts_with_exec(w.feature.c_form.as_str(), "終止形");
        let mut extend = 0u8;
        if open && !terminal {
            let conjunctive = starts_with_exec(cur_form.as_str(), "連用形");
            let irrealis = starts_with_exec(cur_form.as_str(), "未然形");
            if str_eq(w.feature.pos1.as_str(), "助動詞") && (conjunctive || irrealis) {
                extend = 1;
            } else if str_eq(w.feature.pos2.as_str(), "接続助詞") && conjunctive {
                extend = 1;
            } else if str_eq(w.feature.pos1.as_str(), "接尾辞") {
                extend = 2;
            }
        }
        if extend == 0 {
            if open {
                done.push(Segment { word: cur_word, base: cur_base, freq: cur_freq });
                proof {
                    assert(done@.map_values(|s: Segment| s@) =~= before.push((gs.last().0, gs.last().1, gs.last().2)));
                    assert(gs.take(done@.len() as int) =~= gs.take(done@.len() - 1).push(gs.last()));
                    assert(group_words(gs.take(done@.len() as int)) =~= group_words(gs.take(done@.len() - 1)).push((gs.last().0, gs.last().1, gs.last().2)));
                }
            }
            cur_word = w.surface.clone();
            cur_base = w.feature.pron.clone();
            cur_freq = has_freq_exec(w.feature.pos1.as_str());
            cur_form = w.feature.c_form.clone();
            open = true;
            proof {
                let ng = split_groups(ms.take(i + 1));
                assert(ng =~= gs.push((m[0], m[10], has_freq(m[1]), m[6])));
                assert(ng.take(done@.len() as int) =~= gs.take(done@.len() as int));
            }
        } else {
            cur_word.append(w.surface.as_str());
            if extend == 2 {
                cur_base.append(w.surface.as_str());
            }
            cur_form = w.feature.c_form.clone();
            proof {
                let ng = split_groups(ms.take(i + 1));
                assert(ng.len() == gs.len());
                assert(ng.take(done@.len() as int) =~= gs.take(done@.len() as int));
            }
        }
        i = i + 1;
    }
    if open {
        let ghost before = done@.map_values(|s: Segment| s@);
        let ghost gs = split_groups(ms.take(i as int));
        done.push(Segment { word: cur_word, base: cur_base, freq: cur_freq });
        proof {
            assert(done@.map_values(|s: Segment| s@) =~= before.push((gs.last().0, gs.last().1, gs.last().2)));
            assert(gs.take(done@.len() as int) =~= gs.take(done@.len() - 1).push(gs.last()));
            assert(group_words(gs.take(done@.len() as int)) =~= group_words(gs.take(done@.len() - 1)).push((gs.last().0, gs.last().1, gs.last().2)));
        }
    }
    proof {
        let gs = split_groups(ms.take(i as int));
        assert(ms.take(i as int) =~= ms);
        assert(gs.take(done@.len() as int) =~= gs);
    }
    done
}

} // verus!
