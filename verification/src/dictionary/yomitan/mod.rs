//! Yomitan dictionaries: the files of an archive and what they hold.
pub mod ast;
pub mod json;

use vstd::prelude::*;
use self::ast::{content_text, Definition, Index, Pitch, Term, TermMeta, YomitanFile, extract_content};
use self::json::MetaView;
use super::{Accent, Dictionary, DictionaryInfo, DictionaryWord, Frequency};
use crate::language_pack::transform::ends_with;
use crate::text::{chars_of, chars_eq};

verus! {

/// A dictionary read from a Yomitan archive.
#[derive(Debug)]
pub struct YomitanDictionary {
    pub index: Index,
    pub terms: Vec<Term>,
    pub accents: Vec<Accent>,
    pub frequencies: Vec<Frequency>,
}

/// A frequency as plain values.
pub type FrequencyView = (Seq<char>, Seq<char>, u32, Option<Seq<char>>);

/// An accent as plain values.
pub type AccentView = (Seq<char>, Seq<char>, u32);

/// The characters of an optional string.
pub open spec fn opt_view(s: Option<String>) -> Option<Seq<char>> {
    match s {
        Some(v) => Some(v@),
        None => None,
    }
}

/// The plain values of frequencies.
pub open spec fn frequency_views(v: Seq<Frequency>) -> Seq<FrequencyView> {
    v.map_values(|f: Frequency| (f.word@, f.reading@, f.frequency, opt_view(f.display)))
}

/// The plain values of accents.
pub open spec fn accent_views(v: Seq<Accent>) -> Seq<AccentView> {
    v.map_values(|a: Accent| (a.word@, a.reading@, a.position))
}

/// The frequencies among term metadata, in order.
pub open spec fn meta_frequencies(ms: Seq<MetaView>) -> Seq<FrequencyView>
    decreases ms.len(),
{
    if ms.len() == 0 {
        Seq::empty()
    } else {
        meta_frequencies(ms.drop_last()) + match ms.last() {
            MetaView::Frequency { word, reading, frequency, display } => seq![(word, reading, frequency, display)],
            MetaView::PitchAccent { .. } => Seq::empty(),
        }
    }
}

/// The accents among term metadata: one for each pitch of each entry, in
/// order.
pub open spec fn meta_accents(ms: Seq<MetaView>) -> Seq<AccentView>
    decreases ms.len(),
{
    if ms.len() == 0 {
        Seq::empty()
    } else {
        meta_accents(ms.drop_last()) + match ms.last() {
            MetaView::Frequency { .. } => Seq::empty(),
            MetaView::PitchAccent { word, reading, positions } => positions.map_values(|p: u32| (word, reading, p)),
        }
    }
}

/// The term metadata of the files, in order.
pub open spec fn file_metas(files: Seq<YomitanFile>) -> Seq<MetaView>
    decreases files.len(),
{
    if files.len() == 0 {
        Seq::empty()
    } else {
        file_metas(files.drop_last()) + match files.last() {
            YomitanFile::TermMeta(items) => items@.map_values(|m: TermMeta| m@),
            _ => Seq::empty(),
        }
    }
}

/// The terms of the files, in order.
pub open spec fn file_terms(files: Seq<YomitanFile>) -> Seq<Term>
    decreases files.len(),
{
    if files.len() == 0 {
        Seq::empty()
    } else {
        file_terms(files.drop_last()) + match files.last() {
            YomitanFile::Term(items) => items@,
            _ => Seq::empty(),
        }
    }
}

/// The index of the last index file, if there is one.
pub open spec fn index_of(files: Seq<YomitanFile>) -> Option<Index>
    decreases files.len(),
{
    if files.len() == 0 {
        None
    } else {
        match files.last() {
            YomitanFile::Index(i) => Some(i),
            _ => index_of(files.drop_last()),
        }
    }
}

/// The number of index files.
pub open spec fn index_count(files: Seq<YomitanFile>) -> nat
    decreases files.len(),
{
    if files.len() == 0 {
        0
    } else {
        index_count(files.drop_last()) + if files.last() is Index { 1nat } else { 0nat }
    }
}

/// The kind of a dictionary file, by its name.
#[derive(Debug, Clone, Copy, PartialEq, Eq, Structural)]
pub enum FileKind {
    Index,
    KanjiTerm,
    KanjiMeta,
    Tag,
    Term,
    TermMeta,
}

/// The kind of the dictionary file `name`: a `.json` file whose name starts
/// (in its first seven characters, or all but the last when shorter) like
/// `index.json`, `kanji_bank_`, `kanji_meta_bank_`, `tag_bank_`,
/// `term_bank_` or `term_meta_bank_`. Other files are not read.
pub open spec fn file_kind_of(name: Seq<char>) -> Option<FileKind> {
    if !ends_with(name, ".json"@) {
        None
    } else {
        let p = name.take(if name.len() - 1 < 7 { name.len() - 1 } else { 7 });
        if p == "index.j"@ {
            Some(FileKind::Index)
        } else if p == "kanji_b"@ {
            Some(FileKind::KanjiTerm)
        } else if p == "kanji_m"@ {
            Some(FileKind::KanjiMeta)
        } else if p == "tag_ban"@ {
            Some(FileKind::Tag)
        } else if p == "term_ba"@ {
            Some(FileKind::Term)
        } else if p == "term_me"@ {
            Some(FileKind::TermMeta)
        } else {
            None
        }
    }
}

fn prefix_is(p: &Vec<char>, s: &str) -> (r: bool)
    ensures
        r == (p@ == s@),
{
    let t = chars_of(s);
    chars_eq(p, &t)
}

impl YomitanDictionary {
    /// The kind of the archive file `name`; see `file_kind_of`.
    pub fn file_kind(name: &str) -> (r: Option<FileKind>)
        ensures
            r == file_kind_of(name@),
    {
        let c = chars_of(name);
        let json = chars_of(".json");
        if !crate::language_pack::transform::ends_with_chars(&c, &json) {
            return None;
        }
        proof {
            reveal_strlit(".json");
        }
        let n = if c.len() - 1 < 7 { c.len() - 1 } else { 7 };
        let mut p: Vec<char> = Vec::new();
        let mut i: usize = 0;
        while i < n
            invariant
                n <= c@.len(),
                i <= n,
                p@ == c@.take(i as int),
            decreases n - i,
        {
            p.push(c[i]);
            i = i + 1;
            proof {
                assert(p@ =~= c@.take(i as int));
            }
        }
        if prefix_is(&p, "index.j") {
            Some(FileKind::Index)
        } else if prefix_is(&p, "kanji_b") {
            Some(FileKind::KanjiTerm)
        } else if prefix_is(&p, "kanji_m") {
            Some(FileKind::KanjiMeta)
        } else if prefix_is(&p, "tag_ban") {
            Some(FileKind::Tag)
        } else if prefix_is(&p, "term_ba") {
            Some(FileKind::Term)
        } else if prefix_is(&p, "term_me") {
            Some(FileKind::TermMeta)
        } else {
            None
        }
    }

    /// Collects the files of an archive, in archive order, into a
    /// dictionary: the one index; the terms of the term files; a frequency
    /// for each frequency entry and an accent for each pitch of each pitch
    /// entry of the metadata files. Kanji and tag files are read and left
    /// out. `None` when there is no index file or more than one.
    pub fn from_files(files: Vec<YomitanFile>) -> (r: Option<YomitanDictionary>)
        ensures
            r is Some <==> index_count(files@) == 1,
            r matches Some(d) ==> Some(d.index) == index_of(files@),
            r matches Some(d) ==> d.terms@ == file_terms(files@)
                && frequency_views(d.frequencies@) == meta_frequencies(file_metas(files@))
                && accent_views(d.accents@) == meta_accents(file_metas(files@)),
    {
        let ghost all = files@;
        let mut rest = files;
        let mut rev: Vec<YomitanFile> = Vec::new();
        while rest.len() > 0
            invariant
                rest@ + rev@.reverse() == all,
            decreases rest.len(),
        {
            let x = rest.pop().unwrap();
            proof {
                assert(rest@.push(x) + rev@.reverse() =~= rest@ + rev@.push(x).reverse());
            }
            rev.push(x);
        }
        proof {
            assert(rev@.reverse() =~= all);
        }
        let n = rev.len();
        let mut index: Option<Index> = None;
        let mut duplicate = false;
        let mut terms: Vec<Term> = Vec::new();
        let mut frequencies: Vec<Frequency> = Vec::new();
        let mut accents: Vec<Accent> = Vec::new();
        proof {
            assert(all.take(0) =~= Seq::<YomitanFile>::empty());
        }
        while rev.len() > 0
            invariant
                n == all.len(),
                rev@.len() <= n,
                all == all.take(n - rev@.len()) + rev@.reverse(),
                !duplicate ==> (index is Some <==> index_count(all.take(n - rev@.len())) == 1),
                !duplicate ==> index_count(all.take(n - rev@.len())) <= 1,
                duplicate ==> index_count(all.take(n - rev@.len())) >= 2,
                index == index_of(all.take(n - rev@.len())),
                terms@ == file_terms(all.take(n - rev@.len())),
                frequency_views(frequencies@) == meta_frequencies(file_metas(all.take(n - rev@.len()))),
                accent_views(accents@) == meta_accents(file_metas(all.take(n - rev@.len()))),
            decreases rev.len(),
        {
            let ghost k = n - rev@.len();
            let item = rev.pop().unwrap();
            proof {
                assert(all.take(k) + seq![item] + rev@.reverse() =~= all.take(k) + rev@.push(item).reverse());
                assert(all[k] == item);
                assert(all.take(k + 1).drop_last() =~= all.take(k));
                assert(all.take(k + 1).last() == item);
                assert(all == all.take(k + 1) + rev@.reverse());
            }
            let ghost item_view = item;
            match item {
                YomitanFile::Index(i) => {
                    if index.is_some() {
                        duplicate = true;
                    }
                    index = Some(i);
                },
                YomitanFile::Term(mut items) => {
                    let ghost before = terms@;
                    let ghost added = items@;
                    terms.append(&mut items);
                    proof {
                        assert(terms@ =~= before + added);
                    }
                },
                YomitanFile::TermMeta(items) => {
                    let ghost metas = items@.map_values(|m: TermMeta| m@);
                    let ghost f0 = frequency_views(frequencies@);
                    let ghost a0 = accent_views(accents@);
                    add_metas(&mut frequencies, &mut accents, items);
                    proof {
                        lemma_metas_concat(file_metas(all.take(k)), metas);
                    }
                },
                _ => {},
            }
            proof {
                assert(file_metas(all.take(k + 1)) == file_metas(all.take(k)) + match item_view {
                    YomitanFile::TermMeta(items) => items@.map_values(|m: TermMeta| m@),
                    _ => Seq::empty(),
                });
                if !(item_view is TermMeta) {
                    assert(file_metas(all.take(k + 1)) =~= file_metas(all.take(k)));
                }
                if !(item_view is Term) {
                    assert(file_terms(all.take(k + 1)) =~= file_terms(all.take(k)));
                }
            }
        }
        proof {
            assert(all.take(n as int) =~= all);
        }
        if duplicate {
            return None;
        }
        match index {
            None => None,
            Some(index) => Some(YomitanDictionary { index, terms, accents, frequencies }),
        }
    }
}

/// The frequencies and accents of a list of metadata split over its end.
pub proof fn lemma_metas_concat(a: Seq<MetaView>, b: Seq<MetaView>)
    ensures
        meta_frequencies(a + b) == meta_frequencies(a) + meta_frequencies(b),
        meta_accents(a + b) == meta_accents(a) + meta_accents(b),
    decreases b.len(),
{
    if b.len() == 0 {
        assert(a + b =~= a);
        assert(meta_frequencies(a) + meta_frequencies(b) =~= meta_frequencies(a));
        assert(meta_accents(a) + meta_accents(b) =~= meta_accents(a));
    } else {
        lemma_metas_concat(a, b.drop_last());
        assert((a + b).drop_last() =~= a + b.drop_last());
        assert((a + b).last() == b.last());
        assert(meta_frequencies(a + b) =~= meta_frequencies(a) + meta_frequencies(b));
        assert(meta_accents(a + b) =~= meta_accents(a) + meta_accents(b));
    }
}

fn add_metas(frequencies: &mut Vec<Frequency>, accents: &mut Vec<Accent>, items: Vec<TermMeta>)
    ensures
        frequency_views(final(frequencies)@) == frequency_views(old(frequencies)@) + meta_frequencies(items@.map_values(|m: TermMeta| m@)),
        accent_views(final(accents)@) == accent_views(old(accents)@) + meta_accents(items@.map_values(|m: TermMeta| m@)),
{
    let ghost ms = items@.map_values(|m: TermMeta| m@);
    let ghost all = items@;
    let mut rest = items;
    let mut rev: Vec<TermMeta> = Vec::new();
    while rest.len() > 0
        invariant
            rest@ + rev@.reverse() == all,
        decreases rest.len(),
    {
        let x = rest.pop().unwrap();
        proof {
            assert(rest@.push(x) + rev@.reverse() =~= rest@ + rev@.push(x).reverse());
        }
        rev.push(x);
    }
    proof {
        assert(rev@.reverse() =~= all);
        assert(ms.take(0) =~= Seq::<MetaView>::empty());
        assert(frequency_views(frequencies@) + meta_frequencies(ms.take(0)) =~= frequency_views(frequencies@));
        assert(accent_views(accents@) + meta_accents(ms.take(0)) =~= accent_views(accents@));
    }
    let n = rev.len();
    while rev.len() > 0
        invariant
            n == all.len(),
            ms == all.map_values(|m: TermMeta| m@),
            rev@.len() <= n,
            all == all.take(n - rev@.len()) + rev@.reverse(),
            frequency_views(frequencies@) == frequency_views(old(frequencies)@) + meta_frequencies(ms.take(n - rev@.len())),
            accent_views(accents@) == accent_views(old(accents)@) + meta_accents(ms.take(n - rev@.len())),
        decreases rev.len(),
    {
        let ghost k = n - rev@.len();
        let item = rev.pop().unwrap();
        proof {
            assert(all.take(k) + seq![item] + rev@.reverse() =~= all.take(k) + rev@.push(item).reverse());
            assert(all[k] == item);
            assert(all == all.take(k + 1) + rev@.reverse());
            assert(ms.take(k + 1).drop_last() =~= ms.take(k));
            assert(ms.take(k + 1).last() == item@);
        }
        let ghost fb = frequency_views(frequencies@);
        let ghost ab = accent_views(accents@);
        match item {
            TermMeta::Frequency { word, reading, frequency, display } => {
                let ghost dv = opt_view(display);
                frequencies.push(Frequency { word, reading, frequency, display });
                proof {
                    assert(frequency_views(frequencies@) =~= fb.push((word@, reading@, frequency, dv)));
                    assert(meta_accents(ms.take(k + 1)) =~= meta_accents(ms.take(k)));
                }
            },
            TermMeta::PitchAccent { word, reading, pitches } => {
                let ghost positions = pitches@.map_values(|p: Pitch| p.position);
                let mut j: usize = 0;
                while j < pitches.len()
                    invariant
                        j <= pitches@.len(),
                        positions == pitches@.map_values(|p: Pitch| p.position),
                        accent_views(accents@) == ab + positions.take(j as int).map_values(|p: u32| (word@, reading@, p)),
                    decreases pitches.len() - j,
                {
                    let ghost before = accent_views(accents@);
                    accents.push(Accent { word: word.clone(), reading: reading.clone(), position: pitches[j].position });
                    proof {
                        assert(accent_views(accents@) =~= before.push((word@, reading@, pitches@[j as int].position)));
                        assert(positions.take(j + 1).map_values(|p: u32| (word@, reading@, p)) =~= positions.take(j as int).map_values(|p: u32| (word@, reading@, p)).push((word@, reading@, positions[j as int])));
                    }
                    j = j + 1;
                }
                proof {
                    assert(positions.take(j as int) =~= positions);
                    assert(meta_frequencies(ms.take(k + 1)) =~= meta_frequencies(ms.take(k)));
                }
            },
        }
    }
    proof {
        assert(ms.take(n as int) =~= ms);
    }
}

/// The text of a definition, images under `prefix`.
pub open spec fn definition_text(d: Definition, prefix: Seq<char>) -> Option<Seq<char>> {
    match d {
        Definition::Single(s) => Some(s@),
        Definition::Text(t) => Some(t.text@),
        Definition::Structured(s) => content_text(s.content, prefix),
    }
}

/// The image prefix: the given one, or none.
pub open spec fn prefix_of(p: Option<String>) -> Seq<char> {
    match p {
        Some(s) => s@,
        None => Seq::empty(),
    }
}

impl Definition {
    /// The text of the definition, images under `img_prefix`; `None` where
    /// structured content cannot be rendered.
    pub fn to_string(&self, img_prefix: &Option<String>) -> (r: Option<String>)
        ensures
            r matches Some(s) ==> definition_text(*self, prefix_of(*img_prefix)) == Some(s@),
            r is None ==> definition_text(*self, prefix_of(*img_prefix)) is None,
    {
        match self {
            Definition::Single(definition) => {
                let r = definition.clone();
                proof {
                    assert(definition_text(*self, prefix_of(*img_prefix)) == Some(r@));
                }
                Some(r)
            },
            Definition::Text(text) => {
                let r = text.text.clone();
                proof {
                    assert(definition_text(*self, prefix_of(*img_prefix)) == Some(r@));
                }
                Some(r)
            },
            Definition::Structured(structured) => {
                let mut data = String::new();
                let prefix: &str = match img_prefix {
                    Some(p) => p.as_str(),
                    None => {
                        proof {
                            reveal_strlit("");
                        }
                        ""
                    },
                };
                proof {
                    assert(prefix@ =~= prefix_of(*img_prefix));
                    assert(definition_text(*self, prefix_of(*img_prefix)) == content_text(structured.content, prefix@));
                }
                if extract_content(&structured.content, &mut data, prefix) {
                    proof {
                        assert(data@ =~= Seq::<char>::empty() + content_text(structured.content, prefix@)->0);
                    }
                    Some(data)
                } else {
                    None
                }
            },
        }
    }
}

/// The word of each term with the text of its first definition; `None`
/// where a term has no definition or its first one cannot be rendered.
pub open spec fn words_of(terms: Seq<Term>, prefix: Seq<char>) -> Option<Seq<(Seq<char>, Seq<char>, Seq<char>)>>
    decreases terms.len(),
{
    if terms.len() == 0 {
        Some(Seq::empty())
    } else {
        let t = terms.last();
        match words_of(terms.drop_last(), prefix) {
            None => None,
            Some(ws) => if t.definitions@.len() == 0 {
                None
            } else {
                match definition_text(t.definitions@[0], prefix) {
                    Some(d) => Some(ws.push((t.term@, t.reading@, d))),
                    None => None,
                }
            },
        }
    }
}

/// The plain values of dictionary words.
pub open spec fn word_views(v: Seq<DictionaryWord>) -> Seq<(Seq<char>, Seq<char>, Seq<char>)> {
    v.map_values(|w: DictionaryWord| (w.word@, w.reading@, w.definition@))
}

/// Once a prefix of the terms has no words, the terms have none.
pub proof fn lemma_words_none(terms: Seq<Term>, prefix: Seq<char>, k: int)
    requires
        0 <= k <= terms.len(),
        words_of(terms.take(k), prefix) is None,
    ensures
        words_of(terms, prefix) is None,
    decreases terms.len() - k,
{
    if k < terms.len() {
        assert(terms.take(k + 1).drop_last() =~= terms.take(k));
        lemma_words_none(terms, prefix, k + 1);
    } else {
        assert(terms.take(k) =~= terms);
    }
}

fn clone_opt(s: &Option<String>) -> (r: Option<String>)
    ensures
        opt_view(r) == opt_view(*s),
{
    match s {
        Some(v) => Some(v.clone()),
        None => None,
    }
}

impl Dictionary for YomitanDictionary {
    /// The title, description (empty when there is none) and languages of
    /// the index.
    fn info(&self) -> (r: DictionaryInfo)
        ensures
            r.title@ == self.index.title@,
            r.description@ == prefix_of(self.index.description),
            opt_view(r.source_language) == opt_view(self.index.source_language),
            opt_view(r.target_language) == opt_view(self.index.target_language),
    {
        DictionaryInfo {
            title: self.index.title.clone(),
            description: match &self.index.description {
                Some(d) => d.clone(),
                None => String::new(),
            },
            source_language: clone_opt(&self.index.source_language),
            target_language: clone_opt(&self.index.target_language),
        }
    }

    /// Each term with the text of its first definition; see `words_of`.
    fn words(&self, img_prefix: Option<String>) -> (r: Option<Vec<DictionaryWord>>)
        ensures
            r matches Some(v) ==> words_of(self.terms@, prefix_of(img_prefix)) == Some(word_views(v@)),
            r is None ==> words_of(self.terms@, prefix_of(img_prefix)) is None,
    {
        let ghost ts = self.terms@;
        let ghost prefix = prefix_of(img_prefix);
        let mut out: Vec<DictionaryWord> = Vec::new();
        let mut i: usize = 0;
        proof {
            assert(ts.take(0) =~= Seq::<Term>::empty());
            assert(word_views(out@) =~= Seq::<(Seq<char>, Seq<char>, Seq<char>)>::empty());
        }
        while i < self.terms.len()
            invariant
                ts == self.terms@,
                prefix == prefix_of(img_prefix),
                i <= ts.len(),
                words_of(ts.take(i as int), prefix) == Some(word_views(out@)),
            decreases self.terms.len() - i,
        {
            let ghost k = i as int;
            proof {
                assert(ts.take(k + 1).drop_last() =~= ts.take(k));
                assert(ts.take(k + 1).last() == ts[k]);
            }
            let term = &self.terms[i];
            if term.definitions.len() == 0 {
                proof {
                    lemma_words_none(ts, prefix, k + 1);
                }
                return None;
            }
            match term.definitions[0].to_string(&img_prefix) {
                None => {
                    proof {
                        lemma_words_none(ts, prefix, k + 1);
                    }
                    return None;
                },
                Some(definition) => {
                    let ghost before = word_views(out@);
                    out.push(DictionaryWord { word: term.term.clone(), reading: term.reading.clone(), definition });
                    proof {
                        assert(word_views(out@) =~= before.push((term.term@, term.reading@, definition_text(term.definitions@[0], prefix)->0)));
                    }
                },
            }
            i = i + 1;
        }
        proof {
            assert(ts.take(i as int) =~= ts);
        }
        Some(out)
    }

    /// The frequencies, as they are.
    fn frequencies(&self) -> (r: Vec<Frequency>)
        ensures
            frequency_views(r@) == frequency_views(self.frequencies@),
    {
        let mut out: Vec<Frequency> = Vec::new();
        let mut i: usize = 0;
        while i < self.frequencies.len()
            invariant
                i <= self.frequencies@.len(),
                frequency_views(out@) == frequency_views(self.frequencies@.take(i as int)),
            decreases self.frequencies.len() - i,
        {
            let f = &self.frequencies[i];
            let ghost before = frequency_views(out@);
            out.push(Frequency { word: f.word.clone(), reading: f.reading.clone(), frequency: f.frequency, display: clone_opt(&f.display) });
            proof {
                assert(self.frequencies@.take(i + 1) =~= self.frequencies@.take(i as int).push(*f));
                assert(frequency_views(out@) =~= before.push((f.word@, f.reading@, f.frequency, opt_view(f.display))));
                assert(frequency_views(out@) =~= frequency_views(self.frequencies@.take(i + 1)));
            }
            i = i + 1;
        }
        proof {
            assert(self.frequencies@.take(i as int) =~= self.frequencies@);
        }
        out
    }

    /// The accents, as they are.
    fn accents(&self) -> (r: Vec<Accent>)
        ensures
            accent_views(r@) == accent_views(self.accents@),
    {
        let mut out: Vec<Accent> = Vec::new();
        let mut i: usize = 0;
        while i < self.accents.len()
            invariant
                i <= self.accents@.len(),
                accent_views(out@) == accent_views(self.accents@.take(i as int)),
            decreases self.accents.len() - i,
        {
            let a = &self.accents[i];
            let ghost before = accent_views(out@);
            out.push(Accent { word: a.word.clone(), reading: a.reading.clone(), position: a.position });
            proof {
                assert(self.accents@.take(i + 1) =~= self.accents@.take(i as int).push(*a));
                assert(accent_views(out@) =~= before.push((a.word@, a.reading@, a.position)));
                assert(accent_views(out@) =~= accent_views(self.accents@.take(i + 1)));
            }
            i = i + 1;
        }
        proof {
            assert(self.accents@.take(i as int) =~= self.accents@);
        }
        out
    }
}

/// The extension of a path (`Path::extension`), as `std` computes it.
pub uninterp spec fn path_extension(path: Seq<char>) -> Option<Seq<char>>;

/// `Path::new(path).extension()`, as a string.
#[verifier::external_body]
fn extension_of(path: &str) -> (r: Option<String>)
    ensures
        r matches Some(e) ==> path_extension(path@) == Some(e@),
        r is None ==> path_extension(path@) is None,
{
    std::path::Path::new(path).extension().map(|e| e.to_string_lossy().into_owned())
}

/// Whether the last components of a path are `child` (`Path::ends_with`).
pub uninterp spec fn path_ends_with(path: Seq<char>, child: Seq<char>) -> bool;

/// `Path::new(path).ends_with(child)`.
#[verifier::external_body]
fn ends_with_component(path: &str, child: &str) -> (r: bool)
    ensures
        r == path_ends_with(path@, child@),
{
    std::path::Path::new(path).ends_with(child)
}

/// Where a Yomitan dictionary is read from.
#[derive(Debug, Clone, Copy, PartialEq, Eq, Structural)]
pub enum DictionarySource {
    /// A dictionary archive.
    Zip,
    /// An unpacked dictionary, by its index file.
    Index,
    /// Not a Yomitan dictionary.
    Unknown,
}

/// Where the dictionary at `path` is read from: an archive for a `zip`
/// file, its index for an `index.json` file, nothing else.
pub open spec fn source_of(path: Seq<char>, is_file: bool) -> DictionarySource {
    if !is_file {
        DictionarySource::Unknown
    } else if path_extension(path) == Some("zip"@) {
        DictionarySource::Zip
    } else if path_ends_with(path, "index.json"@) {
        DictionarySource::Index
    } else {
        DictionarySource::Unknown
    }
}

impl YomitanDictionary {
    /// Where the dictionary at `path` (a file when `is_file`) is read from;
    /// see `source_of`. An unpacked dictionary is not read yet.
    pub fn try_from_path(path: &str, is_file: bool) -> (r: DictionarySource)
        ensures
            r == source_of(path@, is_file),
    {
        if !is_file {
            return DictionarySource::Unknown;
        }
        let is_zip = match extension_of(path) {
            Some(e) => crate::text::str_eq(e.as_str(), "zip"),
            None => false,
        };
        if is_zip {
            return DictionarySource::Zip;
        }
        if ends_with_component(path, "index.json") {
            return DictionarySource::Index;
        }
        DictionarySource::Unknown
    }
}

} // verus!
