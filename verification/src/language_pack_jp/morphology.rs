//! A line split into the morphemes that UniDic tags in it, each placed
//! back where it occurs, with the text between them kept as raw pieces.
use vstd::prelude::*;
use crate::text::{chars_eq, chars_of, split_chars, split_on, string_of, views};
use crate::language_pack_jp::segment::{bos_text, eos_text, literal_chars, unk_text};

verus! {

/// The full UniDic tagging of a morpheme.
#[derive(Debug, Clone)]
pub struct Feature {
    /// Part of speech field 1 -- most general.
    pub pos1: String,
    /// Part of speech field 2.
    pub pos2: String,
    /// Part of speech field 3.
    pub pos3: String,
    /// Part of speech field 4 -- most specific.
    pub pos4: String,
    /// Conjugation type, a value like 五段-ラ行.
    pub c_type: String,
    /// Conjugation shape, a value like 連用形-促音便.
    pub c_form: String,
    /// Lemma reading in katakana.
    pub l_form: String,
    /// The non-inflected dictionary form.
    pub lemma: String,
    /// The word as it appears in the text.
    pub orth: String,
    /// Pronunciation, with long vowels written as ー.
    pub pron: String,
    /// The uninflected form in its current written form.
    pub orth_base: String,
    /// Pronunciation of the base form.
    pub pron_base: String,
    /// Word type: the etymological category.
    pub goshu: String,
    /// Initial transformation type.
    pub i_type: String,
    /// Initial form in context.
    pub i_form: String,
    /// Final transformation type.
    pub f_type: String,
    /// Final form in context.
    pub f_form: String,
    /// Initial change fusion type.
    pub i_con_type: String,
    /// Final change fusion type.
    pub f_con_type: String,
    /// Type, overlapping with the part of speech.
    pub kind: String,
    /// The usual kana reading.
    pub kana: String,
    /// The usual kana reading of the lemma.
    pub kana_base: String,
    /// Word form as it appears.
    pub form: String,
    /// Word form of the base.
    pub form_base: String,
    /// Accent type.
    pub a_type: String,
    /// Accent shift in counter expressions.
    pub a_con_type: String,
    /// Accent modification type.
    pub a_mod_type: String,
}

/// A tagged morpheme: the text it covers and its tagging.
#[derive(Debug, Clone)]
pub struct Word {
    /// The morpheme as it occurs in the input.
    pub surface: String,
    /// Its UniDic tagging.
    pub feature: Feature,
}

/// A piece of a line: text the tagger left untagged, or a tagged morpheme.
#[derive(Debug, Clone)]
pub enum Segment {
    Raw(String),
    Tagged(Word),
}

/// The twenty-seven tagging fields, in the tagger's order.
pub open spec fn unidic_fields(f: Feature) -> Seq<Seq<char>> {
    seq![
        f.pos1@, f.pos2@, f.pos3@, f.pos4@, f.c_type@, f.c_form@, f.l_form@, f.lemma@, f.orth@,
        f.pron@, f.orth_base@, f.pron_base@, f.goshu@, f.i_type@, f.i_form@, f.f_type@, f.f_form@,
        f.i_con_type@, f.f_con_type@, f.kind@, f.kana@, f.kana_base@, f.form@, f.form_base@,
        f.a_type@, f.a_con_type@, f.a_mod_type@,
    ]
}

impl Word {
    /// The surface followed by the twenty-seven tagging fields.
    pub open spec fn fields(&self) -> Seq<Seq<char>> {
        seq![self.surface@] + unidic_fields(self.feature)
    }
}

/// What a segment holds: raw text, or the fields of a tagged morpheme.
pub enum SegmentView {
    Raw(Seq<char>),
    Tagged(Seq<Seq<char>>),
}

impl View for Segment {
    type V = SegmentView;

    open spec fn view(&self) -> SegmentView {
        match self {
            Segment::Raw(t) => SegmentView::Raw(t@),
            Segment::Tagged(w) => SegmentView::Tagged(w.fields()),
        }
    }
}

/// The twenty-eight comma-separated fields of a tagged line; missing ones
/// are empty and any beyond are dropped.
pub open spec fn word_fields(line: Seq<char>) -> Seq<Seq<char>> {
    let parts = split_on(line, ',');
    Seq::new(28, |i: int| if i < parts.len() { parts[i] } else { Seq::<char>::empty() })
}

/// Lines that hold no morpheme: empty ones, `UNK` and the sentence markers.
pub open spec fn is_marker_line(line: Seq<char>) -> bool {
    line.len() == 0 || line == unk_text() || line == eos_text() || line == bos_text()
}

/// The fields of the morphemes that the lines `lines` hold, in order.
pub open spec fn lines_words(lines: Seq<Seq<char>>) -> Seq<Seq<Seq<char>>>
    decreases lines.len(),
{
    if lines.len() == 0 {
        Seq::empty()
    } else if is_marker_line(lines[0]) {
        lines_words(lines.skip(1))
    } else {
        seq![word_fields(lines[0])] + lines_words(lines.skip(1))
    }
}

/// The fields of the morphemes in the tagger's output, one per line.
pub open spec fn tagged_words(output: Seq<char>) -> Seq<Seq<Seq<char>>> {
    lines_words(split_on(output, '\n'))
}

/// The first place at or after `from` where the non-empty text `s` occurs
/// in `line`.
pub open spec fn first_match(line: Seq<char>, s: Seq<char>, from: int) -> Option<int>
    decreases line.len() - from,
{
    if s.len() == 0 || from < 0 || from + s.len() > line.len() {
        None
    } else if line.subrange(from, from + s.len()) == s {
        Some(from)
    } else {
        first_match(line, s, from + 1)
    }
}

/// The raw piece of `line` between `idx` and `i`, if there is one.
pub open spec fn gap(line: Seq<char>, idx: int, i: int) -> Seq<SegmentView> {
    if i == idx {
        Seq::empty()
    } else {
        seq![SegmentView::Raw(line.subrange(idx, i))]
    }
}

/// The morphemes `words` from the `k`-th on, each placed at its first
/// occurrence after the previous one (from `idx`), with the text skipped
/// before each kept raw; nothing where one does not occur.
pub open spec fn aligned(line: Seq<char>, words: Seq<Seq<Seq<char>>>, k: int, idx: int) -> Option<Seq<SegmentView>>
    decreases words.len() - k,
{
    if k < 0 || k >= words.len() {
        Some(Seq::empty())
    } else {
        match first_match(line, words[k][0], idx) {
            None => None,
            Some(i) => match aligned(line, words, k + 1, i + words[k][0].len()) {
                None => None,
                Some(rest) => Some(gap(line, idx, i) + seq![SegmentView::Tagged(words[k])] + rest),
            },
        }
    }
}

/// `p` before the pieces of `o`, where there are any.
pub open spec fn prefixed(p: Seq<SegmentView>, o: Option<Seq<SegmentView>>) -> Option<Seq<SegmentView>> {
    match o {
        Some(x) => Some(p + x),
        None => None,
    }
}

proof fn lemma_first_match(line: Seq<char>, s: Seq<char>, from: int)
    ensures
        first_match(line, s, from) matches Some(i) ==> from <= i && i + s.len() <= line.len()
            && s.len() > 0 && line.subrange(i, i + s.len()) == s,
    decreases line.len() - from,
{
    if !(s.len() == 0 || from < 0 || from + s.len() > line.len()) && line.subrange(from, from + s.len()) != s {
        lemma_first_match(line, s, from + 1);
    }
}

/// The text a piece covers: raw text, or the surface of a morpheme.
pub open spec fn piece_text(p: SegmentView) -> Seq<char> {
    match p {
        SegmentView::Raw(t) => t,
        SegmentView::Tagged(f) => f[0],
    }
}

/// The texts of the pieces `ps`, joined.
pub open spec fn pieces_text(ps: Seq<SegmentView>) -> Seq<char>
    decreases ps.len(),
{
    if ps.len() == 0 {
        Seq::empty()
    } else {
        piece_text(ps[0]) + pieces_text(ps.skip(1))
    }
}

/// How many of the pieces `ps` are tagged morphemes.
pub open spec fn tagged_count(ps: Seq<SegmentView>) -> nat
    decreases ps.len(),
{
    if ps.len() == 0 {
        0
    } else {
        (if ps[0] is Tagged { 1nat } else { 0nat }) + tagged_count(ps.skip(1))
    }
}

proof fn lemma_pieces_concat(a: Seq<SegmentView>, b: Seq<SegmentView>)
    ensures
        pieces_text(a + b) == pieces_text(a) + pieces_text(b),
        tagged_count(a + b) == tagged_count(a) + tagged_count(b),
    decreases a.len(),
{
    if a.len() == 0 {
        assert(a + b =~= b);
        assert(pieces_text(a) + pieces_text(b) =~= pieces_text(b));
    } else {
        lemma_pieces_concat(a.skip(1), b);
        assert((a + b).skip(1) =~= a.skip(1) + b);
        assert((a + b)[0] == a[0]);
        assert(piece_text(a[0]) + (pieces_text(a.skip(1)) + pieces_text(b)) =~= (piece_text(a[0]) + pieces_text(a.skip(1))) + pieces_text(b));
    }
}

proof fn lemma_single_piece(p: SegmentView)
    ensures
        pieces_text(seq![p]) == piece_text(p),
        tagged_count(seq![p]) == (if p is Tagged { 1nat } else { 0nat }),
{
    let e = Seq::<SegmentView>::empty();
    assert(seq![p].skip(1) =~= e);
    assert(seq![p][0] == p);
    assert(pieces_text(e) == Seq::<char>::empty());
    assert(tagged_count(e) == 0);
    assert(piece_text(p) + Seq::<char>::empty() =~= piece_text(p));
}

/// Placing the morphemes keeps the line: the pieces, joined, are the line
/// from where placing began up to the end of the last morpheme, and every
/// morpheme is placed, in order, once.
pub proof fn lemma_segments_rebuild_line(line: Seq<char>, words: Seq<Seq<Seq<char>>>, k: int, idx: int)
    requires
        0 <= k <= words.len(),
        0 <= idx <= line.len(),
        aligned(line, words, k, idx) is Some,
    ensures
        ({
            let ps = aligned(line, words, k, idx)->0;
            &&& idx + pieces_text(ps).len() <= line.len()
            &&& line.subrange(idx, idx + pieces_text(ps).len()) == pieces_text(ps)
            &&& tagged_count(ps) == words.len() - k
        }),
    decreases words.len() - k,
{
    let ps = aligned(line, words, k, idx)->0;
    if k == words.len() {
        assert(line.subrange(idx, idx) =~= Seq::<char>::empty());
    } else {
        let s = words[k][0];
        lemma_first_match(line, s, idx);
        let i = first_match(line, s, idx)->0;
        let rest = aligned(line, words, k + 1, i + s.len())->0;
        lemma_segments_rebuild_line(line, words, k + 1, i + s.len());
        let g = gap(line, idx, i);
        let t = seq![SegmentView::Tagged(words[k])];
        lemma_pieces_concat(g + t, rest);
        lemma_pieces_concat(g, t);
        lemma_single_piece(SegmentView::Tagged(words[k]));
        if i == idx {
            assert(pieces_text(g) =~= Seq::<char>::empty());
            assert(tagged_count(g) == 0);
        } else {
            lemma_single_piece(SegmentView::Raw(line.subrange(idx, i)));
        }
        assert(pieces_text(g) =~= line.subrange(idx, i));
        let tr = pieces_text(rest);
        assert(line.subrange(idx, i + s.len() + tr.len()) =~= line.subrange(idx, i) + s + tr);
        assert(pieces_text(ps) =~= line.subrange(idx, i) + s + tr);
    }
}

fn matches_at(line: &Vec<char>, s: &Vec<char>, i: usize) -> (r: bool)
    requires
        i + s.len() <= line.len(),
    ensures
        r == (line@.subrange(i as int, i + s.len()) == s@),
{
    let mut j: usize = 0;
    while j < s.len()
        invariant
            i + s.len() <= line.len(),
            j <= s.len(),
            forall|t: int| 0 <= t < j ==> line@[i + t] == s@[t],
        decreases s.len() - j,
    {
        if line[i + j] != s[j] {
            proof {
                assert(line@.subrange(i as int, i + s.len())[j as int] != s@[j as int]);
            }
            return false;
        }
        j = j + 1;
    }
    proof {
        assert(line@.subrange(i as int, i + s.len()) =~= s@);
    }
    true
}

fn find_from(line: &Vec<char>, s: &Vec<char>, from: usize) -> (r: Option<usize>)
    requires
        from <= line.len(),
    ensures
        r matches Some(i) ==> first_match(line@, s@, from as int) == Some(i as int),
        r is None ==> first_match(line@, s@, from as int) is None,
{
    if s.len() == 0 || s.len() > line.len() {
        return None;
    }
    let mut i: usize = from;
    while i <= line.len() - s.len()
        invariant
            s.len() > 0,
            s.len() <= line.len(),
            from <= i <= line.len(),
            first_match(line@, s@, from as int) == first_match(line@, s@, i as int),
        decreases line.len() - i,
    {
        if matches_at(line, s, i) {
            return Some(i);
        }
        i = i + 1;
    }
    None
}

fn sub_string(line: &Vec<char>, a: usize, b: usize) -> (r: String)
    requires
        a <= b <= line.len(),
    ensures
        r@ == line@.subrange(a as int, b as int),
{
    let mut v: Vec<char> = Vec::new();
    let mut i: usize = a;
    while i < b
        invariant
            a <= i <= b <= line.len(),
            v@ == line@.subrange(a as int, i as int),
        decreases b - i,
    {
        v.push(line[i]);
        i = i + 1;
        proof {
            assert(v@ =~= line@.subrange(a as int, i as int));
        }
    }
    string_of(&v)
}

fn read_word(line: &Vec<char>) -> (r: Word)
    ensures
        r.fields() == word_fields(line@),
{
    let parts = split_chars(line, ',');
    let ghost want = word_fields(line@);
    let mut fields: Vec<String> = Vec::new();
    let mut k: usize = 0;
    while k < 28
        invariant
            k <= 28,
            want == word_fields(line@),
            views(parts@) == split_on(line@, ','),
            fields@.len() == k,
            forall|j: int| 0 <= j < k ==> (#[trigger] fields@[j])@ == want[j],
        decreases 28 - k,
    {
        if k < parts.len() {
            fields.push(string_of(&parts[k]));
        } else {
            fields.push(String::new());
        }
        k = k + 1;
    }
    let a_mod_type = fields.pop().unwrap();
    let a_con_type = fields.pop().unwrap();
    let a_type = fields.pop().unwrap();
    let form_base = fields.pop().unwrap();
    let form = fields.pop().unwrap();
    let kana_base = fields.pop().unwrap();
    let kana = fields.pop().unwrap();
    let kind = fields.pop().unwrap();
    let f_con_type = fields.pop().unwrap();
    let i_con_type = fields.pop().unwrap();
    let f_form = fields.pop().unwrap();
    let f_type = fields.pop().unwrap();
    let i_form = fields.pop().unwrap();
    let i_type = fields.pop().unwrap();
    let goshu = fields.pop().unwrap();
    let pron_base = fields.pop().unwrap();
    let orth_base = fields.pop().unwrap();
    let pron = fields.pop().unwrap();
    let orth = fields.pop().unwrap();
    let lemma = fields.pop().unwrap();
    let l_form = fields.pop().unwrap();
    let c_form = fields.pop().unwrap();
    let c_type = fields.pop().unwrap();
    let pos4 = fields.pop().unwrap();
    let pos3 = fields.pop().unwrap();
    let pos2 = fields.pop().unwrap();
    let pos1 = fields.pop().unwrap();
    let surface = fields.pop().unwrap();
    let r = Word {
        surface,
        feature: Feature {
            pos1, pos2, pos3, pos4, c_type, c_form, l_form, lemma, orth, pron, orth_base, pron_base,
            goshu, i_type, i_form, f_type, f_form, i_con_type, f_con_type, kind, kana, kana_base,
            form, form_base, a_type, a_con_type, a_mod_type,
        },
    };
    proof {
        assert(r.fields() =~= want);
    }
    r
}

/// Reads the morphemes out of the tagger's output: one per line, skipping
/// empty lines, `UNK` and the sentence markers `BOS` and `EOS`; each other
/// line holds the comma-separated surface and tagging fields.
pub fn read_words(output: &str) -> (r: Vec<Word>)
    ensures
        r@.len() == tagged_words(output@).len(),
        forall|j: int| 0 <= j < r@.len() ==> (#[trigger] r@[j]).fields() == tagged_words(output@)[j],
{
    let chars = chars_of(output);
    let lines = split_chars(&chars, '\n');
    let bos = literal_chars('B', 'O', 'S');
    let eos = literal_chars('E', 'O', 'S');
    let unk = literal_chars('U', 'N', 'K');
    let ghost all = split_on(output@, '\n');
    let mut result: Vec<Word> = Vec::new();
    let mut i: usize = 0;
    proof {
        assert(all.skip(0) =~= all);
        assert(result@.map_values(|w: Word| w.fields()) =~= Seq::<Seq<Seq<char>>>::empty());
    }
    while i < lines.len()
        invariant
            i <= lines.len(),
            views(lines@) == all,
            bos@ == bos_text(),
            eos@ == eos_text(),
            unk@ == unk_text(),
            result@.map_values(|w: Word| w.fields()) + lines_words(all.skip(i as int)) == lines_words(all),
        decreases lines.len() - i,
    {
        let line = &lines[i];
        let ghost rest = all.skip(i as int);
        proof {
            assert(rest[0] == line@);
            assert(rest.skip(1) =~= all.skip(i + 1));
        }
        let ghost before = result@.map_values(|w: Word| w.fields());
        if line.len() == 0 || chars_eq(line, &unk) || chars_eq(line, &eos) || chars_eq(line, &bos) {
            // no morpheme on this line
        } else {
            let w = read_word(line);
            result.push(w);
            proof {
                assert(result@.map_values(|w: Word| w.fields()) =~= before.push(word_fields(line@)));
            }
        }
        i = i + 1;
    }
    proof {
        assert(all.skip(i as int) =~= Seq::<Seq<char>>::empty());
        let m = result@.map_values(|w: Word| w.fields());
        assert(m + Seq::<Seq<Seq<char>>>::empty() =~= m);
        assert forall|j: int| 0 <= j < result@.len() implies (#[trigger] result@[j]).fields() == tagged_words(output@)[j] by {
            assert(m[j] == result@[j].fields());
        }
    }
    result
}

/// Places the morphemes that the tagger found in `line` (its output is
/// `tagger_output`) back into the line: each one at its first occurrence
/// after the previous, the skipped text before it as a raw piece. Text
/// after the last morpheme is not kept. `None` where a morpheme is empty
/// or does not occur in what is left of the line.
pub fn segment_text(line: &str, tagger_output: &str) -> (r: Option<Vec<Segment>>)
    ensures
        r matches Some(v) ==> aligned(line@, tagged_words(tagger_output@), 0, 0) == Some(v@.map_values(|s: Segment| s@)),
        r is None ==> aligned(line@, tagged_words(tagger_output@), 0, 0) is None,
{
    let lchars = chars_of(line);
    let mut words = read_words(tagger_output);
    let ghost all = tagged_words(tagger_output@);
    let n: usize = words.len();
    let mut result: Vec<Segment> = Vec::new();
    let mut idx: usize = 0;
    let mut k: usize = 0;
    proof {
        assert(result@.map_values(|s: Segment| s@) =~= Seq::<SegmentView>::empty());
        assert(Seq::<SegmentView>::empty() + aligned(line@, all, 0, 0)->0 =~= aligned(line@, all, 0, 0)->0);
    }
    while k < n
        invariant
            all == tagged_words(tagger_output@),
            n == all.len(),
            k <= n,
            lchars@ == line@,
            idx <= lchars.len(),
            words@.len() == n - k,
            forall|j: int| 0 <= j < n - k ==> (#[trigger] words@[j]).fields() == all[k + j],
            all.len() == n,
            aligned(line@, all, 0, 0) == prefixed(result@.map_values(|s: Segment| s@), aligned(line@, all, k as int, idx as int)),
        decreases n - k,
    {
        let ghost before = result@.map_values(|s: Segment| s@);
        let ghost old_words = words@;
        let w = words.remove(0);
        proof {
            assert(w.fields() == all[k as int]);
            assert forall|j: int| 0 <= j < n - (k + 1) implies (#[trigger] words@[j]).fields() == all[k + 1 + j] by {
                assert(words@[j] == old_words[j + 1]);
            }
        }
        let s = chars_of(w.surface.as_str());
        proof {
            assert(s@ == all[k as int][0]);
        }
        match find_from(&lchars, &s, idx) {
            None => {
                proof {
                    assert(aligned(line@, all, k as int, idx as int) is None);
                }
                return None;
            },
            Some(i) => {
                proof {
                    lemma_first_match(line@, s@, idx as int);
                }
                let ghost tail = aligned(line@, all, k + 1, i + s@.len());
                if i != idx {
                    let raw = sub_string(&lchars, idx, i);
                    result.push(Segment::Raw(raw));
                }
                result.push(Segment::Tagged(w));
                proof {
                    let g = gap(line@, idx as int, i as int);
                    assert(result@.map_values(|s: Segment| s@) =~= before + g + seq![SegmentView::Tagged(all[k as int])]);
                    match tail {
                        Some(x) => {
                            assert(before + (g + seq![SegmentView::Tagged(all[k as int])] + x) =~= (before + g + seq![SegmentView::Tagged(all[k as int])]) + x);
                        },
                        None => {},
                    }
                }
                idx = i + s.len();
                k = k + 1;
            },
        }
    }
    proof {
        let v = result@.map_values(|s: Segment| s@);
        assert(v + Seq::<SegmentView>::empty() =~= v);
    }
    Some(result)
}

} // verus!
