//! Morphemes read from the output of a morphological tagger.
use vstd::prelude::*;
use crate::language_pack::segment::IsSegment;
use crate::text::{chars_eq, chars_of, split_chars, split_on, string_of, views};

verus! {

/// The tagging information of a morpheme, as UniDic gives it.
#[derive(Debug)]
pub struct Feature {
    /// Part of speech field 1 -- most general.
    pub pos1: String,
    /// Part of speech field 2.
    pub pos2: String,
    /// Part of speech field 3.
    pub pos3: String,
    /// Part of speech field 4 -- most specific.
    pub pos4: String,
    /// Conjugation type, a value like 五段-ラ行.
    pub c_type: String,
    /// Conjugation shape, a value like 連用形-促音便.
    pub c_form: String,
    /// Lemma reading in katakana.
    pub l_form: String,
    /// The non-inflected dictionary form.
    pub lemma: String,
    /// The word as it appears in the text.
    pub orth: String,
    /// The uninflected form in its current written form.
    pub orth_base: String,
}

/// A tagged morpheme: its surface text and its features.
#[derive(Debug)]
pub struct TaggedMorpheme {
    surface: String,
    feature: Feature,
}

/// A morpheme that the tagger either knew or did not.
#[derive(Debug)]
pub enum Morpheme {
    Unk,
    Tagged(TaggedMorpheme),
}

/// The eleven fields of a tagged morpheme: surface, pos1 to pos4, c_type,
/// c_form, l_form, lemma, orth, orth_base.
pub open spec fn feature_fields(f: Feature) -> Seq<Seq<char>> {
    seq![f.pos1@, f.pos2@, f.pos3@, f.pos4@, f.c_type@, f.c_form@, f.l_form@, f.lemma@, f.orth@, f.orth_base@]
}

impl TaggedMorpheme {
    /// The surface text followed by the ten feature fields.
    pub closed spec fn fields(&self) -> Seq<Seq<char>> {
        seq![self.surface@] + feature_fields(self.feature)
    }

    /// The morpheme as it appears in the text.
    pub fn surface(&self) -> (r: &str)
        ensures
            r@ == self.fields()[0],
    {
        self.surface.as_str()
    }

    /// The tagging information.
    pub fn feature(&self) -> (r: &Feature)
        ensures
            seq![self.fields()[0]] + feature_fields(*r) == self.fields(),
    {
        proof {
            assert(seq![self.fields()[0]] + feature_fields(self.feature) =~= self.fields());
        }
        &self.feature
    }
}

impl View for Morpheme {
    /// `None` for an unknown morpheme, else its eleven fields.
    type V = Option<Seq<Seq<char>>>;

    open spec fn view(&self) -> Option<Seq<Seq<char>>> {
        match self {
            Morpheme::Unk => None,
            Morpheme::Tagged(t) => Some(t.fields()),
        }
    }
}

/// The text `UNK`.
pub open spec fn unk_text() -> Seq<char> {
    seq!['U', 'N', 'K']
}

/// The field at `i` of a morpheme, or `UNK` for an unknown one.
pub open spec fn field_or_unk(m: Option<Seq<Seq<char>>>, i: int) -> Seq<char> {
    match m {
        None => unk_text(),
        Some(f) => f[i],
    }
}

/// The orthographic bases that are taken to be the same word.
pub open spec fn orth_alias(base: Seq<char>) -> Option<Seq<char>> {
    if base == seq!['\u{308F}', '\u{305F}', '\u{3057}'] {
        Some(seq!['\u{79C1}'])
    } else {
        None
    }
}

/// Whether two morphemes stand for the same word: two tagged ones with the
/// same lemma reading or orthographic base (or bases known to be the same
/// word); otherwise, whether both are unknown or both tagged.
pub open spec fn same_morpheme(a: Option<Seq<Seq<char>>>, b: Option<Seq<Seq<char>>>) -> bool {
    match (a, b) {
        (Some(x), Some(y)) => x[7] == y[7] || x[10] == y[10] || orth_alias(x[10]) == Some(y[10])
            || orth_alias(y[10]) == Some(x[10]),
        (None, None) => true,
        _ => false,
    }
}

fn orth_alias_exec(base: &str) -> (r: Option<Vec<char>>)
    ensures
        r matches Some(v) ==> orth_alias(base@) == Some(v@),
        r is None ==> orth_alias(base@) is None,
{
    let b = chars_of(base);
    let mut key: Vec<char> = Vec::new();
    key.push('\u{308F}');
    key.push('\u{305F}');
    key.push('\u{3057}');
    proof {
        assert(key@ =~= seq!['\u{308F}', '\u{305F}', '\u{3057}']);
    }
    if chars_eq(&b, &key) {
        let mut v: Vec<char> = Vec::new();
        v.push('\u{79C1}');
        proof {
            assert(v@ =~= seq!['\u{79C1}']);
        }
        Some(v)
    } else {
        None
    }
}

impl Morpheme {
    /// The lemma reading (katakana), or `UNK`.
    pub fn to_kata(&self) -> (r: &str)
        ensures
            r@ == field_or_unk(self@, 7),
    {
        match self {
            Morpheme::Unk => {
                proof {
                    reveal_strlit("UNK");
                }
                "UNK"
            },
            Morpheme::Tagged(tag) => tag.feature.l_form.as_str(),
        }
    }

    /// The most general part of speech, or `UNK`.
    pub fn pos(&self) -> (r: &str)
        ensures
            r@ == field_or_unk(self@, 1),
    {
        match self {
            Morpheme::Unk => {
                proof {
                    reveal_strlit("UNK");
                }
                "UNK"
            },
            Morpheme::Tagged(tag) => tag.feature.pos1.as_str(),
        }
    }

    /// The second part-of-speech field, or `UNK`.
    pub fn pos2(&self) -> (r: &str)
        ensures
            r@ == field_or_unk(self@, 2),
    {
        match self {
            Morpheme::Unk => {
                proof {
                    reveal_strlit("UNK");
                }
                "UNK"
            },
            Morpheme::Tagged(tag) => tag.feature.pos2.as_str(),
        }
    }

    /// The morpheme as text: its surface, or `UNK`.
    pub fn to_string(&self) -> (r: String)
        ensures
            r@ == field_or_unk(self@, 0),
    {
        match self {
            Morpheme::Unk => {
                proof {
                    reveal_strlit("UNK");
                }
                "UNK".to_owned()
            },
            Morpheme::Tagged(tag) => tag.surface.clone(),
        }
    }

    /// All the tagging information as text, or `UNK`.
    pub fn to_full(&self) -> (r: String)
        ensures
            self@ is None ==> r@ == unk_text(),
            self@ matches Some(f) ==> r@ == feature_text(f.subrange(1, 11)),
    {
        match self {
            Morpheme::Unk => {
                proof {
                    reveal_strlit("UNK");
                }
                "UNK".to_owned()
            },
            Morpheme::Tagged(tag) => {
                proof {
                    assert(feature_fields(tag.feature) =~= tag.fields().subrange(1, 11));
                }
                feature_debug_text(&tag.feature)
            },
        }
    }
}

/// `s` written as a Rust string literal, as `Debug` for `str` writes it:
/// in double quotes, with quotes, backslashes and some characters escaped.
pub uninterp spec fn str_debug(s: Seq<char>) -> Seq<char>;

/// `format!("{:?}", s)`: `Debug` for `str`.
#[verifier::external_body]
fn debug_str(s: &str) -> (r: String)
    ensures
        r@ == str_debug(s@),
{
    format!("{:?}", s)
}

/// One field of a pretty-printed struct: indented, named, its value as a
/// string literal, and a trailing comma.
pub open spec fn field_line(name: Seq<char>, value: Seq<char>) -> Seq<char> {
    "    "@ + name + ": "@ + str_debug(value) + ",\n"@
}

/// The pretty-printed text of a feature with the given ten fields, as the
/// derived `Debug` writes it with `{:#?}`: the type name, one line per
/// field in declaration order, and the closing brace.
pub open spec fn feature_text(fields: Seq<Seq<char>>) -> Seq<char> {
    "Feature {\n"@ + field_line("pos1"@, fields[0]) + field_line("pos2"@, fields[1]) + field_line("pos3"@, fields[2]) + field_line("pos4"@, fields[3]) + field_line("c_type"@, fields[4]) + field_line("c_form"@, fields[5]) + field_line("l_form"@, fields[6]) + field_line("lemma"@, fields[7]) + field_line("orth"@, fields[8]) + field_line("orth_base"@, fields[9]) + "}"@
}

fn push_field(out: &mut String, name: &str, value: &str)
    ensures
        final(out)@ == old(out)@ + field_line(name@, value@),
{
    out.append("    ");
    out.append(name);
    out.append(": ");
    let v = debug_str(value);
    out.append(v.as_str());
    out.append(",\n");
}

/// The pretty-printed text of a feature (`format!("{:#?}", feature)`).
fn feature_debug_text(feature: &Feature) -> (r: String)
    ensures
        r@ == feature_text(feature_fields(*feature)),
{
    let mut out = String::new();
    out.append("Feature {\n");
    push_field(&mut out, "pos1", feature.pos1.as_str());
    push_field(&mut out, "pos2", feature.pos2.as_str());
    push_field(&mut out, "pos3", feature.pos3.as_str());
    push_field(&mut out, "pos4", feature.pos4.as_str());
    push_field(&mut out, "c_type", feature.c_type.as_str());
    push_field(&mut out, "c_form", feature.c_form.as_str());
    push_field(&mut out, "l_form", feature.l_form.as_str());
    push_field(&mut out, "lemma", feature.lemma.as_str());
    push_field(&mut out, "orth", feature.orth.as_str());
    push_field(&mut out, "orth_base", feature.orth_base.as_str());
    out.append("}");
    proof {
        let f = feature_fields(*feature);
        assert(out@ =~= feature_text(f));
    }
    out
}

impl IsSegment for Morpheme {
    /// The surface text of a tagged morpheme, or `UNK`.
    fn text(&self) -> (r: &str)
        ensures
            r@ == field_or_unk(self@, 0),
    {
        match self {
            Morpheme::Unk => {
                proof {
                    reveal_strlit("UNK");
                }
                "UNK"
            },
            Morpheme::Tagged(tag) => tag.surface.as_str(),
        }
    }
}

impl PartialEq for Morpheme {
    fn eq(&self, other: &Self) -> (r: bool) {
        match (self, other) {
            (Morpheme::Tagged(l0), Morpheme::Tagged(r0)) => {
                if l0.feature.l_form == r0.feature.l_form || l0.feature.orth_base == r0.feature.orth_base {
                    return true;
                }
                let left = orth_alias_exec(l0.feature.orth_base.as_str());
                let right = orth_alias_exec(r0.feature.orth_base.as_str());
                let rb = chars_of(r0.feature.orth_base.as_str());
                let lb = chars_of(l0.feature.orth_base.as_str());
                let a = match left {
                    Some(v) => chars_eq(&v, &rb),
                    None => false,
                };
                let b = match right {
                    Some(v) => chars_eq(&v, &lb),
                    None => false,
                };
                a || b
            },
            (Morpheme::Unk, Morpheme::Unk) => true,
            _ => false,
        }
    }
}

impl vstd::std_specs::cmp::PartialEqSpecImpl for Morpheme {
    open spec fn obeys_eq_spec() -> bool {
        true
    }

    open spec fn eq_spec(&self, other: &Morpheme) -> bool {
        same_morpheme(self@, other@)
    }
}

/// The text `BOS`.
pub open spec fn bos_text() -> Seq<char> {
    seq!['B', 'O', 'S']
}

/// The text `EOS`.
pub open spec fn eos_text() -> Seq<char> {
    seq!['E', 'O', 'S']
}

/// `parts` followed by empty fields up to eleven.
pub open spec fn pad_fields(parts: Seq<Seq<char>>) -> Seq<Seq<char>> {
    parts + Seq::new((11 - parts.len()) as nat, |_i: int| Seq::<char>::empty())
}

/// What one line of tagger output holds: nothing for an empty line or the
/// sentence markers, an unknown morpheme for `UNK`, else the comma-separated
/// fields of a tagged morpheme.
pub open spec fn line_morpheme(line: Seq<char>) -> Option<Option<Seq<Seq<char>>>> {
    if line.len() == 0 || line == bos_text() || line == eos_text() {
        None
    } else if line == unk_text() {
        Some(None)
    } else {
        Some(Some(pad_fields(split_on(line, ','))))
    }
}

/// The morphemes that the lines `lines` hold, in order.
pub open spec fn lines_morphemes(lines: Seq<Seq<char>>) -> Seq<Option<Seq<Seq<char>>>>
    decreases lines.len(),
{
    if lines.len() == 0 {
        Seq::empty()
    } else {
        match line_morpheme(lines[0]) {
            Some(m) => seq![m] + lines_morphemes(lines.skip(1)),
            None => lines_morphemes(lines.skip(1)),
        }
    }
}

/// The complete (newline-terminated) lines of `output`.
pub open spec fn complete_lines(output: Seq<char>) -> Seq<Seq<char>> {
    split_on(output, '\n').drop_last()
}

/// The morphemes that tagger output holds.
pub open spec fn tagger_morphemes(output: Seq<char>) -> Seq<Option<Seq<Seq<char>>>> {
    lines_morphemes(complete_lines(output))
}

/// Whether every tagged line of `output` has at most eleven fields.
pub open spec fn tagger_output_fits(output: Seq<char>) -> bool {
    forall|i: int| 0 <= i < complete_lines(output).len() ==> split_on(#[trigger] complete_lines(output)[i], ',').len() <= 11
}

pub(crate) fn literal_chars(a: char, b: char, c: char) -> (r: Vec<char>)
    ensures
        r@ == seq![a, b, c],
{
    let mut v: Vec<char> = Vec::new();
    v.push(a);
    v.push(b);
    v.push(c);
    proof {
        assert(v@ =~= seq![a, b, c]);
    }
    v
}

/// Segments text with the UniDic dictionary; the tagger itself is run by
/// the caller on `tagger_args`, and its output read here.
pub struct JapaneseTextSegmenter {
    pub tagger_args: String,
}

impl JapaneseTextSegmenter {
    /// The tagger arguments that select the UniDic dictionary under `home`.
    pub open spec fn args_for(home: Seq<char>) -> Seq<char> {
        seq!['-', 'O', 'u', 'n', 'i', 'd', 'i', 'c', ' ', '-', '-', 'd', 'i', 'c', 'd', 'i', 'r', '='] + home + seq!['/', 'P', 'r', 'o', 'j', 'e', 'c', 't', 's', '/', 's', 'r', 'i', 'b', 'i', 'c', 'h', '/', '_', '/', 'u', 'n', 'i', 'd', 'i', 'c', '-', 'c', 'w', 'j', '-', '2', '0', '2', '3', '0', '2']
    }

    /// A segmenter for the UniDic dictionary under the `home` directory.
    pub fn new(home: &str) -> (r: Self)
        ensures
            r.tagger_args@ == Self::args_for(home@),
    {
        let mut args = String::new();
        args.append("-Ounidic --dicdir=");
        args.append(home);
        args.append("/Projects/sribich/_/unidic-cwj-202302");
        proof {
            reveal_strlit("-Ounidic --dicdir=");
            reveal_strlit("/Projects/sribich/_/unidic-cwj-202302");
            assert(args@ =~= seq!['-', 'O', 'u', 'n', 'i', 'd', 'i', 'c', ' ', '-', '-', 'd', 'i', 'c', 'd', 'i', 'r', '='] + home@ + seq!['/', 'P', 'r', 'o', 'j', 'e', 'c', 't', 's', '/', 's', 'r', 'i', 'b', 'i', 'c', 'h', '/', '_', '/', 'u', 'n', 'i', 'd', 'i', 'c', '-', 'c', 'w', 'j', '-', '2', '0', '2', '3', '0', '2']);
        }
        Self { tagger_args: args }
    }

    /// Reads the morphemes out of the tagger's output: one per complete
    /// line, skipping empty lines and the sentence markers `BOS` and `EOS`;
    /// `UNK` is an unknown morpheme, any other line the comma-separated
    /// fields of a tagged one.
    pub fn segment_output(&self, output: &str) -> (r: Vec<Morpheme>)
        requires
            tagger_output_fits(output@),
        ensures
            r@.map_values(|m: Morpheme| m@) == tagger_morphemes(output@),
    {
        let chars = chars_of(output);
        let lines = split_chars(&chars, '\n');
        let count = lines.len() - 1;
        let bos = literal_chars('B', 'O', 'S');
        let eos = literal_chars('E', 'O', 'S');
        let unk = literal_chars('U', 'N', 'K');
        let mut result: Vec<Morpheme> = Vec::new();
        let mut i: usize = 0;
        let ghost all = complete_lines(output@);
        proof {
            assert(views(lines@).drop_last() =~= all);
            assert(all.skip(0) =~= all);
        }
        while i < count
            invariant
                count == lines.len() - 1,
                i <= count,
                all.len() == count,
                forall|j: int| 0 <= j < count ==> (#[trigger] lines@[j])@ == all[j],
                bos@ == bos_text(),
                eos@ == eos_text(),
                unk@ == unk_text(),
                forall|j: int| 0 <= j < all.len() ==> split_on(#[trigger] all[j], ',').len() <= 11,
                result@.map_values(|m: Morpheme| m@) + lines_morphemes(all.skip(i as int)) == lines_morphemes(all),
            decreases count - i,
        {
            let line = &lines[i];
            let ghost rest = all.skip(i as int);
            proof {
                assert(rest[0] == line@);
                assert(rest.skip(1) =~= all.skip(i + 1));
            }
            let ghost before = result@.map_values(|m: Morpheme| m@);
            if line.len() == 0 || chars_eq(line, &bos) || chars_eq(line, &eos) {
                // nothing to read
            } else if chars_eq(line, &unk) {
                result.push(Morpheme::Unk);
                proof {
                    assert(result@.map_values(|m: Morpheme| m@) =~= before.push(None));
                }
            } else {
                let m = read_tagged_line(line);
                result.push(Morpheme::Tagged(m));
                proof {
                    assert(result@.map_values(|m: Morpheme| m@) =~= before.push(line_morpheme(line@)->0));
                }
            }
            i = i + 1;
        }
        proof {
            assert(all.skip(count as int) =~= Seq::<Seq<char>>::empty());
        }
        result
    }
}

fn read_tagged_line(line: &Vec<char>) -> (r: TaggedMorpheme)
    requires
        split_on(line@, ',').len() <= 11,
    ensures
        r.fields() == pad_fields(split_on(line@, ',')),
{
    let parts = split_chars(line, ',');
    let mut fields: Vec<String> = Vec::new();
    let mut k: usize = 0;
    while k < 11
        invariant
            k <= 11,
            parts@.len() <= 11,
            views(parts@) == split_on(line@, ','),
            fields@.len() == k,
            forall|j: int| 0 <= j < k ==> (#[trigger] fields@[j])@ == pad_fields(split_on(line@, ','))[j],
        decreases 11 - k,
    {
        if k < parts.len() {
            fields.push(string_of(&parts[k]));
        } else {
            fields.push(String::new());
        }
        k = k + 1;
    }
    let orth_base = fields.pop().unwrap();
    let orth = fields.pop().unwrap();
    let lemma = fields.pop().unwrap();
    let l_form = fields.pop().unwrap();
    let c_form = fields.pop().unwrap();
    let c_type = fields.pop().unwrap();
    let pos4 = fields.pop().unwrap();
    let pos3 = fields.pop().unwrap();
    let pos2 = fields.pop().unwrap();
    let pos1 = fields.pop().unwrap();
    let surface = fields.pop().unwrap();
    let r = TaggedMorpheme {
        surface,
        feature: Feature { pos1, pos2, pos3, pos4, c_type, c_form, l_form, lemma, orth, orth_base },
    };
    proof {
        assert(r.fields() =~= pad_fields(split_on(line@, ',')));
    }
    r
}

} // verus!
