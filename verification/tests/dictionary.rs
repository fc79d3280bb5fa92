use prelearning::dictionary::yomitan::ast::{
    ContainerContent, Definition, DefinitionStructured, DefinitionText, EmptyContent, ImageContent, ImageRendering,
    Appearance, LinkContent, Index, SizeUnits, StructuredContent, StyleValue, StyledContent, TableContent, Term,
    TermMeta, YomitanFile, Pitch, extract_content,
};
use prelearning::dictionary::yomitan::json::{ContentKind, DefinitionKind, JsonValue};
use prelearning::dictionary::yomitan::{DictionarySource, FileKind, YomitanDictionary};
use prelearning::dictionary::{load_dictionary, Dictionary, DictionaryError};

fn s(v: &str) -> String {
    v.to_owned()
}

fn boxed(c: StructuredContent) -> Option<Box<StructuredContent>> {
    Some(Box::new(c))
}

#[test]
fn structured_content_renders_as_html() {
    let content = StructuredContent::Children(vec![
        StructuredContent::Text(s("a")),
        StructuredContent::Container(ContainerContent { tag: s("ruby"), content: boxed(StructuredContent::Text(s("字"))), data: None, lang: None }),
        StructuredContent::Empty(EmptyContent { tag: s("br"), data: None }),
        StructuredContent::Link(LinkContent { tag: s("a"), content: boxed(StructuredContent::Text(s("l"))), href: s("x"), lang: None }),
        StructuredContent::Table(TableContent { tag: s("td"), content: boxed(StructuredContent::Text(s("c"))), data: None, col_span: None, row_span: None, style: None, lang: None }),
    ]);
    let mut out = String::new();
    assert!(extract_content(&content, &mut out, "img/"));
    assert_eq!(out, "a<ruby>字</ruby><br /><a>l</a><td>c</td>");
}

#[test]
fn styled_content_carries_its_style() {
    let content = StructuredContent::Styled(StyledContent {
        tag: s("span"),
        content: boxed(StructuredContent::Text(s("x"))),
        data: None,
        style: Some(vec![(s("fontSize"), StyleValue::Float(s("1.5"))), (s("fontFamily"), StyleValue::Text(s("\"a\""))), (s("marginLeft"), StyleValue::Unsigned(2))]),
        title: None,
        lang: None,
    });
    let mut out = String::new();
    assert!(extract_content(&content, &mut out, ""));
    assert_eq!(out, "<span style=\"font-size:1.5;font-family:'a';margin-left:2\">x</span>");
}

#[test]
fn unrendered_elements_are_refused() {
    let bad = StructuredContent::Empty(EmptyContent { tag: s("hr"), data: None });
    let mut out = String::new();
    assert!(!extract_content(&bad, &mut out, ""));
    let bad_style = StructuredContent::Styled(StyledContent {
        tag: s("div"),
        content: boxed(StructuredContent::Text(s("x"))),
        data: None,
        style: Some(vec![(s("x"), StyleValue::Other)]),
        title: None,
        lang: None,
    });
    let mut out = String::new();
    assert!(!extract_content(&bad_style, &mut out, ""));
}

#[test]
fn images_use_the_prefix() {
    let image = StructuredContent::Image(ImageContent {
        tag: s("img"), data: None, path: s("p.png"), width: Some(s("2.5")), height: None, title: None, alt: None,
        description: None, pixelated: false, image_rendering: ImageRendering::Auto, appearance: Appearance::Auto,
        background: true, collapsed: false, collapsable: false, vertical_align: None, border: None,
        border_radius: None, size_units: Some(SizeUnits::Px),
    });
    let mut out = String::new();
    assert!(extract_content(&image, &mut out, "/media/"));
    assert_eq!(out, "<img style=\"height:1px;width:2.5px;\" src=\"/media/p.png\" />");
}

fn arr(v: Vec<JsonValue>) -> JsonValue {
    JsonValue::Array(v)
}

fn st(v: &str) -> JsonValue {
    JsonValue::String(s(v))
}

fn obj(v: Vec<(&str, JsonValue)>) -> JsonValue {
    JsonValue::Object(v.into_iter().map(|(k, x)| (s(k), x)).collect())
}

#[test]
fn term_meta_frequencies() {
    let m = TermMeta::from_json(&arr(vec![st("語"), st("freq"), JsonValue::Number(Some(12))])).unwrap();
    assert!(matches!(m, TermMeta::Frequency { ref word, ref reading, frequency: 12, display: None } if word == "語" && reading == "語"));
    let m = TermMeta::from_json(&arr(vec![st("語"), st("freq"), obj(vec![("reading", st("ご")), ("frequency", obj(vec![("value", JsonValue::Number(Some(7))), ("displayValue", st("7㋕"))]))])])).unwrap();
    assert!(matches!(m, TermMeta::Frequency { ref reading, frequency: 7, ref display, .. } if reading == "ご" && display.as_deref() == Some("7㋕")));
    assert!(TermMeta::from_json(&arr(vec![st("語"), st("freq"), st("12")])).is_none());
    assert!(TermMeta::from_json(&arr(vec![st("語"), st("ipa"), st("x")])).is_none());
    assert!(TermMeta::from_json(&st("語")).is_none());
}

#[test]
fn term_meta_pitches() {
    let m = TermMeta::from_json(&arr(vec![st("語"), st("pitch"), obj(vec![("reading", st("ご")), ("pitches", arr(vec![obj(vec![("position", JsonValue::Number(Some(1)))]), obj(vec![("position", JsonValue::Number(Some(0)))])]))])])).unwrap();
    match m {
        TermMeta::PitchAccent { reading, pitches, .. } => {
            assert_eq!(reading, "ご");
            assert_eq!(pitches.iter().map(|p| p.position).collect::<Vec<_>>(), vec![1, 0]);
        },
        _ => panic!("expected a pitch accent"),
    }
}

#[test]
fn file_kinds_by_name() {
    assert_eq!(YomitanDictionary::file_kind("index.json"), Some(FileKind::Index));
    assert_eq!(YomitanDictionary::file_kind("term_bank_1.json"), Some(FileKind::Term));
    assert_eq!(YomitanDictionary::file_kind("term_meta_bank_1.json"), Some(FileKind::TermMeta));
    assert_eq!(YomitanDictionary::file_kind("kanji_bank_2.json"), Some(FileKind::KanjiTerm));
    assert_eq!(YomitanDictionary::file_kind("kanji_meta_bank_2.json"), Some(FileKind::KanjiMeta));
    assert_eq!(YomitanDictionary::file_kind("tag_bank_1.json"), Some(FileKind::Tag));
    assert_eq!(YomitanDictionary::file_kind("styles.css"), None);
    assert_eq!(YomitanDictionary::file_kind("other.json"), None);
}

#[test]
fn sources_by_path() {
    assert_eq!(YomitanDictionary::try_from_path("/d/jmdict.zip", true), DictionarySource::Zip);
    assert_eq!(YomitanDictionary::try_from_path("/d/index.json", true), DictionarySource::Index);
    assert_eq!(YomitanDictionary::try_from_path("/d/jmdict.zip", false), DictionarySource::Unknown);
    assert_eq!(YomitanDictionary::try_from_path("/d/notes.txt", true), DictionarySource::Unknown);
}

fn index() -> Index {
    Index {
        title: s("辞書"), revision: s("1"), sequenced: false, format: Some(3), author: None, is_updatable: false,
        index_url: None, download_url: None, url: None, description: None, attribution: None,
        source_language: Some(s("ja")), target_language: None, frequency_mode: None,
    }
}

fn term(word: &str, def: Definition) -> Term {
    Term { term: s(word), reading: s(word), definition_tags: s(""), inflections: s(""), score: 0, definitions: vec![def], sequence: 0, tags: s("") }
}

#[test]
fn files_collect_into_a_dictionary() {
    let files = vec![
        YomitanFile::Term(vec![term("語", Definition::Single(s("word")))]),
        YomitanFile::Index(index()),
        YomitanFile::TermMeta(vec![
            TermMeta::Frequency { word: s("語"), reading: s("ご"), frequency: 5, display: None },
            TermMeta::PitchAccent { word: s("語"), reading: s("ご"), pitches: vec![Pitch { position: 1 }, Pitch { position: 0 }] },
        ]),
        YomitanFile::Term(vec![term("本", Definition::Text(DefinitionText { kind: s("text"), text: s("book") }))]),
    ];
    let d = YomitanDictionary::from_files(files).unwrap();
    assert_eq!(d.terms.len(), 2);
    assert_eq!(d.frequencies().len(), 1);
    let accents = d.accents();
    assert_eq!(accents.len(), 2);
    assert_eq!(accents[1].position, 0);
    let info = d.info();
    assert_eq!(info.title, "辞書");
    assert_eq!(info.description, "");
    let words = d.words(None).unwrap();
    assert_eq!(words[0].definition, "word");
    assert_eq!(words[1].definition, "book");
}

#[test]
fn one_index_is_needed() {
    assert!(YomitanDictionary::from_files(vec![]).is_none());
    assert!(YomitanDictionary::from_files(vec![YomitanFile::Index(index()), YomitanFile::Index(index())]).is_none());
}

#[test]
fn structured_definitions() {
    let def = Definition::Structured(DefinitionStructured { kind: s("structured-content"), content: StructuredContent::Text(s("t")) });
    assert_eq!(def.to_string(&None).unwrap(), "t");
}

#[test]
fn unknown_dictionaries_are_errors() {
    let err = load_dictionary(None, "/x/y").err().unwrap();
    assert!(matches!(&err, DictionaryError::UnknownType { path } if path == "/x/y"));
    assert_eq!(err.to_string(), "Failed to analyze the type of dictionary at '/x/y'");
}

#[test]
fn structured_content_kinds() {
    assert_eq!(StructuredContent::kind_of(&st("x")), Some(ContentKind::Text));
    assert_eq!(StructuredContent::kind_of(&arr(vec![])), Some(ContentKind::Children));
    assert_eq!(StructuredContent::kind_of(&obj(vec![("tag", st("td"))])), Some(ContentKind::Table));
    assert_eq!(StructuredContent::kind_of(&obj(vec![("tag", st("summary"))])), Some(ContentKind::Styled));
    assert_eq!(StructuredContent::kind_of(&obj(vec![("tag", st("tfoot"))])), Some(ContentKind::Container));
    assert_eq!(StructuredContent::kind_of(&obj(vec![("tag", st("img"))])), Some(ContentKind::Image));
    assert_eq!(StructuredContent::kind_of(&obj(vec![("tag", st("a"))])), Some(ContentKind::Link));
    assert_eq!(StructuredContent::kind_of(&obj(vec![("tag", st("br"))])), Some(ContentKind::Empty));
    assert_eq!(StructuredContent::kind_of(&obj(vec![("tag", st("blink"))])), None);
    assert_eq!(StructuredContent::kind_of(&obj(vec![("content", st("x"))])), None);
    assert_eq!(StructuredContent::kind_of(&JsonValue::Null), None);
}

#[test]
fn definition_kinds() {
    assert_eq!(Definition::kind_of(&st("x")), Some(DefinitionKind::Single));
    assert_eq!(Definition::kind_of(&obj(vec![("type", st("text")), ("text", st("x"))])), Some(DefinitionKind::Text));
    assert_eq!(
        Definition::kind_of(&obj(vec![("type", st("structured-content"))])),
        Some(DefinitionKind::Structured)
    );
    assert_eq!(Definition::kind_of(&obj(vec![("type", st("image"))])), None);
    assert_eq!(Definition::kind_of(&JsonValue::Number(Some(1))), None);
}
