use prelearning::language_pack::lexicon::Lexicon;
use prelearning::language_pack::resolve::LanguageTransformer;
use prelearning::language_pack::transform::{suffix_inflection, Inflection, TextTransform, Transform};
use prelearning::language_pack_jp::segment::JapaneseTextSegmenter;
use prelearning::language_pack_jp::transform::{merge_segments, segment_candidates, transform_japanese_text, Conditions, JAPANESE_CONDITIONS};
use prelearning::language_pack_jp::transforms::JAPANESE_TRANSFORMS;
use trie_rs::map::TrieBuilder;

fn lexicon(words: &[(&str, Option<usize>)]) -> Lexicon {
    let mut builder = TrieBuilder::new();
    for (w, f) in words {
        builder.push(w.as_bytes(), *f);
    }
    builder.build()
}

#[test]
fn deinflection_finds_the_dictionary_form() {
    let transforms = JAPANESE_TRANSFORMS();
    let conditions = JAPANESE_CONDITIONS();
    let dict = lexicon(&[("食べる", Some(100))]);
    let readings = lexicon(&[]);
    let transformer = LanguageTransformer::new(&transforms, &conditions, &dict, &readings).unwrap();
    let parts = transformer.resolve("食べた").unwrap();
    assert_eq!(parts.len(), 1);
    let (t, base) = &parts[0];
    assert_eq!(base, "食べる");
    assert!(t.as_ref().unwrap().i >= 1);
}

#[test]
fn unknown_text_resolves_character_by_character() {
    let transforms = JAPANESE_TRANSFORMS();
    let conditions = JAPANESE_CONDITIONS();
    let dict = lexicon(&[]);
    let readings = lexicon(&[]);
    let transformer = LanguageTransformer::new(&transforms, &conditions, &dict, &readings).unwrap();
    let parts = transformer.resolve("あい").unwrap();
    let texts: Vec<&str> = parts.iter().map(|p| p.1.as_str()).collect();
    assert_eq!(texts, vec!["あ", "い"]);
    assert!(parts.iter().all(|p| p.0.is_none()));
}

#[test]
fn small_rule_set() {
    let transforms = vec![Transform {
        name: "past",
        description: "",
        rules: vec![suffix_inflection("た", "る", Conditions(Conditions::ta).with_subconditions(), Conditions(Conditions::v1).with_subconditions())],
    }];
    let conditions = JAPANESE_CONDITIONS();
    let dict = lexicon(&[("見る", Some(3))]);
    let readings = lexicon(&[]);
    let transformer = LanguageTransformer::new(&transforms, &conditions, &dict, &readings).unwrap();
    let tree = transformer.resolve_from(TextTransform::new("見た".to_owned()), Vec::new()).unwrap();
    assert_eq!(tree.len(), 2);
    assert_eq!(tree[0].text, "見る");
    assert_eq!(tree[0].inflection, "た");
    assert_eq!(tree[1].text, "見た");
    let _unused: Option<Inflection> = None;
}

#[test]
fn dictionary_runs_are_merged() {
    let dict = lexicon(&[("取り", None), ("取り出す", Some(9))]);
    let readings = lexicon(&[]);
    let output = vec![
        ("取り".to_owned(), "取り".to_owned(), None),
        ("出す".to_owned(), "出す".to_owned(), None),
        ("の".to_owned(), "の".to_owned(), None),
    ];
    let merged = merge_segments(&output, &dict, &readings);
    assert_eq!(merged, vec![
        ("取り出す".to_owned(), "取り出す".to_owned(), Some(9)),
        ("の".to_owned(), "の".to_owned(), None),
    ]);
}

#[test]
fn whole_segment_in_the_dictionary_stands() {
    let dict = lexicon(&[("行った", Some(1))]);
    let readings = lexicon(&[]);
    let resolved = vec![(None, "行".to_owned()), (None, "った".to_owned())];
    let c = segment_candidates(&"行った".to_owned(), true, &resolved, &dict, &readings).unwrap();
    assert_eq!(c, vec![("行った".to_owned(), "行った".to_owned(), None)]);
    let c = segment_candidates(&"の".to_owned(), false, &vec![], &dict, &readings).unwrap();
    assert_eq!(c, vec![("の".to_owned(), "の".to_owned(), None)]);
}

#[test]
fn japanese_text_words() {
    let tagger = JapaneseTextSegmenter::new("/home/user");
    let output = "本,名詞,普通名詞,一般,,,,ホン,本,本,本\nを,助詞,格助詞,,,,,ヲ,を,を,を\n食べ,動詞,一般,,,下一段-バ行,連用形-一般,タベル,食べる,食べ,食べる\nた,助動詞,,,,助動詞-タ,終止形-一般,タ,た,た,た\n";
    let morphemes = tagger.segment_output(output);
    let dict = lexicon(&[("本", Some(5)), ("食べる", Some(100))]);
    let readings = lexicon(&[]);
    let words = transform_japanese_text(morphemes, &dict, &readings).unwrap();
    assert_eq!(words.last().unwrap().1, "食べる");
    assert_eq!(words.last().unwrap().2, Some(100));
    assert_eq!(words[0], ("本".to_owned(), "本".to_owned(), Some(5)));
}
