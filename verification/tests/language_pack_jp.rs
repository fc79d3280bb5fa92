use prelearning::language_pack::processor::{Processor, TextProcessor, Transform};
use prelearning::language_pack_jp::japanese_language_pipeline;
use prelearning::language_pack_jp::processor::{
    CollapseEmphaticSequences, ConvertHalfWidth, JapaneseProcessor, NormalizeCombiningCharacters,
};
use prelearning::language_pack_jp::segment::{JapaneseTextSegmenter, Morpheme};
use prelearning::language_pack_jp::transform::{group_inflected, Conditions, JAPANESE_CONDITIONS};
use prelearning::language_pack_jp::transforms::JAPANESE_TRANSFORMS;

fn tagged(line: &str) -> String {
    format!("BOS\n{line}\nEOS\n")
}

#[test]
fn thing() {
    assert_eq!(1, 1);
}

#[test]
fn segment_mecab() {
    let tagger = JapaneseTextSegmenter::new("/home/user");
    let output = "BOS\n買い,動詞,一般,,,五段-ワア行,連用形-一般,カウ,買う,買い,買う\n殺し,名詞,普通名詞,一般,,,,コロシ,殺し,殺し,殺し\nと,助詞,格助詞,,,,,ト,と,と,と\nEOS\n";
    let morphemes = tagger.segment_output(output);
    assert_eq!(morphemes.len(), 3);
    assert_eq!(morphemes[0].to_string(), "買い");
    assert_eq!(morphemes[0].pos(), "動詞");
    assert_eq!(morphemes[1].to_kata(), "コロシ");
    assert_eq!(morphemes[2].pos2(), "格助詞");

    let output = "BOS\nUNK\n\n一日,名詞,普通名詞,副詞可能,,,,イチニチ,一日,一日,一日\nEOS\n";
    let morphemes = tagger.segment_output(output);
    assert_eq!(morphemes.len(), 2);
    assert!(matches!(morphemes[0], Morpheme::Unk));
    assert_eq!(morphemes[0].to_string(), "UNK");
    assert_eq!(morphemes[1].to_string(), "一日");
}

#[test]
fn transform_mecab() {
    let tagger = JapaneseTextSegmenter::new("/home/user");
    let output = "BOS\n集め,動詞,一般,,,下一段-マ行,連用形-一般,アツメル,集める,集め,集める\nて,助詞,接続助詞,,,,,テ,て,て,て\nおか,動詞,非自立可能,,,五段-カ行,未然形-一般,オク,置く,おか,おく\nなきゃ,助動詞,,,,助動詞-ナイ,仮定形-融合,ナイ,ない,なきゃ,ない\nEOS\n";
    let groups = group_inflected(tagger.segment_output(output));
    assert_eq!(groups, vec![("集めて".to_owned(), true), ("おかなきゃ".to_owned(), true)]);

    let output = tagged("彷徨っ,動詞,一般,,,五段-ワア行,連用形-促音便,サマヨウ,さ迷う,彷徨っ,彷徨う\nた,助動詞,,,,助動詞-タ,終止形-一般,タ,た,た,た");
    let groups = group_inflected(tagger.segment_output(&output));
    assert_eq!(groups, vec![("彷徨った".to_owned(), true)]);

    let processor = JapaneseProcessor;
    let result = processor.transform("家ﾊﾛｰﾜｰﾙﾄﾞ家".to_owned());
    assert_eq!(result.text, "家ハローワールド家");
    let result = processor.transform("ﾊﾛｰﾜｰﾙﾄﾞ".to_owned());
    assert_eq!(result.text, "ハローワールド");
}

#[test]
fn groups_keep_every_surface() {
    let tagger = JapaneseTextSegmenter::new("/home/user");
    let output = tagged("本,名詞,普通名詞,一般,,,,ホン,本,本,本\nを,助詞,格助詞,,,,,ヲ,を,を,を\n読ん,動詞,一般,,,五段-マ行,連用形-撥音便,ヨム,読む,読ん,読む\nだ,助動詞,,,,助動詞-タ,終止形-一般,タ,た,だ,た");
    let groups = group_inflected(tagger.segment_output(&output));
    let joined: String = groups.iter().map(|g| g.0.as_str()).collect();
    assert_eq!(joined, "本を読んだ");
    assert_eq!(groups, vec![("本".to_owned(), false), ("を".to_owned(), false), ("読んだ".to_owned(), true)]);
}

#[test]
fn unknown_morphemes_are_equal() {
    let tagger = JapaneseTextSegmenter::new("/home/user");
    let a = tagger.segment_output("UNK\n");
    let b = tagger.segment_output("UNK\n");
    assert!(a[0] == b[0]);
    let c = tagger.segment_output(&tagged("わたし,代名詞,,,,,,ワタクシ,私,わたし,わたし"));
    let d = tagger.segment_output(&tagged("私,代名詞,,,,,,ワタシ,私,私,私"));
    assert!(c[0] == d[0]);
    assert!(!(a[0] == c[0]));
}

#[test]
fn full_feature_text() {
    let tagger = JapaneseTextSegmenter::new("/home/user");
    let m = tagger.segment_output(&tagged("本,名詞,普通名詞,一般,,,,ホン,本,本,本"));
    assert!(m[0].to_full().contains("l_form: \"ホン\""));
    let unk = tagger.segment_output("UNK\n");
    assert_eq!(unk[0].to_full(), "UNK");
}

#[test]
fn full_feature_text_is_the_pretty_debug_form() {
    let tagger = JapaneseTextSegmenter::new("/home/user");
    let m = tagger.segment_output(&tagged("本,\"a\\b\",普通名詞,一般,,,,ホン,本,本,本\t"));
    match &m[0] {
        Morpheme::Tagged(t) => {
            assert_eq!(m[0].to_full(), format!("{:#?}", t.feature()));
        }
        Morpheme::Unk => panic!("expected a tagged morpheme"),
    }
}

#[test]
fn pipeline_uses_home() {
    let pipeline = japanese_language_pipeline("/h");
    assert_eq!(pipeline.segmenter.tagger_args, "-Ounidic --dicdir=/h/Projects/sribich/_/unidic-cwj-202302");
}

#[test]
fn conditions_fold_visits_low_bits() {
    // Bit 0 is visited when clear, bit 1 when set: the verb condition gets
    // its subconditions only when its own bit is absent.
    assert_eq!(Conditions(Conditions::te).with_subconditions(), Conditions::te | 3602);
    assert_eq!(Conditions(Conditions::v).with_subconditions(), Conditions::v);
    assert_eq!(Conditions(Conditions::v1).with_subconditions(), Conditions::v1 | 3602 | 12);
    let table = JAPANESE_CONDITIONS();
    assert_eq!(table.len(), 22);
    assert_eq!(table[0].1.short, "v");
    assert_eq!(JAPANESE_TRANSFORMS().len(), 53);
}

#[test]
fn half_width_katakana_is_converted() {
    let p = ConvertHalfWidth;
    assert!(p.matches("ｶﾞ"));
    let t = p.process(Transform::from_str("ｶﾞｷﾞ"));
    assert_eq!(t.text, "ガギ");
    assert!(!p.matches("かな"));
}

#[test]
fn half_width_mappings_tile_both_texts() {
    let p = ConvertHalfWidth;
    let t = p.process(Transform::from_str("ｶﾞa"));
    assert_eq!(t.text, "ガa");
    assert_eq!(t.mappings.len(), 2);
    assert_eq!(t.mappings[0], (0..3, 0..6));
    assert_eq!(t.mappings[1], (3..4, 6..7));
    assert_eq!(t.previous.unwrap().text, "ｶﾞa");
}

#[test]
fn combining_marks_are_merged() {
    let p = NormalizeCombiningCharacters;
    let t = p.process(Transform::from_str("か\u{3099}"));
    assert_eq!(t.text, "が");
}

#[test]
fn emphatic_sequences_collapse() {
    let p = CollapseEmphaticSequences;
    assert_eq!(p.process(Transform::from_str("アパート")).text, "アパート");
    let t = p.process(Transform::from_str("すっっごーーい"));
    assert_eq!(t.text, "すごい");
    let again = p.process(Transform::from_str(&t.text));
    assert_eq!(again.text, t.text);
}

#[test]
fn half_width_documented_examples() {
    let processor = ConvertHalfWidth;
    assert_eq!("ヨミチャン", processor.process(Transform::from_str("ﾖﾐﾁｬﾝ")).text);
    assert_eq!("マツオ バショウ ア゚", processor.process(Transform::from_str("ﾏﾂｵ ﾊﾞｼｮｳ ｱﾟ")).text);
}

#[test]
fn combining_documented_example() {
    let transformer = NormalizeCombiningCharacters;
    assert_eq!("\u{30C9}", transformer.process(Transform::from_str("\u{30C8}\u{3099}")).text);
}

#[test]
fn unicode_documented_examples() {
    let processor = prelearning::language_pack_jp::processor::NormalizeUnicode;
    assert_eq!("アパート", processor.process(Transform::from_str("㌀")).text);
    assert_eq!("一", processor.process(Transform::from_str("⼀")).text);
}
