use prelearning::language_pack_jp::morphology::{read_words, segment_text, Segment};

fn describe(segments: &[Segment]) -> Vec<String> {
    segments
        .iter()
        .map(|s| match s {
            Segment::Raw(t) => format!("raw:{}", t),
            Segment::Tagged(w) => format!("tag:{}:{}", w.surface, w.feature.pos1),
        })
        .collect()
}

#[test]
fn morphemes_placed_in_order() {
    let out = segment_text("猫が好き", "猫,名詞\nが,助詞\n好き,形状詞\nEOS\n").unwrap();
    assert_eq!(describe(&out), vec!["tag:猫:名詞", "tag:が:助詞", "tag:好き:形状詞"]);
}

#[test]
fn skipped_text_kept_raw() {
    let out = segment_text("「猫」が", "猫,名詞\nが,助詞\n").unwrap();
    assert_eq!(describe(&out), vec!["raw:「", "tag:猫:名詞", "raw:」", "tag:が:助詞"]);
}

#[test]
fn text_after_last_morpheme_dropped() {
    let out = segment_text("猫です。", "猫,名詞\nBOS\nUNK\n\n").unwrap();
    assert_eq!(describe(&out), vec!["tag:猫:名詞"]);
}

#[test]
fn missing_morpheme_is_none() {
    assert!(segment_text("猫", "犬,名詞\n").is_none());
    assert!(segment_text("猫が", "が,助詞\n猫,名詞\n").is_none());
}

#[test]
fn empty_surface_is_none() {
    assert!(segment_text("猫", ",名詞\n").is_none());
}

#[test]
fn no_morphemes_gives_nothing() {
    assert_eq!(segment_text("猫", "EOS\n").unwrap().len(), 0);
}

#[test]
fn tagger_fields_read_in_order() {
    let words = read_words("走っ,動詞,一般,,,五段-ラ行,連用形-促音便,ハシル,走る,走っ,ハシッ,走る\nEOS");
    assert_eq!(words.len(), 1);
    let w = &words[0];
    assert_eq!(w.surface, "走っ");
    assert_eq!(w.feature.pos1, "動詞");
    assert_eq!(w.feature.pos2, "一般");
    assert_eq!(w.feature.pos3, "");
    assert_eq!(w.feature.c_type, "五段-ラ行");
    assert_eq!(w.feature.c_form, "連用形-促音便");
    assert_eq!(w.feature.l_form, "ハシル");
    assert_eq!(w.feature.lemma, "走る");
    assert_eq!(w.feature.orth, "走っ");
    assert_eq!(w.feature.pron, "ハシッ");
    assert_eq!(w.feature.orth_base, "走る");
    assert_eq!(w.feature.a_mod_type, "");
}
