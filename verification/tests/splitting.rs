use prelearning::language_pack_jp::splitting::segment_text;

fn words(out: &str) -> Vec<(String, String, bool)> {
    segment_text(out).into_iter().map(|s| (s.word, s.base, s.freq)).collect()
}

fn t(w: &str, b: &str, f: bool) -> (String, String, bool) {
    (w.to_owned(), b.to_owned(), f)
}

#[test]
fn auxiliaries_and_suffixes_join_their_word() {
    let out = "食べ,動詞,一般,,,下一段-バ行,連用形-一般,タベル,食べる,食べ,食べる\n\
               た,助動詞,,,,助動詞-タ,連体形-一般,タ,た,た,た\n\
               さん,接尾辞,名詞的,,,,,サン,さん,さん,さん\n\
               猫,名詞,普通名詞,,,,,ネコ,猫,猫,猫\n\
               て,助詞,接続助詞,,,,,テ,て,て,て\n\
               EOS\n";
    assert_eq!(
        words(out),
        vec![t("食べたさん", "食べるさん", true), t("猫", "猫", true), t("て", "て", false)]
    );
}

#[test]
fn conjunctive_particle_after_conjunctive_form() {
    let out = "書い,動詞,一般,,,五段-カ行,連用形-イ音便,カク,書く,書い,書く\n\
               て,助詞,接続助詞,,,,,テ,て,て,て\n";
    assert_eq!(words(out), vec![t("書いて", "書く", true)]);
}

#[test]
fn terminal_form_opens_a_word() {
    let out = "読ま,動詞,一般,,,五段-マ行,未然形-一般,ヨム,読む,読ま,読む\n\
               ない,助動詞,,,,助動詞-ナイ,終止形-一般,ナイ,ない,ない,ない\n\
               よ,助詞,終助詞,,,,,ヨ,よ,よ,よ\n";
    assert_eq!(
        words(out),
        vec![t("読ま", "読む", true), t("ない", "ない", false), t("よ", "よ", false)]
    );
}

#[test]
fn nothing_tagged_nothing_split() {
    assert!(words("BOS\nEOS\n").is_empty());
}
