use prelearning::language_pack::transform::{suffix_inflection, suffix_inflection_with_replacements, TextTransform};

#[test]
fn suffix_is_undone() {
    let rule = suffix_inflection("んで", "む", 1, 2);
    let res = rule.deinflect(&TextTransform::new("読んで".to_owned())).unwrap();
    assert_eq!(res.text, "読む");
    assert_eq!(res.deinflection, "む");
    assert_eq!(res.conditions, 2);
    assert_eq!(res.inflection, "んで");
    assert!(res.replacement.is_none());
    assert!(rule.deinflect(&TextTransform::new("読んだ".to_owned())).is_none());
}

#[test]
fn replacement_table_of_any_shape() {
    let rule = suffix_inflection_with_replacements("んで", "ぬ", 1, 2, &[("んで", "xyz")]);
    let res = rule.deinflect(&TextTransform::new("読んで".to_owned())).unwrap();
    assert_eq!(res.text, "読ぬ");
    assert_eq!(res.replacement.as_deref(), Some("読ぬ"));
    let rule = suffix_inflection_with_replacements("んで", "ぬ", 1, 2, &[("こんで", "込んで")]);
    let res = rule.deinflect(&TextTransform::new("読みこんで".to_owned())).unwrap();
    assert_eq!(res.text, "読みこぬ");
    assert_eq!(res.replacement.as_deref(), Some("読み込ぬ"));
}
