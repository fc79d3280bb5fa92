use prelearning::string_of::StringOf;

fn bar_of(json: &str) -> String {
    let v: serde_json::Value = serde_json::from_str(json).unwrap();
    v["bar"].as_str().unwrap().to_owned()
}

#[test]
fn inner_value_matches() {
    let deserialized = StringOf::check("baz", bar_of(r#"{"bar": "baz"}"#)).unwrap();

    assert_eq!(deserialized.0, "baz");
}

#[test]
fn mismatch_is_detected() {
    let deserialized = StringOf::check("baz", bar_of(r#"{"bar": "invalid"}"#));

    assert!(deserialized.is_none());
}
