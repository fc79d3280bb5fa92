use prelearning::forvo::serde::{to_path, ForvoRequestSerializer, PathValue, SerializationError};
use prelearning::forvo::word_pronunciations::{request_address, WordPronunciationsRequest, ACTION, FORMAT};

#[test]
fn request_path_lists_the_given_fields() {
    let request = WordPronunciationsRequest {
        word: "猫".to_owned(),
        language: Some("ja".to_owned()),
        country: None,
        username: None,
        sex: None,
        rate: Some(2),
        order: Some("rate-desc".to_owned()),
        limit: Some(5),
        group_in_languages: None,
    };
    let path = request.to_path().unwrap();
    assert_eq!(path, "/word/猫/language/ja/rate/2/order/rate-desc/limit/5");
    let url = request_address("KEY", FORMAT, ACTION, &path);
    assert_eq!(url, "https://apicommercial.forvo.com/key/KEY/format/json/action/word-pronunciations/word/猫/language/ja/rate/2/order/rate-desc/limit/5");
}

#[test]
fn values_and_unsupported_kinds() {
    let fields = vec![
        ("a".to_owned(), PathValue::Bool(true)),
        ("b".to_owned(), PathValue::Signed(-42)),
        ("c".to_owned(), PathValue::Unsigned(0)),
        ("d".to_owned(), PathValue::Char('x')),
    ];
    assert_eq!(to_path(&fields).unwrap(), "/a/true/b/-42/c/0/d/x");
    let bad = vec![("a".to_owned(), PathValue::Bool(false)), ("m".to_owned(), PathValue::Mapping)];
    let err = to_path(&bad).err().unwrap();
    assert!(matches!(&err, SerializationError::UnsupportedType { kind } if kind == "map"));
    assert_eq!(err.to_string(), "map can not be path serialized.");
}

#[test]
fn serializer_writes_numbers() {
    let mut s = ForvoRequestSerializer::new();
    s.serialize_i64(i64::MIN);
    assert_eq!(s.output, "-9223372036854775808");
}
