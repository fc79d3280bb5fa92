//! The word-pronunciations request and its response.
use vstd::prelude::*;
use super::serde::{to_path, PathValue, SerializationError};

verus! {

/// A request for the pronunciations of a word. Fields left as `None` are
/// not sent.
#[derive(Debug)]
pub struct WordPronunciationsRequest {
    pub word: String,
    /// Language code.
    pub language: Option<String>,
    /// Country code (alpha-3).
    pub country: Option<String>,
    pub username: Option<String>,
    pub sex: Option<String>,
    pub rate: Option<u32>,
    /// Use `rate-desc`.
    pub order: Option<String>,
    pub limit: Option<u8>,
    pub group_in_languages: Option<String>,
}

/// The response to a word-pronunciations request.
#[derive(Debug)]
pub struct WordPronunciationsResponse {
    pub attributes: Attributes,
    pub items: Vec<WordPronunciation>,
}

/// The number of pronunciations in total.
#[derive(Debug)]
pub struct Attributes {
    pub total: u32,
}

/// One recorded pronunciation.
#[derive(Debug)]
pub struct WordPronunciation {
    pub id: u32,
    pub word: String,
    pub original: String,
    pub hits: u32,
    pub username: String,
    pub sex: String,
    pub country: String,
    pub code: String,
    pub langname: String,
    pub pathmp3: String,
    pub pathogg: String,
    pub rate: i32,
    pub num_votes: u32,
    pub num_positive_votes: u32,
}

/// A field as the path names it, with its text.
pub type FieldView = (Seq<char>, Seq<char>);

/// The field `key` with a string value, when it is given.
pub open spec fn string_field(key: Seq<char>, v: Option<String>) -> Seq<FieldView> {
    match v {
        Some(s) => seq![(key, s@)],
        None => Seq::empty(),
    }
}

/// The fields that a request sends, in declaration order, each as key and
/// value text (numbers in decimal).
pub open spec fn request_fields(r: WordPronunciationsRequest) -> Seq<FieldView> {
    seq![("word"@, r.word@)]
        + string_field("language"@, r.language)
        + string_field("country"@, r.country)
        + string_field("username"@, r.username)
        + string_field("sex"@, r.sex)
        + match r.rate {
            Some(n) => seq![("rate"@, crate::forvo::serde::int_text(n as int))],
            None => Seq::empty(),
        }
        + string_field("order"@, r.order)
        + match r.limit {
            Some(n) => seq![("limit"@, crate::forvo::serde::int_text(n as int))],
            None => Seq::empty(),
        }
        + string_field("kebab-case"@, r.group_in_languages)
}

/// `/key/value` for each field, in order.
pub open spec fn fields_text(fs: Seq<FieldView>) -> Seq<char>
    decreases fs.len(),
{
    if fs.len() == 0 {
        Seq::empty()
    } else {
        fields_text(fs.drop_last()) + seq!['/'] + fs.last().0 + seq!['/'] + fs.last().1
    }
}

/// The action of the request.
pub const ACTION: &'static str = "word-pronunciations";

/// The response format of the request.
pub const FORMAT: &'static str = "json";

/// Whether each field has the key and value text of `views`.
pub open spec fn fields_match(fields: Seq<(String, PathValue)>, views: Seq<FieldView>) -> bool {
    &&& fields.len() == views.len()
    &&& forall|i: int| 0 <= i < fields.len() ==> (#[trigger] fields[i]).0@ == views[i].0
        && crate::forvo::serde::value_path(fields[i].1) == Ok::<Seq<char>, Seq<char>>(views[i].1)
}

fn push_string_field(fields: &mut Vec<(String, PathValue)>, key: &str, v: &Option<String>, Ghost(views): Ghost<Seq<FieldView>>)
    requires
        fields_match(old(fields)@, views),
    ensures
        fields_match(final(fields)@, views + string_field(key@, *v)),
{
    match v {
        Some(s) => {
            fields.push((key.to_owned(), PathValue::Str(s.clone())));
            proof {
                assert(views + string_field(key@, *v) =~= views.push((key@, s@)));
            }
        },
        None => {
            proof {
                assert(views + string_field(key@, *v) =~= views);
            }
        },
    }
}

fn push_number_field(fields: &mut Vec<(String, PathValue)>, key: &str, v: Option<u64>, Ghost(views): Ghost<Seq<FieldView>>)
    requires
        fields_match(old(fields)@, views),
    ensures
        fields_match(final(fields)@, views + match v {
            Some(n) => seq![(key@, crate::forvo::serde::int_text(n as int))],
            None => Seq::<FieldView>::empty(),
        }),
{
    match v {
        Some(n) => {
            fields.push((key.to_owned(), PathValue::Unsigned(n)));
            proof {
                assert(views + seq![(key@, crate::forvo::serde::int_text(n as int))] =~= views.push((key@, crate::forvo::serde::int_text(n as int))));
            }
        },
        None => {
            proof {
                assert(views + Seq::<FieldView>::empty() =~= views);
            }
        },
    }
}

impl WordPronunciationsRequest {
    /// The fields that the request sends, with their values; see
    /// `request_fields`.
    pub fn path_fields(&self) -> (r: Vec<(String, PathValue)>)
        ensures
            fields_match(r@, request_fields(*self)),
    {
        let mut fields: Vec<(String, PathValue)> = Vec::new();
        fields.push(("word".to_owned(), PathValue::Str(self.word.clone())));
        let ghost v0 = seq![("word"@, self.word@)];
        proof {
            assert(fields_match(fields@, v0));
        }
        push_string_field(&mut fields, "language", &self.language, Ghost(v0));
        let ghost v1 = v0 + string_field("language"@, self.language);
        push_string_field(&mut fields, "country", &self.country, Ghost(v1));
        let ghost v2 = v1 + string_field("country"@, self.country);
        push_string_field(&mut fields, "username", &self.username, Ghost(v2));
        let ghost v3 = v2 + string_field("username"@, self.username);
        push_string_field(&mut fields, "sex", &self.sex, Ghost(v3));
        let ghost v4 = v3 + string_field("sex"@, self.sex);
        let rate: Option<u64> = match self.rate {
            Some(n) => Some(n as u64),
            None => None,
        };
        push_number_field(&mut fields, "rate", rate, Ghost(v4));
        let ghost v5 = v4 + match self.rate {
            Some(n) => seq![("rate"@, crate::forvo::serde::int_text(n as int))],
            None => Seq::<FieldView>::empty(),
        };
        push_string_field(&mut fields, "order", &self.order, Ghost(v5));
        let ghost v6 = v5 + string_field("order"@, self.order);
        let limit: Option<u64> = match self.limit {
            Some(n) => Some(n as u64),
            None => None,
        };
        push_number_field(&mut fields, "limit", limit, Ghost(v6));
        let ghost v7 = v6 + match self.limit {
            Some(n) => seq![("limit"@, crate::forvo::serde::int_text(n as int))],
            None => Seq::<FieldView>::empty(),
        };
        push_string_field(&mut fields, "kebab-case", &self.group_in_languages, Ghost(v7));
        proof {
            assert(v7 + string_field("kebab-case"@, self.group_in_languages) =~= request_fields(*self));
        }
        fields
    }

    /// The path of the request: `/key/value` for each field it sends.
    pub fn to_path(&self) -> (r: Result<String, SerializationError>)
        ensures
            r matches Ok(p) && p@ == fields_text(request_fields(*self)),
    {
        let fields = self.path_fields();
        proof {
            lemma_fields_path_all_ok(fields@, request_fields(*self));
        }
        to_path(&fields)
    }
}

/// A path built of fields that all have a path form is their text.
pub proof fn lemma_fields_path_all_ok(fields: Seq<(String, PathValue)>, views: Seq<FieldView>)
    requires
        fields_match(fields, views),
    ensures
        crate::forvo::serde::fields_path(fields) == Ok::<Seq<char>, Seq<char>>(fields_text(views)),
    decreases fields.len(),
{
    if fields.len() > 0 {
        assert forall|i: int| 0 <= i < fields.len() - 1 implies (#[trigger] fields.drop_last()[i]).0@ == views.drop_last()[i].0
            && crate::forvo::serde::value_path(fields.drop_last()[i].1) == Ok::<Seq<char>, Seq<char>>(views.drop_last()[i].1) by {
            assert(fields.drop_last()[i] == fields[i]);
        }
        lemma_fields_path_all_ok(fields.drop_last(), views.drop_last());
        assert(fields.last() == fields[fields.len() - 1]);
    }
}

/// The URL of a request: the service, the API key, the format, the action
/// and the request's path.
pub open spec fn request_url(api_key: Seq<char>, format: Seq<char>, action: Seq<char>, path: Seq<char>) -> Seq<char> {
    "https://apicommercial.forvo.com/key/"@ + api_key + "/format/"@ + format + "/action/"@ + action + path
}

/// The URL of the request with path `path`, for the key `api_key`.
pub fn request_address(api_key: &str, format: &str, action: &str, path: &str) -> (r: String)
    ensures
        r@ == request_url(api_key@, format@, action@, path@),
{
    let mut url = String::new();
    url.append("https://apicommercial.forvo.com/key/");
    url.append(api_key);
    url.append("/format/");
    url.append(format);
    url.append("/action/");
    url.append(action);
    url.append(path);
    url
}

} // verus!
