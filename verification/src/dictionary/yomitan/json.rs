//! JSON values as the dictionary files hold them, and the reading of term
//! metadata out of them.
use vstd::prelude::*;
use super::ast::{Definition, Pitch, StructuredContent, TermMeta};
use crate::text::str_eq;

verus! {

/// A JSON value. A number keeps its value as `u64` where it is a
/// non-negative integer that fits; an object keeps its members in order,
/// each key once.
#[derive(Debug)]
pub enum JsonValue {
    Null,
    Bool(bool),
    Number(Option<u64>),
    String(String),
    Array(Vec<JsonValue>),
    Object(Vec<(String, JsonValue)>),
}

/// The string a value holds.
pub open spec fn json_str(v: JsonValue) -> Option<Seq<char>> {
    match v {
        JsonValue::String(s) => Some(s@),
        _ => None,
    }
}

/// The non-negative integer a value holds.
pub open spec fn json_u64(v: JsonValue) -> Option<u64> {
    match v {
        JsonValue::Number(n) => n,
        _ => None,
    }
}

/// Whether a value is a number.
pub open spec fn is_number(v: JsonValue) -> bool {
    v is Number
}

/// The members of an object.
pub open spec fn json_obj(v: JsonValue) -> Option<Seq<(String, JsonValue)>> {
    match v {
        JsonValue::Object(m) => Some(m@),
        _ => None,
    }
}

/// The elements of an array.
pub open spec fn json_arr(v: JsonValue) -> Option<Seq<JsonValue>> {
    match v {
        JsonValue::Array(a) => Some(a@),
        _ => None,
    }
}

/// The value of the member `key` of an object.
pub open spec fn obj_get(m: Seq<(String, JsonValue)>, key: Seq<char>) -> Option<JsonValue>
    decreases m.len(),
{
    if m.len() == 0 {
        None
    } else if m[0].0@ == key {
        Some(m[0].1)
    } else {
        obj_get(m.skip(1), key)
    }
}

fn get<'a>(m: &'a Vec<(String, JsonValue)>, key: &str) -> (r: Option<&'a JsonValue>)
    ensures
        r matches Some(v) ==> obj_get(m@, key@) == Some(*v),
        r is None ==> obj_get(m@, key@) is None,
{
    let mut i: usize = 0;
    proof {
        assert(m@.skip(0) =~= m@);
    }
    while i < m.len()
        invariant
            i <= m@.len(),
            obj_get(m@, key@) == obj_get(m@.skip(i as int), key@),
        decreases m.len() - i,
    {
        proof {
            assert(m@.skip(i as int)[0] == m@[i as int]);
            assert(m@.skip(i as int).skip(1) =~= m@.skip(i + 1));
        }
        if str_eq(m[i].0.as_str(), key) {
            return Some(&m[i].1);
        }
        i = i + 1;
    }
    None
}

fn as_str(v: &JsonValue) -> (r: Option<&String>)
    ensures
        r matches Some(s) ==> json_str(*v) == Some(s@),
        r is None ==> json_str(*v) is None,
{
    match v {
        JsonValue::String(s) => Some(s),
        _ => None,
    }
}

fn as_u64(v: &JsonValue) -> (r: Option<u64>)
    ensures
        r == json_u64(*v),
{
    match v {
        JsonValue::Number(n) => *n,
        _ => None,
    }
}

/// Term metadata as plain values.
pub enum MetaView {
    Frequency { word: Seq<char>, reading: Seq<char>, frequency: u32, display: Option<Seq<char>> },
    PitchAccent { word: Seq<char>, reading: Seq<char>, positions: Seq<u32> },
}

impl View for TermMeta {
    type V = MetaView;

    open spec fn view(&self) -> MetaView {
        match self {
            TermMeta::Frequency { word, reading, frequency, display } => MetaView::Frequency {
                word: word@,
                reading: reading@,
                frequency: *frequency,
                display: match display {
                    Some(d) => Some(d@),
                    None => None,
                },
            },
            TermMeta::PitchAccent { word, reading, pitches } => MetaView::PitchAccent {
                word: word@,
                reading: reading@,
                positions: pitches@.map_values(|p: Pitch| p.position),
            },
        }
    }
}

/// The display value of a frequency object: its own `displayValue`, or
/// that of its `frequency` object (none when `frequency` is a number).
/// The outer `None` is where the reading is not defined.
pub open spec fn display_of(o: Seq<(String, JsonValue)>) -> Option<Option<Seq<char>>> {
    match obj_get(o, "displayValue"@) {
        Some(d) => Some(json_str(d)),
        None => match obj_get(o, "frequency"@) {
            None => None,
            Some(f) => if is_number(f) {
                Some(None)
            } else {
                match json_obj(f) {
                    None => None,
                    Some(fo) => Some(
                        match obj_get(fo, "displayValue"@) {
                            Some(d) => json_str(d),
                            None => None,
                        },
                    ),
                }
            },
        },
    }
}

/// The frequency of a frequency object: its `value`, or its `frequency`
/// (a number, or an object with a `value`).
pub open spec fn frequency_of(o: Seq<(String, JsonValue)>) -> Option<u64> {
    match obj_get(o, "value"@) {
        Some(v) => json_u64(v),
        None => match obj_get(o, "frequency"@) {
            None => None,
            Some(f) => if is_number(f) {
                json_u64(f)
            } else {
                match json_obj(f) {
                    None => None,
                    Some(fo) => match obj_get(fo, "value"@) {
                        Some(v) => json_u64(v),
                        None => None,
                    },
                }
            },
        },
    }
}

/// The reading of a frequency object: its `reading`, else the word.
pub open spec fn reading_of(o: Seq<(String, JsonValue)>, word: Seq<char>) -> Option<Seq<char>> {
    match obj_get(o, "reading"@) {
        Some(r) => json_str(r),
        None => Some(word),
    }
}

/// The position of each pitch object, where all are objects with a
/// non-negative integer `position`.
pub open spec fn positions_of(ps: Seq<JsonValue>) -> Option<Seq<u32>>
    decreases ps.len(),
{
    if ps.len() == 0 {
        Some(Seq::empty())
    } else {
        match (positions_of(ps.drop_last()), json_obj(ps.last())) {
            (Some(v), Some(o)) => match obj_get(o, "position"@) {
                Some(p) => match json_u64(p) {
                    Some(n) => Some(v.push(n as u32)),
                    None => None,
                },
                None => None,
            },
            _ => None,
        }
    }
}

/// The term metadata that a JSON value describes: an array of the word,
/// the kind (`freq` or `pitch`) and the data. A frequency is a number, or
/// an object with an optional reading and display value; a pitch entry is
/// an object with the reading and the pitches. `None` where the value is
/// not such an entry. Frequencies are truncated to 32 bits.
pub open spec fn term_meta_of(v: JsonValue) -> Option<MetaView> {
    match json_arr(v) {
        None => None,
        Some(a) => if a.len() < 3 {
            None
        } else {
            match (json_str(a[0]), json_str(a[1])) {
                (Some(word), Some(kind)) => {
                    let data = a[2];
                    if kind == "freq"@ {
                        match data {
                            JsonValue::Number(n) => match n {
                                Some(n) => Some(MetaView::Frequency { word, reading: word, frequency: n as u32, display: None }),
                                None => None,
                            },
                            JsonValue::Object(o) => match (reading_of(o@, word), display_of(o@), frequency_of(o@)) {
                                (Some(r), Some(d), Some(n)) => Some(MetaView::Frequency { word, reading: r, frequency: n as u32, display: d }),
                                _ => None,
                            },
                            _ => None,
                        }
                    } else if kind == "pitch"@ {
                        match json_obj(data) {
                            None => None,
                            Some(o) => match (obj_get(o, "reading"@), obj_get(o, "pitches"@)) {
                                (Some(r), Some(p)) => match (json_str(r), json_arr(p)) {
                                    (Some(reading), Some(ps)) => match positions_of(ps) {
                                        Some(positions) => Some(MetaView::PitchAccent { word, reading, positions }),
                                        None => None,
                                    },
                                    _ => None,
                                },
                                _ => None,
                            },
                        }
                    } else {
                        None
                    }
                },
                _ => None,
            }
        },
    }
}

fn frequency_entry(word: &String, o: &Vec<(String, JsonValue)>) -> (r: Option<TermMeta>)
    ensures
        r matches Some(t) ==> match (reading_of(o@, word@), display_of(o@), frequency_of(o@)) {
            (Some(rd), Some(d), Some(n)) => t@ == MetaView::Frequency { word: word@, reading: rd, frequency: n as u32, display: d },
            _ => false,
        },
        r is None ==> !(reading_of(o@, word@) is Some && display_of(o@) is Some && frequency_of(o@) is Some),
{
    let reading = match get(o, "reading") {
        Some(r) => match as_str(r) {
            Some(s) => s.clone(),
            None => {
                return None;
            },
        },
        None => word.clone(),
    };
    let display: Option<String> = match get(o, "displayValue") {
        Some(d) => match as_str(d) {
            Some(s) => Some(s.clone()),
            None => None,
        },
        None => match get(o, "frequency") {
            None => {
                return None;
            },
            Some(f) => match f {
                JsonValue::Number(_) => None,
                JsonValue::Object(fo) => match get(fo, "displayValue") {
                    Some(d) => match as_str(d) {
                        Some(s) => Some(s.clone()),
                        None => None,
                    },
                    None => None,
                },
                _ => {
                    return None;
                },
            },
        },
    };
    let frequency: u64 = match get(o, "value") {
        Some(v) => match as_u64(v) {
            Some(n) => n,
            None => {
                return None;
            },
        },
        None => match get(o, "frequency") {
            None => {
                return None;
            },
            Some(f) => match f {
                JsonValue::Number(n) => match n {
                    Some(n) => *n,
                    None => {
                        return None;
                    },
                },
                JsonValue::Object(fo) => match get(fo, "value") {
                    Some(v) => match as_u64(v) {
                        Some(n) => n,
                        None => {
                            return None;
                        },
                    },
                    None => {
                        return None;
                    },
                },
                _ => {
                    return None;
                },
            },
        },
    };
    Some(TermMeta::Frequency { word: word.clone(), reading, frequency: frequency as u32, display })
}

fn pitch_positions(ps: &Vec<JsonValue>) -> (r: Option<Vec<Pitch>>)
    ensures
        r matches Some(v) ==> positions_of(ps@) == Some(v@.map_values(|p: Pitch| p.position)),
        r is None ==> positions_of(ps@) is None,
{
    let mut out: Vec<Pitch> = Vec::new();
    let mut i: usize = 0;
    proof {
        assert(ps@.take(0) =~= Seq::<JsonValue>::empty());
        assert(out@.map_values(|p: Pitch| p.position) =~= Seq::<u32>::empty());
    }
    while i < ps.len()
        invariant
            i <= ps@.len(),
            positions_of(ps@.take(i as int)) == Some(out@.map_values(|p: Pitch| p.position)),
        decreases ps.len() - i,
    {
        let ghost k = i as int;
        proof {
            assert(ps@.take(k + 1).drop_last() =~= ps@.take(k));
            assert(ps@.take(k + 1).last() == ps@[k]);
        }
        let position = match &ps[i] {
            JsonValue::Object(o) => match get(o, "position") {
                Some(p) => as_u64(p),
                None => None,
            },
            _ => None,
        };
        match position {
            None => {
                proof {
                    assert(positions_of(ps@.take(k + 1)) is None);
                    lemma_positions_none(ps@, k + 1);
                }
                return None;
            },
            Some(n) => {
                let ghost before = out@.map_values(|p: Pitch| p.position);
                out.push(Pitch { position: n as u32 });
                proof {
                    assert(out@.map_values(|p: Pitch| p.position) =~= before.push(n as u32));
                }
            },
        }
        i = i + 1;
    }
    proof {
        assert(ps@.take(i as int) =~= ps@);
    }
    Some(out)
}

/// Once a pitch of a prefix is unreadable, so are the pitches.
pub proof fn lemma_positions_none(ps: Seq<JsonValue>, k: int)
    requires
        0 < k <= ps.len(),
        positions_of(ps.take(k)) is None,
    ensures
        positions_of(ps) is None,
    decreases ps.len() - k,
{
    if k < ps.len() {
        assert(ps.take(k + 1).drop_last() =~= ps.take(k));
        lemma_positions_none(ps, k + 1);
    } else {
        assert(ps.take(k) =~= ps);
    }
}

impl TermMeta {
    /// Reads term metadata out of a JSON value; see `term_meta_of`.
    pub fn from_json(value: &JsonValue) -> (r: Option<TermMeta>)
        ensures
            r matches Some(t) ==> term_meta_of(*value) == Some(t@),
            r is None ==> term_meta_of(*value) is None,
    {
        proof {
            reveal_strlit("freq");
            reveal_strlit("pitch");
        }
        let array = match value {
            JsonValue::Array(a) => a,
            _ => {
                return None;
            },
        };
        if array.len() < 3 {
            return None;
        }
        let word = match as_str(&array[0]) {
            Some(w) => w,
            None => {
                return None;
            },
        };
        let kind = match as_str(&array[1]) {
            Some(k) => k,
            None => {
                return None;
            },
        };
        let data = &array[2];
        if str_eq(kind.as_str(), "freq") {
            match data {
                JsonValue::Number(n) => match n {
                    Some(n) => Some(TermMeta::Frequency {
                        word: word.clone(),
                        reading: word.clone(),
                        frequency: *n as u32,
                        display: None,
                    }),
                    None => None,
                },
                JsonValue::Object(o) => frequency_entry(word, o),
                _ => None,
            }
        } else if str_eq(kind.as_str(), "pitch") {
            let o = match data {
                JsonValue::Object(o) => o,
                _ => {
                    return None;
                },
            };
            let reading = match get(o, "reading") {
                Some(r) => match as_str(r) {
                    Some(s) => s.clone(),
                    None => {
                        return None;
                    },
                },
                None => {
                    return None;
                },
            };
            let pitches = match get(o, "pitches") {
                Some(JsonValue::Array(ps)) => match pitch_positions(ps) {
                    Some(v) => v,
                    None => {
                        return None;
                    },
                },
                _ => {
                    return None;
                },
            };
            Some(TermMeta::PitchAccent { word: word.clone(), reading, pitches })
        } else {
            None
        }
    }
}

/// Which kind of structured content a JSON value holds.
#[derive(Debug, Clone, Copy, PartialEq, Eq, Structural)]
pub enum ContentKind {
    Text,
    Children,
    Table,
    Styled,
    Container,
    Image,
    Link,
    Empty,
}

/// The kind of element that a `tag` names.
pub open spec fn tag_kind(tag: Seq<char>) -> Option<ContentKind> {
    if tag == "td"@ || tag == "th"@ {
        Some(ContentKind::Table)
    } else if tag == "span"@ || tag == "div"@ || tag == "ol"@ || tag == "ul"@ || tag == "li"@
        || tag == "details"@ || tag == "summary"@ {
        Some(ContentKind::Styled)
    } else if tag == "ruby"@ || tag == "rt"@ || tag == "rp"@ || tag == "table"@ || tag == "thead"@
        || tag == "tbody"@ || tag == "tfoot"@ || tag == "tr"@ {
        Some(ContentKind::Container)
    } else if tag == "img"@ {
        Some(ContentKind::Image)
    } else if tag == "a"@ {
        Some(ContentKind::Link)
    } else if tag == "br"@ {
        Some(ContentKind::Empty)
    } else {
        None
    }
}

/// The kind of structured content a value holds: a string is text, an
/// array children, an object the element its string `tag` names; none for
/// anything else.
pub open spec fn content_kind_of(v: JsonValue) -> Option<ContentKind> {
    match v {
        JsonValue::String(_) => Some(ContentKind::Text),
        JsonValue::Array(_) => Some(ContentKind::Children),
        JsonValue::Object(m) => match obj_get(m@, "tag"@) {
            Some(JsonValue::String(t)) => tag_kind(t@),
            _ => None,
        },
        _ => None,
    }
}

fn tag_kind_exec(tag: &str) -> (r: Option<ContentKind>)
    ensures
        r == tag_kind(tag@),
{
    if str_eq(tag, "td") || str_eq(tag, "th") {
        Some(ContentKind::Table)
    } else if str_eq(tag, "span") || str_eq(tag, "div") || str_eq(tag, "ol") || str_eq(tag, "ul")
        || str_eq(tag, "li") || str_eq(tag, "details") || str_eq(tag, "summary") {
        Some(ContentKind::Styled)
    } else if str_eq(tag, "ruby") || str_eq(tag, "rt") || str_eq(tag, "rp") || str_eq(tag, "table")
        || str_eq(tag, "thead") || str_eq(tag, "tbody") || str_eq(tag, "tfoot") || str_eq(tag, "tr") {
        Some(ContentKind::Container)
    } else if str_eq(tag, "img") {
        Some(ContentKind::Image)
    } else if str_eq(tag, "a") {
        Some(ContentKind::Link)
    } else if str_eq(tag, "br") {
        Some(ContentKind::Empty)
    } else {
        None
    }
}

impl StructuredContent {
    /// Which kind of structured content `value` holds; see `content_kind_of`.
    pub fn kind_of(value: &JsonValue) -> (r: Option<ContentKind>)
        ensures
            r == content_kind_of(*value),
    {
        match value {
            JsonValue::String(_) => Some(ContentKind::Text),
            JsonValue::Array(_) => Some(ContentKind::Children),
            JsonValue::Object(m) => match get(m, "tag") {
                Some(JsonValue::String(t)) => tag_kind_exec(t.as_str()),
                _ => None,
            },
            _ => None,
        }
    }
}

/// Which kind of definition a JSON value holds.
#[derive(Debug, Clone, Copy, PartialEq, Eq, Structural)]
pub enum DefinitionKind {
    Single,
    Text,
    Structured,
}

/// The kind of definition a value holds: a string is a single definition,
/// an object one of type `text` or `structured-content`; none for anything
/// else.
pub open spec fn definition_kind_of(v: JsonValue) -> Option<DefinitionKind> {
    match v {
        JsonValue::String(_) => Some(DefinitionKind::Single),
        JsonValue::Object(m) => match obj_get(m@, "type"@) {
            Some(JsonValue::String(t)) => if t@ == "text"@ {
                Some(DefinitionKind::Text)
            } else if t@ == "structured-content"@ {
                Some(DefinitionKind::Structured)
            } else {
                None
            },
            _ => None,
        },
        _ => None,
    }
}

impl Definition {
    /// Which kind of definition `value` holds; see `definition_kind_of`.
    pub fn kind_of(value: &JsonValue) -> (r: Option<DefinitionKind>)
        ensures
            r == definition_kind_of(*value),
    {
        match value {
            JsonValue::String(_) => Some(DefinitionKind::Single),
            JsonValue::Object(m) => match get(m, "type") {
                Some(JsonValue::String(t)) => if str_eq(t.as_str(), "text") {
                    Some(DefinitionKind::Text)
                } else if str_eq(t.as_str(), "structured-content") {
                    Some(DefinitionKind::Structured)
                } else {
                    None
                },
                _ => None,
            },
            _ => None,
        }
    }
}

} // verus!
