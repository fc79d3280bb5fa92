//! The contents of a Yomitan dictionary archive.
use vstd::prelude::*;
use crate::lexorank::radix_chars;
use crate::lexorank::radix::radix_text;
use crate::epub::archive::join_opt;
use crate::text::{chars_of, str_eq, string_of};

verus! {

/// An index file: what the dictionary is.
#[derive(Debug)]
pub struct Index {
    pub title: String,
    pub revision: String,
    pub sequenced: bool,
    pub format: Option<u32>,
    pub author: Option<String>,
    pub is_updatable: bool,
    pub index_url: Option<String>,
    pub download_url: Option<String>,
    pub url: Option<String>,
    pub description: Option<String>,
    pub attribution: Option<String>,
    pub source_language: Option<String>,
    pub target_language: Option<String>,
    pub frequency_mode: Option<String>,
}

/// Information about a kanji character.
#[derive(Debug)]
pub struct KanjiTerm {
    pub kanji: String,
    pub onyomi: String,
    pub kunyomi: String,
    pub tags: String,
    pub meanings: Vec<String>,
}

/// Metadata about a kanji character.
#[derive(Debug)]
pub struct KanjiMeta {
    pub kanji: String,
    pub kind: String,
    pub data: KanjiMetaData,
}

/// The value of kanji metadata.
#[derive(Debug)]
pub enum KanjiMetaData {
    Number(u32),
    String(String),
    Value { value: u32, display: String },
}

/// A tag used by terms.
#[derive(Debug)]
pub struct Tag {
    pub name: String,
    pub category: String,
    pub sort_order: i32,
    pub notes: String,
    pub score: i32,
}

/// A term with its definitions.
#[derive(Debug)]
pub struct Term {
    pub term: String,
    pub reading: String,
    pub definition_tags: String,
    pub inflections: String,
    pub score: i64,
    pub definitions: Vec<Definition>,
    pub sequence: i64,
    pub tags: String,
}

/// Metadata about a term: its frequency or its pitch accents.
#[derive(Debug)]
pub enum TermMeta {
    Frequency { word: String, reading: String, frequency: u32, display: Option<String> },
    PitchAccent { word: String, reading: String, pitches: Vec<Pitch> },
}

/// One pitch accent: the position of the downstep.
#[derive(Clone, Copy, Debug)]
pub struct Pitch {
    pub position: u32,
}

/// A file of a dictionary archive.
#[derive(Debug)]
pub enum YomitanFile {
    Index(Index),
    KanjiTerm(Vec<KanjiTerm>),
    KanjiMeta(Vec<KanjiMeta>),
    Tag(Vec<Tag>),
    Term(Vec<Term>),
    TermMeta(Vec<TermMeta>),
}

/// A definition of a term.
#[derive(Debug)]
pub enum Definition {
    Single(String),
    Text(DefinitionText),
    Structured(DefinitionStructured),
}

/// A plain-text definition.
#[derive(Debug)]
pub struct DefinitionText {
    pub kind: String,
    pub text: String,
}

/// A definition as structured content.
#[derive(Debug)]
pub struct DefinitionStructured {
    pub kind: String,
    pub content: StructuredContent,
}

/// Structured content: text and HTML-like elements.
#[derive(Debug)]
pub enum StructuredContent {
    Text(String),
    Children(Vec<StructuredContent>),
    Table(TableContent),
    Styled(StyledContent),
    Container(ContainerContent),
    Image(ImageContent),
    Link(LinkContent),
    Empty(EmptyContent),
}

/// The value of a style property: a string, a number in the form `f64`
/// displays it, an unsigned integer, or anything else.
#[derive(Debug)]
pub enum StyleValue {
    Text(String),
    Float(String),
    Unsigned(u64),
    Other,
}

/// A table cell.
#[derive(Debug)]
pub struct TableContent {
    pub tag: String,
    pub content: Option<Box<StructuredContent>>,
    pub data: Option<Vec<(String, String)>>,
    pub col_span: Option<i32>,
    pub row_span: Option<i32>,
    pub style: Option<Vec<(String, StyleValue)>>,
    pub lang: Option<String>,
}

/// A styled element, with its style properties in the order they are kept.
#[derive(Debug)]
pub struct StyledContent {
    pub tag: String,
    pub content: Option<Box<StructuredContent>>,
    pub data: Option<Vec<(String, String)>>,
    pub style: Option<Vec<(String, StyleValue)>>,
    pub title: Option<String>,
    pub lang: Option<String>,
}

/// A container element.
#[derive(Debug)]
pub struct ContainerContent {
    pub tag: String,
    pub content: Option<Box<StructuredContent>>,
    pub data: Option<Vec<(String, String)>>,
    pub lang: Option<String>,
}

/// How an image is scaled.
#[derive(Debug, Clone, Copy, PartialEq, Eq, Structural)]
pub enum ImageRendering {
    Auto,
    Pixelated,
    CrispEdges,
}

impl Default for ImageRendering {
    fn default() -> (r: Self)
        ensures
            r == ImageRendering::Auto,
    {
        ImageRendering::Auto
    }
}

/// How an image is coloured.
#[derive(Debug, Clone, Copy, PartialEq, Eq, Structural)]
pub enum Appearance {
    Auto,
    Monochrome,
}

impl Default for Appearance {
    fn default() -> (r: Self)
        ensures
            r == Appearance::Auto,
    {
        Appearance::Auto
    }
}

/// The vertical alignment of an image.
#[derive(Debug, Clone, Copy, PartialEq, Eq, Structural)]
pub enum VerticalAlign {
    Baseline,
    Sub,
    Super,
    TextTop,
    TextBottom,
    Middle,
    Top,
    Bottom,
}

/// The unit of an image's size.
#[derive(Debug, Clone, Copy, PartialEq, Eq, Structural)]
pub enum SizeUnits {
    Px,
    Em,
}

/// The name of a size unit.
pub open spec fn units_text(u: SizeUnits) -> Seq<char> {
    match u {
        SizeUnits::Px => "px"@,
        SizeUnits::Em => "em"@,
    }
}

impl SizeUnits {
    /// The name of the unit, `px` or `em`.
    pub fn to_string(&self) -> (r: String)
        ensures
            r@ == units_text(*self),
    {
        match self {
            SizeUnits::Px => "px".to_owned(),
            SizeUnits::Em => "em".to_owned(),
        }
    }
}

/// An image; its width and height are kept in the form `f32` displays them.
#[derive(Debug)]
pub struct ImageContent {
    pub tag: String,
    pub data: Option<Vec<(String, String)>>,
    pub path: String,
    pub width: Option<String>,
    pub height: Option<String>,
    pub title: Option<String>,
    pub alt: Option<String>,
    pub description: Option<String>,
    pub pixelated: bool,
    pub image_rendering: ImageRendering,
    pub appearance: Appearance,
    pub background: bool,
    pub collapsed: bool,
    pub collapsable: bool,
    pub vertical_align: Option<VerticalAlign>,
    pub border: Option<String>,
    pub border_radius: Option<String>,
    pub size_units: Option<SizeUnits>,
}

/// A link.
#[derive(Debug)]
pub struct LinkContent {
    pub tag: String,
    pub content: Option<Box<StructuredContent>>,
    pub href: String,
    pub lang: Option<String>,
}

/// An element without content.
#[derive(Debug)]
pub struct EmptyContent {
    pub tag: String,
    pub data: Option<Vec<(String, String)>>,
}

/// The default of an image's `background` flag.
pub fn default_true() -> (r: bool)
    ensures
        r,
{
    true
}

// ---- rendering structured content ----

/// The kebab-case form of a property name (`convert_case`'s
/// `to_case(Case::Kebab)`).
pub uninterp spec fn kebab_case(s: Seq<char>) -> Seq<char>;

/// `s.to_case(Case::Kebab)`.
#[verifier::external_body]
fn to_kebab_case(s: &str) -> (r: String)
    ensures
        r@ == kebab_case(s@),
{
    convert_case::Casing::to_case(&s, convert_case::Case::Kebab)
}

/// `s` with each double quote replaced by a single quote.
pub open spec fn quotes_replaced(s: Seq<char>) -> Seq<char> {
    s.map_values(|c: char| if c == '"' { '\'' } else { c })
}

/// The text of a style value, when it is a string or a number.
pub open spec fn value_text(v: StyleValue) -> Option<Seq<char>> {
    match v {
        StyleValue::Text(s) => Some(s@),
        StyleValue::Float(s) => Some(s@),
        StyleValue::Unsigned(n) => Some(radix_text(n as nat, 10)),
        StyleValue::Other => None,
    }
}

/// One style property as `name:value`, the name in kebab case.
pub open spec fn property_text(p: (String, StyleValue)) -> Option<Seq<char>> {
    match value_text(p.1) {
        Some(v) => Some(kebab_case(p.0@) + ":"@ + quotes_replaced(v)),
        None => None,
    }
}

/// The style properties, separated by `;`.
pub open spec fn properties_text(ps: Seq<(String, StyleValue)>) -> Option<Seq<char>>
    decreases ps.len(),
{
    if ps.len() == 0 {
        Some(Seq::empty())
    } else if ps.len() == 1 {
        property_text(ps[0])
    } else {
        join_opt(join_opt(properties_text(ps.drop_last()), Some(";"@)), property_text(ps.last()))
    }
}

/// The style attribute of an element: empty without a style.
pub open spec fn style_attribute(style: Option<Seq<(String, StyleValue)>>) -> Option<Seq<char>> {
    match style {
        None => Some(Seq::empty()),
        Some(ps) => match properties_text(ps) {
            Some(v) => Some("style=\""@ + v + "\""@),
            None => None,
        },
    }
}

/// `open`, the content's text and `close`, when the content's text is
/// defined; nothing without content.
pub open spec fn wrapped(open: Seq<char>, inner: Option<Seq<char>>, close: Seq<char>) -> Option<Seq<char>> {
    match inner {
        Some(t) => Some(open + t + close),
        None => None,
    }
}

/// The style properties of a styled element, if any.
pub open spec fn style_of(s: Option<Vec<(String, StyleValue)>>) -> Option<Seq<(String, StyleValue)>> {
    match s {
        Some(v) => Some(v@),
        None => None,
    }
}

/// The HTML-like text of structured content, images under `prefix`;
/// `None` for an element or style value that is not rendered.
pub open spec fn content_text(c: StructuredContent, prefix: Seq<char>) -> Option<Seq<char>>
    decreases c,
{
    match c {
        StructuredContent::Text(t) => Some(t@),
        StructuredContent::Children(cs) => children_content_text(cs@, prefix),
        StructuredContent::Table(t) => {
            if t.tag@ == "td"@ || t.tag@ == "th"@ {
                match t.content {
                    Some(b) => wrapped("<"@ + t.tag@ + ">"@, content_text(*b, prefix), "</"@ + t.tag@ + ">"@),
                    None => Some(Seq::empty()),
                }
            } else {
                None
            }
        },
        StructuredContent::Styled(s) => match s.content {
            Some(b) => match style_attribute(style_of(s.style)) {
                Some(st) => wrapped("<"@ + s.tag@ + " "@ + st + ">"@, content_text(*b, prefix), "</"@ + s.tag@ + ">"@),
                None => None,
            },
            None => Some(Seq::empty()),
        },
        StructuredContent::Container(k) => {
            if k.tag@ == "ruby"@ || k.tag@ == "rt"@ || k.tag@ == "table"@ || k.tag@ == "tr"@ {
                match k.content {
                    Some(b) => wrapped("<"@ + k.tag@ + ">"@, content_text(*b, prefix), "</"@ + k.tag@ + ">"@),
                    None => Some(Seq::empty()),
                }
            } else {
                None
            }
        },
        StructuredContent::Image(i) => {
            if i.tag@ == "img"@ {
                let units = match i.size_units {
                    Some(u) => units_text(u),
                    None => "em"@,
                };
                let h = match i.height {
                    Some(h) => h@,
                    None => "1"@,
                };
                let w = match i.width {
                    Some(w) => w@,
                    None => "1"@,
                };
                Some("<img style=\"height:"@ + h + units + ";width:"@ + w + units + ";\" src=\""@ + prefix + i.path@ + "\" />"@)
            } else {
                None
            }
        },
        StructuredContent::Link(l) => {
            if l.tag@ == "a"@ {
                match l.content {
                    Some(b) => wrapped("<a>"@, content_text(*b, prefix), "</a>"@),
                    None => Some(Seq::empty()),
                }
            } else {
                None
            }
        },
        StructuredContent::Empty(e) => {
            if e.tag@ == "br"@ { Some("<br />"@) } else { None }
        },
    }
}

/// The text of a list of structured content, in order.
pub open spec fn children_content_text(cs: Seq<StructuredContent>, prefix: Seq<char>) -> Option<Seq<char>>
    decreases cs,
{
    if cs.len() == 0 {
        Some(Seq::empty())
    } else {
        join_opt(children_content_text(cs.drop_last(), prefix), content_text(cs.last(), prefix))
    }
}

/// Whether every style value is a string or a number.
pub open spec fn style_renders(style: Option<Vec<(String, StyleValue)>>) -> bool {
    match style {
        None => true,
        Some(v) => forall|i: int| 0 <= i < v@.len() ==> !((#[trigger] v@[i]).1 is Other),
    }
}

/// Whether structured content holds only elements that are rendered: text,
/// children, `td`/`th` cells, styled elements whose style values are
/// strings or numbers, `ruby`/`rt`/`table`/`tr` containers, `img` images,
/// `a` links and `br`, all the way down.
pub open spec fn renders(c: StructuredContent) -> bool
    decreases c,
{
    match c {
        StructuredContent::Text(_) => true,
        StructuredContent::Children(cs) => renders_all(cs@),
        StructuredContent::Table(t) => (t.tag@ == "td"@ || t.tag@ == "th"@) && match t.content {
            Some(b) => renders(*b),
            None => true,
        },
        StructuredContent::Styled(s) => match s.content {
            Some(b) => style_renders(s.style) && renders(*b),
            None => true,
        },
        StructuredContent::Container(k) => (k.tag@ == "ruby"@ || k.tag@ == "rt"@ || k.tag@ == "table"@ || k.tag@ == "tr"@)
            && match k.content {
                Some(b) => renders(*b),
                None => true,
            },
        StructuredContent::Image(i) => i.tag@ == "img"@,
        StructuredContent::Link(l) => l.tag@ == "a"@ && match l.content {
            Some(b) => renders(*b),
            None => true,
        },
        StructuredContent::Empty(e) => e.tag@ == "br"@,
    }
}

/// Whether every item of a list of structured content renders.
pub open spec fn renders_all(cs: Seq<StructuredContent>) -> bool
    decreases cs,
{
    if cs.len() == 0 {
        true
    } else {
        renders_all(cs.drop_last()) && renders(cs.last())
    }
}

proof fn lemma_properties_render(ps: Seq<(String, StyleValue)>)
    requires
        forall|i: int| 0 <= i < ps.len() ==> !((#[trigger] ps[i]).1 is Other),
    ensures
        properties_text(ps) is Some,
    decreases ps.len(),
{
    if ps.len() > 1 {
        assert forall|i: int| 0 <= i < ps.drop_last().len() implies !((#[trigger] ps.drop_last()[i]).1 is Other) by {
            assert(ps.drop_last()[i] == ps[i]);
        }
        lemma_properties_render(ps.drop_last());
        assert(!(ps[ps.len() - 1].1 is Other));
    } else if ps.len() == 1 {
        assert(!(ps[0].1 is Other));
    }
}

/// Content whose elements are all rendered has a text: `extract_content`
/// then succeeds and appends exactly that text, the text of children being
/// theirs joined with nothing between.
pub proof fn lemma_renders_text(c: StructuredContent, prefix: Seq<char>)
    requires
        renders(c),
    ensures
        content_text(c, prefix) is Some,
    decreases c, 0int,
{
    match c {
        StructuredContent::Children(cs) => {
            assert(decreases_to!(c => cs));
            lemma_renders_all_text(cs@, prefix);
        },
        StructuredContent::Table(t) => {
            if let Some(b) = t.content {
                lemma_renders_text(*b, prefix);
            }
        },
        StructuredContent::Styled(s) => {
            if let Some(b) = s.content {
                if let Some(v) = s.style {
                    lemma_properties_render(v@);
                }
                lemma_renders_text(*b, prefix);
            }
        },
        StructuredContent::Container(k) => {
            if let Some(b) = k.content {
                lemma_renders_text(*b, prefix);
            }
        },
        StructuredContent::Link(l) => {
            if let Some(b) = l.content {
                lemma_renders_text(*b, prefix);
            }
        },
        _ => {},
    }
}

/// A list of content whose elements are all rendered has a text.
pub proof fn lemma_renders_all_text(cs: Seq<StructuredContent>, prefix: Seq<char>)
    requires
        renders_all(cs),
    ensures
        children_content_text(cs, prefix) is Some,
    decreases cs, 1int,
{
    if cs.len() > 0 {
        lemma_renders_all_text(cs.drop_last(), prefix);
        lemma_renders_text(cs.last(), prefix);
    }
}

/// A container that is rendered (`ruby`, `rt`, `table`, `tr`) and holds
/// content `b` is written as its own tag opened, the text of `b`, and its
/// tag closed; it has no text when `b` has none. A container with any other
/// tag is not rendered, and one with no content is written as nothing.
pub proof fn lemma_container_wraps_content(k: ContainerContent, b: StructuredContent, prefix: Seq<char>)
    ensures
        (k.tag@ == "ruby"@ || k.tag@ == "rt"@ || k.tag@ == "table"@ || k.tag@ == "tr"@)
            && k.content == Some(Box::new(b)) && content_text(b, prefix) is Some
            ==> content_text(StructuredContent::Container(k), prefix)
                == Some("<"@ + k.tag@ + ">"@ + content_text(b, prefix)->0 + "</"@ + k.tag@ + ">"@),
        k.content == Some(Box::new(b)) && content_text(b, prefix) is None
            ==> content_text(StructuredContent::Container(k), prefix) is None,
        (k.tag@ == "ruby"@ || k.tag@ == "rt"@ || k.tag@ == "table"@ || k.tag@ == "tr"@) && k.content is None
            ==> content_text(StructuredContent::Container(k), prefix) == Some(Seq::<char>::empty()),
        !(k.tag@ == "ruby"@ || k.tag@ == "rt"@ || k.tag@ == "table"@ || k.tag@ == "tr"@)
            ==> content_text(StructuredContent::Container(k), prefix) is None,
{
}

/// A table cell (`td`, `th`) holding content `b` is written as its tag
/// opened, the text of `b`, and its tag closed; any other table element is
/// not rendered.
pub proof fn lemma_cell_wraps_content(t: TableContent, b: StructuredContent, prefix: Seq<char>)
    ensures
        (t.tag@ == "td"@ || t.tag@ == "th"@) && t.content == Some(Box::new(b)) && content_text(b, prefix) is Some
            ==> content_text(StructuredContent::Table(t), prefix)
                == Some("<"@ + t.tag@ + ">"@ + content_text(b, prefix)->0 + "</"@ + t.tag@ + ">"@),
        t.content == Some(Box::new(b)) && content_text(b, prefix) is None
            ==> content_text(StructuredContent::Table(t), prefix) is None,
        !(t.tag@ == "td"@ || t.tag@ == "th"@) ==> content_text(StructuredContent::Table(t), prefix) is None,
{
}

/// A link (`a`) holding content `b` is written as `<a>`, the text of `b`,
/// and `</a>`; any other link element is not rendered.
pub proof fn lemma_link_wraps_content(l: LinkContent, b: StructuredContent, prefix: Seq<char>)
    ensures
        l.tag@ == "a"@ && l.content == Some(Box::new(b)) && content_text(b, prefix) is Some
            ==> content_text(StructuredContent::Link(l), prefix) == Some("<a>"@ + content_text(b, prefix)->0 + "</a>"@),
        l.content == Some(Box::new(b)) && content_text(b, prefix) is None
            ==> content_text(StructuredContent::Link(l), prefix) is None,
        l.tag@ != "a"@ ==> content_text(StructuredContent::Link(l), prefix) is None,
{
}

/// Plain text is written as it is, and a line break as `<br />`.
pub proof fn lemma_text_and_breaks(t: String, e: EmptyContent, prefix: Seq<char>)
    ensures
        content_text(StructuredContent::Text(t), prefix) == Some(t@),
        e.tag@ == "br"@ ==> content_text(StructuredContent::Empty(e), prefix) == Some("<br />"@),
        e.tag@ != "br"@ ==> content_text(StructuredContent::Empty(e), prefix) is None,
{
}

/// The text of two runs of children, one after the other, is the text of
/// the first followed by the text of the second, with nothing between; it is
/// defined exactly when both are.
pub proof fn lemma_children_concatenate(a: Seq<StructuredContent>, b: Seq<StructuredContent>, prefix: Seq<char>)
    ensures
        (children_content_text(a + b, prefix) is Some)
            <==> (children_content_text(a, prefix) is Some && children_content_text(b, prefix) is Some),
        children_content_text(a, prefix) is Some && children_content_text(b, prefix) is Some
            ==> children_content_text(a + b, prefix)->0
                == children_content_text(a, prefix)->0 + children_content_text(b, prefix)->0,
    decreases b.len(),
{
    if b.len() == 0 {
        assert(a + b =~= a);
        assert(children_content_text(a, prefix) is Some ==> children_content_text(a, prefix)->0 + Seq::<char>::empty()
            =~= children_content_text(a, prefix)->0);
    } else {
        lemma_children_concatenate(a, b.drop_last(), prefix);
        assert((a + b).drop_last() =~= a + b.drop_last());
        assert((a + b).last() == b.last());
        let x = children_content_text(a, prefix);
        let y = children_content_text(b.drop_last(), prefix);
        let z = content_text(b.last(), prefix);
        if x is Some && y is Some && z is Some {
            assert(x->0 + (y->0 + z->0) =~= (x->0 + y->0) + z->0);
        }
    }
}

fn replace_quotes(s: &str) -> (r: String)
    ensures
        r@ == quotes_replaced(s@),
{
    let c = chars_of(s);
    let mut out: Vec<char> = Vec::new();
    let mut i: usize = 0;
    while i < c.len()
        invariant
            i <= c.len(),
            out@ == quotes_replaced(c@.take(i as int)),
        decreases c.len() - i,
    {
        let ch = c[i];
        out.push(if ch == '"' { '\'' } else { ch });
        proof {
            assert(quotes_replaced(c@.take(i + 1)) =~= quotes_replaced(c@.take(i as int)).push(if ch == '"' { '\'' } else { ch }));
        }
        i = i + 1;
    }
    proof {
        assert(c@.take(i as int) =~= c@);
    }
    string_of(&out)
}

fn style_value_text(v: &StyleValue) -> (r: Option<String>)
    ensures
        r matches Some(t) ==> value_text(*v) == Some(t@),
        r is None ==> value_text(*v) is None,
{
    match v {
        StyleValue::Text(s) => Some(s.clone()),
        StyleValue::Float(s) => Some(s.clone()),
        StyleValue::Unsigned(n) => {
            let digits = radix_chars(*n, 10);
            Some(string_of(&digits))
        },
        StyleValue::Other => None,
    }
}

fn style_text(style: &Option<Vec<(String, StyleValue)>>) -> (r: Option<String>)
    ensures
        r matches Some(t) ==> style_attribute(style_of(*style)) == Some(t@),
        r is None ==> style_attribute(style_of(*style)) is None,
{
    let props = match style {
        None => {
            return Some(String::new());
        },
        Some(props) => props,
    };
    let mut value = String::new();
    let mut i: usize = 0;
    while i < props.len()
        invariant
            i <= props@.len(),
            style_of(*style) == Some(props@),
            i > 0 ==> properties_text(props@.take(i as int)) == Some(value@),
            i == 0 ==> value@ == Seq::<char>::empty(),
        decreases props.len() - i,
    {
        let ghost k = i as int;
        proof {
            assert(props@.take(k + 1).drop_last() =~= props@.take(k));
            assert(props@.take(k + 1).last() == props@[k]);
        }
        let text = match style_value_text(&props[i].1) {
            None => {
                proof {
                    assert(property_text(props@[k]) is None);
                    assert(properties_text(props@.take(k + 1)) is None);
                    lemma_properties_none(props@, k + 1);
                }
                return None;
            },
            Some(t) => t,
        };
        if i > 0 {
            value.append(";");
        }
        let name = to_kebab_case(props[i].0.as_str());
        value.append(name.as_str());
        value.append(":");
        let replaced = replace_quotes(text.as_str());
        value.append(replaced.as_str());
        proof {
            if k == 0 {
                assert(props@.take(1) =~= seq![props@[0]]);
            }
            assert(properties_text(props@.take(k + 1)) == Some(value@));
        }
        i = i + 1;
    }
    proof {
        assert(props@.take(i as int) =~= props@);
        if i == 0 {
            assert(props@.len() == 0);
        }
    }
    let mut attribute = String::new();
    attribute.append("style=\"");
    attribute.append(value.as_str());
    attribute.append("\"");
    Some(attribute)
}

/// Once a property of a prefix is not rendered, the style is not rendered.
pub proof fn lemma_properties_none(ps: Seq<(String, StyleValue)>, k: int)
    requires
        0 < k <= ps.len(),
        properties_text(ps.take(k)) is None,
    ensures
        properties_text(ps) is None,
    decreases ps.len() - k,
{
    if k < ps.len() {
        assert(ps.take(k + 1).drop_last() =~= ps.take(k));
        lemma_properties_none(ps, k + 1);
    } else {
        assert(ps.take(k) =~= ps);
    }
}

/// Once a prefix of the children is not rendered, the children are not.
pub proof fn lemma_children_content_none(cs: Seq<StructuredContent>, prefix: Seq<char>, k: int)
    requires
        0 <= k <= cs.len(),
        children_content_text(cs.take(k), prefix) is None,
    ensures
        children_content_text(cs, prefix) is None,
    decreases cs.len() - k,
{
    if k < cs.len() {
        assert(cs.take(k + 1).drop_last() =~= cs.take(k));
        lemma_children_content_none(cs, prefix, k + 1);
    } else {
        assert(cs.take(k) =~= cs);
    }
}

fn push_wrapped(full_text: &mut String, open: &str, content: &StructuredContent, close: &str, img_prefix: &str) -> (ok: bool)
    ensures
        ok == content_text(*content, img_prefix@) is Some,
        ok ==> final(full_text)@ == old(full_text)@ + open@ + content_text(*content, img_prefix@)->0 + close@,
        final(full_text)@.len() >= old(full_text)@.len(),
        final(full_text)@.take(old(full_text)@.len() as int) == old(full_text)@,
    decreases content, 1int,
{
    full_text.append(open);
    let ghost mid = full_text@;
    let ok = extract_content(content, full_text, img_prefix);
    proof {
        assert(mid.take(old(full_text)@.len() as int) =~= old(full_text)@);
        assert(full_text@.take(old(full_text)@.len() as int) =~= mid.take(old(full_text)@.len() as int));
    }
    if ok {
        let ghost before = full_text@;
        full_text.append(close);
        proof {
            assert(full_text@.take(old(full_text)@.len() as int) =~= before.take(old(full_text)@.len() as int));
        }
    }
    ok
}

/// Appends the HTML-like text of `content` to `full_text`, images under
/// `img_prefix`; see `content_text`. Returns `false` where the content
/// holds an element or style value that is not rendered; the text then
/// keeps what it had, with whatever was rendered before that appended.
pub fn extract_content(content: &StructuredContent, full_text: &mut String, img_prefix: &str) -> (ok: bool)
    ensures
        ok == content_text(*content, img_prefix@) is Some,
        ok ==> final(full_text)@ == old(full_text)@ + content_text(*content, img_prefix@)->0,
        final(full_text)@.len() >= old(full_text)@.len(),
        final(full_text)@.take(old(full_text)@.len() as int) == old(full_text)@,
    decreases content, 0int,
{
    proof {
        assert(old(full_text)@ + Seq::<char>::empty() =~= old(full_text)@);
    }
    match content {
        StructuredContent::Text(text) => {
            full_text.append(text.as_str());
            true
        },
        StructuredContent::Children(children) => {
            let ghost cs = children@;
            let ghost prefix = img_prefix@;
            let mut i: usize = 0;
            proof {
                assert(cs.take(0) =~= Seq::<StructuredContent>::empty());
            }
            while i < children.len()
                invariant
                    cs == children@,
                    *content == StructuredContent::Children(*children),
                    prefix == img_prefix@,
                    i <= cs.len(),
                    children_content_text(cs.take(i as int), prefix) == Some(full_text@.skip(old(full_text)@.len() as int)),
                    full_text@.len() >= old(full_text)@.len(),
                    full_text@.take(old(full_text)@.len() as int) == old(full_text)@,
                decreases cs.len() - i,
            {
                let ghost k = i as int;
                let ghost before = full_text@;
                proof {
                    assert(cs.take(k + 1).drop_last() =~= cs.take(k));
                    assert(cs.take(k + 1).last() == cs[k]);
                    assert(decreases_to!(*content => *children));
                    assert(decreases_to!(*children => children@));
                    assert(decreases_to!(children@ => children@[k]));
                }
                if !extract_content(&children[i], full_text, img_prefix) {
                    proof {
                        assert(full_text@.take(old(full_text)@.len() as int) =~= before.take(old(full_text)@.len() as int));
                        assert(children_content_text(cs.take(k + 1), prefix) is None);
                        lemma_children_content_none(cs, prefix, k + 1);
                    }
                    return false;
                }
                proof {
                    assert(full_text@.take(old(full_text)@.len() as int) =~= old(full_text)@);
                    assert(full_text@.skip(old(full_text)@.len() as int) =~= before.skip(old(full_text)@.len() as int) + content_text(cs[k], prefix)->0);
                }
                i = i + 1;
            }
            proof {
                assert(cs.take(i as int) =~= cs);
                assert(full_text@ =~= old(full_text)@ + full_text@.skip(old(full_text)@.len() as int));
            }
            true
        },
        StructuredContent::Table(table) => {
            let tag = table.tag.as_str();
            if str_eq(tag, "td") || str_eq(tag, "th") {
                match &table.content {
                    Some(inner) => {
                        let mut open = String::new();
                        open.append("<");
                        open.append(tag);
                        open.append(">");
                        let mut close = String::new();
                        close.append("</");
                        close.append(tag);
                        close.append(">");
                        push_wrapped(full_text, open.as_str(), inner, close.as_str(), img_prefix)
                    },
                    None => true,
                }
            } else {
                false
            }
        },
        StructuredContent::Styled(styled) => {
            match &styled.content {
                Some(inner) => {
                    let style = match style_text(&styled.style) {
                        None => {
                            return false;
                        },
                        Some(s) => s,
                    };
                    let mut open = String::new();
                    open.append("<");
                    open.append(styled.tag.as_str());
                    open.append(" ");
                    open.append(style.as_str());
                    open.append(">");
                    let mut close = String::new();
                    close.append("</");
                    close.append(styled.tag.as_str());
                    close.append(">");
                    push_wrapped(full_text, open.as_str(), inner, close.as_str(), img_prefix)
                },
                None => true,
            }
        },
        StructuredContent::Container(container) => {
            let tag = container.tag.as_str();
            if str_eq(tag, "ruby") || str_eq(tag, "rt") || str_eq(tag, "table") || str_eq(tag, "tr") {
                match &container.content {
                    Some(inner) => {
                        let mut open = String::new();
                        open.append("<");
                        open.append(tag);
                        open.append(">");
                        let mut close = String::new();
                        close.append("</");
                        close.append(tag);
                        close.append(">");
                        push_wrapped(full_text, open.as_str(), inner, close.as_str(), img_prefix)
                    },
                    None => true,
                }
            } else {
                false
            }
        },
        StructuredContent::Image(image) => {
            if str_eq(image.tag.as_str(), "img") {
                let units = match &image.size_units {
                    Some(u) => u.to_string(),
                    None => "em".to_owned(),
                };
                let height = match &image.height {
                    Some(h) => h.clone(),
                    None => "1".to_owned(),
                };
                let width = match &image.width {
                    Some(w) => w.clone(),
                    None => "1".to_owned(),
                };
                full_text.append("<img style=\"height:");
                full_text.append(height.as_str());
                full_text.append(units.as_str());
                full_text.append(";width:");
                full_text.append(width.as_str());
                full_text.append(units.as_str());
                full_text.append(";\" src=\"");
                full_text.append(img_prefix);
                full_text.append(image.path.as_str());
                full_text.append("\" />");
                true
            } else {
                false
            }
        },
        StructuredContent::Link(link) => {
            if str_eq(link.tag.as_str(), "a") {
                match &link.content {
                    Some(inner) => push_wrapped(full_text, "<a>", inner, "</a>", img_prefix),
                    None => true,
                }
            } else {
                false
            }
        },
        StructuredContent::Empty(empty) => {
            if str_eq(empty.tag.as_str(), "br") {
                full_text.append("<br />");
                true
            } else {
                false
            }
        },
    }
}

} // verus!
