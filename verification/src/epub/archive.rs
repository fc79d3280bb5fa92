//! Reading the chapters and text of a publication from its HTML documents.
use vstd::prelude::*;
use crate::language_pack_jp::processor::{nfkc, nfkc_string};
use crate::epub::layout::{
    chapter_entries, chapter_entries_of, chapter_pages, chapter_ranges, docs_blocks, position_from,
    range_views, ref_ids, refs_view, rendered_text, spine_files, spine_indices, start_chapter,
    start_document, start_position, string_views, ChapterRange,
};
use crate::epub::package::Package;
use crate::epub::v2::ncx::spec::{entry_views, Entry};
use crate::epub::v2::ncx::spec::Ncx as NcxSpec;
use crate::epub::v3::package::spec::Package as PackageSpec;
use crate::text::str_eq;

verus! {

/// A block of a chapter.
#[derive(Debug)]
pub enum EpubNode {
    Chapter(String),
    Header(String),
    Paragraph(String),
}

/// The kind of a block of a chapter.
#[derive(Debug, Clone, Copy, PartialEq, Eq, Structural)]
pub enum BlockKind {
    Chapter,
    Header,
    Paragraph,
}

impl View for EpubNode {
    type V = (BlockKind, Seq<char>);

    open spec fn view(&self) -> (BlockKind, Seq<char>) {
        match self {
            EpubNode::Chapter(s) => (BlockKind::Chapter, s@),
            EpubNode::Header(s) => (BlockKind::Header, s@),
            EpubNode::Paragraph(s) => (BlockKind::Paragraph, s@),
        }
    }
}

/// A node of a parsed HTML document: elements by their local name.
#[derive(Debug)]
pub enum HtmlNode {
    Document { children: Vec<HtmlNode> },
    Doctype,
    Text { contents: String },
    Comment,
    Element { name: String, children: Vec<HtmlNode> },
    ProcessingInstruction,
}

/// A block as plain values.
pub type Block = (BlockKind, Seq<char>);

/// Both parts, joined, when both are there.
pub open spec fn join_opt<T>(a: Option<Seq<T>>, b: Option<Seq<T>>) -> Option<Seq<T>> {
    match (a, b) {
        (Some(x), Some(y)) => Some(x + y),
        _ => None,
    }
}

/// Whether a node is an element with the local name `name`.
pub open spec fn is_element(n: HtmlNode, name: Seq<char>) -> bool {
    n matches HtmlNode::Element { name: nm, .. } && nm@ == name
}

/// Whether a node is a `span` or `ruby` element, after which a text stays
/// part of the same line.
pub open spec fn is_inline_element(n: HtmlNode) -> bool {
    is_element(n, "span"@) || is_element(n, "ruby"@)
}

// ---- text ----

/// The text of `n` (NFKC-normalised text nodes, read only in text mode),
/// or `None` where the reading is not defined (a doctype or processing
/// instruction is reached).
pub open spec fn node_text(n: HtmlNode, mode: bool) -> Option<Seq<char>>
    decreases n, 0int,
{
    match n {
        HtmlNode::Document { children } => children_text(children@, mode, true),
        HtmlNode::Text { contents } => Some(if mode { nfkc(contents@) } else { Seq::empty() }),
        HtmlNode::Element { children, .. } => children_text(children@, mode, false),
        HtmlNode::Comment => Some(Seq::empty()),
        _ => None,
    }
}

/// The text of the children `cs`: of a document (`doc`), only its `html`
/// elements, outside text mode.
pub open spec fn children_text(cs: Seq<HtmlNode>, mode: bool, doc: bool) -> Option<Seq<char>>
    decreases cs, 0int,
{
    if cs.len() == 0 {
        Some(Seq::empty())
    } else {
        join_opt(children_text(cs.drop_last(), mode, doc), child_text(cs.last(), mode, doc))
    }
}

/// The text of one child: headings, paragraphs and spans are read in text
/// mode, a ruby element by its first child (not the reading above it).
pub open spec fn child_text(c: HtmlNode, mode: bool, doc: bool) -> Option<Seq<char>>
    decreases c, 1int,
{
    if doc {
        if is_element(c, "html"@) { node_text(c, false) } else { Some(Seq::empty()) }
    } else {
        match c {
            HtmlNode::Element { name, children } => {
                if name@ == "h1"@ || name@ == "p"@ || name@ == "span"@ {
                    node_text(c, true)
                } else if name@ == "ruby"@ {
                    if children@.len() > 0 { node_text(children@[0], true) } else { Some(Seq::empty()) }
                } else {
                    node_text(c, mode)
                }
            },
            _ => node_text(c, mode),
        }
    }
}

/// Where a child's text is defined, so is the text of every prefix of the
/// children and of each child.
pub proof fn lemma_children_text_prefix(cs: Seq<HtmlNode>, mode: bool, doc: bool, i: int)
    requires
        children_text(cs, mode, doc) is Some,
        0 <= i < cs.len(),
    ensures
        children_text(cs.take(i), mode, doc) is Some,
        child_text(cs[i], mode, doc) is Some,
        children_text(cs.take(i + 1), mode, doc) == join_opt(children_text(cs.take(i), mode, doc), child_text(cs[i], mode, doc)),
    decreases cs.len(),
{
    assert(cs.take(i + 1).drop_last() =~= cs.take(i));
    if i < cs.len() - 1 {
        lemma_children_text_prefix(cs.drop_last(), mode, doc, i);
        assert(cs.drop_last().take(i) =~= cs.take(i));
        assert(cs.drop_last().take(i + 1) =~= cs.take(i + 1));
    } else {
        assert(cs.drop_last() =~= cs.take(i));
        assert(cs.take(i + 1) =~= cs);
    }
}

/// Appends to `text` the text of `node`; see `node_text`.
pub fn html_to_text(text: &mut String, node: &HtmlNode, text_mode: bool, inline_text: bool)
    requires
        node_text(*node, text_mode) is Some,
    ensures
        final(text)@ == old(text)@ + node_text(*node, text_mode)->0,
    decreases node, 0int,
{
    match node {
        HtmlNode::Document { children } => {
            children_to_text(text, children, text_mode, true);
        },
        HtmlNode::Text { contents } => {
            if text_mode {
                let normalized = nfkc_string(contents.as_str());
                text.append(normalized.as_str());
            } else {
                proof {
                    assert(old(text)@ + Seq::<char>::empty() =~= old(text)@);
                }
            }
        },
        HtmlNode::Element { children, .. } => {
            children_to_text(text, children, text_mode, false);
        },
        HtmlNode::Comment => {
            proof {
                assert(old(text)@ + Seq::<char>::empty() =~= old(text)@);
            }
        },
        _ => {
            proof {
                assert(false);
            }
        },
    }
}

fn children_to_text(text: &mut String, children: &Vec<HtmlNode>, text_mode: bool, doc: bool)
    requires
        children_text(children@, text_mode, doc) is Some,
    ensures
        final(text)@ == old(text)@ + children_text(children@, text_mode, doc)->0,
    decreases children@, 0int,
{
    let ghost cs = children@;
    let mut i: usize = 0;
    proof {
        assert(cs.take(0) =~= Seq::<HtmlNode>::empty());
        assert(old(text)@ + Seq::<char>::empty() =~= old(text)@);
    }
    while i < children.len()
        invariant
            cs == children@,
            children_text(cs, text_mode, doc) is Some,
            i <= cs.len(),
            children_text(cs.take(i as int), text_mode, doc) is Some,
            text@ == old(text)@ + children_text(cs.take(i as int), text_mode, doc)->0,
        decreases cs.len() - i,
    {
        proof {
            lemma_children_text_prefix(cs, text_mode, doc, i as int);
            assert(decreases_to!(cs => cs[i as int]));
        }
        let ghost before = text@;
        child_to_text(text, &children[i], text_mode, doc);
        proof {
            assert(text@ =~= old(text)@ + children_text(cs.take(i + 1), text_mode, doc)->0);
        }
        i = i + 1;
    }
    proof {
        assert(cs.take(i as int) =~= cs);
    }
}

fn child_to_text(text: &mut String, child: &HtmlNode, text_mode: bool, doc: bool)
    requires
        child_text(*child, text_mode, doc) is Some,
    ensures
        final(text)@ == old(text)@ + child_text(*child, text_mode, doc)->0,
    decreases child, 1int,
{
    if doc {
        let is_html = match child {
            HtmlNode::Element { name, .. } => str_eq(name.as_str(), "html"),
            _ => false,
        };
        if is_html {
            html_to_text(text, child, false, false);
        } else {
            proof {
                assert(old(text)@ + Seq::<char>::empty() =~= old(text)@);
            }
        }
        return;
    }
    match child {
        HtmlNode::Element { name, children } => {
            let name = name.as_str();
            if str_eq(name, "h1") || str_eq(name, "p") {
                html_to_text(text, child, true, false);
            } else if str_eq(name, "span") {
                html_to_text(text, child, true, true);
            } else if str_eq(name, "ruby") {
                // Only the base text counts; the reading above it does not.
                if children.len() > 0 {
                    proof {
                        assert(decreases_to!(*child => children@[0]));
                    }
                    html_to_text(text, &children[0], true, true);
                } else {
                    proof {
                        assert(old(text)@ + Seq::<char>::empty() =~= old(text)@);
                    }
                }
            } else {
                html_to_text(text, child, text_mode, false);
            }
        },
        _ => {
            html_to_text(text, child, text_mode, false);
        },
    }
}

// ---- blocks ----

/// A single block of kind `k` holding `t`, where `t` is defined.
pub open spec fn text_block(k: BlockKind, t: Option<Seq<char>>) -> Option<Seq<Block>> {
    match t {
        Some(s) => Some(seq![(k, s)]),
        None => None,
    }
}

/// Whether the child after position `i` of `cs` is a `span` or `ruby`
/// element.
pub open spec fn next_is_inline(cs: Seq<HtmlNode>, i: int) -> bool {
    i + 1 < cs.len() && is_inline_element(cs[i + 1])
}

/// The blocks of `n`: each heading, paragraph and stand-alone text in text
/// mode, in document order; `None` where reading is not defined (a
/// doctype, comment, processing instruction or unknown element is
/// reached). A text directly followed by a `span` or `ruby` element
/// (`next_inline`) gives no block.
pub open spec fn node_blocks(n: HtmlNode, mode: bool, next_inline: bool) -> Option<Seq<Block>>
    decreases n, 0int, 0int,
{
    match n {
        HtmlNode::Document { children } => children_blocks(children@, children@.len() as int, mode, true),
        HtmlNode::Element { children, .. } => children_blocks(children@, children@.len() as int, mode, false),
        HtmlNode::Text { contents } => Some(
            if mode && !next_inline { seq![(BlockKind::Paragraph, contents@)] } else { Seq::empty() },
        ),
        _ => None,
    }
}

/// The blocks of the first `k` children `cs`; of a document (`doc`), only
/// its `html` elements, outside text mode.
pub open spec fn children_blocks(cs: Seq<HtmlNode>, k: int, mode: bool, doc: bool) -> Option<Seq<Block>>
    decreases cs, 2int, k,
{
    if k <= 0 || k > cs.len() {
        Some(Seq::empty())
    } else {
        join_opt(children_blocks(cs, k - 1, mode, doc), child_blocks(cs[k - 1], mode, doc, next_is_inline(cs, k - 1)))
    }
}

/// The blocks of one child: `h1` is a chapter title, `h2` and `h3` headers,
/// `p` a paragraph; spans are read in text mode, a ruby element by its
/// first child; `body`, `div` and `a` are read through; `head`, `br`,
/// `svg`, `hr`, `table` and `img` are skipped.
pub open spec fn child_blocks(c: HtmlNode, mode: bool, doc: bool, next_inline: bool) -> Option<Seq<Block>>
    decreases c, 1int, 0int,
{
    if doc {
        if is_element(c, "html"@) { node_blocks(c, false, false) } else { Some(Seq::empty()) }
    } else {
        match c {
            HtmlNode::Element { name, children } => {
                if name@ == "h1"@ {
                    text_block(BlockKind::Chapter, node_text(c, true))
                } else if name@ == "h2"@ || name@ == "h3"@ {
                    text_block(BlockKind::Header, node_text(c, true))
                } else if name@ == "p"@ {
                    text_block(BlockKind::Paragraph, node_text(c, true))
                } else if name@ == "span"@ {
                    node_blocks(c, true, false)
                } else if name@ == "ruby"@ {
                    if children@.len() > 0 {
                        node_blocks(children@[0], true, next_is_inline(children@, 0))
                    } else {
                        Some(Seq::empty())
                    }
                } else if name@ == "body"@ || name@ == "div"@ || name@ == "a"@ {
                    node_blocks(c, mode, false)
                } else if name@ == "head"@ || name@ == "br"@ || name@ == "svg"@ || name@ == "hr"@
                    || name@ == "table"@ || name@ == "img"@ {
                    Some(Seq::empty())
                } else {
                    None
                }
            },
            _ => node_blocks(c, mode, next_inline),
        }
    }
}

/// Where the blocks of the first `k` children are defined, so are those of
/// every shorter prefix and of each child in it.
pub proof fn lemma_children_blocks_prefix(cs: Seq<HtmlNode>, k: int, mode: bool, doc: bool, i: int)
    requires
        children_blocks(cs, k, mode, doc) is Some,
        0 <= i < k <= cs.len(),
    ensures
        children_blocks(cs, i, mode, doc) is Some,
        child_blocks(cs[i], mode, doc, next_is_inline(cs, i)) is Some,
    decreases k,
{
    if i < k - 1 {
        lemma_children_blocks_prefix(cs, k - 1, mode, doc, i);
    }
}

/// The blocks that a list of chapter nodes holds.
pub open spec fn blocks_of(v: Seq<EpubNode>) -> Seq<Block> {
    v.map_values(|b: EpubNode| b@)
}

/// Appends to `text` the blocks of `node`; `next_inline` tells whether the
/// node is followed by a `span` or `ruby` element. See `node_blocks`.
pub fn html_to_node(text: &mut Vec<EpubNode>, node: &HtmlNode, text_mode: bool, inline_text: bool, next_inline: bool)
    requires
        node_blocks(*node, text_mode, next_inline) is Some,
    ensures
        blocks_of(final(text)@) == blocks_of(old(text)@) + node_blocks(*node, text_mode, next_inline)->0,
    decreases node, 0int, 0int,
{
    match node {
        HtmlNode::Document { children } => {
            children_to_nodes(text, children, children.len(), text_mode, true);
        },
        HtmlNode::Element { children, .. } => {
            children_to_nodes(text, children, children.len(), text_mode, false);
        },
        HtmlNode::Text { contents } => {
            if text_mode && !next_inline {
                let ghost before = blocks_of(text@);
                text.push(EpubNode::Paragraph(contents.clone()));
                proof {
                    assert(blocks_of(text@) =~= before + seq![(BlockKind::Paragraph, contents@)]);
                }
            } else {
                proof {
                    assert(blocks_of(old(text)@) + Seq::<Block>::empty() =~= blocks_of(old(text)@));
                }
            }
        },
        _ => {
            proof {
                assert(false);
            }
        },
    }
}

fn children_to_nodes(text: &mut Vec<EpubNode>, children: &Vec<HtmlNode>, k: usize, text_mode: bool, doc: bool)
    requires
        k <= children@.len(),
        children_blocks(children@, k as int, text_mode, doc) is Some,
    ensures
        blocks_of(final(text)@) == blocks_of(old(text)@) + children_blocks(children@, k as int, text_mode, doc)->0,
    decreases children@, 2int, k,
{
    if k == 0 {
        proof {
            assert(blocks_of(old(text)@) + Seq::<Block>::empty() =~= blocks_of(old(text)@));
        }
        return;
    }
    proof {
        lemma_children_blocks_prefix(children@, k as int, text_mode, doc, k - 1);
    }
    children_to_nodes(text, children, k - 1, text_mode, doc);
    let ghost mid = blocks_of(text@);
    let next_inline = k < children.len() && is_inline(&children[k]);
    proof {
        assert(decreases_to!(children@ => children@[k - 1]));
    }
    child_to_nodes(text, &children[k - 1], text_mode, doc, next_inline);
    proof {
        assert(blocks_of(text@) =~= blocks_of(old(text)@) + children_blocks(children@, k as int, text_mode, doc)->0);
    }
}

fn is_inline(node: &HtmlNode) -> (r: bool)
    ensures
        r == is_inline_element(*node),
{
    match node {
        HtmlNode::Element { name, .. } => str_eq(name.as_str(), "span") || str_eq(name.as_str(), "ruby"),
        _ => false,
    }
}

fn push_text_block(text: &mut Vec<EpubNode>, kind: BlockKind, node: &HtmlNode)
    requires
        node_text(*node, true) is Some,
    ensures
        blocks_of(final(text)@) == blocks_of(old(text)@) + seq![(kind, node_text(*node, true)->0)],
{
    let mut title = String::new();
    html_to_text(&mut title, node, true, false);
    proof {
        assert(title@ =~= node_text(*node, true)->0);
    }
    let block = match kind {
        BlockKind::Chapter => EpubNode::Chapter(title),
        BlockKind::Header => EpubNode::Header(title),
        BlockKind::Paragraph => EpubNode::Paragraph(title),
    };
    let ghost before = blocks_of(text@);
    text.push(block);
    proof {
        assert(blocks_of(text@) =~= before + seq![(kind, node_text(*node, true)->0)]);
    }
}

fn child_to_nodes(text: &mut Vec<EpubNode>, child: &HtmlNode, text_mode: bool, doc: bool, next_inline: bool)
    requires
        child_blocks(*child, text_mode, doc, next_inline) is Some,
    ensures
        blocks_of(final(text)@) == blocks_of(old(text)@) + child_blocks(*child, text_mode, doc, next_inline)->0,
    decreases child, 1int, 0int,
{
    proof {
        assert(blocks_of(old(text)@) + Seq::<Block>::empty() =~= blocks_of(old(text)@));
    }
    if doc {
        let is_html = match child {
            HtmlNode::Element { name, .. } => str_eq(name.as_str(), "html"),
            _ => false,
        };
        if is_html {
            html_to_node(text, child, false, false, false);
        }
        return;
    }
    match child {
        HtmlNode::Element { name, children } => {
            let name = name.as_str();
            if str_eq(name, "h1") {
                push_text_block(text, BlockKind::Chapter, child);
            } else if str_eq(name, "h2") || str_eq(name, "h3") {
                push_text_block(text, BlockKind::Header, child);
            } else if str_eq(name, "p") {
                push_text_block(text, BlockKind::Paragraph, child);
            } else if str_eq(name, "span") {
                html_to_node(text, child, true, true, false);
            } else if str_eq(name, "ruby") {
                // Only the base text counts; the reading above it does not.
                if children.len() > 0 {
                    let after = children.len() > 1 && is_inline(&children[1]);
                    proof {
                        assert(decreases_to!(*child => children@[0]));
                    }
                    html_to_node(text, &children[0], true, true, after);
                }
            } else if str_eq(name, "body") || str_eq(name, "div") || str_eq(name, "a") {
                html_to_node(text, child, text_mode, false, false);
            } else if str_eq(name, "head") || str_eq(name, "br") || str_eq(name, "svg") || str_eq(name, "hr")
                || str_eq(name, "table") || str_eq(name, "img") {
            } else {
                proof {
                    assert(false);
                }
            }
        },
        _ => {
            html_to_node(text, child, text_mode, false, next_inline);
        },
    }
}

// ---- where reading is defined ----

/// The text of the children is defined exactly when each child's is.
pub proof fn lemma_children_text_all(cs: Seq<HtmlNode>, mode: bool, doc: bool)
    ensures
        children_text(cs, mode, doc) is Some <==> forall|i: int| 0 <= i < cs.len() ==> (#[trigger] child_text(cs[i], mode, doc)) is Some,
    decreases cs.len(),
{
    if cs.len() > 0 {
        let d = cs.drop_last();
        lemma_children_text_all(d, mode, doc);
        if children_text(cs, mode, doc) is Some {
            assert forall|i: int| 0 <= i < cs.len() implies (#[trigger] child_text(cs[i], mode, doc)) is Some by {
                if i < cs.len() - 1 {
                    assert(d[i] == cs[i]);
                    assert(child_text(d[i], mode, doc) is Some);
                }
            }
        }
        if forall|i: int| 0 <= i < cs.len() ==> (#[trigger] child_text(cs[i], mode, doc)) is Some {
            assert forall|i: int| 0 <= i < d.len() implies (#[trigger] child_text(d[i], mode, doc)) is Some by {
                assert(d[i] == cs[i]);
                assert(child_text(cs[i], mode, doc) is Some);
            }
            assert(child_text(cs[cs.len() - 1], mode, doc) is Some);
        }
    }
}

/// The blocks of the first `k` children are defined exactly when each of
/// those children's are.
pub proof fn lemma_children_blocks_all(cs: Seq<HtmlNode>, k: int, mode: bool, doc: bool)
    requires
        0 <= k <= cs.len(),
    ensures
        children_blocks(cs, k, mode, doc) is Some <==> forall|i: int| 0 <= i < k ==> (#[trigger] child_blocks(cs[i], mode, doc, next_is_inline(cs, i))) is Some,
    decreases k,
{
    if k > 0 {
        lemma_children_blocks_all(cs, k - 1, mode, doc);
        if forall|i: int| 0 <= i < k ==> (#[trigger] child_blocks(cs[i], mode, doc, next_is_inline(cs, i))) is Some {
            assert(child_blocks(cs[k - 1], mode, doc, next_is_inline(cs, k - 1)) is Some);
            assert forall|i: int| 0 <= i < k - 1 implies (#[trigger] child_blocks(cs[i], mode, doc, next_is_inline(cs, i))) is Some by {}
        }
    }
}

/// Whether the text of `node` is defined; see `node_text`.
pub fn text_defined(node: &HtmlNode, mode: bool) -> (r: bool)
    ensures
        r == node_text(*node, mode) is Some,
    decreases node, 0int,
{
    match node {
        HtmlNode::Document { children } => children_text_defined(children, mode, true),
        HtmlNode::Element { children, .. } => children_text_defined(children, mode, false),
        HtmlNode::Text { .. } => true,
        HtmlNode::Comment => true,
        _ => false,
    }
}

fn children_text_defined(children: &Vec<HtmlNode>, mode: bool, doc: bool) -> (r: bool)
    ensures
        r == children_text(children@, mode, doc) is Some,
    decreases children@, 0int,
{
    proof {
        lemma_children_text_all(children@, mode, doc);
    }
    let mut i: usize = 0;
    while i < children.len()
        invariant
            i <= children@.len(),
            forall|j: int| 0 <= j < i ==> (#[trigger] child_text(children@[j], mode, doc)) is Some,
        decreases children.len() - i,
    {
        proof {
            assert(decreases_to!(children@ => children@[i as int]));
        }
        if !child_text_defined(&children[i], mode, doc) {
            proof {
                lemma_children_text_all(children@, mode, doc);
                assert(!(child_text(children@[i as int], mode, doc) is Some));
            }
            return false;
        }
        i = i + 1;
    }
    true
}

fn child_text_defined(child: &HtmlNode, mode: bool, doc: bool) -> (r: bool)
    ensures
        r == child_text(*child, mode, doc) is Some,
    decreases child, 1int,
{
    if doc {
        let is_html = match child {
            HtmlNode::Element { name, .. } => str_eq(name.as_str(), "html"),
            _ => false,
        };
        if is_html {
            return text_defined(child, false);
        }
        return true;
    }
    match child {
        HtmlNode::Element { name, children } => {
            let name = name.as_str();
            if str_eq(name, "h1") || str_eq(name, "p") || str_eq(name, "span") {
                text_defined(child, true)
            } else if str_eq(name, "ruby") {
                if children.len() > 0 {
                    proof {
                        assert(decreases_to!(*child => children@[0]));
                    }
                    text_defined(&children[0], true)
                } else {
                    true
                }
            } else {
                text_defined(child, mode)
            }
        },
        _ => text_defined(child, mode),
    }
}

/// Whether the blocks of `node` are defined; see `node_blocks`.
pub fn blocks_defined(node: &HtmlNode, mode: bool, next_inline: bool) -> (r: bool)
    ensures
        r == node_blocks(*node, mode, next_inline) is Some,
    decreases node, 0int, 0int,
{
    match node {
        HtmlNode::Document { children } => children_blocks_defined(children, mode, true),
        HtmlNode::Element { children, .. } => children_blocks_defined(children, mode, false),
        HtmlNode::Text { .. } => true,
        _ => false,
    }
}

fn children_blocks_defined(children: &Vec<HtmlNode>, mode: bool, doc: bool) -> (r: bool)
    ensures
        r == children_blocks(children@, children@.len() as int, mode, doc) is Some,
    decreases children@, 2int, 0int,
{
    proof {
        lemma_children_blocks_all(children@, children@.len() as int, mode, doc);
    }
    let mut i: usize = 0;
    while i < children.len()
        invariant
            i <= children@.len(),
            forall|j: int| 0 <= j < i ==> (#[trigger] child_blocks(children@[j], mode, doc, next_is_inline(children@, j))) is Some,
        decreases children.len() - i,
    {
        proof {
            assert(decreases_to!(children@ => children@[i as int]));
        }
        let next_inline = i + 1 < children.len() && is_inline(&children[i + 1]);
        if !child_blocks_defined(&children[i], mode, doc, next_inline) {
            proof {
                lemma_children_blocks_all(children@, children@.len() as int, mode, doc);
                assert(!(child_blocks(children@[i as int], mode, doc, next_is_inline(children@, i as int)) is Some));
            }
            return false;
        }
        i = i + 1;
    }
    true
}

fn child_blocks_defined(child: &HtmlNode, mode: bool, doc: bool, next_inline: bool) -> (r: bool)
    ensures
        r == child_blocks(*child, mode, doc, next_inline) is Some,
    decreases child, 1int, 0int,
{
    if doc {
        let is_html = match child {
            HtmlNode::Element { name, .. } => str_eq(name.as_str(), "html"),
            _ => false,
        };
        if is_html {
            return blocks_defined(child, false, false);
        }
        return true;
    }
    match child {
        HtmlNode::Element { name, children } => {
            let name = name.as_str();
            if str_eq(name, "h1") || str_eq(name, "h2") || str_eq(name, "h3") || str_eq(name, "p") {
                text_defined(child, true)
            } else if str_eq(name, "span") {
                blocks_defined(child, true, false)
            } else if str_eq(name, "ruby") {
                if children.len() > 0 {
                    let after = children.len() > 1 && is_inline(&children[1]);
                    proof {
                        assert(decreases_to!(*child => children@[0]));
                    }
                    blocks_defined(&children[0], true, after)
                } else {
                    true
                }
            } else if str_eq(name, "body") || str_eq(name, "div") || str_eq(name, "a") {
                blocks_defined(child, mode, false)
            } else {
                str_eq(name, "head") || str_eq(name, "br") || str_eq(name, "svg") || str_eq(name, "hr")
                    || str_eq(name, "table") || str_eq(name, "img")
            }
        },
        _ => blocks_defined(child, mode, next_inline),
    }
}

// ---- the archive ----

/// A publication: its package, its text from the start of the reading
/// order, and the blocks of each chapter of its table of contents.
#[derive(Debug)]
pub struct EpubArchive {
    pub package: Package,
    pub rendered: String,
    pub chapters: Vec<(String, Vec<EpubNode>)>,
}

/// The documents at the positions `sp`.
pub open spec fn pick<T>(v: Seq<T>, sp: Seq<int>) -> Seq<T> {
    sp.map_values(|j: int| v[j])
}

/// The blocks of each chapter range over the documents `docs`.
pub open spec fn chapters_blocks(rs: Seq<ChapterRange>, docs: Seq<HtmlNode>) -> Option<Seq<(Seq<char>, Seq<Block>)>>
    decreases rs.len(),
{
    if rs.len() == 0 {
        Some(Seq::empty())
    } else {
        let r = rs.last();
        match (chapters_blocks(rs.drop_last(), docs), docs_blocks(docs.subrange(r.1, r.2))) {
            (Some(a), Some(b)) => Some(a.push((r.0, b))),
            _ => None,
        }
    }
}

/// The chapters of a publication whose reading order holds `paths` and
/// `docs`: none without a table of contents.
pub open spec fn chapters_of(ncx: Option<NcxSpec>, paths: Seq<Seq<char>>, docs: Seq<HtmlNode>) -> Option<Seq<(Seq<char>, Seq<Block>)>> {
    match ncx {
        None => Some(Seq::empty()),
        Some(n) => match chapter_ranges(chapter_entries_of(n.navmap.nav_points@), paths, 0, 0) {
            Some(rs) => chapters_blocks(rs, docs),
            None => None,
        },
    }
}

/// The text and chapters of a publication with package `package`, XHTML
/// files `files` (id and path) parsed as `docs`, and table of contents
/// `ncx`; `None` where reading it is not defined.
pub open spec fn archive_contents(package: PackageSpec, files: Seq<Entry>, docs: Seq<HtmlNode>, ncx: Option<NcxSpec>) -> Option<(Seq<char>, Seq<(Seq<char>, Seq<Block>)>)> {
    let ids = files.map_values(|f: Entry| f.0);
    let paths = files.map_values(|f: Entry| f.1);
    match spine_indices(ids, ref_ids(package.spine.itemrefs@)) {
        None => None,
        Some(sp) => {
            let spaths = pick(paths, sp);
            let sdocs = pick(docs, sp);
            let guide = match package.guide {
                Some(g) => Some(g.references@),
                None => None,
            };
            match (chapters_of(ncx, spaths, sdocs), start_document(guide, spaths)) {
                (Some(ch), Some(st)) => {
                    let p = position_from(spaths, 0, st);
                    if p < 0 {
                        None
                    } else {
                        match rendered_text(sdocs.skip(p)) {
                            Some(t) => Some((t, ch)),
                            None => None,
                        }
                    }
                },
                _ => None,
            }
        },
    }
}

/// The nodes that a list of references points to.
pub open spec fn node_refs(v: Seq<&HtmlNode>) -> Seq<HtmlNode> {
    v.map_values(|n: &HtmlNode| *n)
}

/// The chapters as plain values.
pub open spec fn chapter_views(v: Seq<(String, Vec<EpubNode>)>) -> Seq<(Seq<char>, Seq<Block>)> {
    v.map_values(|c: (String, Vec<EpubNode>)| (c.0@, blocks_of(c.1@)))
}

fn render(docs: &Vec<&HtmlNode>, from: usize) -> (r: Option<String>)
    requires
        from <= docs@.len(),
    ensures
        r matches Some(t) ==> rendered_text(node_refs(docs@).skip(from as int)) == Some(t@),
        r is None ==> rendered_text(node_refs(docs@).skip(from as int)) is None,
{
    let ghost all = node_refs(docs@).skip(from as int);
    let mut text = String::new();
    let mut i = from;
    proof {
        assert(all.take(0) =~= Seq::<HtmlNode>::empty());
    }
    while i < docs.len()
        invariant
            all == node_refs(docs@).skip(from as int),
            from <= i <= docs@.len(),
            rendered_text(all.take(i - from)) == Some(text@),
        decreases docs.len() - i,
    {
        let ghost k = i - from;
        proof {
            assert(all[k] == *docs@[i as int]);
            assert(all.take(k + 1).drop_last() =~= all.take(k));
            assert(all.take(k + 1).last() == all[k]);
        }
        if !text_defined(docs[i], false) {
            proof {
                lemma_rendered_none(all, k + 1);
            }
            return None;
        }
        if i > from {
            text.append("\n\n");
        }
        html_to_text(&mut text, docs[i], false, false);
        proof {
            if k == 0 {
                assert(all.take(1) =~= seq![all[0]]);
            }
            assert(rendered_text(all.take(k + 1)) == Some(text@));
        }
        i = i + 1;
    }
    proof {
        assert(all.take(i - from) =~= all);
    }
    Some(text)
}

/// Once the text of a prefix of the documents is undefined, so is the
/// text of all of them.
pub proof fn lemma_rendered_none(docs: Seq<HtmlNode>, k: int)
    requires
        0 < k <= docs.len(),
        node_text(docs[k - 1], false) is None,
    ensures
        rendered_text(docs) is None,
    decreases docs.len() - k,
{
    assert(docs.take(k).drop_last() =~= docs.take(k - 1));
    assert(docs.take(k).last() == docs[k - 1]);
    assert(rendered_text(docs.take(k)) is None);
    lemma_rendered_prefix_none(docs, k);
}

/// Once the text of a prefix of the documents is undefined, so is the
/// text of every longer prefix.
pub proof fn lemma_rendered_prefix_none(docs: Seq<HtmlNode>, k: int)
    requires
        0 <= k <= docs.len(),
        rendered_text(docs.take(k)) is None,
    ensures
        rendered_text(docs) is None,
    decreases docs.len() - k,
{
    if k < docs.len() {
        assert(docs.take(k + 1).drop_last() =~= docs.take(k));
        lemma_rendered_prefix_none(docs, k + 1);
    } else {
        assert(docs.take(k) =~= docs);
    }
}

/// Once the blocks of one document are undefined, so are those of all.
pub proof fn lemma_docs_blocks_none(docs: Seq<HtmlNode>, k: int)
    requires
        0 <= k <= docs.len(),
        docs_blocks(docs.take(k)) is None,
    ensures
        docs_blocks(docs) is None,
    decreases docs.len() - k,
{
    if k < docs.len() {
        assert(docs.take(k + 1).drop_last() =~= docs.take(k));
        lemma_docs_blocks_none(docs, k + 1);
    } else {
        assert(docs.take(k) =~= docs);
    }
}

fn chapter_text(docs: &Vec<&HtmlNode>, lo: usize, hi: usize) -> (r: Option<Vec<EpubNode>>)
    requires
        lo <= hi <= docs@.len(),
    ensures
        r matches Some(v) ==> docs_blocks(node_refs(docs@).subrange(lo as int, hi as int)) == Some(blocks_of(v@)),
        r is None ==> docs_blocks(node_refs(docs@).subrange(lo as int, hi as int)) is None,
{
    let ghost all = node_refs(docs@).subrange(lo as int, hi as int);
    let mut text: Vec<EpubNode> = Vec::new();
    let mut i = lo;
    proof {
        assert(all.take(0) =~= Seq::<HtmlNode>::empty());
        assert(blocks_of(text@) =~= Seq::<Block>::empty());
    }
    while i < hi
        invariant
            all == node_refs(docs@).subrange(lo as int, hi as int),
            lo <= i <= hi <= docs@.len(),
            docs_blocks(all.take(i - lo)) == Some(blocks_of(text@)),
        decreases hi - i,
    {
        let ghost k = i - lo;
        proof {
            assert(all[k] == *docs@[i as int]);
            assert(all.take(k + 1).drop_last() =~= all.take(k));
            assert(all.take(k + 1).last() == all[k]);
        }
        if !blocks_defined(docs[i], false, false) {
            proof {
                assert(docs_blocks(all.take(k + 1)) is None);
                lemma_docs_blocks_none(all, k + 1);
            }
            return None;
        }
        html_to_node(&mut text, docs[i], false, false, false);
        i = i + 1;
    }
    proof {
        assert(all.take(i - lo) =~= all);
    }
    Some(text)
}

/// Once the blocks of a prefix of the chapters are undefined, so are those
/// of all chapters.
pub proof fn lemma_chapters_none(rs: Seq<ChapterRange>, docs: Seq<HtmlNode>, k: int)
    requires
        0 <= k <= rs.len(),
        chapters_blocks(rs.take(k), docs) is None,
    ensures
        chapters_blocks(rs, docs) is None,
    decreases rs.len() - k,
{
    if k < rs.len() {
        assert(rs.take(k + 1).drop_last() =~= rs.take(k));
        lemma_chapters_none(rs, docs, k + 1);
    } else {
        assert(rs.take(k) =~= rs);
    }
}

impl EpubArchive {
    /// Reads a publication out of its parts: the package document, the
    /// XHTML files of its manifest (id and path, in manifest order) with
    /// their parsed documents, and its NCX table of contents if it has one.
    /// The text starts at the document that `start_document` picks and
    /// runs to the end of the reading order, documents separated by blank
    /// lines; each chapter holds the blocks of the documents from its own
    /// to the next chapter's. `None` where the reading is not defined: a
    /// reference to a missing file, a chapter outside the reading order, no
    /// start document, or an HTML construct that is not read.
    pub fn from_parts(package: PackageSpec, files: Vec<(String, String)>, docs: Vec<HtmlNode>, ncx: Option<NcxSpec>) -> (r: Option<EpubArchive>)
        requires
            files@.len() == docs@.len(),
        ensures
            r matches Some(a) ==> archive_contents(package, entry_views(files@), docs@, ncx) == Some((a.rendered@, chapter_views(a.chapters@))),
            r is None ==> archive_contents(package, entry_views(files@), docs@, ncx) is None,
            r matches Some(a) ==> a.package == Package::V3(crate::epub::v3::package::Package { spec: package }),
    {
        let ghost fv = entry_views(files@);
        let mut ids: Vec<String> = Vec::new();
        let mut paths: Vec<String> = Vec::new();
        let mut i: usize = 0;
        while i < files.len()
            invariant
                fv == entry_views(files@),
                i <= files@.len(),
                string_views(ids@) == fv.take(i as int).map_values(|f: Entry| f.0),
                string_views(paths@) == fv.take(i as int).map_values(|f: Entry| f.1),
            decreases files.len() - i,
        {
            let ghost bi = string_views(ids@);
            let ghost bp = string_views(paths@);
            ids.push(files[i].0.clone());
            paths.push(files[i].1.clone());
            proof {
                assert(fv.take(i + 1) =~= fv.take(i as int).push(fv[i as int]));
                assert(string_views(ids@) =~= bi.push(fv[i as int].0));
                assert(string_views(paths@) =~= bp.push(fv[i as int].1));
                assert(fv.take(i + 1).map_values(|f: Entry| f.0) =~= fv.take(i as int).map_values(|f: Entry| f.0).push(fv[i as int].0));
                assert(fv.take(i + 1).map_values(|f: Entry| f.1) =~= fv.take(i as int).map_values(|f: Entry| f.1).push(fv[i as int].1));
            }
            i = i + 1;
        }
        proof {
            assert(fv.take(i as int) =~= fv);
            assert(ids@.len() == string_views(ids@).len());
            assert(paths@.len() == string_views(paths@).len());
        }
        let ghost idv = fv.map_values(|f: Entry| f.0);
        let ghost pv = fv.map_values(|f: Entry| f.1);
        let spine = match spine_files(&ids, &package.spine.itemrefs) {
            None => {
                return None;
            },
            Some(spine) => spine,
        };
        let ghost sp = spine@.map_values(|j: usize| j as int);
        let mut spaths: Vec<String> = Vec::new();
        let mut sdocs: Vec<&HtmlNode> = Vec::new();
        let mut k: usize = 0;
        while k < spine.len()
            invariant
                sp == spine@.map_values(|j: usize| j as int),
                forall|m: int| 0 <= m < spine@.len() ==> spine@[m] < ids@.len(),
                ids@.len() == files@.len(),
                paths@.len() == files@.len(),
                files@.len() == docs@.len(),
                string_views(paths@) == pv,
                k <= spine@.len(),
                string_views(spaths@) == pick(pv, sp.take(k as int)),
                node_refs(sdocs@) == pick(docs@, sp.take(k as int)),
            decreases spine.len() - k,
        {
            let j = spine[k];
            let ghost bp = string_views(spaths@);
            let ghost bd = node_refs(sdocs@);
            spaths.push(paths[j].clone());
            sdocs.push(&docs[j]);
            proof {
                assert(sp.take(k + 1) =~= sp.take(k as int).push(j as int));
                assert(string_views(spaths@) =~= bp.push(pv[j as int]));
                assert(node_refs(sdocs@) =~= bd.push(docs@[j as int]));
                assert(pick(pv, sp.take(k + 1)) =~= pick(pv, sp.take(k as int)).push(pv[j as int]));
                assert(pick(docs@, sp.take(k + 1)) =~= pick(docs@, sp.take(k as int)).push(docs@[j as int]));
            }
            k = k + 1;
        }
        proof {
            assert(sp.take(k as int) =~= sp);
        }
        let ghost spv = pick(pv, sp);
        let ghost sdv = pick(docs@, sp);
        // The chapters of the table of contents.
        let chapters: Vec<(String, Vec<EpubNode>)> = match &ncx {
            None => Vec::new(),
            Some(n) => {
                let entries = chapter_entries(&n.navmap.nav_points);
                let ranges = match chapter_pages(&entries, &spaths) {
                    None => {
                        return None;
                    },
                    Some(ranges) => ranges,
                };
                let ghost rs = range_views(ranges@);
                proof {
                    assert(chapters_of(ncx, spv, sdv) == chapters_blocks(rs, sdv));
                    assert(chapters_of(ncx, spv, sdv) is None ==> archive_contents(package, fv, docs@, ncx) is None);
                }
                let mut out: Vec<(String, Vec<EpubNode>)> = Vec::new();
                let mut c: usize = 0;
                proof {
                    assert(rs.take(0) =~= Seq::<ChapterRange>::empty());
                    assert(chapter_views(out@) =~= Seq::<(Seq<char>, Seq<Block>)>::empty());
                }
                while c < ranges.len()
                    invariant
                        rs == range_views(ranges@),
                        forall|m: int| 0 <= m < ranges@.len() ==> (#[trigger] ranges@[m]).1 <= ranges@[m].2 <= spaths@.len(),
                        spaths@.len() == sdocs@.len(),
                        node_refs(sdocs@) == sdv,
                        fv == entry_views(files@),
                        chapters_of(ncx, spv, sdv) == chapters_blocks(rs, sdv),
                        chapters_of(ncx, spv, sdv) is None ==> archive_contents(package, fv, docs@, ncx) is None,
                        c <= ranges@.len(),
                        chapters_blocks(rs.take(c as int), node_refs(sdocs@)) == Some(chapter_views(out@)),
                    decreases ranges.len() - c,
                {
                    let lo = ranges[c].1;
                    let hi = ranges[c].2;
                    proof {
                        assert(rs.take(c + 1).drop_last() =~= rs.take(c as int));
                        assert(rs.take(c + 1).last() == rs[c as int]);
                    }
                    match chapter_text(&sdocs, lo, hi) {
                        None => {
                            proof {
                                assert(chapters_blocks(rs.take(c + 1), node_refs(sdocs@)) is None);
                                lemma_chapters_none(rs, node_refs(sdocs@), c + 1);
                                assert(chapters_blocks(rs, sdv) is None);
                                assert(chapters_of(ncx, spv, sdv) is None);
                                assert(archive_contents(package, fv, docs@, ncx) is None);
                            }
                            return None;
                        },
                        Some(blocks) => {
                            let ghost before = chapter_views(out@);
                            out.push((ranges[c].0.clone(), blocks));
                            proof {
                                assert(chapter_views(out@) =~= before.push((rs[c as int].0, blocks_of(blocks@))));
                            }
                        },
                    }
                    c = c + 1;
                }
                proof {
                    assert(rs.take(c as int) =~= rs);
                }
                out
            },
        };
        // Where the text starts.
        let refs = match &package.guide {
            Some(g) => Some(&g.references),
            None => None,
        };
        let start_doc = match start_chapter(refs, &spaths) {
            None => {
                return None;
            },
            Some(s) => s,
        };
        let start = match start_position(&spaths, start_doc.as_str()) {
            None => {
                return None;
            },
            Some(p) => p,
        };
        let rendered = match render(&sdocs, start) {
            None => {
                return None;
            },
            Some(t) => t,
        };
        Some(EpubArchive {
            package: Package::V3(crate::epub::v3::package::Package { spec: package }),
            rendered,
            chapters,
        })
    }
}

} // verus!
