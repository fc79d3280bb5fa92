//! The elements of an EPUB 3 navigation document that the library reads.
use vstd::prelude::*;

verus! {

/// The root element of the navigation document.
#[derive(Debug)]
pub struct Html {
    pub body: Body,
}

/// The body: its navigation elements.
#[derive(Debug)]
pub struct Body {
    pub nav: Vec<Nav>,
}

/// A navigation element of some type (`toc`, `landmarks`, ...).
#[derive(Debug)]
pub struct Nav {
    pub epub_type: String,
    pub ol: Ol,
}

/// The list of a navigation element.
#[derive(Debug)]
pub struct Ol {
    pub li: Vec<Li>,
}

/// One item: a link, directly or inside a span.
#[derive(Debug)]
pub struct Li {
    pub a: Option<A>,
    pub span: Option<Span>,
}

/// A span around a link.
#[derive(Debug)]
pub struct Span {
    pub a: A,
}

/// A link: its target and its text.
#[derive(Debug)]
pub struct A {
    pub href: String,
    pub content: String,
}

} // verus!
