//! The elements of an EPUB 3 package document that the library reads.
use vstd::prelude::*;

verus! {

/// The base direction of text.
#[derive(Clone, Copy, Debug, PartialEq, Eq, Structural)]
pub enum BaseDirection {
    Ltr,
    Rtl,
    Auto,
}

impl Default for BaseDirection {
    /// Text direction decided by the Unicode Bidi Algorithm.
    fn default() -> (r: Self)
        ensures
            r == BaseDirection::Auto,
    {
        BaseDirection::Auto
    }
}

/// The package element: all the information in the package document.
#[derive(Clone, Debug)]
pub struct Package {
    pub dir: BaseDirection,
    pub id: Option<String>,
    pub prefix: Option<String>,
    pub xml_lang: Option<String>,
    pub unique_identifier: String,
    pub version: String,
    pub metadata: Metadata,
    pub manifest: Manifest,
    pub spine: Spine,
    pub guide: Option<Guide>,
    pub bindings: Option<Bindings>,
    pub collection: Option<Collection>,
}

/// The metadata of the publication.
#[derive(Clone, Debug)]
pub struct Metadata {
    pub identifier: Vec<Identifier>,
    pub title: Vec<Title>,
}

/// An identifier such as a UUID, DOI or ISBN.
#[derive(Clone, Debug)]
pub struct Identifier {
    pub id: Option<String>,
    pub value: String,
}

/// A name of the publication.
#[derive(Clone, Debug)]
pub struct Title {
    pub dir: BaseDirection,
    pub id: Option<String>,
    pub xml_lang: Option<String>,
    pub value: String,
}

/// A language of the publication's content.
#[derive(Clone, Debug)]
pub struct Language {
    pub id: Option<String>,
    pub value: String,
}

/// The resources of the publication.
#[derive(Clone, Debug)]
pub struct Manifest {
    pub items: Vec<Item>,
}

/// One resource of the publication.
#[derive(Clone, Debug)]
pub struct Item {
    pub href: String,
    pub id: String,
    pub media_type: String,
    pub properties: Option<String>,
}

/// The reading order.
#[derive(Clone, Debug)]
pub struct Spine {
    pub itemrefs: Vec<ItemRef>,
}

/// One resource in reading order, by its manifest id.
#[derive(Clone, Debug)]
pub struct ItemRef {
    pub idref: String,
}

/// The guide of EPUB 2: references to key parts of the publication.
#[derive(Clone, Debug)]
pub struct Guide {
    pub references: Vec<Reference>,
}

/// A reference to a key part of the publication; `kind` is its `type`
/// attribute.
#[derive(Clone, Debug)]
pub struct Reference {
    pub href: String,
    pub kind: String,
    pub title: Option<String>,
}

/// Bindings of media types to handlers.
#[derive(Clone, Debug)]
pub struct Bindings;

/// A collection of related resources.
#[derive(Clone, Debug)]
pub struct Collection;

} // verus!
