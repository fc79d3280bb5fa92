use prelearning::epub::archive::{html_to_node, html_to_text, EpubArchive, EpubNode, HtmlNode};
use prelearning::epub::container::{ContainerSpec, Container, RootFile, RootFiles};
use prelearning::epub::error::UnsupportedReason;
use prelearning::epub::package_specifier::PackageVersion;
use prelearning::epub::v2::ncx::spec::{Content, NavLabel, NavMap, NavPoint, Ncx as NcxSpec};
use prelearning::epub::v2::ncx::Ncx;
use prelearning::epub::v3::nav::spec::{Body, Html, Li, Nav as NavSpec, Ol, A};
use prelearning::epub::v3::nav::Nav;
use prelearning::epub::v3::package::spec::{
    BaseDirection, Guide, Item, ItemRef, Manifest, Metadata, Package as PackageSpec, Reference, Spine, Title,
};
use prelearning::epub::v3::package::{is_nav_document, Package};
use prelearning::string_of::StringOf;

fn point(label: &str, src: &str, children: Option<Vec<NavPoint>>) -> NavPoint {
    NavPoint {
        nav_label: NavLabel { text: label.to_owned() },
        content: Content { src: src.to_owned() },
        children,
    }
}

#[test]
fn supports_nested_toc() {
    let ncx = Ncx {
        spec: NcxSpec {
            navmap: NavMap {
                nav_points: vec![
                    point("Section with no subsection", "text/content001.xhtml", None),
                    point(
                        "TOC entry name Section title",
                        "text/content001.xhtml#heading_id_3",
                        Some(vec![
                            point("Section entry name.", "text/content002.xhtml", None),
                            point(
                                "Introduction.",
                                "text/content003.xhtml",
                                Some(vec![
                                    point("Preserving the Text.", "text/content003.xhtml#heading_id_217", None),
                                    point("Lower level chapter title", "text/content003.xhtml#heading_id_218", None),
                                    point("Another lower level title.", "text/content003.xhtml#heading_id_219", None),
                                ]),
                            ),
                        ]),
                    ),
                ],
            },
        },
    };
    let entries = ncx.to_entries();
    let expected = vec![
        ("Section with no subsection", "text/content001.xhtml"),
        ("TOC entry name Section title", "text/content001.xhtml#heading_id_3"),
        ("Section entry name.", "text/content002.xhtml"),
        ("Introduction.", "text/content003.xhtml"),
        ("Preserving the Text.", "text/content003.xhtml#heading_id_217"),
        ("Lower level chapter title", "text/content003.xhtml#heading_id_218"),
        ("Another lower level title.", "text/content003.xhtml#heading_id_219"),
    ];
    let got: Vec<(&str, &str)> = entries.iter().map(|(a, b)| (a.as_str(), b.as_str())).collect();
    assert_eq!(got, expected);
}

#[test]
fn unknown_container_elements_are_ignored() {
    let spec = ContainerSpec {
        version: StringOf::check("1.0", "1.0".to_owned()).unwrap(),
        xmlns: StringOf::check("urn:oasis:names:tc:opendocument:xmlns:container", "urn:oasis:names:tc:opendocument:xmlns:container".to_owned()).unwrap(),
        rootfiles: RootFiles {
            rootfile: vec![RootFile { full_path: "item/package.opf".to_owned(), media_type: "application/oebps-package+xml".to_owned() }],
        },
        links: None,
    };
    assert_eq!(spec.rootfiles.rootfile.len(), 1);
    let container = Container::from_spec(spec).unwrap();
    assert_eq!(container.package_path(), "item/package.opf");
    assert_eq!(container.basedir(), "item");
}

#[test]
fn alternate_renderings_are_skipped() {
    let files = RootFiles {
        rootfile: vec![
            RootFile { full_path: "a.pdf".to_owned(), media_type: "application/pdf".to_owned() },
            RootFile { full_path: "b.opf".to_owned(), media_type: "application/oebps-package+xml".to_owned() },
        ],
    };
    let packages = files.package_iter();
    assert_eq!(packages.len(), 1);
    assert_eq!(packages[0].full_path, "b.opf");
}

#[test]
fn container_without_package_is_refused() {
    let spec = ContainerSpec {
        version: StringOf("1.0".to_owned()),
        xmlns: StringOf("x".to_owned()),
        rootfiles: RootFiles { rootfile: vec![] },
        links: None,
    };
    assert!(Container::from_spec(spec).is_none());
}

#[test]
fn string_of_checks_the_value() {
    assert_eq!(StringOf::check("baz", "baz".to_owned()).unwrap().0, "baz");
    assert!(StringOf::check("baz", "invalid".to_owned()).is_none());
}

#[test]
fn package_versions() {
    assert!(matches!(PackageVersion::parse("2.0"), Ok(PackageVersion::V2)));
    assert!(matches!(PackageVersion::parse("3.0"), Ok(PackageVersion::V3)));
    let err = PackageVersion::parse("4.0").err().unwrap();
    assert_eq!(err, "Deserialized value '4.0' does not match the expected value `2.0`, or `3.0`");
}

#[test]
fn unsupported_reason_message() {
    assert_eq!(UnsupportedReason::Encrypted.to_string(), "Encrypted epubs are not supported");
}

fn item(id: &str, href: &str, media: &str, properties: Option<&str>) -> Item {
    Item { href: href.to_owned(), id: id.to_owned(), media_type: media.to_owned(), properties: properties.map(|p| p.to_owned()) }
}

fn package(guide: Option<Vec<Reference>>) -> PackageSpec {
    PackageSpec {
        dir: BaseDirection::default(),
        id: None,
        prefix: None,
        xml_lang: None,
        unique_identifier: "id".to_owned(),
        version: "3.0".to_owned(),
        metadata: Metadata {
            identifier: vec![],
            title: vec![Title { dir: BaseDirection::Auto, id: None, xml_lang: None, value: "本".to_owned() }],
        },
        manifest: Manifest {
            items: vec![
                item("nav", "nav.xhtml", "application/xhtml+xml", Some("nav")),
                item("toc", "toc.xhtml", "application/xhtml+xml", None),
                item("c1", "c1.xhtml", "application/xhtml+xml", None),
                item("c2", "c2.html", "text/html", None),
                item("css", "style.css", "text/css", None),
            ],
        },
        spine: Spine {
            itemrefs: vec![
                ItemRef { idref: "toc".to_owned() },
                ItemRef { idref: "c1".to_owned() },
                ItemRef { idref: "c2".to_owned() },
            ],
        },
        guide: guide.map(|references| Guide { references }),
        bindings: None,
        collection: None,
    }
}

#[test]
fn package_accessors() {
    let p = Package { spec: package(None) };
    assert_eq!(p.title(), "本");
    let manifest = p.manifest();
    let ids: Vec<&str> = manifest.iter().map(|(id, _)| id.as_str()).collect();
    assert_eq!(ids, vec!["nav", "toc", "c1", "c2"]);
    assert_eq!(p.navigation(), "nav.xhtml");
    let spine: Vec<&str> = p.spine().iter().map(|s| s.as_str()).collect();
    assert_eq!(spine, vec!["toc", "c1", "c2"]);
}

#[test]
fn nav_entries_of_the_toc() {
    let nav = Nav {
        spec: Html {
            body: Body {
                nav: vec![
                    NavSpec { epub_type: "landmarks".to_owned(), ol: Ol { li: vec![] } },
                    NavSpec {
                        epub_type: "toc".to_owned(),
                        ol: Ol {
                            li: vec![
                                Li { a: Some(A { href: "Text/p-toc-001.xhtml".to_owned(), content: "目次".to_owned() }), span: None },
                                Li { a: Some(A { href: "Text/p-002.xhtml#toc-001".to_owned(), content: "プロローグ".to_owned() }), span: None },
                            ],
                        },
                    },
                ],
            },
        },
    };
    let entries = nav.to_entries();
    assert_eq!(entries, vec![
        ("目次".to_owned(), "Text/p-toc-001.xhtml".to_owned()),
        ("プロローグ".to_owned(), "Text/p-002.xhtml#toc-001".to_owned()),
    ]);
}

fn element(name: &str, children: Vec<HtmlNode>) -> HtmlNode {
    HtmlNode::Element { name: name.to_owned(), children }
}

fn text(s: &str) -> HtmlNode {
    HtmlNode::Text { contents: s.to_owned() }
}

fn document(body: Vec<HtmlNode>) -> HtmlNode {
    HtmlNode::Document {
        children: vec![HtmlNode::Doctype, element("html", vec![element("head", vec![]), element("body", body)])],
    }
}

#[test]
fn html_text_reads_paragraphs_and_ruby_bases() {
    let doc = document(vec![
        element("h1", vec![text("第一章")]),
        element("p", vec![element("ruby", vec![text("漢字"), element("rt", vec![text("かんじ")])]), text("ｶﾀｶﾅ")]),
    ]);
    let mut out = String::new();
    html_to_text(&mut out, &doc, false, false);
    assert_eq!(out, "第一章漢字カタカナ");
}

#[test]
fn html_nodes_are_chapters_headers_and_paragraphs() {
    let doc = document(vec![
        element("h1", vec![text("第一章")]),
        element("h2", vec![text("節")]),
        element("p", vec![text("本文")]),
        element("div", vec![element("span", vec![text("前"), element("ruby", vec![text("字")])])]),
    ]);
    let mut out = Vec::new();
    html_to_node(&mut out, &doc, false, false, false);
    assert_eq!(out.len(), 4);
    assert!(matches!(&out[0], EpubNode::Chapter(t) if t == "第一章"));
    assert!(matches!(&out[1], EpubNode::Header(t) if t == "節"));
    assert!(matches!(&out[2], EpubNode::Paragraph(t) if t == "本文"));
    assert!(matches!(&out[3], EpubNode::Paragraph(t) if t == "字"));
}

#[test]
fn archive_from_parts() {
    let guide = vec![Reference { href: "c1.xhtml#start".to_owned(), kind: "text".to_owned(), title: None }];
    let files = vec![
        ("nav".to_owned(), "nav.xhtml".to_owned()),
        ("toc".to_owned(), "toc.xhtml".to_owned()),
        ("c1".to_owned(), "c1.xhtml".to_owned()),
        ("c2".to_owned(), "c2.xhtml".to_owned()),
    ];
    let docs = vec![
        document(vec![]),
        document(vec![element("p", vec![text("目次")])]),
        document(vec![element("h1", vec![text("一")]), element("p", vec![text("本文")])]),
        document(vec![element("h1", vec![text("二")])]),
    ];
    let ncx = NcxSpec {
        navmap: NavMap {
            nav_points: vec![point("目次", "toc.xhtml", None), point("一", "c1.xhtml#x", None), point("二", "c2.xhtml", None)],
        },
    };
    let archive = EpubArchive::from_parts(package(Some(guide)), files, docs, Some(ncx)).unwrap();
    assert_eq!(archive.rendered, "一本文\n\n二");
    assert_eq!(archive.chapters.len(), 2);
    assert_eq!(archive.chapters[0].0, "一");
    assert_eq!(archive.chapters[0].1.len(), 2);
    assert_eq!(archive.chapters[1].0, "二");
    assert_eq!(archive.chapters[1].1.len(), 1);
}

#[test]
fn archive_without_guide_is_refused() {
    let files = vec![
        ("toc".to_owned(), "toc.xhtml".to_owned()),
        ("c1".to_owned(), "c1.xhtml".to_owned()),
        ("c2".to_owned(), "c2.xhtml".to_owned()),
    ];
    let docs = vec![document(vec![]), document(vec![]), document(vec![])];
    assert!(EpubArchive::from_parts(package(None), files, docs, None).is_none());
}

#[test]
fn nav_is_one_of_the_listed_properties() {
    let mut spec = package(None);
    spec.manifest.items = vec![
        item("c1", "c1.xhtml", "application/xhtml+xml", Some("navigation")),
        item("toc", "toc.xhtml", "application/xhtml+xml", Some("scripted nav")),
        item("nav", "nav.xhtml", "application/xhtml+xml", Some("nav")),
    ];
    let p = Package { spec };
    assert_eq!(p.navigation(), "toc.xhtml");
    assert!(is_nav_document(&item("a", "a.xhtml", "application/xhtml+xml", Some("nav scripted"))));
    assert!(is_nav_document(&item("a", "a.xhtml", "application/xhtml+xml", Some("svg\tnav\nmathml"))));
    assert!(!is_nav_document(&item("a", "a.xhtml", "application/xhtml+xml", Some("navx"))));
    assert!(!is_nav_document(&item("a", "a.xhtml", "application/xhtml+xml", Some("xnav"))));
    assert!(!is_nav_document(&item("a", "a.xhtml", "application/xhtml+xml", Some(""))));
    assert!(!is_nav_document(&item("a", "a.xhtml", "application/xhtml+xml", None)));
}
