//! The EPUB 3 package document.
pub mod spec;

use vstd::prelude::*;
use crate::epub::v2::ncx::spec::{entry_views, Entry};
use crate::language_pack::transform::ends_with;
use crate::text::{chars_of, str_eq};

verus! {

/// A parsed package document.
#[derive(Clone, Debug)]
pub struct Package {
    pub spec: spec::Package,
}

/// The first title of the publication, or the empty text.
pub open spec fn first_title(titles: Seq<spec::Title>) -> Seq<char> {
    if titles.len() == 0 {
        Seq::empty()
    } else {
        titles[0].value@
    }
}

/// Whether a manifest item is an HTML document: XHTML by media type, or a
/// path that ends in `html`.
pub open spec fn is_html_item(item: spec::Item) -> bool {
    item.media_type@ == "application/xhtml+xml"@ || ends_with(item.href@, "html"@)
}

/// The id and path of each HTML document in `items`, in order.
pub open spec fn html_items(items: Seq<spec::Item>) -> Seq<Entry> {
    items.filter(|item: spec::Item| is_html_item(item)).map_values(|item: spec::Item| (item.id@, item.href@))
}

/// Whether `c` separates the values of a property list: XML white space.
pub open spec fn is_list_space(c: char) -> bool {
    c == ' ' || c == '\t' || c == '\n' || c == '\r'
}

/// Whether the value `nav` starts at `i` in the property list `p`: the three
/// characters there, with white space or an end of the list on each side.
pub open spec fn nav_value_at(p: Seq<char>, i: int) -> bool {
    &&& 0 <= i
    &&& i + 3 <= p.len()
    &&& p.subrange(i, i + 3) == "nav"@
    &&& (i == 0 || is_list_space(p[i - 1]))
    &&& (i + 3 == p.len() || is_list_space(p[i + 3]))
}

/// Whether a manifest item is the navigation document: `nav` is one of the
/// white-space separated values of its `properties`.
pub open spec fn is_nav_item(item: spec::Item) -> bool {
    item.properties matches Some(p) && exists|i: int| nav_value_at(p@, i)
}

fn is_list_space_exec(c: char) -> (r: bool)
    ensures
        r == is_list_space(c),
{
    c == ' ' || c == '\t' || c == '\n' || c == '\r'
}

/// Whether the manifest item `item` is the navigation document.
pub fn is_nav_document(item: &spec::Item) -> (r: bool)
    ensures
        r == is_nav_item(*item),
{
    match &item.properties {
        None => false,
        Some(p) => {
            let c = chars_of(p.as_str());
            let n = c.len();
            proof {
                reveal_strlit("nav");
            }
            if n < 3 {
                return false;
            }
            let mut i: usize = 0;
            while i <= n - 3
                invariant
                    n == c.len(),
                    c@ == p@,
                    item.properties is Some && item.properties->0@ == c@,
                    n >= 3,
                    i <= n - 2,
                    "nav"@ == seq!['n', 'a', 'v'],
                    forall|j: int| 0 <= j < i ==> !nav_value_at(c@, j),
                decreases n - i,
            {
                let before = i == 0 || is_list_space_exec(c[i - 1]);
                let after = i + 3 == n || is_list_space_exec(c[i + 3]);
                if c[i] == 'n' && c[i + 1] == 'a' && c[i + 2] == 'v' && before && after {
                    proof {
                        assert(c@.subrange(i as int, i + 3) =~= seq!['n', 'a', 'v']);
                        assert(nav_value_at(c@, i as int));
                        assert(nav_value_at(item.properties->0@, i as int));
                    }
                    return true;
                }
                proof {
                    if c@.subrange(i as int, i + 3) == "nav"@ {
                        assert(c@.subrange(i as int, i + 3)[0] == c@[i as int]);
                        assert(c@.subrange(i as int, i + 3)[1] == c@[i + 1]);
                        assert(c@.subrange(i as int, i + 3)[2] == c@[i + 2]);
                    }
                    assert(!nav_value_at(c@, i as int));
                }
                i = i + 1;
            }
            proof {
                assert forall|j: int| !nav_value_at(c@, j) by {
                    if 0 <= j < i {
                    }
                }
            }
            false
        },
    }
}

/// The index of the first navigation document among `items` from `from` on;
/// the length of `items` when there is none.
pub open spec fn nav_index(items: Seq<spec::Item>, from: int) -> int
    decreases items.len() - from,
{
    if from >= items.len() {
        items.len() as int
    } else if is_nav_item(items[from]) {
        from
    } else {
        nav_index(items, from + 1)
    }
}

fn ends_with_html(s: &str) -> (r: bool)
    ensures
        r == ends_with(s@, "html"@),
{
    let c = chars_of(s);
    let t = chars_of("html");
    crate::language_pack::transform::ends_with_chars(&c, &t)
}

impl Package {
    /// The first title of the publication, or `""` when it has none.
    pub fn title(&self) -> (r: &str)
        ensures
            r@ == first_title(self.spec.metadata.title@),
    {
        if self.spec.metadata.title.len() == 0 {
            proof {
                reveal_strlit("");
            }
            ""
        } else {
            self.spec.metadata.title[0].value.as_str()
        }
    }

    /// The id and path of each HTML document of the manifest, in manifest
    /// order; the caller reads the documents.
    pub fn manifest(&self) -> (r: Vec<(String, String)>)
        ensures
            entry_views(r@) == html_items(self.spec.manifest.items@),
    {
        let items = &self.spec.manifest.items;
        let ghost all = items@;
        let ghost pred = |item: spec::Item| is_html_item(item);
        let ghost f = |item: spec::Item| (item.id@, item.href@);
        let mut out: Vec<(String, String)> = Vec::new();
        let mut i: usize = 0;
        proof {
            reveal(Seq::filter);
            assert(all.take(0) =~= Seq::<spec::Item>::empty());
            assert(entry_views(out@) =~= all.take(0).filter(pred).map_values(f));
        }
        while i < items.len()
            invariant
                all == items@,
                i <= items.len(),
                pred == (|item: spec::Item| is_html_item(item)),
                f == (|item: spec::Item| (item.id@, item.href@)),
                entry_views(out@) == all.take(i as int).filter(pred).map_values(f),
            decreases items.len() - i,
        {
            proof {
                reveal(Seq::filter);
                assert(all.take(i + 1).drop_last() =~= all.take(i as int));
            }
            let item = &items[i];
            let ghost before = entry_views(out@);
            if str_eq(item.media_type.as_str(), "application/xhtml+xml") || ends_with_html(item.href.as_str()) {
                out.push((item.id.clone(), item.href.clone()));
                proof {
                    reveal(Seq::filter);
                    assert(pred(all[i as int]));
                    assert(all.take(i + 1).last() == all[i as int]);
                    assert(all.take(i + 1).filter(pred) =~= all.take(i as int).filter(pred).push(all[i as int]));
                    assert(entry_views(out@) =~= before.push(f(all[i as int])));
                    assert(all.take(i + 1).filter(pred).map_values(f) =~= all.take(i as int).filter(pred).map_values(f).push(f(all[i as int])));
                }
            } else {
                proof {
                    reveal(Seq::filter);
                    assert(!pred(all[i as int]));
                    assert(all.take(i + 1).last() == all[i as int]);
                    assert(all.take(i + 1).filter(pred) == all.take(i as int).filter(pred));
                }
            }
            i = i + 1;
        }
        proof {
            assert(all.take(i as int) =~= all);
        }
        out
    }

    /// Whether the manifest lists a navigation document.
    pub open spec fn has_navigation(&self) -> bool {
        nav_index(self.spec.manifest.items@, 0) < self.spec.manifest.items@.len()
    }

    /// The path of the navigation document: the first manifest item whose
    /// properties list `nav`. The caller reads and parses it.
    pub fn navigation(&self) -> (r: &str)
        requires
            self.has_navigation(),
        ensures
            r@ == self.spec.manifest.items@[nav_index(self.spec.manifest.items@, 0)].href@,
    {
        let items = &self.spec.manifest.items;
        let ghost all = items@;
        let mut i: usize = 0;
        let mut found = false;
        while !found && i < items.len()
            invariant
                all == items@,
                nav_index(all, 0) < all.len(),
                i <= all.len(),
                nav_index(all, i as int) == nav_index(all, 0),
                found ==> i < all.len() && is_nav_item(all[i as int]),
            decreases items.len() - i + (if found { 0int } else { 1int }),
        {
            if is_nav_document(&items[i]) {
                found = true;
            } else {
                i = i + 1;
            }
        }
        proof {
            if !found {
                assert(nav_index(all, i as int) == all.len());
            }
            assert(nav_index(all, i as int) == i);
        }
        items[i].href.as_str()
    }

    /// The manifest ids of the reading order.
    pub fn spine(&self) -> (r: Vec<&String>)
        ensures
            r@.len() == self.spec.spine.itemrefs@.len(),
            forall|i: int| 0 <= i < r@.len() ==> *r@[i] == self.spec.spine.itemrefs@[i].idref,
    {
        let refs = &self.spec.spine.itemrefs;
        let mut out: Vec<&String> = Vec::new();
        let mut i: usize = 0;
        while i < refs.len()
            invariant
                i <= refs.len(),
                out@.len() == i,
                forall|j: int| 0 <= j < i ==> *out@[j] == refs@[j].idref,
            decreases refs.len() - i,
        {
            out.push(&refs[i].idref);
            i = i + 1;
        }
        out
    }
}

} // verus!
