//! The EPUB 3 navigation document.
pub mod spec;

use vstd::prelude::*;
use crate::epub::v2::ncx::spec::{entry_views, Entry};
use crate::text::str_eq;

verus! {

/// A parsed navigation document.
pub struct Nav {
    pub spec: spec::Html,
}

/// Whether a navigation element is the table of contents.
pub open spec fn is_toc(n: spec::Nav) -> bool {
    n.epub_type@ == "toc"@
}

/// Whether an item holds exactly one link, directly or in a span.
pub open spec fn single_link(li: spec::Li) -> bool {
    li.a is Some != li.span is Some
}

/// The text and target of an item's link.
pub open spec fn li_entry(li: spec::Li) -> Entry {
    match li.a {
        Some(a) => (a.content@, a.href@),
        None => (li.span->0.a.content@, li.span->0.a.href@),
    }
}

/// The index of the first table of contents among `navs` from `from` on;
/// the length of `navs` when there is none.
pub open spec fn toc_index(navs: Seq<spec::Nav>, from: int) -> int
    decreases navs.len() - from,
{
    if from >= navs.len() {
        navs.len() as int
    } else if is_toc(navs[from]) {
        from
    } else {
        toc_index(navs, from + 1)
    }
}

/// The index of the first table of contents among `navs`.
pub open spec fn first_toc(navs: Seq<spec::Nav>) -> int {
    toc_index(navs, 0)
}

impl Nav {
    /// Whether the document has a table of contents whose items each hold
    /// exactly one link.
    pub open spec fn readable(&self) -> bool {
        &&& first_toc(self.spec.body.nav@) < self.spec.body.nav@.len()
        &&& forall|k: int| 0 <= k < self.spec.body.nav@[first_toc(self.spec.body.nav@)].ol.li@.len()
            ==> single_link(#[trigger] self.spec.body.nav@[first_toc(self.spec.body.nav@)].ol.li@[k])
    }

    /// The entries of the first table of contents: the text and target of
    /// the link of each item, in order.
    pub fn to_entries(self) -> (r: Vec<(String, String)>)
        requires
            self.readable(),
        ensures
            entry_views(r@) == self.spec.body.nav@[first_toc(self.spec.body.nav@)].ol.li@.map_values(|li: spec::Li| li_entry(li)),
    {
        let ghost navs = self.spec.body.nav@;
        let mut navs_vec = self.spec.body.nav;
        let mut i: usize = 0;
        let ghost t = first_toc(navs);
        let mut found = false;
        while !found && i < navs_vec.len()
            invariant
                navs_vec@ == navs,
                t == first_toc(navs),
                t < navs.len(),
                i <= navs.len(),
                toc_index(navs, i as int) == t,
                found ==> i < navs.len() && is_toc(navs[i as int]),
            decreases navs_vec.len() - i + (if found { 0int } else { 1int }),
        {
            if str_eq(navs_vec[i].epub_type.as_str(), "toc") {
                found = true;
            } else {
                i = i + 1;
            }
        }
        proof {
            if !found {
                assert(toc_index(navs, i as int) == navs.len());
            }
            assert(toc_index(navs, i as int) == i);
        }
        let toc = navs_vec.swap_remove(i);
        let mut out: Vec<(String, String)> = Vec::new();
        let items = toc.ol.li;
        let ghost lis = items@;
        let mut rev: Vec<spec::Li> = Vec::new();
        let mut items = items;
        while items.len() > 0
            invariant
                items@ + rev@.reverse() == lis,
            decreases items.len(),
        {
            let x = items.pop().unwrap();
            proof {
                assert(items@.push(x) + rev@.reverse() =~= items@ + rev@.push(x).reverse());
            }
            rev.push(x);
        }
        proof {
            assert(rev@.reverse() =~= lis);
        }
        let n = rev.len();
        while rev.len() > 0
            invariant
                n == lis.len(),
                rev@.len() <= n,
                lis == lis.take(n - rev@.len()) + rev@.reverse(),
                forall|k: int| 0 <= k < lis.len() ==> single_link(#[trigger] lis[k]),
                entry_views(out@) == lis.take(n - rev@.len()).map_values(|li: spec::Li| li_entry(li)),
            decreases rev.len(),
        {
            let ghost k = n - rev@.len();
            let li = rev.pop().unwrap();
            proof {
                assert(lis.take(k) + seq![li] + rev@.reverse() =~= lis.take(k) + rev@.push(li).reverse());
                assert(lis[k] == li);
            }
            let ghost before = entry_views(out@);
            let entry = match (li.a, li.span) {
                (Some(a), None) => (a.content, a.href),
                (None, Some(span)) => (span.a.content, span.a.href),
                _ => {
                    proof {
                        assert(single_link(lis[k]));
                        assert(false);
                    }
                    (String::new(), String::new())
                },
            };
            proof {
                assert((entry.0@, entry.1@) == li_entry(lis[k]));
            }
            out.push(entry);
            proof {
                assert(lis.take(k + 1) =~= lis.take(k).push(lis[k]));
                assert(entry_views(out@) =~= before.push(li_entry(lis[k])));
                assert(lis.take(k + 1).map_values(|li: spec::Li| li_entry(li)) =~= lis.take(k).map_values(|li: spec::Li| li_entry(li)).push(li_entry(lis[k])));
                assert(entry_views(out@) =~= lis.take(k + 1).map_values(|li: spec::Li| li_entry(li)));
                assert(lis == lis.take(k + 1) + rev@.reverse());
            }
        }
        proof {
            assert(lis.take(n as int) =~= lis);
        }
        out
    }
}

} // verus!
