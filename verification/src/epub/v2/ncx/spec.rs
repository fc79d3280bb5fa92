//! The elements of an NCX document that the library reads.
use vstd::prelude::*;

verus! {

/// The root of an NCX document.
pub struct Ncx {
    pub navmap: NavMap,
}

/// The navigation map: the top-level entries of the table of contents.
pub struct NavMap {
    pub nav_points: Vec<NavPoint>,
}

/// One entry of the table of contents, with its nested entries.
pub struct NavPoint {
    pub nav_label: NavLabel,
    pub content: Content,
    pub children: Option<Vec<NavPoint>>,
}

/// The label of an entry.
pub struct NavLabel {
    pub text: String,
}

/// The location an entry points to.
pub struct Content {
    pub src: String,
}

/// A table-of-contents entry: its label and where it points.
pub type Entry = (Seq<char>, Seq<char>);

/// The entries of `p` in document order: `p` itself, then its nested
/// entries, depth first.
pub open spec fn point_entries(p: NavPoint) -> Seq<Entry>
    decreases p,
{
    seq![(p.nav_label.text@, p.content.src@)] + match p.children {
        Some(ch) => points_entries(ch@),
        None => Seq::empty(),
    }
}

/// The entries of the points `ps` and of everything nested in them, in
/// document order.
pub open spec fn points_entries(ps: Seq<NavPoint>) -> Seq<Entry>
    decreases ps,
{
    if ps.len() == 0 {
        Seq::empty()
    } else {
        points_entries(ps.drop_last()) + point_entries(ps.last())
    }
}

/// The plain values of a list of entries.
pub open spec fn entry_views(v: Seq<(String, String)>) -> Seq<Entry> {
    v.map_values(|e: (String, String)| (e.0@, e.1@))
}

impl NavPoint {
    /// This entry followed by all the entries nested in it, depth first.
    pub fn to_entries(self) -> (r: Vec<(String, String)>)
        ensures
            entry_views(r@) == point_entries(self),
    {
        entries_of(&self)
    }
}

/// The entries of `p` and of everything nested in it, depth first.
fn entries_of(p: &NavPoint) -> (r: Vec<(String, String)>)
    ensures
        entry_views(r@) == point_entries(*p),
    decreases p,
{
    let mut items: Vec<(String, String)> = Vec::new();
    items.push((p.nav_label.text.clone(), p.content.src.clone()));
    let ghost own = seq![(p.nav_label.text@, p.content.src@)];
    proof {
        assert(entry_views(items@) =~= own);
    }
    match &p.children {
        Some(children) => {
            let mut i: usize = 0;
            proof {
                assert(children@.take(0) =~= Seq::<NavPoint>::empty());
                assert(entry_views(items@) =~= own + points_entries(children@.take(0)));
            }
            while i < children.len()
                invariant
                    p.children == Some(*children),
                    i <= children.len(),
                    entry_views(items@) == own + points_entries(children@.take(i as int)),
                decreases children.len() - i,
            {
                proof {
                    let ch = p.children->0;
                    assert(ch == *children);
                    assert(decreases_to!(*p => p.children));
                    assert(decreases_to!(p.children => ch));
                    assert(decreases_to!(ch => ch@));
                    assert(decreases_to!(ch@ => ch@[i as int]));
                }
                let mut sub = entries_of(&children[i]);
                let ghost before = entry_views(items@);
                let ghost added = entry_views(sub@);
                items.append(&mut sub);
                proof {
                    assert(entry_views(items@) =~= before + added);
                    assert(children@.take(i + 1).drop_last() =~= children@.take(i as int));
                    assert(children@.take(i + 1).last() == children@[i as int]);
                    assert(entry_views(items@) =~= own + points_entries(children@.take(i + 1)));
                }
                i = i + 1;
            }
            proof {
                assert(children@.take(i as int) =~= children@);
            }
            items
        },
        None => {
            proof {
                assert(point_entries(*p) =~= own);
            }
            items
        },
    }
}

/// The entries of all of `points` and everything nested in them.
pub fn to_entries_all(points: Vec<NavPoint>) -> (r: Vec<(String, String)>)
    ensures
        entry_views(r@) == points_entries(points@),
{
    let mut items: Vec<(String, String)> = Vec::new();
    let mut i: usize = 0;
    proof {
        assert(points@.take(0) =~= Seq::<NavPoint>::empty());
        assert(entry_views(items@) =~= points_entries(points@.take(0)));
    }
    while i < points.len()
        invariant
            i <= points.len(),
            entry_views(items@) == points_entries(points@.take(i as int)),
        decreases points.len() - i,
    {
        let mut sub = entries_of(&points[i]);
        let ghost before = entry_views(items@);
        let ghost added = entry_views(sub@);
        items.append(&mut sub);
        proof {
            assert(entry_views(items@) =~= before + added);
            assert(points@.take(i + 1).drop_last() =~= points@.take(i as int));
            assert(points@.take(i + 1).last() == points@[i as int]);
            assert(entry_views(items@) =~= points_entries(points@.take(i + 1)));
        }
        i = i + 1;
    }
    proof {
        assert(points@.take(i as int) =~= points@);
    }
    items
}

} // verus!
