//! The NCX table of contents of EPUB 2.
pub mod spec;

use vstd::prelude::*;
use self::spec::{entry_views, points_entries, to_entries_all, Entry};

verus! {

/// A parsed NCX document.
pub struct Ncx {
    pub spec: spec::Ncx,
}

impl Ncx {
    /// Every entry of the table of contents, depth first.
    pub fn to_entries(self) -> (r: Vec<(String, String)>)
        ensures
            entry_views(r@) == points_entries(self.spec.navmap.nav_points@),
    {
        to_entries_all(self.spec.navmap.nav_points)
    }
}

} // verus!
