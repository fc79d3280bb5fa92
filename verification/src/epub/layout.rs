//! How the documents of a publication are laid out: the HTML files of the
//! manifest, the reading order, the chapters of the table of contents and
//! where the text starts.
use vstd::prelude::*;
use crate::epub::archive::{join_opt, node_blocks, node_text, Block, HtmlNode};
use crate::epub::v2::ncx::spec::{entry_views, Entry, NavPoint};
use crate::epub::v3::package::spec::{Item, ItemRef, Reference};
use crate::text::{before_first, chars_of, contains_chars, contains_seq, prefix_before, str_eq};

verus! {

// ---- the HTML files of the manifest ----

/// Whether a manifest item is an XHTML document.
pub open spec fn is_xhtml(item: Item) -> bool {
    item.media_type@ == "application/xhtml+xml"@
}

/// The id and path of each XHTML document of the manifest, in order.
pub open spec fn xhtml_items(items: Seq<Item>) -> Seq<Entry> {
    items.filter(|item: Item| is_xhtml(item)).map_values(|item: Item| (item.id@, item.href@))
}

/// The id and path of each XHTML document of the manifest, in order; the
/// caller reads them.
pub fn xhtml_files(items: &Vec<Item>) -> (r: Vec<(String, String)>)
    ensures
        entry_views(r@) == xhtml_items(items@),
{
    let ghost all = items@;
    let ghost pred = |item: Item| is_xhtml(item);
    let ghost f = |item: Item| (item.id@, item.href@);
    let mut out: Vec<(String, String)> = Vec::new();
    let mut i: usize = 0;
    proof {
        reveal(Seq::filter);
        assert(all.take(0) =~= Seq::<Item>::empty());
        assert(entry_views(out@) =~= all.take(0).filter(pred).map_values(f));
    }
    while i < items.len()
        invariant
            all == items@,
            i <= items.len(),
            pred == (|item: Item| is_xhtml(item)),
            f == (|item: Item| (item.id@, item.href@)),
            entry_views(out@) == all.take(i as int).filter(pred).map_values(f),
        decreases items.len() - i,
    {
        proof {
            assert(all.take(i + 1).drop_last() =~= all.take(i as int));
            assert(all.take(i + 1).last() == all[i as int]);
        }
        let item = &items[i];
        let ghost before = entry_views(out@);
        if str_eq(item.media_type.as_str(), "application/xhtml+xml") {
            out.push((item.id.clone(), item.href.clone()));
            proof {
                reveal(Seq::filter);
                assert(all.take(i + 1).filter(pred) =~= all.take(i as int).filter(pred).push(all[i as int]));
                assert(entry_views(out@) =~= before.push(f(all[i as int])));
                assert(all.take(i + 1).filter(pred).map_values(f) =~= all.take(i as int).filter(pred).map_values(f).push(f(all[i as int])));
            }
        } else {
            proof {
                reveal(Seq::filter);
                assert(all.take(i + 1).filter(pred) == all.take(i as int).filter(pred));
            }
        }
        i = i + 1;
    }
    proof {
        assert(all.take(i as int) =~= all);
    }
    out
}

// ---- the reading order ----

/// The index of the last of the first `k` ids that is `id`, or -1: a file
/// listed twice is found by its last entry.
pub open spec fn last_with_id(ids: Seq<Seq<char>>, id: Seq<char>, k: int) -> int
    decreases k,
{
    if k <= 0 {
        -1
    } else if ids[k - 1] == id {
        k - 1
    } else {
        last_with_id(ids, id, k - 1)
    }
}

/// The file of each reference of the reading order, by id; `None` when one
/// is not among the files.
pub open spec fn spine_indices(ids: Seq<Seq<char>>, refs: Seq<Seq<char>>) -> Option<Seq<int>>
    decreases refs.len(),
{
    if refs.len() == 0 {
        Some(Seq::empty())
    } else {
        match spine_indices(ids, refs.drop_last()) {
            Some(v) => {
                let j = last_with_id(ids, refs.last(), ids.len() as int);
                if j < 0 { None } else { Some(v.push(j)) }
            },
            None => None,
        }
    }
}

/// The ids of a list of files and the ids of a list of references.
pub open spec fn string_views(v: Seq<String>) -> Seq<Seq<char>> {
    v.map_values(|s: String| s@)
}

/// The ids that a reading order refers to.
pub open spec fn ref_ids(v: Seq<ItemRef>) -> Seq<Seq<char>> {
    v.map_values(|r: ItemRef| r.idref@)
}

fn find_last_id(ids: &Vec<String>, id: &str) -> (r: Option<usize>)
    ensures
        r matches Some(j) ==> j as int == last_with_id(string_views(ids@), id@, ids@.len() as int),
        r is None ==> last_with_id(string_views(ids@), id@, ids@.len() as int) < 0,
        r matches Some(j) ==> j < ids@.len(),
{
    let ghost v = string_views(ids@);
    let mut k = ids.len();
    while k > 0
        invariant
            v == string_views(ids@),
            k <= ids@.len(),
            last_with_id(v, id@, ids@.len() as int) == last_with_id(v, id@, k as int),
        decreases k,
    {
        if str_eq(ids[k - 1].as_str(), id) {
            return Some(k - 1);
        }
        k = k - 1;
    }
    None
}

/// The file of each reference of the reading order (the last file with its
/// id), or `None` when a reference names no file.
pub fn spine_files(ids: &Vec<String>, refs: &Vec<ItemRef>) -> (r: Option<Vec<usize>>)
    ensures
        r matches Some(v) ==> spine_indices(string_views(ids@), ref_ids(refs@)) == Some(v@.map_values(|j: usize| j as int)),
        r is None ==> spine_indices(string_views(ids@), ref_ids(refs@)) is None,
        r matches Some(v) ==> forall|i: int| 0 <= i < v@.len() ==> v@[i] < ids@.len(),
{
    let ghost idv = string_views(ids@);
    let ghost rv = ref_ids(refs@);
    let mut out: Vec<usize> = Vec::new();
    let mut i: usize = 0;
    proof {
        assert(rv.take(0) =~= Seq::<Seq<char>>::empty());
        assert(out@.map_values(|j: usize| j as int) =~= Seq::<int>::empty());
    }
    while i < refs.len()
        invariant
            idv == string_views(ids@),
            rv == ref_ids(refs@),
            i <= refs.len(),
            spine_indices(idv, rv.take(i as int)) == Some(out@.map_values(|j: usize| j as int)),
            forall|k: int| 0 <= k < out@.len() ==> out@[k] < ids@.len(),
        decreases refs.len() - i,
    {
        proof {
            assert(rv.take(i + 1).drop_last() =~= rv.take(i as int));
            assert(rv.take(i + 1).last() == refs@[i as int].idref@);
        }
        match find_last_id(ids, refs[i].idref.as_str()) {
            Some(j) => {
                let ghost before = out@.map_values(|j: usize| j as int);
                out.push(j);
                proof {
                    assert(out@.map_values(|j: usize| j as int) =~= before.push(j as int));
                }
            },
            None => {
                proof {
                    lemma_spine_indices_none(idv, rv, i as int + 1);
                    assert(rv.take(rv.len() as int) =~= rv);
                }
                return None;
            },
        }
        i = i + 1;
    }
    proof {
        assert(rv.take(i as int) =~= rv);
    }
    Some(out)
}

/// Once a prefix of the references names no file, the whole reading order
/// does not resolve.
pub proof fn lemma_spine_indices_none(ids: Seq<Seq<char>>, refs: Seq<Seq<char>>, k: int)
    requires
        0 <= k <= refs.len(),
        spine_indices(ids, refs.take(k)) is None,
    ensures
        spine_indices(ids, refs) is None,
    decreases refs.len() - k,
{
    if k < refs.len() {
        assert(refs.take(k + 1).drop_last() =~= refs.take(k));
        lemma_spine_indices_none(ids, refs, k + 1);
    } else {
        assert(refs.take(k) =~= refs);
    }
}

// ---- the chapters of the table of contents ----

/// Whether an entry of the table of contents is the entry of the table of
/// contents itself: labelled 目次, or pointing to a path with `toc` in it.
pub open spec fn is_toc_point(p: NavPoint) -> bool {
    p.nav_label.text@ == "目次"@ || contains_seq(p.content.src@, "toc"@)
}

/// The index of the first such entry from `from` on; the length when none.
pub open spec fn toc_point_index(ps: Seq<NavPoint>, from: int) -> int
    decreases ps.len() - from,
{
    if from >= ps.len() {
        ps.len() as int
    } else if is_toc_point(ps[from]) {
        from
    } else {
        toc_point_index(ps, from + 1)
    }
}

/// The top-level entries after the entry of the table of contents itself
/// (all of them when there is none).
pub open spec fn chapter_points(ps: Seq<NavPoint>) -> Seq<NavPoint> {
    let i = toc_point_index(ps, 0);
    if i < ps.len() { ps.skip(i + 1) } else { ps }
}

/// The title of each chapter and its document, without the fragment.
pub open spec fn chapter_entries_of(ps: Seq<NavPoint>) -> Seq<Entry> {
    chapter_points(ps).map_values(|p: NavPoint| (p.nav_label.text@, before_first(p.content.src@, '#')))
}

/// The chapters begin right after the first entry that is labelled 目次 or
/// points to a path containing `toc`: if entry `j` is the first such, the
/// chapters are the entries after it, in order, each with its label and its
/// path up to the fragment; when there is none, every entry is a chapter.
pub proof fn lemma_chapters_follow_toc(ps: Seq<NavPoint>, j: int)
    ensures
        0 <= j < ps.len()
            && (ps[j].nav_label.text@ == "目次"@ || contains_seq(ps[j].content.src@, "toc"@))
            && (forall|k: int| 0 <= k < j ==> !(#[trigger] ps[k].nav_label.text@ == "目次"@ || contains_seq(ps[k].content.src@, "toc"@)))
            ==> chapter_entries_of(ps).len() == ps.len() - j - 1
                && forall|t: int| 0 <= t < ps.len() - j - 1 ==> #[trigger] chapter_entries_of(ps)[t]
                    == (ps[j + 1 + t].nav_label.text@, before_first(ps[j + 1 + t].content.src@, '#')),
        (forall|k: int| 0 <= k < ps.len() ==> !(#[trigger] ps[k].nav_label.text@ == "目次"@ || contains_seq(ps[k].content.src@, "toc"@)))
            ==> chapter_entries_of(ps).len() == ps.len()
                && forall|t: int| 0 <= t < ps.len() ==> #[trigger] chapter_entries_of(ps)[t]
                    == (ps[t].nav_label.text@, before_first(ps[t].content.src@, '#')),
{
    if 0 <= j < ps.len()
        && (ps[j].nav_label.text@ == "目次"@ || contains_seq(ps[j].content.src@, "toc"@))
        && (forall|k: int| 0 <= k < j ==> !(#[trigger] ps[k].nav_label.text@ == "目次"@ || contains_seq(ps[k].content.src@, "toc"@))) {
        lemma_toc_index_at_first(ps, 0, j);
    }
    if forall|k: int| 0 <= k < ps.len() ==> !(#[trigger] ps[k].nav_label.text@ == "目次"@ || contains_seq(ps[k].content.src@, "toc"@)) {
        lemma_toc_index_none(ps, 0);
    }
}

proof fn lemma_toc_index_at_first(ps: Seq<NavPoint>, from: int, j: int)
    requires
        0 <= from <= j < ps.len(),
        is_toc_point(ps[j]),
        forall|k: int| from <= k < j ==> !is_toc_point(#[trigger] ps[k]),
    ensures
        toc_point_index(ps, from) == j,
    decreases j - from,
{
    if from < j {
        assert(!is_toc_point(ps[from]));
        lemma_toc_index_at_first(ps, from + 1, j);
    }
}

proof fn lemma_toc_index_none(ps: Seq<NavPoint>, from: int)
    requires
        0 <= from <= ps.len(),
        forall|k: int| from <= k < ps.len() ==> !is_toc_point(#[trigger] ps[k]),
    ensures
        toc_point_index(ps, from) == ps.len(),
    decreases ps.len() - from,
{
    if from < ps.len() {
        assert(!is_toc_point(ps[from]));
        lemma_toc_index_none(ps, from + 1);
    }
}

fn is_toc_entry(p: &NavPoint) -> (r: bool)
    ensures
        r == is_toc_point(*p),
{
    let src = chars_of(p.content.src.as_str());
    let toc = chars_of("toc");
    str_eq(p.nav_label.text.as_str(), "目次") || contains_chars(&src, &toc)
}

/// The chapters of a table of contents: the title and document of each
/// top-level entry after the entry of the table of contents itself.
pub fn chapter_entries(points: &Vec<NavPoint>) -> (r: Vec<(String, String)>)
    ensures
        entry_views(r@) == chapter_entries_of(points@),
{
    let ghost ps = points@;
    let mut i: usize = 0;
    let mut found = false;
    while !found && i < points.len()
        invariant
            ps == points@,
            i <= ps.len(),
            toc_point_index(ps, i as int) == toc_point_index(ps, 0),
            found ==> i < ps.len() && is_toc_point(ps[i as int]),
        decreases points.len() - i + (if found { 0int } else { 1int }),
    {
        if is_toc_entry(&points[i]) {
            found = true;
        } else {
            i = i + 1;
        }
    }
    proof {
        if found {
            assert(i < points.len());
        }
    }
    let start: usize = if found { i + 1 } else { 0 };
    proof {
        if found {
            assert(toc_point_index(ps, i as int) == i);
        } else {
            assert(toc_point_index(ps, i as int) == ps.len());
        }
        assert(chapter_points(ps) =~= ps.skip(start as int));
    }
    let ghost chosen = ps.skip(start as int);
    let ghost f = |p: NavPoint| (p.nav_label.text@, before_first(p.content.src@, '#'));
    let mut out: Vec<(String, String)> = Vec::new();
    let mut k: usize = start;
    proof {
        assert(entry_views(out@) =~= chosen.take(0).map_values(f));
    }
    while k < points.len()
        invariant
            ps == points@,
            start <= k <= ps.len(),
            chosen == ps.skip(start as int),
            f == (|p: NavPoint| (p.nav_label.text@, before_first(p.content.src@, '#'))),
            entry_views(out@) == chosen.take(k - start).map_values(f),
        decreases points.len() - k,
    {
        let p = &points[k];
        let ghost before = entry_views(out@);
        out.push((p.nav_label.text.clone(), prefix_before(p.content.src.as_str(), '#')));
        proof {
            assert(chosen.take(k + 1 - start) =~= chosen.take(k - start).push(ps[k as int]));
            assert(entry_views(out@) =~= before.push(f(ps[k as int])));
            assert(chosen.take(k + 1 - start).map_values(f) =~= chosen.take(k - start).map_values(f).push(f(ps[k as int])));
        }
        k = k + 1;
    }
    proof {
        assert(chosen.take(k - start) =~= chosen);
    }
    out
}

/// The first index from `start` on of a document with path `p`, or -1.
pub open spec fn position_from(paths: Seq<Seq<char>>, start: int, p: Seq<char>) -> int
    decreases paths.len() - start,
{
    if start < 0 || start >= paths.len() {
        -1
    } else if paths[start] == p {
        start
    } else {
        position_from(paths, start + 1, p)
    }
}

/// A chapter: its title and the range of the reading order it covers.
pub type ChapterRange = (Seq<char>, int, int);

/// The ranges of the chapters `entries[k..]`, walking the reading order
/// from `start`: each chapter runs from its own document to the next
/// chapter's (the last one to the end of the reading order). `None` when a
/// chapter's document is not in the rest of the reading order, or the next
/// chapter's document comes before it.
pub open spec fn chapter_ranges(entries: Seq<Entry>, paths: Seq<Seq<char>>, k: int, start: int) -> Option<Seq<ChapterRange>>
    decreases entries.len() - k,
{
    if k < 0 || k >= entries.len() {
        Some(Seq::empty())
    } else {
        let a = entries[k];
        let b = entries[(k + 1) % (entries.len() as int)];
        let one = position_from(paths, start, a.1);
        let two = position_from(paths, start, b.1);
        if one < 0 {
            None
        } else if two >= 0 {
            if one > two {
                None
            } else {
                match chapter_ranges(entries, paths, k + 1, two) {
                    Some(rest) => Some(seq![(a.0, one, two)] + rest),
                    None => None,
                }
            }
        } else {
            match chapter_ranges(entries, paths, k + 1, paths.len() as int) {
                Some(rest) => Some(seq![(a.0, one, paths.len() as int)] + rest),
                None => None,
            }
        }
    }
}

fn position_of(paths: &Vec<String>, start: usize, p: &str) -> (r: Option<usize>)
    requires
        start <= paths@.len(),
    ensures
        r matches Some(j) ==> j as int == position_from(string_views(paths@), start as int, p@) && j < paths@.len(),
        r is None ==> position_from(string_views(paths@), start as int, p@) == -1,
{
    let ghost v = string_views(paths@);
    let mut i = start;
    while i < paths.len()
        invariant
            v == string_views(paths@),
            start <= i <= paths@.len(),
            position_from(v, start as int, p@) == position_from(v, i as int, p@),
        decreases paths.len() - i,
    {
        if str_eq(paths[i].as_str(), p) {
            return Some(i);
        }
        i = i + 1;
    }
    None
}

/// The chapter ranges, as plain values.
pub open spec fn range_views(v: Seq<(String, usize, usize)>) -> Seq<ChapterRange> {
    v.map_values(|c: (String, usize, usize)| (c.0@, c.1 as int, c.2 as int))
}

/// The title and range of the reading order of each chapter; see
/// `chapter_ranges`.
pub fn chapter_pages(entries: &Vec<(String, String)>, paths: &Vec<String>) -> (r: Option<Vec<(String, usize, usize)>>)
    ensures
        r matches Some(v) ==> chapter_ranges(entry_views(entries@), string_views(paths@), 0, 0) == Some(range_views(v@)),
        r is None ==> chapter_ranges(entry_views(entries@), string_views(paths@), 0, 0) is None,
        r matches Some(v) ==> forall|i: int| 0 <= i < v@.len() ==> (#[trigger] v@[i]).1 <= v@[i].2 <= paths@.len(),
{
    let ghost es = entry_views(entries@);
    let ghost ps = string_views(paths@);
    let n = entries.len();
    let mut out: Vec<(String, usize, usize)> = Vec::new();
    let mut k: usize = 0;
    let mut start: usize = 0;
    proof {
        assert(range_views(out@) + chapter_ranges(es, ps, 0, 0)->0 =~= chapter_ranges(es, ps, 0, 0)->0);
    }
    while k < n
        invariant
            n == entries@.len(),
            es == entry_views(entries@),
            ps == string_views(paths@),
            k <= n,
            start <= paths@.len(),
            chapter_ranges(es, ps, 0, 0) == (match chapter_ranges(es, ps, k as int, start as int) {
                Some(rest) => Some(range_views(out@) + rest),
                None => None::<Seq<ChapterRange>>,
            }),
            forall|i: int| 0 <= i < out@.len() ==> (#[trigger] out@[i]).1 <= out@[i].2 <= paths@.len(),
        decreases n - k,
    {
        let next = if k + 1 < n { k + 1 } else { 0 };
        proof {
            assert((k + 1) % (n as int) == next as int) by (nonlinear_arith)
                requires
                    k < n,
                    next == (if k + 1 < n { k + 1 } else { 0 }),
            ;
        }
        let one = position_of(paths, start, entries[k].1.as_str());
        let two = position_of(paths, start, entries[next].1.as_str());
        let ghost rest_after = if two is Some { chapter_ranges(es, ps, k + 1, two->0 as int) } else { chapter_ranges(es, ps, k + 1, ps.len() as int) };
        match one {
            None => {
                return None;
            },
            Some(one) => {
                let ghost before = range_views(out@);
                match two {
                    Some(two) => {
                        if one > two {
                            return None;
                        }
                        out.push((entries[k].0.clone(), one, two));
                        start = two;
                    },
                    None => {
                        out.push((entries[k].0.clone(), one, paths.len()));
                        start = paths.len();
                    },
                }
                proof {
                    assert(range_views(out@) =~= before.push((es[k as int].0, one as int, start as int)));
                    match chapter_ranges(es, ps, k + 1, start as int) {
                        Some(rest) => {
                            assert(before + (seq![(es[k as int].0, one as int, start as int)] + rest) =~= range_views(out@) + rest);
                        },
                        None => {},
                    }
                }
            },
        }
        k = k + 1;
    }
    Some(out)
}

// ---- where the text starts ----

/// The index of the first reference of type `text` from `from` on; the
/// length when none.
pub open spec fn text_ref_index(refs: Seq<Reference>, from: int) -> int
    decreases refs.len() - from,
{
    if from >= refs.len() {
        refs.len() as int
    } else if refs[from].kind@ == "text"@ {
        from
    } else {
        text_ref_index(refs, from + 1)
    }
}

/// The index of the first document of the reading order whose path holds
/// `toc`, from `from` on; the length when none.
pub open spec fn toc_path_index(paths: Seq<Seq<char>>, from: int) -> int
    decreases paths.len() - from,
{
    if from >= paths.len() {
        paths.len() as int
    } else if contains_seq(paths[from], "toc"@) {
        from
    } else {
        toc_path_index(paths, from + 1)
    }
}

/// The document where the text starts: the guide's `text` reference; else
/// the document after the table of contents in the reading order; else the
/// guide's first reference (fragments removed). `None` without a guide, when
/// the table of contents is the last document, or when the guide is empty.
pub open spec fn start_document(refs: Option<Seq<Reference>>, paths: Seq<Seq<char>>) -> Option<Seq<char>> {
    match refs {
        None => None,
        Some(refs) => {
            let t = text_ref_index(refs, 0);
            if t < refs.len() {
                Some(before_first(refs[t].href@, '#'))
            } else {
                let a = toc_path_index(paths, 0);
                if a < paths.len() {
                    if a + 1 < paths.len() { Some(paths[a + 1]) } else { None }
                } else if refs.len() > 0 {
                    Some(before_first(refs[0].href@, '#'))
                } else {
                    None
                }
            }
        },
    }
}

/// The references of a guide, if there is one.
pub open spec fn refs_view(refs: Option<&Vec<Reference>>) -> Option<Seq<Reference>> {
    match refs {
        Some(v) => Some(v@),
        None => None,
    }
}

/// The document where the text starts; see `start_document`.
pub fn start_chapter(refs: Option<&Vec<Reference>>, paths: &Vec<String>) -> (r: Option<String>)
    ensures
        r matches Some(s) ==> start_document(refs_view(refs), string_views(paths@)) == Some(s@),
        r is None ==> start_document(refs_view(refs), string_views(paths@)) is None,
{
    let list = match refs {
        None => {
            return None;
        },
        Some(list) => list,
    };
    let ghost rv = list@;
    proof {
        assert(refs_view(refs) == Some(rv));
    }
    let ghost ps = string_views(paths@);
    let mut t: usize = 0;
    while t < list.len()
        invariant
            rv == list@,
            refs_view(refs) == Some(rv),
            t <= rv.len(),
            text_ref_index(rv, t as int) == text_ref_index(rv, 0),
        decreases list.len() - t,
    {
        if str_eq(list[t].kind.as_str(), "text") {
            proof {
                assert(text_ref_index(rv, t as int) == t);
                assert(start_document(Some(rv), string_views(paths@)) == Some(before_first(rv[t as int].href@, '#')));
            }
            let r = prefix_before(list[t].href.as_str(), '#');
            proof {
                assert(r@ == before_first(rv[t as int].href@, '#'));
            }
            return Some(r);
        }
        t = t + 1;
    }
    let toc = chars_of("toc");
    let mut a: usize = 0;
    while a < paths.len()
        invariant
            ps == string_views(paths@),
            a <= ps.len(),
            toc@ == "toc"@,
            toc_path_index(ps, a as int) == toc_path_index(ps, 0),
            text_ref_index(rv, 0) == rv.len(),
            refs_view(refs) == Some(rv),
        decreases paths.len() - a,
    {
        let path = chars_of(paths[a].as_str());
        if contains_chars(&path, &toc) {
            proof {
                assert(toc_path_index(ps, a as int) == a);
                assert(text_ref_index(rv, 0) == rv.len());
            }
            if a + 1 < paths.len() {
                return Some(paths[a + 1].clone());
            }
            return None;
        }
        a = a + 1;
    }
    proof {
        assert(toc_path_index(ps, a as int) == ps.len());
    }
    if list.len() > 0 {
        Some(prefix_before(list[0].href.as_str(), '#'))
    } else {
        None
    }
}

/// The position in the reading order of the document `start`.
pub fn start_position(paths: &Vec<String>, start: &str) -> (r: Option<usize>)
    ensures
        r matches Some(j) ==> j as int == position_from(string_views(paths@), 0, start@) && j < paths@.len(),
        r is None ==> position_from(string_views(paths@), 0, start@) == -1,
{
    position_of(paths, 0, start)
}

// ---- the text of the documents ----

/// The text of the documents `docs`, separated by blank lines; `None` where
/// the text of one is not defined.
pub open spec fn rendered_text(docs: Seq<HtmlNode>) -> Option<Seq<char>>
    decreases docs.len(),
{
    if docs.len() == 0 {
        Some(Seq::empty())
    } else if docs.len() == 1 {
        node_text(docs[0], false)
    } else {
        join_opt(join_opt(rendered_text(docs.drop_last()), Some("\n\n"@)), node_text(docs.last(), false))
    }
}

/// The blocks of the documents `docs`, in order.
pub open spec fn docs_blocks(docs: Seq<HtmlNode>) -> Option<Seq<Block>>
    decreases docs.len(),
{
    if docs.len() == 0 {
        Some(Seq::empty())
    } else {
        join_opt(docs_blocks(docs.drop_last()), node_blocks(docs.last(), false, false))
    }
}

} // verus!
