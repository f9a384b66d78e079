//! Image enumeration: a recursive walk of a directory tree, kept behind
//! trusted wrappers around `walkdir`, and a verified filter that keeps
//! exactly the regular files carrying an image extension.

use vstd::prelude::*;

use crate::ext::is_image_name;
use crate::ext::has_image_ext;
use crate::paths::base_name_of;
use crate::paths::base_name;
use crate::paths::has_prefix;

verus! {

/// A single image file found during enumeration: its full path and its
/// base name (the portion of the path after the final separator).
#[derive(Debug)]
pub struct ImageFile {
    pub path: String,
    pub name: String,
}

/// One entry met during a walk: its full path and whether it is a
/// regular file (directories and other node kinds are never listed).
pub struct WalkEntry {
    pub path: String,
    pub is_file: bool,
}

/// One step of a walk: an entry that could be read, or a fault at some
/// depth below the root (depth zero is the root itself).
pub enum WalkItem {
    Entry(WalkEntry),
    Fault { message: String, depth: usize },
}

/// The mathematical shadow of [`WalkItem`]: an entry's path and
/// regular-file flag, or a fault's message and depth.
pub enum WalkItemView {
    Entry(Seq<char>, bool),
    Fault(Seq<char>, int),
}

impl View for WalkItem {
    type V = WalkItemView;

    open spec fn view(&self) -> WalkItemView {
        match self {
            WalkItem::Entry(e) => WalkItemView::Entry(e.path@, e.is_file),
            WalkItem::Fault { message, depth } => WalkItemView::Fault(message@, *depth as int),
        }
    }
}

/// The view of a sequence of walk items.
pub open spec fn item_views(items: Seq<WalkItem>) -> Seq<WalkItemView> {
    items.map_values(|it: WalkItem| it@)
}

/// True of a fault at depth zero: the root itself could not be opened.
pub open spec fn is_root_fault(v: WalkItemView) -> bool {
    v matches WalkItemView::Fault(_, d) && d == 0
}

/// True when the walk yielded a fault at the root itself.
pub open spec fn has_root_fault(items: Seq<WalkItemView>) -> bool {
    exists|i: int| 0 <= i < items.len() && is_root_fault(#[trigger] items[i])
}

/// The entries among the walked items, in walk order, with faults left
/// out.
pub open spec fn entries_of(items: Seq<WalkItemView>) -> Seq<(Seq<char>, bool)>
    decreases items.len(),
{
    if items.len() == 0 {
        Seq::empty()
    } else {
        let rest = entries_of(items.drop_last());
        match items.last() {
            WalkItemView::Entry(p, b) => rest.push((p, b)),
            WalkItemView::Fault(_, _) => rest,
        }
    }
}

/// Every entry among the walked items' entries stems from one of the
/// items: `entries_of` invents nothing.
pub proof fn lemma_entries_of_elements(items: Seq<WalkItemView>)
    ensures
        forall|i: int| 0 <= i < entries_of(items).len() ==> exists|k: int|
            0 <= k < items.len() && items[k] == WalkItemView::Entry(
                (#[trigger] entries_of(items)[i]).0,
                entries_of(items)[i].1,
            ),
    decreases items.len(),
{
    if items.len() > 0 {
        lemma_entries_of_elements(items.drop_last());
        let rest = entries_of(items.drop_last());
        let out = entries_of(items);
        assert(forall|k: int| 0 <= k < items.len() - 1 ==> items.drop_last()[k] == items[k]);
        assert forall|i: int| 0 <= i < out.len() implies exists|k: int|
            0 <= k < items.len() && items[k] == WalkItemView::Entry(
                (#[trigger] out[i]).0,
                out[i].1,
            ) by {
            if i < rest.len() {
                assert(out[i] == rest[i]);
                let k = choose|k: int|
                    0 <= k < items.drop_last().len() && items.drop_last()[k]
                        == WalkItemView::Entry((rest[i]).0, rest[i].1);
                assert(items[k] == WalkItemView::Entry(out[i].0, out[i].1));
            } else {
                assert(items.last() matches WalkItemView::Entry(p, b) && out[i] == (p, b));
                assert(items[items.len() - 1] == WalkItemView::Entry(out[i].0, out[i].1));
            }
        }
    }
}

/// The entries of `entries` that are regular files with an image name,
/// in their original order, each paired with its base name.
pub open spec fn image_views_of(entries: Seq<(Seq<char>, bool)>) -> Seq<(Seq<char>, Seq<char>)>
    decreases entries.len(),
{
    if entries.len() == 0 {
        Seq::empty()
    } else {
        let rest = image_views_of(entries.drop_last());
        let last = entries.last();
        if last.1 && is_image_name(last.0) {
            rest.push((last.0, base_name_of(last.0)))
        } else {
            rest
        }
    }
}

/// The view of a sequence of walk entries: each path as characters,
/// with its regular-file flag.
pub open spec fn entry_views(v: Seq<WalkEntry>) -> Seq<(Seq<char>, bool)> {
    v.map_values(|e: WalkEntry| (e.path@, e.is_file))
}

/// The view of a sequence of image files: each path with its name.
pub open spec fn image_file_views(v: Seq<ImageFile>) -> Seq<(Seq<char>, Seq<char>)> {
    v.map_values(|f: ImageFile| (f.path@, f.name@))
}

/// Every listed image is a regular file with an image name, paired with
/// the base name of its own path.
pub proof fn lemma_image_views_elements(entries: Seq<(Seq<char>, bool)>)
    ensures
        forall|j: int| 0 <= j < image_views_of(entries).len() ==> {
            let out = #[trigger] image_views_of(entries)[j];
            is_image_name(out.0) && out.1 == base_name_of(out.0)
        },
    decreases entries.len(),
{
    if entries.len() > 0 {
        lemma_image_views_elements(entries.drop_last());
        let rest = image_views_of(entries.drop_last());
        let last = entries.last();
        if last.1 && is_image_name(last.0) {
            let full = rest.push((last.0, base_name_of(last.0)));
            assert(image_views_of(entries) == full);
            assert forall|j: int| 0 <= j < full.len() implies {
                let out = #[trigger] full[j];
                is_image_name(out.0) && out.1 == base_name_of(out.0)
            } by {
                if j < rest.len() {
                    assert(full[j] == rest[j]);
                } else {
                    assert(full[j] == (last.0, base_name_of(last.0)));
                }
            }
        } else {
            assert(image_views_of(entries) == rest);
        }
    }
}

/// A path appears among the listed images exactly when it appears among
/// the walked entries as a regular file whose name carries an image
/// extension: nothing else is ever listed, and no such file is dropped.
pub proof fn lemma_image_listing_exact(entries: Seq<(Seq<char>, bool)>, p: Seq<char>)
    ensures
        (exists|j: int|
            0 <= j < image_views_of(entries).len() && #[trigger] image_views_of(entries)[j].0
                == p) <==> (is_image_name(p) && exists|i: int|
            0 <= i < entries.len() && #[trigger] entries[i] == (p, true)),
    decreases entries.len(),
{
    let out = image_views_of(entries);
    if entries.len() == 0 {
    } else {
        let prefix = entries.drop_last();
        let last = entries.last();
        lemma_image_listing_exact(prefix, p);
        let sub = image_views_of(prefix);
        if last.1 && is_image_name(last.0) {
            assert(out == sub.push((last.0, base_name_of(last.0))));
        } else {
            assert(out == sub);
        }
        // Each direction: a witness index below `prefix.len()` carries
        // over between `entries` and its prefix unchanged.
        assert(forall|i: int| 0 <= i < prefix.len() ==> prefix[i] == entries[i]);
        if exists|j: int| 0 <= j < out.len() && #[trigger] out[j].0 == p {
            let j = choose|j: int| 0 <= j < out.len() && #[trigger] out[j].0 == p;
            if j < sub.len() {
                assert(sub[j].0 == p);
                let i = choose|i: int| 0 <= i < prefix.len() && #[trigger] prefix[i] == (p, true);
                assert(entries[i] == (p, true));
                lemma_image_views_elements(entries);
            } else {
                assert(last.1 && is_image_name(last.0) && last.0 == p);
                assert(entries[entries.len() - 1] == (p, true));
            }
        }
        if is_image_name(p) && exists|i: int|
            0 <= i < entries.len() && #[trigger] entries[i] == (p, true) {
            let i = choose|i: int| 0 <= i < entries.len() && #[trigger] entries[i] == (p, true);
            if i < prefix.len() {
                assert(prefix[i] == (p, true));
                let j = choose|j: int| 0 <= j < sub.len() && #[trigger] sub[j].0 == p;
                assert(out[j].0 == p);
            } else {
                assert(last == (p, true));
                assert(out[out.len() - 1].0 == p);
            }
        }
    }
}

/// A path appears among the listed images exactly when the walk met it
/// as a regular file and its base name carries one of the three image
/// extensions, compared case-insensitively: the listing is precisely
/// the image-named files, by file name.
pub proof fn lemma_image_listing_by_name(entries: Seq<(Seq<char>, bool)>, p: Seq<char>)
    ensures
        (exists|j: int|
            0 <= j < image_views_of(entries).len() && #[trigger] image_views_of(entries)[j].0
                == p) <==> (is_image_name(base_name_of(p)) && exists|i: int|
            0 <= i < entries.len() && #[trigger] entries[i] == (p, true)),
{
    lemma_image_listing_exact(entries, p);
    crate::ext::lemma_image_name_by_base(p);
}

/// Keeps exactly the walked entries that are regular files whose name
/// ends, case-insensitively, in `.jpg`, `.jpeg`, or `.png`, in walk
/// order, and pairs each with its base name.
pub fn filter_images(entries: &Vec<WalkEntry>) -> (r: Vec<ImageFile>)
    ensures
        image_file_views(r@) == image_views_of(entry_views(entries@)),
{
    let ghost all = entry_views(entries@);
    let mut r: Vec<ImageFile> = Vec::new();
    let mut i: usize = 0;
    proof {
        assert(image_file_views(r@) =~= image_views_of(all.subrange(0, 0)));
    }
    while i < entries.len()
        invariant
            0 <= i <= entries.len(),
            all == entry_views(entries@),
            all.len() == entries@.len(),
            image_file_views(r@) == image_views_of(all.subrange(0, i as int)),
        decreases entries.len() - i,
    {
        let e = &entries[i];
        let ghost prev = all.subrange(0, i as int);
        let ghost cur = all.subrange(0, i as int + 1);
        proof {
            assert(cur.drop_last() =~= prev);
            assert(cur.last() == all[i as int]);
            assert(all[i as int] == (entries@[i as int].path@, entries@[i as int].is_file));
        }
        if e.is_file && has_image_ext(e.path.as_str()) {
            let name = base_name(e.path.as_str());
            let path = e.path.clone();
            assert(path@ == entries@[i as int].path@);
            r.push(ImageFile { path, name });
            proof {
                assert(image_file_views(r@) =~= image_views_of(cur));
            }
        } else {
            proof {
                assert(image_file_views(r@) =~= image_views_of(cur));
            }
        }
        i += 1;
    }
    proof {
        assert(all.subrange(0, entries@.len() as int) =~= all);
    }
    r
}

/// The traversal state of `walkdir`'s recursive directory iterator,
/// opaque to the verifier: every observation of it goes through the
/// two wrappers below.
#[verifier::external_type_specification]
#[verifier::external_body]
pub struct ExWalkDirIter(walkdir::IntoIter);

/// One entry yielded by `walkdir`, opaque to the verifier; the wrapper
/// below converts it at once to a plain [`WalkEntry`].
#[verifier::external_type_specification]
#[verifier::external_body]
pub struct ExWalkDirEntry(walkdir::DirEntry);

/// `walkdir`'s error type, opaque to the verifier; the wrapper below
/// converts it at once to its rendered message and its depth.
#[verifier::external_type_specification]
#[verifier::external_body]
pub struct ExWalkDirError(walkdir::Error);

/// A walk in progress: `walkdir`'s traversal state, together with the
/// root it was begun on, carried as a ghost value so that contracts
/// can relate every yielded path to it.
pub struct Walk {
    it: walkdir::IntoIter,
    root: Ghost<Seq<char>>,
}

/// Relies on `walkdir::WalkDir::new` and its `IntoIterator` impl: begins
/// a recursive, depth-first traversal of the tree rooted at `root`.
#[verifier::external_body]
fn walk_begin_raw(root: &str) -> walkdir::IntoIter {
    walkdir::WalkDir::new(root).into_iter()
}

/// Begins a walk rooted at `root`, remembering the root alongside the
/// traversal state.
fn walk_begin(root: &str) -> (w: Walk)
    ensures
        w.root@ == root@,
{
    Walk { it: walk_begin_raw(root), root: Ghost(root@) }
}

/// Relies on `walkdir::IntoIter::next`: yields each reachable entry or
/// a fault, and `None` once the traversal is exhausted. A fault carries
/// `walkdir::Error`'s rendering and its depth; depth zero means the
/// root itself could not be opened. An entry's full path is, as
/// `walkdir::DirEntry::path` documents, the root joined with the
/// components descended through, so it carries the root as a prefix.
#[verifier::external_body]
fn walk_next(w: &mut Walk) -> (r: Option<WalkItem>)
    ensures
        final(w).root@ == old(w).root@,
        r matches Some(WalkItem::Entry(e)) ==> has_prefix(e.path@, old(w).root@),
{
    match w.it.next() {
        None => None,
        Some(Ok(entry)) => Some(WalkItem::Entry(WalkEntry {
            path: entry.path().to_string_lossy().to_string(),
            is_file: entry.file_type().is_file(),
        })),
        Some(Err(e)) => Some(WalkItem::Fault { message: e.to_string(), depth: e.depth() }),
    }
}

/// The enumeration's fault policy, over the items one walk yielded:
/// a fault at the root itself fails the whole enumeration with that
/// fault's message (the first such, were there several), while faults
/// deeper in the tree are skipped; without a root fault the result is
/// exactly the image files among the walked entries, in walk order.
pub fn items_outcome(items: &Vec<WalkItem>) -> (r: Result<Vec<ImageFile>, String>)
    ensures
        (r is Err) <==> has_root_fault(item_views(items@)),
        r matches Err(m) ==> exists|i: int|
            {
                &&& 0 <= i < item_views(items@).len()
                &&& item_views(items@)[i] == WalkItemView::Fault(m@, 0)
                &&& forall|k: int| 0 <= k < i ==> !is_root_fault(#[trigger] item_views(items@)[k])
            },
        r matches Ok(files) ==> image_file_views(files@) == image_views_of(
            entries_of(item_views(items@)),
        ),
{
    let ghost views = item_views(items@);
    let mut entries: Vec<WalkEntry> = Vec::new();
    let mut i: usize = 0;
    proof {
        assert(entry_views(entries@) =~= entries_of(views.subrange(0, 0)));
    }
    while i < items.len()
        invariant
            0 <= i <= items.len(),
            views == item_views(items@),
            views.len() == items@.len(),
            forall|k: int| 0 <= k < i ==> !is_root_fault(#[trigger] views[k]),
            entry_views(entries@) == entries_of(views.subrange(0, i as int)),
        decreases items.len() - i,
    {
        let ghost prev = views.subrange(0, i as int);
        let ghost cur = views.subrange(0, i as int + 1);
        proof {
            assert(cur.drop_last() =~= prev);
            assert(cur.last() == views[i as int]);
            assert(views[i as int] == items@[i as int]@);
        }
        match &items[i] {
            WalkItem::Entry(e) => {
                entries.push(WalkEntry { path: e.path.clone(), is_file: e.is_file });
                proof {
                    assert(entry_views(entries@) =~= entries_of(cur));
                }
            },
            WalkItem::Fault { message, depth } => {
                if *depth == 0 {
                    // The root could not be opened at all: the one
                    // fault that fails the enumeration. The loop
                    // invariant makes it the first such fault.
                    proof {
                        assert(is_root_fault(views[i as int]));
                        assert(has_root_fault(views));
                    }
                    return Err(message.clone());
                }
                // Unreadable entries below the root are skipped.
                proof {
                    assert(entry_views(entries@) =~= entries_of(cur));
                }
            },
        }
        i += 1;
    }
    proof {
        assert(views.subrange(0, items@.len() as int) =~= views);
    }
    Ok(filter_images(&entries))
}

/// Walks the tree rooted at `root` and returns the image files found,
/// in walk order, applying [`items_outcome`]'s fault policy to what
/// the walk yielded: a fault at the root itself is returned as an
/// error, entries that cannot be read deeper in the tree are skipped.
/// Every file returned carries an image name, is named by its own base
/// name, and its path lies under the root.
pub fn get_images(root: &str) -> (r: Result<Vec<ImageFile>, String>)
    ensures
        r matches Ok(files) ==> forall|j: int| 0 <= j < files@.len() ==> {
            let f = #[trigger] files@[j];
            &&& is_image_name(f.path@)
            &&& f.name@ == base_name_of(f.path@)
            &&& has_prefix(f.path@, root@)
        },
{
    let mut w = walk_begin(root);
    let mut items: Vec<WalkItem> = Vec::new();
    // Each loop step consumes one walk item; the counter gives the
    // loop a measure and can count far more entries than any tree
    // holds, since each walked entry occupies at least a byte.
    let mut fuel: usize = usize::MAX;
    while fuel > 0
        invariant
            w.root@ == root@,
            forall|k: int|
                0 <= k < items@.len() ==> ((#[trigger] items@[k]@) matches WalkItemView::Entry(
                    p,
                    b,
                ) ==> has_prefix(p, root@)),
        decreases fuel,
    {
        fuel -= 1;
        match walk_next(&mut w) {
            None => { break; },
            Some(item) => {
                proof {
                    match &item {
                        WalkItem::Entry(e) => {
                            assert(item@ == WalkItemView::Entry(e.path@, e.is_file));
                            assert(has_prefix(e.path@, root@));
                        },
                        WalkItem::Fault { .. } => {},
                    }
                }
                items.push(item);
            },
        }
    }
    let r = items_outcome(&items);
    proof {
        if r is Ok {
            let files = r->Ok_0;
            let views = item_views(items@);
            let es = entries_of(views);
            lemma_image_views_elements(es);
            lemma_entries_of_elements(views);
            assert(forall|j: int| 0 <= j < files@.len() ==> image_file_views(files@)[j] == (
            #[trigger] files@[j].path@,
            files@[j].name@,
            ));
            assert forall|j: int| 0 <= j < files@.len() implies has_prefix(
                (#[trigger] files@[j]).path@,
                root@,
            ) by {
                let p = files@[j].path@;
                assert(image_views_of(es)[j].0 == p);
                lemma_image_listing_exact(es, p);
                let i = choose|i: int| 0 <= i < es.len() && #[trigger] es[i] == (p, true);
                let k = choose|k: int|
                    0 <= k < views.len() && views[k] == WalkItemView::Entry(
                        (es[i]).0,
                        es[i].1,
                    );
                assert(items@[k]@ == WalkItemView::Entry(p, true));
            }
        }
    }
    r
}

} // verus!
