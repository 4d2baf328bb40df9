//! Candidate discovery: which files of a walked directory tree become
//! ingestion candidates.
//!
//! The walk itself is filesystem work and happens outside this crate; it
//! hands over a snapshot of what it met, each entry carrying the depth of
//! the directory whose listing produced it (the root's own listing is depth
//! 0).  Everything decided about a snapshot — the extension allow-list, the
//! depth bound, the recursion flag — is verified here.

use vstd::prelude::*;

use crate::errors::GalleryError;
use crate::pathname::{is_image_file, is_image_path};
use crate::seqext::lemma_filter_push;

verus! {

/// One entry met while walking a directory tree.
pub struct FsEntry {
    /// The entry's full path.
    pub path: String,
    /// Depth of the directory whose listing produced the entry.
    pub depth: usize,
    /// Whether the entry is a plain file (as opposed to a directory).
    pub is_file: bool,
}

/// What probing the root path found: a plain file, a directory (with the
/// entries met while walking it), or nothing.
pub enum PathSnapshot {
    File,
    Dir(Vec<FsEntry>),
    Missing,
}

/// Whether one walked entry becomes an ingestion candidate: a plain file
/// with an allow-listed image extension, met no deeper than `max_depth`,
/// and — unless the walk is recursive — met in the root's own listing.
pub open spec fn entry_selected(e: FsEntry, recursive: bool, max_depth: int) -> bool {
    &&& e.is_file
    &&& e.depth <= max_depth
    &&& recursive || e.depth == 0
    &&& is_image_path(e.path@)
}

/// The paths selected from a walked listing, in the order they were met.
pub open spec fn selected_paths(entries: Seq<FsEntry>, recursive: bool, max_depth: int) -> Seq<
    Seq<char>,
> {
    entries.filter(|e: FsEntry| entry_selected(e, recursive, max_depth)).map_values(
        |e: FsEntry| e.path@,
    )
}

/// Whether a walk should enter a subdirectory whose listing would be at
/// `child_depth`: only a recursive walk descends, and a listing deeper than
/// `max_depth` could select nothing, so it is not entered.
///
/// A walk pruned here still meets every entry that `entry_selected` can
/// accept.
pub fn should_descend(recursive: bool, child_depth: usize, max_depth: usize) -> (r: bool)
    ensures
        r == (recursive && child_depth <= max_depth),
{
    recursive && child_depth <= max_depth
}

/// Select the ingestion candidates out of a walked directory listing.
pub fn collect_images_from_dir(entries: &Vec<FsEntry>, recursive: bool, max_depth: usize) -> (files:
    Vec<String>)
    ensures
        files@.map_values(|f: String| f@) == selected_paths(entries@, recursive, max_depth as int),
{
    let ghost pred = |e: FsEntry| entry_selected(e, recursive, max_depth as int);
    let ghost to_view = |f: String| f@;
    let ghost to_path = |e: FsEntry| e.path@;
    let mut files: Vec<String> = Vec::new();
    let mut i: usize = 0;
    while i < entries.len()
        invariant
            i <= entries@.len(),
            files@.map_values(to_view) == entries@.subrange(0, i as int).filter(pred).map_values(
                to_path,
            ),
            pred == (|e: FsEntry| entry_selected(e, recursive, max_depth as int)),
            to_view == (|f: String| f@),
            to_path == (|e: FsEntry| e.path@),
        decreases entries@.len() - i,
    {
        let e = &entries[i];
        let ghost pre = entries@.subrange(0, i as int);
        let ghost cur = entries@.subrange(0, i + 1 as int);
        proof {
            assert(cur =~= pre.push(entries@[i as int]));
            lemma_filter_push(pre, pred, entries@[i as int]);
        }
        if e.is_file && e.depth <= max_depth && (recursive || e.depth == 0) && is_image_file(
            e.path.as_str(),
        ) {
            let ghost old_files = files@;
            files.push(e.path.clone());
            proof {
                assert(cur.filter(pred) =~= pre.filter(pred).push(entries@[i as int]));
                assert(cur.filter(pred).map_values(to_path) =~= pre.filter(pred).map_values(
                    to_path,
                ).push(entries@[i as int].path@));
                assert(files@.map_values(to_view) =~= old_files.map_values(to_view).push(
                    files@.last()@,
                ));
            }
        } else {
            proof {
                assert(cur.filter(pred) =~= pre.filter(pred));
            }
        }
        i = i + 1;
    }
    proof {
        assert(entries@.subrange(0, entries@.len() as int) =~= entries@);
    }
    files
}

/// Turn a probed root path into the list of ingestion candidates.
///
/// A root that is a plain file is its own single candidate, kept exactly
/// when its extension is allow-listed.  A root directory contributes its
/// walked listing, filtered by [`entry_selected`].  A root that is neither
/// is rejected up front with a `ValidationError`, before any work.
pub fn collect_image_files(path: &str, snapshot: &PathSnapshot, recursive: bool, max_depth: usize)
    -> (r: Result<Vec<String>, GalleryError>)
    ensures
        r is Err <==> snapshot is Missing,
        r matches Err(e) ==> e is ValidationError,
        snapshot is File ==> (r matches Ok(v) && v@.map_values(|f: String| f@) == (
        if is_image_path(path@) {
            seq![path@]
        } else {
            Seq::<Seq<char>>::empty()
        })),
        snapshot matches PathSnapshot::Dir(entries) ==> (r matches Ok(v) && v@.map_values(
            |f: String| f@,
        ) == selected_paths(entries@, recursive, max_depth as int)),
{
    match snapshot {
        PathSnapshot::File => {
            let mut files: Vec<String> = Vec::new();
            if is_image_file(path) {
                files.push(path.to_owned());
                proof {
                    assert(files@.map_values(|f: String| f@) =~= seq![path@]);
                }
            } else {
                proof {
                    assert(files@.map_values(|f: String| f@) =~= Seq::<Seq<char>>::empty());
                }
            }
            Ok(files)
        },
        PathSnapshot::Dir(entries) => Ok(collect_images_from_dir(entries, recursive, max_depth)),
        PathSnapshot::Missing => Err(
            GalleryError::ValidationError("Path does not exist".to_owned()),
        ),
    }
}

/// Law: the depth bound.  For an image file entry, a recursive walk selects
/// it exactly when it lies at depth at most `max_depth`, and a
/// non-recursive walk selects exactly the root's own listing (depth 0),
/// whatever the bound.
pub proof fn lemma_depth_bound(e: FsEntry, max_depth: int)
    requires
        max_depth >= 0,
        e.is_file,
        is_image_path(e.path@),
    ensures
        entry_selected(e, true, max_depth) <==> e.depth <= max_depth,
        entry_selected(e, false, max_depth) <==> e.depth == 0,
{
}

/// Law: completeness of selection.  Every entry that `entry_selected`
/// accepts contributes its path to `selected_paths`.
pub proof fn lemma_selected_paths_complete(
    entries: Seq<FsEntry>,
    recursive: bool,
    max_depth: int,
    i: int,
)
    requires
        0 <= i < entries.len(),
        entry_selected(entries[i], recursive, max_depth),
    ensures
        selected_paths(entries, recursive, max_depth).contains(entries[i].path@),
{
    let pred = |e: FsEntry| entry_selected(e, recursive, max_depth);
    let filtered = entries.filter(pred);
    entries.lemma_filter_contains(pred, i);
    let j = choose|j: int| 0 <= j < filtered.len() && filtered[j] == entries[i];
    assert(selected_paths(entries, recursive, max_depth)[j] == entries[i].path@);
}

} // verus!
