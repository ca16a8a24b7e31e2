//! Mirroring an assembled tree into the roots of the servers: which entries
//! of the tree are copied, which directories are made, and where.

use crate::common::{same_text, FsEntry, FsEntryView};
use crate::paths::{path_extension, path_file_name, path_join, path_parent, path_strip_prefix};
use vstd::prelude::*;

verus! {

/// What is done for one entry of the assembled tree in one server root.
#[derive(Debug, PartialEq, Eq)]
pub enum SyncAction {
    /// Copy the file at `source` to `target`, over what may be there.
    CopyFile { source: String, target: String },
    /// Make the directory `target`, empty.
    CreateDir { target: String },
    /// Leave the entry out.
    Skip,
}

/// What a [`SyncAction`] stands for in contracts.
pub enum SyncActionView {
    CopyFile { source: Seq<char>, target: Seq<char> },
    CreateDir { target: Seq<char> },
    Skip,
}

impl View for SyncAction {
    type V = SyncActionView;

    open spec fn view(&self) -> SyncActionView {
        match self {
            SyncAction::CopyFile { source, target } => SyncActionView::CopyFile {
                source: source@,
                target: target@,
            },
            SyncAction::CreateDir { target } => SyncActionView::CreateDir { target: target@ },
            SyncAction::Skip => SyncActionView::Skip,
        }
    }
}

impl DeepView for SyncAction {
    type V = SyncActionView;

    open spec fn deep_view(&self) -> SyncActionView {
        self@
    }
}

/// The name of the directory that holds the path, if it has one.
pub open spec fn parent_name(path: Seq<char>) -> Option<Seq<char>> {
    match path_parent(path) {
        Some(dir) => path_file_name(dir),
        None => None,
    }
}

/// Whether a file at the path is one the servers need: its extension is
/// `acd` or `ini`, or it lies directly in a directory named `data`.
pub open spec fn is_server_file(path: Seq<char>) -> bool {
    path_extension(path) == Some("acd"@) || path_extension(path) == Some("ini"@) || parent_name(
        path,
    ) == Some("data"@)
}

/// Whether a directory at the path is a slot for skins: its name is `skins`.
pub open spec fn is_skins_dir(path: Seq<char>) -> bool {
    path_file_name(path) == Some("skins"@)
}

/// What is done for the entry: nothing where it does not lie below the
/// assembled root; else, at the same place below the target root, a server
/// file is copied and a skins directory is made; every other entry is left
/// out.
pub open spec fn sync_action_for(
    entry: FsEntryView,
    assembled_root: Seq<char>,
    target_root: Seq<char>,
) -> SyncActionView {
    match path_strip_prefix(entry.path, assembled_root) {
        Some(relative) => {
            if entry.is_file && is_server_file(entry.path) {
                SyncActionView::CopyFile {
                    source: entry.path,
                    target: path_join(target_root, relative),
                }
            } else if !entry.is_file && is_skins_dir(entry.path) {
                SyncActionView::CreateDir { target: path_join(target_root, relative) }
            } else {
                SyncActionView::Skip
            }
        },
        None => SyncActionView::Skip,
    }
}

/// What is done for the entries, one by one and in their order, with what is
/// left out dropped.
pub open spec fn sync_actions_for(
    entries: Seq<FsEntryView>,
    assembled_root: Seq<char>,
    target_root: Seq<char>,
) -> Seq<SyncActionView> {
    entries.map_values(|e: FsEntryView| sync_action_for(e, assembled_root, target_root)).filter(
        |a: SyncActionView| a != SyncActionView::Skip,
    )
}

/// A file directly in a directory named `data` is copied into every server
/// root, whatever its extension.
pub proof fn data_files_reach_every_root(
    entry: FsEntryView,
    assembled_root: Seq<char>,
    target_root: Seq<char>,
)
    requires
        entry.is_file,
        parent_name(entry.path) == Some("data"@),
        path_strip_prefix(entry.path, assembled_root) is Some,
    ensures
        sync_action_for(entry, assembled_root, target_root) == (SyncActionView::CopyFile {
            source: entry.path,
            target: path_join(target_root, path_strip_prefix(entry.path, assembled_root)->0),
        }),
{
}

/// A file that is neither `acd` nor `ini` and lies in no `data` directory
/// reaches no server root.
pub proof fn other_files_reach_no_root(
    entry: FsEntryView,
    assembled_root: Seq<char>,
    target_root: Seq<char>,
)
    requires
        entry.is_file,
        !is_server_file(entry.path),
    ensures
        sync_action_for(entry, assembled_root, target_root) == SyncActionView::Skip,
{
}

/// For a directory nothing is ever copied: a `skins` directory is made, and
/// made empty, and any other directory is left out.
pub proof fn directories_are_made_not_copied(
    entry: FsEntryView,
    assembled_root: Seq<char>,
    target_root: Seq<char>,
)
    requires
        !entry.is_file,
    ensures
        !(sync_action_for(entry, assembled_root, target_root) is CopyFile),
        sync_action_for(entry, assembled_root, target_root) is CreateDir ==> is_skins_dir(
            entry.path,
        ),
{
}

/// Whether the entry is a file that the servers need and that lies below the
/// assembled root.
pub open spec fn is_copied(entry: FsEntryView, assembled_root: Seq<char>) -> bool {
    entry.is_file && is_server_file(entry.path) && path_strip_prefix(entry.path, assembled_root)
        is Some
}

/// Whether the action copies the file at `source`.
pub open spec fn copies_from(action: SyncActionView, source: Seq<char>) -> bool {
    match action {
        SyncActionView::CopyFile { source: from, .. } => from == source,
        _ => false,
    }
}

/// The files copied into a server root are the server files of the
/// snapshot below the assembled root, each from its own path, and no
/// others: nothing is copied from anywhere else, and nothing is left out.
pub proof fn sync_copies_the_server_files_and_no_others(
    entries: Seq<FsEntryView>,
    assembled_root: Seq<char>,
    target_root: Seq<char>,
    source: Seq<char>,
)
    ensures
        (exists|k: int|
            0 <= k < sync_actions_for(entries, assembled_root, target_root).len() && copies_from(
                #[trigger] sync_actions_for(entries, assembled_root, target_root)[k],
                source,
            )) <==> (exists|i: int|
            0 <= i < entries.len() && is_copied(#[trigger] entries[i], assembled_root)
                && entries[i].path == source),
{
    let all = entries.map_values(
        |e: FsEntryView| sync_action_for(e, assembled_root, target_root),
    );
    let keep = |a: SyncActionView| a != SyncActionView::Skip;
    let actions = sync_actions_for(entries, assembled_root, target_root);
    assert(actions == all.filter(keep));
    if exists|k: int| 0 <= k < actions.len() && copies_from(#[trigger] actions[k], source) {
        let k = choose|k: int| 0 <= k < actions.len() && copies_from(#[trigger] actions[k], source);
        assert(all.filter(keep).contains(actions[k]));
        all.lemma_filter_contains_rev(keep, actions[k]);
        let i = choose|i: int| 0 <= i < all.len() && all[i] == actions[k];
        assert(is_copied(entries[i], assembled_root));
        assert(entries[i].path == source);
    }
    if exists|i: int|
        0 <= i < entries.len() && is_copied(#[trigger] entries[i], assembled_root)
            && entries[i].path == source {
        let i = choose|i: int|
            0 <= i < entries.len() && is_copied(#[trigger] entries[i], assembled_root)
                && entries[i].path == source;
        assert(keep(all[i]));
        all.lemma_filter_contains(keep, i);
        let k = choose|k: int| 0 <= k < actions.len() && actions[k] == all[i];
        assert(copies_from(actions[k], source));
    }
}

/// Whether the path has the extension.
fn has_extension(path: &str, wanted: &str) -> (has: bool)
    ensures
        has == (path_extension(path@) == Some(wanted@)),
{
    match crate::paths::extension(path) {
        Some(ext) => same_text(ext.as_str(), wanted),
        None => false,
    }
}

/// Whether the last component of the path is the name.
fn is_named(path: &str, wanted: &str) -> (named: bool)
    ensures
        named == (path_file_name(path@) == Some(wanted@)),
{
    match crate::paths::file_name(path) {
        Some(name) => same_text(name.as_str(), wanted),
        None => false,
    }
}

/// Whether a file at the path is copied to the servers.
pub fn is_mirrored_file(path: &str) -> (mirrored: bool)
    ensures
        mirrored == is_server_file(path@),
{
    if has_extension(path, "acd") || has_extension(path, "ini") {
        return true;
    }
    match crate::paths::parent(path) {
        Some(dir) => is_named(dir.as_str(), "data"),
        None => false,
    }
}

/// What is to be done for one entry of the assembled tree in one server
/// root.
pub fn sync_action(entry: &FsEntry, assembled_root: &str, target_root: &str) -> (action:
    SyncAction)
    ensures
        action@ == sync_action_for(entry@, assembled_root@, target_root@),
{
    let relative = match crate::paths::strip_prefix(entry.path.as_str(), assembled_root) {
        Some(relative) => relative,
        None => {
            return SyncAction::Skip;
        },
    };
    if entry.is_file {
        if is_mirrored_file(entry.path.as_str()) {
            SyncAction::CopyFile {
                source: entry.path.clone(),
                target: crate::paths::join(target_root, relative.as_str()),
            }
        } else {
            SyncAction::Skip
        }
    } else if is_named(entry.path.as_str(), "skins") {
        SyncAction::CreateDir { target: crate::paths::join(target_root, relative.as_str()) }
    } else {
        SyncAction::Skip
    }
}

/// What is to be done in one server root for a snapshot of the assembled
/// tree: the copies and the directories, in the order of the snapshot.
pub fn sync_actions(entries: &Vec<FsEntry>, assembled_root: &str, target_root: &str) -> (actions:
    Vec<SyncAction>)
    ensures
        actions.deep_view() == sync_actions_for(
            entries.deep_view(),
            assembled_root@,
            target_root@,
        ),
{
    let ghost snapshot = entries.deep_view();
    let ghost all = snapshot.map_values(
        |e: FsEntryView| sync_action_for(e, assembled_root@, target_root@),
    );
    let ghost keep = |a: SyncActionView| a != SyncActionView::Skip;
    let mut actions: Vec<SyncAction> = Vec::new();
    let mut i: usize = 0;
    proof {
        reveal(Seq::filter);
        assert(all.take(0) =~= Seq::<SyncActionView>::empty());
    }
    while i < entries.len()
        invariant
            i <= entries.len(),
            snapshot == entries.deep_view(),
            all == snapshot.map_values(
                |e: FsEntryView| sync_action_for(e, assembled_root@, target_root@),
            ),
            keep == |a: SyncActionView| a != SyncActionView::Skip,
            actions.deep_view() == all.take(i as int).filter(keep),
        decreases entries.len() - i,
    {
        let ghost before = actions.deep_view();
        let action = sync_action(&entries[i], assembled_root, target_root);
        proof {
            crate::common::lemma_filter_take_step(all, keep, i as int);
            assert(all[i as int] == action@);
        }
        match action {
            SyncAction::Skip => {},
            _ => {
                actions.push(action);
                assert(actions.deep_view() =~= before.push(all[i as int]));
            },
        }
        i += 1;
    }
    assert(all.take(i as int) =~= all);
    actions
}

/// What is to be done in each of the server roots, root by root: the plans
/// do not depend on each other.
pub fn plan_sync(entries: &Vec<FsEntry>, assembled_root: &str, target_roots: &Vec<String>) -> (plans:
    Vec<Vec<SyncAction>>)
    ensures
        plans.len() == target_roots.len(),
        forall|r: int|
            0 <= r < plans.len() ==> (#[trigger] plans[r]).deep_view() == sync_actions_for(
                entries.deep_view(),
                assembled_root@,
                target_roots[r]@,
            ),
{
    let mut plans: Vec<Vec<SyncAction>> = Vec::new();
    let mut r: usize = 0;
    while r < target_roots.len()
        invariant
            r <= target_roots.len(),
            plans.len() == r,
            forall|k: int|
                0 <= k < r ==> (#[trigger] plans[k]).deep_view() == sync_actions_for(
                    entries.deep_view(),
                    assembled_root@,
                    target_roots[k]@,
                ),
        decreases target_roots.len() - r,
    {
        plans.push(sync_actions(entries, assembled_root, target_roots[r].as_str()));
        r += 1;
    }
    plans
}

} // verus!
