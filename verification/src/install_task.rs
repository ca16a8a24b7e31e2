//! Recognising what a directory snapshot holds and planning where each part
//! of it is to be installed.

use crate::common::{
    lemma_filter_nothing, lemma_filter_take_step, lemma_filter_two, option_view, same_text,
    FsEntry, FsEntryView,
};
use crate::paths::{path_equal, path_file_name, path_join, path_parent, SEPARATOR};
use crate::text_order::{
    insert_ascending, lemma_ascending_unique, lemma_text_before_irreflexive,
    lemma_text_before_total, precedes, strictly_ascending, text_before, text_views,
};
use crate::wildcard::{
    is_literal, literal_prefix_is_taken_as_it_stands, star_then_literal_matches_endings,
    wildcard_matches,
};
use std::cmp::Ordering;
use vstd::prelude::*;
use vstd::string::*;

verus! {

/// What a directory is recognised as, from the files it holds.
#[derive(Debug, Clone, Copy, PartialEq, Eq, Structural)]
pub enum ContentType {
    Car,
    Track,
    Unknown,
}

/// The pattern that a path below `dir` must match to count as `marker`.
pub open spec fn marker_pattern(dir: Seq<char>, marker: Seq<char>) -> Seq<char> {
    dir + seq![SEPARATOR] + marker
}

/// The markers as sequences of characters.
pub open spec fn marker_views(markers: Seq<&str>) -> Seq<Seq<char>> {
    markers.map_values(|m: &str| m@)
}

/// Whether some path of the snapshot matches one of the markers directly
/// below `dir`.
pub open spec fn dir_holds(
    entries: Seq<FsEntryView>,
    dir: Seq<char>,
    markers: Seq<Seq<char>>,
) -> bool {
    exists|i: int, j: int|
        0 <= i < entries.len() && 0 <= j < markers.len() && #[trigger] wildcard_matches(
            marker_pattern(dir, markers[j]),
            entries[i].path,
        )
}

/// The files that tell a car.
pub open spec fn car_markers() -> Seq<Seq<char>> {
    seq!["animations*"@, "collider.kn5"@, "driver_base_pos.knh"@]
}

/// The files that tell a track.
pub open spec fn track_markers() -> Seq<Seq<char>> {
    seq!["ai"@, "layout_*"@, "models*.ini"@]
}

/// What `dir` is, by the snapshot: a car where a car marker lies below it,
/// else a track where a track marker does, else unknown.
pub open spec fn classify(entries: Seq<FsEntryView>, dir: Seq<char>) -> ContentType {
    if dir_holds(entries, dir, car_markers()) {
        ContentType::Car
    } else if dir_holds(entries, dir, track_markers()) {
        ContentType::Track
    } else {
        ContentType::Unknown
    }
}

/// A directory with markers of both kinds is a car.
pub proof fn car_takes_precedence(entries: Seq<FsEntryView>, dir: Seq<char>)
    requires
        dir_holds(entries, dir, car_markers()),
        dir_holds(entries, dir, track_markers()),
    ensures
        classify(entries, dir) == ContentType::Car,
{
}

/// Whether some entry's path matches `dir`, a separator and one of `entries`
/// (patterns, in which `*` and `?` are wildcards).
pub fn dir_contains(entry_list: &Vec<FsEntry>, dir: &str, entries: &Vec<&str>) -> (found: bool)
    ensures
        found == dir_holds(entry_list.deep_view(), dir@, marker_views(entries@)),
{
    let ghost snapshot = entry_list.deep_view();
    let ghost markers = marker_views(entries@);
    let mut j: usize = 0;
    while j < entries.len()
        invariant
            j <= entries.len(),
            snapshot == entry_list.deep_view(),
            markers == marker_views(entries@),
            forall|i: int, k: int|
                0 <= i < snapshot.len() && 0 <= k < j ==> !#[trigger] wildcard_matches(
                    marker_pattern(dir@, markers[k]),
                    snapshot[i].path,
                ),
        decreases entries.len() - j,
    {
        let mut pattern = String::from_str(dir);
        pattern.append("/");
        pattern.append(entries[j]);
        proof {
            reveal_strlit("/");
            assert("/"@ =~= seq![SEPARATOR]);
            assert(pattern@ == marker_pattern(dir@, markers[j as int]));
        }
        let mut i: usize = 0;
        while i < entry_list.len()
            invariant
                i <= entry_list.len(),
                j < entries.len(),
                snapshot == entry_list.deep_view(),
                markers == marker_views(entries@),
                pattern@ == marker_pattern(dir@, markers[j as int]),
                forall|n: int|
                    0 <= n < i ==> !#[trigger] wildcard_matches(pattern@, snapshot[n].path),
            decreases entry_list.len() - i,
        {
            if crate::wildcard::matches(pattern.as_str(), entry_list[i].path.as_str()) {
                assert(wildcard_matches(
                    marker_pattern(dir@, markers[j as int]),
                    snapshot[i as int].path,
                ));
                return true;
            }
            i += 1;
        }
        j += 1;
    }
    false
}

/// What the directory `dir` holds, judged by the snapshot: a car, a track, or
/// nothing that is recognised.
pub fn determine_content_type(entry_list: &Vec<FsEntry>, dir: &str) -> (kind: ContentType)
    ensures
        kind == classify(entry_list.deep_view(), dir@),
{
    let car = vec!["animations*", "collider.kn5", "driver_base_pos.knh"];
    assert(marker_views(car@) =~= car_markers());
    if dir_contains(entry_list, dir, &car) {
        return ContentType::Car;
    }
    let track = vec!["ai", "layout_*", "models*.ini"];
    assert(marker_views(track@) =~= track_markers());
    if dir_contains(entry_list, dir, &track) {
        ContentType::Track
    } else {
        ContentType::Unknown
    }
}

/// A directory that holds a model file, with what it was recognised as.
#[derive(Debug, PartialEq, Eq)]
pub struct Mod {
    pub mod_type: ContentType,
    pub path: String,
}

/// What a [`Mod`] stands for in contracts.
pub struct ModView {
    pub mod_type: ContentType,
    pub path: Seq<char>,
}

impl View for Mod {
    type V = ModView;

    open spec fn view(&self) -> ModView {
        ModView { mod_type: self.mod_type, path: self.path@ }
    }
}

impl DeepView for Mod {
    type V = ModView;

    open spec fn deep_view(&self) -> ModView {
        self@
    }
}

/// Whether the entry is a model file: a file whose name matches `*.kn5`.
pub open spec fn is_model_file(entry: FsEntryView) -> bool {
    entry.is_file && match path_file_name(entry.path) {
        Some(name) => wildcard_matches("*.kn5"@, name),
        None => false,
    }
}

/// A model file is a file whose name ends in `.kn5`.
pub proof fn model_files_end_in_kn5(entry: FsEntryView)
    ensures
        is_model_file(entry) <==> (entry.is_file && match path_file_name(entry.path) {
            Some(name) => name.len() >= 4 && name.skip(name.len() - 4) == ".kn5"@,
            None => false,
        }),
{
    reveal_strlit("*.kn5");
    reveal_strlit(".kn5");
    assert("*.kn5"@ =~= seq!['*'] + ".kn5"@);
    if let Some(name) = path_file_name(entry.path) {
        star_then_literal_matches_endings(".kn5"@, name);
    }
}

/// Below a directory whose path holds no wildcard, a marker is matched by
/// the paths that start with the directory and a separator and whose rest
/// matches the marker.
pub proof fn markers_are_anchored_at_the_directory(
    dir: Seq<char>,
    marker: Seq<char>,
    path: Seq<char>,
)
    requires
        is_literal(dir),
    ensures
        wildcard_matches(marker_pattern(dir, marker), path) <==> (path.len() > dir.len()
            && path.take(dir.len() as int) == dir && path[dir.len() as int] == SEPARATOR
            && wildcard_matches(marker, path.skip(dir.len() as int + 1))),
{
    let anchor = dir + seq![SEPARATOR];
    assert(is_literal(anchor));
    assert(marker_pattern(dir, marker) =~= anchor + marker);
    literal_prefix_is_taken_as_it_stands(anchor, marker, path);
    if path.len() > dir.len() {
        if path.take(anchor.len() as int) == anchor {
            assert(path.take(dir.len() as int) =~= anchor.take(dir.len() as int));
            assert(anchor.take(dir.len() as int) =~= dir);
            assert(path[dir.len() as int] == path.take(anchor.len() as int)[dir.len() as int]);
        }
        if path.take(dir.len() as int) == dir && path[dir.len() as int] == SEPARATOR {
            assert(path.take(anchor.len() as int) =~= path.take(dir.len() as int) + seq![
                path[dir.len() as int],
            ]);
        }
    }
}

/// Whether a model file of the snapshot lies directly in `dir`.
pub open spec fn is_mod_dir(entries: Seq<FsEntryView>, dir: Seq<char>) -> bool {
    exists|i: int|
        0 <= i < entries.len() && is_model_file(#[trigger] entries[i]) && path_parent(
            entries[i].path,
        ) == Some(dir)
}

/// The directories of the mods, in their order.
pub open spec fn mod_paths(mods: Seq<ModView>) -> Seq<Seq<char>> {
    mods.map_values(|m: ModView| m.path)
}

/// Whether `mods` lists the mods of the snapshot: one for each directory that
/// holds a model file and for no other, sorted by directory, each with the
/// kind its directory is classified as.
pub open spec fn is_mod_listing(entries: Seq<FsEntryView>, mods: Seq<ModView>) -> bool {
    &&& strictly_ascending(mod_paths(mods))
    &&& forall|dir: Seq<char>| #[trigger] mod_paths(mods).contains(dir) <==> is_mod_dir(entries, dir)
    &&& forall|k: int|
        0 <= k < mods.len() ==> (#[trigger] mods[k]).mod_type == classify(entries, mods[k].path)
}

/// The directory that holds the entry.
pub fn get_directory_name_from_entry(entry: &FsEntry) -> (dir: String)
    requires
        path_parent(entry.path@) is Some,
    ensures
        Some(dir@) == path_parent(entry.path@),
{
    crate::paths::parent(entry.path.as_str()).unwrap()
}

/// The directory that holds the entry, if its path has one.
pub fn containing_directory(entry: &FsEntry) -> (dir: Option<String>)
    ensures
        option_view(dir) == path_parent(entry.path@),
{
    if crate::paths::parent(entry.path.as_str()).is_some() {
        Some(get_directory_name_from_entry(entry))
    } else {
        None
    }
}

/// Whether the entry is a model file.
pub fn is_model(entry: &FsEntry) -> (model: bool)
    ensures
        model == is_model_file(entry@),
{
    if !entry.is_file {
        return false;
    }
    match crate::paths::file_name(entry.path.as_str()) {
        Some(name) => crate::wildcard::matches("*.kn5", name.as_str()),
        None => false,
    }
}

/// The mods of the snapshot: every directory that holds a model file, once,
/// with its kind, sorted by directory.
pub fn find_mods(entry_list: &Vec<FsEntry>) -> (mods: Vec<Mod>)
    ensures
        is_mod_listing(entry_list.deep_view(), mods.deep_view()),
{
    let ghost snapshot = entry_list.deep_view();
    let mut mod_dirs: Vec<String> = Vec::new();
    let mut i: usize = 0;
    while i < entry_list.len()
        invariant
            i <= entry_list.len(),
            snapshot == entry_list.deep_view(),
            strictly_ascending(text_views(mod_dirs@)),
            forall|dir: Seq<char>|
                text_views(mod_dirs@).contains(dir) <==> is_mod_dir(snapshot.take(i as int), dir),
        decreases entry_list.len() - i,
    {
        let ghost mut added: Option<Seq<char>> = None;
        if is_model(&entry_list[i]) {
            match containing_directory(&entry_list[i]) {
                Some(dir) => {
                    proof {
                        added = Some(dir@);
                    }
                    insert_ascending(&mut mod_dirs, dir);
                },
                None => {},
            }
        }
        proof {
            let now = snapshot.take(i + 1);
            let then = snapshot.take(i as int);
            assert forall|dir: Seq<char>|
                text_views(mod_dirs@).contains(dir) <==> is_mod_dir(now, dir) by {
                if is_mod_dir(then, dir) {
                    let n = choose|n: int|
                        0 <= n < then.len() && is_model_file(#[trigger] then[n]) && path_parent(
                            then[n].path,
                        ) == Some(dir);
                    assert(now[n] == then[n]);
                }
                if added == Some(dir) {
                    assert(now[i as int] == snapshot[i as int]);
                }
                if is_mod_dir(now, dir) {
                    let n = choose|n: int|
                        0 <= n < now.len() && is_model_file(#[trigger] now[n]) && path_parent(
                            now[n].path,
                        ) == Some(dir);
                    if n < i {
                        assert(then[n] == now[n]);
                    }
                }
            }
        }
        i += 1;
    }
    assert(snapshot.take(i as int) =~= snapshot);
    let mut mods: Vec<Mod> = Vec::new();
    let mut k: usize = 0;
    while k < mod_dirs.len()
        invariant
            k <= mod_dirs.len(),
            mods.len() == k,
            snapshot == entry_list.deep_view(),
            forall|n: int|
                0 <= n < k ==> (#[trigger] mods[n]).path@ == mod_dirs[n]@ && mods[n].mod_type
                    == classify(snapshot, mod_dirs[n]@),
        decreases mod_dirs.len() - k,
    {
        let kind = determine_content_type(entry_list, mod_dirs[k].as_str());
        mods.push(Mod { mod_type: kind, path: mod_dirs[k].clone() });
        k += 1;
    }
    assert(mod_paths(mods.deep_view()) =~= text_views(mod_dirs@));
    mods
}

/// One step of an install: everything below `source_path` goes to
/// `target_path` below the root of the assembled tree.
#[derive(Debug, Eq, Ord)]
pub struct InstallTask {
    pub source_path: String,
    pub target_path: String,
}

/// What an [`InstallTask`] stands for in contracts.
pub struct InstallTaskView {
    pub source_path: Seq<char>,
    pub target_path: Seq<char>,
}

impl View for InstallTask {
    type V = InstallTaskView;

    open spec fn view(&self) -> InstallTaskView {
        InstallTaskView { source_path: self.source_path@, target_path: self.target_path@ }
    }
}

impl DeepView for InstallTask {
    type V = InstallTaskView;

    open spec fn deep_view(&self) -> InstallTaskView {
        self@
    }
}

impl InstallTask {
    /// Where the task's source goes in the tree assembled below `root`.
    pub fn destination(&self, root: &str) -> (place: String)
        ensures
            place@ == path_join(root@, self.target_path@),
    {
        crate::paths::join(root, self.target_path.as_str())
    }
}

impl PartialEq for InstallTask {
    /// Two tasks are equal where source and target are.
    fn eq(&self, other: &Self) -> (same: bool) {
        self.source_path == other.source_path && self.target_path == other.target_path
    }
}

impl vstd::std_specs::cmp::PartialEqSpecImpl for InstallTask {
    open spec fn obeys_eq_spec() -> bool {
        true
    }

    open spec fn eq_spec(&self, other: &Self) -> bool {
        self.source_path@ == other.source_path@ && self.target_path@ == other.target_path@
    }
}

impl PartialOrd for InstallTask {
    /// Tasks are ordered by source, and by target where the sources are the
    /// same.
    fn partial_cmp(&self, other: &Self) -> (order: Option<Ordering>) {
        if precedes(self.source_path.as_str(), other.source_path.as_str()) {
            Some(Ordering::Less)
        } else if precedes(other.source_path.as_str(), self.source_path.as_str()) {
            Some(Ordering::Greater)
        } else if precedes(self.target_path.as_str(), other.target_path.as_str()) {
            Some(Ordering::Less)
        } else if precedes(other.target_path.as_str(), self.target_path.as_str()) {
            Some(Ordering::Greater)
        } else {
            Some(Ordering::Equal)
        }
    }
}

impl vstd::std_specs::cmp::PartialOrdSpecImpl for InstallTask {
    open spec fn obeys_partial_cmp_spec() -> bool {
        true
    }

    open spec fn partial_cmp_spec(&self, other: &Self) -> Option<Ordering> {
        if text_before(self.source_path@, other.source_path@) {
            Some(Ordering::Less)
        } else if text_before(other.source_path@, self.source_path@) {
            Some(Ordering::Greater)
        } else if text_before(self.target_path@, other.target_path@) {
            Some(Ordering::Less)
        } else if text_before(other.target_path@, self.target_path@) {
            Some(Ordering::Greater)
        } else {
            Some(Ordering::Equal)
        }
    }
}

/// Why a snapshot cannot be planned.
#[derive(Debug, Clone, Copy, PartialEq, Eq, Structural)]
pub enum PlanError {
    /// The snapshot holds more than one `content` directory, or more than one
    /// `extension` root.
    AmbiguousPackage,
}

impl PlanError {
    /// The error in words.
    pub fn message(&self) -> (text: String)
        ensures
            text@ == "Multiple content or extension dirs found"@,
    {
        String::from_str("Multiple content or extension dirs found")
    }
}

/// Whether the entry is a directory named `content`.
pub open spec fn is_content_dir(entry: FsEntryView) -> bool {
    !entry.is_file && path_file_name(entry.path) == Some("content"@)
}

/// Whether the entry is a directory named `extension` that is itself not
/// recognised as a car or a track.
pub open spec fn is_extension_root(entries: Seq<FsEntryView>, entry: FsEntryView) -> bool {
    !entry.is_file && path_file_name(entry.path) == Some("extension"@) && classify(
        entries,
        entry.path,
    ) == ContentType::Unknown
}

/// The `content` directories among `part`, in their order.
pub open spec fn content_dirs_among(part: Seq<FsEntryView>) -> Seq<FsEntryView> {
    part.filter(|e: FsEntryView| is_content_dir(e))
}

/// The `extension` roots among `part`, in their order, judged by the whole
/// snapshot `entries`.
pub open spec fn extension_roots_among(
    entries: Seq<FsEntryView>,
    part: Seq<FsEntryView>,
) -> Seq<FsEntryView> {
    part.filter(|e: FsEntryView| is_extension_root(entries, e))
}

/// The `content` directories of the snapshot.
pub open spec fn content_dirs(entries: Seq<FsEntryView>) -> Seq<FsEntryView> {
    content_dirs_among(entries)
}

/// The `extension` roots of the snapshot.
pub open spec fn extension_roots(entries: Seq<FsEntryView>) -> Seq<FsEntryView> {
    extension_roots_among(entries, entries)
}

/// Whether the snapshot declares more than one organised root of a kind.
pub open spec fn is_ambiguous(entries: Seq<FsEntryView>) -> bool {
    content_dirs(entries).len() > 1 || extension_roots(entries).len() > 1
}

/// Whether the two paths have a parent each, and the two parents are equal
/// as paths.
pub open spec fn are_siblings(left: Seq<char>, right: Seq<char>) -> bool {
    match (path_parent(left), path_parent(right)) {
        (Some(l), Some(r)) => path_equal(l, r),
        _ => false,
    }
}

/// The task that installs an organised root as it stands.
pub open spec fn verbatim_task(source: Seq<char>) -> InstallTaskView {
    InstallTaskView { source_path: source, target_path: ""@ }
}

/// The plan for a snapshot with exactly one `content` directory: that
/// directory, and behind it the one `extension` root if it lies beside it.
pub open spec fn organized_tasks(entries: Seq<FsEntryView>) -> Seq<InstallTaskView>
    recommends
        content_dirs(entries).len() == 1,
        extension_roots(entries).len() <= 1,
{
    let content = content_dirs(entries)[0].path;
    if extension_roots(entries).len() == 1 && are_siblings(
        content,
        extension_roots(entries)[0].path,
    ) {
        seq![verbatim_task(content), verbatim_task(extension_roots(entries)[0].path)]
    } else {
        seq![verbatim_task(content)]
    }
}

/// Where a mod of the kind is installed, if the kind is recognised.
pub open spec fn target_of(kind: ContentType) -> Option<Seq<char>> {
    match kind {
        ContentType::Car => Some("content/cars"@),
        ContentType::Track => Some("content/tracks"@),
        ContentType::Unknown => None,
    }
}

/// Whether `task` installs a recognised mod of the snapshot at the place of
/// its kind.
pub open spec fn is_mod_task(entries: Seq<FsEntryView>, task: InstallTaskView) -> bool {
    is_mod_dir(entries, task.source_path) && target_of(classify(entries, task.source_path))
        == Some(task.target_path)
}

/// The sources of the tasks, in their order.
pub open spec fn task_sources(tasks: Seq<InstallTaskView>) -> Seq<Seq<char>> {
    tasks.map_values(|t: InstallTaskView| t.source_path)
}

/// Whether `tasks` is the plan found from the mods of the snapshot: one task
/// for each recognised mod and no other, sorted by source.
pub open spec fn is_heuristic_plan(entries: Seq<FsEntryView>, tasks: Seq<InstallTaskView>) -> bool {
    &&& strictly_ascending(task_sources(tasks))
    &&& forall|task: InstallTaskView| #[trigger] tasks.contains(task) <==> is_mod_task(entries, task)
}

/// Whether `outcome` is what planning the snapshot yields: the error where
/// the snapshot is ambiguous; else the organised plan where there is one
/// `content` directory; else the plan found from the mods.
pub open spec fn is_plan(
    entries: Seq<FsEntryView>,
    outcome: Result<Seq<InstallTaskView>, PlanError>,
) -> bool {
    if is_ambiguous(entries) {
        outcome == Err::<Seq<InstallTaskView>, PlanError>(PlanError::AmbiguousPackage)
    } else {
        match outcome {
            Ok(tasks) => if content_dirs(entries).len() == 1 {
                tasks == organized_tasks(entries)
            } else {
                is_heuristic_plan(entries, tasks)
            },
            Err(_) => false,
        }
    }
}

/// The outcome of planning as contracts see it.
pub open spec fn outcome_view(outcome: Result<Vec<InstallTask>, PlanError>) -> Result<
    Seq<InstallTaskView>,
    PlanError,
> {
    match outcome {
        Ok(tasks) => Ok(tasks.deep_view()),
        Err(error) => Err(error),
    }
}

/// Whether the directory entry named `extension` is itself a car or a track,
/// and so no root of an organised tree.
pub fn extension_dir_is_mod_dir(entry_list: &Vec<FsEntry>, entry: &FsEntry) -> (is_mod: bool)
    ensures
        is_mod == (classify(entry_list.deep_view(), entry.path@) != ContentType::Unknown),
{
    determine_content_type(entry_list, entry.path.as_str()) != ContentType::Unknown
}

/// Whether the entry is a directory with the given name.
fn is_dir_named(entry: &FsEntry, name: &str) -> (named: bool)
    ensures
        named == (!entry.is_file && path_file_name(entry.path@) == Some(name@)),
{
    if entry.is_file {
        return false;
    }
    match crate::paths::file_name(entry.path.as_str()) {
        Some(last) => same_text(last.as_str(), name),
        None => false,
    }
}

/// How many `content` directories the snapshot holds, and the place of the
/// first one.
fn scan_content_dirs(entry_list: &Vec<FsEntry>) -> (found: (usize, usize))
    ensures
        found.0 == content_dirs(entry_list.deep_view()).len(),
        found.0 > 0 ==> found.1 < entry_list.len() && content_dirs(entry_list.deep_view())[0]
            == entry_list.deep_view()[found.1 as int],
{
    let ghost snapshot = entry_list.deep_view();
    let mut count: usize = 0;
    let mut first: usize = 0;
    let mut i: usize = 0;
    proof {
        reveal(Seq::filter);
        assert(snapshot.take(0) =~= Seq::<FsEntryView>::empty());
    }
    while i < entry_list.len()
        invariant
            i <= entry_list.len(),
            snapshot == entry_list.deep_view(),
            count == content_dirs_among(snapshot.take(i as int)).len(),
            count <= i,
            count > 0 ==> first < i && content_dirs_among(snapshot.take(i as int))[0]
                == snapshot[first as int],
        decreases entry_list.len() - i,
    {
        proof {
            lemma_filter_take_step(snapshot, |e: FsEntryView| is_content_dir(e), i as int);
        }
        if is_dir_named(&entry_list[i], "content") {
            if count == 0 {
                first = i;
            }
            count += 1;
        }
        i += 1;
    }
    assert(snapshot.take(i as int) =~= snapshot);
    (count, first)
}

/// How many `extension` roots the snapshot holds, and the place of the first
/// one.
fn scan_extension_roots(entry_list: &Vec<FsEntry>) -> (found: (usize, usize))
    ensures
        found.0 == extension_roots(entry_list.deep_view()).len(),
        found.0 > 0 ==> found.1 < entry_list.len() && extension_roots(entry_list.deep_view())[0]
            == entry_list.deep_view()[found.1 as int],
{
    let ghost snapshot = entry_list.deep_view();
    let mut count: usize = 0;
    let mut first: usize = 0;
    let mut i: usize = 0;
    proof {
        reveal(Seq::filter);
        assert(snapshot.take(0) =~= Seq::<FsEntryView>::empty());
    }
    while i < entry_list.len()
        invariant
            i <= entry_list.len(),
            snapshot == entry_list.deep_view(),
            count == extension_roots_among(snapshot, snapshot.take(i as int)).len(),
            count <= i,
            count > 0 ==> first < i && extension_roots_among(snapshot, snapshot.take(i as int))[0]
                == snapshot[first as int],
        decreases entry_list.len() - i,
    {
        proof {
            lemma_filter_take_step(
                snapshot,
                |e: FsEntryView| is_extension_root(snapshot, e),
                i as int,
            );
        }
        if is_dir_named(&entry_list[i], "extension") && !extension_dir_is_mod_dir(
            entry_list,
            &entry_list[i],
        ) {
            if count == 0 {
                first = i;
            }
            count += 1;
        }
        i += 1;
    }
    assert(snapshot.take(i as int) =~= snapshot);
    (count, first)
}

/// Whether the two paths lie in one directory.
fn siblings(left: &str, right: &str) -> (same: bool)
    ensures
        same == are_siblings(left@, right@),
{
    match (crate::paths::parent(left), crate::paths::parent(right)) {
        (Some(l), Some(r)) => crate::paths::equal(l.as_str(), r.as_str()),
        _ => false,
    }
}

/// Whether one of the first `k` mods lies at `source`.
spec fn listed_before(listing: Seq<ModView>, k: int, source: Seq<char>) -> bool {
    exists|m: int| 0 <= m < k && m < listing.len() && (#[trigger] listing[m]).path == source
}

/// The tasks for the recognised mods of the snapshot, sorted by source.
fn plan_from_mods(entry_list: &Vec<FsEntry>) -> (tasks: Vec<InstallTask>)
    ensures
        is_heuristic_plan(entry_list.deep_view(), tasks.deep_view()),
{
    let ghost snapshot = entry_list.deep_view();
    let mods = find_mods(entry_list);
    let ghost listing = mods.deep_view();
    let mut tasks: Vec<InstallTask> = Vec::new();
    let mut k: usize = 0;
    while k < mods.len()
        invariant
            k <= mods.len(),
            listing == mods.deep_view(),
            is_mod_listing(snapshot, listing),
            strictly_ascending(task_sources(tasks.deep_view())),
            forall|task: InstallTaskView|
                #[trigger] tasks.deep_view().contains(task) <==> (is_mod_task(snapshot, task)
                    && listed_before(listing, k as int, task.source_path)),
        decreases mods.len() - k,
    {
        let ghost before = tasks.deep_view();
        let target = match mods[k].mod_type {
            ContentType::Car => Some(String::from_str("content/cars")),
            ContentType::Track => Some(String::from_str("content/tracks")),
            ContentType::Unknown => None,
        };
        if let Some(target_path) = target {
            tasks.push(InstallTask { source_path: mods[k].path.clone(), target_path });
        }
        proof {
            let after = tasks.deep_view();
            let here = listing[k as int];
            assert(mod_paths(listing)[k as int] == here.path);
            assert(mod_paths(listing).contains(here.path));
            assert(is_mod_dir(snapshot, here.path));
            assert(listed_before(listing, k + 1, here.path));
            if after.len() > before.len() {
                let added = after[after.len() - 1];
                assert(after =~= before.push(added));
                assert(is_mod_task(snapshot, added));
                assert(task_sources(after) =~= task_sources(before).push(added.source_path));
                assert forall|a: int, b: int| 0 <= a < b < after.len() implies text_before(
                    task_sources(after)[a],
                    task_sources(after)[b],
                ) by {
                    if b == before.len() {
                        assert(before.contains(before[a]));
                        let m = choose|m: int|
                            0 <= m < k && m < listing.len() && (#[trigger] listing[m]).path
                                == before[a].source_path;
                        assert(text_before(mod_paths(listing)[m], mod_paths(listing)[k as int]));
                    } else {
                        assert(text_before(task_sources(before)[a], task_sources(before)[b]));
                    }
                }
            } else {
                assert(after =~= before);
            }
            assert forall|task: InstallTaskView| #[trigger]
                after.contains(task) <==> (is_mod_task(snapshot, task) && listed_before(
                    listing,
                    k + 1,
                    task.source_path,
                )) by {
                if after.contains(task) {
                    if before.contains(task) {
                        let m = choose|m: int|
                            0 <= m < k && m < listing.len() && (#[trigger] listing[m]).path
                                == task.source_path;
                        assert(listed_before(listing, k + 1, task.source_path));
                    } else {
                        let n = choose|n: int| 0 <= n < after.len() && after[n] == task;
                        if n < before.len() {
                            assert(before[n] == task);
                        }
                        assert(task == after[after.len() - 1]);
                    }
                }
                if is_mod_task(snapshot, task) && listed_before(listing, k + 1, task.source_path) {
                    let m = choose|m: int|
                        0 <= m < k + 1 && m < listing.len() && (#[trigger] listing[m]).path
                            == task.source_path;
                    if m < k {
                        assert(listed_before(listing, k as int, task.source_path));
                        assert(before.contains(task));
                        let n = choose|n: int| 0 <= n < before.len() && before[n] == task;
                        assert(after[n] == task);
                    } else {
                        assert(after.len() > before.len());
                        assert(after[after.len() - 1] == task);
                    }
                }
            }
        }
        k += 1;
    }
    proof {
        let done = tasks.deep_view();
        assert forall|task: InstallTaskView| #[trigger]
            done.contains(task) <==> is_mod_task(snapshot, task) by {
            if is_mod_task(snapshot, task) {
                assert(mod_paths(listing).contains(task.source_path));
                let m = choose|m: int|
                    0 <= m < mod_paths(listing).len() && mod_paths(listing)[m] == task.source_path;
                assert(listing[m].path == task.source_path);
                assert(listed_before(listing, k as int, task.source_path));
            }
        }
    }
    tasks
}

/// Plans the install of a snapshot. More than one `content` directory or
/// more than one `extension` root is an error. One `content` directory is
/// installed as it stands, and with it the `extension` root beside it. Else
/// every recognised mod goes to the place of its kind, sorted by source.
pub fn determine_install_tasks(entry_list: &Vec<FsEntry>) -> (outcome: Result<
    Vec<InstallTask>,
    PlanError,
>)
    ensures
        is_plan(entry_list.deep_view(), outcome_view(outcome)),
{
    let ghost snapshot = entry_list.deep_view();
    let (content_dir_count, content_at) = scan_content_dirs(entry_list);
    let (extension_dir_count, extension_at) = scan_extension_roots(entry_list);
    if content_dir_count > 1 || extension_dir_count > 1 {
        return Err(PlanError::AmbiguousPackage);
    }
    if content_dir_count == 1 {
        let mut ret: Vec<InstallTask> = Vec::new();
        ret.push(
            InstallTask {
                source_path: entry_list[content_at].path.clone(),
                target_path: String::from_str(""),
            },
        );
        if extension_dir_count == 1 {
            if siblings(
                entry_list[content_at].path.as_str(),
                entry_list[extension_at].path.as_str(),
            ) {
                ret.push(
                    InstallTask {
                        source_path: entry_list[extension_at].path.clone(),
                        target_path: String::from_str(""),
                    },
                );
            }
        }
        assert(ret.deep_view() =~= organized_tasks(snapshot));
        return Ok(ret);
    }
    Ok(plan_from_mods(entry_list))
}

/// Whether the plan found from the mods leaves the directory out: it holds
/// a model file, it is recognised as neither car nor track, and the snapshot
/// is planned from its mods.
pub open spec fn is_dropped_mod(entries: Seq<FsEntryView>, dir: Seq<char>) -> bool {
    &&& !is_ambiguous(entries)
    &&& content_dirs(entries).len() != 1
    &&& is_mod_dir(entries, dir)
    &&& classify(entries, dir) == ContentType::Unknown
}

/// The directories that hold a model file and that the plan leaves out
/// because they are not recognised, sorted: what there is to tell the one
/// who sent the package. Nothing is left out of a plan that installs a
/// `content` directory as it stands, nor where there is no plan.
pub fn unrecognized_mods(entry_list: &Vec<FsEntry>) -> (dropped: Vec<String>)
    ensures
        strictly_ascending(text_views(dropped@)),
        forall|dir: Seq<char>|
            #[trigger] text_views(dropped@).contains(dir) <==> is_dropped_mod(
                entry_list.deep_view(),
                dir,
            ),
{
    let ghost snapshot = entry_list.deep_view();
    let mut dropped: Vec<String> = Vec::new();
    let (content_dir_count, _) = scan_content_dirs(entry_list);
    let (extension_dir_count, _) = scan_extension_roots(entry_list);
    if content_dir_count >= 1 || extension_dir_count > 1 {
        assert forall|dir: Seq<char>| !#[trigger] text_views(dropped@).contains(dir) by {
            assert(text_views(dropped@).len() == 0);
        }
        return dropped;
    }
    let mods = find_mods(entry_list);
    let ghost listing = mods.deep_view();
    let mut k: usize = 0;
    while k < mods.len()
        invariant
            k <= mods.len(),
            listing == mods.deep_view(),
            snapshot == entry_list.deep_view(),
            is_mod_listing(snapshot, listing),
            !is_ambiguous(snapshot),
            content_dirs(snapshot).len() != 1,
            strictly_ascending(text_views(dropped@)),
            forall|dir: Seq<char>|
                #[trigger] text_views(dropped@).contains(dir) <==> (is_dropped_mod(snapshot, dir)
                    && listed_before(listing, k as int, dir)),
        decreases mods.len() - k,
    {
        let ghost before = text_views(dropped@);
        let ghost here = listing[k as int];
        proof {
            assert(mod_paths(listing)[k as int] == here.path);
            assert(mod_paths(listing).contains(here.path));
            assert(listed_before(listing, k + 1, here.path));
        }
        if mods[k].mod_type == ContentType::Unknown {
            dropped.push(mods[k].path.clone());
            proof {
                let after = text_views(dropped@);
                assert(after =~= before.push(here.path));
                assert forall|a: int, b: int| 0 <= a < b < after.len() implies text_before(
                    after[a],
                    after[b],
                ) by {
                    if b == before.len() {
                        assert(before.contains(before[a]));
                        let m = choose|m: int|
                            0 <= m < k && m < listing.len() && (#[trigger] listing[m]).path
                                == before[a];
                        assert(text_before(mod_paths(listing)[m], mod_paths(listing)[k as int]));
                    } else {
                        assert(text_before(before[a], before[b]));
                    }
                }
            }
        }
        proof {
            let after = text_views(dropped@);
            assert forall|dir: Seq<char>| #[trigger]
                after.contains(dir) <==> (is_dropped_mod(snapshot, dir) && listed_before(
                    listing,
                    k + 1,
                    dir,
                )) by {
                if after.contains(dir) {
                    if before.contains(dir) {
                        let m = choose|m: int|
                            0 <= m < k && m < listing.len() && (#[trigger] listing[m]).path == dir;
                        assert(listed_before(listing, k + 1, dir));
                    } else {
                        let n = choose|n: int| 0 <= n < after.len() && after[n] == dir;
                        if n < before.len() {
                            assert(before[n] == dir);
                        }
                        assert(dir == here.path);
                    }
                }
                if is_dropped_mod(snapshot, dir) && listed_before(listing, k + 1, dir) {
                    let m = choose|m: int|
                        0 <= m < k + 1 && m < listing.len() && (#[trigger] listing[m]).path == dir;
                    if m < k {
                        assert(listed_before(listing, k as int, dir));
                        assert(before.contains(dir));
                        let n = choose|n: int| 0 <= n < before.len() && before[n] == dir;
                        assert(after[n] == dir);
                    } else {
                        assert(after[after.len() - 1] == dir);
                    }
                }
            }
        }
        k += 1;
    }
    proof {
        let done = text_views(dropped@);
        assert forall|dir: Seq<char>| #[trigger]
            done.contains(dir) <==> is_dropped_mod(snapshot, dir) by {
            if is_dropped_mod(snapshot, dir) {
                assert(mod_paths(listing).contains(dir));
                let m = choose|m: int|
                    0 <= m < mod_paths(listing).len() && mod_paths(listing)[m] == dir;
                assert(listing[m].path == dir);
                assert(listed_before(listing, k as int, dir));
            }
        }
    }
    dropped
}

/// A plan is of one kind: either it installs organised roots as they stand,
/// or it installs recognised mods at the places of their kinds. No plan
/// mixes the two.
pub proof fn plan_is_of_one_kind(entries: Seq<FsEntryView>, tasks: Seq<InstallTaskView>)
    requires
        is_plan(entries, Ok(tasks)),
    ensures
        (forall|k: int| 0 <= k < tasks.len() ==> (#[trigger] tasks[k]).target_path == ""@) || (
        forall|k: int| 0 <= k < tasks.len() ==> is_mod_task(entries, #[trigger] tasks[k])),
{
    if content_dirs(entries).len() != 1 {
        assert forall|k: int| 0 <= k < tasks.len() implies is_mod_task(
            entries,
            #[trigger] tasks[k],
        ) by {
            assert(tasks.contains(tasks[k]));
        }
    }
}

/// Every task of a plan installs something of the snapshot: a directory
/// that is one of its entries, or the directory of one of its model files.
pub proof fn plan_sources_come_from_the_snapshot(
    entries: Seq<FsEntryView>,
    tasks: Seq<InstallTaskView>,
    k: int,
)
    requires
        is_plan(entries, Ok(tasks)),
        0 <= k < tasks.len(),
    ensures
        (exists|i: int|
            0 <= i < entries.len() && !(#[trigger] entries[i]).is_file && entries[i].path
                == tasks[k].source_path) || is_mod_dir(entries, tasks[k].source_path),
{
    if content_dirs(entries).len() == 1 {
        let is_content = |e: FsEntryView| is_content_dir(e);
        let is_root = |e: FsEntryView| is_extension_root(entries, e);
        let root = if k == 0 {
            content_dirs(entries)[0]
        } else {
            extension_roots(entries)[0]
        };
        if k == 0 {
            assert(entries.filter(is_content).contains(root));
            entries.lemma_filter_contains_rev(is_content, root);
            entries.lemma_filter_pred(is_content, 0);
        } else {
            assert(entries.filter(is_root).contains(root));
            entries.lemma_filter_contains_rev(is_root, root);
            entries.lemma_filter_pred(is_root, 0);
        }
        let i = choose|i: int| 0 <= i < entries.len() && entries[i] == root;
        assert(!entries[i].is_file && entries[i].path == tasks[k].source_path);
    } else {
        assert(tasks.contains(tasks[k]));
    }
}

/// A snapshot has one listing of mods: whatever lists its mods is that
/// listing.
pub proof fn mod_listing_is_unique(entries: Seq<FsEntryView>, a: Seq<ModView>, b: Seq<ModView>)
    requires
        is_mod_listing(entries, a),
        is_mod_listing(entries, b),
    ensures
        a == b,
{
    lemma_ascending_unique(mod_paths(a), mod_paths(b));
    assert(a.len() == mod_paths(a).len());
    assert(b.len() == mod_paths(b).len());
    assert forall|k: int| 0 <= k < a.len() implies a[k] == b[k] by {
        assert(mod_paths(a)[k] == a[k].path);
        assert(mod_paths(b)[k] == b[k].path);
    }
    assert(a =~= b);
}

/// However many model files a directory holds, the listing has one mod for
/// it, and only one.
pub proof fn one_mod_per_directory(
    entries: Seq<FsEntryView>,
    mods: Seq<ModView>,
    i: int,
    j: int,
    dir: Seq<char>,
)
    requires
        is_mod_listing(entries, mods),
        0 <= i < entries.len(),
        0 <= j < entries.len(),
        is_model_file(entries[i]),
        is_model_file(entries[j]),
        path_parent(entries[i].path) == Some(dir),
        path_parent(entries[j].path) == Some(dir),
    ensures
        exists|k: int|
            0 <= k < mods.len() && (#[trigger] mods[k]).path == dir && forall|n: int|
                0 <= n < mods.len() && (#[trigger] mods[n]).path == dir ==> n == k,
{
    assert(is_mod_dir(entries, dir));
    assert(mod_paths(mods).contains(dir));
    let k = choose|k: int| 0 <= k < mod_paths(mods).len() && mod_paths(mods)[k] == dir;
    assert(mods[k].path == dir);
    assert forall|n: int| 0 <= n < mods.len() && (#[trigger] mods[n]).path == dir implies n
        == k by {
        lemma_text_before_irreflexive(dir);
        if n < k {
            assert(text_before(mod_paths(mods)[n], mod_paths(mods)[k]));
        } else if k < n {
            assert(text_before(mod_paths(mods)[k], mod_paths(mods)[n]));
        }
    }
}

/// A snapshot has one plan from its mods.
pub proof fn heuristic_plan_is_unique(
    entries: Seq<FsEntryView>,
    a: Seq<InstallTaskView>,
    b: Seq<InstallTaskView>,
)
    requires
        is_heuristic_plan(entries, a),
        is_heuristic_plan(entries, b),
    ensures
        a == b,
{
    let sa = task_sources(a);
    let sb = task_sources(b);
    assert forall|x: Seq<char>| sa.contains(x) <==> sb.contains(x) by {
        if sa.contains(x) {
            let n = choose|n: int| 0 <= n < sa.len() && sa[n] == x;
            assert(a.contains(a[n]));
            assert(b.contains(a[n]));
            let m = choose|m: int| 0 <= m < b.len() && b[m] == a[n];
            assert(sb[m] == x);
        }
        if sb.contains(x) {
            let n = choose|n: int| 0 <= n < sb.len() && sb[n] == x;
            assert(b.contains(b[n]));
            assert(a.contains(b[n]));
            let m = choose|m: int| 0 <= m < a.len() && a[m] == b[n];
            assert(sa[m] == x);
        }
    }
    lemma_ascending_unique(sa, sb);
    assert(a.len() == sa.len());
    assert(b.len() == sb.len());
    assert forall|k: int| 0 <= k < a.len() implies a[k] == b[k] by {
        assert(sa[k] == a[k].source_path);
        assert(sb[k] == b[k].source_path);
        assert(a.contains(a[k]));
        assert(b.contains(b[k]));
    }
    assert(a =~= b);
}

/// Planning has one outcome for each snapshot.
pub proof fn plan_is_unique(
    entries: Seq<FsEntryView>,
    a: Result<Seq<InstallTaskView>, PlanError>,
    b: Result<Seq<InstallTaskView>, PlanError>,
)
    requires
        is_plan(entries, a),
        is_plan(entries, b),
    ensures
        a == b,
{
    if !is_ambiguous(entries) && content_dirs(entries).len() != 1 {
        heuristic_plan_is_unique(entries, a->Ok_0, b->Ok_0);
    }
}

/// With exactly one `content` directory and no directory named `extension`,
/// the plan is one task: the `content` directory, installed as it stands.
pub proof fn lone_content_dir_is_installed_verbatim(
    entries: Seq<FsEntryView>,
    outcome: Result<Seq<InstallTaskView>, PlanError>,
)
    requires
        is_plan(entries, outcome),
        content_dirs(entries).len() == 1,
        forall|i: int|
            0 <= i < entries.len() ==> !(!(#[trigger] entries[i]).is_file && path_file_name(
                entries[i].path,
            ) == Some("extension"@)),
    ensures
        outcome == Ok::<Seq<InstallTaskView>, PlanError>(
            seq![verbatim_task(content_dirs(entries)[0].path)],
        ),
{
    lemma_filter_nothing(entries, |e: FsEntryView| is_extension_root(entries, e));
}

/// Two `content` directories make the snapshot ambiguous, wherever they lie.
pub proof fn two_content_dirs_are_ambiguous(
    entries: Seq<FsEntryView>,
    outcome: Result<Seq<InstallTaskView>, PlanError>,
    i: int,
    j: int,
)
    requires
        is_plan(entries, outcome),
        0 <= i < j < entries.len(),
        is_content_dir(entries[i]),
        is_content_dir(entries[j]),
    ensures
        outcome == Err::<Seq<InstallTaskView>, PlanError>(PlanError::AmbiguousPackage),
{
    lemma_filter_two(entries, |e: FsEntryView| is_content_dir(e), i, j);
}

/// Two `extension` roots make the snapshot ambiguous as well.
pub proof fn two_extension_roots_are_ambiguous(
    entries: Seq<FsEntryView>,
    outcome: Result<Seq<InstallTaskView>, PlanError>,
    i: int,
    j: int,
)
    requires
        is_plan(entries, outcome),
        0 <= i < j < entries.len(),
        is_extension_root(entries, entries[i]),
        is_extension_root(entries, entries[j]),
    ensures
        outcome == Err::<Seq<InstallTaskView>, PlanError>(PlanError::AmbiguousPackage),
{
    lemma_filter_two(entries, |e: FsEntryView| is_extension_root(entries, e), i, j);
}

/// A snapshot without a model file and without a `content` directory, and
/// with at most one `extension` root, plans successfully and plans nothing.
pub proof fn nothing_recognised_plans_nothing(
    entries: Seq<FsEntryView>,
    outcome: Result<Seq<InstallTaskView>, PlanError>,
)
    requires
        is_plan(entries, outcome),
        forall|i: int| 0 <= i < entries.len() ==> !is_model_file(#[trigger] entries[i]),
        forall|i: int| 0 <= i < entries.len() ==> !is_content_dir(#[trigger] entries[i]),
        extension_roots(entries).len() <= 1,
    ensures
        outcome == Ok::<Seq<InstallTaskView>, PlanError>(Seq::empty()),
{
    lemma_filter_nothing(entries, |e: FsEntryView| is_content_dir(e));
    let tasks = outcome->Ok_0;
    if tasks.len() > 0 {
        assert(tasks.contains(tasks[0]));
        assert(is_mod_dir(entries, tasks[0].source_path));
    }
    assert(tasks =~= Seq::empty());
}

/// A snapshot without a `content` directory whose mods are one car and one
/// track plans two tasks: the car to `content/cars` and the track to
/// `content/tracks`, the one with the lesser source first.
pub proof fn car_and_track_plan_two_tasks(
    entries: Seq<FsEntryView>,
    outcome: Result<Seq<InstallTaskView>, PlanError>,
    car_dir: Seq<char>,
    track_dir: Seq<char>,
)
    requires
        is_plan(entries, outcome),
        content_dirs(entries).len() == 0,
        extension_roots(entries).len() <= 1,
        forall|dir: Seq<char>| is_mod_dir(entries, dir) <==> (dir == car_dir || dir == track_dir),
        classify(entries, car_dir) == ContentType::Car,
        classify(entries, track_dir) == ContentType::Track,
    ensures
        outcome == Ok::<Seq<InstallTaskView>, PlanError>(
            {
                let car = InstallTaskView { source_path: car_dir, target_path: "content/cars"@ };
                let track = InstallTaskView {
                    source_path: track_dir,
                    target_path: "content/tracks"@,
                };
                if text_before(car_dir, track_dir) {
                    seq![car, track]
                } else {
                    seq![track, car]
                }
            },
        ),
{
    let car = InstallTaskView { source_path: car_dir, target_path: "content/cars"@ };
    let track = InstallTaskView { source_path: track_dir, target_path: "content/tracks"@ };
    let expected = if text_before(car_dir, track_dir) {
        seq![car, track]
    } else {
        seq![track, car]
    };
    if !text_before(car_dir, track_dir) && !text_before(track_dir, car_dir) {
        lemma_text_before_total(car_dir, track_dir);
    }
    assert(is_mod_dir(entries, car_dir));
    assert(is_mod_dir(entries, track_dir));
    assert(is_mod_task(entries, car));
    assert(is_mod_task(entries, track));
    assert(expected.contains(car)) by {
        assert(expected[0] == car || expected[1] == car);
    }
    assert(expected.contains(track)) by {
        assert(expected[0] == track || expected[1] == track);
    }
    assert(strictly_ascending(task_sources(expected)));
    assert forall|task: InstallTaskView| #[trigger]
        expected.contains(task) <==> is_mod_task(entries, task) by {
        if is_mod_task(entries, task) {
            assert(task == car || task == track);
        }
    }
    heuristic_plan_is_unique(entries, outcome->Ok_0, expected);
}

} // verus!
