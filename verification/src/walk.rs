//! The rules of the walk.
//!
//! This is the walk as a function: from the folders that wait, the phase
//! and what the reader of the file system reports, to the folders that wait
//! afterwards, the new phase and what the reader is to do next. The laws of
//! the walk are stated and proved here.

use crate::command_options::CommandOptions;
use crate::find_files::DirEntryInfo;
use crate::find_files::EntryKind;
use crate::find_files::EntryVerdict;
use crate::find_files::PathName;
use crate::find_files::PathToScan;
use crate::find_files::Phase;
use crate::find_files::WalkAction;
use crate::find_files::WalkEvent;
use crate::matcher::Matcher;
use std::path::PathBuf;
use vstd::prelude::*;

verus! {

/// The request and the matchers that a walk goes by.
pub struct WalkRules {
    pub options: CommandOptions,
    /// The matcher for the folders that are not entered.
    pub folders_to_prune: Option<Matcher>,
    /// The matcher for the files that are left out.
    pub files_to_prune: Option<Matcher>,
    /// The matcher for the files that were asked for.
    pub files_to_find: Option<Matcher>,
}

/// The folders that wait and the phase of the walk.
pub struct WalkState {
    pub queue: Seq<PathToScan>,
    pub phase: Phase,
}

/// Whether `text` is `.` or `..`.
pub open spec fn is_dot_name(text: Seq<char>) -> bool {
    text == seq!['.'] || text == seq!['.', '.']
}

/// Whether a folder is left out by the prune pattern for folders. A name
/// that cannot be decoded is left out. A path without a name is matched by
/// its text if it is `.` or `..`, and kept otherwise.
pub open spec fn folder_excluded(
    prune: Option<Matcher>,
    name: PathName,
    path_text: Option<String>,
) -> bool {
    match prune {
        None => false,
        Some(m) => match name {
            PathName::Text(t) => m.accepts(t@),
            PathName::Undecodable => true,
            PathName::Absent => match path_text {
                Some(p) => is_dot_name(p@) && m.accepts(p@),
                None => false,
            },
        },
    }
}

/// Whether a file matches `matcher`, by its name or by its whole path. A
/// name or path that cannot be decoded matches nothing, and without a
/// matcher nothing matches.
pub open spec fn file_matches(
    matcher: Option<Matcher>,
    name: PathName,
    path_text: Option<String>,
    match_basename: bool,
) -> bool {
    match matcher {
        None => false,
        Some(m) => if match_basename {
            name matches PathName::Text(t) && m.accepts(t@)
        } else {
            path_text matches Some(p) && m.accepts(p@)
        },
    }
}

/// Whether folders found in a folder of depth `depth` are entered.
pub open spec fn deeper_allowed(max_depth: Option<usize>, depth: usize) -> bool {
    depth < usize::MAX && match max_depth {
        None => true,
        Some(limit) => depth < limit,
    }
}

/// Whether a file changed at `modified` lies within the time bounds: not
/// before `from` and before `till`. Without a lower bound nothing is
/// tested, and a time that cannot be read passes.
pub open spec fn time_allowed(from: Option<u64>, till: Option<u64>, modified: Option<u64>) -> bool {
    match from {
        None => true,
        Some(lower) => match modified {
            None => true,
            Some(at) => lower <= at && match till {
                Some(upper) => at < upper,
                None => true,
            },
        },
    }
}

/// Whether a size lies within the bounds, both of which count as allowed.
pub open spec fn size_allowed(min: Option<u64>, max: Option<u64>, size: u64) -> bool {
    &&& min matches Some(least) ==> least <= size
    &&& max matches Some(most) ==> size <= most
}

/// What becomes of an entry found in a folder of depth `depth`, given what
/// the patterns say of it: whether the prune pattern for folders matches,
/// whether the pattern of the files asked for matches (`None` if no files
/// were asked for), and whether the prune pattern for files matches.
pub open spec fn verdict_given(
    opt: &CommandOptions,
    depth: usize,
    kind: EntryKind,
    size: u64,
    modified: Option<u64>,
    folder_pruned: bool,
    wanted: Option<bool>,
    file_pruned: bool,
) -> EntryVerdict {
    match kind {
        EntryKind::Folder => if !deeper_allowed(opt.find_depth, depth) {
            EntryVerdict::TooDeep
        } else if folder_pruned {
            EntryVerdict::PrunedFolder
        } else {
            EntryVerdict::Enqueue
        },
        EntryKind::Other => EntryVerdict::NotRegularFile,
        EntryKind::RegularFile => if wanted == Some(false) {
            EntryVerdict::NotWanted
        } else if wanted is None && file_pruned {
            EntryVerdict::PrunedFile
        } else if !time_allowed(opt.time_from, opt.time_till, modified) {
            EntryVerdict::OutsideTime
        } else if !size_allowed(opt.size_min, opt.size_max, size) {
            EntryVerdict::OutsideSize
        } else {
            EntryVerdict::Candidate
        },
    }
}

/// The depths of the waiting folders never fall, and span at most two
/// levels: the level that is being read and the one below it. No folder
/// lies above the first level or, but for the folders the search starts
/// from, below the depth limit.
pub open spec fn breadth_first(state: WalkState, max_depth: Option<usize>) -> bool {
    let queue = state.queue;
    &&& forall|i: int| 0 <= i < queue.len() ==> (#[trigger] queue[i]).depth >= 1
    &&& forall|i: int, j: int|
        0 <= i < j < queue.len() ==> (#[trigger] queue[i]).depth <= (#[trigger] queue[j]).depth
    &&& queue.len() > 0 ==> queue.last().depth <= queue[0].depth + 1
    &&& forall|i: int|
        0 <= i < queue.len() ==> (#[trigger] queue[i]).depth == 1 || (max_depth matches Some(limit)
            ==> queue[i].depth <= limit)
    &&& match state.phase {
        Phase::Idle => true,
        Phase::Opening(depth) | Phase::Open(depth) => {
            &&& depth >= 1
            &&& forall|i: int|
                0 <= i < queue.len() ==> depth <= (#[trigger] queue[i]).depth <= depth + 1
        },
    }
}

/// The depth of the folder that is being opened or read, if there is one.
pub open spec fn phase_depth(phase: Phase) -> Option<usize> {
    match phase {
        Phase::Idle => None,
        Phase::Opening(depth) | Phase::Open(depth) => Some(depth),
    }
}

/// Going on while no folder is open: the folder that has waited longest is
/// handed out to be opened; if none waits, the walk is over.
pub open spec fn take_next(queue: Seq<PathToScan>) -> (WalkState, WalkAction) {
    if queue.len() == 0 {
        (WalkState { queue, phase: Phase::Idle }, WalkAction::Finished)
    } else {
        (
            WalkState { queue: queue.drop_first(), phase: Phase::Opening(queue[0].depth) },
            WalkAction::OpenFolder(queue[0].path),
        )
    }
}

/// The folders a search starts from, each at depth 1.
pub open spec fn root_units(folders: Seq<PathBuf>) -> Seq<PathToScan> {
    Seq::new(folders.len(), |i: int| PathToScan { path: folders[i], depth: 1 })
}

/// What becomes of `entry` when it is found in a folder of depth `depth`.
pub open spec fn verdict_of(rules: WalkRules, depth: usize, entry: DirEntryInfo) -> EntryVerdict {
    verdict_given(
        &rules.options,
        depth,
        entry.kind,
        entry.size,
        entry.modified,
        folder_excluded(rules.folders_to_prune, entry.name, entry.path_text),
        if rules.files_to_find is Some {
            Some(
                file_matches(
                    rules.files_to_find,
                    entry.name,
                    entry.path_text,
                    rules.options.find_match_basename,
                ),
            )
        } else {
            None
        },
        file_matches(rules.files_to_prune, entry.name, entry.path_text, true),
    )
}

/// The state after `event`, and what is to be done next.
///
/// While a folder is being opened, `Opened` starts the reading of its
/// entries; anything else counts as a failure, and the next waiting folder
/// is taken. While a folder is open, an entry that is a folder to be entered
/// joins the waiting folders one level further down, an entry that is a file
/// to be handed out is handed out, and any other entry is passed over;
/// `EndOfFolder` closes the folder and takes the next one. While no folder
/// is open, the next waiting folder is taken.
pub open spec fn walk_step(rules: WalkRules, st: WalkState, event: WalkEvent) -> (
    WalkState,
    WalkAction,
) {
    match st.phase {
        Phase::Idle => take_next(st.queue),
        Phase::Opening(depth) => match event {
            WalkEvent::Opened => (
                WalkState { queue: st.queue, phase: Phase::Open(depth) },
                WalkAction::ReadEntry,
            ),
            _ => take_next(st.queue),
        },
        Phase::Open(depth) => match event {
            WalkEvent::EndOfFolder => take_next(st.queue),
            WalkEvent::Entry(entry) => match verdict_of(rules, depth, entry) {
                EntryVerdict::Enqueue => (
                    WalkState {
                        queue: st.queue.push(
                            PathToScan { path: entry.path, depth: (depth + 1) as usize },
                        ),
                        phase: st.phase,
                    },
                    WalkAction::ReadEntry,
                ),
                EntryVerdict::Candidate => (st, WalkAction::Yield(entry.path)),
                _ => (st, WalkAction::ReadEntry),
            },
            _ => (st, WalkAction::ReadEntry),
        },
    }
}

/// The state after a run of events.
pub open spec fn walk_run(rules: WalkRules, start: WalkState, events: Seq<WalkEvent>) -> WalkState
    decreases events.len(),
{
    if events.len() == 0 {
        start
    } else {
        walk_step(rules, walk_run(rules, start, events.drop_last()), events.last()).0
    }
}

/// What the reader is told to do after the last of a run of events.
pub open spec fn walk_answer(rules: WalkRules, start: WalkState, events: Seq<WalkEvent>) -> WalkAction
    recommends
        events.len() > 0,
{
    walk_step(rules, walk_run(rules, start, events.drop_last()), events.last()).1
}

/// Whether one of `events` reports a folder with the path of `unit` that
/// the prune pattern for folders lets pass, and `unit` lies below the first
/// level and not below the depth limit.
pub open spec fn reported_folder(rules: WalkRules, events: Seq<WalkEvent>, unit: PathToScan) -> bool {
    &&& unit.depth >= 2
    &&& rules.options.find_depth matches Some(limit) ==> unit.depth <= limit
    &&& exists|k: int|
        0 <= k < events.len() && (#[trigger] events[k] matches WalkEvent::Entry(entry) && {
            &&& entry.kind == EntryKind::Folder
            &&& entry.path == unit.path
            &&& !folder_excluded(rules.folders_to_prune, entry.name, entry.path_text)
        })
}

/// Whether `unit` waited at the start or was reported by one of `events`.
pub open spec fn accounted_for(
    rules: WalkRules,
    start: WalkState,
    events: Seq<WalkEvent>,
    unit: PathToScan,
) -> bool {
    start.queue.contains(unit) || reported_folder(rules, events, unit)
}

/// A step leaves the waiting folders in breadth-first order.
pub proof fn lemma_step_keeps_breadth_first(rules: WalkRules, st: WalkState, event: WalkEvent)
    requires
        breadth_first(st, rules.options.find_depth),
    ensures
        breadth_first(walk_step(rules, st, event).0, rules.options.find_depth),
{
    if st.queue.len() > 0 {
        let rest = st.queue.drop_first();
        assert forall|i: int| 0 <= i < rest.len() implies (#[trigger] rest[i]) == st.queue[i
            + 1] by {}
    }
    if let Phase::Open(depth) = st.phase {
        if let WalkEvent::Entry(entry) = event {
            if verdict_of(rules, depth, entry) == EntryVerdict::Enqueue {
                let unit = PathToScan { path: entry.path, depth: (depth + 1) as usize };
                let more = st.queue.push(unit);
                assert forall|i: int| 0 <= i < st.queue.len() implies (#[trigger] more[i])
                    == st.queue[i] by {}
            }
        }
    }
}

/// A whole run that starts in breadth-first order stays in it.
pub proof fn lemma_run_keeps_breadth_first(
    rules: WalkRules,
    start: WalkState,
    events: Seq<WalkEvent>,
)
    requires
        breadth_first(start, rules.options.find_depth),
    ensures
        breadth_first(walk_run(rules, start, events), rules.options.find_depth),
    decreases events.len(),
{
    if events.len() > 0 {
        lemma_run_keeps_breadth_first(rules, start, events.drop_last());
        lemma_step_keeps_breadth_first(
            rules,
            walk_run(rules, start, events.drop_last()),
            events.last(),
        );
    }
}

/// The folders a search starts from wait in breadth-first order.
pub proof fn lemma_roots_are_breadth_first(folders: Seq<PathBuf>, max_depth: Option<usize>)
    ensures
        breadth_first(WalkState { queue: root_units(folders), phase: Phase::Idle }, max_depth),
        forall|i: int| 0 <= i < folders.len() ==> (#[trigger] root_units(folders)[i]).depth == 1,
{
}

/// A folder joins the waiting folders only while its parent is read, one
/// level below its parent, and only if the parent lies above the depth
/// limit. Any other step leaves the waiting folders as they are or takes
/// the first of them away.
pub proof fn lemma_enqueued_one_level_down(rules: WalkRules, before: WalkState, event: WalkEvent)
    ensures
        ({
            let after = walk_step(rules, before, event).0;
            ||| after.queue == before.queue
            ||| before.queue.len() > 0 && after.queue == before.queue.drop_first()
            ||| {
                &&& before.phase matches Phase::Open(parent)
                &&& event matches WalkEvent::Entry(entry)
                &&& entry.kind == EntryKind::Folder
                &&& !folder_excluded(rules.folders_to_prune, entry.name, entry.path_text)
                &&& parent < usize::MAX
                &&& rules.options.find_depth matches Some(limit) ==> parent < limit
                &&& after.queue == before.queue.push(
                    PathToScan { path: entry.path, depth: (parent + 1) as usize },
                )
                &&& after.queue.last().depth == parent + 1
            }
        }),
{
}

/// A folder whose name the prune pattern matches does not join the waiting
/// folders, whatever the depth limit is, and nothing is handed out for it.
pub proof fn lemma_pruned_folder_never_waits(rules: WalkRules, st: WalkState, entry: DirEntryInfo)
    requires
        entry.kind == EntryKind::Folder,
        folder_excluded(rules.folders_to_prune, entry.name, entry.path_text),
    ensures
        walk_step(rules, st, WalkEvent::Entry(entry)).0.queue == st.queue || (st.queue.len() > 0
            && walk_step(rules, st, WalkEvent::Entry(entry)).0.queue == st.queue.drop_first()),
        !(walk_step(rules, st, WalkEvent::Entry(entry)).1 is Yield),
        st.phase is Open ==> walk_step(rules, st, WalkEvent::Entry(entry)) == (
            st,
            WalkAction::ReadEntry,
        ),
{
}

/// Only a folder that waits is ever opened: the one that has waited
/// longest.
pub proof fn lemma_opened_folder_waited(rules: WalkRules, st: WalkState, event: WalkEvent)
    requires
        walk_step(rules, st, event).1 is OpenFolder,
    ensures
        st.queue.len() > 0,
        walk_step(rules, st, event).1 == WalkAction::OpenFolder(st.queue[0].path),
        walk_step(rules, st, event).0.phase == Phase::Opening(st.queue[0].depth),
        walk_step(rules, st, event).0.queue == st.queue.drop_first(),
{
}

/// The walk never goes back up: the folder that is opened or read after a
/// step lies as deep as the one before it, or one level deeper.
pub proof fn lemma_depth_never_falls(rules: WalkRules, st: WalkState, event: WalkEvent)
    requires
        breadth_first(st, rules.options.find_depth),
    ensures
        ({
            let before = phase_depth(st.phase);
            let after = phase_depth(walk_step(rules, st, event).0.phase);
            before matches Some(was) ==> after matches Some(now) ==> was <= now <= was + 1
        }),
{
}

/// The folders are read level by level: a folder that is opened or read
/// later in a run never lies above one that was opened or read earlier.
pub proof fn lemma_run_never_goes_back_up(
    rules: WalkRules,
    start: WalkState,
    events: Seq<WalkEvent>,
    n: int,
)
    requires
        breadth_first(start, rules.options.find_depth),
        0 <= n <= events.len(),
    ensures
        ({
            let earlier = phase_depth(walk_run(rules, start, events.take(n)).phase);
            let later = phase_depth(walk_run(rules, start, events).phase);
            earlier matches Some(was) ==> later matches Some(now) ==> was <= now
        }),
    decreases events.len(),
{
    if n == events.len() {
        assert(events.take(n) == events);
    } else {
        let front = events.drop_last();
        let before = walk_run(rules, start, front);
        assert(front.take(n) == events.take(n));
        lemma_run_never_goes_back_up(rules, start, front, n);
        lemma_run_keeps_breadth_first(rules, start, front);
        lemma_depth_never_falls(rules, before, events.last());
        if before.phase is Idle && front.len() > 0 {
            lemma_idle_after_a_step_is_the_end(
                rules,
                walk_run(rules, start, front.drop_last()),
                front.last(),
            );
        }
    }
}

/// A step ends with no folder open only when no folder waits: the walk is
/// over then, and stays so.
pub proof fn lemma_idle_after_a_step_is_the_end(rules: WalkRules, st: WalkState, event: WalkEvent)
    requires
        walk_step(rules, st, event).0.phase is Idle,
    ensures
        walk_step(rules, st, event).0.queue.len() == 0,
        walk_step(rules, st, event).1 is Finished,
        forall|next: WalkEvent|
            walk_step(rules, walk_step(rules, st, event).0, next) == (
                walk_step(rules, st, event).0,
                WalkAction::Finished,
            ),
{
}

/// A file is handed out only while a folder is read, and only if it is a
/// regular file that is asked for, or not pruned if no files were asked
/// for, and that passes the time and size filters.
pub proof fn lemma_yield_is_candidate(rules: WalkRules, st: WalkState, event: WalkEvent)
    requires
        walk_step(rules, st, event).1 is Yield,
    ensures
        st.phase is Open,
        walk_step(rules, st, event).0 == st,
        event matches WalkEvent::Entry(entry) && {
            &&& walk_step(rules, st, event).1 == WalkAction::Yield(entry.path)
            &&& entry.kind == EntryKind::RegularFile
            &&& time_allowed(rules.options.time_from, rules.options.time_till, entry.modified)
            &&& size_allowed(rules.options.size_min, rules.options.size_max, entry.size)
            &&& rules.files_to_find is Some ==> file_matches(
                rules.files_to_find,
                entry.name,
                entry.path_text,
                rules.options.find_match_basename,
            )
            &&& rules.files_to_find is None ==> !file_matches(
                rules.files_to_prune,
                entry.name,
                entry.path_text,
                true,
            )
        },
{
}

/// Every folder that waits after a run waited at its start or was reported
/// during the run as a folder that the prune pattern lets pass.
pub proof fn lemma_waiting_folders_are_accounted_for(
    rules: WalkRules,
    start: WalkState,
    events: Seq<WalkEvent>,
)
    requires
        breadth_first(start, rules.options.find_depth),
    ensures
        forall|i: int|
            0 <= i < walk_run(rules, start, events).queue.len() ==> accounted_for(
                rules,
                start,
                events,
                #[trigger] walk_run(rules, start, events).queue[i],
            ),
    decreases events.len(),
{
    let after = walk_run(rules, start, events);
    if events.len() == 0 {
        assert forall|i: int| 0 <= i < after.queue.len() implies accounted_for(
            rules,
            start,
            events,
            #[trigger] after.queue[i],
        ) by {
        }
    } else {
        let earlier = events.drop_last();
        let before = walk_run(rules, start, earlier);
        lemma_waiting_folders_are_accounted_for(rules, start, earlier);
        lemma_run_keeps_breadth_first(rules, start, earlier);
        lemma_enqueued_one_level_down(rules, before, events.last());
        assert forall|i: int| 0 <= i < after.queue.len() implies accounted_for(
            rules,
            start,
            events,
            #[trigger] after.queue[i],
        ) by {
            let unit = after.queue[i];
            if after.queue == before.queue {
                lemma_accounted_for_later(rules, start, earlier, events, unit);
            } else if before.queue.len() > 0 && after.queue == before.queue.drop_first() {
                lemma_accounted_for_later(rules, start, earlier, events, unit);
            } else if i < before.queue.len() {
                lemma_accounted_for_later(rules, start, earlier, events, unit);
            }
        }
    }
}

/// What is accounted for by a run is accounted for by any longer run.
pub proof fn lemma_accounted_for_later(
    rules: WalkRules,
    start: WalkState,
    earlier: Seq<WalkEvent>,
    events: Seq<WalkEvent>,
    unit: PathToScan,
)
    requires
        accounted_for(rules, start, earlier, unit),
        earlier.len() <= events.len(),
        earlier == events.take(earlier.len() as int),
    ensures
        accounted_for(rules, start, events, unit),
{
    if reported_folder(rules, earlier, unit) {
        let k = choose|k: int|
            0 <= k < earlier.len() && (#[trigger] earlier[k] matches WalkEvent::Entry(entry) && {
                &&& entry.kind == EntryKind::Folder
                &&& entry.path == unit.path
                &&& !folder_excluded(rules.folders_to_prune, entry.name, entry.path_text)
            });
    }
}

/// A folder is opened during a run only if it waited at the start of the
/// run or was reported before as a folder that the prune pattern lets
/// pass. So a folder that the prune pattern matches is opened only if the
/// search was told to start from it.
pub proof fn lemma_opened_folders_are_accounted_for(
    rules: WalkRules,
    start: WalkState,
    events: Seq<WalkEvent>,
)
    requires
        breadth_first(start, rules.options.find_depth),
        events.len() > 0,
        walk_answer(rules, start, events) is OpenFolder,
    ensures
        exists|unit: PathToScan|
            walk_answer(rules, start, events) == WalkAction::OpenFolder(unit.path)
                && #[trigger] accounted_for(rules, start, events.drop_last(), unit),
{
    let earlier = events.drop_last();
    let before = walk_run(rules, start, earlier);
    lemma_waiting_folders_are_accounted_for(rules, start, earlier);
    lemma_opened_folder_waited(rules, before, events.last());
}

/// A file changed exactly at the lower time bound passes the time filter,
/// as long as the upper bound, if there is one, lies behind the lower one.
pub proof fn lemma_lower_time_bound_is_included(lower: u64, till: Option<u64>)
    requires
        till matches Some(upper) ==> lower < upper,
    ensures
        time_allowed(Some(lower), till, Some(lower)),
{
}

/// A file changed exactly at the upper time bound does not pass the time
/// filter, as long as a lower bound is set.
pub proof fn lemma_upper_time_bound_is_excluded(lower: u64, upper: u64)
    ensures
        !time_allowed(Some(lower), Some(upper), Some(upper)),
{
}

/// The size bounds themselves are allowed sizes.
pub proof fn lemma_size_bounds_are_included(min: u64, max: u64)
    requires
        min <= max,
    ensures
        size_allowed(Some(min), Some(max), min),
        size_allowed(Some(min), Some(max), max),
{
}

} // verus!
