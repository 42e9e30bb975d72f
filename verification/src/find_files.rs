//! Walking the folders of a search.
//!
//! The walk itself is driven from outside: whoever reads the file system
//! tells the walker what it found, and the walker says what to do next. All
//! that is decided here: which folder is opened next, which folders are
//! entered, and which files are handed out.

use crate::command_options::CommandOptions;
use crate::config_json::ConfigJson;
use crate::escape::translate_wildcard;
use crate::escape::translated;
use crate::matcher::regex_compiles;
use crate::matcher::Matcher;
use crate::matcher::PatternError;
use crate::walk::breadth_first;
use crate::walk::deeper_allowed;
use crate::walk::file_matches;
use crate::walk::folder_excluded;
use crate::walk::is_dot_name;
use crate::walk::root_units;
use crate::walk::size_allowed;
use crate::walk::time_allowed;
use crate::walk::verdict_given;
use crate::walk::verdict_of;
use crate::walk::walk_step;
use crate::walk::WalkRules;
use crate::walk::WalkState;
use std::collections::VecDeque;
use std::path::PathBuf;
use vstd::prelude::*;
use vstd::string::StringExecFns;

verus! {

/// A folder that waits to be read, and how deep it lies: the folders a
/// search starts from have depth 1, the folders inside them depth 2, and
/// so on.
#[derive(Debug)]
pub struct PathToScan {
    pub path: PathBuf,
    pub depth: usize,
}

impl PathToScan {
    /// The folder at `path`, which lies at depth `depth`.
    pub fn new(path: PathBuf, depth: usize) -> (unit: PathToScan)
        ensures
            unit.path == path,
            unit.depth == depth,
    {
        PathToScan { path, depth }
    }
}

/// The globs of `patterns`, translated and joined by `|`.
pub open spec fn joined_globs(patterns: Seq<String>) -> Seq<char>
    decreases patterns.len(),
{
    if patterns.len() == 0 {
        Seq::empty()
    } else if patterns.len() == 1 {
        translated(patterns[0]@, true)
    } else {
        joined_globs(patterns.drop_last()) + seq!['|'] + translated(patterns.last()@, true)
    }
}

/// The expression that matches a whole name against any of `patterns`:
/// `^(p1|p2|...|pn)$`.
pub open spec fn alternation(patterns: Seq<String>) -> Seq<char> {
    seq!['^', '('] + joined_globs(patterns) + seq![')', '$']
}

/// Whether a list of globs gives no error: it is empty, or the alternation
/// of its globs compiles.
pub open spec fn list_compiles(patterns: Seq<String>, case_insensitive: bool) -> bool {
    patterns.len() == 0 || regex_compiles(alternation(patterns), case_insensitive)
}

/// Whether `e` is the error for the alternation of `patterns`.
pub open spec fn names_list(e: PatternError, patterns: Seq<String>) -> bool {
    e matches PatternError::BadExpression { pattern, .. } && pattern@ == alternation(patterns)
}

/// What [`FindFiles::match_filenames_regex`] answers for a list of globs:
/// no matcher for an empty list; else the matcher compiled from the
/// alternation of the globs if that compiles, and the error that names the
/// alternation if it does not.
pub open spec fn matcher_for(
    patterns: Seq<String>,
    case_insensitive: bool,
    r: Result<Option<Matcher>, PatternError>,
) -> bool {
    if patterns.len() == 0 {
        r == Ok::<Option<Matcher>, PatternError>(None)
    } else {
        match r {
            Ok(found) => {
                &&& regex_compiles(alternation(patterns), case_insensitive)
                &&& found matches Some(m)
                &&& m.source() == alternation(patterns)
                &&& m.fold_case() == case_insensitive
            },
            Err(e) => {
                &&& !regex_compiles(alternation(patterns), case_insensitive)
                &&& names_list(e, patterns)
            },
        }
    }
}

/// Builds the text of [`alternation`].
pub fn alternation_text(all_patterns: &[String]) -> (out: String)
    ensures
        out@ == alternation(all_patterns@),
{
    let mut out = String::from_str("^(");
    proof {
        reveal_strlit("^(");
        reveal_strlit("|");
        reveal_strlit(")$");
    }
    let mut i: usize = 0;
    while i < all_patterns.len()
        invariant
            i <= all_patterns@.len(),
            "|"@ == seq!['|'],
            out@ == seq!['^', '('] + joined_globs(all_patterns@.take(i as int)),
        decreases all_patterns@.len() - i,
    {
        let ghost before = all_patterns@.take(i as int);
        let ghost upto = all_patterns@.take(i as int + 1);
        proof {
            assert(upto.drop_last() == before);
        }
        if i > 0 {
            out.append("|");
        }
        let piece = translate_wildcard(all_patterns[i].as_str());
        out.append(piece.as_str());
        proof {
            assert(out@ == seq!['^', '('] + joined_globs(upto));
        }
        i += 1;
    }
    proof {
        assert(all_patterns@.take(all_patterns@.len() as int) == all_patterns@);
    }
    out.append(")$");
    out
}

/// What the last component of a path looks like.
#[derive(Debug)]
pub enum PathName {
    /// The path has no last component: it ends in `..`, or is `.` or a
    /// root.
    Absent,
    /// The last component is not valid Unicode.
    Undecodable,
    /// The last component.
    Text(String),
}

/// What an entry of a folder is, links followed.
#[derive(Debug, Clone, Copy, PartialEq, Eq, Structural)]
pub enum EntryKind {
    Folder,
    RegularFile,
    /// A pipe, a device, a socket and the like.
    Other,
}

/// What is known of one entry of a folder.
#[derive(Debug)]
pub struct DirEntryInfo {
    /// The entry's path; it is handed on as it is.
    pub path: PathBuf,
    /// The entry's name.
    pub name: PathName,
    /// The whole path as text, if it is valid Unicode.
    pub path_text: Option<String>,
    pub kind: EntryKind,
    /// The size in bytes.
    pub size: u64,
    /// The time of the last change, in seconds since the epoch, if it can
    /// be read.
    pub modified: Option<u64>,
}

/// What becomes of an entry, and why.
#[derive(Debug, Clone, Copy, PartialEq, Eq, Structural)]
pub enum EntryVerdict {
    /// A folder that will be read later.
    Enqueue,
    /// A folder below the depth limit.
    TooDeep,
    /// A folder whose name matches a prune pattern.
    PrunedFolder,
    /// Neither a folder nor a regular file.
    NotRegularFile,
    /// A file that is not among those asked for.
    NotWanted,
    /// A file whose name matches a prune pattern.
    PrunedFile,
    /// A file that was changed outside the time bounds.
    OutsideTime,
    /// A file whose size is outside the size bounds.
    OutsideSize,
    /// A file that is handed out.
    Candidate,
}

/// Where the walk stands.
#[derive(Debug, Clone, Copy, PartialEq, Eq, Structural)]
pub enum Phase {
    /// No folder is open.
    Idle,
    /// A folder of this depth was handed out to be opened.
    Opening(usize),
    /// A folder of this depth is open and is being read.
    Open(usize),
}

/// What the reader of the file system reports.
#[derive(Debug)]
pub enum WalkEvent {
    /// Nothing: the walk is to go on from where it stands.
    Resume,
    /// The folder that was to be opened is open.
    Opened,
    /// The folder that was to be opened could not be opened.
    OpenFailed,
    /// The next entry of the open folder.
    Entry(DirEntryInfo),
    /// The next entry of the open folder could not be read.
    EntryFailed,
    /// The open folder has no more entries.
    EndOfFolder,
}

/// What the reader of the file system is to do next.
#[derive(Debug)]
pub enum WalkAction {
    /// Open this folder and report `Opened` or `OpenFailed`.
    OpenFolder(PathBuf),
    /// Read the next entry of the open folder and report it.
    ReadEntry,
    /// Hand out this file, then go on with `Resume`.
    Yield(PathBuf),
    /// Stop: no folder is left.
    Finished,
}

/// The walk over the folders of a search.
pub struct FindFiles<'caller> {
    folders: VecDeque<PathToScan>,
    phase: Phase,
    opt: &'caller CommandOptions,
    folders_to_prune: Option<Matcher>,
    files_to_prune: Option<Matcher>,
    files_to_find: Option<Matcher>,
}

/// Whether `text` is `.` or `..`.
pub fn is_dot_or_dot_dot(text: &str) -> (b: bool)
    ensures
        b == is_dot_name(text@),
{
    let len = text.unicode_len();
    if len == 1 {
        let dot = text.get_char(0) == '.';
        proof {
            if dot {
                assert(text@ =~= seq!['.']);
            }
        }
        dot
    } else if len == 2 {
        let dots = text.get_char(0) == '.' && text.get_char(1) == '.';
        proof {
            if dots {
                assert(text@ =~= seq!['.', '.']);
            }
        }
        dots
    } else {
        false
    }
}

/// What becomes of an entry, given what the patterns say of it.
pub fn decide_entry(
    opt: &CommandOptions,
    depth: usize,
    kind: EntryKind,
    size: u64,
    modified: Option<u64>,
    folder_pruned: bool,
    wanted: Option<bool>,
    file_pruned: bool,
) -> (verdict: EntryVerdict)
    ensures
        verdict == verdict_given(
            opt,
            depth,
            kind,
            size,
            modified,
            folder_pruned,
            wanted,
            file_pruned,
        ),
{
    match kind {
        EntryKind::Folder => {
            if !FindFiles::deeper_from(opt, depth) {
                EntryVerdict::TooDeep
            } else if folder_pruned {
                EntryVerdict::PrunedFolder
            } else {
                EntryVerdict::Enqueue
            }
        },
        EntryKind::Other => EntryVerdict::NotRegularFile,
        EntryKind::RegularFile => {
            let asked_for = match wanted {
                Some(w) => w,
                None => true,
            };
            if !asked_for {
                EntryVerdict::NotWanted
            } else if wanted.is_none() && file_pruned {
                EntryVerdict::PrunedFile
            } else if !FindFiles::time_within(opt, modified) {
                EntryVerdict::OutsideTime
            } else if !FindFiles::size_within(opt, size) {
                EntryVerdict::OutsideSize
            } else {
                EntryVerdict::Candidate
            }
        },
    }
}

impl<'caller> FindFiles<'caller> {
    /// The waiting folders are always in breadth-first order.
    #[verifier::type_invariant]
    spec fn well_formed(self) -> bool {
        breadth_first(WalkState { queue: self.folders@, phase: self.phase }, self.opt.find_depth)
    }

    /// The folders that wait and the phase of the walk.
    pub closed spec fn state(&self) -> WalkState {
        WalkState { queue: self.folders@, phase: self.phase }
    }

    /// The request and the matchers that the walk goes by.
    pub closed spec fn rules(&self) -> WalkRules {
        WalkRules {
            options: *self.opt,
            folders_to_prune: self.folders_to_prune,
            files_to_prune: self.files_to_prune,
            files_to_find: self.files_to_find,
        }
    }

    /// Translates a glob into a regular-expression fragment.
    pub fn glob_pattern_to_regex_pattern(glob_pattern: &str) -> (out: String)
        ensures
            out@ == translated(glob_pattern@, true),
    {
        translate_wildcard(glob_pattern)
    }

    /// Compiles a list of globs into one matcher for whole names. An empty
    /// list gives no matcher. A list whose expression does not compile is
    /// an error, and no other list is.
    pub fn match_filenames_regex(all_patterns: &[String], case_insensitive: bool) -> (r: Result<
        Option<Matcher>,
        PatternError,
    >)
        ensures
            r is Ok <==> list_compiles(all_patterns@, case_insensitive),
            matcher_for(all_patterns@, case_insensitive, r),
    {
        if all_patterns.len() == 0 {
            Ok(None)
        } else {
            let prune_pattern = alternation_text(all_patterns);
            match Matcher::new(prune_pattern.as_str(), case_insensitive) {
                Ok(m) => Ok(Some(m)),
                Err(e) => Err(e),
            }
        }
    }

    /// Sets up the walk with the matchers that were compiled for it: the
    /// folders of the request wait at depth 1, and no folder is open.
    pub fn with_matchers(
        opt: &'caller CommandOptions,
        folders_to_prune: Option<Matcher>,
        files_to_prune: Option<Matcher>,
        files_to_find: Option<Matcher>,
    ) -> (finder: FindFiles<'caller>)
        ensures
            finder.rules() == (WalkRules {
                options: *opt,
                folders_to_prune,
                files_to_prune,
                files_to_find,
            }),
            finder.state() == (WalkState { queue: root_units(opt.folders@), phase: Phase::Idle }),
            breadth_first(finder.state(), opt.find_depth),
    {
        let mut folders: VecDeque<PathToScan> = VecDeque::new();
        let mut i: usize = 0;
        while i < opt.folders.len()
            invariant
                i <= opt.folders@.len(),
                folders@ == root_units(opt.folders@.take(i as int)),
            decreases opt.folders@.len() - i,
        {
            folders.push_back(PathToScan::new(opt.folders[i].clone(), 1));
            i += 1;
        }
        proof {
            assert(opt.folders@.take(opt.folders@.len() as int) == opt.folders@);
        }
        FindFiles {
            folders,
            phase: Phase::Idle,
            opt,
            folders_to_prune,
            files_to_prune,
            files_to_find,
        }
    }

    /// Sets up the walk: compiles the prune patterns for folders and for
    /// files and the pattern of the files asked for, in this order, and
    /// goes on as [`FindFiles::with_matchers`] does. The construction
    /// succeeds exactly when all three lists compile; else the first list
    /// that does not compile ends it with its error.
    pub fn new(opt: &'caller CommandOptions, cfg: &ConfigJson) -> (r: Result<
        FindFiles<'caller>,
        PatternError,
    >)
        ensures
            r is Ok <==> {
                &&& list_compiles(cfg.folders_to_prune@, true)
                &&& list_compiles(cfg.files_to_prune@, true)
                &&& list_compiles(opt.files@, opt.find_iname)
            },
            r matches Ok(finder) ==> {
                &&& finder.rules().options == *opt
                &&& matcher_for(cfg.folders_to_prune@, true, Ok(finder.rules().folders_to_prune))
                &&& matcher_for(cfg.files_to_prune@, true, Ok(finder.rules().files_to_prune))
                &&& matcher_for(opt.files@, opt.find_iname, Ok(finder.rules().files_to_find))
                &&& finder.state() == (WalkState {
                    queue: root_units(opt.folders@),
                    phase: Phase::Idle,
                })
                &&& breadth_first(finder.state(), opt.find_depth)
            },
            r matches Err(e) ==> {
                if !list_compiles(cfg.folders_to_prune@, true) {
                    names_list(e, cfg.folders_to_prune@)
                } else if !list_compiles(cfg.files_to_prune@, true) {
                    names_list(e, cfg.files_to_prune@)
                } else {
                    names_list(e, opt.files@)
                }
            },
    {
        let folders_to_prune = match Self::match_filenames_regex(
            cfg.folders_to_prune.as_slice(),
            true,
        ) {
            Ok(m) => m,
            Err(e) => {
                return Err(e);
            },
        };
        let files_to_prune = match Self::match_filenames_regex(cfg.files_to_prune.as_slice(), true) {
            Ok(m) => m,
            Err(e) => {
                return Err(e);
            },
        };
        let files_to_find = match Self::match_filenames_regex(opt.files.as_slice(), opt.find_iname) {
            Ok(m) => m,
            Err(e) => {
                return Err(e);
            },
        };
        Ok(Self::with_matchers(opt, folders_to_prune, files_to_prune, files_to_find))
    }

    /// Whether folders found in a folder of depth `depth` are entered.
    pub fn deeper_from(opt: &CommandOptions, depth: usize) -> (deeper: bool)
        ensures
            deeper == deeper_allowed(opt.find_depth, depth),
    {
        depth < usize::MAX && match opt.find_depth {
            None => true,
            Some(limit) => depth < limit,
        }
    }

    /// Whether the folders found in the open folder are entered. While no
    /// folder is open, none is.
    pub fn go_deeper(&self) -> (deeper: bool)
        ensures
            deeper == (self.state().phase matches Phase::Open(depth) && deeper_allowed(
                self.rules().options.find_depth,
                depth,
            )),
    {
        match self.phase {
            Phase::Open(depth) => Self::deeper_from(self.opt, depth),
            _ => false,
        }
    }

    /// The depth of the folder that is open, if one is.
    pub fn open_depth(&self) -> (depth: Option<usize>)
        ensures
            depth == match self.state().phase {
                Phase::Open(at) => Some(at),
                _ => None,
            },
    {
        match self.phase {
            Phase::Open(at) => Some(at),
            _ => None,
        }
    }

    /// Whether a size lies within the bounds of the request.
    pub fn size_within(opt: &CommandOptions, size: u64) -> (allowed: bool)
        ensures
            allowed == size_allowed(opt.size_min, opt.size_max, size),
    {
        match opt.size_min {
            None => {},
            Some(size_min) => {
                if size < size_min {
                    return false;
                }
            },
        }
        match opt.size_max {
            None => {},
            Some(size_max) => {
                if size > size_max {
                    return false;
                }
            },
        }
        true
    }

    /// Whether a file of this size passes the size filter.
    pub fn file_size_allowed(&self, size: u64) -> (allowed: bool)
        ensures
            allowed == size_allowed(self.rules().options.size_min, self.rules().options.size_max, size),
    {
        Self::size_within(self.opt, size)
    }

    /// Whether a time of change lies within the bounds of the request.
    pub fn time_within(opt: &CommandOptions, modified: Option<u64>) -> (allowed: bool)
        ensures
            allowed == time_allowed(opt.time_from, opt.time_till, modified),
    {
        match opt.time_from {
            None => true,
            Some(time_from) => match modified {
                None => true,
                Some(file_mod_secs) => {
                    if time_from <= file_mod_secs {
                        match opt.time_till {
                            Some(time_until) => file_mod_secs < time_until,
                            None => true,
                        }
                    } else {
                        false
                    }
                },
            },
        }
    }

    /// Whether a file changed at `modified` passes the time filter.
    pub fn file_time_allowed(&self, modified: Option<u64>) -> (allowed: bool)
        ensures
            allowed == time_allowed(
                self.rules().options.time_from,
                self.rules().options.time_till,
                modified,
            ),
    {
        Self::time_within(self.opt, modified)
    }

    /// Whether the folder is left out by the prune pattern for folders.
    pub fn exclude_folder(&self, name: &PathName, path_text: &Option<String>) -> (exclude: bool)
        ensures
            exclude == folder_excluded(self.rules().folders_to_prune, *name, *path_text),
    {
        match &self.folders_to_prune {
            Some(regex) => match name {
                PathName::Text(folder_name) => regex.is_match(folder_name.as_str()),
                PathName::Undecodable => true,
                PathName::Absent => match path_text {
                    Some(text) => is_dot_or_dot_dot(text.as_str()) && regex.is_match(
                        text.as_str(),
                    ),
                    None => false,
                },
            },
            None => false,
        }
    }

    /// Whether the entry matches `match_regex`, by its name or by its
    /// whole path.
    pub fn match_file(match_regex: Option<&Matcher>, entry: &DirEntryInfo, match_basename: bool) -> (matched:
        bool)
        ensures
            matched == file_matches(
                match match_regex {
                    Some(m) => Some(*m),
                    None => None,
                },
                entry.name,
                entry.path_text,
                match_basename,
            ),
    {
        match match_regex {
            None => false,
            Some(regex) => {
                if match_basename {
                    match &entry.name {
                        PathName::Text(file_name) => regex.is_match(file_name.as_str()),
                        _ => false,
                    }
                } else {
                    match &entry.path_text {
                        Some(text) => regex.is_match(text.as_str()),
                        None => false,
                    }
                }
            },
        }
    }

    /// Whether the entry is one of the files that were asked for.
    pub fn include_file(&self, entry: &DirEntryInfo) -> (included: bool)
        ensures
            included == file_matches(
                self.rules().files_to_find,
                entry.name,
                entry.path_text,
                self.rules().options.find_match_basename,
            ),
    {
        Self::match_file(self.files_to_find.as_ref(), entry, self.opt.find_match_basename)
    }

    /// Whether the entry is left out by the prune pattern for files.
    pub fn exclude_file(&self, entry: &DirEntryInfo) -> (excluded: bool)
        ensures
            excluded == file_matches(self.rules().files_to_prune, entry.name, entry.path_text, true),
    {
        Self::match_file(self.files_to_prune.as_ref(), entry, true)
    }

    /// What becomes of `entry` when it is found in a folder of depth
    /// `depth`. The patterns are asked only where their answer matters.
    pub fn entry_verdict(&self, depth: usize, entry: &DirEntryInfo) -> (verdict: EntryVerdict)
        ensures
            verdict == verdict_of(self.rules(), depth, *entry),
    {
        let folder_pruned = match entry.kind {
            EntryKind::Folder => Self::deeper_from(self.opt, depth) && self.exclude_folder(
                &entry.name,
                &entry.path_text,
            ),
            _ => false,
        };
        let wanted = match entry.kind {
            EntryKind::RegularFile => {
                if self.files_to_find.is_some() {
                    Some(self.include_file(entry))
                } else {
                    None
                }
            },
            _ => None,
        };
        let file_pruned = match entry.kind {
            EntryKind::RegularFile => self.files_to_find.is_none() && self.exclude_file(entry),
            _ => false,
        };
        decide_entry(
            self.opt,
            depth,
            entry.kind,
            entry.size,
            entry.modified,
            folder_pruned,
            wanted,
            file_pruned,
        )
    }

    /// Takes the folder that has waited longest out of the queue.
    fn next_folder(&mut self) -> (unit: Option<PathToScan>)
        requires
            old(self).state().phase == Phase::Idle,
        ensures
            final(self).rules() == old(self).rules(),
            final(self).state().phase == Phase::Idle,
            match unit {
                None => old(self).state().queue.len() == 0 && final(self).state() == old(
                    self,
                ).state(),
                Some(first) => {
                    &&& old(self).state().queue.len() > 0
                    &&& first == old(self).state().queue[0]
                    &&& final(self).state().queue == old(self).state().queue.drop_first()
                },
            },
    {
        proof {
            use_type_invariant(&*self);
        }
        let mut waiting: VecDeque<PathToScan> = VecDeque::new();
        core::mem::swap(&mut waiting, &mut self.folders);
        let ghost before = waiting@;
        let unit = waiting.pop_front();
        proof {
            assert forall|i: int| 0 <= i < waiting@.len() implies (#[trigger] waiting@[i])
                == before[i + 1] by {}
        }
        core::mem::swap(&mut waiting, &mut self.folders);
        unit
    }

    /// Lets a folder found in the open folder wait to be read, unless the
    /// prune pattern for folders leaves it out. A folder that is left out
    /// changes nothing: it never joins the waiting folders, so it is never
    /// opened. The folder lies one level below the open one, which must lie
    /// above the depth limit.
    pub fn push_folder(
        &mut self,
        path_to_scan: PathToScan,
        name: &PathName,
        path_text: &Option<String>,
    ) -> (pushed: bool)
        requires
            old(self).state().phase matches Phase::Open(depth) && path_to_scan.depth == depth + 1
                && deeper_allowed(old(self).rules().options.find_depth, depth),
        ensures
            final(self).rules() == old(self).rules(),
            pushed == !folder_excluded(old(self).rules().folders_to_prune, *name, *path_text),
            final(self).state() == if pushed {
                WalkState {
                    queue: old(self).state().queue.push(path_to_scan),
                    phase: old(self).state().phase,
                }
            } else {
                old(self).state()
            },
    {
        proof {
            use_type_invariant(&*self);
        }
        if self.exclude_folder(name, path_text) {
            false
        } else {
            let mut waiting: VecDeque<PathToScan> = VecDeque::new();
            core::mem::swap(&mut waiting, &mut self.folders);
            let ghost before = waiting@;
            waiting.push_back(path_to_scan);
            proof {
                assert forall|i: int| 0 <= i < before.len() implies (#[trigger] waiting@[i])
                    == before[i] by {}
            }
            core::mem::swap(&mut waiting, &mut self.folders);
            true
        }
    }

    /// Takes in what the reader of the file system reports and says what
    /// it is to do next.
    pub fn step(&mut self, event: WalkEvent) -> (action: WalkAction)
        ensures
            final(self).rules() == old(self).rules(),
            (final(self).state(), action) == walk_step(old(self).rules(), old(self).state(), event),
            breadth_first(final(self).state(), final(self).rules().options.find_depth),
    {
        proof {
            use_type_invariant(&*self);
        }
        match self.phase {
            Phase::Idle => {},
            Phase::Opening(depth) => {
                match event {
                    WalkEvent::Opened => {
                        self.phase = Phase::Open(depth);
                        return WalkAction::ReadEntry;
                    },
                    _ => {
                        self.phase = Phase::Idle;
                    },
                }
            },
            Phase::Open(depth) => {
                match event {
                    WalkEvent::EndOfFolder => {
                        self.phase = Phase::Idle;
                    },
                    WalkEvent::Entry(entry) => {
                        match entry.kind {
                            EntryKind::Folder => {
                                // only go deeper if allowed
                                if self.go_deeper() {
                                    let DirEntryInfo { path, name, path_text, .. } = entry;
                                    self.push_folder(
                                        PathToScan::new(path, depth + 1),
                                        &name,
                                        &path_text,
                                    );
                                    proof {
                                        use_type_invariant(&*self);
                                    }
                                }
                                return WalkAction::ReadEntry;
                            },
                            _ => {
                                if self.return_file(&entry) {
                                    return WalkAction::Yield(entry.path);
                                }
                                return WalkAction::ReadEntry;
                            },
                        }
                    },
                    _ => {
                        return WalkAction::ReadEntry;
                    },
                }
            },
        }
        let ghost waiting = self.state().queue;
        let action = match self.next_folder() {
            None => WalkAction::Finished,
            Some(unit) => {
                proof {
                    use_type_invariant(&*self);
                    assert forall|i: int| 0 <= i < self.folders@.len() implies (
                    #[trigger] self.folders@[i]) == waiting[i + 1] by {}
                }
                self.phase = Phase::Opening(unit.depth);
                WalkAction::OpenFolder(unit.path)
            },
        };
        proof {
            use_type_invariant(&*self);
        }
        action
    }

    /// Whether the file is handed out: a regular file that is asked for,
    /// or not pruned if no files were asked for, and that passes the time
    /// and size filters.
    pub fn return_file(&self, entry: &DirEntryInfo) -> (handed_out: bool)
        ensures
            handed_out == (entry.kind == EntryKind::RegularFile && verdict_of(self.rules(), 0, *entry)
                == EntryVerdict::Candidate),
    {
        match entry.kind {
            EntryKind::RegularFile => self.entry_verdict(0, entry) == EntryVerdict::Candidate,
            _ => false,
        }
    }
}

} // verus!
