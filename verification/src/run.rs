//! What a nextflow run log says of the run, and which work folders a run no
//! longer uses.

use vstd::prelude::*;
use crate::pattern::Pattern;
use crate::size::{human_bytes, human_count_bytes};
use vstd::utf8::{encode_utf8, decode_utf8, is_char_boundary, is_ascii_chars, pop_first_scalar};
use vstd::string::StringSliceAdditionalSpecFns;
use crate::utils::{spec_extract_simple, spec_extract_two, try_extract_regex_simple,
    try_extract_regex_two, line_views, opt_view, lemma_extract_two_match};
use crate::pattern::regex_captures;

verus! {

/// Why a run could not be read or cleaned.
#[derive(Debug)]
pub enum PlungerRunError {
    /// Reading the log failed.
    Io(std::io::Error),
    /// The log names no run or no work directory.
    MissingInfoInLog,
    /// A path in the work directory is not valid UTF-8.
    ErrorDirString,
}

/// How the run got the result of a task.
#[derive(Debug, Clone, Copy, PartialEq, Eq, Structural)]
pub enum TaskType {
    /// Taken from an earlier run.
    Cached,
    /// Computed by this run.
    Submitted,
}

/// A task of a run: its process name, how it ran, and its short work folder
/// `xx/yyyyyy`.
#[derive(Debug)]
pub struct Task {
    /// The process of the task.
    pub _name: String,
    /// How the run got its result.
    pub _task_type: TaskType,
    /// Its work folder, `xx/yyyyyy`.
    pub _mini_path: String,
}

/// A nextflow run as its log describes it.
#[derive(Debug)]
pub struct Run {
    /// The run name.
    pub code: String,
    /// The work directory of the pipeline.
    pub work_dir: String,
    /// The log that was read.
    pub log_path: String,
    /// The tasks of the run, in the order of the log.
    pub tasks: Vec<Task>,
    /// The short work folder of each task, in the same order.
    pub minipaths: Vec<String>,
}

/// A task as plain values: name, kind, short work folder.
pub type TaskView = (Seq<char>, TaskType, Seq<char>);

impl View for Task {
    type V = TaskView;

    open spec fn view(&self) -> TaskView {
        (self._name@, self._task_type, self._mini_path@)
    }
}

/// The plain values of a sequence of tasks.
pub open spec fn task_views(tasks: Seq<Task>) -> Seq<TaskView> {
    tasks.map_values(|t: Task| t@)
}

/// What has been read of a log so far: the run name, the work directory, the tasks.
pub type LogScan = (Option<Seq<char>>, Option<Seq<char>>, Seq<TaskView>);

/// The texts of the four patterns that read a log: run name, work directory,
/// cached task, submitted task.
pub type LogPatterns = (Seq<char>, Seq<char>, Seq<char>, Seq<char>);

/// Reading one more line of the log; `None` when reading a capture group of a
/// match fails. The run name and the work directory are taken from the first
/// line that gives them; a line adds a cached task, or else a submitted task,
/// where its pattern matches (group 1: short folder, group 2: process name).
pub open spec fn scan_line(st: LogScan, line: Seq<char>, pats: LogPatterns) -> Option<LogScan> {
    let code = if st.0 is None { spec_extract_simple(pats.0, line) } else { Some(st.0) };
    let wdir = if st.1 is None { spec_extract_simple(pats.1, line) } else { Some(st.1) };
    match code {
        None => None,
        Some(code) => match wdir {
            None => None,
            Some(wdir) => match spec_extract_two(pats.2, line) {
                None => None,
                Some(Some((dir, name))) => Some((code, wdir, st.2.push((name, TaskType::Cached, dir)))),
                Some(None) => match spec_extract_two(pats.3, line) {
                    None => None,
                    Some(Some((dir, name))) => Some((code, wdir, st.2.push((name, TaskType::Submitted, dir)))),
                    Some(None) => Some((code, wdir, st.2)),
                },
            },
        },
    }
}

/// Reading the lines of a log in order, from nothing known.
pub open spec fn scan_lines(lines: Seq<Seq<char>>, pats: LogPatterns) -> Option<LogScan>
    decreases lines.len(),
{
    if lines.len() == 0 {
        Some((None, None, Seq::empty()))
    } else {
        match scan_lines(lines.drop_last(), pats) {
            None => None,
            Some(st) => scan_line(st, lines.last(), pats),
        }
    }
}

/// A log that can be read to its end can be read to any point before it.
pub proof fn lemma_scan_prefix(lines: Seq<Seq<char>>, pats: LogPatterns, n: int)
    requires
        0 <= n <= lines.len(),
        scan_lines(lines, pats) is Some,
    ensures
        scan_lines(lines.take(n), pats) is Some,
    decreases lines.len(),
{
    if n < lines.len() {
        assert(lines.drop_last().take(n) =~= lines.take(n));
        lemma_scan_prefix(lines.drop_last(), pats, n);
    } else {
        assert(lines.take(n) =~= lines);
    }
}

/// `found` is group 1 of `pattern` in the first of `lines` that matches it,
/// or `None` when none matches.
pub open spec fn first_match(lines: Seq<Seq<char>>, pattern: Seq<char>, found: Option<Seq<char>>) -> bool {
    match found {
        Some(c) => exists|k: int|
            0 <= k < lines.len() && spec_extract_simple(pattern, lines[k]) == Some(Some(c))
            && forall|j: int| 0 <= j < k ==> #[trigger] spec_extract_simple(pattern, lines[j]) == Some(None::<Seq<char>>),
        None => forall|j: int| 0 <= j < lines.len() ==> #[trigger] spec_extract_simple(pattern, lines[j]) == Some(None::<Seq<char>>),
    }
}

/// Reading one more line keeps `first_match`: what was found stays, and
/// when nothing was found yet, the new line gives what it matches.
pub proof fn lemma_first_match_extend(lines: Seq<Seq<char>>, pattern: Seq<char>, before: Option<Seq<char>>)
    requires
        lines.len() > 0,
        first_match(lines.drop_last(), pattern, before),
        before is None ==> spec_extract_simple(pattern, lines.last()) is Some,
    ensures
        first_match(lines, pattern, if before is None { spec_extract_simple(pattern, lines.last())->0 } else { before }),
{
    let prev = lines.drop_last();
    let last = lines.len() - 1;
    assert(lines[last] == lines.last());
    assert forall|j: int| 0 <= j < last implies prev[j] == lines[j] by {}
    match before {
        Some(c) => {
            let k = choose|k: int|
                0 <= k < prev.len() && spec_extract_simple(pattern, prev[k]) == Some(Some(c))
                && forall|j: int| 0 <= j < k ==> #[trigger] spec_extract_simple(pattern, prev[j]) == Some(None::<Seq<char>>);
            assert(prev[k] == lines[k]);
            assert forall|j: int| 0 <= j < k implies #[trigger] spec_extract_simple(pattern, lines[j]) == Some(None::<Seq<char>>) by {
                assert(spec_extract_simple(pattern, prev[j]) == Some(None::<Seq<char>>));
            }
        },
        None => {
            assert forall|j: int| 0 <= j < last implies #[trigger] spec_extract_simple(pattern, lines[j]) == Some(None::<Seq<char>>) by {
                assert(spec_extract_simple(pattern, prev[j]) == Some(None::<Seq<char>>));
            }
        },
    }
}

/// The run name and the work directory read from a log are group 1 of the
/// first line that matches their pattern.
pub proof fn lemma_scan_first_matches(lines: Seq<Seq<char>>, pats: LogPatterns)
    requires
        scan_lines(lines, pats) is Some,
    ensures
        first_match(lines, pats.0, (scan_lines(lines, pats)->0).0),
        first_match(lines, pats.1, (scan_lines(lines, pats)->0).1),
    decreases lines.len(),
{
    if lines.len() > 0 {
        lemma_scan_first_matches(lines.drop_last(), pats);
        let st = scan_lines(lines.drop_last(), pats)->0;
        lemma_first_match_extend(lines, pats.0, st.0);
        lemma_first_match_extend(lines, pats.1, st.1);
    }
}

/// Whether the cached-task or the submitted-task pattern matches `line`.
pub open spec fn is_task_line(line: Seq<char>, pats: LogPatterns) -> bool {
    regex_captures(pats.2, line) is Some || regex_captures(pats.3, line) is Some
}

/// How many of `lines` the cached-task or the submitted-task pattern matches.
pub open spec fn task_line_count(lines: Seq<Seq<char>>, pats: LogPatterns) -> nat
    decreases lines.len(),
{
    if lines.len() == 0 {
        0
    } else {
        task_line_count(lines.drop_last(), pats) + if is_task_line(lines.last(), pats) { 1nat } else { 0nat }
    }
}

/// Reading a line keeps the tasks read before it, and adds at most one.
proof fn lemma_scan_line_keeps(st: LogScan, line: Seq<char>, pats: LogPatterns)
    requires
        scan_line(st, line, pats) is Some,
    ensures
        (scan_line(st, line, pats)->0).2 == st.2
            || (scan_line(st, line, pats)->0).2 == st.2.push((scan_line(st, line, pats)->0).2.last()),
        (scan_line(st, line, pats)->0).2.len() == st.2.len() + if is_task_line(line, pats) { 1int } else { 0int },
{
    lemma_extract_two_match(pats.2, line);
    lemma_extract_two_match(pats.3, line);
}

/// A log read to its end has one task per task line: as many tasks as lines
/// that the cached-task or the submitted-task pattern matches.
pub proof fn lemma_scan_task_count(lines: Seq<Seq<char>>, pats: LogPatterns)
    requires
        scan_lines(lines, pats) is Some,
    ensures
        (scan_lines(lines, pats)->0).2.len() == task_line_count(lines, pats),
    decreases lines.len(),
{
    if lines.len() > 0 {
        lemma_scan_task_count(lines.drop_last(), pats);
        lemma_scan_line_keeps(scan_lines(lines.drop_last(), pats)->0, lines.last(), pats);
    }
}

/// The tasks that the lines of a log name, in order: for each line that the
/// cached-task pattern matches, its process (group 2) as a cached task with
/// its short folder (group 1); for each other line that the submitted-task
/// pattern matches, its process as a submitted task.
pub open spec fn log_tasks(lines: Seq<Seq<char>>, pats: LogPatterns) -> Seq<TaskView>
    decreases lines.len(),
{
    if lines.len() == 0 {
        Seq::empty()
    } else {
        let before = log_tasks(lines.drop_last(), pats);
        match regex_captures(pats.2, lines.last()) {
            Some(g) => before.push((g[2]->0, TaskType::Cached, g[1]->0)),
            None => match regex_captures(pats.3, lines.last()) {
                Some(g) => before.push((g[2]->0, TaskType::Submitted, g[1]->0)),
                None => before,
            },
        }
    }
}

/// The tasks read from a log are exactly the tasks its lines name, in the
/// order of the log, whatever the lines before them.
pub proof fn lemma_scan_tasks_in_order(lines: Seq<Seq<char>>, pats: LogPatterns)
    requires
        scan_lines(lines, pats) is Some,
    ensures
        (scan_lines(lines, pats)->0).2 == log_tasks(lines, pats),
    decreases lines.len(),
{
    if lines.len() > 0 {
        lemma_scan_tasks_in_order(lines.drop_last(), pats);
        lemma_extract_two_match(pats.2, lines.last());
        lemma_extract_two_match(pats.3, lines.last());
    }
}

/// Every task line of the log gives a task of the run, whatever came before
/// it: when the cached-task pattern matches line `k` with its two groups
/// (short folder, process), the tasks read contain that process as a cached
/// task with that folder; when it does not match and the submitted-task
/// pattern does, they contain the process as a submitted task.
pub proof fn lemma_scan_keeps_every_task(lines: Seq<Seq<char>>, pats: LogPatterns, k: int)
    requires
        scan_lines(lines, pats) is Some,
        0 <= k < lines.len(),
    ensures
        regex_captures(pats.2, lines[k]) matches Some(g) ==> (g.len() == 3 && g[1] is Some && g[2] is Some
            ==> (scan_lines(lines, pats)->0).2.contains((g[2]->0, TaskType::Cached, g[1]->0))),
        regex_captures(pats.2, lines[k]) is None ==> (regex_captures(pats.3, lines[k]) matches Some(g)
            ==> (g.len() == 3 && g[1] is Some && g[2] is Some
            ==> (scan_lines(lines, pats)->0).2.contains((g[2]->0, TaskType::Submitted, g[1]->0)))),
    decreases lines.len(),
{
    let prev = lines.drop_last();
    let st = scan_lines(prev, pats)->0;
    let after = (scan_lines(lines, pats)->0).2;
    lemma_scan_line_keeps(st, lines.last(), pats);
    if k == lines.len() - 1 {
        assert(lines[k] == lines.last());
        lemma_extract_two_match(pats.2, lines.last());
        lemma_extract_two_match(pats.3, lines.last());
        if is_task_line(lines.last(), pats) {
            assert(after[st.2.len() as int] == after.last());
        }
    } else {
        assert(prev[k] == lines[k]);
        lemma_scan_keeps_every_task(prev, pats, k);
        assert forall|x: TaskView| st.2.contains(x) implies after.contains(x) by {
            let i = choose|i: int| 0 <= i < st.2.len() && st.2[i] == x;
            assert(after[i] == x);
        }
    }
}

/// The run that a fully read log describes, when it names both the run and
/// the work directory.
pub open spec fn run_of_scan(st: LogScan) -> Option<(Seq<char>, Seq<char>, Seq<TaskView>)> {
    match st {
        (Some(code), Some(wdir), tasks) => Some((code, wdir, tasks)),
        _ => None,
    }
}

impl Run {
    /// The tasks as plain values.
    pub open spec fn task_views(&self) -> Seq<TaskView> {
        task_views(self.tasks@)
    }

    /// The short work folders as plain values.
    pub open spec fn minipath_views(&self) -> Seq<Seq<char>> {
        line_views(self.minipaths@)
    }

    /// The short work folders are those of the tasks, in order.
    pub open spec fn minipaths_match_tasks(&self) -> bool {
        &&& self.minipaths@.len() == self.tasks@.len()
        &&& forall|i: int| 0 <= i < self.tasks@.len() ==> #[trigger] self.minipaths@[i]@ == self.tasks@[i]._mini_path@
    }

    /// Reads `lines`, the lines of the log at `log_path` in order, with the
    /// four patterns, and builds the run; `None` when reading a capture group
    /// of a match fails.
    fn scan_log(
        log_path: &str,
        lines: &Vec<String>,
        regex_code: &Pattern,
        regex_wdir: &Pattern,
        regex_task_cached: &Pattern,
        regex_task_submitted: &Pattern,
    ) -> (r: Option<Result<Run, PlungerRunError>>)
        ensures
            match scan_lines(line_views(lines@), (regex_code@, regex_wdir@, regex_task_cached@, regex_task_submitted@)) {
                None => r is None,
                Some(st) => match run_of_scan(st) {
                    None => r matches Some(Err(PlungerRunError::MissingInfoInLog)),
                    Some((code, wdir, tasks)) => r matches Some(Ok(run))
                        && run.code@ == code && run.work_dir@ == wdir && run.log_path@ == log_path@
                        && run.task_views() == tasks && run.minipaths_match_tasks(),
                },
            },
    {
        let ghost pats = (regex_code@, regex_wdir@, regex_task_cached@, regex_task_submitted@);
        let ghost all = line_views(lines@);
        let mut code: Option<String> = None;
        let mut wkdir: Option<String> = None;
        let mut tasks: Vec<Task> = Vec::new();
        let mut minipaths: Vec<String> = Vec::new();
        let mut i: usize = 0;
        assert(all.take(0) =~= Seq::<Seq<char>>::empty());
        while i < lines.len()
            invariant
                pats == (regex_code@, regex_wdir@, regex_task_cached@, regex_task_submitted@),
                all == line_views(lines@),
                i <= lines.len(),
                scan_lines(all.take(i as int), pats) == Some((opt_view(code), opt_view(wkdir), task_views(tasks@))),
                minipaths@.len() == tasks@.len(),
                forall|k: int| 0 <= k < tasks@.len() ==> #[trigger] minipaths@[k]@ == tasks@[k]._mini_path@,
            decreases lines.len() - i,
        {
            let line = &lines[i];
            let ghost before = scan_lines(all.take(i as int), pats)->0;
            assert(all.take(i + 1).drop_last() =~= all.take(i as int));
            assert(all.take(i + 1).last() == line@);
            if code.is_none() {
                match try_extract_regex_simple(regex_code, line) {
                    None => {
                        proof {
                            if scan_lines(all, pats) is Some {
                                lemma_scan_prefix(all, pats, i + 1);
                            }
                        }
                        return None;
                    },
                    Some(found) => {
                        code = found;
                    },
                }
            }
            if wkdir.is_none() {
                match try_extract_regex_simple(regex_wdir, line) {
                    None => {
                        proof {
                            if scan_lines(all, pats) is Some {
                                lemma_scan_prefix(all, pats, i + 1);
                            }
                        }
                        return None;
                    },
                    Some(found) => {
                        wkdir = found;
                    },
                }
            }
            let ghost old_tasks = tasks@;
            match try_extract_regex_two(regex_task_cached, line) {
                None => {
                    proof {
                        if scan_lines(all, pats) is Some {
                            lemma_scan_prefix(all, pats, i + 1);
                        }
                    }
                    return None;
                },
                Some(Some((dir, name))) => {
                    tasks.push(Task { _name: name, _task_type: TaskType::Cached, _mini_path: dir.clone() });
                    minipaths.push(dir);
                },
                Some(None) => match try_extract_regex_two(regex_task_submitted, line) {
                    None => {
                        proof {
                            if scan_lines(all, pats) is Some {
                                lemma_scan_prefix(all, pats, i + 1);
                            }
                        }
                        return None;
                    },
                    Some(Some((dir, name))) => {
                        tasks.push(Task { _name: name, _task_type: TaskType::Submitted, _mini_path: dir.clone() });
                        minipaths.push(dir);
                    },
                    Some(None) => {},
                },
            }
            proof {
                let after = scan_line(before, line@, pats)->0;
                assert(task_views(tasks@) =~= after.2);
            }
            i = i + 1;
        }
        assert(all.take(i as int) =~= all);
        match (code, wkdir) {
            (Some(cd), Some(wd)) => Some(Ok(Run {
                code: cd,
                work_dir: wd,
                log_path: log_path.to_owned(),
                tasks,
                minipaths,
            })),
            _ => Some(Err(PlungerRunError::MissingInfoInLog)),
        }
    }

    /// The run that the log at `log_path` describes, from `lines`, its lines
    /// in order (each with its line ending), read with four patterns: run name
    /// (group 1), work directory (group 1), cached task and submitted task
    /// (group 1: short work folder, group 2: process name). Fails when the log
    /// names no run or no work directory.
    pub fn new_frompath(
        log_path: &str,
        lines: &Vec<String>,
        regex_code: &Pattern,
        regex_wdir: &Pattern,
        regex_task_cached: &Pattern,
        regex_task_submitted: &Pattern,
    ) -> (r: Result<Run, PlungerRunError>)
        requires
            scan_lines(line_views(lines@), (regex_code@, regex_wdir@, regex_task_cached@, regex_task_submitted@)) is Some,
        ensures
            match run_of_scan(scan_lines(line_views(lines@), (regex_code@, regex_wdir@, regex_task_cached@, regex_task_submitted@))->0) {
                None => r matches Err(PlungerRunError::MissingInfoInLog),
                Some((code, wdir, tasks)) => r matches Ok(run)
                    && run.code@ == code && run.work_dir@ == wdir && run.log_path@ == log_path@
                    && run.task_views() == tasks && run.minipaths_match_tasks()
                    && run.task_views() == log_tasks(line_views(lines@),
                        (regex_code@, regex_wdir@, regex_task_cached@, regex_task_submitted@)),
            },
    {
        proof {
            lemma_scan_tasks_in_order(line_views(lines@), (regex_code@, regex_wdir@, regex_task_cached@, regex_task_submitted@));
        }
        match Self::scan_log(log_path, lines, regex_code, regex_wdir, regex_task_cached, regex_task_submitted) {
            Some(r) => r,
            None => Err(PlungerRunError::MissingInfoInLog),
        }
    }

    /// `None` when reading a capture group of a match fails while reading the
    /// log; else `Some` of what `new_frompath` returns.
    pub fn try_new_frompath(
        log_path: &str,
        lines: &Vec<String>,
        regex_code: &Pattern,
        regex_wdir: &Pattern,
        regex_task_cached: &Pattern,
        regex_task_submitted: &Pattern,
    ) -> (r: Option<Result<Run, PlungerRunError>>)
        ensures
            match scan_lines(line_views(lines@), (regex_code@, regex_wdir@, regex_task_cached@, regex_task_submitted@)) {
                None => r is None,
                Some(st) => match run_of_scan(st) {
                    None => r matches Some(Err(PlungerRunError::MissingInfoInLog)),
                    Some((code, wdir, tasks)) => r matches Some(Ok(run))
                        && run.code@ == code && run.work_dir@ == wdir && run.log_path@ == log_path@
                        && run.task_views() == tasks && run.minipaths_match_tasks(),
                },
            },
    {
        match Self::scan_log(log_path, lines, regex_code, regex_wdir, regex_task_cached, regex_task_submitted) {
            None => None,
            Some(_) => Some(Self::new_frompath(
                log_path, lines, regex_code, regex_wdir, regex_task_cached, regex_task_submitted,
            )),
        }
    }
}

/// A path met while walking a work directory, as plain values.
pub struct WalkEntry {
    /// Whether the path is the work directory itself.
    pub is_work_dir: bool,
    /// Its last component: `None` when it has none, `Some(None)` when that is
    /// not valid UTF-8.
    pub file_name: Option<Option<String>>,
    /// Its parent, when it has one.
    pub parent: Option<WalkParent>,
}

/// The parent of a path met while walking a work directory.
pub struct WalkParent {
    /// Whether the parent is the work directory itself.
    pub is_work_dir: bool,
    /// The parent's last component, when it has one that is valid UTF-8.
    pub name: Option<String>,
    /// The parent joined with the path's last component, when that is valid
    /// UTF-8.
    pub joined: Option<String>,
}

/// What to do with a path of the work directory.
#[derive(Debug)]
pub enum CleanAction {
    /// Not a task folder.
    Skip,
    /// A task folder of the run, at this path.
    Keep(String),
    /// A task folder of no task of the run, at this path.
    Purge(String),
}

/// What to do with a path of the work directory, as plain values.
pub enum CleanDecision {
    Skip,
    Keep(Seq<char>),
    Purge(Seq<char>),
    /// A name on the way is not valid UTF-8.
    NotUtf8,
    /// The first six bytes of the folder name do not end on a character.
    CannotCut,
}

/// The name of the folder that holds a path, or the empty name.
pub open spec fn parent_name(p: WalkParent) -> Seq<char> {
    match p.name {
        Some(n) => n@,
        None => Seq::empty(),
    }
}

/// The short work folder `xx/yyyyyy` of a task folder `name` inside `main`:
/// `main`, a slash, the first six bytes of `name`.
pub open spec fn short_folder(main: Seq<char>, name: Seq<char>) -> Seq<char> {
    main + seq!['/'] + decode_utf8(encode_utf8(name).subrange(0, 6))
}

/// What to do with `e`, for a run whose short work folders are `minipaths`.
/// Only the folders two levels below the work directory whose parent has a
/// two-byte name are task folders.
pub open spec fn spec_clean_decision(minipaths: Seq<Seq<char>>, e: WalkEntry) -> CleanDecision {
    if e.is_work_dir {
        CleanDecision::Skip
    } else {
        match (e.file_name, e.parent) {
            (Some(fname), Some(p)) => if p.is_work_dir {
                CleanDecision::Skip
            } else {
                match fname {
                    None => CleanDecision::NotUtf8,
                    Some(f) => if encode_utf8(parent_name(p)).len() != 2 {
                        CleanDecision::Skip
                    } else if !is_char_boundary(encode_utf8(f@), 6) {
                        CleanDecision::CannotCut
                    } else {
                        match p.joined {
                            None => CleanDecision::NotUtf8,
                            Some(full) => if minipaths.contains(short_folder(parent_name(p), f@)) {
                                CleanDecision::Keep(full@)
                            } else {
                                CleanDecision::Purge(full@)
                            },
                        }
                    },
                }
            },
            _ => CleanDecision::Skip,
        }
    }
}

/// Cleaning spares the run: only a folder two levels below the work
/// directory, inside a folder with a two-byte name, is kept or purged, and it
/// is purged exactly when its short work folder is none of the run's.
pub proof fn lemma_clean_spares_run(minipaths: Seq<Seq<char>>, e: WalkEntry)
    ensures
        match spec_clean_decision(minipaths, e) {
            CleanDecision::Keep(_) | CleanDecision::Purge(_) => !e.is_work_dir
                && (e.file_name matches Some(Some(f)) && e.parent matches Some(p)
                    && !p.is_work_dir
                    && encode_utf8(parent_name(p)).len() == 2
                    && (spec_clean_decision(minipaths, e) is Keep
                        <==> minipaths.contains(short_folder(parent_name(p), f@)))),
            _ => true,
        },
{
}

/// Every task folder of no task of the run is purged, whatever its parent's
/// two-byte name: a path two levels below the work directory, in a folder
/// with a two-byte name, whose short work folder is none of `minipaths`, is
/// decided `Purge` with its full path. A path is skipped only when it is the
/// work directory, lies directly in it, has no name or no parent, or its
/// parent's name is not two bytes long.
pub proof fn lemma_clean_purges_unused(minipaths: Seq<Seq<char>>, e: WalkEntry)
    ensures
        e.file_name matches Some(Some(f)) ==> (e.parent matches Some(p) ==> (p.joined matches Some(full) ==> (
            !e.is_work_dir && !p.is_work_dir
            && encode_utf8(parent_name(p)).len() == 2
            && is_char_boundary(encode_utf8(f@), 6)
            && !minipaths.contains(short_folder(parent_name(p), f@))
            ==> spec_clean_decision(minipaths, e) == CleanDecision::Purge(full@)))),
        spec_clean_decision(minipaths, e) is Skip ==> (e.is_work_dir || e.file_name is None || e.parent is None
            || (e.parent->0).is_work_dir
            || (e.file_name matches Some(Some(f)) && encode_utf8(parent_name(e.parent->0)).len() != 2)),
{
}

/// Encoding two texts one after the other gives their two encodings one
/// after the other.
proof fn lemma_encode_utf8_append(a: Seq<char>, b: Seq<char>)
    ensures
        encode_utf8(a + b) == encode_utf8(a) + encode_utf8(b),
    decreases a.len(),
{
    if a.len() > 0 {
        assert((a + b).drop_first() =~= a.drop_first() + b);
        assert((a + b)[0] == a[0]);
        lemma_encode_utf8_append(a.drop_first(), b);
        assert(encode_utf8(a + b) =~= encode_utf8(a) + encode_utf8(b));
    } else {
        assert(a + b =~= b);
        assert(encode_utf8(a) + encode_utf8(b) =~= encode_utf8(b));
    }
}

/// A character ends where the encoding of a text's first part ends.
proof fn lemma_boundary_after(a: Seq<char>, b: Seq<char>)
    ensures
        is_char_boundary(encode_utf8(a + b), encode_utf8(a).len() as int),
    decreases a.len(),
{
    broadcast use vstd::utf8::group_utf8_lib;
    if a.len() > 0 {
        let c = a + b;
        assert(c.drop_first() =~= a.drop_first() + b);
        assert(c[0] == a[0]);
        vstd::utf8::encode_utf8_first_scalar(c);
        assert(pop_first_scalar(encode_utf8(c)) =~= encode_utf8(c.drop_first()));
        lemma_encode_utf8_append(a, b);
        lemma_encode_utf8_append(a.drop_first(), b);
        lemma_boundary_after(a.drop_first(), b);
    }
}

/// The short work folder of a folder whose name begins with six ASCII
/// characters (as the hash folders of nextflow do) is its parent's name, a
/// slash and those six characters, and the name can be cut there.
pub proof fn lemma_short_folder_ascii(main: Seq<char>, name: Seq<char>)
    requires
        name.len() >= 6,
        is_ascii_chars(name.take(6)),
    ensures
        is_char_boundary(encode_utf8(name), 6),
        short_folder(main, name) == main + seq!['/'] + name.take(6),
{
    broadcast use vstd::utf8::group_utf8_lib;
    let t = name.take(6);
    let rest = name.skip(6);
    assert(name =~= t + rest);
    lemma_encode_utf8_append(t, rest);
    lemma_boundary_after(t, rest);
    assert(encode_utf8(t).len() == 6);
    assert(encode_utf8(name).subrange(0, 6) =~= encode_utf8(t));
}

/// Cleaning keeps the folders of the run's tasks and purges the others: for
/// a path two levels below the work directory, inside a folder with a
/// two-byte name, whose name begins with six ASCII characters, the decision
/// is `Keep` of its full path when the parent's name, a slash and those six
/// characters are a short work folder of the run, and `Purge` of its full
/// path otherwise.
pub proof fn lemma_clean_by_hash_prefix(minipaths: Seq<Seq<char>>, e: WalkEntry)
    ensures
        e.file_name matches Some(Some(f)) ==> (e.parent matches Some(p) ==> (p.joined matches Some(full) ==> (
            !e.is_work_dir && !p.is_work_dir
            && encode_utf8(parent_name(p)).len() == 2
            && f@.len() >= 6 && is_ascii_chars(f@.take(6))
            ==> spec_clean_decision(minipaths, e) == if minipaths.contains(parent_name(p) + seq!['/'] + f@.take(6)) {
                CleanDecision::Keep(full@)
            } else {
                CleanDecision::Purge(full@)
            }))),
{
    if let Some(Some(f)) = e.file_name {
        if let Some(p) = e.parent {
            if f@.len() >= 6 && is_ascii_chars(f@.take(6)) {
                lemma_short_folder_ascii(parent_name(p), f@);
            }
        }
    }
}

/// The paths of `entries` that a cleaning for `minipaths` leaves in place
/// (all but those decided `Purge`), in order.
pub open spec fn kept_entries(minipaths: Seq<Seq<char>>, entries: Seq<WalkEntry>) -> Seq<WalkEntry>
    decreases entries.len(),
{
    if entries.len() == 0 {
        Seq::empty()
    } else if spec_clean_decision(minipaths, entries.last()) is Purge {
        kept_entries(minipaths, entries.drop_last())
    } else {
        kept_entries(minipaths, entries.drop_last()).push(entries.last())
    }
}

/// Cleaning twice purges nothing the second time: every path that a
/// cleaning leaves in place is one of the paths it met, and a cleaning that
/// reads the same log decides none of them `Purge` (a folder it kept is kept
/// again). When the first cleaning met no name it could not read or cut, the
/// second one skips or keeps every path.
pub proof fn lemma_clean_again(minipaths: Seq<Seq<char>>, entries: Seq<WalkEntry>)
    ensures
        forall|i: int| 0 <= i < kept_entries(minipaths, entries).len() ==>
            !(spec_clean_decision(minipaths, #[trigger] kept_entries(minipaths, entries)[i]) is Purge)
            && exists|j: int| 0 <= j < entries.len() && #[trigger] entries[j] == kept_entries(minipaths, entries)[i],
        (forall|j: int| 0 <= j < entries.len() ==>
            !(spec_clean_decision(minipaths, #[trigger] entries[j]) is NotUtf8)
            && !(spec_clean_decision(minipaths, entries[j]) is CannotCut))
        ==> forall|i: int| 0 <= i < kept_entries(minipaths, entries).len() ==>
            (spec_clean_decision(minipaths, #[trigger] kept_entries(minipaths, entries)[i]) is Skip
            || spec_clean_decision(minipaths, kept_entries(minipaths, entries)[i]) is Keep),
    decreases entries.len(),
{
    let kept = kept_entries(minipaths, entries);
    if entries.len() > 0 {
        let prev = entries.drop_last();
        lemma_clean_again(minipaths, prev);
        let kp = kept_entries(minipaths, prev);
        assert forall|i: int| 0 <= i < kept.len() implies
            !(spec_clean_decision(minipaths, #[trigger] kept[i]) is Purge)
            && exists|j: int| 0 <= j < entries.len() && #[trigger] entries[j] == kept[i] by {
            if i < kp.len() {
                assert(kept[i] == kp[i]);
                let j = choose|j: int| 0 <= j < prev.len() && #[trigger] prev[j] == kp[i];
                assert(entries[j] == prev[j]);
            } else {
                assert(kept[i] == entries.last());
                assert(entries[entries.len() - 1] == entries.last());
            }
        }
    }
    if forall|j: int| 0 <= j < entries.len() ==>
        !(spec_clean_decision(minipaths, #[trigger] entries[j]) is NotUtf8)
        && !(spec_clean_decision(minipaths, entries[j]) is CannotCut) {
        assert forall|i: int| 0 <= i < kept.len() implies
            (spec_clean_decision(minipaths, #[trigger] kept[i]) is Skip
            || spec_clean_decision(minipaths, kept[i]) is Keep) by {
            let j = choose|j: int| 0 <= j < entries.len() && #[trigger] entries[j] == kept[i];
            assert(!(spec_clean_decision(minipaths, entries[j]) is NotUtf8));
        }
    }
}

impl WalkEntry {
    /// Whether deciding on this path would cut a folder name where no
    /// character ends (see `spec_clean_decision`).
    pub open spec fn cannot_cut(self) -> bool {
        spec_clean_decision(Seq::empty(), self) is CannotCut
    }

    /// Whether deciding on this path would cut a folder name where no
    /// character ends.
    pub fn cut_fails(&self) -> (b: bool)
        ensures
            b == self.cannot_cut(),
    {
        broadcast use vstd::utf8::group_utf8_lib;
        if self.is_work_dir {
            return false;
        }
        match (&self.file_name, &self.parent) {
            (Some(Some(f)), Some(p)) => {
                if p.is_work_dir {
                    return false;
                }
                let main: &str = match &p.name {
                    Some(n) => n.as_str(),
                    None => "",
                };
                proof {
                    reveal_strlit("");
                }
                assert(main@ == parent_name(*p));
                if main.as_bytes().len() != 2 {
                    return false;
                }
                !f.as_str().is_char_boundary(6)
            },
            _ => false,
        }
    }
}

impl Run {
    /// What to do with a path met while walking the work directory: skip it,
    /// keep the task folder of a task of this run, or purge a task folder of
    /// no task of this run. Fails when a name on the way is not valid UTF-8.
    pub fn classify_entry(&self, entry: &WalkEntry) -> (r: Result<CleanAction, PlungerRunError>)
        requires
            !entry.cannot_cut(),
        ensures
            match spec_clean_decision(self.minipath_views(), *entry) {
                CleanDecision::Skip => r matches Ok(CleanAction::Skip),
                CleanDecision::Keep(p) => r matches Ok(CleanAction::Keep(s)) && s@ == p,
                CleanDecision::Purge(p) => r matches Ok(CleanAction::Purge(s)) && s@ == p,
                _ => r matches Err(PlungerRunError::ErrorDirString),
            },
    {
        broadcast use vstd::utf8::group_utf8_lib;
        if entry.is_work_dir {
            return Ok(CleanAction::Skip);
        }
        match (&entry.file_name, &entry.parent) {
            (Some(fname), Some(p)) => {
                if p.is_work_dir {
                    return Ok(CleanAction::Skip);
                }
                let f = match fname {
                    Some(f) => f,
                    None => {
                        return Err(PlungerRunError::ErrorDirString);
                    },
                };
                let main: &str = match &p.name {
                    Some(n) => n.as_str(),
                    None => "",
                };
                proof {
                    reveal_strlit("");
                    reveal_strlit("/");
                }
                assert(main@ == parent_name(*p));
                if main.as_bytes().len() != 2 {
                    return Ok(CleanAction::Skip);
                }
                let (head, _) = f.as_str().split_at(6);
                assert(head@ == decode_utf8(head.spec_bytes()));
                let mut mini = main.to_owned();
                mini.append("/");
                mini.append(head);
                assert(mini@ == short_folder(parent_name(*p), f@));
                let full = match &p.joined {
                    Some(full) => full,
                    None => {
                        return Err(PlungerRunError::ErrorDirString);
                    },
                };
                if self.has_minipath(&mini) {
                    Ok(CleanAction::Keep(full.clone()))
                } else {
                    Ok(CleanAction::Purge(full.clone()))
                }
            },
            _ => Ok(CleanAction::Skip),
        }
    }

    /// Whether `mini` is the short work folder of a task of this run.
    fn has_minipath(&self, mini: &String) -> (b: bool)
        ensures
            b == self.minipath_views().contains(mini@),
    {
        let mut i: usize = 0;
        while i < self.minipaths.len()
            invariant
                i <= self.minipaths@.len(),
                forall|k: int| 0 <= k < i ==> self.minipaths@[k]@ != mini@,
            decreases self.minipaths@.len() - i,
        {
            if self.minipaths[i] == *mini {
                assert(self.minipath_views()[i as int] == mini@);
                return true;
            }
            i = i + 1;
        }
        assert forall|k: int| 0 <= k < self.minipath_views().len() implies self.minipath_views()[k] != mini@ by {
            assert(self.minipath_views()[k] == self.minipaths@[k]@);
        }
        false
    }
}

/// The tally of a cleaning: whether folders are removed, and how many bytes
/// the purged folders hold.
pub struct Cleanup {
    force: bool,
    purged: u64,
    purges: Ghost<Seq<int>>,
}

/// The bytes of folders of `sizes` bytes.
pub open spec fn purge_sum(sizes: Seq<int>) -> int
    decreases sizes.len(),
{
    if sizes.len() == 0 {
        0
    } else {
        purge_sum(sizes.drop_last()) + sizes.last()
    }
}

/// The start of the report of a cleaning.
pub open spec fn clean_prefix(force: bool) -> Seq<char> {
    if force {
        seq!['P', 'u', 'r', 'g', 'e', 'd', ' ', 's', 'i', 'z', 'e', ':', ' ']
    } else {
        seq!['W', 'o', 'u', 'l', 'd', ' ', 'p', 'u', 'r', 'g', 'e', ' ', 's', 'i', 'z', 'e', ':', ' ']
    }
}

/// The report of a cleaning.
pub open spec fn clean_report(force: bool, purged: u64) -> Seq<char> {
    clean_prefix(force) + human_count_bytes(purged)
}

/// The report of a cleaning that purged `size_text`: `Purged size: ...` when
/// the folders were removed, else `Would purge size: ...`.
pub fn clean_message(force: bool, size_text: &str) -> (r: String)
    ensures
        r@ == clean_prefix(force) + size_text@,
{
    let mut r = if force {
        proof {
            reveal_strlit("Purged size: ");
        }
        String::from_str("Purged size: ")
    } else {
        proof {
            reveal_strlit("Would purge size: ");
        }
        String::from_str("Would purge size: ")
    };
    r.append(size_text);
    r
}

/// Whether or not a cleaning removes the folders it purges, after purging
/// folders of the same sizes it reports the same size: the report with
/// `force` and the one without are their own first words followed by the same
/// size text. (Which paths are purged does not depend on `force` either:
/// `spec_clean_decision` does not take it, and `Cleanup::record_purge` counts
/// the bytes of a purged folder whether or not it is removed.)
pub proof fn lemma_report_force(sizes: Seq<int>)
    requires
        0 <= purge_sum(sizes) <= u64::MAX,
    ensures
        clean_report(true, purge_sum(sizes) as u64) == clean_prefix(true) + human_count_bytes(purge_sum(sizes) as u64),
        clean_report(false, purge_sum(sizes) as u64) == clean_prefix(false) + human_count_bytes(purge_sum(sizes) as u64),
        clean_report(true, purge_sum(sizes) as u64).skip(clean_prefix(true).len() as int)
            == clean_report(false, purge_sum(sizes) as u64).skip(clean_prefix(false).len() as int),
{
    let text = human_count_bytes(purge_sum(sizes) as u64);
    assert(clean_report(true, purge_sum(sizes) as u64).skip(clean_prefix(true).len() as int) =~= text);
    assert(clean_report(false, purge_sum(sizes) as u64).skip(clean_prefix(false).len() as int) =~= text);
}

impl Cleanup {
    #[verifier::type_invariant]
    spec fn counted(self) -> bool {
        self.purged == purge_sum(self.purges@)
    }

    /// Whether purged folders are removed.
    pub closed spec fn removes(self) -> bool {
        self.force
    }

    /// The bytes in the folders purged so far.
    pub closed spec fn purged_bytes(self) -> nat {
        self.purged as nat
    }

    /// The bytes of each folder purged so far, in the order purged.
    pub closed spec fn purged_sizes(self) -> Seq<int> {
        self.purges@
    }

    /// A cleaning that removes the folders it purges when `force` holds.
    pub fn new(force: bool) -> (c: Cleanup)
        ensures
            c.removes() == force,
            c.purged_bytes() == 0,
            c.purged_sizes() == Seq::<int>::empty(),
    {
        Cleanup { force, purged: 0, purges: Ghost(Seq::empty()) }
    }

    /// The bytes in the folders purged so far.
    pub fn purged(&self) -> (n: u64)
        ensures
            n == self.purged_bytes(),
            n == purge_sum(self.purged_sizes()),
    {
        proof {
            use_type_invariant(self);
        }
        self.purged
    }

    /// Counts a purged folder of `size` bytes; tells whether to remove it.
    pub fn record_purge(&mut self, size: u64) -> (remove: bool)
        requires
            old(self).purged_bytes() + size <= u64::MAX,
        ensures
            final(self).purged_bytes() == old(self).purged_bytes() + size,
            final(self).purged_sizes() == old(self).purged_sizes().push(size as int),
            final(self).purged_bytes() == purge_sum(final(self).purged_sizes()),
            final(self).removes() == old(self).removes(),
            remove == old(self).removes(),
    {
        proof {
            use_type_invariant(&*self);
        }
        let ghost sizes = self.purges@.push(size as int);
        assert(sizes.drop_last() =~= self.purges@);
        *self = Cleanup { force: self.force, purged: self.purged + size, purges: Ghost(sizes) };
        self.force
    }

    /// `Purged size: ...` when folders were removed, else `Would purge size: ...`.
    pub fn report(&self) -> (r: String)
        ensures
            r@ == clean_report(self.removes(), self.purged_bytes() as u64),
            r@ == clean_report(self.removes(), purge_sum(self.purged_sizes()) as u64),
    {
        proof {
            use_type_invariant(self);
        }
        let size = human_bytes(self.purged);
        clean_message(self.force, size.as_str())
    }
}

} // verus!
