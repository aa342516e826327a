//! The command line of plunger, and what its options mean.

use vstd::prelude::*;

verus! {

/// The pattern of a log line of a task that the run took from an earlier run:
/// group 1 is its short work folder, group 2 its process.
pub const CACHED_TASK_PATTERN: &'static str = r"nextflow.processor.TaskProcessor - \[(\S{2}/[0-9a-f]+)\] Cached process > (\S+)";

/// The pattern of a log line of a task that the run submitted: group 1 is its
/// short work folder, group 2 its process.
pub const SUBMITTED_TASK_PATTERN: &'static str = r"INFO  nextflow.Session - \[(\S{2}/[0-9a-f]+)\] Submitted process > (\S+)";

/// The pattern of the log line that names the run (group 1).
pub const RUN_NAME_PATTERN: &'static str = r"DEBUG nextflow.Session - Run name: ([a-z]+_[a-z]+)";

/// The pattern of the log line that names the work directory (group 1).
pub const WORK_DIR_PATTERN: &'static str = r"DEBUG nextflow.Session - Work-dir: (\S+)";

/// The file of a task folder that names its task.
pub const TASK_FILE_NAME: &'static str = ".command.run";

/// The pattern of the line of a task file that names the task (group 1).
pub const TASK_NAME_PATTERN: &'static str = r"### name:\s*'?([^\s']+)";

/// The options of plunger.
pub struct Cli {
    /// What to do.
    pub command: Commands,
    /// Debug output.
    pub debug: bool,
    /// Verbose output.
    pub verbose: bool,
}

/// What plunger does.
pub enum Commands {
    /// Measure the task folders of a work directory per process, and remove
    /// those of some processes.
    Task {
        /// The work directory to sweep (the `--workdir` option).
        workdir: String,
        /// The work directory given as an argument, which takes the place of
        /// `workdir`.
        dir: Option<String>,
        /// The file of a task folder that names its task.
        file: String,
        /// The processes whose folders are removed.
        tasks: Option<Vec<String>>,
        /// How many lines of each task file are read at most.
        limit_lines: usize,
    },
    /// Purge the task folders that the last run did not use.
    Clean {
        /// The log of the run.
        logfile: String,
        /// Whether the folders are removed.
        force: bool,
    },
}

/// How much is logged.
#[derive(Debug, Clone, Copy, PartialEq, Eq, Structural)]
pub enum LogLevel {
    Trace,
    Debug,
    Info,
    Off,
}

/// The level for the verbose and debug options: both give everything, debug
/// alone debug messages, verbose alone information, neither nothing.
pub open spec fn spec_log_level(verbose: bool, debug: bool) -> LogLevel {
    match (verbose, debug) {
        (true, true) => LogLevel::Trace,
        (false, true) => LogLevel::Debug,
        (true, false) => LogLevel::Info,
        (false, false) => LogLevel::Off,
    }
}

impl Cli {
    /// How much is logged.
    pub fn log_level(&self) -> (l: LogLevel)
        ensures
            l == spec_log_level(self.verbose, self.debug),
    {
        match (self.verbose, self.debug) {
            (true, true) => LogLevel::Trace,
            (false, true) => LogLevel::Debug,
            (true, false) => LogLevel::Info,
            (false, false) => LogLevel::Off,
        }
    }
}

/// The work directory to sweep: the one given as an argument, else the one
/// of the `--workdir` option.
pub fn work_dir_to_sweep(workdir: String, dir: Option<String>) -> (r: String)
    ensures
        r@ == match dir {
            Some(d) => d@,
            None => workdir@,
        },
{
    match dir {
        Some(d) => d,
        None => workdir,
    }
}

/// The processes whose folders are removed: those given, or else the single
/// empty name, which no process has.
pub fn tasks_to_delete(tasks: Option<Vec<String>>) -> (r: Vec<String>)
    ensures
        match tasks {
            Some(t) => r@ == t@,
            None => r@.len() == 1 && r@[0]@ == Seq::<char>::empty(),
        },
{
    match tasks {
        Some(t) => t,
        None => {
            let mut r = Vec::new();
            r.push(String::new());
            r
        },
    }
}

} // verus!
