use plunger::run::clean_message;
use plunger::cli::{CACHED_TASK_PATTERN, RUN_NAME_PATTERN, SUBMITTED_TASK_PATTERN, WORK_DIR_PATTERN};
use plunger::pattern::Pattern;
use plunger::run::{CleanAction, Cleanup, PlungerRunError, Run, Task, TaskType, WalkEntry, WalkParent};

fn patterns() -> (Pattern, Pattern, Pattern, Pattern) {
    (
        Pattern::new(RUN_NAME_PATTERN).unwrap(),
        Pattern::new(WORK_DIR_PATTERN).unwrap(),
        Pattern::new(CACHED_TASK_PATTERN).unwrap(),
        Pattern::new(SUBMITTED_TASK_PATTERN).unwrap(),
    )
}

fn log() -> Vec<String> {
    [
        "Nov-19 12:14:12.100 [main] DEBUG nextflow.cli.Launcher - $> nextflow run main.nf\n",
        "Nov-19 12:14:12.200 [main] DEBUG nextflow.Session - Run name: modest_mestorf\n",
        "Nov-19 12:14:12.300 [main] DEBUG nextflow.Session - Work-dir: /data/pipeline/work [ext2/ext3]\n",
        "Nov-19 12:14:13.000 [Actor Thread 4] INFO  nextflow.processor.TaskProcessor - [86/a3da3e] Cached process > B (1)\n",
        "Nov-19 12:14:13.100 [Task submitter] INFO  nextflow.Session - [17/db3ef8] Submitted process > A (1)\n",
        "Nov-19 12:14:14.000 [main] DEBUG nextflow.Session - Run name: other_name\n",
    ]
    .iter()
    .map(|l| l.to_string())
    .collect()
}

#[test]
fn log_gives_run() {
    let (code, wdir, cached, submitted) = patterns();
    let run = Run::new_frompath(".nextflow.log", &log(), &code, &wdir, &cached, &submitted).unwrap();
    assert_eq!(run.code, "modest_mestorf");
    assert_eq!(run.work_dir, "/data/pipeline/work");
    assert_eq!(run.log_path, ".nextflow.log");
    assert_eq!(run.tasks.len(), 2);
    assert_eq!(run.tasks[0]._name, "B");
    assert_eq!(run.tasks[0]._task_type, TaskType::Cached);
    assert_eq!(run.tasks[0]._mini_path, "86/a3da3e");
    assert_eq!(run.tasks[1]._name, "A");
    assert_eq!(run.tasks[1]._task_type, TaskType::Submitted);
    assert_eq!(run.minipaths, vec!["86/a3da3e".to_string(), "17/db3ef8".to_string()]);
}

#[test]
fn log_without_work_dir_is_refused() {
    let (code, wdir, cached, submitted) = patterns();
    let mut lines = log();
    lines.remove(2);
    let r = Run::new_frompath("x.log", &lines, &code, &wdir, &cached, &submitted);
    assert!(matches!(r, Err(PlungerRunError::MissingInfoInLog)));
    let r = Run::new_frompath("x.log", &Vec::new(), &code, &wdir, &cached, &submitted);
    assert!(matches!(r, Err(PlungerRunError::MissingInfoInLog)));
}

#[test]
fn try_log_reports_wrong_group_count() {
    let (code, wdir, cached, _) = patterns();
    let bad = Pattern::new(r"(Submitted) process").unwrap();
    assert!(Run::try_new_frompath("x.log", &log(), &code, &wdir, &cached, &bad).is_none());
    let (code, wdir, cached, submitted) = patterns();
    assert!(matches!(
        Run::try_new_frompath("x.log", &log(), &code, &wdir, &cached, &submitted),
        Some(Ok(ref run)) if run.code == "modest_mestorf"
    ));
}

fn run() -> Run {
    Run {
        code: "modest_mestorf".to_string(),
        work_dir: "/w".to_string(),
        log_path: ".nextflow.log".to_string(),
        tasks: vec![Task {
            _name: "A".to_string(),
            _task_type: TaskType::Submitted,
            _mini_path: "17/db3ef8".to_string(),
        }],
        minipaths: vec!["17/db3ef8".to_string()],
    }
}

fn entry(parent: &str, name: &str) -> WalkEntry {
    WalkEntry {
        is_work_dir: false,
        file_name: Some(Some(name.to_string())),
        parent: Some(WalkParent {
            is_work_dir: false,
            name: Some(parent.to_string()),
            joined: Some(format!("/w/{}/{}", parent, name)),
        }),
    }
}

#[test]
fn folder_of_run_is_kept() {
    let e = entry("17", "db3ef8a1b2c3d4e5f6");
    assert!(!e.cut_fails());
    assert!(matches!(run().classify_entry(&e), Ok(CleanAction::Keep(ref p)) if p == "/w/17/db3ef8a1b2c3d4e5f6"));
}

#[test]
fn folder_of_no_task_is_purged() {
    let e = entry("17", "db3ef9a1b2c3d4e5f6");
    assert!(matches!(run().classify_entry(&e), Ok(CleanAction::Purge(ref p)) if p == "/w/17/db3ef9a1b2c3d4e5f6"));
    let e = entry("18", "db3ef8a1b2");
    assert!(matches!(run().classify_entry(&e), Ok(CleanAction::Purge(_))));
}

#[test]
fn other_paths_are_skipped() {
    let work = WalkEntry { is_work_dir: true, file_name: Some(Some("w".to_string())), parent: None };
    assert!(matches!(run().classify_entry(&work), Ok(CleanAction::Skip)));
    let mut first = entry("w", "17");
    first.parent.as_mut().unwrap().is_work_dir = true;
    assert!(matches!(run().classify_entry(&first), Ok(CleanAction::Skip)));
    let long_parent = entry("conda", "envabcdef");
    assert!(matches!(run().classify_entry(&long_parent), Ok(CleanAction::Skip)));
    let root = WalkEntry { is_work_dir: false, file_name: None, parent: None };
    assert!(matches!(run().classify_entry(&root), Ok(CleanAction::Skip)));
}

#[test]
fn non_utf8_names_fail() {
    let mut e = entry("17", "db3ef8a1");
    e.file_name = Some(None);
    assert!(matches!(run().classify_entry(&e), Err(PlungerRunError::ErrorDirString)));
    let mut e = entry("17", "db3ef8a1");
    e.parent.as_mut().unwrap().joined = None;
    assert!(matches!(run().classify_entry(&e), Err(PlungerRunError::ErrorDirString)));
}

#[test]
fn short_folder_names_cannot_be_cut() {
    assert!(entry("17", "abc").cut_fails());
    assert!(entry("17", "abcde\u{e9}").cut_fails());
    assert!(!entry("17", "abcd\u{e9}").cut_fails());
    assert!(!entry("17", "abcd\u{e9}x").cut_fails());
    assert!(!entry("conda", "abc").cut_fails());
}

#[test]
fn cleanup_reports() {
    let mut c = Cleanup::new(false);
    assert_eq!(c.report(), "Would purge size: 0B");
    assert!(!c.record_purge(8_000_000_000));
    assert!(!c.record_purge(590_000_000));
    assert_eq!(c.purged(), 8_590_000_000);
    assert_eq!(c.report(), "Would purge size: 8.59GB");
    let mut c = Cleanup::new(true);
    assert!(c.record_purge(999));
    assert_eq!(c.report(), "Purged size: 999B");
}

#[test]
fn cleanup_reports_same_size_with_or_without_force() {
    let mut dry = Cleanup::new(false);
    let mut forced = Cleanup::new(true);
    for size in [8_000_000_000u64, 590_000_000] {
        assert!(!dry.record_purge(size));
        assert!(forced.record_purge(size));
    }
    assert_eq!(dry.purged(), forced.purged());
    assert_eq!(dry.report(), "Would purge size: 8.59GB");
    assert_eq!(forced.report(), "Purged size: 8.59GB");
}

#[test]
fn cleaning_again_purges_nothing() {
    let first = [("17", "db3ef8a1b2"), ("17", "db3ef9a1b2c3d4e5f6"), ("18", "db3ef8a1b2")];
    let mut kept = Vec::new();
    for (parent, name) in first.iter() {
        if !matches!(run().classify_entry(&entry(parent, name)), Ok(CleanAction::Purge(_))) {
            kept.push((*parent, *name));
        }
    }
    assert_eq!(kept, vec![("17", "db3ef8a1b2")]);
    let mut c = Cleanup::new(true);
    for (parent, name) in kept.iter() {
        if let Ok(CleanAction::Purge(_)) = run().classify_entry(&entry(parent, name)) {
            c.record_purge(1);
        }
    }
    assert_eq!(c.purged(), 0);
    assert_eq!(c.report(), "Purged size: 0B");
}

#[test]
fn clean_messages() {
    assert_eq!(clean_message(true, "8.59GB"), "Purged size: 8.59GB");
    assert_eq!(clean_message(false, "8.59GB"), "Would purge size: 8.59GB");
}
