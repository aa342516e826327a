use plunger::task::{liberated_message, task_line};
use plunger::cli::{TASK_FILE_NAME, TASK_NAME_PATTERN};
use plunger::pattern::Pattern;
use plunger::plunger::PlungerError;
use plunger::task::{get_name_line, try_get_name_line, NameLineSearch, NameLineStep, PlungerTaskError, TaskSweep};

fn lines(ls: &[&str]) -> Vec<String> {
    ls.iter().map(|l| l.to_string()).collect()
}

fn script() -> Vec<String> {
    lines(&["#!/bin/bash -ue\n", "# NEXTFLOW TASK: A (1)\n", "### name: 'A (1)'\n", "### cpus: 1\n"])
}

#[test]
fn name_line_found() {
    let re = Pattern::new(TASK_NAME_PATTERN).unwrap();
    match get_name_line(&script(), 30, &re) {
        Ok(name) => assert_eq!(name, "A"),
        Err(e) => panic!("unexpected {:?}", e),
    }
}

#[test]
fn name_line_at_the_limit() {
    let re = Pattern::new(TASK_NAME_PATTERN).unwrap();
    assert!(matches!(get_name_line(&script(), 3, &re), Ok(ref n) if n == "A"));
    assert!(matches!(get_name_line(&script(), 2, &re), Err(PlungerTaskError::LineLimitReached)));
    assert!(matches!(get_name_line(&script(), 0, &re), Err(PlungerTaskError::LineLimitReached)));
}

#[test]
fn name_line_past_end_of_file() {
    let re = Pattern::new(TASK_NAME_PATTERN).unwrap();
    let short = lines(&["echo hi\n"]);
    assert!(matches!(get_name_line(&short, 10, &re), Err(PlungerTaskError::LineLimitReached)));
    assert!(matches!(get_name_line(&Vec::new(), 10, &re), Err(PlungerTaskError::LineLimitReached)));
}

#[test]
fn name_line_first_match_wins() {
    let re = Pattern::new(TASK_NAME_PATTERN).unwrap();
    let two = lines(&["### name: first\n", "### name: second\n"]);
    assert!(matches!(get_name_line(&two, 5, &re), Ok(ref n) if n == "first"));
}

#[test]
fn plunger_name_line() {
    let re = Pattern::new(TASK_NAME_PATTERN).unwrap();
    assert!(matches!(plunger::plunger::get_name_line(&script(), 30, &re), Ok(ref n) if n == "A"));
    assert!(matches!(plunger::plunger::get_name_line(&script(), 1, &re), Err(PlungerError::LineLimitReached)));
}

#[test]
fn try_name_line_reports_wrong_group_count() {
    let re = Pattern::new("(name):(.*)").unwrap();
    assert!(try_get_name_line(&script(), 30, &re).is_none());
    assert!(plunger::plunger::try_get_name_line(&script(), 30, &re).is_none());
    let re = Pattern::new(TASK_NAME_PATTERN).unwrap();
    assert!(matches!(try_get_name_line(&script(), 30, &re), Some(Ok(ref n)) if n == "A"));
    assert!(matches!(try_get_name_line(&script(), 1, &re), Some(Err(PlungerTaskError::LineLimitReached))));
}

#[test]
fn name_line_search_steps() {
    let re = Pattern::new(TASK_NAME_PATTERN).unwrap();
    let mut search = NameLineSearch::new(2);
    assert!(search.wants_line());
    assert!(matches!(search.feed(&"echo\n".to_string(), &re), NameLineStep::Continue));
    assert!(search.wants_line());
    assert!(matches!(search.feed(&"### name: X\n".to_string(), &re), NameLineStep::Found(ref n) if n == "X"));
    let mut search = NameLineSearch::new(1);
    assert!(matches!(search.feed(&"\n".to_string(), &re), NameLineStep::Continue));
    assert!(!search.wants_line());
    let bad = Pattern::new("(a)(b)").unwrap();
    let mut search = NameLineSearch::new(1);
    assert!(matches!(search.feed(&"ab".to_string(), &bad), NameLineStep::GroupMismatch));
}

#[test]
fn sweep_sums_sizes_per_task() {
    let mut sweep = TaskSweep::new(TASK_FILE_NAME, vec!["A".to_string()]);
    assert!(!sweep.record(&"B".to_string(), 100));
    assert_eq!(sweep.size_for(&"B".to_string()), 100);
    assert!(sweep.record(&"A".to_string(), 2000));
    sweep.record_removed();
    assert!(!sweep.record(&"B".to_string(), 300));
    assert_eq!(sweep.size_for(&"B".to_string()), 400);
    assert_eq!(sweep.size_for(&"A".to_string()), 2000);
    assert_eq!(sweep.size_for(&"C".to_string()), 0);
    assert_eq!(sweep.report_lines(), vec!["B \u{27a1}\u{fe0f} 400B".to_string(), "A \u{27a1}\u{fe0f} 2kB".to_string()]);
}

#[test]
fn sweep_deletes_only_listed_tasks() {
    let mut sweep = TaskSweep::new(TASK_FILE_NAME, vec!["A".to_string()]);
    assert!(sweep.record(&"A".to_string(), 10));
    sweep.record_removed();
    assert!(!sweep.record(&"B".to_string(), 10));
    assert!(!sweep.record(&"".to_string(), 10));
    assert_eq!(sweep.liberated(), 10);
}

#[test]
fn sweep_default_deletes_nothing_named() {
    let mut sweep = TaskSweep::new(TASK_FILE_NAME, plunger::cli::tasks_to_delete(None));
    assert!(!sweep.record(&"A".to_string(), 10));
}

#[test]
fn sweep_summary_counts_removed() {
    let mut sweep = TaskSweep::new(TASK_FILE_NAME, vec!["A".to_string()]);
    assert_eq!(sweep.summary(), "Total space liberated: 0B");
    assert!(sweep.record(&"A".to_string(), 4_290_000_000));
    assert_eq!(sweep.liberated(), 0);
    sweep.record_removed();
    assert_eq!(sweep.liberated(), 4_290_000_000);
    assert_eq!(sweep.summary(), "Total space liberated: 4.29GB");
}

#[test]
fn sweep_frees_only_folders_of_tasks_to_delete() {
    let mut sweep = TaskSweep::new(TASK_FILE_NAME, vec!["A".to_string()]);
    assert!(sweep.record(&"A".to_string(), 30));
    sweep.record_removed();
    assert!(!sweep.record(&"B".to_string(), 18));
    assert_eq!(sweep.liberated(), 30);
    assert_eq!(sweep.report_lines(), vec!["A \u{27a1}\u{fe0f} 30B".to_string(), "B \u{27a1}\u{fe0f} 18B".to_string()]);
    assert_eq!(sweep.summary(), "Total space liberated: 30B");
}

#[test]
fn sweep_again_frees_nothing() {
    let mut first = TaskSweep::new(TASK_FILE_NAME, vec!["A".to_string()]);
    assert!(first.record(&"A".to_string(), 30));
    first.record_removed();
    assert!(!first.record(&"B".to_string(), 18));
    assert!(first.record(&"A".to_string(), 5));
    first.record_removed();
    assert!(!first.record(&"C".to_string(), 7));
    let mut second = TaskSweep::new(TASK_FILE_NAME, vec!["A".to_string()]);
    assert!(!second.record(&"B".to_string(), 18));
    assert!(!second.record(&"C".to_string(), 7));
    assert_eq!(first.liberated(), 35);
    assert_eq!(second.liberated(), 0);
    assert_eq!(second.summary(), "Total space liberated: 0B");
    assert_eq!(second.size_for(&"A".to_string()), 0);
    assert_eq!(second.size_for(&"B".to_string()), first.size_for(&"B".to_string()));
    assert_eq!(second.size_for(&"C".to_string()), first.size_for(&"C".to_string()));
    assert_eq!(second.report_lines(), vec!["B \u{27a1}\u{fe0f} 18B".to_string(), "C \u{27a1}\u{fe0f} 7B".to_string()]);
}

#[test]
fn sweep_recognises_task_file() {
    let sweep = TaskSweep::new(TASK_FILE_NAME, Vec::new());
    assert!(sweep.is_task_file(Some(".command.run")));
    assert!(!sweep.is_task_file(Some(".command.sh")));
    assert!(!sweep.is_task_file(None));
}

#[test]
fn readme_task_report_sizes() {
    let mut sweep = TaskSweep::new(TASK_FILE_NAME, Vec::new());
    let _ = sweep.record(&"B".to_string(), 38_200);
    let _ = sweep.record(&"C".to_string(), 37_700);
    let _ = sweep.record(&"A".to_string(), 12_880_000_000);
    assert_eq!(
        sweep.report_lines(),
        vec![
            "B \u{27a1}\u{fe0f} 38.2kB".to_string(),
            "C \u{27a1}\u{fe0f} 37.7kB".to_string(),
            "A \u{27a1}\u{fe0f} 12.88GB".to_string()
        ]
    );
}

#[test]
fn report_texts() {
    assert_eq!(task_line(&"B".to_string(), "12.7kB"), "B \u{27a1}\u{fe0f} 12.7kB");
    assert_eq!(liberated_message("4.29GB"), "Total space liberated: 4.29GB");
}
