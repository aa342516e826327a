use plunger::utils::{group_one, groups_one_two};
use plunger::cli::{CACHED_TASK_PATTERN, SUBMITTED_TASK_PATTERN, TASK_NAME_PATTERN};
use plunger::pattern::Pattern;
use plunger::utils::{extract_regex_simple, extract_regex_two, try_extract_regex_simple, try_extract_regex_two};

#[test]
fn invalid_pattern_is_refused() {
    assert!(Pattern::new("foo(bar").is_err());
    assert!(Pattern::new(r"\w{1000}").is_err());
}

#[test]
fn valid_pattern_compiles() {
    assert!(Pattern::new(TASK_NAME_PATTERN).is_ok());
    assert!(Pattern::new(CACHED_TASK_PATTERN).is_ok());
}

#[test]
fn simple_extract_reads_group_one() {
    let re = Pattern::new(TASK_NAME_PATTERN).unwrap();
    let line = "### name: 'A (1)'\n".to_string();
    assert_eq!(extract_regex_simple(&re, &line), Some("A".to_string()));
    let line = "### name:   B_process\n".to_string();
    assert_eq!(extract_regex_simple(&re, &line), Some("B_process".to_string()));
}

#[test]
fn simple_extract_without_match() {
    let re = Pattern::new(TASK_NAME_PATTERN).unwrap();
    let line = "#!/bin/bash\n".to_string();
    assert_eq!(extract_regex_simple(&re, &line), None);
    assert_eq!(extract_regex_simple(&re, &String::new()), None);
}

#[test]
fn two_extract_reads_both_groups() {
    let re = Pattern::new(SUBMITTED_TASK_PATTERN).unwrap();
    let line = "Nov-19 12:00:01.000 [Task submitter] INFO  nextflow.Session - [17/db3ef8] Submitted process > A (1)\n".to_string();
    assert_eq!(extract_regex_two(&re, &line), Some(("17/db3ef8".to_string(), "A".to_string())));
    let other = "Nov-19 12:00:01.000 [main] DEBUG nextflow.Session - Session start\n".to_string();
    assert_eq!(extract_regex_two(&re, &other), None);
}

#[test]
fn try_extract_reports_wrong_group_count() {
    let re = Pattern::new("(a)(b)").unwrap();
    assert_eq!(try_extract_regex_simple(&re, &"ab".to_string()), None);
    assert_eq!(try_extract_regex_simple(&re, &"xy".to_string()), Some(None));
    let re = Pattern::new("(a)").unwrap();
    assert_eq!(try_extract_regex_two(&re, &"a".to_string()), None);
    assert_eq!(try_extract_regex_two(&re, &"z".to_string()), Some(None));
}

#[test]
fn try_extract_reports_absent_group() {
    let re = Pattern::new("(a)?b").unwrap();
    assert_eq!(try_extract_regex_simple(&re, &"b".to_string()), None);
    assert_eq!(try_extract_regex_simple(&re, &"ab".to_string()), Some(Some("a".to_string())));
    let re = Pattern::new("(a)(c)?b").unwrap();
    assert_eq!(try_extract_regex_two(&re, &"ab".to_string()), None);
    assert_eq!(
        try_extract_regex_two(&re, &"acb".to_string()),
        Some(Some(("a".to_string(), "c".to_string())))
    );
}

#[test]
fn group_one_of_given_groups() {
    assert_eq!(group_one(None), Some(None));
    assert_eq!(
        group_one(Some(vec![Some("### name: A".to_string()), Some("A".to_string())])),
        Some(Some("A".to_string()))
    );
    assert_eq!(group_one(Some(vec![Some("b".to_string()), None])), None);
    assert_eq!(group_one(Some(vec![Some("ab".to_string())])), None);
    assert_eq!(
        group_one(Some(vec![Some("ab".to_string()), Some("a".to_string()), Some("b".to_string())])),
        None
    );
}

#[test]
fn groups_one_two_of_given_groups() {
    assert_eq!(groups_one_two(None), Some(None));
    assert_eq!(
        groups_one_two(Some(vec![Some("x".to_string()), Some("17/db3ef8".to_string()), Some("A".to_string())])),
        Some(Some(("17/db3ef8".to_string(), "A".to_string())))
    );
    assert_eq!(groups_one_two(Some(vec![Some("x".to_string()), Some("a".to_string()), None])), None);
    assert_eq!(groups_one_two(Some(vec![Some("x".to_string()), Some("a".to_string())])), None);
}
