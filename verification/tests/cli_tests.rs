use plunger::cli::{tasks_to_delete, work_dir_to_sweep, Cli, Commands, LogLevel};

fn cli(verbose: bool, debug: bool) -> Cli {
    Cli { command: Commands::Clean { logfile: ".nextflow.log".to_string(), force: false }, debug, verbose }
}

#[test]
fn log_levels() {
    assert_eq!(cli(true, true).log_level(), LogLevel::Trace);
    assert_eq!(cli(false, true).log_level(), LogLevel::Debug);
    assert_eq!(cli(true, false).log_level(), LogLevel::Info);
    assert_eq!(cli(false, false).log_level(), LogLevel::Off);
}

#[test]
fn default_tasks_to_delete() {
    assert_eq!(tasks_to_delete(None), vec![String::new()]);
    assert_eq!(tasks_to_delete(Some(vec!["A".to_string()])), vec!["A".to_string()]);
}

#[test]
fn work_dir_argument_takes_the_place_of_the_option() {
    assert_eq!(work_dir_to_sweep("./work".to_string(), None), "./work");
    assert_eq!(work_dir_to_sweep("./work".to_string(), Some("/scratch/work".to_string())), "/scratch/work");
}
