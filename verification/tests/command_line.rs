use hxy::background::{init, submit, BackgroundPool, DEFAULT_WORKERS};
use hxy::cli::Cli;

fn line(args: &[&str]) -> Vec<String> {
    args.iter().map(|a| a.to_string()).collect()
}

#[test]
fn files_are_taken_from_the_command_line() {
    let cli = Cli::parse_args(line(&["hxy", "a.bin", "dir/b.bin"]), "1.2.3").ok().unwrap();
    assert_eq!(cli.files, vec!["a.bin", "dir/b.bin"]);
    let none = Cli::parse_args(line(&["hxy"]), "1.2.3").ok().unwrap();
    assert!(none.files.is_empty());
    let dashed = Cli::parse_args(line(&["hxy", "--", "--odd"]), "1.2.3").ok().unwrap();
    assert_eq!(dashed.files, vec!["--odd"]);
}

#[test]
fn a_wrong_command_line_is_told() {
    let stop = Cli::parse_args(line(&["hxy", "--nonsense"]), "1.2.3").err().unwrap();
    assert!(stop.mistake);
    assert!(stop.text.contains("--nonsense"));
}

#[test]
fn the_version_is_told() {
    let stop = Cli::parse_args(line(&["hxy", "--version"]), "1.2.3").err().unwrap();
    assert!(!stop.mistake);
    assert_eq!(stop.text.trim(), "hxy 1.2.3");
}

#[test]
fn only_existing_files_are_opened() {
    let cli = Cli { files: line(&["a", "b", "c"]) };
    let found = vec![Some("/x/a".to_owned()), None, Some("/x/c".to_owned())];
    assert_eq!(cli.resolved_files(found), vec!["/x/a", "/x/c"]);
}

#[test]
fn jobs_reach_the_workers_in_order() {
    let mut started = init::<u32>();
    assert_eq!(started.names, vec!["hxy-bg-0", "hxy-bg-1"]);
    assert_eq!(started.names.len(), DEFAULT_WORKERS);
    assert!(submit(&mut started.pool, 7).is_none());
    assert!(submit(&mut started.pool, 8).is_none());
    let rx = started.rx.into_receiver();
    assert_eq!(rx.recv(), Ok(7));
    assert_eq!(rx.recv(), Ok(8));
}

#[test]
fn a_job_comes_back_without_workers() {
    let mut started = BackgroundPool::<&str>::new(1);
    drop(started.rx);
    assert_eq!(submit(&mut started.pool, "lost"), Some("lost"));
    assert_eq!(started.pool.dispatch("again"), Some("again"));
}

#[test]
fn an_empty_path_is_refused() {
    for args in [vec!["hxy", ""], vec!["hxy", "a", ""], vec!["hxy", "--", ""]] {
        let stop = Cli::parse_args(line(&args), "1.2.3").err().unwrap();
        assert!(stop.mistake);
    }
    let cli = Cli::parse_args(line(&["hxy", " "]), "1.2.3").ok().unwrap();
    assert_eq!(cli.files, vec![" "]);
}
