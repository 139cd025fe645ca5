use rm::config::Config;
use rm::deletion::{
    is_confirmation, needs_confirmation, prompt_text, removal_for, run, suppresses_errors, Action,
    Observed, Removal,
};
use rm::mode::Modes;

fn config(list: &[&str]) -> Config {
    Config::new(list.iter().map(|a| a.to_string()).collect()).unwrap()
}

fn seen(
    metadata: Option<Result<bool, &str>>,
    answer: Option<&str>,
    removal: Option<Result<(), &str>>,
) -> Observed {
    Observed {
        metadata: metadata.map(|m| m.map_err(|e| e.to_string())),
        answer: answer.map(|a| a.as_bytes().to_vec()),
        removal: removal.map(|r| r.map_err(|e| e.to_string())),
    }
}

fn failure(a: Action) -> String {
    match a {
        Action::Fail(m) => m,
        other => panic!("expected a failure, got {:?}", other),
    }
}

#[test]
fn confirmation_accepts_only_y_lines() {
    assert!(is_confirmation(b"y\n"));
    assert!(is_confirmation(b"Y\n"));
    assert!(!is_confirmation(b"yes\n"));
    assert!(!is_confirmation(b"Yes\n"));
    assert!(!is_confirmation(b"n\n"));
    assert!(!is_confirmation(b"\n"));
    assert!(!is_confirmation(b""));
    assert!(!is_confirmation(b"y"));
    assert!(!is_confirmation(b"y\r\n"));
    assert!(!is_confirmation(b" y\n"));
}

#[test]
fn prompt_names_the_path() {
    let text = prompt_text(&"/tmp/testdir".to_string());
    assert_eq!(text, "remove directory: '/tmp/testdir'? (Y/n): ");
}

#[test]
fn mode_policies() {
    assert!(needs_confirmation(Modes::Standard));
    assert!(needs_confirmation(Modes::OnlyRecursively));
    assert!(!needs_confirmation(Modes::OnlyForce));
    assert!(!needs_confirmation(Modes::RecursivelyAndForce));
    assert!(!suppresses_errors(Modes::Standard));
    assert!(!suppresses_errors(Modes::OnlyRecursively));
    assert!(suppresses_errors(Modes::OnlyForce));
    assert!(suppresses_errors(Modes::RecursivelyAndForce));
}

#[test]
fn removal_per_mode() {
    assert_eq!(removal_for(Modes::RecursivelyAndForce, true), Removal::Tree);
    assert_eq!(removal_for(Modes::OnlyRecursively, true), Removal::Tree);
    assert_eq!(removal_for(Modes::OnlyForce, true), Removal::EmptyDirectory);
    assert_eq!(removal_for(Modes::Standard, true), Removal::EmptyDirectory);
    assert_eq!(removal_for(Modes::Standard, false), Removal::File);
    assert_eq!(removal_for(Modes::RecursivelyAndForce, false), Removal::File);
}

#[test]
fn first_step_inspects() {
    let c = config(&["-rf", "x"]);
    assert!(matches!(run(&c, &seen(None, None, None)), Action::Inspect));
}

#[test]
fn recursive_directory_confirmed_is_removed() {
    let c = config(&["-r", "/tmp/testdir"]);
    assert!(matches!(run(&c, &seen(Some(Ok(true)), None, None)), Action::Confirm));
    let step = run(&c, &seen(Some(Ok(true)), Some("y\n"), None));
    assert!(matches!(step, Action::Remove(Removal::Tree)));
    let end = run(&c, &seen(Some(Ok(true)), Some("y\n"), Some(Ok(()))));
    assert!(matches!(end, Action::Done));
}

#[test]
fn declined_file_is_canceled() {
    let c = config(&["myfile.txt"]);
    assert!(matches!(run(&c, &seen(Some(Ok(false)), None, None)), Action::Confirm));
    let end = run(&c, &seen(Some(Ok(false)), Some("n\n"), None));
    assert_eq!(failure(end), "Operation canceled");
}

#[test]
fn other_answers_cancel() {
    let c = config(&["-r", "d"]);
    for answer in ["yes\n", "Yes\n", "\n", "n\n", "y\r\n"] {
        let end = run(&c, &seen(Some(Ok(true)), Some(answer), None));
        assert_eq!(failure(end), "Operation canceled");
    }
}

#[test]
fn uppercase_y_confirms_file() {
    let c = config(&["notes.txt"]);
    let step = run(&c, &seen(Some(Ok(false)), Some("Y\n"), None));
    assert!(matches!(step, Action::Remove(Removal::File)));
}

#[test]
fn force_on_nonempty_directory_still_succeeds() {
    let c = config(&["-f", "/tmp/nonempty_dir"]);
    let step = run(&c, &seen(Some(Ok(true)), None, None));
    assert!(matches!(step, Action::Remove(Removal::EmptyDirectory)));
    let end = run(&c, &seen(Some(Ok(true)), None, Some(Err("directory not empty"))));
    assert!(matches!(end, Action::Done));
}

#[test]
fn force_swallows_missing_path() {
    let c = config(&["-rf", "/nowhere"]);
    let end = run(&c, &seen(Some(Err("entity not found")), None, None));
    assert!(matches!(end, Action::Done));
}

#[test]
fn standard_reports_missing_path() {
    let c = config(&["/nowhere"]);
    let end = run(&c, &seen(Some(Err("entity not found")), None, None));
    assert_eq!(failure(end), "entity not found");
}

#[test]
fn standard_reports_removal_error() {
    let c = config(&["dir"]);
    let step = run(&c, &seen(Some(Ok(true)), Some("y\n"), None));
    assert!(matches!(step, Action::Remove(Removal::EmptyDirectory)));
    let end = run(&c, &seen(Some(Ok(true)), Some("y\n"), Some(Err("permission denied"))));
    assert_eq!(failure(end), "permission denied");
}

#[test]
fn recursive_force_removes_tree_without_asking() {
    let c = config(&["-r", "-f", "tree"]);
    let step = run(&c, &seen(Some(Ok(true)), None, None));
    assert!(matches!(step, Action::Remove(Removal::Tree)));
}
