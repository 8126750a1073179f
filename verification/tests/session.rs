use runner::scripts::fs::{create_temp_dir, temp_dir_for};
use runner::host::HostOs;
use runner::scripts::runner::{Outcome, RunError};
use runner::cli::commands::execute_scripts;
use runner::scripts::session::{exit_code, Action, Event, RunReport, Session};

fn texts(items: &[&str]) -> Vec<String> {
    items.iter().map(|s| s.to_string()).collect()
}

/// Runs a session to its end, answering each launch with the next outcome.
/// Returns what the session asked for, in short, and its report.
fn drive(
    mut session: Session,
    created: bool,
    outcomes: &[Outcome],
    removed: bool,
) -> (Vec<String>, RunReport) {
    let mut asked = Vec::new();
    let mut next_outcome = 0;
    loop {
        let event = match session.action() {
            Action::CreateWorkDir(dir) => {
                asked.push(format!("create {}", dir));
                if created {
                    Event::WorkDirCreated
                } else {
                    Event::WorkDirFailed
                }
            }
            Action::Launch(command) => {
                asked.push(format!(
                    "{} {} in {}",
                    command.program,
                    command.args.join(" "),
                    command.work_dir
                ));
                let outcome = outcomes[next_outcome];
                next_outcome += 1;
                Event::ScriptEnded(outcome)
            }
            Action::RemoveWorkDir(dir) => {
                asked.push(format!("remove {}", dir));
                if removed {
                    Event::WorkDirRemoved
                } else {
                    Event::WorkDirKept
                }
            }
            Action::Finish(report) => return (asked, report),
        };
        session.advance(event);
    }
}

const OK: Outcome = Outcome::Exited(Some(0));

#[test]
fn a_failing_script_stops_the_run_and_the_directory_is_removed() {
    let scripts = texts(&["s/a.sh", "s/b.sh", "s/c.sh"]);
    let session = Session::new(&scripts, &vec![0, 1, 2], "/tmp/w", HostOs::Debian);
    let (asked, report) = drive(session, true, &[OK, Outcome::Exited(Some(2)), OK], true);
    assert_eq!(
        asked,
        texts(&["create /tmp/w", "bash s/a.sh in /tmp/w", "bash s/b.sh in /tmp/w", "remove /tmp/w"])
    );
    assert_eq!(
        report,
        RunReport {
            result: Err(RunError::Execution { script: 1, exit_code: Some(2) }),
            cleanup_failed: false
        }
    );
    assert_eq!(exit_code(&report), 1);
}

#[test]
fn a_successful_run_removes_the_directory_and_ends_well() {
    let scripts = texts(&["s/a.sh", "s/b.ps1"]);
    let session = Session::new(&scripts, &vec![1, 0], "/tmp/w", HostOs::Macos);
    let (asked, report) = drive(session, true, &[OK, OK], true);
    assert_eq!(
        asked,
        texts(&[
            "create /tmp/w",
            "pwsh -ExecutionPolicy Bypass -File s/b.ps1 in /tmp/w",
            "bash s/a.sh in /tmp/w",
            "remove /tmp/w"
        ])
    );
    assert_eq!(report, RunReport { result: Ok(()), cleanup_failed: false });
    assert_eq!(exit_code(&report), 0);
}

#[test]
fn a_directory_that_stays_is_an_error_of_its_own() {
    let scripts = texts(&["s/a.sh"]);
    let session = Session::new(&scripts, &vec![0], "/tmp/w", HostOs::Debian);
    let (asked, report) = drive(session, true, &[OK], false);
    assert_eq!(asked, texts(&["create /tmp/w", "bash s/a.sh in /tmp/w", "remove /tmp/w"]));
    assert_eq!(report, RunReport { result: Err(RunError::Cleanup), cleanup_failed: true });
    assert_eq!(exit_code(&report), 1);
}

#[test]
fn a_directory_that_stays_does_not_hide_a_failed_script() {
    let scripts = texts(&["s/a.sh", "s/b.sh"]);
    let session = Session::new(&scripts, &vec![0, 1], "/tmp/w", HostOs::Debian);
    let (asked, report) = drive(session, true, &[Outcome::LaunchFailed], false);
    assert_eq!(asked, texts(&["create /tmp/w", "bash s/a.sh in /tmp/w", "remove /tmp/w"]));
    assert_eq!(
        report,
        RunReport { result: Err(RunError::Launch { script: 0 }), cleanup_failed: true }
    );
}

#[test]
fn nothing_runs_where_the_directory_cannot_be_created() {
    let scripts = texts(&["s/a.sh"]);
    let session = Session::new(&scripts, &vec![0], "/tmp/w", HostOs::Debian);
    let (asked, report) = drive(session, false, &[], true);
    assert_eq!(asked, texts(&["create /tmp/w"]));
    assert_eq!(report, RunReport { result: Err(RunError::WorkDir), cleanup_failed: false });
    assert_eq!(exit_code(&report), 1);
}

#[test]
fn an_empty_selection_asks_for_nothing() {
    let scripts = texts(&["s/a.sh"]);
    let session = Session::new(&scripts, &Vec::new(), "/tmp/w", HostOs::Debian);
    assert_eq!(session.report(), Some(RunReport { result: Ok(()), cleanup_failed: false }));
    let (asked, report) = drive(session, true, &[], true);
    assert!(asked.is_empty());
    assert_eq!(report, RunReport { result: Ok(()), cleanup_failed: false });
    assert_eq!(exit_code(&report), 0);
    let (asked, report) = drive(execute_scripts(&scripts, &Vec::new(), HostOs::Other), true, &[], true);
    assert!(asked.is_empty());
    assert_eq!(report.result, Ok(()));
}

#[test]
fn events_that_answer_nothing_change_nothing() {
    let scripts = texts(&["s/a.sh"]);
    let mut session = Session::new(&scripts, &vec![0], "/tmp/w", HostOs::Debian);
    session.advance(Event::ScriptEnded(OK));
    session.advance(Event::WorkDirRemoved);
    assert_eq!(session.report(), None);
    assert!(matches!(session.action(), Action::CreateWorkDir(_)));
    session.advance(Event::WorkDirCreated);
    session.advance(Event::WorkDirCreated);
    session.advance(Event::WorkDirKept);
    assert!(matches!(session.action(), Action::Launch(_)));
    session.advance(Event::ScriptEnded(OK));
    session.advance(Event::ScriptEnded(Outcome::LaunchFailed));
    assert!(matches!(session.action(), Action::RemoveWorkDir(_)));
    session.advance(Event::WorkDirRemoved);
    session.advance(Event::WorkDirKept);
    assert_eq!(session.report(), Some(RunReport { result: Ok(()), cleanup_failed: false }));
}

#[test]
fn a_session_of_its_own_gets_a_fresh_directory_below_tmp() {
    let scripts = texts(&["s/a.sh"]);
    let session = execute_scripts(&scripts, &vec![0], HostOs::Debian);
    let (asked, report) = drive(session, true, &[OK], true);
    assert_eq!(report.result, Ok(()));
    assert_eq!(asked.len(), 3);
    let dir = asked[0].strip_prefix("create ").unwrap().to_string();
    assert!(dir.starts_with("/tmp/script-runner-"));
    assert_eq!(asked[1], format!("bash s/a.sh in {}", dir));
    assert_eq!(asked[2], format!("remove {}", dir));
}

#[test]
fn temp_dir_names_carry_a_uuid() {
    assert_eq!(temp_dir_for("abc"), "/tmp/script-runner-abc");
    let first = create_temp_dir();
    let second = create_temp_dir();
    assert_ne!(first, second);
    for path in [first, second] {
        let token = path.strip_prefix("/tmp/script-runner-").unwrap();
        assert_eq!(token.len(), 36);
        assert!(token.chars().all(|c| c == '-' || c.is_ascii_digit() || ('a'..='f').contains(&c)));
        assert_eq!(token.chars().filter(|c| *c == '-').count(), 4);
    }
}
