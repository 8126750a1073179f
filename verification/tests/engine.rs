use runner::host::HostOs;
use runner::scripts::runner::{
    check_selections, outcome_failure, run_scripts, script_command, Outcome, RunError, Step,
};

fn texts(items: &[&str]) -> Vec<String> {
    items.iter().map(|s| s.to_string()).collect()
}

fn launched_script(step: &Step) -> Option<String> {
    match step {
        Step::Launch(command) => command.args.last().cloned(),
        Step::Finished(_) => None,
    }
}

fn finished(step: &Step) -> Option<Result<(), RunError>> {
    match step {
        Step::Launch(_) => None,
        Step::Finished(result) => Some(*result),
    }
}

#[test]
fn shell_scripts_go_to_bash() {
    let command = script_command("scripts/debian/git.sh", "/tmp/work", false);
    assert_eq!(command.program, "bash");
    assert_eq!(command.args, texts(&["scripts/debian/git.sh"]));
    assert_eq!(command.work_dir, "/tmp/work");
    let on_windows = script_command("scripts/windows/w.sh", "w", true);
    assert_eq!(on_windows.program, "bash");
    assert_eq!(on_windows.args, texts(&["scripts/windows/w.sh"]));
    let no_extension = script_command("scripts/tool", "w", false);
    assert_eq!(no_extension.program, "bash");
}

#[test]
fn powershell_scripts_go_to_powershell() {
    let elsewhere = script_command("scripts/setup.ps1", "/tmp/work", false);
    assert_eq!(elsewhere.program, "pwsh");
    assert_eq!(
        elsewhere.args,
        texts(&["-ExecutionPolicy", "Bypass", "-File", "scripts/setup.ps1"])
    );
    assert_eq!(elsewhere.work_dir, "/tmp/work");
    let on_windows = script_command("scripts/setup.ps1", "w", true);
    assert_eq!(on_windows.program, "powershell");
    assert_eq!(
        on_windows.args,
        texts(&["-ExecutionPolicy", "Bypass", "-File", "scripts/setup.ps1"])
    );
}

#[test]
fn each_outcome_but_exit_code_zero_is_an_error() {
    assert_eq!(outcome_failure(4, Outcome::Exited(Some(0))), None);
    assert_eq!(
        outcome_failure(4, Outcome::Exited(Some(3))),
        Some(RunError::Execution { script: 4, exit_code: Some(3) })
    );
    assert_eq!(
        outcome_failure(4, Outcome::Exited(Some(-1))),
        Some(RunError::Execution { script: 4, exit_code: Some(-1) })
    );
    assert_eq!(
        outcome_failure(4, Outcome::Exited(None)),
        Some(RunError::Execution { script: 4, exit_code: None })
    );
    assert_eq!(outcome_failure(2, Outcome::LaunchFailed), Some(RunError::Launch { script: 2 }));
    assert_eq!(outcome_failure(2, Outcome::WaitFailed), Some(RunError::Wait { script: 2 }));
}

#[test]
fn the_first_failure_ends_the_run() {
    let scripts = texts(&["s/a.sh", "s/b.sh", "s/c.sh"]);
    let mut engine = run_scripts(&scripts, &vec![0, 1, 2], "/tmp/w", HostOs::Debian);
    assert_eq!(launched_script(&engine.step()), Some("s/a.sh".to_string()));
    engine.record(Outcome::Exited(Some(0)));
    assert_eq!(launched_script(&engine.step()), Some("s/b.sh".to_string()));
    engine.record(Outcome::Exited(Some(7)));
    assert!(!engine.is_running());
    assert_eq!(
        finished(&engine.step()),
        Some(Err(RunError::Execution { script: 1, exit_code: Some(7) }))
    );
    engine.record(Outcome::Exited(Some(0)));
    assert_eq!(
        finished(&engine.step()),
        Some(Err(RunError::Execution { script: 1, exit_code: Some(7) }))
    );
    assert_eq!(engine.completed(), 1);
    assert_eq!(engine.result(), Err(RunError::Execution { script: 1, exit_code: Some(7) }));
}

#[test]
fn scripts_run_in_the_order_of_the_selection() {
    let scripts = texts(&["s/a.sh", "s/b.sh", "s/c.ps1"]);
    let mut engine = run_scripts(&scripts, &vec![2, 0, 2], "w", HostOs::Windows);
    assert_eq!(engine.work_dir(), "w");
    let mut ran = Vec::new();
    while engine.is_running() {
        match engine.step() {
            Step::Launch(command) => ran.push((command.program, command.args.last().cloned())),
            Step::Finished(_) => panic!("the engine is running"),
        }
        engine.record(Outcome::Exited(Some(0)));
    }
    assert_eq!(
        ran,
        vec![
            ("powershell".to_string(), Some("s/c.ps1".to_string())),
            ("bash".to_string(), Some("s/a.sh".to_string())),
            ("powershell".to_string(), Some("s/c.ps1".to_string())),
        ]
    );
    assert_eq!(finished(&engine.step()), Some(Ok(())));
    assert_eq!(engine.completed(), 3);
    assert_eq!(engine.result(), Ok(()));
}

#[test]
fn a_launch_that_fails_ends_the_run_too() {
    let scripts = texts(&["s/a.sh", "s/b.sh"]);
    let mut engine = run_scripts(&scripts, &vec![1, 0], "w", HostOs::Macos);
    engine.record(Outcome::LaunchFailed);
    assert_eq!(finished(&engine.step()), Some(Err(RunError::Launch { script: 1 })));
    let mut engine = run_scripts(&scripts, &vec![1, 0], "w", HostOs::Macos);
    engine.record(Outcome::Exited(Some(0)));
    engine.record(Outcome::WaitFailed);
    assert_eq!(finished(&engine.step()), Some(Err(RunError::Wait { script: 0 })));
    let mut engine = run_scripts(&scripts, &vec![0], "w", HostOs::Macos);
    engine.record(Outcome::Exited(None));
    assert_eq!(
        finished(&engine.step()),
        Some(Err(RunError::Execution { script: 0, exit_code: None }))
    );
}

#[test]
fn an_empty_selection_is_over_at_once() {
    let scripts = texts(&["s/a.sh"]);
    let engine = run_scripts(&scripts, &Vec::new(), "w", HostOs::Debian);
    assert!(!engine.is_running());
    assert_eq!(finished(&engine.step()), Some(Ok(())));
}

#[test]
fn selections_are_checked_against_the_scripts() {
    let scripts = texts(&["s/a.sh", "s/b.sh"]);
    assert!(check_selections(&scripts, &vec![0, 1, 1]));
    assert!(check_selections(&scripts, &Vec::new()));
    assert!(!check_selections(&scripts, &vec![0, 2]));
    assert!(!check_selections(&Vec::new(), &vec![0]));
}
