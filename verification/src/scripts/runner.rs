//! The execution engine: which script runs next, with which interpreter, and
//! how the run ends.
//!
//! The engine starts no process itself. It says which command to launch, the
//! caller launches it, waits for it and reports how it ended, and the engine
//! goes on from there. Scripts run one at a time, in the order in which they
//! were selected, and the first one that fails ends the run.

use vstd::prelude::*;
use vstd::string::*;
use crate::host::HostOs;
use crate::scripts::paths::{extension, path_extension};
use crate::text::{copy_texts, str_eq};

verus! {

/// How one launch ended.
#[derive(Clone, Copy, PartialEq, Eq, Debug)]
pub enum Outcome {
    /// The process ran and ended, with its exit code where it has one (a
    /// process that a signal ended has none).
    Exited(Option<i32>),
    /// The interpreter could not be started.
    LaunchFailed,
    /// The process was started, but waiting for it failed.
    WaitFailed,
}

/// Why a run failed. A script is named by its index among the collected
/// scripts.
#[derive(Clone, Copy, PartialEq, Eq, Debug)]
pub enum RunError {
    /// The interpreter for the script could not be started.
    Launch { script: usize },
    /// Waiting for the script failed.
    Wait { script: usize },
    /// The script ended with an exit code other than zero, or with none.
    Execution { script: usize, exit_code: Option<i32> },
    /// The working directory could not be created.
    WorkDir,
    /// Every script succeeded, but the working directory could not be removed.
    Cleanup,
}

/// A command to launch: a program, its arguments, and the directory to run it
/// in.
#[derive(Debug)]
pub struct Command {
    pub program: String,
    pub args: Vec<String>,
    pub work_dir: String,
}

/// A command as texts.
pub struct CommandView {
    pub program: Seq<char>,
    pub args: Seq<Seq<char>>,
    pub work_dir: Seq<char>,
}

impl View for Command {
    type V = CommandView;

    open spec fn view(&self) -> CommandView {
        CommandView {
            program: self.program@,
            args: self.args.deep_view(),
            work_dir: self.work_dir@,
        }
    }
}

/// What the engine asks for.
#[derive(Debug)]
pub enum Step {
    /// Launch this command, and record how it ended.
    Launch(Command),
    /// The run is over, with this result.
    Finished(Result<(), RunError>),
}

/// What the engine asks for, as texts.
pub enum StepView {
    Launch(CommandView),
    Finished(Result<(), RunError>),
}

impl View for Step {
    type V = StepView;

    open spec fn view(&self) -> StepView {
        match self {
            Step::Launch(command) => StepView::Launch(command@),
            Step::Finished(result) => StepView::Finished(*result),
        }
    }
}

/// Whether a path names a PowerShell script: its extension is `ps1`.
pub open spec fn is_powershell(script: Seq<char>) -> bool {
    extension(script) == Some("ps1"@)
}

/// The command that runs a script. A PowerShell script goes to PowerShell
/// (`powershell` on a Windows host, `pwsh` elsewhere) with
/// `-ExecutionPolicy Bypass -File` before its path. Every other script goes to
/// `bash`, with its path as the only argument.
pub open spec fn command_for(script: Seq<char>, work_dir: Seq<char>, windows: bool) -> CommandView {
    if is_powershell(script) {
        CommandView {
            program: if windows {
                "powershell"@
            } else {
                "pwsh"@
            },
            args: seq!["-ExecutionPolicy"@, "Bypass"@, "-File"@, script],
            work_dir,
        }
    } else {
        CommandView { program: "bash"@, args: seq![script], work_dir }
    }
}

/// Whether a launch ended in success: the process ended with exit code zero.
pub open spec fn is_success(outcome: Outcome) -> bool {
    outcome == Outcome::Exited(Some(0i32))
}

/// The error that an outcome of a script stands for, if it is one.
pub open spec fn failure_of(script: usize, outcome: Outcome) -> Option<RunError> {
    if is_success(outcome) {
        None
    } else {
        Some(
            match outcome {
                Outcome::Exited(code) => RunError::Execution { script, exit_code: code },
                Outcome::LaunchFailed => RunError::Launch { script },
                Outcome::WaitFailed => RunError::Wait { script },
            },
        )
    }
}

/// The state of a run: the scripts, the selected ones, how many of these have
/// succeeded, and the failure that ended the run, if one did.
pub struct EngineView {
    pub scripts: Seq<Seq<char>>,
    pub selections: Seq<usize>,
    pub work_dir: Seq<char>,
    pub windows: bool,
    pub position: nat,
    pub failure: Option<RunError>,
}

impl EngineView {
    /// Every selection names a script, and a run that failed did so at one of
    /// them.
    pub open spec fn wf(self) -> bool {
        &&& self.position <= self.selections.len()
        &&& forall|i: int|
            0 <= i < self.selections.len() ==> (#[trigger] self.selections[i]) < self.scripts.len()
        &&& self.failure is Some ==> self.position < self.selections.len()
    }

    /// The state before anything ran.
    pub open spec fn fresh(
        scripts: Seq<Seq<char>>,
        selections: Seq<usize>,
        work_dir: Seq<char>,
        windows: bool,
    ) -> EngineView {
        EngineView { scripts, selections, work_dir, windows, position: 0, failure: None }
    }

    /// The script that is to run now, while there is one.
    pub open spec fn current(self) -> Option<usize> {
        if self.failure is None && self.position < self.selections.len() {
            Some(self.selections[self.position as int])
        } else {
            None
        }
    }

    /// The result of a run that is over.
    pub open spec fn result(self) -> Result<(), RunError> {
        match self.failure {
            Some(e) => Err(e),
            None => Ok(()),
        }
    }

    /// What the engine asks for in this state.
    pub open spec fn step(self) -> StepView {
        match self.current() {
            Some(script) => StepView::Launch(
                command_for(self.scripts[script as int], self.work_dir, self.windows),
            ),
            None => StepView::Finished(self.result()),
        }
    }

    /// The state after the current script ended with `outcome`. A run that is
    /// over stays as it is.
    pub open spec fn record(self, outcome: Outcome) -> EngineView {
        match self.current() {
            Some(script) => match failure_of(script, outcome) {
                Some(e) => EngineView { failure: Some(e), ..self },
                None => EngineView { position: self.position + 1, ..self },
            },
            None => self,
        }
    }

    /// The state after the outcomes were recorded, one after the other.
    pub open spec fn after(self, outcomes: Seq<Outcome>) -> EngineView
        decreases outcomes.len(),
    {
        if outcomes.len() == 0 {
            self
        } else {
            self.record(outcomes[0]).after(outcomes.drop_first())
        }
    }

    /// The scripts that ran while the outcomes were recorded, in the order in
    /// which they ran. An outcome that is recorded when the run is over
    /// belongs to no script.
    pub open spec fn launched(self, outcomes: Seq<Outcome>) -> Seq<usize>
        decreases outcomes.len(),
    {
        if outcomes.len() == 0 {
            Seq::empty()
        } else {
            match self.current() {
                Some(script) => seq![script] + self.record(outcomes[0]).launched(
                    outcomes.drop_first(),
                ),
                None => Seq::empty(),
            }
        }
    }
}

/// A run of selected scripts.
pub struct Engine {
    scripts: Vec<String>,
    selections: Vec<usize>,
    work_dir: String,
    windows: bool,
    position: usize,
    failure: Option<RunError>,
}

impl View for Engine {
    type V = EngineView;

    closed spec fn view(&self) -> EngineView {
        EngineView {
            scripts: self.scripts.deep_view(),
            selections: self.selections@,
            work_dir: self.work_dir@,
            windows: self.windows,
            position: self.position as nat,
            failure: self.failure,
        }
    }
}

/// The command that runs a script.
pub fn script_command(script: &str, work_dir: &str, windows: bool) -> (command: Command)
    ensures
        command@ == command_for(script@, work_dir@, windows),
{
    let powershell = match path_extension(script) {
        Some(ext) => str_eq(ext.as_str(), "ps1"),
        None => false,
    };
    let mut args: Vec<String> = Vec::new();
    let program = if powershell {
        args.push(String::from_str("-ExecutionPolicy"));
        args.push(String::from_str("Bypass"));
        args.push(String::from_str("-File"));
        if windows {
            String::from_str("powershell")
        } else {
            String::from_str("pwsh")
        }
    } else {
        String::from_str("bash")
    };
    args.push(String::from_str(script));
    let command = Command { program, args, work_dir: String::from_str(work_dir) };
    assert(command@.args =~= command_for(script@, work_dir@, windows).args);
    command
}

/// The error that an outcome of a script stands for, if it is one.
pub fn outcome_failure(script: usize, outcome: Outcome) -> (failure: Option<RunError>)
    ensures
        failure == failure_of(script, outcome),
{
    match outcome {
        Outcome::Exited(Some(0)) => None,
        Outcome::Exited(code) => Some(RunError::Execution { script, exit_code: code }),
        Outcome::LaunchFailed => Some(RunError::Launch { script }),
        Outcome::WaitFailed => Some(RunError::Wait { script }),
    }
}

impl Engine {
    /// What the engine asks for: the command of the script that is to run now,
    /// or the result of the run where it is over.
    pub fn step(&self) -> (step: Step)
        requires
            self@.wf(),
        ensures
            step@ == self@.step(),
    {
        if self.failure.is_none() && self.position < self.selections.len() {
            let script = self.selections[self.position];
            assert(self.scripts.deep_view()[script as int] == self.scripts[script as int]@);
            Step::Launch(
                script_command(self.scripts[script].as_str(), self.work_dir.as_str(), self.windows),
            )
        } else {
            match self.failure {
                Some(e) => Step::Finished(Err(e)),
                None => Step::Finished(Ok(())),
            }
        }
    }

    /// Records how the current script ended. Success moves on to the next
    /// selected script. Anything else ends the run with the error that the
    /// outcome stands for. Where the run is over already, nothing changes.
    pub fn record(&mut self, outcome: Outcome)
        requires
            old(self)@.wf(),
        ensures
            final(self)@ == old(self)@.record(outcome),
            final(self)@.wf(),
    {
        if self.failure.is_none() && self.position < self.selections.len() {
            let script = self.selections[self.position];
            match outcome_failure(script, outcome) {
                Some(e) => {
                    self.failure = Some(e);
                },
                None => {
                    self.position = self.position + 1;
                },
            }
        }
    }

    /// Whether the run goes on: a script is to run now.
    pub fn is_running(&self) -> (running: bool)
        ensures
            running == self@.current() is Some,
    {
        self.failure.is_none() && self.position < self.selections.len()
    }

    /// The result of the run: its failure, or success where none occurred.
    pub fn result(&self) -> (result: Result<(), RunError>)
        ensures
            result == self@.result(),
    {
        match self.failure {
            Some(e) => Err(e),
            None => Ok(()),
        }
    }

    /// The directory in which the scripts run.
    pub fn work_dir(&self) -> (dir: String)
        ensures
            dir@ == self@.work_dir,
    {
        self.work_dir.clone()
    }

    /// How many of the selected scripts have succeeded.
    pub fn completed(&self) -> (count: usize)
        ensures
            count == self@.position,
    {
        self.position
    }
}

/// Whether every selection names one of `count` scripts.
pub open spec fn valid_selections(selections: Seq<usize>, count: nat) -> bool {
    forall|i: int| 0 <= i < selections.len() ==> (#[trigger] selections[i]) < count
}

/// Whether every selection names a script.
pub fn check_selections(scripts: &Vec<String>, selections: &Vec<usize>) -> (valid: bool)
    ensures
        valid == valid_selections(selections@, scripts@.len()),
{
    for i in 0..selections.len()
        invariant
            forall|j: int| 0 <= j < i ==> (#[trigger] selections@[j]) < scripts@.len(),
    {
        if selections[i] >= scripts.len() {
            return false;
        }
    }
    true
}

/// Prepares the run of the selected scripts, in the order of `selections`,
/// each in the directory `temp_dir`. Nothing has run yet.
pub fn run_scripts(
    scripts: &Vec<String>,
    selections: &Vec<usize>,
    temp_dir: &str,
    os_type: HostOs,
) -> (engine: Engine)
    requires
        valid_selections(selections@, scripts@.len()),
    ensures
        engine@ == EngineView::fresh(
            scripts.deep_view(),
            selections@,
            temp_dir@,
            os_type.is_windows(),
        ),
        engine@.wf(),
{
    let mut chosen: Vec<usize> = Vec::new();
    for i in 0..selections.len()
        invariant
            chosen@ == selections@.take(i as int),
    {
        chosen.push(selections[i]);
        assert(selections@.take(i + 1) =~= selections@.take(i as int).push(selections@[i as int]));
    }
    assert(selections@.take(selections@.len() as int) =~= selections@);
    Engine {
        scripts: copy_texts(scripts),
        selections: chosen,
        work_dir: String::from_str(temp_dir),
        windows: os_type.windows(),
        position: 0,
        failure: None,
    }
}

/// A run that is over stays over: further outcomes change nothing and belong
/// to no script.
pub proof fn lemma_over_stays_over(e: EngineView, outcomes: Seq<Outcome>)
    requires
        e.current() is None,
    ensures
        e.after(outcomes) == e,
        e.launched(outcomes) == Seq::<usize>::empty(),
    decreases outcomes.len(),
{
    if outcomes.len() > 0 {
        lemma_over_stays_over(e, outcomes.drop_first());
    }
}

/// The first failure ends the run. Where the first `k` outcomes are successes
/// and the next one is not, exactly the `k + 1` selected scripts from the
/// current one on have run, in the order of the selection. The run is over, its
/// error names the script that failed, and no later outcome changes that.
pub proof fn lemma_first_failure_ends_run(e: EngineView, outcomes: Seq<Outcome>, k: int)
    requires
        e.wf(),
        e.failure is None,
        0 <= k < outcomes.len(),
        e.position + k < e.selections.len(),
        forall|i: int| 0 <= i < k ==> is_success(#[trigger] outcomes[i]),
        !is_success(outcomes[k]),
    ensures
        e.launched(outcomes) == e.selections.subrange(e.position as int, e.position + k + 1),
        e.after(outcomes).current() is None,
        e.after(outcomes).position == e.position + k,
        e.after(outcomes).failure == failure_of(e.selections[e.position + k], outcomes[k]),
        e.after(outcomes).failure is Some,
    decreases k,
{
    let next = e.record(outcomes[0]);
    let rest = outcomes.drop_first();
    if k == 0 {
        lemma_over_stays_over(next, rest);
        assert(e.launched(outcomes) =~= e.selections.subrange(
            e.position as int,
            e.position as int + 1,
        ));
    } else {
        assert(is_success(outcomes[0]));
        assert forall|i: int| 0 <= i < k - 1 implies is_success(#[trigger] rest[i]) by {
            assert(is_success(outcomes[i + 1]));
        }
        lemma_first_failure_ends_run(next, rest, k - 1);
        assert(e.launched(outcomes) =~= e.selections.subrange(
            e.position as int,
            e.position + k + 1,
        ));
    }
}

/// Where every script succeeds, all selected scripts from the current one on
/// have run, in the order of the selection, and the run ends well.
pub proof fn lemma_success_runs_all(e: EngineView, outcomes: Seq<Outcome>)
    requires
        e.wf(),
        e.failure is None,
        outcomes.len() >= e.selections.len() - e.position,
        forall|i: int|
            0 <= i < e.selections.len() - e.position ==> is_success(#[trigger] outcomes[i]),
    ensures
        e.launched(outcomes) == e.selections.skip(e.position as int),
        e.after(outcomes).current() is None,
        e.after(outcomes).result() == Ok::<(), RunError>(()),
    decreases e.selections.len() - e.position,
{
    if e.position == e.selections.len() {
        lemma_over_stays_over(e, outcomes);
        assert(e.selections.skip(e.position as int) =~= Seq::<usize>::empty());
    } else {
        let next = e.record(outcomes[0]);
        let rest = outcomes.drop_first();
        assert(is_success(outcomes[0]));
        assert forall|i: int| 0 <= i < next.selections.len() - next.position implies is_success(
            #[trigger] rest[i],
        ) by {
            assert(is_success(outcomes[i + 1]));
        }
        lemma_success_runs_all(next, rest);
        assert(e.launched(outcomes) =~= e.selections.skip(e.position as int));
    }
}

} // verus!
