//! A session: one run of selected scripts in a working directory of its own.
//!
//! The session touches neither the file system nor any process. It says what
//! is to be done next, the caller does it and reports what happened, and the
//! session goes on from there:
//!
//! 1. create the working directory;
//! 2. launch the selected scripts in it, one after the other, until one fails
//!    or all are done;
//! 3. remove the working directory, whether the scripts succeeded or not;
//! 4. finish, with a report.
//!
//! A session without selected scripts is finished from the start: it asks for
//! no directory and launches nothing.

use vstd::prelude::*;
use vstd::string::*;
use crate::host::HostOs;
use crate::scripts::runner::{
    command_for,
    lemma_over_stays_over,
    run_scripts,
    valid_selections,
    Command,
    CommandView,
    Engine,
    EngineView,
    Outcome,
    RunError,
    Step,
    StepView,
};

verus! {

/// How a session ended.
#[derive(Clone, Copy, PartialEq, Eq, Debug)]
pub struct RunReport {
    /// The first failure of the session, if there was one.
    pub result: Result<(), RunError>,
    /// Whether the working directory was created and could not be removed.
    pub cleanup_failed: bool,
}

/// Where a session stands.
#[derive(Clone, Copy, PartialEq, Eq, Debug)]
pub enum Phase {
    /// The working directory is to be created.
    Creating,
    /// The working directory is there, and a script is to run.
    Running,
    /// No script is left to run, and the working directory is to be removed.
    Removing,
    /// The session is over.
    Finished(RunReport),
}

/// What the caller reports to a session.
#[derive(Clone, Copy, PartialEq, Eq, Debug)]
pub enum Event {
    /// The working directory was created.
    WorkDirCreated,
    /// The working directory could not be created.
    WorkDirFailed,
    /// The launch that was asked for ended.
    ScriptEnded(Outcome),
    /// The working directory was removed.
    WorkDirRemoved,
    /// The working directory could not be removed.
    WorkDirKept,
}

/// What a session asks of the caller.
#[derive(Debug)]
pub enum Action {
    /// Create this directory, and report whether it was created.
    CreateWorkDir(String),
    /// Launch this command, wait for it, and report how it ended.
    Launch(Command),
    /// Remove this directory with all that is in it, and report whether it
    /// was removed.
    RemoveWorkDir(String),
    /// Nothing is left to do: the session is over.
    Finish(RunReport),
}

/// What a session asks for, as texts.
pub enum ActionView {
    CreateWorkDir(Seq<char>),
    Launch(CommandView),
    RemoveWorkDir(Seq<char>),
    Finish(RunReport),
}

impl View for Action {
    type V = ActionView;

    open spec fn view(&self) -> ActionView {
        match self {
            Action::CreateWorkDir(dir) => ActionView::CreateWorkDir(dir@),
            Action::Launch(command) => ActionView::Launch(command@),
            Action::RemoveWorkDir(dir) => ActionView::RemoveWorkDir(dir@),
            Action::Finish(report) => ActionView::Finish(*report),
        }
    }
}

/// The report of a session that had nothing to do, or did all of it.
pub open spec fn clean_report() -> RunReport {
    RunReport { result: Ok(()), cleanup_failed: false }
}

/// The report of a session whose scripts ended with `result`, by whether the
/// working directory was removed. A failure of a script is reported as it is.
/// Where the scripts succeeded and the directory stayed, that is the failure.
pub open spec fn report_after_cleanup(result: Result<(), RunError>, removed: bool) -> RunReport {
    RunReport {
        result: match result {
            Err(e) => Err(e),
            Ok(()) => if removed {
                Ok(())
            } else {
                Err(RunError::Cleanup)
            },
        },
        cleanup_failed: !removed,
    }
}

/// The state of a session: the run of its scripts, and where it stands.
pub struct SessionView {
    pub engine: EngineView,
    pub phase: Phase,
}

impl SessionView {
    /// The phase fits the run: a directory is asked for only before anything
    /// ran, a script is to run exactly while the session is running, and the
    /// directory is removed only when the run is over.
    pub open spec fn wf(self) -> bool {
        &&& self.engine.wf()
        &&& self.phase == Phase::Creating ==> self.engine.position == 0
            && self.engine.current() is Some
        &&& self.phase == Phase::Running ==> self.engine.current() is Some
        &&& self.phase == Phase::Removing ==> self.engine.current() is None
    }

    /// The state in which a session starts: finished where nothing is
    /// selected, about to create its working directory otherwise.
    pub open spec fn start(engine: EngineView) -> SessionView {
        SessionView {
            engine,
            phase: if engine.selections.len() == 0 {
                Phase::Finished(clean_report())
            } else {
                Phase::Creating
            },
        }
    }

    /// What the session asks for in this state.
    pub open spec fn action(self) -> ActionView {
        match self.phase {
            Phase::Creating => ActionView::CreateWorkDir(self.engine.work_dir),
            Phase::Running => match self.engine.step() {
                StepView::Launch(command) => ActionView::Launch(command),
                StepView::Finished(_) => ActionView::RemoveWorkDir(self.engine.work_dir),
            },
            Phase::Removing => ActionView::RemoveWorkDir(self.engine.work_dir),
            Phase::Finished(report) => ActionView::Finish(report),
        }
    }

    /// The state after the caller reported `event`. An event that does not
    /// answer what the session asked for changes nothing.
    pub open spec fn advance(self, event: Event) -> SessionView {
        match (self.phase, event) {
            (Phase::Creating, Event::WorkDirCreated) => SessionView {
                phase: if self.engine.current() is Some {
                    Phase::Running
                } else {
                    Phase::Removing
                },
                ..self
            },
            (Phase::Creating, Event::WorkDirFailed) => SessionView {
                phase: Phase::Finished(
                    RunReport { result: Err(RunError::WorkDir), cleanup_failed: false },
                ),
                ..self
            },
            (Phase::Running, Event::ScriptEnded(outcome)) => {
                let engine = self.engine.record(outcome);
                SessionView {
                    engine,
                    phase: if engine.current() is Some {
                        Phase::Running
                    } else {
                        Phase::Removing
                    },
                }
            },
            (Phase::Removing, Event::WorkDirRemoved) => SessionView {
                phase: Phase::Finished(report_after_cleanup(self.engine.result(), true)),
                ..self
            },
            (Phase::Removing, Event::WorkDirKept) => SessionView {
                phase: Phase::Finished(report_after_cleanup(self.engine.result(), false)),
                ..self
            },
            _ => self,
        }
    }

    /// The state after the events were reported, one after the other.
    pub open spec fn after(self, events: Seq<Event>) -> SessionView
        decreases events.len(),
    {
        if events.len() == 0 {
            self
        } else {
            self.advance(events[0]).after(events.drop_first())
        }
    }

    /// What the session asks for while the events are reported: first in this
    /// state, then after each event.
    pub open spec fn trace(self, events: Seq<Event>) -> Seq<ActionView>
        decreases events.len(),
    {
        if events.len() == 0 {
            seq![self.action()]
        } else {
            seq![self.action()] + self.advance(events[0]).trace(events.drop_first())
        }
    }
}

/// One run of selected scripts in a working directory of its own.
pub struct Session {
    engine: Engine,
    phase: Phase,
}

impl View for Session {
    type V = SessionView;

    closed spec fn view(&self) -> SessionView {
        SessionView { engine: self.engine@, phase: self.phase }
    }
}

impl Session {
    /// A session that runs the selected scripts, in the order of
    /// `selections`, in the directory `work_dir`.
    pub fn new(scripts: &Vec<String>, selections: &Vec<usize>, work_dir: &str, os_type: HostOs) -> (session:
        Session)
        requires
            valid_selections(selections@, scripts@.len()),
        ensures
            session@ == SessionView::start(
                EngineView::fresh(
                    scripts.deep_view(),
                    selections@,
                    work_dir@,
                    os_type.is_windows(),
                ),
            ),
            session@.wf(),
    {
        let engine = run_scripts(scripts, selections, work_dir, os_type);
        let phase = if selections.len() == 0 {
            Phase::Finished(RunReport { result: Ok(()), cleanup_failed: false })
        } else {
            Phase::Creating
        };
        Session { engine, phase }
    }

    /// What the session asks for now.
    pub fn action(&self) -> (action: Action)
        requires
            self@.wf(),
        ensures
            action@ == self@.action(),
    {
        match self.phase {
            Phase::Creating => Action::CreateWorkDir(self.engine.work_dir()),
            Phase::Running => match self.engine.step() {
                Step::Launch(command) => Action::Launch(command),
                Step::Finished(_) => Action::RemoveWorkDir(self.engine.work_dir()),
            },
            Phase::Removing => Action::RemoveWorkDir(self.engine.work_dir()),
            Phase::Finished(report) => Action::Finish(report),
        }
    }

    /// Takes the caller's report of what happened, and moves on.
    pub fn advance(&mut self, event: Event)
        requires
            old(self)@.wf(),
        ensures
            final(self)@ == old(self)@.advance(event),
            final(self)@.wf(),
    {
        match (self.phase, event) {
            (Phase::Creating, Event::WorkDirCreated) => {
                self.phase = if self.engine.is_running() {
                    Phase::Running
                } else {
                    Phase::Removing
                };
            },
            (Phase::Creating, Event::WorkDirFailed) => {
                self.phase = Phase::Finished(
                    RunReport { result: Err(RunError::WorkDir), cleanup_failed: false },
                );
            },
            (Phase::Running, Event::ScriptEnded(outcome)) => {
                self.engine.record(outcome);
                self.phase = if self.engine.is_running() {
                    Phase::Running
                } else {
                    Phase::Removing
                };
            },
            (Phase::Removing, Event::WorkDirRemoved) => {
                self.phase = Phase::Finished(
                    RunReport { result: self.engine.result(), cleanup_failed: false },
                );
            },
            (Phase::Removing, Event::WorkDirKept) => {
                let result = match self.engine.result() {
                    Err(e) => Err(e),
                    Ok(()) => Err(RunError::Cleanup),
                };
                self.phase = Phase::Finished(RunReport { result, cleanup_failed: true });
            },
            _ => {},
        }
    }

    /// The report of the session, once it is over.
    pub fn report(&self) -> (report: Option<RunReport>)
        ensures
            report == match self@.phase {
                Phase::Finished(r) => Some(r),
                _ => None,
            },
    {
        match self.phase {
            Phase::Finished(r) => Some(r),
            _ => None,
        }
    }
}

/// The exit code of a program that ran a session: zero where the session
/// ended well, and one where anything failed.
pub fn exit_code(report: &RunReport) -> (code: i32)
    ensures
        code == if report.result is Ok {
            0i32
        } else {
            1i32
        },
{
    match report.result {
        Ok(()) => 0,
        Err(_) => 1,
    }
}

/// A session without selected scripts is over from the start. It reports
/// success, and whatever is reported to it, it asks for nothing: no directory
/// is created and nothing is launched.
pub proof fn lemma_empty_selection_is_noop(engine: EngineView, events: Seq<Event>)
    requires
        engine.selections.len() == 0,
    ensures
        SessionView::start(engine).action() == ActionView::Finish(clean_report()),
        SessionView::start(engine).after(events) == SessionView::start(engine),
        forall|i: int|
            0 <= i < SessionView::start(engine).trace(events).len() ==> (
            #[trigger] SessionView::start(engine).trace(events)[i]) == ActionView::Finish(
                clean_report(),
            ),
    decreases events.len(),
{
    let s = SessionView::start(engine);
    if events.len() > 0 {
        assert(s.advance(events[0]) == s);
        lemma_empty_selection_is_noop(engine, events.drop_first());
    }
}

/// A session that is over stays over, with the same report.
pub proof fn lemma_finished_stays_finished(s: SessionView, events: Seq<Event>)
    requires
        s.phase is Finished,
    ensures
        s.after(events) == s,
    decreases events.len(),
{
    if events.len() > 0 {
        lemma_finished_stays_finished(s, events.drop_first());
    }
}

/// A session whose working directory exists does not end before it has asked
/// for the removal of that directory, and it launches nothing from then on.
///
/// For a session that is running or removing, and events that bring it to its
/// end: at some point it asks for the removal of its working directory, and
/// after that point it asks for no launch.
pub proof fn lemma_work_dir_removed_before_finish(s: SessionView, events: Seq<Event>)
    requires
        s.wf(),
        s.phase == Phase::Running || s.phase == Phase::Removing,
        s.after(events).phase is Finished,
    ensures
        exists|j: int|
            0 <= j < s.trace(events).len() && #[trigger] s.trace(events)[j]
                == ActionView::RemoveWorkDir(s.engine.work_dir) && forall|i: int|
                j <= i < s.trace(events).len() ==> !(#[trigger] s.trace(events)[i] is Launch),
    decreases events.len(),
{
    let t = s.trace(events);
    if events.len() == 0 {
        assert(s.after(events) == s);
    } else {
        let next = s.advance(events[0]);
        let rest = events.drop_first();
        let tail = next.trace(rest);
        assert(t =~= seq![s.action()] + tail);
        if next.phase is Finished {
            assert(s.phase == Phase::Removing);
            lemma_only_finish_when_finished(next, rest);
            assert(t[0] == ActionView::RemoveWorkDir(s.engine.work_dir));
            assert forall|i: int| 0 <= i < t.len() implies !(#[trigger] t[i] is Launch) by {
                if i > 0 {
                    assert(t[i] == tail[i - 1]);
                }
            }
        } else if s.phase == Phase::Removing {
            assert(next == s);
            lemma_work_dir_removed_before_finish(next, rest);
            assert(t[0] == ActionView::RemoveWorkDir(s.engine.work_dir));
            lemma_no_launch_once_removing(next, rest);
            assert forall|i: int| 0 <= i < t.len() implies !(#[trigger] t[i] is Launch) by {
                if i > 0 {
                    assert(t[i] == tail[i - 1]);
                }
            }
        } else {
            assert(next.wf());
            assert(next.engine.work_dir == s.engine.work_dir);
            lemma_work_dir_removed_before_finish(next, rest);
            let j = choose|j: int|
                0 <= j < tail.len() && #[trigger] tail[j] == ActionView::RemoveWorkDir(
                    next.engine.work_dir,
                ) && forall|i: int| j <= i < tail.len() ==> !(#[trigger] tail[i] is Launch);
            assert(t[j + 1] == tail[j]);
            assert forall|i: int| j + 1 <= i < t.len() implies !(#[trigger] t[i] is Launch) by {
                assert(t[i] == tail[i - 1]);
            }
        }
    }
}

/// Every session cleans up after itself. A session that comes to its end has
/// either failed to create its working directory, and reports that, or it has
/// asked for the removal of the directory after its last launch.
pub proof fn lemma_session_cleans_up(s: SessionView, events: Seq<Event>)
    requires
        s.wf(),
        !(s.phase is Finished),
        s.after(events).phase is Finished,
    ensures
        s.after(events).phase == Phase::Finished(
            RunReport { result: Err(RunError::WorkDir), cleanup_failed: false },
        ) || exists|j: int|
            0 <= j < s.trace(events).len() && #[trigger] s.trace(events)[j]
                == ActionView::RemoveWorkDir(s.engine.work_dir) && forall|i: int|
                j <= i < s.trace(events).len() ==> !(#[trigger] s.trace(events)[i] is Launch),
    decreases events.len(),
{
    if s.phase == Phase::Creating {
        let t = s.trace(events);
        let next = s.advance(events[0]);
        let rest = events.drop_first();
        let tail = next.trace(rest);
        assert(t =~= seq![s.action()] + tail);
        if next.phase is Finished {
            lemma_finished_stays_finished(next, rest);
        } else {
            lemma_session_cleans_up(next, rest);
            if !(next.after(rest).phase == Phase::Finished(
                RunReport { result: Err(RunError::WorkDir), cleanup_failed: false },
            )) {
                let j = choose|j: int|
                    0 <= j < tail.len() && #[trigger] tail[j] == ActionView::RemoveWorkDir(
                        next.engine.work_dir,
                    ) && forall|i: int| j <= i < tail.len() ==> !(#[trigger] tail[i] is Launch);
                assert(t[j + 1] == tail[j]);
                assert forall|i: int| j + 1 <= i < t.len() implies !(#[trigger] t[i] is Launch) by {
                    assert(t[i] == tail[i - 1]);
                }
            }
        }
    } else {
        lemma_work_dir_removed_before_finish(s, events);
    }
}

/// A session that is over asks for nothing but its end.
proof fn lemma_only_finish_when_finished(s: SessionView, events: Seq<Event>)
    requires
        s.phase is Finished,
    ensures
        forall|i: int| 0 <= i < s.trace(events).len() ==> (#[trigger] s.trace(events)[i]) is Finish,
    decreases events.len(),
{
    if events.len() > 0 {
        lemma_only_finish_when_finished(s, events.drop_first());
        let tail = s.advance(events[0]).trace(events.drop_first());
        assert(s.trace(events) =~= seq![s.action()] + tail);
        assert forall|i: int| 0 <= i < s.trace(events).len() implies (#[trigger] s.trace(
            events,
        )[i]) is Finish by {
            if i > 0 {
                assert(s.trace(events)[i] == tail[i - 1]);
            }
        }
    }
}

/// A session that removes its working directory launches nothing any more.
proof fn lemma_no_launch_once_removing(s: SessionView, events: Seq<Event>)
    requires
        s.phase == Phase::Removing || s.phase is Finished,
    ensures
        forall|i: int|
            0 <= i < s.trace(events).len() ==> !((#[trigger] s.trace(events)[i]) is Launch),
    decreases events.len(),
{
    if events.len() > 0 {
        let next = s.advance(events[0]);
        lemma_no_launch_once_removing(next, events.drop_first());
        let tail = next.trace(events.drop_first());
        assert(s.trace(events) =~= seq![s.action()] + tail);
        assert forall|i: int| 0 <= i < s.trace(events).len() implies !((#[trigger] s.trace(
            events,
        )[i]) is Launch) by {
            if i > 0 {
                assert(s.trace(events)[i] == tail[i - 1]);
            }
        }
    }
}

/// The events that report the given outcomes, one launch after the other.
pub open spec fn script_events(outcomes: Seq<Outcome>) -> Seq<Event> {
    Seq::new(outcomes.len(), |i: int| Event::ScriptEnded(outcomes[i]))
}

/// The launches that a session asks for to run the given scripts.
pub open spec fn launches(engine: EngineView, scripts: Seq<usize>) -> Seq<ActionView> {
    Seq::new(
        scripts.len(),
        |i: int|
            ActionView::Launch(
                command_for(engine.scripts[scripts[i] as int], engine.work_dir, engine.windows),
            ),
    )
}

/// A session launches what its run of scripts asks for, and nothing else.
///
/// While the outcomes of the launches are reported to a session that is
/// running, the run of its scripts moves as the outcomes say. The session asks
/// for the launch of exactly the scripts that run, in their order. Whatever it
/// asks for after these is what it asks for at the end.
pub proof fn lemma_session_follows_run(s: SessionView, outcomes: Seq<Outcome>)
    requires
        s.wf(),
        s.phase == Phase::Running || s.phase == Phase::Removing,
    ensures
        s.after(script_events(outcomes)).engine == s.engine.after(outcomes),
        s.after(script_events(outcomes)).phase == if s.engine.after(outcomes).current() is Some {
            Phase::Running
        } else {
            Phase::Removing
        },
        s.trace(script_events(outcomes)) == launches(s.engine, s.engine.launched(outcomes))
            + Seq::new(
            (outcomes.len() + 1 - s.engine.launched(outcomes).len()) as nat,
            |i: int| s.after(script_events(outcomes)).action(),
        ),
        s.engine.launched(outcomes).len() <= outcomes.len(),
    decreases outcomes.len(),
{
    let events = script_events(outcomes);
    let ran = s.engine.launched(outcomes);
    if outcomes.len() == 0 {
        assert(s.trace(events) =~= launches(s.engine, ran) + Seq::new(
            1,
            |i: int| s.after(events).action(),
        ));
    } else {
        let next = s.advance(events[0]);
        let rest = outcomes.drop_first();
        assert(events.drop_first() =~= script_events(rest));
        assert(events[0] == Event::ScriptEnded(outcomes[0]));
        lemma_session_follows_run(next, rest);
        let tail = next.trace(script_events(rest));
        assert(s.trace(events) =~= seq![s.action()] + tail);
        if s.phase == Phase::Running {
            assert(next.engine == s.engine.record(outcomes[0]));
            let first = s.engine.current()->0;
            assert(ran =~= seq![first] + next.engine.launched(rest));
            assert(launches(s.engine, ran) =~= seq![s.action()] + launches(
                next.engine,
                next.engine.launched(rest),
            ));
            assert(s.trace(events) =~= launches(s.engine, ran) + Seq::new(
                (outcomes.len() + 1 - ran.len()) as nat,
                |i: int| s.after(events).action(),
            ));
        } else {
            assert(next == s);
            lemma_over_stays_over(s.engine, outcomes);
            lemma_over_stays_over(s.engine, rest);
            assert(s.engine.record(outcomes[0]) == s.engine);
            assert(s.trace(events) =~= launches(s.engine, ran) + Seq::new(
                (outcomes.len() + 1 - ran.len()) as nat,
                |i: int| s.after(events).action(),
            ));
        }
    }
}

/// The report says what became of the working directory, and a failed script
/// is never hidden by it.
///
/// A session ends either because its working directory could not be created,
/// or in answer to the removal of that directory. In the second case the
/// report says that cleanup failed exactly where the directory stayed. It
/// carries the error of the script that failed, where one did. Where all
/// scripts succeeded, it is a success exactly where the directory went.
pub proof fn lemma_finish_reports_cleanup(s: SessionView, event: Event)
    requires
        s.wf(),
        !(s.phase is Finished),
        s.advance(event).phase is Finished,
    ensures
        (s.phase == Phase::Creating && event == Event::WorkDirFailed) || (s.phase == Phase::Removing
            && (event == Event::WorkDirRemoved || event == Event::WorkDirKept)),
        s.phase == Phase::Creating ==> s.advance(event).phase == Phase::Finished(
            RunReport { result: Err(RunError::WorkDir), cleanup_failed: false },
        ),
        s.phase == Phase::Removing ==> s.advance(event).phase == Phase::Finished(
            report_after_cleanup(s.engine.result(), event == Event::WorkDirRemoved),
        ),
{
}

} // verus!
