//! What each command does with the collected scripts.
//!
//! A command does nothing to the outside world here. It hands back what its
//! caller is to show, to ask, or to run.

use vstd::prelude::*;
use vstd::string::*;
use crate::cli::ListFormat;
use crate::host::HostOs;
use crate::scripts::display::{
    csv_document,
    csv_records,
    list_scripts,
    plain_lines,
    ListError,
    Listing,
    ListingView,
};
use crate::scripts::fs::{create_temp_dir, is_uuid_text, temp_dir_path};
use crate::scripts::models::{display_names, script_infos, to_display_names, to_script_infos};
use crate::scripts::runner::{valid_selections, EngineView};
use crate::scripts::selection::{default_selections, resolve_names, selections_of, unmatched_of};
use crate::scripts::session::{Session, SessionView};

verus! {

/// What is put before the user for selection.
#[derive(Debug)]
pub struct SelectionPrompt {
    /// The names of the scripts, in the order of the scripts.
    pub items: Vec<String>,
    /// For each script, whether it is selected at first.
    pub defaults: Vec<bool>,
}

/// The interactive selection: every script under its display name, all of
/// them selected at first where `all` is set, and none otherwise.
pub fn interactive_mode(scripts: &Vec<String>, all: bool) -> (prompt: SelectionPrompt)
    ensures
        prompt.items.deep_view() == display_names(scripts.deep_view()),
        prompt.defaults@ == Seq::new(scripts@.len(), |i: int| all),
{
    SelectionPrompt {
        items: to_display_names(scripts),
        defaults: default_selections(scripts.len(), all),
    }
}

/// Prepares a session that runs the selected scripts in a new working
/// directory below `/tmp`. The name of the directory is picked here, and only
/// where something is selected. All else is as in `Session::new`.
pub fn execute_scripts(scripts: &Vec<String>, selections: &Vec<usize>, os_type: HostOs) -> (session:
    Session)
    requires
        valid_selections(selections@, scripts@.len()),
    ensures
        session@ == SessionView::start(
            EngineView::fresh(
                scripts.deep_view(),
                selections@,
                session@.engine.work_dir,
                os_type.is_windows(),
            ),
        ),
        session@.wf(),
        selections@.len() > 0 ==> exists|token: Seq<char>|
            is_uuid_text(token) && session@.engine.work_dir == #[trigger] temp_dir_path(token),
        selections@.len() == 0 ==> session@.engine.work_dir == Seq::<char>::empty(),
{
    if selections.len() == 0 {
        proof {
            reveal_strlit("");
        }
        Session::new(scripts, selections, "", os_type)
    } else {
        let work_dir = create_temp_dir();
        Session::new(scripts, selections, work_dir.as_str(), os_type)
    }
}

/// What running scripts by name comes to.
pub struct SpecifiedRun {
    /// The session that runs the scripts that were found. It is over from the
    /// start where none was.
    pub session: Session,
    /// The names that no script has.
    pub unmatched: Vec<String>,
}

/// Prepares the run of the scripts with the given file names, in the order of
/// the names. A name that no script has is set aside, and the others run.
/// Where no name matches, there is nothing to run.
pub fn run_specified_scripts(scripts: &Vec<String>, script_names: Vec<String>, os_type: HostOs) -> (run:
    SpecifiedRun)
    ensures
        run.session@ == SessionView::start(
            EngineView::fresh(
                scripts.deep_view(),
                selections_of(scripts.deep_view(), script_names.deep_view()),
                run.session@.engine.work_dir,
                os_type.is_windows(),
            ),
        ),
        run.session@.wf(),
        run.unmatched.deep_view() == unmatched_of(scripts.deep_view(), script_names.deep_view()),
{
    let resolution = resolve_names(scripts, &script_names);
    let session = execute_scripts(scripts, &resolution.selections, os_type);
    SpecifiedRun { session, unmatched: resolution.unmatched }
}

/// The listing of the scripts in the given format.
pub fn list_mode(scripts: &Vec<String>, format: ListFormat) -> (result: Result<Listing, ListError>)
    ensures
        match format {
            ListFormat::Plain => result matches Ok(listing) && listing@ == ListingView::Plain(
                plain_lines(script_infos(scripts.deep_view())),
            ),
            ListFormat::Json => result matches Ok(listing) && listing@ == ListingView::Json,
            ListFormat::Table => result matches Ok(listing) && listing@ == ListingView::Table,
            ListFormat::Csv => match result {
                Ok(listing) => listing@ == ListingView::Csv(
                    csv_document(csv_records(script_infos(scripts.deep_view()))),
                ),
                Err(e) => e is Csv,
            },
        },
{
    proof {
        reveal_strlit("plain");
        reveal_strlit("json");
        reveal_strlit("table");
        reveal_strlit("csv");
        assert("plain"@.len() == 5 && "plain"@[0] == 'p');
        assert("table"@.len() == 5 && "table"@[0] == 't');
        assert("json"@.len() == 4);
        assert("csv"@.len() == 3);
    }
    let infos = to_script_infos(scripts);
    list_scripts(&infos, format.as_str())
}

} // verus!
