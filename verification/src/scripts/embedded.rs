//! The scripts that are built into the program, as far as they concern the
//! choice of what to run: whether there are any, and when they are used.

use vstd::prelude::*;
use crate::scripts::collector::{
    has_extension,
    path_has_extension,
    powershell_extension,
    shell_extension,
};

verus! {

/// Where the scripts come from.
#[derive(Clone, Copy, Debug, PartialEq, Eq, Structural)]
pub enum ScriptSource {
    /// The scripts directory.
    External,
    /// The scripts that are built into the program.
    Embedded,
    /// Nowhere: there is nothing to run.
    Nothing,
}

/// Where to take the scripts from. The scripts directory is used where it was
/// read and holds at least one script for the host. The built-in scripts are
/// the fallback where there are any.
pub fn choose_source(external_scripts: Option<usize>, has_embedded: bool) -> (source: ScriptSource)
    ensures
        source == if external_scripts matches Some(count) && count > 0 {
            ScriptSource::External
        } else if has_embedded {
            ScriptSource::Embedded
        } else {
            ScriptSource::Nothing
        },
{
    match external_scripts {
        Some(count) if count > 0 => ScriptSource::External,
        _ => {
            if has_embedded {
                ScriptSource::Embedded
            } else {
                ScriptSource::Nothing
            }
        },
    }
}

/// Whether there are built-in scripts, by the number of entries that were
/// built in.
pub fn has_embedded_scripts(embedded_entries: usize) -> (has: bool)
    ensures
        has == (embedded_entries > 0),
{
    embedded_entries != 0
}

/// Whether a file that is unpacked from the built-in scripts is made
/// executable: it is where its extension is that of a script.
pub fn is_script_file(path: &str) -> (r: bool)
    ensures
        r == (has_extension(path@, shell_extension()) || has_extension(
            path@,
            powershell_extension(),
        )),
{
    path_has_extension(path, "sh") || path_has_extension(path, "ps1")
}

} // verus!
