//! The command line: which scripts directory to use, and what to do with the
//! scripts.

use vstd::prelude::*;

pub mod commands;

verus! {

/// The format of a listing.
#[derive(Clone, Copy, Debug, PartialEq, Eq, Structural)]
pub enum ListFormat {
    /// One line for each script.
    Plain,
    Json,
    Csv,
    /// One column for each directory.
    Table,
}

/// What to do with the scripts.
#[derive(Debug)]
pub enum Commands {
    /// Offer the scripts for selection, all of them selected at first where
    /// `all` is set, and run the selected ones.
    Interactive { all: bool },
    /// Run the scripts with the given file names.
    Run { scripts: Vec<String> },
    /// List the scripts.
    List { format: ListFormat },
}

/// The command line.
#[derive(Debug)]
pub struct Cli {
    /// The path of the scripts directory.
    pub scripts_dir: String,
    /// The command, if one was given.
    pub command: Option<Commands>,
}

impl ListFormat {
    /// The name of the format.
    pub open spec fn name(self) -> Seq<char> {
        match self {
            ListFormat::Plain => "plain"@,
            ListFormat::Json => "json"@,
            ListFormat::Csv => "csv"@,
            ListFormat::Table => "table"@,
        }
    }

    /// The name of the format.
    pub fn as_str(self) -> (name: &'static str)
        ensures
            name@ == self.name(),
    {
        match self {
            ListFormat::Plain => "plain",
            ListFormat::Json => "json",
            ListFormat::Csv => "csv",
            ListFormat::Table => "table",
        }
    }
}

impl Cli {
    /// The command to carry out: the one given, or the interactive selection
    /// with nothing selected at first.
    pub fn command_or_default(self) -> (command: Commands)
        ensures
            command == match self.command {
                Some(given) => given,
                None => Commands::Interactive { all: false },
            },
    {
        match self.command {
            Some(given) => given,
            None => Commands::Interactive { all: false },
        }
    }
}

} // verus!
