//! What is shown of a script: its name, the operating system it is for, and
//! its kind.
//!
//! All of it is read off the path. The directory that holds a script tells
//! whom it is for: the directory `scripts` holds the scripts for everyone, and
//! any other directory names the operating system by its own name.

use vstd::prelude::*;
use vstd::string::*;
use crate::scripts::paths::{
    extension,
    file_name,
    is_plain_name,
    lemma_entry_of_directory,
    parent_name,
    path_extension,
    path_file_name,
    path_parent_name,
};
use crate::text::{append_text, str_eq};

verus! {

/// The kind of a script, which decides the interpreter that runs it.
#[derive(Clone, Copy, PartialEq, Eq, Debug, Structural)]
pub enum ScriptKind {
    Shell,
    PowerShell,
}

/// A script as it is shown: its file name, its path, the operating system it
/// is for, and its kind.
#[derive(Clone, Debug)]
pub struct ScriptInfo {
    pub name: String,
    pub path: String,
    pub os_type: String,
    pub kind: ScriptKind,
}

/// A script as it is shown, as texts.
pub struct ScriptInfoView {
    pub name: Seq<char>,
    pub path: Seq<char>,
    pub os_type: Seq<char>,
    pub kind: ScriptKind,
}

impl View for ScriptInfo {
    type V = ScriptInfoView;

    open spec fn view(&self) -> ScriptInfoView {
        ScriptInfoView {
            name: self.name@,
            path: self.path@,
            os_type: self.os_type@,
            kind: self.kind,
        }
    }
}

impl DeepView for ScriptInfo {
    type V = ScriptInfoView;

    open spec fn deep_view(&self) -> ScriptInfoView {
        self@
    }
}

/// The name of the directory whose scripts are for every operating system.
pub open spec fn common_dir_name() -> Seq<char> {
    "scripts"@
}

/// The tag of the scripts that are for every operating system.
pub open spec fn common_tag() -> Seq<char> {
    "common"@
}

/// The name that stands for a script whose path has no file name.
pub open spec fn unknown_name() -> Seq<char> {
    "<unknown>"@
}

/// The name of a script: the file name of its path.
pub open spec fn script_name(path: Seq<char>) -> Seq<char> {
    match file_name(path) {
        Some(name) => name,
        None => unknown_name(),
    }
}

/// The operating system a script is for: the name of the directory that holds
/// it, or `common` where that is the directory `scripts` or has no name.
pub open spec fn os_tag(path: Seq<char>) -> Seq<char> {
    match parent_name(path) {
        Some(dir) => if dir == common_dir_name() {
            common_tag()
        } else {
            dir
        },
        None => common_tag(),
    }
}

/// The name under which a script is offered for selection: its name, followed
/// by the name of its directory in square brackets unless the script is for
/// every operating system.
pub open spec fn display_name(path: Seq<char>) -> Seq<char> {
    match parent_name(path) {
        Some(dir) => if dir == common_dir_name() {
            script_name(path)
        } else {
            script_name(path) + " ["@ + dir + "]"@
        },
        None => script_name(path),
    }
}

/// The kind of a script: PowerShell where its extension is `ps1`, shell
/// otherwise.
pub open spec fn script_kind(path: Seq<char>) -> ScriptKind {
    if extension(path) == Some("ps1"@) {
        ScriptKind::PowerShell
    } else {
        ScriptKind::Shell
    }
}

/// What is shown of the script at `path`.
pub open spec fn script_info(path: Seq<char>) -> ScriptInfoView {
    ScriptInfoView {
        name: script_name(path),
        path,
        os_type: os_tag(path),
        kind: script_kind(path),
    }
}

/// The display names of the scripts, one for each path and in the same
/// order.
pub open spec fn display_names(paths: Seq<Seq<char>>) -> Seq<Seq<char>> {
    Seq::new(paths.len(), |i: int| display_name(paths[i]))
}

/// What is shown of the scripts, one for each path and in the same order.
pub open spec fn script_infos(paths: Seq<Seq<char>>) -> Seq<ScriptInfoView> {
    Seq::new(paths.len(), |i: int| script_info(paths[i]))
}

/// The name of the script at `path`.
pub fn to_script_name(path: &str) -> (name: String)
    ensures
        name@ == script_name(path@),
{
    match path_file_name(path) {
        Some(name) => name,
        None => String::from_str("<unknown>"),
    }
}

/// The name under which the script at `path` is offered for selection.
pub fn to_display_name(path: &str) -> (name: String)
    ensures
        name@ == display_name(path@),
{
    let name = to_script_name(path);
    match path_parent_name(path) {
        Some(dir) => {
            if str_eq(dir.as_str(), "scripts") {
                name
            } else {
                let opened = append_text(name.as_str(), " [");
                let tagged = append_text(opened.as_str(), dir.as_str());
                append_text(tagged.as_str(), "]")
            }
        },
        None => name,
    }
}

/// The operating system that the script at `path` is for.
pub fn to_os_tag(path: &str) -> (tag: String)
    ensures
        tag@ == os_tag(path@),
{
    match path_parent_name(path) {
        Some(dir) => {
            if str_eq(dir.as_str(), "scripts") {
                String::from_str("common")
            } else {
                dir
            }
        },
        None => String::from_str("common"),
    }
}

/// The kind of the script at `path`.
pub fn to_script_kind(path: &str) -> (kind: ScriptKind)
    ensures
        kind == script_kind(path@),
{
    match path_extension(path) {
        Some(ext) => {
            if str_eq(ext.as_str(), "ps1") {
                ScriptKind::PowerShell
            } else {
                ScriptKind::Shell
            }
        },
        None => ScriptKind::Shell,
    }
}

/// What is shown of the script at `path`.
pub fn to_script_info(path: &str) -> (info: ScriptInfo)
    ensures
        info@ == script_info(path@),
{
    ScriptInfo {
        name: to_script_name(path),
        path: String::from_str(path),
        os_type: to_os_tag(path),
        kind: to_script_kind(path),
    }
}

/// The names under which the scripts are offered for selection, in the order
/// of the paths.
pub fn to_display_names(paths: &Vec<String>) -> (names: Vec<String>)
    ensures
        names.deep_view() == display_names(paths.deep_view()),
{
    let mut names: Vec<String> = Vec::new();
    for i in 0..paths.len()
        invariant
            names.len() == i,
            forall|j: int| 0 <= j < i ==> names[j]@ == display_name(paths[j]@),
    {
        names.push(to_display_name(paths[i].as_str()));
    }
    assert(names.deep_view() =~= display_names(paths.deep_view()));
    names
}

/// What is shown of the scripts, in the order of the paths.
pub fn to_script_infos(paths: &Vec<String>) -> (infos: Vec<ScriptInfo>)
    ensures
        infos.deep_view() == script_infos(paths.deep_view()),
{
    let mut infos: Vec<ScriptInfo> = Vec::new();
    for i in 0..paths.len()
        invariant
            infos.len() == i,
            forall|j: int| 0 <= j < i ==> infos[j]@ == script_info(paths[j]@),
    {
        infos.push(to_script_info(paths[i].as_str()));
    }
    assert(infos.deep_view() =~= script_infos(paths.deep_view()));
    infos
}

/// How an entry of a directory is shown. A script that lies directly in a
/// directory other than `scripts` is shown with the name of that directory in
/// square brackets and is tagged with it. A script that lies directly in a
/// directory `scripts` is shown by its file name alone and is tagged `common`.
pub proof fn lemma_display_name_of_entry(dir: Seq<char>, name: Seq<char>)
    requires
        is_plain_name(name),
    ensures
        script_name(dir + "/"@ + name) == name,
        display_name(dir + "/"@ + name) == match file_name(dir) {
            Some(d) => if d == common_dir_name() {
                name
            } else {
                name + " ["@ + d + "]"@
            },
            None => name,
        },
        os_tag(dir + "/"@ + name) == match file_name(dir) {
            Some(d) => if d == common_dir_name() {
                common_tag()
            } else {
                d
            },
            None => common_tag(),
        },
{
    lemma_entry_of_directory(dir, name);
}

/// A collection of paths that can be shown.
pub trait PathNames {
    /// The paths as texts.
    spec fn paths(&self) -> Seq<Seq<char>>;

    /// The names under which the scripts are offered for selection, one for
    /// each path and in the same order.
    fn into_names(&self) -> (names: Vec<String>)
        ensures
            names.deep_view() == display_names(self.paths()),
    ;

    /// What is shown of the scripts, one for each path and in the same order.
    fn into_script_infos(&self) -> (infos: Vec<ScriptInfo>)
        ensures
            infos.deep_view() == script_infos(self.paths()),
    ;
}

impl PathNames for Vec<String> {
    open spec fn paths(&self) -> Seq<Seq<char>> {
        self.deep_view()
    }

    fn into_names(&self) -> (names: Vec<String>) {
        to_display_names(self)
    }

    fn into_script_infos(&self) -> (infos: Vec<ScriptInfo>) {
        to_script_infos(self)
    }
}

} // verus!
