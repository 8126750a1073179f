//! The collector: which of the entries found below the scripts directory are
//! scripts for the host, and in which order they stand.
//!
//! The scripts directory is laid out as follows.
//!
//! ```text
//! <root>/*.sh              common scripts, not for Windows hosts
//! <root>/*.ps1             PowerShell scripts, for every host
//! <root>/unix/**/*.sh      scripts for every host with a family, but Windows
//! <root>/<family>/**/*.sh  scripts for the hosts of one family
//! ```
//!
//! The caller walks the directories and hands over the paths it found. The
//! collector decides by the path alone. It never sees the file system, so the
//! same entries always give the same scripts.

use vstd::prelude::*;
use vstd::string::*;
use crate::host::HostOs;
use crate::scripts::order::{lemma_strictly_sorted_unique, sort_scripts, strictly_sorted};
use crate::scripts::paths::{
    components,
    extension,
    is_plain_name,
    join,
    lemma_entry_of_directory,
    path_components,
    path_extension,
};
use crate::text::{lemma_texts_push, str_eq};

verus! {

/// What the caller found below the scripts directory.
pub struct DirectoryListing {
    /// Whether the scripts directory itself could be read.
    pub readable: bool,
    /// The path of every entry found, each starting with the path of the
    /// scripts directory.
    pub entries: Vec<String>,
}

/// The scripts directory could not be read.
pub struct DirectoryError {
    pub dir: String,
}

/// The scripts for a host.
pub struct Collection {
    /// The paths of the scripts, sorted, each once.
    pub scripts: Vec<String>,
    /// The host has no family: only scripts of the scripts directory itself
    /// were taken.
    pub unsupported_os: bool,
    /// The host has a family, and no entry lies at or below its directory.
    pub missing_os_directory: bool,
}

/// The scripts directory that is used where the caller names none.
pub open spec fn default_scripts_dir() -> Seq<char> {
    "../scripts"@
}

/// The name of the directory with the scripts for all Unix hosts.
pub open spec fn unix_dir_name() -> Seq<char> {
    "unix"@
}

/// The extension of a shell script.
pub open spec fn shell_extension() -> Seq<char> {
    "sh"@
}

/// The extension of a PowerShell script.
pub open spec fn powershell_extension() -> Seq<char> {
    "ps1"@
}

/// The components of `path` that follow those of the root, where `path` begins
/// with the root.
pub open spec fn relative_parts(root: Seq<Seq<char>>, path: Seq<char>) -> Option<Seq<Seq<char>>> {
    let parts = components(path);
    if root.len() <= parts.len() && parts.take(root.len() as int) == root {
        Some(parts.skip(root.len() as int))
    } else {
        None
    }
}

/// Whether `path` names an entry of the root directory itself.
pub open spec fn is_root_level(root: Seq<Seq<char>>, path: Seq<char>) -> bool {
    relative_parts(root, path) matches Some(rel) && rel.len() == 1
}

/// Whether `path` names the directory `dir` of the root, or an entry at any
/// depth below it.
pub open spec fn is_at_or_below(root: Seq<Seq<char>>, dir: Seq<char>, path: Seq<char>) -> bool {
    relative_parts(root, path) matches Some(rel) && rel.len() >= 1 && rel[0] == dir
}

/// Whether `path` names an entry at any depth below the directory `dir` of
/// the root.
pub open spec fn is_below(root: Seq<Seq<char>>, dir: Seq<char>, path: Seq<char>) -> bool {
    relative_parts(root, path) matches Some(rel) && rel.len() >= 2 && rel[0] == dir
}

/// Whether the file name of `path` has the extension `ext`.
pub open spec fn has_extension(path: Seq<char>, ext: Seq<char>) -> bool {
    extension(path) == Some(ext)
}

/// Whether `path` is a script of the root directory itself that a host takes:
/// a PowerShell script, or a shell script where the host is not Windows.
pub open spec fn is_root_script(root: Seq<Seq<char>>, windows: bool, path: Seq<char>) -> bool {
    is_root_level(root, path) && (has_extension(path, powershell_extension()) || (!windows
        && has_extension(path, shell_extension())))
}

/// Whether `path` is a shell script below the directory `dir` of the root.
pub open spec fn is_script_below(root: Seq<Seq<char>>, dir: Seq<char>, path: Seq<char>) -> bool {
    is_below(root, dir, path) && has_extension(path, shell_extension())
}

/// Whether the collector takes `path` for the host `os`.
pub open spec fn selected(root: Seq<Seq<char>>, os: HostOs, path: Seq<char>) -> bool {
    ||| is_root_script(root, os.is_windows(), path)
    ||| os.family() is Some && !os.is_windows() && is_script_below(root, unix_dir_name(), path)
    ||| os.family() matches Some(family) && is_script_below(root, family.tag(), path)
}

/// Whether some entry lies at or below the directory `dir` of the root.
pub open spec fn directory_present(
    root: Seq<Seq<char>>,
    dir: Seq<char>,
    entries: Seq<Seq<char>>,
) -> bool {
    exists|i: int| 0 <= i < entries.len() && is_at_or_below(root, dir, #[trigger] entries[i])
}

/// The scripts directory to use: the one given, or the default.
pub fn resolve_scripts_dir(scripts_dir: Option<&str>) -> (dir: String)
    ensures
        dir@ == match scripts_dir {
            Some(given) => given@,
            None => default_scripts_dir(),
        },
{
    match scripts_dir {
        Some(given) => String::from_str(given),
        None => String::from_str("../scripts"),
    }
}

/// The directory to walk for the scripts of all Unix hosts: none for a Windows
/// host, and none for a host without a family.
pub fn unix_directory(scripts_dir: &str, os_type: HostOs) -> (dir: Option<String>)
    ensures
        dir is Some <==> os_type.family() is Some && !os_type.is_windows(),
        dir matches Some(d) ==> d@ == scripts_dir@ + "/"@ + unix_dir_name(),
{
    match os_type.os_family() {
        Some(_) => {
            if os_type.windows() {
                None
            } else {
                Some(join(scripts_dir, "unix"))
            }
        },
        None => None,
    }
}

/// The directory to walk for the scripts of the host's family: none for a host
/// without a family.
pub fn os_specific_directory(scripts_dir: &str, os_type: HostOs) -> (dir: Option<String>)
    ensures
        match dir {
            Some(d) => os_type.family() matches Some(family) && d@ == scripts_dir@ + "/"@
                + family.tag(),
            None => os_type.family() is None,
        },
{
    match os_type.os_family() {
        Some(family) => Some(join(scripts_dir, family.dir_name())),
        None => None,
    }
}

/// The texts of the two parts that a vector of strings was split into.
proof fn lemma_texts_split(whole: Vec<String>, front: Vec<String>, back: Vec<String>, at: int)
    requires
        0 <= at <= whole@.len(),
        front@ == whole@.subrange(0, at),
        back@ == whole@.subrange(at, whole@.len() as int),
    ensures
        front.deep_view() == whole.deep_view().take(at),
        back.deep_view() == whole.deep_view().skip(at),
{
    assert(front.deep_view() =~= whole.deep_view().take(at));
    assert(back.deep_view() =~= whole.deep_view().skip(at));
}

/// The components of `path` that follow those of the root, where `path` begins
/// with the root.
pub fn locate(root: &Vec<String>, path: &str) -> (rel: Option<Vec<String>>)
    ensures
        rel.deep_view() == relative_parts(root.deep_view(), path@),
{
    let mut parts = path_components(path);
    let ghost all = parts.deep_view();
    let ghost wanted = root.deep_view();
    if parts.len() < root.len() {
        return None;
    }
    let mut i: usize = 0;
    while i < root.len()
        invariant
            i <= root.len() <= parts.len(),
            all == parts.deep_view(),
            all == components(path@),
            wanted == root.deep_view(),
            forall|j: int| 0 <= j < i ==> all[j] == wanted[j],
        decreases root.len() - i,
    {
        proof {
            assert(all[i as int] == parts[i as int]@);
            assert(wanted[i as int] == root[i as int]@);
        }
        if !str_eq(parts[i].as_str(), root[i].as_str()) {
            assert(all.take(wanted.len() as int)[i as int] == all[i as int]);
            return None;
        }
        i += 1;
    }
    assert(all.take(wanted.len() as int) =~= wanted);
    let ghost whole = parts;
    let rel = parts.split_off(root.len());
    proof {
        lemma_texts_split(whole, parts, rel, root.len() as int);
    }
    Some(rel)
}

/// Whether `path` has the extension `ext`.
pub fn path_has_extension(path: &str, ext: &str) -> (r: bool)
    ensures
        r == has_extension(path@, ext@),
{
    match path_extension(path) {
        Some(found) => str_eq(found.as_str(), ext),
        None => false,
    }
}

/// Whether `path` names an entry of the root directory itself.
pub fn is_root_level_entry(root: &Vec<String>, path: &str) -> (r: bool)
    ensures
        r == is_root_level(root.deep_view(), path@),
{
    match locate(root, path) {
        Some(rel) => rel.len() == 1,
        None => false,
    }
}

/// Whether `path` names the directory `dir` of the root, or an entry below it.
pub fn is_entry_at_or_below(root: &Vec<String>, dir: &str, path: &str) -> (r: bool)
    ensures
        r == is_at_or_below(root.deep_view(), dir@, path@),
{
    match locate(root, path) {
        Some(rel) => rel.len() >= 1 && str_eq(rel[0].as_str(), dir),
        None => false,
    }
}

/// Whether `path` names an entry below the directory `dir` of the root.
pub fn is_entry_below(root: &Vec<String>, dir: &str, path: &str) -> (r: bool)
    ensures
        r == is_below(root.deep_view(), dir@, path@),
{
    match locate(root, path) {
        Some(rel) => rel.len() >= 2 && str_eq(rel[0].as_str(), dir),
        None => false,
    }
}

/// The scripts of the root directory itself among `entries`, in the order of
/// `entries`.
pub fn collect_root_scripts(root: &Vec<String>, entries: &Vec<String>, windows: bool) -> (scripts:
    Vec<String>)
    ensures
        scripts.deep_view() == entries.deep_view().filter(
            |p: Seq<char>| is_root_script(root.deep_view(), windows, p),
        ),
{
    let ghost all = entries.deep_view();
    let ghost wanted = |p: Seq<char>| is_root_script(root.deep_view(), windows, p);
    let mut scripts: Vec<String> = Vec::new();
    proof {
        reveal(Seq::filter);
        assert(scripts.deep_view() =~= all.take(0).filter(wanted));
    }
    for i in 0..entries.len()
        invariant
            all == entries.deep_view(),
            wanted == |p: Seq<char>| is_root_script(root.deep_view(), windows, p),
            scripts.deep_view() == all.take(i as int).filter(wanted),
    {
        let entry = entries[i].as_str();
        proof {
            reveal(Seq::filter);
            assert(all.take(i + 1).drop_last() =~= all.take(i as int));
            assert(all.take(i + 1).last() == entry@);
        }
        if is_root_level_entry(root, entry) && (path_has_extension(entry, "ps1") || (!windows
            && path_has_extension(entry, "sh"))) {
            let ghost before = scripts;
            let owned = entries[i].clone();
            scripts.push(owned);
            proof {
                lemma_texts_push(before, scripts, owned);
            }
        }
    }
    assert(all.take(entries.len() as int) =~= all);
    scripts
}

/// The shell scripts below the directory `dir` of the root among `entries`, in
/// the order of `entries`.
pub fn collect_scripts_below(root: &Vec<String>, entries: &Vec<String>, dir: &str) -> (scripts:
    Vec<String>)
    ensures
        scripts.deep_view() == entries.deep_view().filter(
            |p: Seq<char>| is_script_below(root.deep_view(), dir@, p),
        ),
{
    let ghost all = entries.deep_view();
    let ghost wanted = |p: Seq<char>| is_script_below(root.deep_view(), dir@, p);
    let mut scripts: Vec<String> = Vec::new();
    proof {
        reveal(Seq::filter);
        assert(scripts.deep_view() =~= all.take(0).filter(wanted));
    }
    for i in 0..entries.len()
        invariant
            all == entries.deep_view(),
            wanted == |p: Seq<char>| is_script_below(root.deep_view(), dir@, p),
            scripts.deep_view() == all.take(i as int).filter(wanted),
    {
        let entry = entries[i].as_str();
        proof {
            reveal(Seq::filter);
            assert(all.take(i + 1).drop_last() =~= all.take(i as int));
            assert(all.take(i + 1).last() == entry@);
        }
        if is_entry_below(root, dir, entry) && path_has_extension(entry, "sh") {
            let ghost before = scripts;
            let owned = entries[i].clone();
            scripts.push(owned);
            proof {
                lemma_texts_push(before, scripts, owned);
            }
        }
    }
    assert(all.take(entries.len() as int) =~= all);
    scripts
}

/// The shell scripts for all Unix hosts among `entries`: those below the
/// directory `unix` of the scripts directory.
pub fn collect_unix_scripts(scripts_dir: &str, entries: &Vec<String>) -> (scripts: Vec<String>)
    ensures
        scripts.deep_view() == entries.deep_view().filter(
            |p: Seq<char>| is_script_below(components(scripts_dir@), unix_dir_name(), p),
        ),
{
    let root = path_components(scripts_dir);
    collect_scripts_below(&root, entries, "unix")
}

/// The shell scripts of one family among `entries`: those below the directory
/// `os_dir` of the scripts directory.
pub fn collect_os_specific_scripts(scripts_dir: &str, entries: &Vec<String>, os_dir: &str) -> (scripts:
    Vec<String>)
    ensures
        scripts.deep_view() == entries.deep_view().filter(
            |p: Seq<char>| is_script_below(components(scripts_dir@), os_dir@, p),
        ),
{
    let root = path_components(scripts_dir);
    collect_scripts_below(&root, entries, os_dir)
}

/// Whether some entry lies at or below the directory `dir` of the root.
pub fn has_directory(root: &Vec<String>, entries: &Vec<String>, dir: &str) -> (r: bool)
    ensures
        r == directory_present(root.deep_view(), dir@, entries.deep_view()),
{
    let ghost all = entries.deep_view();
    for i in 0..entries.len()
        invariant
            all == entries.deep_view(),
            forall|j: int| 0 <= j < i ==> !is_at_or_below(root.deep_view(), dir@, #[trigger] all[j]),
    {
        if is_entry_at_or_below(root, dir, entries[i].as_str()) {
            assert(is_at_or_below(root.deep_view(), dir@, all[i as int]));
            return true;
        }
    }
    false
}

/// What a collection holds of the entries of a listing: the selected ones, and
/// no others.
pub open spec fn holds_selected(
    scripts: Seq<Seq<char>>,
    root: Seq<Seq<char>>,
    os: HostOs,
    entries: Seq<Seq<char>>,
) -> bool {
    forall|p: Seq<char>| scripts.contains(p) <==> (entries.contains(p) && selected(root, os, p))
}

/// Collects the scripts for a host from what was found below the scripts
/// directory.
///
/// Fails where the scripts directory could not be read, and only there. A host
/// without a family, or a family without a directory, is no failure: the
/// collection says so and holds what is left.
pub fn collect_scripts(scripts_dir: Option<&str>, listing: &DirectoryListing, os_type: HostOs) -> (result:
    Result<Collection, DirectoryError>)
    ensures
        result is Ok <==> listing.readable,
        result matches Err(e) ==> e.dir@ == match scripts_dir {
            Some(given) => given@,
            None => default_scripts_dir(),
        },
        result matches Ok(c) ==> {
            let root = components(
                match scripts_dir {
                    Some(given) => given@,
                    None => default_scripts_dir(),
                },
            );
            &&& strictly_sorted(c.scripts.deep_view())
            &&& holds_selected(c.scripts.deep_view(), root, os_type, listing.entries.deep_view())
            &&& c.unsupported_os == os_type.family() is None
            &&& c.missing_os_directory == (os_type.family() matches Some(family)
                && !directory_present(root, family.tag(), listing.entries.deep_view()))
        },
{
    let dir = resolve_scripts_dir(scripts_dir);
    if !listing.readable {
        return Err(DirectoryError { dir });
    }
    let root = path_components(dir.as_str());
    let entries = &listing.entries;
    let ghost all = entries.deep_view();
    let ghost r = root.deep_view();
    let ghost root_wanted = |p: Seq<char>| is_root_script(r, os_type.is_windows(), p);
    let mut found = collect_root_scripts(&root, entries, os_type.windows());
    proof {
        lemma_filter_members(all, root_wanted);
    }
    let mut missing_os_directory = false;
    match os_type.os_family() {
        Some(family) => {
            if !os_type.windows() {
                let ghost before = found;
                let ghost unix_wanted = |p: Seq<char>| is_script_below(r, unix_dir_name(), p);
                let mut unix = collect_unix_scripts(dir.as_str(), entries);
                proof {
                    lemma_filter_members(all, unix_wanted);
                }
                let ghost unix_found = unix;
                found.append(&mut unix);
                proof {
                    lemma_texts_append(before, unix_found, found);
                }
            }
            let ghost before = found;
            let ghost os_wanted = |p: Seq<char>| is_script_below(r, family.tag(), p);
            let mut specific = collect_os_specific_scripts(dir.as_str(), entries, family.dir_name());
            proof {
                lemma_filter_members(all, os_wanted);
            }
            let ghost specific_found = specific;
            found.append(&mut specific);
            proof {
                lemma_texts_append(before, specific_found, found);
            }
            missing_os_directory = !has_directory(&root, entries, family.dir_name());
        },
        None => {},
    }
    assert(forall|p: Seq<char>|
        found.deep_view().contains(p) <==> (all.contains(p) && selected(r, os_type, p)));
    let scripts = sort_scripts(&found);
    Ok(
        Collection {
            scripts,
            unsupported_os: os_type.os_family().is_none(),
            missing_os_directory,
        },
    )
}

/// Collecting is determined by what was found. Two collections for the same
/// root and host, made from listings that hold the same entries in whatever
/// order and number, are the same sequence of scripts.
pub proof fn lemma_collection_is_determined(
    root: Seq<Seq<char>>,
    os: HostOs,
    first_entries: Seq<Seq<char>>,
    second_entries: Seq<Seq<char>>,
    first: Seq<Seq<char>>,
    second: Seq<Seq<char>>,
)
    requires
        forall|p: Seq<char>| first_entries.contains(p) <==> second_entries.contains(p),
        strictly_sorted(first),
        holds_selected(first, root, os, first_entries),
        strictly_sorted(second),
        holds_selected(second, root, os, second_entries),
    ensures
        first == second,
{
    lemma_strictly_sorted_unique(first, second);
}

/// An entry lies in one place only: an entry of the root itself lies below
/// none of its directories, and an entry below one directory of the root lies
/// below no other.
pub proof fn lemma_one_place(root: Seq<Seq<char>>, dir: Seq<char>, other: Seq<char>, path: Seq<char>)
    requires
        is_below(root, dir, path),
    ensures
        !is_root_level(root, path),
        is_below(root, other, path) ==> other == dir,
{
}

/// A host without a family gets the scripts of the root directory itself,
/// shell and PowerShell, and nothing from any directory below it.
pub proof fn lemma_unsupported_host_takes_root_only(root: Seq<Seq<char>>, os: HostOs, path: Seq<char>)
    requires
        os.family() is None,
    ensures
        selected(root, os, path) <==> is_root_level(root, path) && (has_extension(
            path,
            shell_extension(),
        ) || has_extension(path, powershell_extension())),
{
}

/// A Windows host gets the PowerShell scripts of the root directory itself,
/// and none of its shell scripts.
pub proof fn lemma_windows_host_at_root(root: Seq<Seq<char>>, os: HostOs, path: Seq<char>)
    requires
        os.is_windows(),
        is_root_level(root, path),
    ensures
        selected(root, os, path) <==> has_extension(path, powershell_extension()),
{
}

/// Below the root, a host gets the shell scripts of two directories only: that
/// of its family, and `unix` unless it is a Windows host. What lies below any
/// other directory is left out.
pub proof fn lemma_selected_below(root: Seq<Seq<char>>, os: HostOs, dir: Seq<char>, path: Seq<char>)
    requires
        is_below(root, dir, path),
    ensures
        selected(root, os, path) <==> has_extension(path, shell_extension()) && (os.family()
            matches Some(family) && (dir == family.tag() || (dir == unix_dir_name()
            && !os.is_windows()))),
{
}

/// The layout of the scripts directory, in terms of paths. An entry with a
/// plain name in the root directory lies at the root, and an entry with a
/// plain name in a directory of the root lies below that directory.
pub proof fn lemma_layout(root: Seq<char>, dir: Seq<char>, name: Seq<char>)
    requires
        is_plain_name(dir),
        is_plain_name(name),
    ensures
        is_root_level(components(root), root + "/"@ + name),
        is_at_or_below(components(root), dir, root + "/"@ + dir),
        is_below(components(root), dir, root + "/"@ + dir + "/"@ + name),
{
    let r = components(root);
    lemma_entry_of_directory(root, name);
    lemma_entry_of_directory(root, dir);
    lemma_entry_of_directory(root + "/"@ + dir, name);
    let at_root = r.push(name);
    assert(at_root.take(r.len() as int) =~= r);
    assert(at_root.skip(r.len() as int) =~= seq![name]);
    let of_dir = r.push(dir);
    assert(of_dir.take(r.len() as int) =~= r);
    assert(of_dir.skip(r.len() as int) =~= seq![dir]);
    let below = r.push(dir).push(name);
    assert(below.take(r.len() as int) =~= r);
    assert(below.skip(r.len() as int) =~= seq![dir, name]);
}

/// What a filtered sequence holds: the members of the sequence that meet the
/// condition.
proof fn lemma_filter_members(s: Seq<Seq<char>>, wanted: spec_fn(Seq<char>) -> bool)
    ensures
        forall|p: Seq<char>| s.filter(wanted).contains(p) <==> (s.contains(p) && wanted(p)),
{
    assert forall|p: Seq<char>| s.filter(wanted).contains(p) <==> (s.contains(p) && wanted(
        p,
    )) by {
        if s.filter(wanted).contains(p) {
            s.lemma_filter_contains_rev(wanted, p);
            let i = choose|i: int| 0 <= i < s.filter(wanted).len() && s.filter(wanted)[i] == p;
            s.lemma_filter_pred(wanted, i);
        }
        if s.contains(p) && wanted(p) {
            let i = choose|i: int| 0 <= i < s.len() && s[i] == p;
            s.lemma_filter_contains(wanted, i);
        }
    }
}

/// The texts of a vector of strings after another was appended to it.
proof fn lemma_texts_append(before: Vec<String>, added: Vec<String>, after: Vec<String>)
    requires
        after@ == before@ + added@,
    ensures
        after.deep_view() == before.deep_view() + added.deep_view(),
        forall|p: Seq<char>|
            after.deep_view().contains(p) <==> (before.deep_view().contains(p)
                || added.deep_view().contains(p)),
{
    let (a, b, c) = (before.deep_view(), added.deep_view(), after.deep_view());
    assert(c =~= a + b);
    assert forall|p: Seq<char>| c.contains(p) <==> (a.contains(p) || b.contains(p)) by {
        if c.contains(p) {
            let i = choose|i: int| 0 <= i < c.len() && c[i] == p;
            if i < a.len() {
                assert(a[i] == p);
            } else {
                assert(b[i - a.len()] == p);
            }
        }
        if a.contains(p) {
            let i = choose|i: int| 0 <= i < a.len() && a[i] == p;
            assert(c[i] == p);
        }
        if b.contains(p) {
            let i = choose|i: int| 0 <= i < b.len() && b[i] == p;
            assert(c[i + a.len()] == p);
        }
    }
}

} // verus!
