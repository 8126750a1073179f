//! Selecting scripts by name.
//!
//! A script is asked for by its file name alone, whatever directory it comes
//! from. Where several collected scripts share a file name, the one that
//! stands first among them is taken. A name that no script has is set aside
//! and does not stop the others.

use vstd::prelude::*;
use vstd::string::*;
use crate::scripts::paths::{file_name, path_file_name};
use crate::scripts::runner::valid_selections;
use crate::text::{lemma_texts_push, str_eq};

verus! {

/// Whether the script at `path` is asked for by `name`.
pub open spec fn has_name(path: Seq<char>, name: Seq<char>) -> bool {
    file_name(path) == Some(name)
}

/// The index of the first script from `start` on that `name` asks for.
pub open spec fn first_match_from(scripts: Seq<Seq<char>>, name: Seq<char>, start: int) -> Option<
    usize,
>
    decreases scripts.len() - start,
{
    if start < 0 || start >= scripts.len() {
        None
    } else if has_name(scripts[start], name) {
        Some(start as usize)
    } else {
        first_match_from(scripts, name, start + 1)
    }
}

/// The index of the first script that `name` asks for.
pub open spec fn first_match(scripts: Seq<Seq<char>>, name: Seq<char>) -> Option<usize> {
    first_match_from(scripts, name, 0)
}

/// The selection that the names stand for: for each name that some script
/// has, in the order of the names, the index of the first such script.
pub open spec fn selections_of(scripts: Seq<Seq<char>>, names: Seq<Seq<char>>) -> Seq<usize>
    decreases names.len(),
{
    if names.len() == 0 {
        Seq::empty()
    } else {
        let before = selections_of(scripts, names.drop_last());
        match first_match(scripts, names.last()) {
            Some(i) => before.push(i),
            None => before,
        }
    }
}

/// The names that no script has, in the order of the names.
pub open spec fn unmatched_of(scripts: Seq<Seq<char>>, names: Seq<Seq<char>>) -> Seq<Seq<char>>
    decreases names.len(),
{
    if names.len() == 0 {
        Seq::empty()
    } else {
        let before = unmatched_of(scripts, names.drop_last());
        match first_match(scripts, names.last()) {
            Some(_) => before,
            None => before.push(names.last()),
        }
    }
}

/// What the first match is: the script at that index has the name and none
/// before it has, and where there is no match, no script has the name.
pub proof fn lemma_first_match_from(scripts: Seq<Seq<char>>, name: Seq<char>, start: int)
    requires
        0 <= start,
        scripts.len() <= usize::MAX,
    ensures
        match first_match_from(scripts, name, start) {
            Some(i) => {
                &&& start <= i < scripts.len()
                &&& has_name(scripts[i as int], name)
                &&& forall|j: int| start <= j < i ==> !has_name(#[trigger] scripts[j], name)
            },
            None => forall|j: int| start <= j < scripts.len() ==> !has_name(
                #[trigger] scripts[j],
                name,
            ),
        },
    decreases scripts.len() - start,
{
    if start < scripts.len() && !has_name(scripts[start], name) {
        lemma_first_match_from(scripts, name, start + 1);
    }
}

/// A script is found by its own file name, whatever directory it comes from:
/// the name of any collected script selects a script with that file name, and
/// it is the first one that has it.
pub proof fn lemma_name_selects_script(scripts: Seq<Seq<char>>, i: int)
    requires
        0 <= i < scripts.len(),
        scripts.len() <= usize::MAX,
        file_name(scripts[i]) is Some,
    ensures
        first_match(scripts, file_name(scripts[i])->0) matches Some(j) && j <= i && file_name(
            scripts[j as int],
        ) == file_name(scripts[i]),
{
    lemma_first_match_from(scripts, file_name(scripts[i])->0, 0);
}

/// Every selection that names stand for is the index of a script.
pub proof fn lemma_selections_valid(scripts: Seq<Seq<char>>, names: Seq<Seq<char>>)
    requires
        scripts.len() <= usize::MAX,
    ensures
        valid_selections(selections_of(scripts, names), scripts.len()),
        selections_of(scripts, names).len() + unmatched_of(scripts, names).len() == names.len(),
    decreases names.len(),
{
    if names.len() > 0 {
        lemma_selections_valid(scripts, names.drop_last());
        lemma_first_match_from(scripts, names.last(), 0);
    }
}

/// The index of the first script that has the file name `name`.
pub fn find_script(scripts: &Vec<String>, name: &str) -> (found: Option<usize>)
    ensures
        found == first_match(scripts.deep_view(), name@),
{
    let ghost all = scripts.deep_view();
    let mut i: usize = 0;
    while i < scripts.len()
        invariant
            i <= scripts.len(),
            all == scripts.deep_view(),
            first_match(all, name@) == first_match_from(all, name@, i as int),
        decreases scripts.len() - i,
    {
        assert(all[i as int] == scripts[i as int]@);
        let matches = match path_file_name(scripts[i].as_str()) {
            Some(found) => str_eq(found.as_str(), name),
            None => false,
        };
        if matches {
            return Some(i);
        }
        i += 1;
    }
    None
}

/// What a list of names selects.
pub struct Resolution {
    /// The indices of the scripts that were asked for, in the order of the
    /// names.
    pub selections: Vec<usize>,
    /// The names that no script has, in the order of the names.
    pub unmatched: Vec<String>,
}

/// Turns names into a selection. Each name selects the first script with that
/// file name. A name that no script has goes to the unmatched names.
pub fn resolve_names(scripts: &Vec<String>, names: &Vec<String>) -> (resolution: Resolution)
    ensures
        resolution.selections@ == selections_of(scripts.deep_view(), names.deep_view()),
        resolution.unmatched.deep_view() == unmatched_of(scripts.deep_view(), names.deep_view()),
        valid_selections(resolution.selections@, scripts@.len()),
{
    let ghost all = scripts.deep_view();
    let ghost wanted = names.deep_view();
    let mut selections: Vec<usize> = Vec::new();
    let mut unmatched: Vec<String> = Vec::new();
    assert(unmatched.deep_view() =~= Seq::<Seq<char>>::empty());
    for k in 0..names.len()
        invariant
            all == scripts.deep_view(),
            wanted == names.deep_view(),
            selections@ == selections_of(all, wanted.take(k as int)),
            unmatched.deep_view() == unmatched_of(all, wanted.take(k as int)),
    {
        proof {
            assert(wanted.take(k + 1).drop_last() =~= wanted.take(k as int));
            assert(wanted.take(k + 1).last() == names[k as int]@);
        }
        match find_script(scripts, names[k].as_str()) {
            Some(i) => {
                selections.push(i);
            },
            None => {
                let ghost before = unmatched;
                let name = names[k].clone();
                unmatched.push(name);
                proof {
                    lemma_texts_push(before, unmatched, name);
                }
            },
        }
    }
    proof {
        assert(wanted.take(names.len() as int) =~= wanted);
        assert(all.len() == scripts.len());
        lemma_selections_valid(all, wanted);
    }
    Resolution { selections, unmatched }
}

/// The selection that is offered at first: every script where `all` is set,
/// none otherwise.
pub fn default_selections(count: usize, all: bool) -> (defaults: Vec<bool>)
    ensures
        defaults@ == Seq::new(count as nat, |i: int| all),
{
    let mut defaults: Vec<bool> = Vec::new();
    for i in 0..count
        invariant
            defaults@ == Seq::new(i as nat, |j: int| all),
    {
        defaults.push(all);
        assert(defaults@ =~= Seq::new((i + 1) as nat, |j: int| all));
    }
    defaults
}

} // verus!
