//! Script paths as text.
//!
//! A path is a string whose parts are separated by `/`. Empty parts and `.`
//! parts name nothing and are skipped, so `a//b/./c.sh` and `a/b/c.sh` have the
//! same components. A `..` part is kept as a component, but is never a file
//! name or a directory name.

use vstd::prelude::*;
use vstd::string::*;
use crate::text::{append_text, lemma_texts_push, str_eq};

verus! {

/// The index of the first `/` in `s`, or the length of `s` where it has none.
pub open spec fn first_separator(s: Seq<char>) -> int
    decreases s.len(),
{
    if s.len() == 0 {
        0
    } else if s[0] == '/' {
        0
    } else {
        1 + first_separator(s.drop_first())
    }
}

/// Whether a part between two separators is a component: it is neither empty
/// nor `.`.
pub open spec fn is_component(part: Seq<char>) -> bool {
    part.len() > 0 && part != "."@
}

/// The components of a path, in order.
pub open spec fn components(s: Seq<char>) -> Seq<Seq<char>>
    decreases s.len(),
{
    let k = first_separator(s);
    let head = s.take(k);
    let tail = if 0 <= k < s.len() {
        components(s.skip(k + 1))
    } else {
        Seq::empty()
    };
    if is_component(head) {
        seq![head] + tail
    } else {
        tail
    }
}

/// Whether `name` can be the name of a file or directory.
pub open spec fn is_entry_name(name: Seq<char>) -> bool {
    name != ".."@
}

/// The file name of a path: its last component, unless that is `..`.
pub open spec fn file_name(path: Seq<char>) -> Option<Seq<char>> {
    let parts = components(path);
    if parts.len() > 0 && is_entry_name(parts.last()) {
        Some(parts.last())
    } else {
        None
    }
}

/// The name of the directory that holds the last component of a path: the
/// component before the last, unless that is `..`.
pub open spec fn parent_name(path: Seq<char>) -> Option<Seq<char>> {
    let parts = components(path);
    if parts.len() > 1 && is_entry_name(parts[parts.len() - 2]) {
        Some(parts[parts.len() - 2])
    } else {
        None
    }
}

/// The index of the last `.` in `name`, or -1 where it has none.
pub open spec fn last_dot(name: Seq<char>) -> int
    decreases name.len(),
{
    if name.len() == 0 {
        -1
    } else if name.last() == '.' {
        name.len() - 1
    } else {
        last_dot(name.drop_last())
    }
}

/// The extension of a file name: what follows its last `.`, where that `.` is
/// not the first character of the name.
pub open spec fn name_extension(name: Seq<char>) -> Option<Seq<char>> {
    let d = last_dot(name);
    if d > 0 {
        Some(name.skip(d + 1))
    } else {
        None
    }
}

/// The extension of the file name of a path.
pub open spec fn extension(path: Seq<char>) -> Option<Seq<char>> {
    match file_name(path) {
        Some(name) => name_extension(name),
        None => None,
    }
}

/// `k` is the first separator of `t` where no `/` stands before `k` and either
/// `t` ends at `k` or `t[k]` is `/`.
pub proof fn lemma_first_separator_at(t: Seq<char>, k: int)
    requires
        0 <= k <= t.len(),
        forall|j: int| 0 <= j < k ==> t[j] != '/',
        k < t.len() ==> t[k] == '/',
    ensures
        first_separator(t) == k,
    decreases k,
{
    if k > 0 {
        assert(t[0] != '/');
        lemma_first_separator_at(t.drop_first(), k - 1);
    }
}

/// `d` is the last dot of `name` where `name[d]` is `.` and no `.` follows, and
/// the last dot is -1 where `name` holds no `.` at all.
pub proof fn lemma_last_dot_at(name: Seq<char>, d: int)
    requires
        -1 <= d < name.len(),
        d >= 0 ==> name[d] == '.',
        forall|j: int| d < j < name.len() ==> name[j] != '.',
    ensures
        last_dot(name) == d,
    decreases name.len(),
{
    if name.len() > 0 && d < name.len() - 1 {
        lemma_last_dot_at(name.drop_last(), d);
    }
}

/// What the first separator is: no `/` stands before it, and it is a `/`
/// unless the text ends there.
pub proof fn lemma_first_separator_is_first(s: Seq<char>)
    ensures
        0 <= first_separator(s) <= s.len(),
        forall|j: int| 0 <= j < first_separator(s) ==> s[j] != '/',
        first_separator(s) < s.len() ==> s[first_separator(s)] == '/',
    decreases s.len(),
{
    if s.len() > 0 && s[0] != '/' {
        let rest = s.drop_first();
        lemma_first_separator_is_first(rest);
        assert forall|j: int| 0 <= j < first_separator(s) implies s[j] != '/' by {
            if j > 0 {
                assert(rest[j - 1] == s[j]);
            }
        }
    }
}

/// Whether `name` is the name of one entry: it is a component, holds no `/`,
/// and is not `..`.
pub open spec fn is_plain_name(name: Seq<char>) -> bool {
    &&& is_component(name)
    &&& is_entry_name(name)
    &&& forall|j: int| 0 <= j < name.len() ==> name[j] != '/'
}

/// A text without `/` is its own single component, or none where it is empty
/// or `.`.
pub proof fn lemma_components_of_part(part: Seq<char>)
    requires
        forall|j: int| 0 <= j < part.len() ==> part[j] != '/',
    ensures
        components(part) == if is_component(part) {
            seq![part]
        } else {
            Seq::<Seq<char>>::empty()
        },
{
    lemma_first_separator_at(part, part.len() as int);
    assert(part.take(part.len() as int) =~= part);
    if is_component(part) {
        assert(seq![part] + Seq::<Seq<char>>::empty() =~= seq![part]);
    }
}

/// The components of two paths joined by a separator are those of the first
/// followed by those of the second.
pub proof fn lemma_components_join(a: Seq<char>, b: Seq<char>)
    ensures
        components(a + "/"@ + b) == components(a) + components(b),
    decreases a.len(),
{
    reveal_strlit("/");
    let sep = "/"@;
    assert(sep.len() == 1 && sep[0] == '/');
    let s = a + sep + b;
    lemma_first_separator_is_first(a);
    let k = first_separator(a);
    assert(s[a.len() as int] == '/');
    assert forall|j: int| 0 <= j < k implies s[j] != '/' by {
        assert(s[j] == a[j]);
    }
    if k < a.len() {
        assert(s[k] == a[k]);
    }
    lemma_first_separator_at(s, k);
    assert(s.take(k) =~= a.take(k));
    if k < a.len() {
        let rest = a.skip(k + 1);
        lemma_components_join(rest, b);
        assert(s.skip(k + 1) =~= rest + sep + b);
        if is_component(a.take(k)) {
            assert(seq![a.take(k)] + (components(rest) + components(b)) =~= (seq![a.take(k)]
                + components(rest)) + components(b));
        }
    } else {
        assert(s.skip(k + 1) =~= b);
        assert(a.take(k) =~= a);
        if is_component(a) {
            assert(seq![a] + Seq::<Seq<char>>::empty() =~= seq![a]);
        } else {
            assert(Seq::<Seq<char>>::empty() + components(b) =~= components(b));
        }
    }
}

/// An entry of a directory: the path of the directory, a separator and the
/// plain name of the entry. Its components are those of the directory and the
/// name, its file name is the name, and the name of its directory is the file
/// name of the directory's path.
pub proof fn lemma_entry_of_directory(dir: Seq<char>, name: Seq<char>)
    requires
        is_plain_name(name),
    ensures
        components(dir + "/"@ + name) == components(dir).push(name),
        file_name(dir + "/"@ + name) == Some(name),
        parent_name(dir + "/"@ + name) == file_name(dir),
{
    lemma_components_join(dir, name);
    lemma_components_of_part(name);
    assert(components(dir) + seq![name] =~= components(dir).push(name));
}

/// Splits a path into its components.
pub fn path_components(path: &str) -> (parts: Vec<String>)
    ensures
        parts.deep_view() == components(path@),
{
    let n = path.unicode_len();
    let mut parts: Vec<String> = Vec::new();
    let mut start: usize = 0;
    let mut i: usize = 0;
    assert(parts.deep_view() =~= Seq::<Seq<char>>::empty());
    assert(path@.skip(0) =~= path@);
    for c in it: path.chars()
        invariant
            i == it.index(),
            it.seq() == path@,
            n == path@.len(),
            start <= i,
            forall|j: int| start <= j < i ==> path@[j] != '/',
            components(path@) == parts.deep_view() + components(path@.skip(start as int)),
    {
        if c == '/' {
            let piece = path.substring_char(start, i);
            let ghost rest = path@.skip(start as int);
            proof {
                lemma_first_separator_at(rest, i - start);
                assert(rest.take(i - start) =~= piece@);
                assert(rest.skip(i - start + 1) =~= path@.skip(i + 1));
            }
            if piece.unicode_len() > 0 && !str_eq(piece, ".") {
                let ghost before = parts;
                let owned = String::from_str(piece);
                parts.push(owned);
                proof {
                    lemma_texts_push(before, parts, owned);
                    assert(parts.deep_view() + components(path@.skip(i + 1)) =~= before.deep_view()
                        + (seq![piece@] + components(path@.skip(i + 1))));
                }
            }
            start = i + 1;
        }
        i += 1;
    }
    let piece = path.substring_char(start, n);
    let ghost rest = path@.skip(start as int);
    proof {
        lemma_first_separator_at(rest, n - start);
        assert(rest.take(n - start) =~= piece@);
    }
    if piece.unicode_len() > 0 && !str_eq(piece, ".") {
        let ghost before = parts;
        let owned = String::from_str(piece);
        parts.push(owned);
        proof {
            lemma_texts_push(before, parts, owned);
            assert(before.deep_view() + (seq![piece@] + Seq::<Seq<char>>::empty())
                =~= parts.deep_view());
        }
    } else {
        assert(parts.deep_view() + Seq::<Seq<char>>::empty() =~= parts.deep_view());
    }
    parts
}

/// The file name of a path, where it has one.
pub fn path_file_name(path: &str) -> (name: Option<String>)
    ensures
        name.deep_view() == file_name(path@),
{
    let mut parts = path_components(path);
    let ghost all = parts.deep_view();
    match parts.pop() {
        Some(last) => {
            assert(last@ == all.last());
            if str_eq(last.as_str(), "..") {
                None
            } else {
                Some(last)
            }
        },
        None => None,
    }
}

/// The name of the directory that holds the last component of a path, where
/// there is one.
pub fn path_parent_name(path: &str) -> (name: Option<String>)
    ensures
        name.deep_view() == parent_name(path@),
{
    let mut parts = path_components(path);
    let ghost all = parts.deep_view();
    if parts.len() < 2 {
        return None;
    }
    let _ = parts.pop();
    match parts.pop() {
        Some(dir) => {
            assert(dir@ == all[all.len() - 2]);
            if str_eq(dir.as_str(), "..") {
                None
            } else {
                Some(dir)
            }
        },
        None => None,
    }
}

/// The extension of a file name, where it has one.
pub fn file_extension(name: &str) -> (ext: Option<String>)
    ensures
        ext.deep_view() == name_extension(name@),
{
    let n = name.unicode_len();
    let mut dot: Option<usize> = None;
    let mut i: usize = 0;
    for c in it: name.chars()
        invariant
            i == it.index(),
            it.seq() == name@,
            n == name@.len(),
            dot matches Some(d) ==> d < i && name@[d as int] == '.',
            forall|j: int|
                (match dot {
                    Some(d) => d as int,
                    None => -1,
                }) < j < i ==> name@[j] != '.',
    {
        if c == '.' {
            dot = Some(i);
        }
        i += 1;
    }
    match dot {
        Some(d) => {
            proof {
                lemma_last_dot_at(name@, d as int);
            }
            if d > 0 {
                let tail = name.substring_char(d + 1, n);
                assert(tail@ =~= name@.skip(d + 1));
                Some(String::from_str(tail))
            } else {
                None
            }
        },
        None => {
            proof {
                lemma_last_dot_at(name@, -1);
            }
            None
        },
    }
}

/// The extension of the file name of a path, where it has one.
pub fn path_extension(path: &str) -> (ext: Option<String>)
    ensures
        ext.deep_view() == extension(path@),
{
    match path_file_name(path) {
        Some(name) => file_extension(name.as_str()),
        None => None,
    }
}

/// `dir` and `name` joined by one separator.
pub fn join(dir: &str, name: &str) -> (path: String)
    ensures
        path@ == dir@ + "/"@ + name@,
{
    let with_separator = append_text(dir, "/");
    append_text(with_separator.as_str(), name)
}

} // verus!
