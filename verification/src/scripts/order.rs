//! The order in which collected scripts stand: by file name, and among
//! scripts of one file name by the whole path.
//!
//! Both are compared as bytes. Because the whole path breaks every tie, the
//! order is total on paths, and a set of paths has exactly one sorted form.

use vstd::prelude::*;
use vstd::string::*;
use crate::text::{
    lemma_text_le_antisymmetric,
    lemma_text_le_reflexive,
    lemma_text_le_total,
    lemma_text_le_transitive,
    lemma_texts_insert,
    str_eq,
    str_le,
    text_le,
};
use crate::scripts::paths::{file_name, path_file_name};

verus! {

/// The name a path is sorted by: its file name, or the empty text where it has
/// none.
pub open spec fn sort_name(path: Seq<char>) -> Seq<char> {
    match file_name(path) {
        Some(name) => name,
        None => Seq::empty(),
    }
}

/// Whether script `a` stands before script `b`, or is `b`.
pub open spec fn script_le(a: Seq<char>, b: Seq<char>) -> bool {
    if sort_name(a) == sort_name(b) {
        text_le(a, b)
    } else {
        text_le(sort_name(a), sort_name(b))
    }
}

/// Whether script `a` stands before script `b`.
pub open spec fn script_lt(a: Seq<char>, b: Seq<char>) -> bool {
    script_le(a, b) && a != b
}

/// Whether every script of `s` stands before all that follow it. Such a
/// sequence holds no script twice.
pub open spec fn strictly_sorted(s: Seq<Seq<char>>) -> bool {
    forall|i: int, j: int| 0 <= i < j < s.len() ==> script_lt(#[trigger] s[i], #[trigger] s[j])
}

/// Every script stands at its own place.
pub proof fn lemma_script_le_reflexive(a: Seq<char>)
    ensures
        script_le(a, a),
{
    lemma_text_le_reflexive(a);
}

/// Of two scripts, one stands before the other, or they are the same.
pub proof fn lemma_script_le_total(a: Seq<char>, b: Seq<char>)
    ensures
        script_le(a, b) || script_le(b, a),
{
    lemma_text_le_total(a, b);
    lemma_text_le_total(sort_name(a), sort_name(b));
}

/// Two scripts that stand before or at each other are the same script: the
/// path breaks every tie.
pub proof fn lemma_script_le_antisymmetric(a: Seq<char>, b: Seq<char>)
    requires
        script_le(a, b),
        script_le(b, a),
    ensures
        a == b,
{
    if sort_name(a) == sort_name(b) {
        lemma_text_le_antisymmetric(a, b);
    } else {
        lemma_text_le_antisymmetric(sort_name(a), sort_name(b));
    }
}

/// What stands before a script stands before all that the script stands
/// before.
pub proof fn lemma_script_le_transitive(a: Seq<char>, b: Seq<char>, c: Seq<char>)
    requires
        script_le(a, b),
        script_le(b, c),
    ensures
        script_le(a, c),
{
    let (na, nb, nc) = (sort_name(a), sort_name(b), sort_name(c));
    if na == nb && nb == nc {
        lemma_text_le_transitive(a, b, c);
    } else if na == nb || nb == nc {
    } else {
        lemma_text_le_transitive(na, nb, nc);
        if na == nc {
            lemma_text_le_antisymmetric(na, nb);
        }
    }
}

/// The strict order of scripts is transitive.
pub proof fn lemma_script_lt_transitive(a: Seq<char>, b: Seq<char>, c: Seq<char>)
    requires
        script_lt(a, b),
        script_lt(b, c),
    ensures
        script_lt(a, c),
{
    lemma_script_le_transitive(a, b, c);
    if a == c {
        lemma_script_le_antisymmetric(a, b);
    }
}

/// Sorted scripts stand in the order of their file names.
pub proof fn lemma_sorted_by_file_name(s: Seq<Seq<char>>, i: int, j: int)
    requires
        strictly_sorted(s),
        0 <= i <= j < s.len(),
    ensures
        text_le(sort_name(s[i]), sort_name(s[j])),
{
    lemma_text_le_reflexive(sort_name(s[i]));
}

/// Two sorted sequences that hold the same scripts are the same sequence.
pub proof fn lemma_strictly_sorted_unique(x: Seq<Seq<char>>, y: Seq<Seq<char>>)
    requires
        strictly_sorted(x),
        strictly_sorted(y),
        forall|p: Seq<char>| x.contains(p) <==> y.contains(p),
    ensures
        x == y,
    decreases x.len(),
{
    if x.len() == 0 {
        if y.len() > 0 {
            assert(y.contains(y[0]));
        }
        assert(x =~= y);
    } else {
        assert(x.contains(x[0]));
        assert(y.contains(x[0]));
        let k = choose|k: int| 0 <= k < y.len() && y[k] == x[0];
        assert(y.contains(y[0]));
        assert(x.contains(y[0]));
        let m = choose|m: int| 0 <= m < x.len() && x[m] == y[0];
        if k > 0 {
            assert(script_lt(y[0], y[k]));
            if m > 0 {
                assert(script_lt(x[0], x[m]));
                lemma_script_le_antisymmetric(x[0], y[0]);
            }
        }
        assert(x[0] == y[0]);
        let xt = x.drop_first();
        let yt = y.drop_first();
        assert(strictly_sorted(xt)) by {
            assert forall|i: int, j: int| 0 <= i < j < xt.len() implies script_lt(
                #[trigger] xt[i],
                #[trigger] xt[j],
            ) by {
                assert(script_lt(x[i + 1], x[j + 1]));
            }
        }
        assert(strictly_sorted(yt)) by {
            assert forall|i: int, j: int| 0 <= i < j < yt.len() implies script_lt(
                #[trigger] yt[i],
                #[trigger] yt[j],
            ) by {
                assert(script_lt(y[i + 1], y[j + 1]));
            }
        }
        assert forall|p: Seq<char>| xt.contains(p) <==> yt.contains(p) by {
            if xt.contains(p) {
                let i = choose|i: int| 0 <= i < xt.len() && xt[i] == p;
                assert(script_lt(x[0], x[i + 1]));
                assert(x.contains(p));
                let j = choose|j: int| 0 <= j < y.len() && y[j] == p;
                assert(yt[j - 1] == p);
            }
            if yt.contains(p) {
                let i = choose|i: int| 0 <= i < yt.len() && yt[i] == p;
                assert(script_lt(y[0], y[i + 1]));
                assert(y.contains(p));
                let j = choose|j: int| 0 <= j < x.len() && x[j] == p;
                assert(xt[j - 1] == p);
            }
        }
        lemma_strictly_sorted_unique(xt, yt);
        assert(x =~= seq![x[0]] + xt);
        assert(y =~= seq![y[0]] + yt);
    }
}

/// The name a path is sorted by.
pub fn sort_name_of(path: &str) -> (name: String)
    ensures
        name@ == sort_name(path@),
{
    match path_file_name(path) {
        Some(name) => name,
        None => String::new(),
    }
}

/// Whether script `a` stands before script `b`, or is `b`.
pub fn script_before(a: &str, b: &str) -> (r: bool)
    ensures
        r == script_le(a@, b@),
{
    let name_a = sort_name_of(a);
    let name_b = sort_name_of(b);
    if str_eq(name_a.as_str(), name_b.as_str()) {
        str_le(a, b)
    } else {
        str_le(name_a.as_str(), name_b.as_str())
    }
}

/// Puts `script` at its place among the sorted `scripts`, unless it is there
/// already.
pub fn insert_script(scripts: &mut Vec<String>, script: String)
    requires
        strictly_sorted(old(scripts).deep_view()),
    ensures
        strictly_sorted(final(scripts).deep_view()),
        forall|p: Seq<char>|
            final(scripts).deep_view().contains(p) <==> (old(scripts).deep_view().contains(p) || p
                == script@),
{
    let ghost before = scripts.deep_view();
    let mut k: usize = 0;
    while k < scripts.len() && !script_before(script.as_str(), scripts[k].as_str())
        invariant
            k <= scripts.len(),
            scripts.deep_view() == before,
            forall|j: int| 0 <= j < k ==> script_lt(#[trigger] before[j], script@),
        decreases scripts.len() - k,
    {
        proof {
            assert(before[k as int] == scripts[k as int]@);
            lemma_script_le_total(script@, before[k as int]);
        }
        k += 1;
    }
    if k < scripts.len() && str_eq(script.as_str(), scripts[k].as_str()) {
        assert(before[k as int] == script@);
        assert(before.contains(script@));
        return ;
    }
    let ghost old_vec = *scripts;
    scripts.insert(k, script);
    proof {
        lemma_texts_insert(old_vec, *scripts, k as int, script);
        let after = scripts.deep_view();
        assert(after == before.insert(k as int, script@));
        if k < before.len() {
            assert(before[k as int] == old_vec[k as int]@);
            assert(script_lt(script@, before[k as int]));
        }
        assert forall|i: int, j: int| 0 <= i < j < after.len() implies script_lt(
            #[trigger] after[i],
            #[trigger] after[j],
        ) by {
            if j < k {
                assert(script_lt(before[i], before[j]));
            } else if j == k {
                assert(script_lt(before[i], script@));
            } else if i == k {
                if j - 1 > k {
                    assert(script_lt(before[k as int], before[j - 1]));
                    lemma_script_lt_transitive(script@, before[k as int], before[j - 1]);
                }
            } else if i < k {
                assert(script_lt(before[i], before[j - 1]));
            } else {
                assert(script_lt(before[i - 1], before[j - 1]));
            }
        }
        assert forall|p: Seq<char>| after.contains(p) <==> (before.contains(p) || p
            == script@) by {
            if after.contains(p) {
                let i = choose|i: int| 0 <= i < after.len() && after[i] == p;
                if i < k {
                    assert(before[i] == p);
                } else if i > k {
                    assert(before[i - 1] == p);
                }
            }
            if before.contains(p) {
                let i = choose|i: int| 0 <= i < before.len() && before[i] == p;
                if i < k {
                    assert(after[i] == p);
                } else {
                    assert(after[i + 1] == p);
                }
            }
            if p == script@ {
                assert(after[k as int] == p);
            }
        }
    }
}

/// The scripts of `scripts`, each once, in sorted order.
pub fn sort_scripts(scripts: &Vec<String>) -> (sorted: Vec<String>)
    ensures
        strictly_sorted(sorted.deep_view()),
        forall|p: Seq<char>| sorted.deep_view().contains(p) <==> scripts.deep_view().contains(p),
{
    let mut sorted: Vec<String> = Vec::new();
    let ghost all = scripts.deep_view();
    assert(sorted.deep_view() =~= Seq::<Seq<char>>::empty());
    for i in 0..scripts.len()
        invariant
            all == scripts.deep_view(),
            strictly_sorted(sorted.deep_view()),
            forall|p: Seq<char>|
                sorted.deep_view().contains(p) <==> all.take(i as int).contains(p),
    {
        let ghost before = sorted.deep_view();
        insert_script(&mut sorted, scripts[i].clone());
        proof {
            let x = all[i as int];
            let shorter = all.take(i as int);
            let longer = all.take(i + 1);
            assert(scripts[i as int]@ == x);
            assert forall|p: Seq<char>| sorted.deep_view().contains(p) <==> longer.contains(p) by {
                if longer.contains(p) {
                    let j = choose|j: int| 0 <= j < longer.len() && longer[j] == p;
                    if j < i {
                        assert(shorter[j] == p);
                    }
                }
                if shorter.contains(p) {
                    let j = choose|j: int| 0 <= j < shorter.len() && shorter[j] == p;
                    assert(longer[j] == p);
                }
                if p == x {
                    assert(longer[i as int] == p);
                }
            }
        }
    }
    assert(all.take(scripts.len() as int) =~= all);
    sorted
}

} // verus!
