//! Text as the rest of the library sees it: a `String` is its sequence of
//! characters, and strings are ordered by their UTF-8 bytes, as `str` orders
//! them.

use vstd::prelude::*;
use vstd::relations::{sorted_by, total_ordering};
use vstd::seq_lib::{lemma_sorted_unique, to_multiset_build, to_multiset_insert};
use vstd::string::*;
use vstd::utf8::*;

verus! {

/// Lexicographic order of byte strings: the first differing byte decides, and a
/// proper prefix comes before what it is a prefix of.
pub open spec fn lex_le(a: Seq<u8>, b: Seq<u8>) -> bool
    decreases a.len(),
{
    if a.len() == 0 {
        true
    } else if b.len() == 0 {
        false
    } else if a[0] != b[0] {
        a[0] < b[0]
    } else {
        lex_le(a.drop_first(), b.drop_first())
    }
}

/// The order of two texts: that of their UTF-8 encodings.
pub open spec fn text_le(a: Seq<char>, b: Seq<char>) -> bool {
    lex_le(encode_utf8(a), encode_utf8(b))
}

/// Two byte strings that agree on their first `k` bytes compare as their
/// remainders do.
pub proof fn lemma_lex_le_common_prefix(a: Seq<u8>, b: Seq<u8>, k: int)
    requires
        0 <= k <= a.len(),
        k <= b.len(),
        forall|j: int| 0 <= j < k ==> a[j] == b[j],
    ensures
        lex_le(a, b) == lex_le(a.skip(k), b.skip(k)),
    decreases k,
{
    if k > 0 {
        assert(a[0] == b[0]);
        lemma_lex_le_common_prefix(a.drop_first(), b.drop_first(), k - 1);
        assert(a.drop_first().skip(k - 1) =~= a.skip(k));
        assert(b.drop_first().skip(k - 1) =~= b.skip(k));
    } else {
        assert(a.skip(0) =~= a);
        assert(b.skip(0) =~= b);
    }
}

/// The order of byte strings is reflexive.
pub proof fn lemma_lex_le_reflexive(a: Seq<u8>)
    ensures
        lex_le(a, a),
    decreases a.len(),
{
    if a.len() > 0 {
        lemma_lex_le_reflexive(a.drop_first());
    }
}

/// Any two byte strings are ordered, one way or the other.
pub proof fn lemma_lex_le_total(a: Seq<u8>, b: Seq<u8>)
    ensures
        lex_le(a, b) || lex_le(b, a),
    decreases a.len(),
{
    if a.len() > 0 && b.len() > 0 && a[0] == b[0] {
        lemma_lex_le_total(a.drop_first(), b.drop_first());
    }
}

/// Byte strings that are ordered both ways are the same.
pub proof fn lemma_lex_le_antisymmetric(a: Seq<u8>, b: Seq<u8>)
    requires
        lex_le(a, b),
        lex_le(b, a),
    ensures
        a == b,
    decreases a.len(),
{
    if a.len() == 0 || b.len() == 0 {
        assert(a =~= b);
    } else {
        lemma_lex_le_antisymmetric(a.drop_first(), b.drop_first());
        assert(a =~= seq![a[0]] + a.drop_first());
        assert(b =~= seq![b[0]] + b.drop_first());
    }
}

/// The order of byte strings is transitive.
pub proof fn lemma_lex_le_transitive(a: Seq<u8>, b: Seq<u8>, c: Seq<u8>)
    requires
        lex_le(a, b),
        lex_le(b, c),
    ensures
        lex_le(a, c),
    decreases a.len(),
{
    if a.len() > 0 && b.len() > 0 && c.len() > 0 && a[0] == b[0] && b[0] == c[0] {
        lemma_lex_le_transitive(a.drop_first(), b.drop_first(), c.drop_first());
    }
}

/// Texts with the same UTF-8 encoding are the same text.
pub proof fn lemma_encoding_injective(a: Seq<char>, b: Seq<char>)
    requires
        encode_utf8(a) == encode_utf8(b),
    ensures
        a == b,
{
    encode_utf8_decode_utf8(a);
    encode_utf8_decode_utf8(b);
}

/// The order of texts is reflexive.
pub proof fn lemma_text_le_reflexive(a: Seq<char>)
    ensures
        text_le(a, a),
{
    lemma_lex_le_reflexive(encode_utf8(a));
}

/// Any two texts are ordered, one way or the other.
pub proof fn lemma_text_le_total(a: Seq<char>, b: Seq<char>)
    ensures
        text_le(a, b) || text_le(b, a),
{
    lemma_lex_le_total(encode_utf8(a), encode_utf8(b));
}

/// Texts that are ordered both ways are the same text.
pub proof fn lemma_text_le_antisymmetric(a: Seq<char>, b: Seq<char>)
    requires
        text_le(a, b),
        text_le(b, a),
    ensures
        a == b,
{
    lemma_lex_le_antisymmetric(encode_utf8(a), encode_utf8(b));
    lemma_encoding_injective(a, b);
}

/// The order of texts is transitive.
pub proof fn lemma_text_le_transitive(a: Seq<char>, b: Seq<char>, c: Seq<char>)
    requires
        text_le(a, b),
        text_le(b, c),
    ensures
        text_le(a, c),
{
    lemma_lex_le_transitive(encode_utf8(a), encode_utf8(b), encode_utf8(c));
}

/// Whether `a` comes before or equals `b` in lexicographic order.
pub fn bytes_le(a: &[u8], b: &[u8]) -> (r: bool)
    ensures
        r == lex_le(a@, b@),
{
    let mut i: usize = 0;
    while i < a.len() && i < b.len()
        invariant
            i <= a.len(),
            i <= b.len(),
            forall|j: int| 0 <= j < i ==> a@[j] == b@[j],
        decreases a.len() - i,
    {
        if a[i] != b[i] {
            proof {
                lemma_lex_le_common_prefix(a@, b@, i as int);
            }
            return a[i] < b[i];
        }
        i += 1;
    }
    proof {
        lemma_lex_le_common_prefix(a@, b@, i as int);
    }
    i == a.len()
}

/// Whether two byte strings are the same.
pub fn bytes_eq(a: &[u8], b: &[u8]) -> (r: bool)
    ensures
        r == (a@ == b@),
{
    if a.len() != b.len() {
        return false;
    }
    let mut i: usize = 0;
    while i < a.len()
        invariant
            i <= a.len(),
            a.len() == b.len(),
            forall|j: int| 0 <= j < i ==> a@[j] == b@[j],
        decreases a.len() - i,
    {
        if a[i] != b[i] {
            return false;
        }
        i += 1;
    }
    assert(a@ =~= b@);
    true
}

/// Whether two strings hold the same text.
pub fn str_eq(a: &str, b: &str) -> (r: bool)
    ensures
        r == (a@ == b@),
{
    let r = bytes_eq(a.as_bytes(), b.as_bytes());
    proof {
        if r {
            lemma_encoding_injective(a@, b@);
        }
    }
    r
}

/// Whether `a` comes before or equals `b` in the order of their bytes.
pub fn str_le(a: &str, b: &str) -> (r: bool)
    ensures
        r == text_le(a@, b@),
{
    bytes_le(a.as_bytes(), b.as_bytes())
}

/// The text of `a` followed by that of `b`.
pub fn append_text(a: &str, b: &str) -> (r: String)
    ensures
        r@ == a@ + b@,
{
    let mut r = String::from_str(a);
    r.append(b);
    r
}

/// A copy of a vector of strings.
pub fn copy_texts(texts: &Vec<String>) -> (copy: Vec<String>)
    ensures
        copy.deep_view() == texts.deep_view(),
{
    let mut copy: Vec<String> = Vec::new();
    for i in 0..texts.len()
        invariant
            copy.len() == i,
            forall|j: int| 0 <= j < i ==> copy[j]@ == texts[j]@,
    {
        copy.push(texts[i].clone());
    }
    assert(copy.deep_view() =~= texts.deep_view());
    copy
}

/// The texts of a vector of strings after one more string was pushed.
pub proof fn lemma_texts_push(before: Vec<String>, after: Vec<String>, x: String)
    requires
        after@ == before@.push(x),
    ensures
        after.deep_view() == before.deep_view().push(x@),
{
    assert(after.deep_view() =~= before.deep_view().push(x@));
}

/// The texts of a vector of strings after one more string was put in at `k`.
pub proof fn lemma_texts_insert(before: Vec<String>, after: Vec<String>, k: int, x: String)
    requires
        0 <= k <= before@.len(),
        after@ == before@.insert(k, x),
    ensures
        after.deep_view() == before.deep_view().insert(k, x@),
{
    assert(after.deep_view() =~= before.deep_view().insert(k, x@));
}

/// Whether no text of `s` comes before one that stands earlier in `s`.
pub open spec fn sorted_texts(s: Seq<Seq<char>>) -> bool {
    forall|i: int, j: int| 0 <= i <= j < s.len() ==> text_le(#[trigger] s[i], #[trigger] s[j])
}

/// Sorted texts are determined by what they hold: two sorted sequences with
/// the same texts, each as often in one as in the other, are the same.
pub proof fn lemma_sorted_texts_unique(x: Seq<Seq<char>>, y: Seq<Seq<char>>)
    requires
        sorted_texts(x),
        sorted_texts(y),
        x.to_multiset() == y.to_multiset(),
    ensures
        x == y,
{
    let leq = |a: Seq<char>, b: Seq<char>| text_le(a, b);
    assert(total_ordering(leq)) by {
        assert forall|a: Seq<char>| #[trigger] leq(a, a) by {
            lemma_text_le_reflexive(a);
        }
        assert forall|a: Seq<char>, b: Seq<char>| #[trigger] leq(a, b) && #[trigger] leq(
            b,
            a,
        ) implies a == b by {
            lemma_text_le_antisymmetric(a, b);
        }
        assert forall|a: Seq<char>, b: Seq<char>, c: Seq<char>| #[trigger] leq(a, b)
            && #[trigger] leq(b, c) implies leq(a, c) by {
            lemma_text_le_transitive(a, b, c);
        }
        assert forall|a: Seq<char>, b: Seq<char>| #[trigger] leq(a, b) || #[trigger] leq(b, a) by {
            lemma_text_le_total(a, b);
        }
    }
    assert(sorted_by(x, leq)) by {
        assert forall|i: int, j: int| 0 <= i < j < x.len() implies #[trigger] leq(x[i], x[j]) by {
            assert(text_le(x[i], x[j]));
        }
    }
    assert(sorted_by(y, leq)) by {
        assert forall|i: int, j: int| 0 <= i < j < y.len() implies #[trigger] leq(y[i], y[j]) by {
            assert(text_le(y[i], y[j]));
        }
    }
    lemma_sorted_unique(x, y, leq);
}

/// Puts `text` at its place among the sorted `texts`.
pub fn insert_text(texts: &mut Vec<String>, text: String)
    requires
        sorted_texts(old(texts).deep_view()),
    ensures
        sorted_texts(final(texts).deep_view()),
        final(texts).deep_view().to_multiset() == old(texts).deep_view().to_multiset().insert(
            text@,
        ),
{
    let ghost before = texts.deep_view();
    let mut k: usize = 0;
    while k < texts.len() && !str_le(text.as_str(), texts[k].as_str())
        invariant
            k <= texts.len(),
            texts.deep_view() == before,
            forall|j: int| 0 <= j < k ==> text_le(#[trigger] before[j], text@),
        decreases texts.len() - k,
    {
        proof {
            assert(before[k as int] == texts[k as int]@);
            lemma_text_le_total(text@, before[k as int]);
        }
        k += 1;
    }
    let ghost old_vec = *texts;
    texts.insert(k, text);
    proof {
        lemma_texts_insert(old_vec, *texts, k as int, text);
        to_multiset_insert(before, k as int, text@);
        let after = texts.deep_view();
        lemma_text_le_reflexive(text@);
        if k < before.len() {
            assert(before[k as int] == old_vec[k as int]@);
        }
        assert forall|i: int, j: int| 0 <= i <= j < after.len() implies text_le(
            #[trigger] after[i],
            #[trigger] after[j],
        ) by {
            if j < k {
                assert(text_le(before[i], before[j]));
            } else if j == k {
                if i < k {
                    assert(text_le(before[i], text@));
                }
            } else if i == k {
                assert(text_le(before[k as int], before[j - 1]));
                lemma_text_le_transitive(text@, before[k as int], before[j - 1]);
            } else if i < k {
                assert(text_le(before[i], before[j - 1]));
            } else {
                assert(text_le(before[i - 1], before[j - 1]));
            }
        }
    }
}

/// The texts in ascending order, each as often as it was given.
pub fn sort_texts(texts: &Vec<String>) -> (sorted: Vec<String>)
    ensures
        sorted_texts(sorted.deep_view()),
        sorted.deep_view().to_multiset() == texts.deep_view().to_multiset(),
{
    let ghost all = texts.deep_view();
    let mut sorted: Vec<String> = Vec::new();
    assert(sorted.deep_view() =~= all.take(0));
    for i in 0..texts.len()
        invariant
            all == texts.deep_view(),
            sorted_texts(sorted.deep_view()),
            sorted.deep_view().to_multiset() == all.take(i as int).to_multiset(),
    {
        proof {
            assert(all.take(i + 1) =~= all.take(i as int).push(texts[i as int]@));
            to_multiset_build(all.take(i as int), texts[i as int]@);
        }
        insert_text(&mut sorted, texts[i].clone());
    }
    assert(all.take(texts.len() as int) =~= all);
    sorted
}

} // verus!
