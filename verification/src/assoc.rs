//! Small string-keyed association lists (first entry for a key wins).
use vstd::prelude::*;

use crate::text::str_eq;

verus! {

/// An association list of strings as the specification sees it.
pub type AssocView = Seq<(Seq<char>, Seq<char>)>;

/// The view of an association list.
pub open spec fn assoc_view(v: Seq<(String, String)>) -> AssocView {
    Seq::new(v.len(), |i: int| (v[i].0@, v[i].1@))
}

/// The index of the first entry with key `k`, or -1.
pub open spec fn assoc_find(s: AssocView, k: Seq<char>) -> int
    decreases s.len(),
{
    if s.len() == 0 {
        -1
    } else if s[0].0 == k {
        0
    } else {
        let r = assoc_find(s.drop_first(), k);
        if r < 0 {
            -1
        } else {
            r + 1
        }
    }
}

/// The value of the first entry with key `k`.
pub open spec fn assoc_get(s: AssocView, k: Seq<char>) -> Option<Seq<char>> {
    let i = assoc_find(s, k);
    if i >= 0 {
        Some(s[i].1)
    } else {
        None
    }
}

/// `s` with the value for `k` set to `v` (replacing the first entry for `k`, or
/// appending a new entry).
pub open spec fn assoc_put(s: AssocView, k: Seq<char>, v: Seq<char>) -> AssocView {
    let i = assoc_find(s, k);
    if i >= 0 {
        s.update(i, (k, v))
    } else {
        s.push((k, v))
    }
}

/// The first-match index lies in range and points at the first entry for `k`.
pub proof fn lemma_assoc_find(s: AssocView, k: Seq<char>)
    ensures
        -1 <= assoc_find(s, k) < s.len(),
        assoc_find(s, k) >= 0 ==> s[assoc_find(s, k)].0 == k,
        assoc_find(s, k) >= 0 ==> forall|j: int| 0 <= j < assoc_find(s, k) ==> s[j].0 != k,
        assoc_find(s, k) < 0 ==> forall|j: int| 0 <= j < s.len() ==> s[j].0 != k,
    decreases s.len(),
{
    if s.len() > 0 && s[0].0 != k {
        lemma_assoc_find(s.drop_first(), k);
        assert forall|j: int| 1 <= j < s.len() implies s[j].0 == s.drop_first()[j - 1].0 by {}
    }
}

proof fn lemma_assoc_find_unique(s: AssocView, k: Seq<char>, i: int)
    requires
        0 <= i < s.len(),
        s[i].0 == k,
        forall|j: int| 0 <= j < i ==> s[j].0 != k,
    ensures
        assoc_find(s, k) == i,
{
    lemma_assoc_find(s, k);
}

/// Law: after setting `k` to `v`, `k` reads `v` and every other key reads as before.
pub proof fn lemma_assoc_put_get(s: AssocView, k: Seq<char>, v: Seq<char>, other: Seq<char>)
    ensures
        assoc_get(assoc_put(s, k, v), k) == Some(v),
        other != k ==> assoc_get(assoc_put(s, k, v), other) == assoc_get(s, other),
{
    lemma_assoc_find(s, k);
    lemma_assoc_find(s, other);
    let t = assoc_put(s, k, v);
    lemma_assoc_find(t, k);
    lemma_assoc_find(t, other);
    let i = assoc_find(s, k);
    if i >= 0 {
        lemma_assoc_find_unique(t, k, i);
    } else {
        lemma_assoc_find_unique(t, k, s.len() as int);
    }
    if other != k {
        let j = assoc_find(s, other);
        if j >= 0 {
            lemma_assoc_find_unique(t, other, j);
        } else {
            assert forall|m: int| 0 <= m < t.len() implies t[m].0 != other by {
                if m < s.len() && m != i {
                    assert(t[m] == s[m]);
                }
            }
        }
    }
}

fn assoc_index(v: &Vec<(String, String)>, k: &str) -> (r: Option<usize>)
    ensures
        match r {
            Some(i) => i < v@.len() && assoc_find(assoc_view(v@), k@) == i as int,
            None => assoc_find(assoc_view(v@), k@) < 0,
        },
{
    let ghost s = assoc_view(v@);
    proof {
        lemma_assoc_find(s, k@);
    }
    let mut i: usize = 0;
    while i < v.len()
        invariant
            i <= v@.len(),
            s == assoc_view(v@),
            forall|j: int| 0 <= j < i ==> s[j].0 != k@,
        decreases v.len() - i,
    {
        if str_eq(v[i].0.as_str(), k) {
            proof {
                lemma_assoc_find_unique(s, k@, i as int);
            }
            return Some(i);
        }
        i = i + 1;
    }
    proof {
        lemma_assoc_find(s, k@);
        if assoc_find(s, k@) >= 0 {
            assert(s[assoc_find(s, k@)].0 == k@);
        }
    }
    None
}

/// The value stored for `k`.
pub fn assoc_lookup(v: &Vec<(String, String)>, k: &str) -> (r: Option<String>)
    ensures
        match r {
            Some(x) => assoc_get(assoc_view(v@), k@) == Some(x@),
            None => assoc_get(assoc_view(v@), k@) is None,
        },
{
    match assoc_index(v, k) {
        Some(i) => Some(v[i].1.clone()),
        None => None,
    }
}

/// Sets the value for `k` to `val`.
pub fn assoc_insert(v: &mut Vec<(String, String)>, k: String, val: String)
    ensures
        assoc_view(final(v)@) == assoc_put(assoc_view(old(v)@), k@, val@),
{
    let ghost s = assoc_view(v@);
    let ghost kv = k@;
    let ghost vv = val@;
    match assoc_index(v, k.as_str()) {
        Some(i) => {
            v.set(i, (k, val));
            assert(assoc_view(v@) =~= s.update(i as int, (kv, vv)));
        },
        None => {
            v.push((k, val));
            assert(assoc_view(v@) =~= s.push((kv, vv)));
        },
    }
}

} // verus!
