//! Keyed stores as ordered association lists.
//!
//! Every token category is an ordered list of `(key, value)` pairs; a
//! lookup returns the value of the first pair whose key matches. All
//! reads are total: a missing key is an ordinary `None`, never an error.

use vstd::prelude::*;

verus! {

/// The value of the first pair in `m` whose key reads `k`, if any.
pub open spec fn assoc_find<V>(m: Seq<(String, V)>, k: Seq<char>) -> Option<V>
    decreases m.len(),
{
    if m.len() == 0 {
        None
    } else if m[0].0@ == k {
        Some(m[0].1)
    } else {
        assoc_find(m.drop_first(), k)
    }
}

/// Passing over pairs whose keys all differ from `k` leaves the lookup
/// result unchanged.
pub proof fn lemma_assoc_find_skip<V>(m: Seq<(String, V)>, k: Seq<char>, i: int)
    requires
        0 <= i <= m.len(),
        forall|j: int| 0 <= j < i ==> m[j].0@ != k,
    ensures
        assoc_find(m, k) == assoc_find(m.skip(i), k),
    decreases i,
{
    if i > 0 {
        assert(m[0].0@ != k);
        assert(forall|j: int| 0 <= j < i - 1 ==> m.drop_first()[j] == m[j + 1]);
        lemma_assoc_find_skip(m.drop_first(), k, i - 1);
        assert(m.drop_first().skip(i - 1) =~= m.skip(i));
    } else {
        assert(m.skip(0) =~= m);
    }
}

/// Look `key` up in the store: the value of the first pair whose key
/// matches, or nothing.
pub fn map_get<'a, V>(m: &'a Vec<(String, V)>, key: &str) -> (r: Option<&'a V>)
    ensures
        match r {
            Some(v) => assoc_find(m@, key@) == Some(*v),
            None => assoc_find(m@, key@) is None,
        },
{
    let n = m.len();
    let mut i: usize = 0;
    while i < n
        invariant
            i <= n,
            n == m@.len(),
            forall|j: int| 0 <= j < i ==> m@[j].0@ != key@,
        decreases n - i,
    {
        if crate::strutil::str_eq(m[i].0.as_str(), key) {
            proof {
                lemma_assoc_find_skip(m@, key@, i as int);
                assert(m@.skip(i as int)[0] == m@[i as int]);
            }
            return Some(&m[i].1);
        }
        i = i + 1;
    }
    proof {
        lemma_assoc_find_skip(m@, key@, n as int);
        assert(m@.skip(n as int) =~= Seq::<(String, V)>::empty());
    }
    None
}

} // verus!
