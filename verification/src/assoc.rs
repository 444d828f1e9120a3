//! Small string-keyed tables held as a list of `(key, value)` pairs. A key
//! reads as the value of its first pair; inserting replaces every earlier
//! binding of the key and removing drops them all, so the list behaves as a
//! map from key text to value.
use vstd::prelude::*;

use crate::text::str_eq;

verus! {

/// The value bound to `k`: the value of the first pair whose key spells `k`.
pub open spec fn assoc_get<V>(s: Seq<(String, V)>, k: Seq<char>) -> Option<V>
    decreases s.len(),
{
    if s.len() == 0 {
        None
    } else if s[0].0@ == k {
        Some(s[0].1)
    } else {
        assoc_get(s.drop_first(), k)
    }
}

/// Looking a key up in a list extended at its end.
pub proof fn lemma_assoc_push<V>(t: Seq<(String, V)>, x: (String, V), k: Seq<char>)
    ensures
        assoc_get(t.push(x), k) == match assoc_get(t, k) {
            Some(v) => Some(v),
            None => if x.0@ == k {
                Some(x.1)
            } else {
                None
            },
        },
    decreases t.len(),
{
    if t.len() > 0 {
        assert(t.push(x).drop_first() =~= t.drop_first().push(x));
        assert(t.push(x)[0] == t[0]);
        lemma_assoc_push(t.drop_first(), x, k);
    } else {
        assert(t.push(x).drop_first() =~= Seq::<(String, V)>::empty());
        assert(t.push(x)[0] == x);
        assert(assoc_get(t, k) is None);
        assert(assoc_get(t.push(x).drop_first(), k) is None);
    }
}

pub proof fn lemma_assoc_skip<V>(s: Seq<(String, V)>, i: int, k: Seq<char>)
    requires
        0 <= i < s.len(),
        s[i].0@ != k,
    ensures
        assoc_get(s.skip(i), k) == assoc_get(s.skip(i + 1), k),
{
    assert(s.skip(i).drop_first() =~= s.skip(i + 1));
}

/// Index of the pair that binds `k`, if any.
pub fn assoc_find<V>(s: &Vec<(String, V)>, k: &str) -> (r: Option<usize>)
    ensures
        match r {
            Some(i) => i < s@.len() && s@[i as int].0@ == k@ && assoc_get(s@, k@) == Some(
                s@[i as int].1,
            ),
            None => assoc_get(s@, k@) is None,
        },
{
    let n = s.len();
    let mut i: usize = 0;
    assert(s@.skip(0) =~= s@);
    while i < n
        invariant
            n == s@.len(),
            i <= n,
            assoc_get(s@, k@) == assoc_get(s@.skip(i as int), k@),
        decreases n - i,
    {
        if str_eq(s[i].0.as_str(), k) {
            return Some(i);
        }
        proof {
            lemma_assoc_skip(s@, i as int, k@);
        }
        i = i + 1;
    }
    None
}

/// Removes every binding of `k`; tells whether `k` was bound.
pub fn assoc_remove<V>(s: &mut Vec<(String, V)>, k: &str) -> (removed: bool)
    ensures
        removed == (assoc_get(old(s)@, k@) is Some),
        forall|q: Seq<char>|
            #[trigger] assoc_get(final(s)@, q) == if q == k@ {
                None
            } else {
                assoc_get(old(s)@, q)
            },
{
    let ghost orig = s@;
    let mut rest: Vec<(String, V)> = Vec::new();
    std::mem::swap(&mut rest, s);
    let mut removed = false;
    let ghost mut i: int = 0;
    assert(orig.take(0) =~= Seq::<(String, V)>::empty());
    while rest.len() > 0
        invariant
            0 <= i <= orig.len(),
            rest@ == orig.skip(i),
            removed == (assoc_get(orig.take(i), k@) is Some),
            forall|q: Seq<char>|
                #[trigger] assoc_get(s@, q) == if q == k@ {
                    None
                } else {
                    assoc_get(orig.take(i), q)
                },
        decreases rest@.len(),
    {
        let x = rest.remove(0);
        proof {
            assert(orig.take(i + 1) =~= orig.take(i).push(x));
            assert(rest@ =~= orig.skip(i + 1));
        }
        let hit = str_eq(x.0.as_str(), k);
        let ghost before = s@;
        if hit {
            removed = true;
        } else {
            s.push(x);
        }
        proof {
            lemma_assoc_push(orig.take(i), x, k@);
            assert forall|q: Seq<char>|
                #[trigger] assoc_get(s@, q) == if q == k@ {
                    None
                } else {
                    assoc_get(orig.take(i + 1), q)
                } by {
                lemma_assoc_push(orig.take(i), x, q);
                if !hit {
                    lemma_assoc_push(before, x, q);
                }
            }
            i = i + 1;
        }
    }
    assert(orig.take(i) =~= orig);
    removed
}

/// Binds `k` to `v`, replacing any earlier binding.
pub fn assoc_insert<V>(s: &mut Vec<(String, V)>, k: String, v: V)
    ensures
        forall|q: Seq<char>|
            #[trigger] assoc_get(final(s)@, q) == if q == k@ {
                Some(v)
            } else {
                assoc_get(old(s)@, q)
            },
{
    let ghost kk = k@;
    let _ = assoc_remove(s, k.as_str());
    let ghost mid = s@;
    s.push((k, v));
    proof {
        assert forall|q: Seq<char>|
            #[trigger] assoc_get(s@, q) == if q == kk {
                Some(v)
            } else {
                assoc_get(old(s)@, q)
            } by {
            lemma_assoc_push(mid, (k, v), q);
        }
    }
}

} // verus!
