//! The order in which installed packages are listed. Text compares
//! character by character (for UTF-8 strings this is the byte order that
//! `String`'s `Ord` uses), an absent optional value comes before a present
//! one, and identities compare field by field in declaration order.
use vstd::prelude::*;

use crate::identity::{IdentityView, InstalledPackageIdentity};
use crate::text::chars_of;

verus! {

/// `a` comes strictly before `b` in lexicographic order.
pub open spec fn chars_lt(a: Seq<char>, b: Seq<char>) -> bool
    decreases a.len(),
{
    if b.len() == 0 {
        false
    } else if a.len() == 0 {
        true
    } else if a[0] != b[0] {
        a[0] < b[0]
    } else {
        chars_lt(a.drop_first(), b.drop_first())
    }
}

pub proof fn lemma_chars_lt_irreflexive(a: Seq<char>)
    ensures
        !chars_lt(a, a),
    decreases a.len(),
{
    if a.len() > 0 {
        lemma_chars_lt_irreflexive(a.drop_first());
    }
}

pub proof fn lemma_chars_lt_transitive(a: Seq<char>, b: Seq<char>, c: Seq<char>)
    requires
        chars_lt(a, b),
        chars_lt(b, c),
    ensures
        chars_lt(a, c),
    decreases a.len(),
{
    if a.len() > 0 && a[0] == b[0] && b[0] == c[0] {
        lemma_chars_lt_transitive(a.drop_first(), b.drop_first(), c.drop_first());
    }
}

pub proof fn lemma_chars_lt_total(a: Seq<char>, b: Seq<char>)
    ensures
        a == b || chars_lt(a, b) || chars_lt(b, a),
    decreases a.len(),
{
    if a.len() == 0 && b.len() == 0 {
        assert(a =~= b);
    } else if a.len() > 0 && b.len() > 0 && a[0] == b[0] {
        lemma_chars_lt_total(a.drop_first(), b.drop_first());
        if a.drop_first() == b.drop_first() {
            assert(a =~= seq![a[0]] + a.drop_first());
            assert(b =~= seq![b[0]] + b.drop_first());
        }
    }
}

/// Whether `a` comes strictly before `b`.
pub fn str_precedes(a: &str, b: &str) -> (r: bool)
    ensures
        r == chars_lt(a@, b@),
{
    let x = chars_of(a);
    let y = chars_of(b);
    let mut i: usize = 0;
    assert(x@.skip(0) =~= x@);
    assert(y@.skip(0) =~= y@);
    while i < x.len() && i < y.len()
        invariant
            x@ == a@,
            y@ == b@,
            i <= x@.len(),
            i <= y@.len(),
            chars_lt(a@, b@) == chars_lt(x@.skip(i as int), y@.skip(i as int)),
        decreases x@.len() - i,
    {
        assert(x@.skip(i as int)[0] == x@[i as int]);
        assert(y@.skip(i as int)[0] == y@[i as int]);
        if x[i] != y[i] {
            return x[i] < y[i];
        }
        assert(x@.skip(i as int).drop_first() =~= x@.skip(i + 1));
        assert(y@.skip(i as int).drop_first() =~= y@.skip(i + 1));
        i = i + 1;
    }
    i < y.len()
}

/// `a` comes strictly before `b`: an absent value comes first.
pub open spec fn opt_chars_lt(a: Option<Seq<char>>, b: Option<Seq<char>>) -> bool {
    match (a, b) {
        (None, Some(_)) => true,
        (Some(x), Some(y)) => chars_lt(x, y),
        _ => false,
    }
}

pub proof fn lemma_opt_chars_lt_order(
    a: Option<Seq<char>>,
    b: Option<Seq<char>>,
    c: Option<Seq<char>>,
)
    ensures
        !opt_chars_lt(a, a),
        a == b || opt_chars_lt(a, b) || opt_chars_lt(b, a),
        opt_chars_lt(a, b) && opt_chars_lt(b, c) ==> opt_chars_lt(a, c),
{
    match a {
        Some(x) => lemma_chars_lt_irreflexive(x),
        None => {},
    }
    match (a, b) {
        (Some(x), Some(y)) => lemma_chars_lt_total(x, y),
        _ => {},
    }
    match (a, b, c) {
        (Some(x), Some(y), Some(z)) => {
            if chars_lt(x, y) && chars_lt(y, z) {
                lemma_chars_lt_transitive(x, y, z);
            }
        },
        _ => {},
    }
}

fn opt_str_precedes(a: &Option<String>, b: &Option<String>) -> (r: bool)
    ensures
        r == opt_chars_lt(crate::types::opt_view(*a), crate::types::opt_view(*b)),
{
    match (a, b) {
        (None, Some(_)) => true,
        (Some(x), Some(y)) => str_precedes(x.as_str(), y.as_str()),
        _ => false,
    }
}

fn opt_str_same(a: &Option<String>, b: &Option<String>) -> (r: bool)
    ensures
        r == (crate::types::opt_view(*a) == crate::types::opt_view(*b)),
{
    match (a, b) {
        (None, None) => true,
        (Some(x), Some(y)) => crate::text::str_eq(x.as_str(), y.as_str()),
        _ => false,
    }
}

/// `a` comes strictly before `b`: the first field in which they differ
/// decides, in the order profile, target, source namespace, source
/// provenance, package.
pub open spec fn identity_lt(a: IdentityView, b: IdentityView) -> bool {
    if a.profile != b.profile {
        chars_lt(a.profile, b.profile)
    } else if a.target != b.target {
        opt_chars_lt(a.target, b.target)
    } else if a.source_namespace != b.source_namespace {
        chars_lt(a.source_namespace, b.source_namespace)
    } else if a.source_provenance != b.source_provenance {
        opt_chars_lt(a.source_provenance, b.source_provenance)
    } else {
        chars_lt(a.package, b.package)
    }
}

/// The identity order is a strict total order.
pub proof fn lemma_identity_lt_order(a: IdentityView, b: IdentityView, c: IdentityView)
    ensures
        !identity_lt(a, a),
        a == b || identity_lt(a, b) || identity_lt(b, a),
        identity_lt(a, b) && identity_lt(b, c) ==> identity_lt(a, c),
{
    lemma_chars_lt_irreflexive(a.package);
    lemma_chars_lt_irreflexive(a.profile);
    lemma_chars_lt_irreflexive(a.source_namespace);
    lemma_chars_lt_total(a.profile, b.profile);
    lemma_chars_lt_total(a.source_namespace, b.source_namespace);
    lemma_chars_lt_total(a.package, b.package);
    lemma_opt_chars_lt_order(a.target, b.target, c.target);
    lemma_opt_chars_lt_order(a.source_provenance, b.source_provenance, c.source_provenance);
    if identity_lt(a, b) && identity_lt(b, c) {
        if chars_lt(a.profile, b.profile) && chars_lt(b.profile, c.profile) {
            lemma_chars_lt_transitive(a.profile, b.profile, c.profile);
        }
        if chars_lt(a.source_namespace, b.source_namespace) && chars_lt(
            b.source_namespace,
            c.source_namespace,
        ) {
            lemma_chars_lt_transitive(a.source_namespace, b.source_namespace, c.source_namespace);
        }
        if chars_lt(a.package, b.package) && chars_lt(b.package, c.package) {
            lemma_chars_lt_transitive(a.package, b.package, c.package);
        }
    }
}

impl InstalledPackageIdentity {
    /// Whether this identity comes strictly before `other`.
    pub fn precedes(&self, other: &InstalledPackageIdentity) -> (r: bool)
        ensures
            r == identity_lt(self@, other@),
    {
        if !crate::text::str_eq(self.profile.as_str(), other.profile.as_str()) {
            return str_precedes(self.profile.as_str(), other.profile.as_str());
        }
        if !opt_str_same(&self.target, &other.target) {
            return opt_str_precedes(&self.target, &other.target);
        }
        if !crate::text::str_eq(self.source_namespace.as_str(), other.source_namespace.as_str()) {
            return str_precedes(self.source_namespace.as_str(), other.source_namespace.as_str());
        }
        if !opt_str_same(&self.source_provenance, &other.source_provenance) {
            return opt_str_precedes(&self.source_provenance, &other.source_provenance);
        }
        str_precedes(self.package.as_str(), other.package.as_str())
    }
}

/// Filtering a sequence with `x` inserted at `p`: what the part before
/// `p` keeps, then `x` if kept, then what the rest keeps.
pub proof fn lemma_filter_insert<T>(s: Seq<T>, p: int, x: T, pred: spec_fn(T) -> bool)
    requires
        0 <= p <= s.len(),
    ensures
        s.insert(p, x).filter(pred) == s.take(p).filter(pred) + seq![x].filter(pred) + s.skip(p).filter(
            pred,
        ),
        s.filter(pred) == s.take(p).filter(pred) + s.skip(p).filter(pred),
{
    assert(s.insert(p, x) =~= s.take(p) + seq![x] + s.skip(p));
    Seq::filter_distributes_over_add(s.take(p) + seq![x], s.skip(p), pred);
    Seq::filter_distributes_over_add(s.take(p), seq![x], pred);
    assert(s =~= s.take(p) + s.skip(p));
    Seq::filter_distributes_over_add(s.take(p), s.skip(p), pred);
}

/// A filter that keeps nothing of `s` gives the empty sequence.
pub proof fn lemma_filter_none<T>(s: Seq<T>, pred: spec_fn(T) -> bool)
    requires
        forall|i: int| 0 <= i < s.len() ==> !pred(#[trigger] s[i]),
    ensures
        s.filter(pred) == Seq::<T>::empty(),
    decreases s.len(),
{
    reveal(Seq::filter);
    if s.len() > 0 {
        let d = s.drop_last();
        assert forall|i: int| 0 <= i < d.len() implies !pred(#[trigger] d[i]) by {
            assert(d[i] == s[i]);
        }
        lemma_filter_none(d, pred);
        assert(!pred(s[s.len() - 1]));
    }
}

/// Filtering a one-element sequence.
pub proof fn lemma_filter_single<T>(x: T, pred: spec_fn(T) -> bool)
    ensures
        seq![x].filter(pred) == (if pred(x) {
            seq![x]
        } else {
            Seq::<T>::empty()
        }),
{
    reveal_with_fuel(Seq::filter, 2);
    assert(seq![x].drop_last() =~= Seq::<T>::empty());
    assert(seq![x].last() == x);
}

/// Filtering a sequence extended by one element.
pub proof fn lemma_filter_push<T>(s: Seq<T>, x: T, pred: spec_fn(T) -> bool)
    ensures
        s.push(x).filter(pred) == (if pred(x) {
            s.filter(pred).push(x)
        } else {
            s.filter(pred)
        }),
{
    reveal(Seq::filter);
    assert(s.push(x).drop_last() =~= s);
    assert(s.push(x).last() == x);
}

/// No string of `s` comes strictly before one listed ahead of it.
pub open spec fn strings_sorted(s: Seq<String>) -> bool {
    forall|i: int, j: int| 0 <= i < j < s.len() ==> !chars_lt(#[trigger] s[j]@, #[trigger] s[i]@)
}

/// The strings in lexicographic order.
pub fn sort_strings(v: Vec<String>) -> (r: Vec<String>)
    ensures
        strings_sorted(r@),
        r@.to_multiset() == v@.to_multiset(),
{
    let ghost orig = v@;
    let mut rest = v;
    let mut out: Vec<String> = Vec::new();
    let ghost mut i: int = 0;
    assert(orig.take(0) =~= Seq::<String>::empty());
    assert(orig.skip(0) =~= orig);
    while rest.len() > 0
        invariant
            0 <= i <= orig.len(),
            rest@ == orig.skip(i),
            out@.to_multiset() == orig.take(i).to_multiset(),
            strings_sorted(out@),
        decreases rest@.len(),
    {
        let x = rest.remove(0);
        proof {
            assert(orig.take(i + 1) =~= orig.take(i).push(x));
            assert(rest@ =~= orig.skip(i + 1));
            vstd::seq_lib::to_multiset_build(orig.take(i), x);
        }
        let mut p: usize = 0;
        while p < out.len()
            invariant
                p <= out@.len(),
                forall|k: int| 0 <= k < p ==> !chars_lt(x@, #[trigger] out@[k]@),
            ensures
                p <= out@.len(),
                forall|k: int| 0 <= k < p ==> !chars_lt(x@, #[trigger] out@[k]@),
                p < out@.len() ==> chars_lt(x@, out@[p as int]@),
            decreases out@.len() - p,
        {
            if str_precedes(x.as_str(), out[p].as_str()) {
                break;
            }
            p = p + 1;
        }
        proof {
            let s = out@;
            let t = s.insert(p as int, x);
            s.insert_ensures(p as int, x);
            assert forall|a: int, b: int| 0 <= a < b < t.len() implies !chars_lt(
                #[trigger] t[b]@,
                #[trigger] t[a]@,
            ) by {
                if b < p {
                    assert(t[a] == s[a] && t[b] == s[b]);
                } else if b == p {
                    assert(t[a] == s[a]);
                } else if a == p {
                    assert(t[b] == s[b - 1]);
                    lemma_chars_lt_irreflexive(x@);
                    if chars_lt(s[b - 1]@, x@) {
                        lemma_chars_lt_transitive(s[b - 1]@, x@, s[p as int]@);
                        if b - 1 == p {
                            lemma_chars_lt_transitive(x@, s[p as int]@, x@);
                        }
                    }
                } else if a < p {
                    assert(t[a] == s[a] && t[b] == s[b - 1]);
                } else {
                    assert(t[a] == s[a - 1] && t[b] == s[b - 1]);
                }
            }
            vstd::seq_lib::to_multiset_insert(out@, p as int, x);
        }
        out.insert(p, x);
        proof {
            i = i + 1;
        }
    }
    assert(orig.take(i) =~= orig);
    out
}

} // verus!
