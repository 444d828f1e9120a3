//! The installed-package states a prefix holds, how they are listed and how a
//! selector picks one of them.
use vstd::prelude::*;

use crate::identity::{
    selector_matches, state_key_of, InstalledPackageIdentity, InstalledPackageSelector,
    SelectorView,
};
use crate::order::{chars_lt, identity_lt, lemma_chars_lt_irreflexive, lemma_chars_lt_transitive,
    lemma_identity_lt_order, str_precedes,
};
use crate::assoc::{assoc_find, assoc_get, assoc_insert};
use crate::installed_state::name_document;
use crate::layout::PrefixLayout;
use crate::types::{GuiExposureAsset, GuiNativeRegistrationRecord, InstallReceipt, IntegrationProjection};

verus! {

/// A service a package declares: its name and, where it has one, the
/// identifier the native service manager knows it by.
#[derive(Clone, Debug, PartialEq, Eq)]
pub struct ServiceDeclaration {
    pub name: String,
    pub native_id: Option<String>,
}

/// Everything recorded of one installed package.
#[derive(Clone, Debug, PartialEq, Eq)]
pub struct InstalledPackageState {
    pub identity: InstalledPackageIdentity,
    pub version: String,
    pub receipt: InstallReceipt,
    pub gui_assets: Vec<GuiExposureAsset>,
    pub native_gui_records: Vec<GuiNativeRegistrationRecord>,
    pub services: Vec<ServiceDeclaration>,
    pub integrations: Vec<IntegrationProjection>,
}

/// The order a list of states is put in.
#[derive(Clone, Copy, Debug, PartialEq, Eq)]
pub enum StateOrder {
    /// By identity.
    Identity,
    /// By receipt name, then by identity.
    ReceiptNameThenIdentity,
}

/// `a` comes strictly before `b` in `order`.
pub open spec fn state_lt(order: StateOrder, a: InstalledPackageState, b: InstalledPackageState) -> bool {
    match order {
        StateOrder::Identity => identity_lt(a.identity@, b.identity@),
        StateOrder::ReceiptNameThenIdentity => chars_lt(a.receipt.name@, b.receipt.name@) || (
        a.receipt.name@ == b.receipt.name@ && identity_lt(a.identity@, b.identity@)),
    }
}

/// No state of `s` comes strictly before one listed ahead of it.
pub open spec fn sorted_by(order: StateOrder, s: Seq<InstalledPackageState>) -> bool {
    forall|i: int, j: int| 0 <= i < j < s.len() ==> !state_lt(order, #[trigger] s[j], #[trigger] s[i])
}

/// Each order is irreflexive and transitive.
pub proof fn lemma_state_lt_order(
    order: StateOrder,
    a: InstalledPackageState,
    b: InstalledPackageState,
    c: InstalledPackageState,
)
    ensures
        !state_lt(order, a, a),
        state_lt(order, a, b) && state_lt(order, b, c) ==> state_lt(order, a, c),
{
    lemma_identity_lt_order(a.identity@, b.identity@, c.identity@);
    lemma_chars_lt_irreflexive(a.receipt.name@);
    if chars_lt(a.receipt.name@, b.receipt.name@) && chars_lt(b.receipt.name@, c.receipt.name@) {
        lemma_chars_lt_transitive(a.receipt.name@, b.receipt.name@, c.receipt.name@);
    }
}

/// Whether `a` comes strictly before `b` in `order`.
pub fn state_precedes(order: StateOrder, a: &InstalledPackageState, b: &InstalledPackageState) -> (r:
    bool)
    ensures
        r == state_lt(order, *a, *b),
{
    match order {
        StateOrder::Identity => a.identity.precedes(&b.identity),
        StateOrder::ReceiptNameThenIdentity => {
            if str_precedes(a.receipt.name.as_str(), b.receipt.name.as_str()) {
                true
            } else {
                crate::text::str_eq(a.receipt.name.as_str(), b.receipt.name.as_str())
                    && a.identity.precedes(&b.identity)
            }
        },
    }
}

proof fn lemma_insert_keeps_sorted(
    order: StateOrder,
    s: Seq<InstalledPackageState>,
    p: int,
    x: InstalledPackageState,
)
    requires
        sorted_by(order, s),
        0 <= p <= s.len(),
        forall|k: int| 0 <= k < p ==> !state_lt(order, x, #[trigger] s[k]),
        p < s.len() ==> state_lt(order, x, s[p]),
    ensures
        sorted_by(order, s.insert(p, x)),
{
    let t = s.insert(p, x);
    s.insert_ensures(p, x);
    assert forall|i: int, j: int| 0 <= i < j < t.len() implies !state_lt(
        order,
        #[trigger] t[j],
        #[trigger] t[i],
    ) by {
        if j < p {
            assert(t[i] == s[i] && t[j] == s[j]);
        } else if j == p {
            assert(t[i] == s[i]);
        } else if i == p {
            assert(t[j] == s[j - 1]);
            lemma_state_lt_order(order, s[j - 1], x, s[p]);
            lemma_state_lt_order(order, x, s[p], x);
            if j - 1 > p {
                assert(!state_lt(order, s[j - 1], s[p]));
            }
        } else if i < p {
            assert(t[i] == s[i] && t[j] == s[j - 1]);
        } else {
            assert(t[i] == s[i - 1] && t[j] == s[j - 1]);
        }
    }
}

/// Whether `a` and `b` agree on everything `order` looks at.
pub open spec fn same_place(order: StateOrder, a: InstalledPackageState, b: InstalledPackageState) -> bool {
    match order {
        StateOrder::Identity => a.identity@ == b.identity@,
        StateOrder::ReceiptNameThenIdentity => a.receipt.name@ == b.receipt.name@ && a.identity@
            == b.identity@,
    }
}

/// Whether a state agrees with `x` on everything `order` looks at.
pub open spec fn tied_with(order: StateOrder, x: InstalledPackageState) -> spec_fn(
    InstalledPackageState,
) -> bool {
    |y: InstalledPackageState| same_place(order, y, x)
}

proof fn lemma_insert_keeps_ties(
    order: StateOrder,
    s: Seq<InstalledPackageState>,
    p: int,
    x: InstalledPackageState,
    z: InstalledPackageState,
)
    requires
        sorted_by(order, s),
        0 <= p <= s.len(),
        p < s.len() ==> state_lt(order, x, s[p]),
    ensures
        s.insert(p, x).filter(tied_with(order, z)) == (if same_place(order, x, z) {
            s.filter(tied_with(order, z)).push(x)
        } else {
            s.filter(tied_with(order, z))
        }),
{
    let pred = tied_with(order, z);
    crate::order::lemma_filter_insert(s, p, x, pred);
    crate::order::lemma_filter_single(x, pred);
    if same_place(order, x, z) {
        let rest_part = s.skip(p);
        assert forall|k: int| 0 <= k < rest_part.len() implies !pred(#[trigger] rest_part[k]) by {
            assert(rest_part[k] == s[k + p]);
            lemma_state_lt_order(order, x, x, x);
            if k > 0 {
                assert(!state_lt(order, s[k + p], s[p]));
            }
        }
        crate::order::lemma_filter_none(rest_part, pred);
        assert(s.take(p).filter(pred) + seq![x] + Seq::<InstalledPackageState>::empty()
            =~= s.take(p).filter(pred).push(x));
        assert(s.take(p).filter(pred) + Seq::<InstalledPackageState>::empty() =~= s.take(p).filter(pred));
    } else {
        assert(s.take(p).filter(pred) + Seq::<InstalledPackageState>::empty() =~= s.take(p).filter(pred));
    }
}

/// The states put in `order`; states that agree on everything `order`
/// looks at keep the order they were given in.
pub fn sort_installed_states(states: Vec<InstalledPackageState>, order: StateOrder) -> (r: Vec<
    InstalledPackageState,
>)
    ensures
        sorted_by(order, r@),
        r@.to_multiset() == states@.to_multiset(),
        forall|x: InstalledPackageState|
            #[trigger] r@.filter(tied_with(order, x)) == states@.filter(tied_with(order, x)),
{
    let ghost orig = states@;
    let mut rest = states;
    let mut out: Vec<InstalledPackageState> = Vec::new();
    let ghost mut i: int = 0;
    assert(orig.take(0) =~= Seq::<InstalledPackageState>::empty());
    assert(orig.skip(0) =~= orig);
    while rest.len() > 0
        invariant
            0 <= i <= orig.len(),
            rest@ == orig.skip(i),
            out@.to_multiset() == orig.take(i).to_multiset(),
            sorted_by(order, out@),
            forall|z: InstalledPackageState|
                #[trigger] out@.filter(tied_with(order, z)) == orig.take(i).filter(tied_with(order, z)),
        decreases rest@.len(),
    {
        let x = rest.remove(0);
        proof {
            assert(orig.take(i + 1) =~= orig.take(i).push(x));
            assert(rest@ =~= orig.skip(i + 1));
            vstd::seq_lib::to_multiset_build(orig.take(i), x);
        }
        let mut p: usize = 0;
        while p < out.len()
            invariant
                p <= out@.len(),
                forall|k: int| 0 <= k < p ==> !state_lt(order, x, #[trigger] out@[k]),
            ensures
                p <= out@.len(),
                forall|k: int| 0 <= k < p ==> !state_lt(order, x, #[trigger] out@[k]),
                p < out@.len() ==> state_lt(order, x, out@[p as int]),
            decreases out@.len() - p,
        {
            if state_precedes(order, &x, &out[p]) {
                break;
            }
            p = p + 1;
        }
        proof {
            lemma_insert_keeps_sorted(order, out@, p as int, x);
            vstd::seq_lib::to_multiset_insert(out@, p as int, x);
            assert forall|z: InstalledPackageState| #[trigger] out@.insert(p as int, x).filter(
                tied_with(order, z),
            ) == orig.take(i + 1).filter(tied_with(order, z)) by {
                lemma_insert_keeps_ties(order, out@, p as int, x, z);
                crate::order::lemma_filter_push(orig.take(i), x, tied_with(order, z));
            }
        }
        out.insert(p, x);
        proof {
            i = i + 1;
        }
    }
    assert(orig.take(i) =~= orig);
    out
}

/// The states whose identity `sel` matches, in the order given.
pub open spec fn matching_states(states: Seq<InstalledPackageState>, sel: SelectorView) -> Seq<
    InstalledPackageState,
> {
    states.filter(|s: InstalledPackageState| selector_matches(sel, s.identity@))
}

fn clone_selector(s: &InstalledPackageSelector) -> (r: InstalledPackageSelector)
    ensures
        r@ == s@,
{
    InstalledPackageSelector {
        package: s.package.clone(),
        target: crate::types::clone_opt_string(&s.target),
        profile: crate::types::clone_opt_string(&s.profile),
        source_namespace: crate::types::clone_opt_string(&s.source_namespace),
    }
}

/// The states `selector` matches, in the order given.
fn filter_matching(states: Vec<InstalledPackageState>, selector: &InstalledPackageSelector) -> (r:
    Vec<InstalledPackageState>)
    ensures
        r@ == matching_states(states@, selector@),
{
    let ghost orig = states@;
    let ghost pred = |s: InstalledPackageState| selector_matches(selector@, s.identity@);
    let mut rest = states;
    let mut out: Vec<InstalledPackageState> = Vec::new();
    let ghost mut i: int = 0;
    assert(orig.take(0) =~= Seq::<InstalledPackageState>::empty());
    assert(orig.skip(0) =~= orig);
    proof {
        reveal(Seq::filter);
    }
    while rest.len() > 0
        invariant
            0 <= i <= orig.len(),
            rest@ == orig.skip(i),
            pred == (|s: InstalledPackageState| selector_matches(selector@, s.identity@)),
            out@ == orig.take(i).filter(pred),
        decreases rest@.len(),
    {
        let x = rest.remove(0);
        proof {
            assert(orig.take(i + 1).drop_last() =~= orig.take(i));
            assert(orig.take(i + 1).last() == x);
            assert(rest@ =~= orig.skip(i + 1));
            reveal(Seq::filter);
        }
        if selector.matches(&x.identity) {
            out.push(x);
        }
        proof {
            i = i + 1;
        }
    }
    assert(orig.take(i) =~= orig);
    out
}

/// A selector that matched more than one installed package.
#[derive(Clone, Debug, PartialEq, Eq)]
pub struct InstalledPackageSelectionAmbiguity {
    pub selector: InstalledPackageSelector,
    pub matches: Vec<InstalledPackageState>,
}

impl InstalledPackageSelectionAmbiguity {
    /// `installed package name '<package>' is ambiguous`.
    pub fn message(&self) -> (r: String)
        ensures
            r@ == "installed package name '"@ + self.selector.package@ + "' is ambiguous"@,
    {
        let mut v = crate::text::chars_of("installed package name '");
        crate::text::extend_str(&mut v, self.selector.package.as_str());
        crate::text::extend_str(&mut v, "' is ambiguous");
        crate::text::string_of(v.as_slice())
    }
}

/// Picks the installed package `selector` names among `states`: none when
/// nothing matches, the one match when there is exactly one, and otherwise
/// an ambiguity that carries every match, ordered by identity.
pub fn select_installed_package(
    states: Vec<InstalledPackageState>,
    selector: &InstalledPackageSelector,
) -> (r: Result<Option<InstalledPackageState>, InstalledPackageSelectionAmbiguity>)
    ensures
        matching_states(states@, selector@).len() == 0 ==> r matches Ok(None),
        matching_states(states@, selector@).len() == 1 ==> (r matches Ok(Some(s)) && s
            == matching_states(states@, selector@)[0]),
        matching_states(states@, selector@).len() >= 2 ==> (r matches Err(a) && a.selector@
            == selector@ && sorted_by(StateOrder::Identity, a.matches@) && a.matches@.to_multiset()
            == matching_states(states@, selector@).to_multiset() && forall|x: InstalledPackageState|
            #[trigger] a.matches@.filter(tied_with(StateOrder::Identity, x)) == matching_states(
                states@,
                selector@,
            ).filter(tied_with(StateOrder::Identity, x))),
{
    let mut m = filter_matching(states, selector);
    if m.len() == 0 {
        Ok(None)
    } else if m.len() == 1 {
        let s = m.remove(0);
        Ok(Some(s))
    } else {
        let sorted = sort_installed_states(m, StateOrder::Identity);
        Err(InstalledPackageSelectionAmbiguity { selector: clone_selector(selector), matches: sorted })
    }
}

/// The states of packages named `name`, in the order given.
pub fn states_for_package(states: Vec<InstalledPackageState>, name: &str) -> (r: Vec<
    InstalledPackageState,
>)
    ensures
        r@ == states@.filter(|s: InstalledPackageState| s.identity.package@ == name@),
{
    let bare = InstalledPackageSelector {
        package: crate::text::string_of(crate::text::chars_of(name).as_slice()),
        target: None,
        profile: None,
        source_namespace: None,
    };
    let r = filter_matching(states, &bare);
    assert((|s: InstalledPackageState| selector_matches(bare@, s.identity@)) =~= (|
        s: InstalledPackageState,
    | s.identity.package@ == name@));
    r
}

/// Among the states of packages named `name`, the one with the least
/// identity (the first given, among equal ones); none when no state is of
/// that package.
pub fn first_state_for_package(states: Vec<InstalledPackageState>, name: &str) -> (r: Option<
    InstalledPackageState,
>)
    ensures
        r is None <==> forall|j: int| 0 <= j < states@.len() ==> states@[j].identity.package@ != name@,
        r matches Some(s) ==> exists|i: int|
            0 <= i < states@.len() && states@[i] == s && s.identity.package@ == name@ && (forall|
                j: int,
            |
                0 <= j < states@.len() && states@[j].identity.package@ == name@ ==> !identity_lt(
                    #[trigger] states@[j].identity@,
                    s.identity@,
                )) && (forall|j: int|
                0 <= j < i && states@[j].identity.package@ == name@ ==> identity_lt(
                    s.identity@,
                    #[trigger] states@[j].identity@,
                )),
{
    let ghost orig = states@;
    let mut rest = states;
    let mut best: Option<InstalledPackageState> = None;
    let ghost mut bi: int = 0;
    let ghost mut i: int = 0;
    assert(orig.skip(0) =~= orig);
    while rest.len() > 0
        invariant
            0 <= i <= orig.len(),
            rest@ == orig.skip(i),
            best is None <==> forall|j: int| 0 <= j < i ==> orig[j].identity.package@ != name@,
            best matches Some(b) ==> {
                &&& 0 <= bi < i
                &&& orig[bi] == b
                &&& b.identity.package@ == name@
                &&& forall|j: int|
                    0 <= j < i && orig[j].identity.package@ == name@ ==> !identity_lt(
                        #[trigger] orig[j].identity@,
                        b.identity@,
                    )
                &&& forall|j: int|
                    0 <= j < bi && orig[j].identity.package@ == name@ ==> identity_lt(
                        b.identity@,
                        #[trigger] orig[j].identity@,
                    )
            },
        decreases rest@.len(),
    {
        let x = rest.remove(0);
        proof {
            assert(rest@ =~= orig.skip(i + 1));
            assert(orig[i] == x);
        }
        if crate::text::str_eq(x.identity.package.as_str(), name) {
            let replace = match &best {
                None => true,
                Some(b) => x.identity.precedes(&b.identity),
            };
            if replace {
                proof {
                    if best is Some {
                        let b = best->0;
                        assert forall|j: int|
                            0 <= j < i + 1 && orig[j].identity.package@ == name@ implies !identity_lt(
                            #[trigger] orig[j].identity@,
                            x.identity@,
                        ) by {
                            lemma_identity_lt_order(orig[j].identity@, x.identity@, b.identity@);
                        }
                        assert forall|j: int|
                            0 <= j < i && orig[j].identity.package@ == name@ implies identity_lt(
                            x.identity@,
                            #[trigger] orig[j].identity@,
                        ) by {
                            lemma_identity_lt_order(x.identity@, b.identity@, orig[j].identity@);
                            lemma_identity_lt_order(orig[j].identity@, b.identity@, x.identity@);
                        }
                    } else {
                        lemma_identity_lt_order(x.identity@, x.identity@, x.identity@);
                    }
                    bi = i;
                }
                best = Some(x);
            }
        }
        proof {
            i = i + 1;
        }
    }
    assert(orig.skip(i).len() == 0);
    best
}

/// An installed-state document found under the prefix: where it lies and
/// the state it holds.
pub struct InstalledStateDocument {
    pub path: String,
    pub state: InstalledPackageState,
}

/// Two installed-state records claim one identity.
#[derive(Clone, Debug, PartialEq, Eq)]
pub struct DuplicateInstalledIdentity {
    pub state_key: String,
}

impl DuplicateInstalledIdentity {
    /// `duplicate installed identity: <state key>`.
    pub fn message(&self) -> (r: String)
        ensures
            r@ == "duplicate installed identity: "@ + self.state_key@,
    {
        let mut v = crate::text::chars_of("duplicate installed identity: ");
        crate::text::extend_str(&mut v, self.state_key.as_str());
        crate::text::string_of(v.as_slice())
    }
}

/// The state key a state is recorded under.
pub open spec fn key_of(s: InstalledPackageState) -> Seq<char> {
    state_key_of(s.identity@)
}

/// The state keys of the states read through receipts, or the first key
/// that two of them share.
pub open spec fn receipt_keys(states: Seq<InstalledPackageState>) -> Result<Set<Seq<char>>, Seq<char>>
    decreases states.len(),
{
    if states.len() == 0 {
        Ok(Set::empty())
    } else {
        match receipt_keys(states.drop_last()) {
            Err(k) => Err(k),
            Ok(seen) => {
                let k = key_of(states.last());
                if seen.contains(k) {
                    Err(k)
                } else {
                    Ok(seen.insert(k))
                }
            },
        }
    }
}

/// What the walk over the documents has gathered: the state keys listed so
/// far, the path each key was last found at, and the states added.
pub struct DocumentWalk {
    pub keys: Set<Seq<char>>,
    pub paths: Map<Seq<char>, Seq<char>>,
    pub added: Seq<InstalledPackageState>,
}

/// One document met in the walk. A key already found at another document
/// is refused unless one of the two documents is the name-keyed document of
/// the package; a key already listed is not listed again.
pub open spec fn document_step(l: PrefixLayout, w: DocumentWalk, d: InstalledStateDocument) -> Result<
    DocumentWalk,
    Seq<char>,
> {
    let k = key_of(d.state);
    let legacy = name_document(l, d.state.identity.package@);
    let paths = w.paths.insert(k, d.path@);
    if w.paths.contains_key(k) {
        if d.path@ == legacy || w.paths[k] == legacy {
            Ok(DocumentWalk { keys: w.keys, paths: paths, added: w.added })
        } else {
            Err(k)
        }
    } else if w.keys.contains(k) {
        Ok(DocumentWalk { keys: w.keys, paths: paths, added: w.added })
    } else {
        Ok(DocumentWalk { keys: w.keys.insert(k), paths: paths, added: w.added.push(d.state) })
    }
}

/// The walk over the documents, in the order found, starting from the keys
/// the receipts listed.
pub open spec fn document_walk(
    l: PrefixLayout,
    start: Set<Seq<char>>,
    docs: Seq<InstalledStateDocument>,
) -> Result<DocumentWalk, Seq<char>>
    decreases docs.len(),
{
    if docs.len() == 0 {
        Ok(DocumentWalk { keys: start, paths: Map::empty(), added: Seq::empty() })
    } else {
        match document_walk(l, start, docs.drop_last()) {
            Err(k) => Err(k),
            Ok(w) => document_step(l, w, docs.last()),
        }
    }
}

/// The states listed: those read through receipts, then those only found
/// as documents; or the state key that two records claim.
pub open spec fn listed_states(
    l: PrefixLayout,
    receipt_states: Seq<InstalledPackageState>,
    docs: Seq<InstalledStateDocument>,
) -> Result<Seq<InstalledPackageState>, Seq<char>> {
    match receipt_keys(receipt_states) {
        Err(k) => Err(k),
        Ok(keys) => match document_walk(l, keys, docs) {
            Err(k) => Err(k),
            Ok(w) => Ok(receipt_states + w.added),
        },
    }
}

proof fn lemma_receipt_error_sticks(states: Seq<InstalledPackageState>, i: int)
    requires
        0 <= i <= states.len(),
        receipt_keys(states.take(i)) is Err,
    ensures
        receipt_keys(states) == receipt_keys(states.take(i)),
    decreases states.len() - i,
{
    if i < states.len() {
        assert(states.take(i + 1).drop_last() =~= states.take(i));
        lemma_receipt_error_sticks(states, i + 1);
    } else {
        assert(states.take(i) =~= states);
    }
}

proof fn lemma_walk_error_sticks(
    l: PrefixLayout,
    start: Set<Seq<char>>,
    docs: Seq<InstalledStateDocument>,
    i: int,
)
    requires
        0 <= i <= docs.len(),
        document_walk(l, start, docs.take(i)) is Err,
    ensures
        document_walk(l, start, docs) == document_walk(l, start, docs.take(i)),
    decreases docs.len() - i,
{
    if i < docs.len() {
        assert(docs.take(i + 1).drop_last() =~= docs.take(i));
        lemma_walk_error_sticks(l, start, docs, i + 1);
    } else {
        assert(docs.take(i) =~= docs);
    }
}

spec fn key_set(t: Seq<(String, ())>) -> Set<Seq<char>> {
    Set::new(|q: Seq<char>| assoc_get(t, q) is Some)
}

spec fn path_map(t: Seq<(String, String)>) -> Map<Seq<char>, Seq<char>> {
    Map::new(|q: Seq<char>| assoc_get(t, q) is Some, |q: Seq<char>| assoc_get(t, q)->0@)
}

/// The states to list, given the states read through the receipts (in
/// receipt order) and the installed-state documents found (in the order
/// found): listed as `listed_states` says, ordered by receipt name and
/// then identity; or the state key that two records claim.
pub fn merge_installed_states(
    layout: &PrefixLayout,
    receipt_states: Vec<InstalledPackageState>,
    documents: Vec<InstalledStateDocument>,
) -> (r: Result<Vec<InstalledPackageState>, DuplicateInstalledIdentity>)
    ensures
        match listed_states(*layout, receipt_states@, documents@) {
            Ok(m) => r matches Ok(v) && sorted_by(StateOrder::ReceiptNameThenIdentity, v@)
                && v@.to_multiset() == m.to_multiset() && forall|x: InstalledPackageState|
                #[trigger] v@.filter(tied_with(StateOrder::ReceiptNameThenIdentity, x)) == m.filter(
                    tied_with(StateOrder::ReceiptNameThenIdentity, x),
                ),
            Err(k) => r matches Err(e) && e.state_key@ == k,
        },
{
    let ghost rs = receipt_states@;
    let mut keys: Vec<(String, ())> = Vec::new();
    let n = receipt_states.len();
    let mut i: usize = 0;
    assert(key_set(keys@) =~= Set::<Seq<char>>::empty());
    assert(rs.take(0) =~= Seq::<InstalledPackageState>::empty());
    while i < n
        invariant
            n == rs.len(),
            rs == receipt_states@,
            i <= n,
            receipt_keys(rs.take(i as int)) == Ok::<Set<Seq<char>>, Seq<char>>(key_set(keys@)),
        decreases n - i,
    {
        let k = receipt_states[i].identity.state_key();
        proof {
            assert(rs.take(i + 1).drop_last() =~= rs.take(i as int));
            assert(rs.take(i + 1).last() == rs[i as int]);
        }
        match assoc_find(&keys, k.as_str()) {
            Some(_) => {
                proof {
                    lemma_receipt_error_sticks(rs, i + 1);
                }
                return Err(DuplicateInstalledIdentity { state_key: k });
            },
            None => {},
        }
        let ghost before = keys@;
        let ghost kk = k@;
        assoc_insert(&mut keys, k, ());
        assert(key_set(keys@) =~= key_set(before).insert(kk));
        i = i + 1;
    }
    assert(rs.take(n as int) =~= rs);
    let ghost start = key_set(keys@);
    let ghost ds = documents@;
    let mut rest = documents;
    let mut paths: Vec<(String, String)> = Vec::new();
    let mut added: Vec<InstalledPackageState> = Vec::new();
    let ghost mut j: int = 0;
    assert(path_map(paths@) =~= Map::<Seq<char>, Seq<char>>::empty());
    assert(ds.take(0) =~= Seq::<InstalledStateDocument>::empty());
    assert(ds.skip(0) =~= ds);
    while rest.len() > 0
        invariant
            0 <= j <= ds.len(),
            rest@ == ds.skip(j),
            rs == receipt_states@,
            ds == documents@,
            receipt_keys(rs) == Ok::<Set<Seq<char>>, Seq<char>>(start),
            document_walk(*layout, start, ds.take(j)) == Ok::<DocumentWalk, Seq<char>>(
                DocumentWalk { keys: key_set(keys@), paths: path_map(paths@), added: added@ },
            ),
        decreases rest@.len(),
    {
        let d = rest.remove(0);
        proof {
            assert(rest@ =~= ds.skip(j + 1));
            assert(ds.take(j + 1).drop_last() =~= ds.take(j));
            assert(ds.take(j + 1).last() == d);
        }
        let k = d.state.identity.state_key();
        let legacy = layout.installed_state_document_path(d.state.identity.package.as_str());
        let ghost w = DocumentWalk { keys: key_set(keys@), paths: path_map(paths@), added: added@ };
        let ghost kk = k@;
        let ghost dp = d.path@;
        let ghost before_paths = paths@;
        match assoc_find(&paths, k.as_str()) {
            Some(at) => {
                let clash = !crate::text::str_eq(d.path.as_str(), legacy.as_str())
                    && !crate::text::str_eq(paths[at].1.as_str(), legacy.as_str());
                if clash {
                    proof {
                        assert(w.paths[kk] == paths@[at as int].1@);
                        lemma_walk_error_sticks(*layout, start, ds, j + 1);
                    }
                    return Err(DuplicateInstalledIdentity { state_key: k });
                }
                assoc_insert(&mut paths, k, d.path);
                assert(path_map(paths@) =~= path_map(before_paths).insert(kk, dp));
            },
            None => {
                let listed = assoc_find(&keys, k.as_str()).is_some();
                let ghost before_keys = keys@;
                if !listed {
                    assoc_insert(&mut keys, k.clone(), ());
                    assert(key_set(keys@) =~= key_set(before_keys).insert(kk));
                    added.push(d.state);
                }
                assoc_insert(&mut paths, k, d.path);
                assert(path_map(paths@) =~= path_map(before_paths).insert(kk, dp));
            },
        }
        proof {
            j = j + 1;
        }
    }
    assert(ds.take(j) =~= ds);
    let mut all = receipt_states;
    all.append(&mut added);
    Ok(sort_installed_states(all, StateOrder::ReceiptNameThenIdentity))
}

proof fn lemma_receipt_keys_distinct(states: Seq<InstalledPackageState>)
    ensures
        receipt_keys(states) matches Ok(seen) ==> {
            &&& forall|i: int, j: int|
                0 <= i < j < states.len() ==> key_of(#[trigger] states[i]) != key_of(
                    #[trigger] states[j],
                )
            &&& forall|i: int| 0 <= i < states.len() ==> seen.contains(key_of(#[trigger] states[i]))
        },
    decreases states.len(),
{
    if states.len() > 0 {
        let prev = states.drop_last();
        lemma_receipt_keys_distinct(prev);
        assert forall|i: int| 0 <= i < prev.len() implies #[trigger] states[i] == prev[i] by {}
    }
}

proof fn lemma_walk_keys(l: PrefixLayout, start: Set<Seq<char>>, docs: Seq<InstalledStateDocument>)
    ensures
        document_walk(l, start, docs) matches Ok(w) ==> {
            &&& forall|q: Seq<char>| start.contains(q) ==> #[trigger] w.keys.contains(q)
            &&& forall|i: int|
                0 <= i < w.added.len() ==> w.keys.contains(key_of(#[trigger] w.added[i]))
                    && !start.contains(key_of(w.added[i]))
            &&& forall|i: int, j: int|
                0 <= i < j < w.added.len() ==> key_of(#[trigger] w.added[i]) != key_of(
                    #[trigger] w.added[j],
                )
        },
    decreases docs.len(),
{
    if docs.len() > 0 {
        lemma_walk_keys(l, start, docs.drop_last());
    }
}

/// Listing never shows two states under one state key: the states read
/// through receipts and those added from documents all have different keys.
pub proof fn lemma_listed_keys_distinct(
    l: PrefixLayout,
    receipt_states: Seq<InstalledPackageState>,
    docs: Seq<InstalledStateDocument>,
)
    ensures
        listed_states(l, receipt_states, docs) matches Ok(m) ==> forall|i: int, j: int|
            0 <= i < j < m.len() ==> key_of(#[trigger] m[i]) != key_of(#[trigger] m[j]),
{
    lemma_receipt_keys_distinct(receipt_states);
    match receipt_keys(receipt_states) {
        Ok(keys) => {
            lemma_walk_keys(l, keys, docs);
            match document_walk(l, keys, docs) {
                Ok(w) => {
                    let m = receipt_states + w.added;
                    let n = receipt_states.len();
                    assert forall|i: int, j: int| 0 <= i < j < m.len() implies key_of(
                        #[trigger] m[i],
                    ) != key_of(#[trigger] m[j]) by {
                        if j < n {
                            assert(m[i] == receipt_states[i] && m[j] == receipt_states[j]);
                        } else if i < n {
                            assert(m[i] == receipt_states[i] && m[j] == w.added[j - n]);
                            assert(keys.contains(key_of(receipt_states[i])));
                            assert(!keys.contains(key_of(w.added[j - n])));
                        } else {
                            assert(m[i] == w.added[i - n] && m[j] == w.added[j - n]);
                        }
                    }
                },
                Err(_) => {},
            }
        },
        Err(_) => {},
    }
}

} // verus!
