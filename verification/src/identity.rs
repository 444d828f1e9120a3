//! Identity of an installed package (profile, target, source namespace,
//! package) and the deterministic state keys derived from it.
use vstd::prelude::*;

use crate::text::{chars_of, extend_str, str_eq, string_of};
use crate::types::{clone_opt_string, opt_view, InstallReceipt};

verus! {

/// Who an installed package is: the dimensions that make its state key.
#[derive(Debug, Clone, PartialEq, Eq, PartialOrd, Ord)]
pub struct InstalledPackageIdentity {
    pub profile: String,
    pub target: Option<String>,
    pub source_namespace: String,
    pub source_provenance: Option<String>,
    pub package: String,
}

/// A request naming a package and, optionally, the dimensions it must match.
#[derive(Debug, Clone, PartialEq, Eq)]
pub struct InstalledPackageSelector {
    pub package: String,
    pub target: Option<String>,
    pub profile: Option<String>,
    pub source_namespace: Option<String>,
}

pub struct IdentityView {
    pub profile: Seq<char>,
    pub target: Option<Seq<char>>,
    pub source_namespace: Seq<char>,
    pub source_provenance: Option<Seq<char>>,
    pub package: Seq<char>,
}

impl View for InstalledPackageIdentity {
    type V = IdentityView;

    open spec fn view(&self) -> IdentityView {
        IdentityView {
            profile: self.profile@,
            target: opt_view(self.target),
            source_namespace: self.source_namespace@,
            source_provenance: opt_view(self.source_provenance),
            package: self.package@,
        }
    }
}

pub struct SelectorView {
    pub package: Seq<char>,
    pub target: Option<Seq<char>>,
    pub profile: Option<Seq<char>>,
    pub source_namespace: Option<Seq<char>>,
}

impl View for InstalledPackageSelector {
    type V = SelectorView;

    open spec fn view(&self) -> SelectorView {
        SelectorView {
            package: self.package@,
            target: opt_view(self.target),
            profile: opt_view(self.profile),
            source_namespace: opt_view(self.source_namespace),
        }
    }
}

/// The target label: the target triple, or `host` when none is recorded.
pub open spec fn target_label_of(target: Option<Seq<char>>) -> Seq<char> {
    match target {
        Some(t) => t,
        None => "host"@,
    }
}

/// The provenance label: the recorded provenance, or `unknown`.
pub open spec fn provenance_label_of(p: Option<Seq<char>>) -> Seq<char> {
    match p {
        Some(t) => t,
        None => "unknown"@,
    }
}

/// `profile--target--source--package`.
pub open spec fn state_key_of(id: IdentityView) -> Seq<char> {
    id.profile + "--"@ + target_label_of(id.target) + "--"@ + id.source_namespace + "--"@
        + id.package
}

/// `profile--target--package`.
pub open spec fn legacy_state_key_of(id: IdentityView) -> Seq<char> {
    id.profile + "--"@ + target_label_of(id.target) + "--"@ + id.package
}

/// `package --target T --profile P --source S`.
pub open spec fn selector_display_of(id: IdentityView) -> Seq<char> {
    id.package + " --target "@ + target_label_of(id.target) + " --profile "@ + id.profile
        + " --source "@ + id.source_namespace
}

/// Whether an optional selector dimension admits `value`.
pub open spec fn dimension_admits(want: Option<Seq<char>>, value: Seq<char>) -> bool {
    match want {
        Some(w) => value == w,
        None => true,
    }
}

/// A selector matches an identity when the package names agree and every
/// dimension the selector names agrees.
pub open spec fn selector_matches(sel: SelectorView, id: IdentityView) -> bool {
    &&& id.package == sel.package
    &&& dimension_admits(sel.target, target_label_of(id.target))
    &&& dimension_admits(sel.profile, id.profile)
    &&& dimension_admits(sel.source_namespace, id.source_namespace)
}

/// A selector picks only identities that agree with it on everything it
/// names: the package, and each of target, profile and source namespace it
/// gives; and it picks every such identity, whatever it leaves open.
pub proof fn lemma_selector_matches_exactly_what_it_names(sel: SelectorView, id: IdentityView)
    ensures
        selector_matches(sel, id) ==> id.package == sel.package,
        selector_matches(sel, id) && sel.target is Some ==> target_label_of(id.target)
            == sel.target->0,
        selector_matches(sel, id) && sel.profile is Some ==> id.profile == sel.profile->0,
        selector_matches(sel, id) && sel.source_namespace is Some ==> id.source_namespace
            == sel.source_namespace->0,
        id.package == sel.package && (sel.target is Some ==> target_label_of(id.target)
            == sel.target->0) && (sel.profile is Some ==> id.profile == sel.profile->0) && (
        sel.source_namespace is Some ==> id.source_namespace == sel.source_namespace->0)
            ==> selector_matches(sel, id),
{
}

/// Naming a dimension only narrows a selector: a selector matches an
/// identity whenever the same selector with that dimension left open does
/// and the identity agrees on it.
pub proof fn lemma_naming_a_dimension_narrows(sel: SelectorView, id: IdentityView, p: Seq<char>)
    ensures
        selector_matches(SelectorView { profile: Some(p), ..sel }, id) <==> selector_matches(
            SelectorView { profile: None, ..sel },
            id,
        ) && id.profile == p,
        selector_matches(SelectorView { target: Some(p), ..sel }, id) <==> selector_matches(
            SelectorView { target: None, ..sel },
            id,
        ) && target_label_of(id.target) == p,
        selector_matches(SelectorView { source_namespace: Some(p), ..sel }, id) <==> selector_matches(
            SelectorView { source_namespace: None, ..sel },
            id,
        ) && id.source_namespace == p,
{
}

impl InstalledPackageIdentity {
    /// The identity a legacy receipt stands for: default profile and source
    /// namespace, unknown provenance, the receipt's target and name.
    pub fn from_legacy_receipt(receipt: &InstallReceipt) -> (r: Self)
        ensures
            r@.profile == "default"@,
            r@.target == receipt@.target,
            r@.source_namespace == "default"@,
            r@.source_provenance == Some("unknown"@),
            r@.package == receipt@.name,
    {
        InstalledPackageIdentity {
            profile: String::from_str("default"),
            target: clone_opt_string(&receipt.target),
            source_namespace: String::from_str("default"),
            source_provenance: Some(String::from_str("unknown")),
            package: receipt.name.clone(),
        }
    }

    pub fn target_label(&self) -> (r: &str)
        ensures
            r@ == target_label_of(self@.target),
    {
        match &self.target {
            Some(t) => t.as_str(),
            None => "host",
        }
    }

    pub fn source_namespace_label(&self) -> (r: &str)
        ensures
            r@ == self@.source_namespace,
    {
        self.source_namespace.as_str()
    }

    pub fn source_provenance_label(&self) -> (r: &str)
        ensures
            r@ == provenance_label_of(self@.source_provenance),
    {
        match &self.source_provenance {
            Some(p) => p.as_str(),
            None => "unknown",
        }
    }

    pub fn state_key(&self) -> (r: String)
        ensures
            r@ == state_key_of(self@),
    {
        let mut v = chars_of(self.profile.as_str());
        extend_str(&mut v, "--");
        extend_str(&mut v, self.target_label());
        extend_str(&mut v, "--");
        extend_str(&mut v, self.source_namespace_label());
        extend_str(&mut v, "--");
        extend_str(&mut v, self.package.as_str());
        string_of(v.as_slice())
    }

    pub fn legacy_state_key(&self) -> (r: String)
        ensures
            r@ == legacy_state_key_of(self@),
    {
        let mut v = chars_of(self.profile.as_str());
        extend_str(&mut v, "--");
        extend_str(&mut v, self.target_label());
        extend_str(&mut v, "--");
        extend_str(&mut v, self.package.as_str());
        string_of(v.as_slice())
    }

    pub fn selector_display(&self) -> (r: String)
        ensures
            r@ == selector_display_of(self@),
    {
        let mut v = chars_of(self.package.as_str());
        extend_str(&mut v, " --target ");
        extend_str(&mut v, self.target_label());
        extend_str(&mut v, " --profile ");
        extend_str(&mut v, self.profile.as_str());
        extend_str(&mut v, " --source ");
        extend_str(&mut v, self.source_namespace_label());
        string_of(v.as_slice())
    }
}

fn admits(want: &Option<String>, value: &str) -> (r: bool)
    ensures
        r == dimension_admits(opt_view(*want), value@),
{
    match want {
        Some(w) => str_eq(value, w.as_str()),
        None => true,
    }
}

impl InstalledPackageSelector {
    pub fn matches(&self, identity: &InstalledPackageIdentity) -> (r: bool)
        ensures
            r == selector_matches(self@, identity@),
    {
        str_eq(identity.package.as_str(), self.package.as_str()) && admits(
            &self.target,
            identity.target_label(),
        ) && admits(&self.profile, identity.profile.as_str()) && admits(
            &self.source_namespace,
            identity.source_namespace_label(),
        )
    }
}

/// A selector that names every dimension of an identity matches that
/// identity.
pub proof fn lemma_full_selector_matches(id: IdentityView)
    ensures
        selector_matches(
            SelectorView {
                package: id.package,
                target: Some(target_label_of(id.target)),
                profile: Some(id.profile),
                source_namespace: Some(id.source_namespace),
            },
            id,
        ),
{
}

/// Two identities that agree on profile, target label, source namespace and
/// package have the same state key, whatever their provenance.
pub proof fn lemma_state_key_determined(a: IdentityView, b: IdentityView)
    requires
        a.profile == b.profile,
        target_label_of(a.target) == target_label_of(b.target),
        a.source_namespace == b.source_namespace,
        a.package == b.package,
    ensures
        state_key_of(a) == state_key_of(b),
{
}

} // verus!
