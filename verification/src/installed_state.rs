//! Where the installed-state document of a package is looked for and what
//! clearing it removes.
use vstd::prelude::*;

use crate::identity::{legacy_state_key_of, state_key_of, IdentityView, InstalledPackageIdentity};
use crate::layout::PrefixLayout;
use crate::paths::path_join_on_host;
use crate::types::{InstallReceipt, ReceiptView};

verus! {

/// The identity a legacy receipt stands for.
pub open spec fn legacy_identity(r: ReceiptView) -> IdentityView {
    IdentityView {
        profile: "default"@,
        target: r.target,
        source_namespace: "default"@,
        source_provenance: Some("unknown"@),
        package: r.name,
    }
}

pub open spec fn strings_view(v: Seq<String>) -> Seq<Seq<char>> {
    v.map_values(|s: String| s@)
}

pub open spec fn identity_document(l: PrefixLayout, id: IdentityView) -> Seq<char> {
    path_join_on_host(l.spec_windows(), l.spec_installed_state_dir(), state_key_of(id) + ".state.json"@)
}

pub open spec fn legacy_identity_document(l: PrefixLayout, id: IdentityView) -> Seq<char> {
    path_join_on_host(l.spec_windows(), l.spec_installed_state_dir(), legacy_state_key_of(id) + ".state.json"@)
}

pub open spec fn name_document(l: PrefixLayout, name: Seq<char>) -> Seq<char> {
    path_join_on_host(l.spec_windows(), l.spec_installed_state_dir(), name + ".state.json"@)
}

/// Where a package's installed-state document is looked for, in order:
/// with its receipt, at the document of the identity the receipt stands
/// for and at that identity's legacy document; then, in any case, at the
/// document named after the package. The first that exists is read.
pub open spec fn document_candidates_spec(
    l: PrefixLayout,
    package_name: Seq<char>,
    receipt: Option<ReceiptView>,
) -> Seq<Seq<char>> {
    match receipt {
        Some(r) => seq![
            identity_document(l, legacy_identity(r)),
            legacy_identity_document(l, legacy_identity(r)),
            name_document(l, package_name),
        ],
        None => seq![name_document(l, package_name)],
    }
}

/// The installed-state documents looked for (see
/// `document_candidates_spec`); `receipt` is the package's receipt when
/// it has one.
pub fn installed_state_document_candidates(
    layout: &PrefixLayout,
    package_name: &str,
    receipt: Option<&InstallReceipt>,
) -> (r: Vec<String>)
    ensures
        strings_view(r@) == document_candidates_spec(
            *layout,
            package_name@,
            match receipt {
                Some(x) => Some(x@),
                None => None,
            },
        ),
{
    let mut v: Vec<String> = Vec::new();
    match receipt {
        Some(rec) => {
            let id = InstalledPackageIdentity::from_legacy_receipt(rec);
            assert(id@ == legacy_identity(rec@));
            v.push(layout.installed_identity_state_document_path(&id));
            v.push(layout.installed_legacy_identity_state_document_path(&id));
        },
        None => {},
    }
    v.push(layout.installed_state_document_path(package_name));
    proof {
        match receipt {
            Some(rec) => {
                assert(strings_view(v@) =~= document_candidates_spec(*layout, package_name@, Some(rec@)));
            },
            None => {
                assert(strings_view(v@) =~= document_candidates_spec(*layout, package_name@, None));
            },
        }
    }
    v
}

/// What clearing a package's installed state removes: the document of the
/// identity its receipt stands for, then the document named after it.
pub fn installed_state_documents_to_clear(layout: &PrefixLayout, receipt: &InstallReceipt) -> (r: Vec<
    String,
>)
    ensures
        strings_view(r@) == seq![
            identity_document(*layout, legacy_identity(receipt@)),
            name_document(*layout, receipt@.name),
        ],
{
    let id = InstalledPackageIdentity::from_legacy_receipt(receipt);
    assert(id@ == legacy_identity(receipt@));
    let mut v: Vec<String> = Vec::new();
    v.push(layout.installed_identity_state_document_path(&id));
    v.push(layout.installed_state_document_path(receipt.name.as_str()));
    assert(strings_view(v@) =~= seq![
        identity_document(*layout, legacy_identity(receipt@)),
        name_document(*layout, receipt@.name),
    ]);
    v
}

} // verus!
