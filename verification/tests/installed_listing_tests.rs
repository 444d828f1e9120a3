use crosspack_installer::identity::{InstalledPackageIdentity, InstalledPackageSelector};
use crosspack_installer::installed_listing::{
    first_state_for_package, merge_installed_states, select_installed_package,
    sort_installed_states, states_for_package, InstalledPackageState, InstalledStateDocument,
    ServiceDeclaration, StateOrder,
};
use crosspack_installer::layout::PrefixLayout;
use crosspack_installer::order::str_precedes;
use crosspack_installer::types::{InstallMode, InstallReason, InstallReceipt};

fn test_layout() -> PrefixLayout {
    PrefixLayout::new("/tmp/crosspack-test-prefix")
}

fn receipt(name: &str, target: Option<&str>) -> InstallReceipt {
    InstallReceipt {
        name: name.to_string(),
        version: "1.0.0".to_string(),
        dependencies: Vec::new(),
        target: target.map(|t| t.to_string()),
        artifact_url: None,
        artifact_sha256: None,
        cache_path: None,
        exposed_bins: Vec::new(),
        exposed_completions: Vec::new(),
        snapshot_id: None,
        install_mode: InstallMode::Managed,
        install_reason: InstallReason::Root,
        install_status: "installed".to_string(),
        installed_at_unix: 1,
    }
}

fn state(name: &str, target: Option<&str>) -> InstalledPackageState {
    let receipt = receipt(name, target);
    InstalledPackageState {
        identity: InstalledPackageIdentity::from_legacy_receipt(&receipt),
        version: receipt.version.clone(),
        receipt,
        gui_assets: Vec::new(),
        native_gui_records: Vec::new(),
        services: Vec::new(),
        integrations: Vec::new(),
    }
}

fn document_at_identity(layout: &PrefixLayout, state: InstalledPackageState) -> InstalledStateDocument {
    InstalledStateDocument {
        path: layout.installed_identity_state_document_path(&state.identity),
        state,
    }
}

fn keys(states: &[InstalledPackageState]) -> Vec<String> {
    states.iter().map(|s| s.identity.state_key()).collect()
}

fn bare_selector(package: &str) -> InstalledPackageSelector {
    InstalledPackageSelector {
        package: package.to_string(),
        target: None,
        profile: None,
        source_namespace: None,
    }
}

#[test]
fn text_order_compares_characters_then_length() {
    assert!(str_precedes("aarch64-apple-darwin", "x86_64-unknown-linux-gnu"));
    assert!(!str_precedes("x86_64-unknown-linux-gnu", "aarch64-apple-darwin"));
    assert!(str_precedes("demo", "demo-copy"));
    assert!(!str_precedes("demo", "demo"));
    assert!(str_precedes("", "a"));
    assert!(str_precedes("Zeta", "alpha"));
}

#[test]
fn identity_order_puts_absent_target_first() {
    let host = state("demo", None);
    let linux = state("demo", Some("x86_64-unknown-linux-gnu"));
    assert!(host.identity.precedes(&linux.identity));
    assert!(!linux.identity.precedes(&host.identity));
    assert!(!linux.identity.precedes(&linux.identity));
}

#[test]
fn sort_by_identity_orders_targets() {
    let sorted = sort_installed_states(
        vec![
            state("demo", Some("x86_64-unknown-linux-gnu")),
            state("demo", Some("aarch64-apple-darwin")),
        ],
        StateOrder::Identity,
    );
    assert_eq!(
        keys(&sorted),
        vec![
            "default--aarch64-apple-darwin--default--demo".to_string(),
            "default--x86_64-unknown-linux-gnu--default--demo".to_string(),
        ]
    );
}

#[test]
fn select_installed_package_returns_exact_match_and_sorted_ambiguity() {
    let states = || {
        vec![
            state("demo", Some("x86_64-unknown-linux-gnu")),
            state("demo", Some("aarch64-apple-darwin")),
        ]
    };
    let selected = select_installed_package(
        states(),
        &InstalledPackageSelector {
            package: "demo".to_string(),
            target: Some("aarch64-apple-darwin".to_string()),
            profile: Some("default".to_string()),
            source_namespace: Some("default".to_string()),
        },
    )
    .expect("selector should not be ambiguous")
    .expect("selector should match");
    assert_eq!(selected.identity.target.as_deref(), Some("aarch64-apple-darwin"));

    let ambiguity = select_installed_package(states(), &bare_selector("demo"))
        .expect_err("bare selector must be ambiguous");
    assert_eq!(ambiguity.matches.len(), 2);
    assert_eq!(ambiguity.matches[0].identity.target.as_deref(), Some("aarch64-apple-darwin"));
    assert_eq!(ambiguity.matches[1].identity.target.as_deref(), Some("x86_64-unknown-linux-gnu"));
    assert_eq!(ambiguity.selector, bare_selector("demo"));
    assert_eq!(ambiguity.message(), "installed package name 'demo' is ambiguous");

    let none = select_installed_package(states(), &bare_selector("other"))
        .expect("no match is not ambiguous");
    assert!(none.is_none());
}

#[test]
fn states_for_package_keeps_only_that_package_in_order() {
    let found = states_for_package(
        vec![
            state("demo", Some("x86_64-unknown-linux-gnu")),
            state("other", None),
            state("demo", Some("aarch64-apple-darwin")),
        ],
        "demo",
    );
    assert_eq!(
        keys(&found),
        vec![
            "default--x86_64-unknown-linux-gnu--default--demo".to_string(),
            "default--aarch64-apple-darwin--default--demo".to_string(),
        ]
    );
}

#[test]
fn first_state_for_package_takes_least_identity() {
    let first = first_state_for_package(
        vec![
            state("other", None),
            state("demo", Some("x86_64-unknown-linux-gnu")),
            state("demo", Some("aarch64-apple-darwin")),
        ],
        "demo",
    )
    .expect("demo has states");
    assert_eq!(first.identity.target.as_deref(), Some("aarch64-apple-darwin"));
    assert!(first_state_for_package(vec![state("other", None)], "demo").is_none());
}

#[test]
fn merge_keeps_same_name_identity_receipts_distinct() {
    let layout = test_layout();
    let listed = merge_installed_states(
        &layout,
        vec![
            state("demo", Some("aarch64-apple-darwin")),
            state("demo", Some("x86_64-unknown-linux-gnu")),
        ],
        Vec::new(),
    )
    .expect("must list states");
    assert_eq!(
        keys(&listed),
        vec![
            "default--aarch64-apple-darwin--default--demo".to_string(),
            "default--x86_64-unknown-linux-gnu--default--demo".to_string(),
        ]
    );
}

#[test]
fn merge_returns_states_sorted_by_receipt_name() {
    let layout = test_layout();
    let listed = merge_installed_states(
        &layout,
        vec![state("demo", Some("x86_64-unknown-linux-gnu"))],
        vec![document_at_identity(&layout, state("alpha", Some("x86_64-unknown-linux-gnu")))],
    )
    .expect("must list states");
    let names: Vec<&str> = listed.iter().map(|s| s.receipt.name.as_str()).collect();
    assert_eq!(names, vec!["alpha", "demo"]);
}

#[test]
fn merge_rejects_duplicate_identity_documents() {
    let layout = test_layout();
    let original = document_at_identity(&layout, state("demo", Some("x86_64-unknown-linux-gnu")));
    let copy = InstalledStateDocument {
        path: layout.installed_state_document_path("demo-copy"),
        state: state("demo", Some("x86_64-unknown-linux-gnu")),
    };
    let err = merge_installed_states(&layout, Vec::new(), vec![original, copy])
        .expect_err("duplicate identity must fail closed");
    assert_eq!(err.state_key, "default--x86_64-unknown-linux-gnu--default--demo");
    assert!(err.message().contains("duplicate installed identity"));
}

#[test]
fn merge_rejects_duplicate_receipt_identities() {
    let layout = test_layout();
    let err = merge_installed_states(
        &layout,
        vec![state("demo", None), state("demo", None)],
        Vec::new(),
    )
    .expect_err("two receipts of one identity must fail");
    assert_eq!(err.message(), "duplicate installed identity: default--host--default--demo");
}

#[test]
fn merge_accepts_name_keyed_document_beside_identity_document() {
    let layout = test_layout();
    let identity_doc =
        document_at_identity(&layout, state("demo", Some("x86_64-unknown-linux-gnu")));
    let legacy_doc = InstalledStateDocument {
        path: layout.installed_state_document_path("demo"),
        state: state("demo", Some("x86_64-unknown-linux-gnu")),
    };
    let listed = merge_installed_states(&layout, Vec::new(), vec![legacy_doc, identity_doc])
        .expect("name-keyed document is the same package");
    assert_eq!(keys(&listed), vec!["default--x86_64-unknown-linux-gnu--default--demo".to_string()]);
}

#[test]
fn merge_skips_documents_of_identities_read_through_receipts() {
    let layout = test_layout();
    let mut from_document = state("demo", Some("x86_64-unknown-linux-gnu"));
    from_document.services.push(ServiceDeclaration {
        name: "demo".to_string(),
        native_id: Some("demo.service".to_string()),
    });
    let listed = merge_installed_states(
        &layout,
        vec![state("demo", Some("x86_64-unknown-linux-gnu"))],
        vec![document_at_identity(&layout, from_document)],
    )
    .expect("must list states");
    assert_eq!(listed.len(), 1);
    assert!(listed[0].services.is_empty());
}
