use crosspack_installer::activation_state::{
    parse_integration_activation_state, render_integration_activation_state, ActivationStateError,
};
use crosspack_installer::types::{
    IntegrationActivationRecord, IntegrationActivationScope, IntegrationAdapterKind,
    IntegrationAppliedState, IntegrationDesiredState, IntegrationReasonCode,
};

fn record(package_state_key: &str, integration_key: &str, host_path: Option<&str>) -> IntegrationActivationRecord {
    IntegrationActivationRecord {
        package_state_key: package_state_key.to_string(),
        package: "demo".to_string(),
        integration_key: integration_key.to_string(),
        kind: "path_plugin".to_string(),
        adapter: IntegrationAdapterKind::PathPluginBin,
        scope: IntegrationActivationScope::User,
        desired_state: IntegrationDesiredState::Enabled,
        applied_state: IntegrationAppliedState::Enabled,
        host_path: host_path.map(str::to_string),
        reason_code: IntegrationReasonCode::Success,
    }
}

#[test]
fn activation_state_round_trips_records() {
    let records = vec![
        record("default--host--core--demo", "path_plugin:demo:democtl", Some("/prefix/bin/democtl")),
        record("default--host--core--demo", "service:demo", None),
    ];
    let text = render_integration_activation_state(&records)
        .expect("records render")
        .expect("non-empty records render text");
    assert_eq!(
        text,
        "version=1\nactivation=default--host--core--demo\tdemo\tpath_plugin:demo:democtl\tpath_plugin\tpath-plugin-bin\tuser\tenabled\tenabled\t/prefix/bin/democtl\tok\nactivation=default--host--core--demo\tdemo\tservice:demo\tpath_plugin\tpath-plugin-bin\tuser\tenabled\tenabled\t\tok\n"
    );
    assert_eq!(parse_integration_activation_state(&text), Ok(records));
}

#[test]
fn activation_state_empty_records_render_nothing() {
    assert_eq!(render_integration_activation_state(&Vec::new()), Ok(None));
}

#[test]
fn activation_state_render_rejects_delimiters_and_duplicates() {
    let bad = vec![record("a\tb", "k", None)];
    assert_eq!(
        render_integration_activation_state(&bad),
        Err(ActivationStateError::DelimiterInValue)
    );
    let dup = vec![record("a", "k", None), record("a", "k", Some("/x"))];
    assert_eq!(
        render_integration_activation_state(&dup),
        Err(ActivationStateError::DuplicateRecord)
    );
}

#[test]
fn activation_state_parse_errors_are_reason_coded() {
    let row = "activation=a\tdemo\tk\tpath_plugin\tpath-plugin-bin\tuser\tenabled\tenabled\t\tok\n";
    assert_eq!(parse_integration_activation_state(row), Err(ActivationStateError::MissingVersion));
    assert_eq!(
        parse_integration_activation_state("version=2\n"),
        Err(ActivationStateError::UnsupportedVersion)
    );
    assert_eq!(
        parse_integration_activation_state("version=1\nversion=1\n"),
        Err(ActivationStateError::DuplicateVersion)
    );
    assert_eq!(
        parse_integration_activation_state("version=x\n"),
        Err(ActivationStateError::InvalidVersion)
    );
    assert_eq!(
        parse_integration_activation_state("version=1\nnoise\n"),
        Err(ActivationStateError::InvalidRow)
    );
    assert_eq!(
        parse_integration_activation_state("version=1\nother=1\n"),
        Err(ActivationStateError::InvalidRow)
    );
    let doubled = format!("version=1\n{row}{row}");
    assert_eq!(
        parse_integration_activation_state(&doubled),
        Err(ActivationStateError::DuplicateRecord)
    );
    assert_eq!(
        parse_integration_activation_state(
            "version=1\nactivation=a\tdemo\tk\tpath_plugin\tbogus\tuser\tenabled\tenabled\t\tok\n"
        ),
        Err(ActivationStateError::InvalidAdapter)
    );
    assert_eq!(
        parse_integration_activation_state(
            "version=1\nactivation=a\tdemo\tk\tpath_plugin\tpath-plugin-bin\tuser\tenabled\tenabled\t\tnope\n"
        ),
        Err(ActivationStateError::InvalidReasonCode)
    );
    assert_eq!(
        parse_integration_activation_state("\n  \nversion=1\n"),
        Ok(Vec::new())
    );
    assert_eq!(
        ActivationStateError::MissingVersion.message(),
        "missing integration activation state version"
    );
}
