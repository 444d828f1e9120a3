use crosspack_installer::native_service::{native_service_plan, run_native_service_action_with_activation_executor};
use crosspack_installer::service_adapters::{NativeCommandRunner, RecordingExecutor, NativeCommandResult};
use crosspack_installer::types::{HostPlatform, IntegrationAdapterKind, NativeServiceAction};

#[derive(Debug, Default)]
struct FakeActivationCommandExecutor {
    commands: Vec<Vec<String>>,
    results: Vec<NativeCommandResult>,
    fail_all: Option<String>,
}

impl FakeActivationCommandExecutor {
    fn with_results(results: Vec<NativeCommandResult>) -> Self {
        Self { commands: Vec::new(), results, fail_all: None }
    }
}

impl NativeCommandRunner for FakeActivationCommandExecutor {
    fn run(&mut self, program: &str, args: &[String]) -> NativeCommandResult {
        let mut line = vec![program.to_string()];
        line.extend(args.iter().cloned());
        self.commands.push(line);
        if let Some(message) = &self.fail_all {
            return NativeCommandResult::failed(1, "", message);
        }
        if self.results.is_empty() {
            NativeCommandResult::success("", "")
        } else {
            self.results.remove(0)
        }
    }
}

#[test]
fn native_service_adapter_returns_reason_coded_fallback_on_command_failure() {
    let mut executor = FakeActivationCommandExecutor {
        fail_all: Some("simulated service command failure".to_string()),
        ..Default::default()
    };
    let outcome = run_native_service_action_with_activation_executor(
        NativeServiceAction::Start,
        "demo",
        "demo",
        HostPlatform::Linux,
        &mut RecordingExecutor::new(&mut executor),
    );

    assert!(!outcome.applied, "failed native command should report deterministic fallback");
    assert_eq!(outcome.reason_code, "native-command-failed");
}

#[test]
fn native_service_adapter_routes_linux_actions_through_user_adapter() {
    let mut executor = FakeActivationCommandExecutor::default();
    let outcome = run_native_service_action_with_activation_executor(
        NativeServiceAction::Start,
        "demo",
        "demo.service",
        HostPlatform::Linux,
        &mut RecordingExecutor::new(&mut executor),
    );

    assert!(outcome.applied);
    assert_eq!(outcome.adapter, "systemd-user");
    assert_eq!(outcome.reason_code, "ok");
    assert_eq!(
        executor.commands,
        vec![vec![
            "systemctl".to_string(),
            "--user".to_string(),
            "start".to_string(),
            "demo.service".to_string(),
        ]]
    );
}

#[test]
fn native_service_status_malformed_successful_output_returns_non_ok_reason() {
    let mut executor =
        FakeActivationCommandExecutor::with_results(vec![NativeCommandResult::success("", "")]);

    let outcome = run_native_service_action_with_activation_executor(
        NativeServiceAction::Status,
        "demo",
        "demo.service",
        HostPlatform::Linux,
        &mut RecordingExecutor::new(&mut executor),
    );

    assert!(!outcome.applied);
    assert_eq!(outcome.reason_code, "native-command-failed");
}

#[test]
fn native_service_status_stopped_output_maps_ok() {
    let mut executor = FakeActivationCommandExecutor::with_results(vec![NativeCommandResult {
        status: 3,
        stdout: "Active: inactive (dead)".to_string(),
        stderr: String::new(),
    }]);

    let outcome = run_native_service_action_with_activation_executor(
        NativeServiceAction::Status,
        "demo",
        "demo.service",
        HostPlatform::Linux,
        &mut RecordingExecutor::new(&mut executor),
    );

    assert!(outcome.applied);
    assert_eq!(outcome.reason_code, "ok");
}

#[test]
fn native_service_status_not_found_output_maps_non_ok_unsupported() {
    let mut executor = FakeActivationCommandExecutor::with_results(vec![NativeCommandResult {
        status: 4,
        stdout: "Loaded: not-found (Reason: No such file or directory)\nActive: inactive (dead)"
            .to_string(),
        stderr: String::new(),
    }]);

    let outcome = run_native_service_action_with_activation_executor(
        NativeServiceAction::Status,
        "demo",
        "demo.service",
        HostPlatform::Linux,
        &mut RecordingExecutor::new(&mut executor),
    );

    assert!(!outcome.applied);
    assert_eq!(outcome.reason_code, "unsupported-host");
}

#[test]
fn native_service_plans_use_each_hosts_user_adapter() {
    let mac = native_service_plan(HostPlatform::Macos, "caddy", "com.example.caddy");
    assert_eq!(mac.adapter, IntegrationAdapterKind::LaunchdUser);
    assert_eq!(mac.host_path, "com.example.caddy.plist");
    let win = native_service_plan(HostPlatform::Windows, "caddy", "caddy");
    assert_eq!(win.adapter, IntegrationAdapterKind::WindowsServiceUser);
    assert_eq!(win.host_path, "windows-service-user:caddy");
    let mut executor = FakeActivationCommandExecutor::default();
    let outcome = run_native_service_action_with_activation_executor(
        NativeServiceAction::Restart,
        "caddy",
        "caddy",
        HostPlatform::Windows,
        &mut RecordingExecutor::new(&mut executor),
    );
    assert!(outcome.applied);
    assert_eq!(outcome.adapter, "windows-service-user");
    assert_eq!(
        executor.commands,
        vec![
            vec!["crosspack-service-user".to_string(), "stop".to_string(), "caddy".to_string()],
            vec!["crosspack-service-user".to_string(), "start".to_string(), "caddy".to_string()],
        ]
    );
}

impl NativeCommandRunner for &mut FakeActivationCommandExecutor {
    fn run(&mut self, program: &str, args: &[String]) -> NativeCommandResult {
        (**self).run(program, args)
    }
}
