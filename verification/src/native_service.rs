//! Service requests for a natively installed package: the package's service
//! is reached through the host's user service adapter, and the outcome is
//! reported as whether the request took effect, by which adapter, and why.
use vstd::prelude::*;

use crate::activation_adapters::{plain_outcome, ActivationAdapterOutcome, OutcomeView};
use crate::service_adapters::{
    action_commands_spec, action_state, action_status_outcome_spec, failure_outcome_spec,
    run_service_action_plan, status_command_spec, unsupported_host_outcome,
    ActivationCommandExecutor, CommandResultView,
};
use crate::text::{extend_str, string_of_vec};
use crate::types::{
    HostPlatform, IntegrationActivationPlan, IntegrationActivationScope, IntegrationAdapterKind,
    IntegrationDesiredState, IntegrationReasonCode, NativeServiceAction, PlanView,
};

verus! {

/// What a native service request came to.
#[derive(Clone, Debug, PartialEq, Eq)]
pub struct NativeServiceOutcome {
    /// Whether the request took effect.
    pub applied: bool,
    /// The adapter's token.
    pub adapter: String,
    /// The reason code's token.
    pub reason_code: String,
}

/// The user service adapter of each host.
pub open spec fn native_service_adapter(platform: HostPlatform) -> IntegrationAdapterKind {
    match platform {
        HostPlatform::Linux => IntegrationAdapterKind::SystemdUser,
        HostPlatform::Macos => IntegrationAdapterKind::LaunchdUser,
        HostPlatform::Windows => IntegrationAdapterKind::WindowsServiceUser,
    }
}

/// How the adapter names the service `native_id`: `systemd-user:<id>`,
/// a `<id>.plist` launch agent, or `windows-service-user:<id>`.
pub open spec fn native_service_host_path(platform: HostPlatform, native_id: Seq<char>) -> Seq<char> {
    match platform {
        HostPlatform::Linux => "systemd-user:"@ + native_id,
        HostPlatform::Macos => native_id + ".plist"@,
        HostPlatform::Windows => "windows-service-user:"@ + native_id,
    }
}

/// The user-scope plan through which the service `native_id` of
/// `package_name` is reached.
pub open spec fn native_service_plan_spec(
    platform: HostPlatform,
    package_name: Seq<char>,
    native_id: Seq<char>,
) -> PlanView {
    PlanView {
        package_state_key: package_name,
        package: package_name,
        integration_key: "service:"@ + native_id,
        kind: "service"@,
        adapter: native_service_adapter(platform),
        scope: IntegrationActivationScope::User,
        desired_state: IntegrationDesiredState::Running,
        host_path: native_service_host_path(platform, native_id),
        source_path: Seq::empty(),
    }
}

fn cat2(a: &str, b: &str) -> (r: String)
    ensures
        r@ == a@ + b@,
{
    let mut v: Vec<char> = Vec::new();
    extend_str(&mut v, a);
    extend_str(&mut v, b);
    string_of_vec(&v)
}

/// The plan through which a native service is reached (see
/// `native_service_plan_spec`).
pub fn native_service_plan(platform: HostPlatform, package_name: &str, native_id: &str) -> (r:
    IntegrationActivationPlan)
    ensures
        r@ == native_service_plan_spec(platform, package_name@, native_id@),
{
    let (adapter, host_path) = match platform {
        HostPlatform::Linux => (IntegrationAdapterKind::SystemdUser, cat2("systemd-user:", native_id)),
        HostPlatform::Macos => (IntegrationAdapterKind::LaunchdUser, cat2(native_id, ".plist")),
        HostPlatform::Windows => (
            IntegrationAdapterKind::WindowsServiceUser,
            cat2("windows-service-user:", native_id),
        ),
    };
    let r = IntegrationActivationPlan {
        package_state_key: String::from_str(package_name),
        package: String::from_str(package_name),
        integration_key: cat2("service:", native_id),
        kind: String::from_str("service"),
        adapter,
        scope: IntegrationActivationScope::User,
        desired_state: IntegrationDesiredState::Running,
        host_path,
        source_path: String::new(),
    };
    assert(r@.source_path =~= Seq::<char>::empty());
    r
}

pub struct ServiceOutcomeView {
    pub applied: bool,
    pub adapter: Seq<char>,
    pub reason_code: Seq<char>,
}

/// An adapter outcome as a native service outcome: applied exactly when
/// the reason is success.
pub open spec fn native_outcome_spec(adapter: IntegrationAdapterKind, out: OutcomeView) -> ServiceOutcomeView {
    ServiceOutcomeView {
        applied: out.reason_code == IntegrationReasonCode::Success,
        adapter: adapter.token(),
        reason_code: out.reason_code.token(),
    }
}

pub open spec fn service_outcome_view(o: NativeServiceOutcome) -> ServiceOutcomeView {
    ServiceOutcomeView { applied: o.applied, adapter: o.adapter@, reason_code: o.reason_code@ }
}

/// The native service outcome of an adapter outcome (see
/// `native_outcome_spec`).
pub fn native_service_outcome(adapter: IntegrationAdapterKind, out: &ActivationAdapterOutcome) -> (r:
    NativeServiceOutcome)
    ensures
        service_outcome_view(r) == native_outcome_spec(adapter, out@),
{
    NativeServiceOutcome {
        applied: out.reason_code == IntegrationReasonCode::Success,
        adapter: String::from_str(adapter.as_str()),
        reason_code: String::from_str(out.reason_code.as_str()),
    }
}

/// What running `action` through `plan` may come to: a status query reads
/// the status command's result; a start, stop or restart succeeds with the
/// state it leaves or fails as its first failed command did; without a
/// command for the request, the host is unsupported.
pub open spec fn service_request_outcome(plan: PlanView, action: NativeServiceAction, out: OutcomeView) -> bool {
    if action == NativeServiceAction::Status {
        if status_command_spec(plan) is None {
            out == unsupported_host_outcome()
        } else {
            exists|r: CommandResultView| out == action_status_outcome_spec(plan.adapter, r)
        }
    } else if action_commands_spec(plan, action) is None {
        out == unsupported_host_outcome()
    } else {
        out == plain_outcome(IntegrationReasonCode::Success, action_state(action)) || exists|
            r: CommandResultView,
        | r.status != 0 && out == failure_outcome_spec(r)
    }
}

/// Carries out `action` on the service `native_id` of `package_name`
/// through this host's user service adapter (see
/// `native_service_plan_spec`, `service_request_outcome`).
pub fn run_native_service_action_with_activation_executor<E: ActivationCommandExecutor>(
    action: NativeServiceAction,
    package_name: &str,
    native_id: &str,
    platform: HostPlatform,
    executor: &mut E,
) -> (r: NativeServiceOutcome)
    ensures
        exists|out: OutcomeView|
            service_request_outcome(
                native_service_plan_spec(platform, package_name@, native_id@),
                action,
                out,
            ) && service_outcome_view(r) == native_outcome_spec(native_service_adapter(platform), out),
{
    let plan = native_service_plan(platform, package_name, native_id);
    let out = run_service_action_plan(executor, &plan, action);
    let r = native_service_outcome(plan.adapter, &out);
    assert(service_request_outcome(plan@, action, out@));
    r
}

} // verus!
