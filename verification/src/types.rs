//! Shared vocabulary of the installer: host platforms, activation adapter
//! kinds, scopes, states and reason codes (each with its persisted token), and
//! the plain records that the planners, adapters and state files exchange.
use vstd::prelude::*;

use crate::text::chars_eq_str;
use crate::text::chars_of;

verus! {

/// Operating system family an activation is planned for.
#[derive(Clone, Copy, Debug, PartialEq, Eq, Structural)]
pub enum HostPlatform {
    Linux,
    Macos,
    Windows,
}

/// Adapter that realises an integration on the host.
#[derive(Clone, Copy, Debug, PartialEq, Eq, Structural)]
pub enum IntegrationAdapterKind {
    DockerCli,
    PathPluginBin,
    SystemdUser,
    LaunchdUser,
    WindowsServiceUser,
}

/// Privilege scope of an activation.
#[derive(Clone, Copy, Debug, PartialEq, Eq, Structural)]
pub enum IntegrationActivationScope {
    Unscoped,
    User,
    System,
}

/// State an activation is asked to reach.
#[derive(Clone, Copy, Debug, PartialEq, Eq, Structural)]
pub enum IntegrationDesiredState {
    Enabled,
    Running,
}

/// State an activation was observed or left in.
#[derive(Clone, Copy, Debug, PartialEq, Eq, Structural)]
pub enum IntegrationAppliedState {
    Installed,
    Enabled,
    Running,
    Stopped,
    Failed,
    Unsupported,
}

/// Deterministic reason attached to every planning or adapter outcome.
#[derive(Clone, Copy, Debug, PartialEq, Eq, Structural)]
pub enum IntegrationReasonCode {
    Success,
    HostPathConflict,
    EscalationRequired,
    UnsupportedHost,
    InvalidServiceMetadata,
    AdapterToolMissing,
    NativeCommandFailed,
}

/// Service lifecycle request.
#[derive(Clone, Copy, Debug, PartialEq, Eq, Structural)]
pub enum NativeServiceAction {
    Start,
    Stop,
    Restart,
    Status,
}

/// How a package was installed.
#[derive(Clone, Copy, Debug, PartialEq, Eq, Structural)]
pub enum InstallMode {
    Managed,
    Native,
}

/// Why a package is installed.
#[derive(Clone, Copy, Debug, PartialEq, Eq, Structural)]
pub enum InstallReason {
    Root,
    Dependency,
}

/// Lifecycle status of a transaction.
#[derive(Clone, Copy, Debug, PartialEq, Eq, Structural)]
pub enum TransactionStatus {
    Planning,
    Applying,
    Completed,
    Committed,
    RollingBack,
    RolledBack,
    Failed,
}

impl IntegrationAdapterKind {
    pub open spec fn token(self) -> Seq<char> {
        match self {
            IntegrationAdapterKind::DockerCli => "docker-cli"@,
            IntegrationAdapterKind::PathPluginBin => "path-plugin-bin"@,
            IntegrationAdapterKind::SystemdUser => "systemd-user"@,
            IntegrationAdapterKind::LaunchdUser => "launchd-user"@,
            IntegrationAdapterKind::WindowsServiceUser => "windows-service-user"@,
        }
    }

    pub open spec fn from_token(s: Seq<char>) -> Option<Self> {
        if s == "docker-cli"@ {
            Some(IntegrationAdapterKind::DockerCli)
        } else if s == "path-plugin-bin"@ {
            Some(IntegrationAdapterKind::PathPluginBin)
        } else if s == "systemd-user"@ {
            Some(IntegrationAdapterKind::SystemdUser)
        } else if s == "launchd-user"@ {
            Some(IntegrationAdapterKind::LaunchdUser)
        } else if s == "windows-service-user"@ {
            Some(IntegrationAdapterKind::WindowsServiceUser)
        } else {
            None
        }
    }

    /// The persisted token of this adapter kind.
    pub fn as_str(&self) -> (r: &'static str)
        ensures
            r@ == self.token(),
    {
        match self {
            IntegrationAdapterKind::DockerCli => "docker-cli",
            IntegrationAdapterKind::PathPluginBin => "path-plugin-bin",
            IntegrationAdapterKind::SystemdUser => "systemd-user",
            IntegrationAdapterKind::LaunchdUser => "launchd-user",
            IntegrationAdapterKind::WindowsServiceUser => "windows-service-user",
        }
    }

    /// Reads a persisted token.
    pub fn parse(s: &str) -> (r: Option<Self>)
        ensures
            r == Self::from_token(s@),
    {
        let c = chars_of(s);
        Self::parse_chars(c.as_slice())
    }

    pub fn parse_chars(c: &[char]) -> (r: Option<Self>)
        ensures
            r == Self::from_token(c@),
    {
        if chars_eq_str(c, "docker-cli") {
            Some(IntegrationAdapterKind::DockerCli)
        } else if chars_eq_str(c, "path-plugin-bin") {
            Some(IntegrationAdapterKind::PathPluginBin)
        } else if chars_eq_str(c, "systemd-user") {
            Some(IntegrationAdapterKind::SystemdUser)
        } else if chars_eq_str(c, "launchd-user") {
            Some(IntegrationAdapterKind::LaunchdUser)
        } else if chars_eq_str(c, "windows-service-user") {
            Some(IntegrationAdapterKind::WindowsServiceUser)
        } else {
            None
        }
    }

    pub proof fn lemma_token_round_trip(self)
        ensures
            Self::from_token(self.token()) == Some(self),
    {
        reveal_strlit("docker-cli");
        reveal_strlit("path-plugin-bin");
        reveal_strlit("systemd-user");
        reveal_strlit("launchd-user");
        reveal_strlit("windows-service-user");
        assert("docker-cli"@.len() == 10);
        assert("path-plugin-bin"@.len() == 15);
        assert("systemd-user"@.len() == 12);
        assert("launchd-user"@.len() == 12);
        assert("windows-service-user"@.len() == 20);
        assert("systemd-user"@[0] != "launchd-user"@[0]);
    }
}

impl IntegrationActivationScope {
    pub open spec fn token(self) -> Seq<char> {
        match self {
            IntegrationActivationScope::Unscoped => "none"@,
            IntegrationActivationScope::User => "user"@,
            IntegrationActivationScope::System => "system"@,
        }
    }

    pub open spec fn from_token(s: Seq<char>) -> Option<Self> {
        if s == "none"@ {
            Some(IntegrationActivationScope::Unscoped)
        } else if s == "user"@ {
            Some(IntegrationActivationScope::User)
        } else if s == "system"@ {
            Some(IntegrationActivationScope::System)
        } else {
            None
        }
    }

    /// The persisted token of this scope.
    pub fn as_str(&self) -> (r: &'static str)
        ensures
            r@ == self.token(),
    {
        match self {
            IntegrationActivationScope::Unscoped => "none",
            IntegrationActivationScope::User => "user",
            IntegrationActivationScope::System => "system",
        }
    }

    /// Reads a persisted token.
    pub fn parse(s: &str) -> (r: Option<Self>)
        ensures
            r == Self::from_token(s@),
    {
        let c = chars_of(s);
        Self::parse_chars(c.as_slice())
    }

    pub fn parse_chars(c: &[char]) -> (r: Option<Self>)
        ensures
            r == Self::from_token(c@),
    {
        if chars_eq_str(c, "none") {
            Some(IntegrationActivationScope::Unscoped)
        } else if chars_eq_str(c, "user") {
            Some(IntegrationActivationScope::User)
        } else if chars_eq_str(c, "system") {
            Some(IntegrationActivationScope::System)
        } else {
            None
        }
    }

    pub proof fn lemma_token_round_trip(self)
        ensures
            Self::from_token(self.token()) == Some(self),
    {
        reveal_strlit("none");
        reveal_strlit("user");
        reveal_strlit("system");
        assert("none"@.len() == 4);
        assert("user"@.len() == 4);
        assert("system"@.len() == 6);
        assert("none"@[0] != "user"@[0]);
    }
}

impl IntegrationDesiredState {
    pub open spec fn token(self) -> Seq<char> {
        match self {
            IntegrationDesiredState::Enabled => "enabled"@,
            IntegrationDesiredState::Running => "running"@,
        }
    }

    pub open spec fn from_token(s: Seq<char>) -> Option<Self> {
        if s == "enabled"@ {
            Some(IntegrationDesiredState::Enabled)
        } else if s == "running"@ {
            Some(IntegrationDesiredState::Running)
        } else {
            None
        }
    }

    /// The persisted token of this desired state.
    pub fn as_str(&self) -> (r: &'static str)
        ensures
            r@ == self.token(),
    {
        match self {
            IntegrationDesiredState::Enabled => "enabled",
            IntegrationDesiredState::Running => "running",
        }
    }

    /// Reads a persisted token.
    pub fn parse(s: &str) -> (r: Option<Self>)
        ensures
            r == Self::from_token(s@),
    {
        let c = chars_of(s);
        Self::parse_chars(c.as_slice())
    }

    pub fn parse_chars(c: &[char]) -> (r: Option<Self>)
        ensures
            r == Self::from_token(c@),
    {
        if chars_eq_str(c, "enabled") {
            Some(IntegrationDesiredState::Enabled)
        } else if chars_eq_str(c, "running") {
            Some(IntegrationDesiredState::Running)
        } else {
            None
        }
    }

    pub proof fn lemma_token_round_trip(self)
        ensures
            Self::from_token(self.token()) == Some(self),
    {
        reveal_strlit("enabled");
        reveal_strlit("running");
        assert("enabled"@.len() == 7);
        assert("running"@.len() == 7);
        assert("enabled"@[0] != "running"@[0]);
    }
}

impl IntegrationAppliedState {
    pub open spec fn token(self) -> Seq<char> {
        match self {
            IntegrationAppliedState::Installed => "installed"@,
            IntegrationAppliedState::Enabled => "enabled"@,
            IntegrationAppliedState::Running => "running"@,
            IntegrationAppliedState::Stopped => "stopped"@,
            IntegrationAppliedState::Failed => "failed"@,
            IntegrationAppliedState::Unsupported => "unsupported"@,
        }
    }

    pub open spec fn from_token(s: Seq<char>) -> Option<Self> {
        if s == "installed"@ {
            Some(IntegrationAppliedState::Installed)
        } else if s == "enabled"@ {
            Some(IntegrationAppliedState::Enabled)
        } else if s == "running"@ {
            Some(IntegrationAppliedState::Running)
        } else if s == "stopped"@ {
            Some(IntegrationAppliedState::Stopped)
        } else if s == "failed"@ {
            Some(IntegrationAppliedState::Failed)
        } else if s == "unsupported"@ {
            Some(IntegrationAppliedState::Unsupported)
        } else {
            None
        }
    }

    /// The persisted token of this applied state.
    pub fn as_str(&self) -> (r: &'static str)
        ensures
            r@ == self.token(),
    {
        match self {
            IntegrationAppliedState::Installed => "installed",
            IntegrationAppliedState::Enabled => "enabled",
            IntegrationAppliedState::Running => "running",
            IntegrationAppliedState::Stopped => "stopped",
            IntegrationAppliedState::Failed => "failed",
            IntegrationAppliedState::Unsupported => "unsupported",
        }
    }

    /// Reads a persisted token.
    pub fn parse(s: &str) -> (r: Option<Self>)
        ensures
            r == Self::from_token(s@),
    {
        let c = chars_of(s);
        Self::parse_chars(c.as_slice())
    }

    pub fn parse_chars(c: &[char]) -> (r: Option<Self>)
        ensures
            r == Self::from_token(c@),
    {
        if chars_eq_str(c, "installed") {
            Some(IntegrationAppliedState::Installed)
        } else if chars_eq_str(c, "enabled") {
            Some(IntegrationAppliedState::Enabled)
        } else if chars_eq_str(c, "running") {
            Some(IntegrationAppliedState::Running)
        } else if chars_eq_str(c, "stopped") {
            Some(IntegrationAppliedState::Stopped)
        } else if chars_eq_str(c, "failed") {
            Some(IntegrationAppliedState::Failed)
        } else if chars_eq_str(c, "unsupported") {
            Some(IntegrationAppliedState::Unsupported)
        } else {
            None
        }
    }

    pub proof fn lemma_token_round_trip(self)
        ensures
            Self::from_token(self.token()) == Some(self),
    {
        reveal_strlit("installed");
        reveal_strlit("enabled");
        reveal_strlit("running");
        reveal_strlit("stopped");
        reveal_strlit("failed");
        reveal_strlit("unsupported");
        assert("installed"@.len() == 9);
        assert("enabled"@.len() == 7);
        assert("running"@.len() == 7);
        assert("stopped"@.len() == 7);
        assert("failed"@.len() == 6);
        assert("unsupported"@.len() == 11);
        assert("enabled"@[0] != "running"@[0]);
        assert("enabled"@[0] != "stopped"@[0]);
        assert("running"@[0] != "stopped"@[0]);
    }
}

impl IntegrationReasonCode {
    pub open spec fn token(self) -> Seq<char> {
        match self {
            IntegrationReasonCode::Success => "ok"@,
            IntegrationReasonCode::HostPathConflict => "host-path-conflict"@,
            IntegrationReasonCode::EscalationRequired => "escalation-required"@,
            IntegrationReasonCode::UnsupportedHost => "unsupported-host"@,
            IntegrationReasonCode::InvalidServiceMetadata => "invalid-service-metadata"@,
            IntegrationReasonCode::AdapterToolMissing => "adapter-tool-missing"@,
            IntegrationReasonCode::NativeCommandFailed => "native-command-failed"@,
        }
    }

    pub open spec fn from_token(s: Seq<char>) -> Option<Self> {
        if s == "ok"@ {
            Some(IntegrationReasonCode::Success)
        } else if s == "host-path-conflict"@ {
            Some(IntegrationReasonCode::HostPathConflict)
        } else if s == "escalation-required"@ {
            Some(IntegrationReasonCode::EscalationRequired)
        } else if s == "unsupported-host"@ {
            Some(IntegrationReasonCode::UnsupportedHost)
        } else if s == "invalid-service-metadata"@ {
            Some(IntegrationReasonCode::InvalidServiceMetadata)
        } else if s == "adapter-tool-missing"@ {
            Some(IntegrationReasonCode::AdapterToolMissing)
        } else if s == "native-command-failed"@ {
            Some(IntegrationReasonCode::NativeCommandFailed)
        } else {
            None
        }
    }

    /// The persisted token of this reason code.
    pub fn as_str(&self) -> (r: &'static str)
        ensures
            r@ == self.token(),
    {
        match self {
            IntegrationReasonCode::Success => "ok",
            IntegrationReasonCode::HostPathConflict => "host-path-conflict",
            IntegrationReasonCode::EscalationRequired => "escalation-required",
            IntegrationReasonCode::UnsupportedHost => "unsupported-host",
            IntegrationReasonCode::InvalidServiceMetadata => "invalid-service-metadata",
            IntegrationReasonCode::AdapterToolMissing => "adapter-tool-missing",
            IntegrationReasonCode::NativeCommandFailed => "native-command-failed",
        }
    }

    /// Reads a persisted token.
    pub fn parse(s: &str) -> (r: Option<Self>)
        ensures
            r == Self::from_token(s@),
    {
        let c = chars_of(s);
        Self::parse_chars(c.as_slice())
    }

    pub fn parse_chars(c: &[char]) -> (r: Option<Self>)
        ensures
            r == Self::from_token(c@),
    {
        if chars_eq_str(c, "ok") {
            Some(IntegrationReasonCode::Success)
        } else if chars_eq_str(c, "host-path-conflict") {
            Some(IntegrationReasonCode::HostPathConflict)
        } else if chars_eq_str(c, "escalation-required") {
            Some(IntegrationReasonCode::EscalationRequired)
        } else if chars_eq_str(c, "unsupported-host") {
            Some(IntegrationReasonCode::UnsupportedHost)
        } else if chars_eq_str(c, "invalid-service-metadata") {
            Some(IntegrationReasonCode::InvalidServiceMetadata)
        } else if chars_eq_str(c, "adapter-tool-missing") {
            Some(IntegrationReasonCode::AdapterToolMissing)
        } else if chars_eq_str(c, "native-command-failed") {
            Some(IntegrationReasonCode::NativeCommandFailed)
        } else {
            None
        }
    }

    pub proof fn lemma_token_round_trip(self)
        ensures
            Self::from_token(self.token()) == Some(self),
    {
        reveal_strlit("ok");
        reveal_strlit("host-path-conflict");
        reveal_strlit("escalation-required");
        reveal_strlit("unsupported-host");
        reveal_strlit("invalid-service-metadata");
        reveal_strlit("adapter-tool-missing");
        reveal_strlit("native-command-failed");
        assert("ok"@.len() == 2);
        assert("host-path-conflict"@.len() == 18);
        assert("escalation-required"@.len() == 19);
        assert("unsupported-host"@.len() == 16);
        assert("invalid-service-metadata"@.len() == 24);
        assert("adapter-tool-missing"@.len() == 20);
        assert("native-command-failed"@.len() == 21);
    }
}

impl InstallMode {
    pub open spec fn token(self) -> Seq<char> {
        match self {
            InstallMode::Managed => "managed"@,
            InstallMode::Native => "native"@,
        }
    }

    pub open spec fn from_token(s: Seq<char>) -> Option<Self> {
        if s == "managed"@ {
            Some(InstallMode::Managed)
        } else if s == "native"@ {
            Some(InstallMode::Native)
        } else {
            None
        }
    }

    /// A receipt's `install_mode` row: `native` selects native mode, any other
    /// token falls back to managed.
    pub open spec fn from_receipt_token(s: Seq<char>) -> Self {
        if s == "native"@ {
            InstallMode::Native
        } else {
            InstallMode::Managed
        }
    }

    /// The persisted token of this install mode.
    pub fn as_str(&self) -> (r: &'static str)
        ensures
            r@ == self.token(),
    {
        match self {
            InstallMode::Managed => "managed",
            InstallMode::Native => "native",
        }
    }

    /// Reads a persisted token strictly.
    pub fn parse(s: &str) -> (r: Option<Self>)
        ensures
            r == Self::from_token(s@),
    {
        let c = chars_of(s);
        if chars_eq_str(c.as_slice(), "managed") {
            Some(InstallMode::Managed)
        } else if chars_eq_str(c.as_slice(), "native") {
            Some(InstallMode::Native)
        } else {
            None
        }
    }

    /// Reads a receipt's `install_mode` value leniently.
    pub fn parse_receipt_token(s: &str) -> (r: Self)
        ensures
            r == Self::from_receipt_token(s@),
    {
        let c = chars_of(s);
        Self::parse_receipt_chars(c.as_slice())
    }

    pub fn parse_receipt_chars(c: &[char]) -> (r: Self)
        ensures
            r == Self::from_receipt_token(c@),
    {
        if chars_eq_str(c, "native") {
            InstallMode::Native
        } else {
            InstallMode::Managed
        }
    }

    pub proof fn lemma_token_round_trip(self)
        ensures
            Self::from_token(self.token()) == Some(self),
            Self::from_receipt_token(self.token()) == self,
    {
        reveal_strlit("managed");
        reveal_strlit("native");
        assert("managed"@.len() == 7);
        assert("native"@.len() == 6);
    }
}

impl InstallReason {
    pub open spec fn token(self) -> Seq<char> {
        match self {
            InstallReason::Root => "root"@,
            InstallReason::Dependency => "dependency"@,
        }
    }

    pub open spec fn from_token(s: Seq<char>) -> Option<Self> {
        if s == "root"@ {
            Some(InstallReason::Root)
        } else if s == "dependency"@ {
            Some(InstallReason::Dependency)
        } else {
            None
        }
    }

    /// The persisted token of this install reason.
    pub fn as_str(&self) -> (r: &'static str)
        ensures
            r@ == self.token(),
    {
        match self {
            InstallReason::Root => "root",
            InstallReason::Dependency => "dependency",
        }
    }

    /// Reads a persisted token.
    pub fn parse(s: &str) -> (r: Option<Self>)
        ensures
            r == Self::from_token(s@),
    {
        let c = chars_of(s);
        Self::parse_chars(c.as_slice())
    }

    pub fn parse_chars(c: &[char]) -> (r: Option<Self>)
        ensures
            r == Self::from_token(c@),
    {
        if chars_eq_str(c, "root") {
            Some(InstallReason::Root)
        } else if chars_eq_str(c, "dependency") {
            Some(InstallReason::Dependency)
        } else {
            None
        }
    }

    pub proof fn lemma_token_round_trip(self)
        ensures
            Self::from_token(self.token()) == Some(self),
    {
        reveal_strlit("root");
        reveal_strlit("dependency");
        assert("root"@.len() == 4);
        assert("dependency"@.len() == 10);
    }
}

impl TransactionStatus {
    pub open spec fn token(self) -> Seq<char> {
        match self {
            TransactionStatus::Planning => "planning"@,
            TransactionStatus::Applying => "applying"@,
            TransactionStatus::Completed => "completed"@,
            TransactionStatus::Committed => "committed"@,
            TransactionStatus::RollingBack => "rolling_back"@,
            TransactionStatus::RolledBack => "rolled_back"@,
            TransactionStatus::Failed => "failed"@,
        }
    }

    pub open spec fn from_token(s: Seq<char>) -> Option<Self> {
        if s == "planning"@ {
            Some(TransactionStatus::Planning)
        } else if s == "applying"@ {
            Some(TransactionStatus::Applying)
        } else if s == "completed"@ {
            Some(TransactionStatus::Completed)
        } else if s == "committed"@ {
            Some(TransactionStatus::Committed)
        } else if s == "rolling_back"@ {
            Some(TransactionStatus::RollingBack)
        } else if s == "rolled_back"@ {
            Some(TransactionStatus::RolledBack)
        } else if s == "failed"@ {
            Some(TransactionStatus::Failed)
        } else {
            None
        }
    }

    /// The persisted token of this status.
    pub fn as_str(&self) -> (r: &'static str)
        ensures
            r@ == self.token(),
    {
        match self {
            TransactionStatus::Planning => "planning",
            TransactionStatus::Applying => "applying",
            TransactionStatus::Completed => "completed",
            TransactionStatus::Committed => "committed",
            TransactionStatus::RollingBack => "rolling_back",
            TransactionStatus::RolledBack => "rolled_back",
            TransactionStatus::Failed => "failed",
        }
    }

    /// Reads a persisted token.
    pub fn parse(s: &str) -> (r: Option<Self>)
        ensures
            r == Self::from_token(s@),
    {
        let c = chars_of(s);
        let c = c.as_slice();
        if chars_eq_str(c, "planning") {
            Some(TransactionStatus::Planning)
        } else if chars_eq_str(c, "applying") {
            Some(TransactionStatus::Applying)
        } else if chars_eq_str(c, "completed") {
            Some(TransactionStatus::Completed)
        } else if chars_eq_str(c, "committed") {
            Some(TransactionStatus::Committed)
        } else if chars_eq_str(c, "rolling_back") {
            Some(TransactionStatus::RollingBack)
        } else if chars_eq_str(c, "rolled_back") {
            Some(TransactionStatus::RolledBack)
        } else if chars_eq_str(c, "failed") {
            Some(TransactionStatus::Failed)
        } else {
            None
        }
    }

    pub proof fn lemma_token_round_trip(self)
        ensures
            Self::from_token(self.token()) == Some(self),
    {
        reveal_strlit("planning");
        reveal_strlit("applying");
        reveal_strlit("completed");
        reveal_strlit("committed");
        reveal_strlit("rolling_back");
        reveal_strlit("rolled_back");
        reveal_strlit("failed");
        assert("planning"@.len() == 8);
        assert("applying"@.len() == 8);
        assert("completed"@.len() == 9);
        assert("committed"@.len() == 9);
        assert("rolling_back"@.len() == 12);
        assert("rolled_back"@.len() == 11);
        assert("failed"@.len() == 6);
        assert("planning"@[0] != "applying"@[0]);
        assert("completed"@[3] != "committed"@[3]);
    }
}

/// Shell a completion file or shell-init snippet targets.
#[derive(Clone, Copy, Debug, PartialEq, Eq, Structural)]
pub enum ArtifactCompletionShell {
    Bash,
    Zsh,
    Fish,
    Powershell,
}

impl ArtifactCompletionShell {
    pub open spec fn token(self) -> Seq<char> {
        match self {
            ArtifactCompletionShell::Bash => "bash"@,
            ArtifactCompletionShell::Zsh => "zsh"@,
            ArtifactCompletionShell::Fish => "fish"@,
            ArtifactCompletionShell::Powershell => "powershell"@,
        }
    }

    /// The shell's directory and token name.
    pub fn as_str(&self) -> (r: &'static str)
        ensures
            r@ == self.token(),
    {
        match self {
            ArtifactCompletionShell::Bash => "bash",
            ArtifactCompletionShell::Zsh => "zsh",
            ArtifactCompletionShell::Fish => "fish",
            ArtifactCompletionShell::Powershell => "powershell",
        }
    }
}

/// Packaging format of a downloaded artifact.
#[derive(Clone, Copy, Debug, PartialEq, Eq, Structural)]
pub enum ArchiveType {
    Zip,
    TarGz,
    TarZst,
    Bin,
    AppImage,
    Msi,
    Dmg,
    Exe,
    Pkg,
    Msix,
    Appx,
}

/// A package-declared integration as projected into the prefix.
#[derive(Clone, Debug, PartialEq, Eq)]
pub struct IntegrationProjection {
    pub kind: String,
    pub key: String,
    pub rel_path: String,
}

/// A planned activation: where a host exposure goes and what it points at.
#[derive(Clone, Debug, PartialEq, Eq)]
pub struct IntegrationActivationPlan {
    pub package_state_key: String,
    pub package: String,
    pub integration_key: String,
    pub kind: String,
    pub adapter: IntegrationAdapterKind,
    pub scope: IntegrationActivationScope,
    pub desired_state: IntegrationDesiredState,
    pub host_path: String,
    pub source_path: String,
}

pub struct PlanView {
    pub package_state_key: Seq<char>,
    pub package: Seq<char>,
    pub integration_key: Seq<char>,
    pub kind: Seq<char>,
    pub adapter: IntegrationAdapterKind,
    pub scope: IntegrationActivationScope,
    pub desired_state: IntegrationDesiredState,
    pub host_path: Seq<char>,
    pub source_path: Seq<char>,
}

impl View for IntegrationActivationPlan {
    type V = PlanView;

    open spec fn view(&self) -> PlanView {
        PlanView {
            package_state_key: self.package_state_key@,
            package: self.package@,
            integration_key: self.integration_key@,
            kind: self.kind@,
            adapter: self.adapter,
            scope: self.scope,
            desired_state: self.desired_state,
            host_path: self.host_path@,
            source_path: self.source_path@,
        }
    }
}

/// One persisted activation row of the integration activation state file.
#[derive(Clone, Debug, PartialEq, Eq)]
pub struct IntegrationActivationRecord {
    pub package_state_key: String,
    pub package: String,
    pub integration_key: String,
    pub kind: String,
    pub adapter: IntegrationAdapterKind,
    pub scope: IntegrationActivationScope,
    pub desired_state: IntegrationDesiredState,
    pub applied_state: IntegrationAppliedState,
    pub host_path: Option<String>,
    pub reason_code: IntegrationReasonCode,
}

pub struct RecordView {
    pub package_state_key: Seq<char>,
    pub package: Seq<char>,
    pub integration_key: Seq<char>,
    pub kind: Seq<char>,
    pub adapter: IntegrationAdapterKind,
    pub scope: IntegrationActivationScope,
    pub desired_state: IntegrationDesiredState,
    pub applied_state: IntegrationAppliedState,
    pub host_path: Option<Seq<char>>,
    pub reason_code: IntegrationReasonCode,
}

pub open spec fn opt_view(o: Option<String>) -> Option<Seq<char>> {
    match o {
        Some(s) => Some(s@),
        None => None,
    }
}

impl View for IntegrationActivationRecord {
    type V = RecordView;

    open spec fn view(&self) -> RecordView {
        RecordView {
            package_state_key: self.package_state_key@,
            package: self.package@,
            integration_key: self.integration_key@,
            kind: self.kind@,
            adapter: self.adapter,
            scope: self.scope,
            desired_state: self.desired_state,
            applied_state: self.applied_state,
            host_path: opt_view(self.host_path),
            reason_code: self.reason_code,
        }
    }
}

/// A prefix-owned GUI asset (launcher or handler) and its ownership key.
#[derive(Clone, Debug, PartialEq, Eq)]
pub struct GuiExposureAsset {
    pub key: String,
    pub rel_path: String,
}

/// A native GUI registration made outside the prefix.
#[derive(Clone, Debug, PartialEq, Eq)]
pub struct GuiNativeRegistrationRecord {
    pub key: String,
    pub kind: String,
    pub path: String,
}

/// A recorded native uninstall step.
#[derive(Clone, Debug, PartialEq, Eq)]
pub struct NativeUninstallAction {
    pub key: String,
    pub kind: String,
    pub path: String,
}

/// The native sidecar of a package: its recorded uninstall actions.
#[derive(Clone, Debug, PartialEq, Eq)]
pub struct NativeSidecarState {
    pub uninstall_actions: Vec<NativeUninstallAction>,
}

/// Three text fields of a key/kind/path row.
pub struct TripleView {
    pub key: Seq<char>,
    pub kind: Seq<char>,
    pub path: Seq<char>,
}

impl View for NativeUninstallAction {
    type V = TripleView;

    open spec fn view(&self) -> TripleView {
        TripleView { key: self.key@, kind: self.kind@, path: self.path@ }
    }
}

impl View for GuiNativeRegistrationRecord {
    type V = TripleView;

    open spec fn view(&self) -> TripleView {
        TripleView { key: self.key@, kind: self.kind@, path: self.path@ }
    }
}

impl NativeUninstallAction {
    /// The uninstall action recorded for a native GUI registration.
    pub fn from_record(record: GuiNativeRegistrationRecord) -> (r: Self)
        ensures
            r@ == record@,
    {
        NativeUninstallAction { key: record.key, kind: record.kind, path: record.path }
    }
}

impl GuiNativeRegistrationRecord {
    /// The native GUI registration an uninstall action stands for.
    pub fn from_action(action: NativeUninstallAction) -> (r: Self)
        ensures
            r@ == action@,
    {
        GuiNativeRegistrationRecord { key: action.key, kind: action.kind, path: action.path }
    }
}

/// An install receipt.
#[derive(Clone, Debug, PartialEq, Eq)]
pub struct InstallReceipt {
    pub name: String,
    pub version: String,
    pub dependencies: Vec<String>,
    pub target: Option<String>,
    pub artifact_url: Option<String>,
    pub artifact_sha256: Option<String>,
    pub cache_path: Option<String>,
    pub exposed_bins: Vec<String>,
    pub exposed_completions: Vec<String>,
    pub snapshot_id: Option<String>,
    pub install_mode: InstallMode,
    pub install_reason: InstallReason,
    pub install_status: String,
    pub installed_at_unix: u64,
}

pub struct ReceiptView {
    pub name: Seq<char>,
    pub version: Seq<char>,
    pub dependencies: Seq<Seq<char>>,
    pub target: Option<Seq<char>>,
    pub artifact_url: Option<Seq<char>>,
    pub artifact_sha256: Option<Seq<char>>,
    pub cache_path: Option<Seq<char>>,
    pub exposed_bins: Seq<Seq<char>>,
    pub exposed_completions: Seq<Seq<char>>,
    pub snapshot_id: Option<Seq<char>>,
    pub install_mode: InstallMode,
    pub install_reason: InstallReason,
    pub install_status: Seq<char>,
    pub installed_at_unix: u64,
}

pub open spec fn strings_view(v: Seq<String>) -> Seq<Seq<char>> {
    v.map_values(|s: String| s@)
}

impl View for InstallReceipt {
    type V = ReceiptView;

    open spec fn view(&self) -> ReceiptView {
        ReceiptView {
            name: self.name@,
            version: self.version@,
            dependencies: strings_view(self.dependencies@),
            target: opt_view(self.target),
            artifact_url: opt_view(self.artifact_url),
            artifact_sha256: opt_view(self.artifact_sha256),
            cache_path: opt_view(self.cache_path),
            exposed_bins: strings_view(self.exposed_bins@),
            exposed_completions: strings_view(self.exposed_completions@),
            snapshot_id: opt_view(self.snapshot_id),
            install_mode: self.install_mode,
            install_reason: self.install_reason,
            install_status: self.install_status@,
            installed_at_unix: self.installed_at_unix,
        }
    }
}

/// Copies an optional string.
pub fn clone_opt_string(o: &Option<String>) -> (r: Option<String>)
    ensures
        opt_view(r) == opt_view(*o),
{
    match o {
        Some(s) => Some(s.clone()),
        None => None,
    }
}

/// Copies a list of strings.
pub fn clone_strings(v: &Vec<String>) -> (r: Vec<String>)
    ensures
        strings_view(r@) == strings_view(v@),
{
    let mut r: Vec<String> = Vec::new();
    let n = v.len();
    let mut i: usize = 0;
    while i < n
        invariant
            n == v@.len(),
            i <= n,
            r@.len() == i,
            forall|k: int| 0 <= k < i ==> #[trigger] r@[k]@ == v@[k]@,
        decreases n - i,
    {
        let x = v[i].clone();
        r.push(x);
        i = i + 1;
    }
    assert(strings_view(r@) =~= strings_view(v@));
    r
}

} // verus!
