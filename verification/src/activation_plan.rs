//! Planning of host activations: where a Docker CLI plugin, a PATH plugin or
//! a user service is exposed on the host, validated against unsafe roots,
//! leaf names and source paths before anything touches the host.
use vstd::prelude::*;

use crate::assoc::{assoc_find, assoc_get, assoc_insert};
use crate::text::{
    any_ctrl, char_is_ascii_alpha, chars_eq_str, chars_of, ends_with_str, extend_chars, extend_str,
    is_ascii_alpha, is_ctrl, split_chars, split_on, string_of,
};
use crate::types::{
    HostPlatform, IntegrationActivationPlan, IntegrationActivationScope, IntegrationAdapterKind,
    IntegrationDesiredState, IntegrationProjection, IntegrationReasonCode, PlanView,
};

verus! {

/// What the planner knows of the host it plans for.
#[derive(Debug, Clone, PartialEq, Eq)]
pub struct HostActivationContext {
    pub platform: HostPlatform,
    pub env: Vec<(String, String)>,
    pub home: Option<String>,
    pub user_profile: Option<String>,
    pub symlink_supported: bool,
    pub windows_user_services_supported: bool,
    pub service_requires_admin: bool,
    pub prefix: String,
}

/// A package's declared service sources per platform.
#[derive(Debug, Clone, PartialEq, Eq)]
pub struct ServiceActivationMetadata {
    pub name: String,
    pub source: Option<String>,
    pub macos_launch_agent: Option<String>,
    pub windows_service: Option<String>,
}

/// Why planning refused.
#[derive(Debug, Clone, PartialEq, Eq)]
pub struct IntegrationPlanError {
    pub reason_code: IntegrationReasonCode,
}

pub open spec fn ov(o: Option<String>) -> Option<Seq<char>> {
    match o {
        Some(s) => Some(s@),
        None => None,
    }
}

/// The value of an environment variable in the host context.
pub open spec fn env_var(h: HostActivationContext, name: Seq<char>) -> Option<Seq<char>> {
    ov(assoc_get(h.env@, name))
}

impl HostActivationContext {
    /// A Linux host with prefix `/prefix`.
    pub fn linux() -> (r: Self)
        ensures
            r.platform == HostPlatform::Linux,
            r.prefix@ == "/prefix"@,
            r.env@.len() == 0,
            r.home is None,
            r.user_profile is None,
            r.symlink_supported,
            !r.windows_user_services_supported,
            !r.service_requires_admin,
    {
        Self::new(HostPlatform::Linux, "/prefix")
    }

    /// A macOS host with prefix `/prefix`.
    pub fn macos() -> (r: Self)
        ensures
            r.platform == HostPlatform::Macos,
            r.prefix@ == "/prefix"@,
            r.env@.len() == 0,
            r.home is None,
            r.user_profile is None,
            r.symlink_supported,
            !r.windows_user_services_supported,
            !r.service_requires_admin,
    {
        Self::new(HostPlatform::Macos, "/prefix")
    }

    /// A Windows host with prefix `C:\Crosspack`.
    pub fn windows() -> (r: Self)
        ensures
            r.platform == HostPlatform::Windows,
            r.prefix@ == "C:\\Crosspack"@,
            r.env@.len() == 0,
            r.home is None,
            r.user_profile is None,
            r.symlink_supported,
            !r.windows_user_services_supported,
            !r.service_requires_admin,
    {
        Self::new(HostPlatform::Windows, "C:\\Crosspack")
    }

    fn new(platform: HostPlatform, prefix: &str) -> (r: Self)
        ensures
            r.platform == platform,
            r.prefix@ == prefix@,
            r.env@.len() == 0,
            r.home is None,
            r.user_profile is None,
            r.symlink_supported,
            !r.windows_user_services_supported,
            !r.service_requires_admin,
    {
        HostActivationContext {
            platform,
            env: Vec::new(),
            home: None,
            user_profile: None,
            symlink_supported: true,
            windows_user_services_supported: false,
            service_requires_admin: false,
            prefix: String::from_str(prefix),
        }
    }

    /// Sets an environment variable.
    pub fn with_env(self, key: &str, value: &str) -> (r: Self)
        ensures
            forall|q: Seq<char>|
                #[trigger] env_var(r, q) == if q == key@ {
                    Some(value@)
                } else {
                    env_var(self, q)
                },
            r.platform == self.platform,
            r.home == self.home,
            r.user_profile == self.user_profile,
            r.symlink_supported == self.symlink_supported,
            r.windows_user_services_supported == self.windows_user_services_supported,
            r.service_requires_admin == self.service_requires_admin,
            r.prefix == self.prefix,
    {
        let mut s = self;
        let ghost before = s.env@;
        assoc_insert(&mut s.env, String::from_str(key), String::from_str(value));
        proof {
            assert forall|q: Seq<char>|
                #[trigger] env_var(s, q) == if q == key@ {
                    Some(value@)
                } else {
                    env_var(self, q)
                } by {}
        }
        s
    }

    pub fn with_home(self, home: &str) -> (r: Self)
        ensures
            r == (Self { home: r.home, ..self }),
            ov(r.home) == Some(home@),
    {
        let mut s = self;
        s.home = Some(String::from_str(home));
        s
    }

    pub fn with_user_profile(self, user_profile: &str) -> (r: Self)
        ensures
            r == (Self { user_profile: r.user_profile, ..self }),
            ov(r.user_profile) == Some(user_profile@),
    {
        let mut s = self;
        s.user_profile = Some(String::from_str(user_profile));
        s
    }

    pub fn with_symlink_support(self, supported: bool) -> (r: Self)
        ensures
            r == (Self { symlink_supported: supported, ..self }),
    {
        let mut s = self;
        s.symlink_supported = supported;
        s
    }

    pub fn with_prefix(self, prefix: &str) -> (r: Self)
        ensures
            r == (Self { prefix: r.prefix, ..self }),
            r.prefix@ == prefix@,
    {
        let mut s = self;
        s.prefix = String::from_str(prefix);
        s
    }

    pub fn with_windows_user_services_supported(self, supported: bool) -> (r: Self)
        ensures
            r == (Self { windows_user_services_supported: supported, ..self }),
    {
        let mut s = self;
        s.windows_user_services_supported = supported;
        s
    }

    pub fn with_service_requires_admin(self, requires_admin: bool) -> (r: Self)
        ensures
            r == (Self { service_requires_admin: requires_admin, ..self }),
    {
        let mut s = self;
        s.service_requires_admin = requires_admin;
        s
    }
}

impl ServiceActivationMetadata {
    /// Metadata of service `name` with no declared sources.
    pub fn new(name: &str) -> (r: Self)
        ensures
            r.name@ == name@,
            r.source is None,
            r.macos_launch_agent is None,
            r.windows_service is None,
    {
        ServiceActivationMetadata {
            name: String::from_str(name),
            source: None,
            macos_launch_agent: None,
            windows_service: None,
        }
    }

    pub fn with_source(self, source: &str) -> (r: Self)
        ensures
            r == (Self { source: r.source, ..self }),
            ov(r.source) == Some(source@),
    {
        let mut s = self;
        s.source = Some(String::from_str(source));
        s
    }

    pub fn with_macos_launch_agent(self, source: &str) -> (r: Self)
        ensures
            r == (Self { macos_launch_agent: r.macos_launch_agent, ..self }),
            ov(r.macos_launch_agent) == Some(source@),
    {
        let mut s = self;
        s.macos_launch_agent = Some(String::from_str(source));
        s
    }

    pub fn with_windows_service(self, source: &str) -> (r: Self)
        ensures
            r == (Self { windows_service: r.windows_service, ..self }),
            ov(r.windows_service) == Some(source@),
    {
        let mut s = self;
        s.windows_service = Some(String::from_str(source));
        s
    }
}

impl IntegrationPlanError {
    fn new(reason_code: IntegrationReasonCode) -> (r: Self)
        ensures
            r.reason_code == reason_code,
    {
        IntegrationPlanError { reason_code }
    }
}

// ---------------------------------------------------------------------------
// path rules

pub open spec fn is_sep(c: char) -> bool {
    c == '/' || c == '\\'
}

/// The path separator of a platform.
pub open spec fn sep_of(p: HostPlatform) -> char {
    match p {
        HostPlatform::Windows => '\\',
        _ => '/',
    }
}

pub open spec fn contains(s: Seq<char>, c: char) -> bool {
    s.contains(c)
}

pub open spec fn any_control(s: Seq<char>) -> bool {
    exists|k: int| 0 <= k < s.len() && is_ctrl(#[trigger] s[k])
}

/// A drive-letter spelling such as `C:`.
pub open spec fn looks_like_drive(s: Seq<char>) -> bool {
    s.len() >= 2 && is_ascii_alpha(s[0]) && s[1] == ':'
}

/// A UNC spelling (`\\server` or `//server`).
pub open spec fn is_unc(s: Seq<char>) -> bool {
    s.len() >= 2 && ((s[0] == '\\' && s[1] == '\\') || (s[0] == '/' && s[1] == '/'))
}

pub open spec fn is_absolute_for(p: HostPlatform, s: Seq<char>) -> bool {
    match p {
        HostPlatform::Windows => (s.len() >= 2 && s[0] == '\\' && s[1] == '\\') || (s.len() >= 3
            && is_ascii_alpha(s[0]) && s[1] == ':' && is_sep(s[2])),
        _ => s.len() > 0 && s[0] == '/',
    }
}

/// A usable host root: absolute for the platform and, on Windows, not UNC.
pub open spec fn host_root_ok(p: HostPlatform, s: Seq<char>) -> bool {
    is_absolute_for(p, s) && !(p == HostPlatform::Windows && is_unc(s))
}

/// A usable single path component: not empty, not `.` or `..`, no separator,
/// no control character, no drive letter.
pub open spec fn host_leaf_ok(s: Seq<char>) -> bool {
    &&& s.len() > 0
    &&& s != seq!['.']
    &&& s != seq!['.', '.']
    &&& !s.contains('/')
    &&& !s.contains('\\')
    &&& !any_control(s)
    &&& !looks_like_drive(s)
}

/// A usable relative source path: `/`-separated, every component non-empty
/// and neither `.` nor `..`, no backslash, control character or drive letter.
pub open spec fn relative_source_ok(s: Seq<char>) -> bool {
    &&& s.len() > 0
    &&& s != seq!['.']
    &&& !(s[0] == '/')
    &&& !(s[0] == '\\')
    &&& !s.contains('\\')
    &&& forall|k: int|
        0 <= k < split_on(s, '/').len() ==> {
            let part = #[trigger] split_on(s, '/')[k];
            part.len() > 0 && part != seq!['.'] && part != seq!['.', '.']
        }
    &&& !any_control(s)
    &&& !looks_like_drive(s)
}

pub open spec fn trim_end_seps(s: Seq<char>) -> Seq<char>
    decreases s.len(),
{
    if s.len() > 0 && is_sep(s.last()) {
        trim_end_seps(s.drop_last())
    } else {
        s
    }
}

pub open spec fn trim_start_seps(s: Seq<char>) -> Seq<char>
    decreases s.len(),
{
    if s.len() > 0 && is_sep(s[0]) {
        trim_start_seps(s.drop_first())
    } else {
        s
    }
}

/// `str::trim_matches(['/', '\\'])`.
pub open spec fn trim_seps(s: Seq<char>) -> Seq<char> {
    trim_end_seps(trim_start_seps(s))
}

/// On Windows every `/` of a base path is spelled `\`.
pub open spec fn normalize_base(p: HostPlatform, s: Seq<char>) -> Seq<char> {
    match p {
        HostPlatform::Windows => Seq::new(s.len(), |i: int| if s[i] == '/' { '\\' } else { s[i] }),
        _ => s,
    }
}

/// A base path with native components appended, each separated by the
/// platform separator and stripped of surrounding separators.
pub open spec fn join_native(p: HostPlatform, base: Seq<char>, parts: Seq<Seq<char>>) -> Seq<char>
    decreases parts.len(),
{
    if parts.len() == 0 {
        trim_end_seps(normalize_base(p, base))
    } else {
        join_native(p, base, parts.drop_last()) + seq![sep_of(p)] + trim_seps(parts.last())
    }
}

/// The last component of a path (`rsplit(['/', '\\']).next()`).
pub open spec fn file_name_of(s: Seq<char>) -> Seq<char>
    decreases s.len(),
{
    if s.len() == 0 {
        s
    } else if is_sep(s.last()) {
        Seq::<char>::empty()
    } else {
        file_name_of(s.drop_last()).push(s.last())
    }
}

/// The non-empty `/`-separated components of a relative path.
pub open spec fn nonempty_parts(parts: Seq<Seq<char>>) -> Seq<Seq<char>> {
    parts.filter(|x: Seq<char>| x.len() > 0)
}

/// Pieces joined with a separator.
pub open spec fn join_with(parts: Seq<Seq<char>>, sep: char) -> Seq<char>
    decreases parts.len(),
{
    if parts.len() == 0 {
        Seq::<char>::empty()
    } else if parts.len() == 1 {
        parts[0]
    } else {
        join_with(parts.drop_last(), sep) + seq![sep] + parts.last()
    }
}

/// Where a projection's payload lives in the prefix, in native spelling.
pub open spec fn integration_source(p: HostPlatform, prefix: Seq<char>, rel: Seq<char>) -> Seq<char> {
    join_native(p, prefix, seq!["share"@, "integrations"@]) + seq![sep_of(p)] + join_with(
        nonempty_parts(split_on(rel, '/')),
        sep_of(p),
    )
}

/// The host command name a PATH plugin key `path_plugin:<host>:<name>` asks
/// for: `<host>-<name>`.
pub open spec fn expected_host_name(key: Seq<char>) -> Result<Seq<char>, IntegrationReasonCode> {
    let parts = split_on(key, ':');
    if parts.len() != 3 || parts[0] != "path_plugin"@ {
        Err(IntegrationReasonCode::InvalidServiceMetadata)
    } else if !host_leaf_ok(parts[1]) || !host_leaf_ok(parts[2]) {
        Err(IntegrationReasonCode::InvalidServiceMetadata)
    } else {
        Ok(parts[1] + "-"@ + parts[2])
    }
}

pub open spec fn path_plugin_file_name(p: HostPlatform, host_name: Seq<char>) -> Seq<char> {
    match p {
        HostPlatform::Windows => host_name + ".cmd"@,
        _ => host_name,
    }
}

// ---------------------------------------------------------------------------
// plans

pub open spec fn plan_view_of(
    r: Result<IntegrationActivationPlan, IntegrationPlanError>,
) -> Result<PlanView, IntegrationReasonCode> {
    match r {
        Ok(p) => Ok(p@),
        Err(e) => Err(e.reason_code),
    }
}

/// The directory holding Docker's configuration: `DOCKER_CONFIG` when set,
/// otherwise `.docker` under the home (Linux, macOS) or user profile
/// (Windows).
pub open spec fn docker_config_dir(h: HostActivationContext) -> Result<Seq<char>, IntegrationReasonCode> {
    match env_var(h, "DOCKER_CONFIG"@) {
        Some(c) => if host_root_ok(h.platform, c) {
            Ok(c)
        } else {
            Err(IntegrationReasonCode::UnsupportedHost)
        },
        None => {
            let base = match h.platform {
                HostPlatform::Windows => ov(h.user_profile),
                _ => ov(h.home),
            };
            match base {
                None => Err(IntegrationReasonCode::UnsupportedHost),
                Some(b) => if host_root_ok(h.platform, b) {
                    Ok(join_native(h.platform, b, seq![".docker"@]))
                } else {
                    Err(IntegrationReasonCode::UnsupportedHost)
                },
            }
        },
    }
}

pub open spec fn docker_plan_spec(
    h: HostActivationContext,
    package: Seq<char>,
    proj: IntegrationProjection,
) -> Result<PlanView, IntegrationReasonCode> {
    if !host_root_ok(h.platform, h.prefix@) {
        Err(IntegrationReasonCode::UnsupportedHost)
    } else if !host_leaf_ok(package) {
        Err(IntegrationReasonCode::InvalidServiceMetadata)
    } else if !relative_source_ok(proj.rel_path@) {
        Err(IntegrationReasonCode::InvalidServiceMetadata)
    } else {
        match docker_config_dir(h) {
            Err(e) => Err(e),
            Ok(cfg) => Ok(
                PlanView {
                    package_state_key: package,
                    package: package,
                    integration_key: proj.key@,
                    kind: proj.kind@,
                    adapter: IntegrationAdapterKind::DockerCli,
                    scope: IntegrationActivationScope::Unscoped,
                    desired_state: IntegrationDesiredState::Enabled,
                    host_path: join_native(
                        h.platform,
                        cfg,
                        seq!["cli-plugins"@, file_name_of(proj.rel_path@)],
                    ),
                    source_path: integration_source(h.platform, h.prefix@, proj.rel_path@),
                },
            ),
        }
    }
}

pub open spec fn path_plugin_plan_spec(
    h: HostActivationContext,
    package: Seq<char>,
    host_name: Seq<char>,
    proj: IntegrationProjection,
) -> Result<PlanView, IntegrationReasonCode> {
    if !host_root_ok(h.platform, h.prefix@) {
        Err(IntegrationReasonCode::UnsupportedHost)
    } else if !host_leaf_ok(package) || !host_leaf_ok(host_name) {
        Err(IntegrationReasonCode::InvalidServiceMetadata)
    } else {
        match expected_host_name(proj.key@) {
            Err(e) => Err(e),
            Ok(expected) => if host_name != expected || !relative_source_ok(proj.rel_path@) {
                Err(IntegrationReasonCode::InvalidServiceMetadata)
            } else {
                Ok(
                    PlanView {
                        package_state_key: package,
                        package: package,
                        integration_key: proj.key@,
                        kind: proj.kind@,
                        adapter: IntegrationAdapterKind::PathPluginBin,
                        scope: IntegrationActivationScope::Unscoped,
                        desired_state: IntegrationDesiredState::Enabled,
                        host_path: join_native(
                            h.platform,
                            h.prefix@,
                            seq!["bin"@, path_plugin_file_name(h.platform, host_name)],
                        ),
                        source_path: integration_source(h.platform, h.prefix@, proj.rel_path@),
                    },
                )
            },
        }
    }
}

pub open spec fn service_plan_view(
    h: HostActivationContext,
    package: Seq<char>,
    name: Seq<char>,
    adapter: IntegrationAdapterKind,
    host_path: Seq<char>,
    source: Seq<char>,
) -> PlanView {
    PlanView {
        package_state_key: package,
        package: package,
        integration_key: "service:"@ + name,
        kind: "service"@,
        adapter: adapter,
        scope: IntegrationActivationScope::User,
        desired_state: IntegrationDesiredState::Running,
        host_path: host_path,
        source_path: integration_source(h.platform, h.prefix@, source),
    }
}

pub open spec fn service_plan_spec(
    h: HostActivationContext,
    package: Seq<char>,
    m: ServiceActivationMetadata,
) -> Result<PlanView, IntegrationReasonCode> {
    if !host_root_ok(h.platform, h.prefix@) {
        Err(IntegrationReasonCode::UnsupportedHost)
    } else if !host_leaf_ok(package) || !host_leaf_ok(m.name@) {
        Err(IntegrationReasonCode::InvalidServiceMetadata)
    } else {
        match h.platform {
            HostPlatform::Linux => match ov(m.source) {
                Some(src) => if crate::text::has_suffix(src, ".service"@) && relative_source_ok(
                    src,
                ) {
                    Ok(
                        service_plan_view(
                            h,
                            package,
                            m.name@,
                            IntegrationAdapterKind::SystemdUser,
                            "systemd-user:"@ + file_name_of(src),
                            src,
                        ),
                    )
                } else {
                    Err(IntegrationReasonCode::InvalidServiceMetadata)
                },
                None => Err(IntegrationReasonCode::InvalidServiceMetadata),
            },
            HostPlatform::Macos => match ov(m.macos_launch_agent) {
                Some(src) => if !(crate::text::has_suffix(src, ".plist"@) && relative_source_ok(
                    src,
                )) {
                    Err(IntegrationReasonCode::InvalidServiceMetadata)
                } else {
                    match ov(h.home) {
                        None => Err(IntegrationReasonCode::UnsupportedHost),
                        Some(home) => if !host_root_ok(h.platform, home) {
                            Err(IntegrationReasonCode::UnsupportedHost)
                        } else {
                            Ok(
                                service_plan_view(
                                    h,
                                    package,
                                    m.name@,
                                    IntegrationAdapterKind::LaunchdUser,
                                    join_native(
                                        h.platform,
                                        home,
                                        seq!["Library"@, "LaunchAgents"@, file_name_of(src)],
                                    ),
                                    src,
                                ),
                            )
                        },
                    }
                },
                None => Err(IntegrationReasonCode::InvalidServiceMetadata),
            },
            HostPlatform::Windows => match ov(m.windows_service) {
                Some(src) => if !relative_source_ok(src) {
                    Err(IntegrationReasonCode::InvalidServiceMetadata)
                } else if !h.windows_user_services_supported || h.service_requires_admin {
                    Err(IntegrationReasonCode::EscalationRequired)
                } else {
                    Ok(
                        service_plan_view(
                            h,
                            package,
                            m.name@,
                            IntegrationAdapterKind::WindowsServiceUser,
                            "windows-service-user:"@ + m.name@,
                            src,
                        ),
                    )
                },
                None => Err(IntegrationReasonCode::InvalidServiceMetadata),
            },
        }
    }
}

// ---------------------------------------------------------------------------
// executable rules

fn is_windows_unc_path(s: &[char]) -> (r: bool)
    ensures
        r == is_unc(s@),
{
    s.len() >= 2 && ((s[0] == '\\' && s[1] == '\\') || (s[0] == '/' && s[1] == '/'))
}

fn looks_like_windows_drive(s: &[char]) -> (r: bool)
    ensures
        r == looks_like_drive(s@),
{
    s.len() >= 2 && char_is_ascii_alpha(s[0]) && s[1] == ':'
}

fn is_absolute_for_platform(platform: HostPlatform, s: &[char]) -> (r: bool)
    ensures
        r == is_absolute_for(platform, s@),
{
    match platform {
        HostPlatform::Windows => (s.len() >= 2 && s[0] == '\\' && s[1] == '\\') || (s.len() >= 3
            && char_is_ascii_alpha(s[0]) && s[1] == ':' && (s[2] == '\\' || s[2] == '/')),
        _ => s.len() > 0 && s[0] == '/',
    }
}

fn validate_host_root(platform: HostPlatform, s: &[char]) -> (r: Result<(), IntegrationPlanError>)
    ensures
        r is Ok <==> host_root_ok(platform, s@),
        r matches Err(e) ==> e.reason_code == IntegrationReasonCode::UnsupportedHost,
{
    if !is_absolute_for_platform(platform, s) || (platform == HostPlatform::Windows
        && is_windows_unc_path(s)) {
        return Err(IntegrationPlanError::new(IntegrationReasonCode::UnsupportedHost));
    }
    Ok(())
}

fn is_dot(s: &[char]) -> (r: bool)
    ensures
        r == (s@ == seq!['.']),
{
    let r = s.len() == 1 && s[0] == '.';
    proof {
        if s@.len() == 1 && s@[0] == '.' {
            assert(s@ =~= seq!['.']);
        }
    }
    r
}

fn is_dotdot(s: &[char]) -> (r: bool)
    ensures
        r == (s@ == seq!['.', '.']),
{
    let r = s.len() == 2 && s[0] == '.' && s[1] == '.';
    proof {
        if s@.len() == 2 && s@[0] == '.' && s@[1] == '.' {
            assert(s@ =~= seq!['.', '.']);
        }
    }
    r
}

fn validate_host_leaf(s: &[char]) -> (r: Result<(), IntegrationPlanError>)
    ensures
        r is Ok <==> host_leaf_ok(s@),
        r matches Err(e) ==> e.reason_code == IntegrationReasonCode::InvalidServiceMetadata,
{
    if s.len() == 0 || is_dot(s) || is_dotdot(s) || crate::text::contains_char(s, '/')
        || crate::text::contains_char(s, '\\') || any_ctrl(s) || looks_like_windows_drive(s) {
        return Err(IntegrationPlanError::new(IntegrationReasonCode::InvalidServiceMetadata));
    }
    Ok(())
}

fn validate_relative_source_path(s: &[char]) -> (r: Result<(), IntegrationPlanError>)
    ensures
        r is Ok <==> relative_source_ok(s@),
        r matches Err(e) ==> e.reason_code == IntegrationReasonCode::InvalidServiceMetadata,
{
    let bad = Err(IntegrationPlanError::new(IntegrationReasonCode::InvalidServiceMetadata));
    if s.len() == 0 || is_dot(s) || s[0] == '/' || s[0] == '\\' || crate::text::contains_char(
        s,
        '\\',
    ) {
        return bad;
    }
    let parts = split_chars(s, '/');
    let n = parts.len();
    let mut i: usize = 0;
    while i < n
        invariant
            n == parts@.len(),
            n == split_on(s@, '/').len(),
            forall|k: int| 0 <= k < n ==> #[trigger] parts@[k]@ == split_on(s@, '/')[k],
            i <= n,
            forall|k: int|
                0 <= k < i ==> {
                    let part = #[trigger] split_on(s@, '/')[k];
                    part.len() > 0 && part != seq!['.'] && part != seq!['.', '.']
                },
        decreases n - i,
    {
        let p = parts[i].as_slice();
        if p.len() == 0 || is_dot(p) || is_dotdot(p) {
            proof {
                let part = split_on(s@, '/')[i as int];
                assert(!(part.len() > 0 && part != seq!['.'] && part != seq!['.', '.']));
            }
            return Err(IntegrationPlanError::new(IntegrationReasonCode::InvalidServiceMetadata));
        }
        i = i + 1;
    }
    if any_ctrl(s) || looks_like_windows_drive(s) {
        return bad;
    }
    Ok(())
}

fn separator(platform: HostPlatform) -> (r: char)
    ensures
        r == sep_of(platform),
{
    match platform {
        HostPlatform::Windows => '\\',
        _ => '/',
    }
}

fn normalize_base_path(platform: HostPlatform, base: &[char]) -> (r: Vec<char>)
    ensures
        r@ == normalize_base(platform, base@),
{
    let n = base.len();
    let mut r: Vec<char> = Vec::new();
    let mut i: usize = 0;
    while i < n
        invariant
            n == base@.len(),
            i <= n,
            r@.len() == i,
            forall|k: int|
                0 <= k < i ==> #[trigger] r@[k] == normalize_base(platform, base@)[k],
        decreases n - i,
    {
        let c = base[i];
        if platform == HostPlatform::Windows && c == '/' {
            r.push('\\');
        } else {
            r.push(c);
        }
        i = i + 1;
    }
    assert(r@ =~= normalize_base(platform, base@));
    r
}

fn trim_end_separators(s: &[char]) -> (r: Vec<char>)
    ensures
        r@ == trim_end_seps(s@),
{
    let mut b: usize = s.len();
    assert(s@.subrange(0, b as int) =~= s@);
    while b > 0 && (s[b - 1] == '/' || s[b - 1] == '\\')
        invariant
            b <= s@.len(),
            trim_end_seps(s@) == trim_end_seps(s@.subrange(0, b as int)),
        decreases b,
    {
        assert(s@.subrange(0, b as int).drop_last() =~= s@.subrange(0, b - 1));
        b = b - 1;
    }
    crate::text::slice_chars(s, 0, b)
}

fn trim_separators(s: &[char]) -> (r: Vec<char>)
    ensures
        r@ == trim_seps(s@),
{
    let n = s.len();
    let mut a: usize = 0;
    assert(s@.subrange(0, n as int) =~= s@);
    while a < n && (s[a] == '/' || s[a] == '\\')
        invariant
            n == s@.len(),
            a <= n,
            trim_start_seps(s@) == trim_start_seps(s@.subrange(a as int, n as int)),
        decreases n - a,
    {
        assert(s@.subrange(a as int, n as int).drop_first() =~= s@.subrange(a + 1, n as int));
        a = a + 1;
    }
    let rest = crate::text::slice_chars(s, a, n);
    proof {
        if a < n {
            assert(!is_sep(s@.subrange(a as int, n as int)[0]));
        }
    }
    trim_end_separators(rest.as_slice())
}

/// Appends `sep` and `part` (separators trimmed) to a native path.
fn push_native_part(joined: &mut Vec<char>, sep: char, part: &[char])
    ensures
        final(joined)@ == old(joined)@ + seq![sep] + trim_seps(part@),
{
    joined.push(sep);
    let t = trim_separators(part);
    extend_chars(joined, t.as_slice());
}

fn join_native_base(platform: HostPlatform, base: &[char]) -> (r: Vec<char>)
    ensures
        r@ == join_native(platform, base@, Seq::<Seq<char>>::empty()),
{
    let norm = normalize_base_path(platform, base);
    trim_end_separators(norm.as_slice())
}

fn join_native1(platform: HostPlatform, base: &[char], p0: &[char]) -> (r: Vec<char>)
    ensures
        r@ == join_native(platform, base@, seq![p0@]),
{
    let mut r = join_native_base(platform, base);
    push_native_part(&mut r, separator(platform), p0);
    proof {
        assert(seq![p0@].drop_last() =~= Seq::<Seq<char>>::empty());
    }
    r
}

fn join_native2(platform: HostPlatform, base: &[char], p0: &[char], p1: &[char]) -> (r: Vec<char>)
    ensures
        r@ == join_native(platform, base@, seq![p0@, p1@]),
{
    let mut r = join_native1(platform, base, p0);
    push_native_part(&mut r, separator(platform), p1);
    proof {
        assert(seq![p0@, p1@].drop_last() =~= seq![p0@]);
    }
    r
}

fn join_native3(platform: HostPlatform, base: &[char], p0: &[char], p1: &[char], p2: &[char]) -> (r:
    Vec<char>)
    ensures
        r@ == join_native(platform, base@, seq![p0@, p1@, p2@]),
{
    let mut r = join_native2(platform, base, p0, p1);
    push_native_part(&mut r, separator(platform), p2);
    proof {
        assert(seq![p0@, p1@, p2@].drop_last() =~= seq![p0@, p1@]);
    }
    r
}

pub(crate) fn file_name(s: &[char]) -> (r: Vec<char>)
    ensures
        r@ == file_name_of(s@),
{
    let n = s.len();
    let mut a: usize = n;
    while a > 0 && !(s[a - 1] == '/' || s[a - 1] == '\\')
        invariant
            a <= n,
            n == s@.len(),
            forall|k: int| a <= k < n ==> !is_sep(#[trigger] s@[k]),
        decreases a,
    {
        a = a - 1;
    }
    proof {
        lemma_file_name_suffix(s@, a as int);
    }
    crate::text::slice_chars(s, a, n)
}

proof fn lemma_file_name_suffix(s: Seq<char>, a: int)
    requires
        0 <= a <= s.len(),
        forall|k: int| a <= k < s.len() ==> !is_sep(#[trigger] s[k]),
        a == 0 || is_sep(s[a - 1]),
    ensures
        file_name_of(s) == s.subrange(a, s.len() as int),
    decreases s.len(),
{
    if s.len() == 0 {
    } else if a == s.len() {
        assert(s.subrange(a, s.len() as int) =~= Seq::<char>::empty());
    } else {
        lemma_file_name_suffix(s.drop_last(), a);
        assert(s.subrange(a, s.len() as int) =~= s.drop_last().subrange(
            a,
            s.len() - 1,
        ).push(s.last()));
    }
}

fn integration_source_path(platform: HostPlatform, prefix: &[char], rel: &[char]) -> (r: Vec<char>)
    ensures
        r@ == integration_source(platform, prefix@, rel@),
{
    let share = chars_of("share");
    let integrations = chars_of("integrations");
    let mut r = join_native2(platform, prefix, share.as_slice(), integrations.as_slice());
    let sep = separator(platform);
    r.push(sep);
    let parts = split_chars(rel, '/');
    let ghost all = split_on(rel@, '/');
    let n = parts.len();
    let mut joined: Vec<char> = Vec::new();
    let mut first = true;
    let mut i: usize = 0;
    while i < n
        invariant
            n == parts@.len(),
            n == all.len(),
            forall|k: int| 0 <= k < n ==> #[trigger] parts@[k]@ == all[k],
            i <= n,
            first == (nonempty_parts(all.take(i as int)).len() == 0),
            joined@ == join_with(nonempty_parts(all.take(i as int)), sep),
        decreases n - i,
    {
        let p = parts[i].as_slice();
        proof {
            assert(all.take(i + 1) =~= all.take(i as int).push(all[i as int]));
            reveal(Seq::filter);
            assert(all.take(i + 1).drop_last() =~= all.take(i as int));
        }
        if p.len() > 0 {
            proof {
                lemma_join_with_push(nonempty_parts(all.take(i as int)), p@, sep);
            }
            if !first {
                joined.push(sep);
            }
            extend_chars(&mut joined, p);
            first = false;
        }
        i = i + 1;
    }
    assert(all.take(n as int) =~= all);
    extend_chars(&mut r, joined.as_slice());
    r
}

pub(crate) proof fn lemma_join_with_push(parts: Seq<Seq<char>>, p: Seq<char>, sep: char)
    ensures
        join_with(parts.push(p), sep) == if parts.len() == 0 {
            p
        } else {
            join_with(parts, sep) + seq![sep] + p
        },
{
    assert(parts.push(p).drop_last() =~= parts);
}

fn expected_path_plugin_host_name(key: &[char]) -> (r: Result<Vec<char>, IntegrationPlanError>)
    ensures
        match r {
            Ok(v) => expected_host_name(key@) == Ok::<Seq<char>, IntegrationReasonCode>(v@),
            Err(e) => expected_host_name(key@) == Err::<Seq<char>, IntegrationReasonCode>(
                e.reason_code,
            ),
        },
{
    let parts = split_chars(key, ':');
    if parts.len() != 3 || !chars_eq_str(parts[0].as_slice(), "path_plugin") {
        return Err(IntegrationPlanError::new(IntegrationReasonCode::InvalidServiceMetadata));
    }
    validate_host_leaf(parts[1].as_slice())?;
    validate_host_leaf(parts[2].as_slice())?;
    let mut v: Vec<char> = Vec::new();
    extend_chars(&mut v, parts[1].as_slice());
    v.push('-');
    extend_chars(&mut v, parts[2].as_slice());
    proof {
        reveal_strlit("-");
        assert(v@ =~= parts@[1]@ + "-"@ + parts@[2]@);
    }
    Ok(v)
}

/// The Docker configuration directory (see `docker_config_dir`).
fn docker_config(host: &HostActivationContext) -> (r: Result<Vec<char>, IntegrationPlanError>)
    ensures
        match r {
            Ok(v) => docker_config_dir(*host) == Ok::<Seq<char>, IntegrationReasonCode>(v@),
            Err(e) => docker_config_dir(*host) == Err::<Seq<char>, IntegrationReasonCode>(
                e.reason_code,
            ),
        },
{
    match assoc_find(&host.env, "DOCKER_CONFIG") {
        Some(i) => {
            let c = chars_of(host.env[i].1.as_str());
            validate_host_root(host.platform, c.as_slice())?;
            Ok(c)
        },
        None => {
            let base = match host.platform {
                HostPlatform::Windows => &host.user_profile,
                _ => &host.home,
            };
            match base {
                None => Err(IntegrationPlanError::new(IntegrationReasonCode::UnsupportedHost)),
                Some(b) => {
                    let bc = chars_of(b.as_str());
                    validate_host_root(host.platform, bc.as_slice())?;
                    let dot = chars_of(".docker");
                    Ok(join_native1(host.platform, bc.as_slice(), dot.as_slice()))
                },
            }
        },
    }
}

/// Plans a Docker CLI plugin: a symlink named after the projection's file in
/// `<docker config>/cli-plugins`, pointing into the prefix.
pub fn plan_docker_cli_plugin_activation(
    host: &HostActivationContext,
    package: &str,
    projection: &IntegrationProjection,
) -> (r: Result<IntegrationActivationPlan, IntegrationPlanError>)
    ensures
        plan_view_of(r) == docker_plan_spec(*host, package@, *projection),
{
    let prefix = chars_of(host.prefix.as_str());
    validate_host_root(host.platform, prefix.as_slice())?;
    let pkg = chars_of(package);
    validate_host_leaf(pkg.as_slice())?;
    let rel = chars_of(projection.rel_path.as_str());
    validate_relative_source_path(rel.as_slice())?;
    let cfg = docker_config(host)?;
    let plugins = chars_of("cli-plugins");
    let leaf = file_name(rel.as_slice());
    let host_path = join_native2(host.platform, cfg.as_slice(), plugins.as_slice(), leaf.as_slice());
    let source = integration_source_path(host.platform, prefix.as_slice(), rel.as_slice());
    Ok(
        IntegrationActivationPlan {
            package_state_key: String::from_str(package),
            package: String::from_str(package),
            integration_key: projection.key.clone(),
            kind: projection.kind.clone(),
            adapter: IntegrationAdapterKind::DockerCli,
            scope: IntegrationActivationScope::Unscoped,
            desired_state: IntegrationDesiredState::Enabled,
            host_path: string_of(host_path.as_slice()),
            source_path: string_of(source.as_slice()),
        },
    )
}

/// Plans a PATH plugin: a prefix-owned command `<host>-<name>` (a `.cmd` shim
/// on Windows) in the prefix `bin` directory.
pub fn plan_path_plugin_activation(
    host: &HostActivationContext,
    package: &str,
    host_name: &str,
    projection: &IntegrationProjection,
) -> (r: Result<IntegrationActivationPlan, IntegrationPlanError>)
    ensures
        plan_view_of(r) == path_plugin_plan_spec(*host, package@, host_name@, *projection),
{
    let prefix = chars_of(host.prefix.as_str());
    validate_host_root(host.platform, prefix.as_slice())?;
    let pkg = chars_of(package);
    validate_host_leaf(pkg.as_slice())?;
    let hn = chars_of(host_name);
    validate_host_leaf(hn.as_slice())?;
    let key = chars_of(projection.key.as_str());
    let expected = expected_path_plugin_host_name(key.as_slice())?;
    if !crate::text::chars_eq(hn.as_slice(), expected.as_slice()) {
        return Err(IntegrationPlanError::new(IntegrationReasonCode::InvalidServiceMetadata));
    }
    let rel = chars_of(projection.rel_path.as_str());
    validate_relative_source_path(rel.as_slice())?;
    let mut leaf = hn;
    if host.platform == HostPlatform::Windows {
        extend_str(&mut leaf, ".cmd");
    }
    let bin = chars_of("bin");
    let host_path = join_native2(host.platform, prefix.as_slice(), bin.as_slice(), leaf.as_slice());
    let source = integration_source_path(host.platform, prefix.as_slice(), rel.as_slice());
    Ok(
        IntegrationActivationPlan {
            package_state_key: String::from_str(package),
            package: String::from_str(package),
            integration_key: projection.key.clone(),
            kind: projection.kind.clone(),
            adapter: IntegrationAdapterKind::PathPluginBin,
            scope: IntegrationActivationScope::Unscoped,
            desired_state: IntegrationDesiredState::Enabled,
            host_path: string_of(host_path.as_slice()),
            source_path: string_of(source.as_slice()),
        },
    )
}

fn service_plan(
    host: &HostActivationContext,
    prefix: &[char],
    package: &str,
    name: &String,
    adapter: IntegrationAdapterKind,
    host_path: Vec<char>,
    source: &[char],
) -> (r: IntegrationActivationPlan)
    requires
        prefix@ == host.prefix@,
    ensures
        r@ == service_plan_view(*host, package@, name@, adapter, host_path@, source@),
{
    let mut key = chars_of("service:");
    extend_str(&mut key, name.as_str());
    let src = integration_source_path(host.platform, prefix, source);
    IntegrationActivationPlan {
        package_state_key: String::from_str(package),
        package: String::from_str(package),
        integration_key: string_of(key.as_slice()),
        kind: String::from_str("service"),
        adapter,
        scope: IntegrationActivationScope::User,
        desired_state: IntegrationDesiredState::Running,
        host_path: string_of(host_path.as_slice()),
        source_path: string_of(src.as_slice()),
    }
}

/// Plans a user service for the host platform: a systemd user unit on Linux,
/// a LaunchAgent on macOS, a user service on Windows (which escalates when
/// user services are unavailable or administrator rights are required).
pub fn plan_service_activation(
    host: &HostActivationContext,
    package: &str,
    metadata: &ServiceActivationMetadata,
) -> (r: Result<IntegrationActivationPlan, IntegrationPlanError>)
    ensures
        plan_view_of(r) == service_plan_spec(*host, package@, *metadata),
{
    let prefix = chars_of(host.prefix.as_str());
    validate_host_root(host.platform, prefix.as_slice())?;
    let pkg = chars_of(package);
    validate_host_leaf(pkg.as_slice())?;
    let nm = chars_of(metadata.name.as_str());
    validate_host_leaf(nm.as_slice())?;
    let invalid = IntegrationPlanError::new(IntegrationReasonCode::InvalidServiceMetadata);
    match host.platform {
        HostPlatform::Linux => {
            let src = match &metadata.source {
                Some(s) => chars_of(s.as_str()),
                None => return Err(invalid),
            };
            if !ends_with_str(src.as_slice(), ".service") {
                return Err(invalid);
            }
            validate_relative_source_path(src.as_slice())?;
            let mut hp = chars_of("systemd-user:");
            let leaf = file_name(src.as_slice());
            extend_chars(&mut hp, leaf.as_slice());
            Ok(
                service_plan(
                    host,
                    prefix.as_slice(),
                    package,
                    &metadata.name,
                    IntegrationAdapterKind::SystemdUser,
                    hp,
                    src.as_slice(),
                ),
            )
        },
        HostPlatform::Macos => {
            let src = match &metadata.macos_launch_agent {
                Some(s) => chars_of(s.as_str()),
                None => return Err(invalid),
            };
            if !ends_with_str(src.as_slice(), ".plist") {
                return Err(invalid);
            }
            validate_relative_source_path(src.as_slice())?;
            let home = match &host.home {
                Some(h) => chars_of(h.as_str()),
                None => return Err(IntegrationPlanError::new(IntegrationReasonCode::UnsupportedHost)),
            };
            validate_host_root(host.platform, home.as_slice())?;
            let lib = chars_of("Library");
            let agents = chars_of("LaunchAgents");
            let leaf = file_name(src.as_slice());
            let hp = join_native3(
                host.platform,
                home.as_slice(),
                lib.as_slice(),
                agents.as_slice(),
                leaf.as_slice(),
            );
            Ok(
                service_plan(
                    host,
                    prefix.as_slice(),
                    package,
                    &metadata.name,
                    IntegrationAdapterKind::LaunchdUser,
                    hp,
                    src.as_slice(),
                ),
            )
        },
        HostPlatform::Windows => {
            let src = match &metadata.windows_service {
                Some(s) => chars_of(s.as_str()),
                None => return Err(invalid),
            };
            validate_relative_source_path(src.as_slice())?;
            if !host.windows_user_services_supported || host.service_requires_admin {
                return Err(IntegrationPlanError::new(IntegrationReasonCode::EscalationRequired));
            }
            let mut hp = chars_of("windows-service-user:");
            extend_str(&mut hp, metadata.name.as_str());
            Ok(
                service_plan(
                    host,
                    prefix.as_slice(),
                    package,
                    &metadata.name,
                    IntegrationAdapterKind::WindowsServiceUser,
                    hp,
                    src.as_slice(),
                ),
            )
        },
    }
}

} // verus!
