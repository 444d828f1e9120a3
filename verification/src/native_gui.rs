//! Registering a package's GUI app with the host desktop (a Linux desktop
//! entry, a Windows Start Menu launcher with registry classes, a macOS
//! application link or bundle copy) and the records that let uninstall
//! undo it. What runs on the host is planned here as a list of steps; the
//! caller performs them and hands back what each one gave.
use vstd::prelude::*;

use crate::exposure::{
    asset_view, assets_view, extension_spec, normalize_gui_token, normalize_token_spec,
    normalized_extension, normalized_protocol_scheme, protocol_scheme_spec, ExposureError,
};
use crate::gui_app::{
    declarations_valid, desktop_entry_spec, launcher_spec, native_gui_launcher_filename,
    render_gui_launcher, render_linux_native_desktop_entry, strings_view, ArtifactGuiApp,
    AssocView, GuiAppView, app_stem,
};
use crate::native::{project_linux_user_applications_dir, project_windows_start_menu_programs_dir};
use crate::paths::{join_path, path_join};
use crate::text::{chars_of, extend_str, lower_seq, string_of_vec, to_lower, trim, trim_chars};
use crate::types::{GuiExposureAsset, GuiNativeRegistrationRecord, HostPlatform, TripleView};

verus! {

/// An operation on the host.
#[derive(Clone, Debug, PartialEq, Eq)]
pub enum NativeOp {
    CreateDirAll { path: String },
    WriteFile { path: String, contents: String },
    /// Runs `program` with `args`; `context` opens the failure's text.
    RunCommand { program: String, args: Vec<String>, context: String },
}

pub enum OpView {
    CreateDirAll { path: Seq<char> },
    WriteFile { path: Seq<char>, contents: Seq<char> },
    RunCommand { program: Seq<char>, args: Seq<Seq<char>>, context: Seq<char> },
}

impl View for NativeOp {
    type V = OpView;

    open spec fn view(&self) -> OpView {
        match self {
            NativeOp::CreateDirAll { path } => OpView::CreateDirAll { path: path@ },
            NativeOp::WriteFile { path, contents } => OpView::WriteFile {
                path: path@,
                contents: contents@,
            },
            NativeOp::RunCommand { program, args, context } => OpView::RunCommand {
                program: program@,
                args: args@.map_values(|a: String| a@),
                context: context@,
            },
        }
    }
}

/// What a failed step does to the rest of the registration.
#[derive(Clone, Copy, Debug, PartialEq, Eq, Structural)]
pub enum FailurePolicy {
    /// Give up: warn, and register nothing.
    Stop,
    /// Warn and go on.
    Continue,
}

/// One step of a registration; a failure is reported as `warning_prefix`
/// followed by the failure's text.
#[derive(Clone, Debug, PartialEq, Eq)]
pub struct NativeStep {
    pub op: NativeOp,
    pub on_failure: FailurePolicy,
    pub warning_prefix: String,
}

pub struct StepView {
    pub op: OpView,
    pub on_failure: FailurePolicy,
    pub warning_prefix: Seq<char>,
}

impl View for NativeStep {
    type V = StepView;

    open spec fn view(&self) -> StepView {
        StepView { op: self.op@, on_failure: self.on_failure, warning_prefix: self.warning_prefix@ }
    }
}

/// A registration to run: its steps, the records it leaves when no step
/// stops it, and the warnings known before any step runs.
#[derive(Clone, Debug, PartialEq, Eq)]
pub struct NativeRegistrationPlan {
    pub steps: Vec<NativeStep>,
    pub records: Vec<GuiNativeRegistrationRecord>,
    pub warnings: Vec<String>,
}

pub struct PlanView {
    pub steps: Seq<StepView>,
    pub records: Seq<TripleView>,
    pub warnings: Seq<Seq<char>>,
}

pub open spec fn records_view(v: Seq<GuiNativeRegistrationRecord>) -> Seq<TripleView> {
    v.map_values(|r: GuiNativeRegistrationRecord| r@)
}

pub open spec fn strs_view(v: Seq<String>) -> Seq<Seq<char>> {
    v.map_values(|s: String| s@)
}

impl View for NativeRegistrationPlan {
    type V = PlanView;

    open spec fn view(&self) -> PlanView {
        PlanView {
            steps: self.steps@.map_values(|s: NativeStep| s@),
            records: records_view(self.records@),
            warnings: strs_view(self.warnings@),
        }
    }
}

pub open spec fn warn_prefix() -> Seq<char> {
    "native GUI registration warning: "@
}

// ---------------------------------------------------------------------------
// running a plan

/// The records and warnings a plan ends with, given what each step gave
/// (`None` for success, else the failure's text), from step `i` on: a
/// failed step adds its warning; one that stops drops the records and ends
/// the run.
pub open spec fn outcome_from(
    steps: Seq<StepView>,
    outcomes: Seq<Option<Seq<char>>>,
    i: int,
    records: Seq<TripleView>,
    warnings: Seq<Seq<char>>,
) -> (Seq<TripleView>, Seq<Seq<char>>)
    decreases steps.len() - i,
{
    if i < 0 || i >= steps.len() || i >= outcomes.len() {
        (records, warnings)
    } else {
        match outcomes[i] {
            None => outcome_from(steps, outcomes, i + 1, records, warnings),
            Some(err) => {
                let w = warnings.push(steps[i].warning_prefix + err);
                if steps[i].on_failure == FailurePolicy::Stop {
                    (Seq::empty(), w)
                } else {
                    outcome_from(steps, outcomes, i + 1, records, w)
                }
            },
        }
    }
}

pub open spec fn registration_outcome(plan: PlanView, outcomes: Seq<Option<Seq<char>>>) -> (
    Seq<TripleView>,
    Seq<Seq<char>>,
) {
    outcome_from(plan.steps, outcomes, 0, plan.records, plan.warnings)
}

pub open spec fn outcomes_view(v: Seq<Option<String>>) -> Seq<Option<Seq<char>>> {
    v.map_values(
        |o: Option<String>|
            match o {
                Some(s) => Some(s@),
                None => None,
            },
    )
}

/// Whether a step that gave `failed` ends the registration.
pub fn step_stops(step: &NativeStep, failed: bool) -> (r: bool)
    ensures
        r == (failed && step.on_failure == FailurePolicy::Stop),
{
    failed && step.on_failure == FailurePolicy::Stop
}

fn clone_records(v: &Vec<GuiNativeRegistrationRecord>) -> (r: Vec<GuiNativeRegistrationRecord>)
    ensures
        records_view(r@) == records_view(v@),
{
    let mut r: Vec<GuiNativeRegistrationRecord> = Vec::new();
    let n = v.len();
    let mut i: usize = 0;
    while i < n
        invariant
            n == v@.len(),
            i <= n,
            records_view(r@) == records_view(v@.take(i as int)),
        decreases n - i,
    {
        let x = GuiNativeRegistrationRecord {
            key: v[i].key.clone(),
            kind: v[i].kind.clone(),
            path: v[i].path.clone(),
        };
        let ghost before = r@;
        r.push(x);
        assert(records_view(r@) =~= records_view(before).push(x@));
        assert(v@.take(i + 1) =~= v@.take(i as int).push(v@[i as int]));
        assert(records_view(v@.take(i + 1)) =~= records_view(v@.take(i as int)).push(
            v@[i as int]@,
        ));
        i = i + 1;
    }
    assert(v@.take(n as int) =~= v@);
    r
}

fn clone_strings(v: &Vec<String>) -> (r: Vec<String>)
    ensures
        strs_view(r@) == strs_view(v@),
{
    let mut r: Vec<String> = Vec::new();
    let n = v.len();
    let mut i: usize = 0;
    while i < n
        invariant
            n == v@.len(),
            i <= n,
            strs_view(r@) == strs_view(v@.take(i as int)),
        decreases n - i,
    {
        let ghost before = r@;
        let x = v[i].clone();
        r.push(x);
        assert(strs_view(r@) =~= strs_view(before).push(x@));
        assert(v@.take(i + 1) =~= v@.take(i as int).push(v@[i as int]));
        assert(strs_view(v@.take(i + 1)) =~= strs_view(v@.take(i as int)).push(v@[i as int]@));
        i = i + 1;
    }
    assert(v@.take(n as int) =~= v@);
    r
}

/// The records and warnings a registration ends with (see
/// `registration_outcome`); `outcomes[k]` is what step `k` gave, and steps
/// after one that stopped need no outcome.
pub fn finish_native_registration(plan: &NativeRegistrationPlan, outcomes: &Vec<Option<String>>) -> (r: (
    Vec<GuiNativeRegistrationRecord>,
    Vec<String>,
))
    ensures
        (records_view(r.0@), strs_view(r.1@)) == registration_outcome(plan@, outcomes_view(outcomes@)),
{
    let ghost sv = plan@.steps;
    let ghost ov = outcomes_view(outcomes@);
    let mut warnings = clone_strings(&plan.warnings);
    let n = plan.steps.len();
    let mut i: usize = 0;
    while i < n && i < outcomes.len()
        invariant
            n == plan.steps@.len(),
            sv == plan@.steps,
            ov == outcomes_view(outcomes@),
            i <= n,
            registration_outcome(plan@, ov) == outcome_from(
                sv,
                ov,
                i as int,
                plan@.records,
                strs_view(warnings@),
            ),
        decreases n - i,
    {
        match &outcomes[i] {
            None => {},
            Some(err) => {
                let step = &plan.steps[i];
                let mut w: Vec<char> = Vec::new();
                extend_str(&mut w, step.warning_prefix.as_str());
                extend_str(&mut w, err.as_str());
                let ghost before = warnings@;
                let ws = string_of_vec(&w);
                warnings.push(ws);
                assert(strs_view(warnings@) =~= strs_view(before).push(ws@));
                assert(sv[i as int] == step@);
                if step.on_failure == FailurePolicy::Stop {
                    return (Vec::new(), warnings);
                }
            },
        }
        i = i + 1;
    }
    (clone_records(&plan.records), warnings)
}

// ---------------------------------------------------------------------------
// Linux

pub open spec fn records_for_assets(
    assets: Seq<(Seq<char>, Seq<char>)>,
    kind: Seq<char>,
    path: Seq<char>,
) -> Seq<TripleView> {
    assets.map_values(
        |a: (Seq<char>, Seq<char>)| TripleView { key: a.0, kind: kind, path: path },
    )
}

pub open spec fn linux_applications_dir(home: Seq<char>) -> Seq<char> {
    path_join(path_join(path_join(home, ".local"@), "share"@), "applications"@)
}

/// The Linux registration: a desktop entry under
/// `<home>/.local/share/applications`, recorded for every asset, then a
/// refresh of the desktop database. Without a home directory nothing is
/// registered.
pub open spec fn linux_plan_spec(
    home: Option<Seq<char>>,
    package_name: Seq<char>,
    app: GuiAppView,
    source: Seq<char>,
    assets: Seq<(Seq<char>, Seq<char>)>,
) -> PlanView {
    match home {
        None => PlanView {
            steps: Seq::empty(),
            records: Seq::empty(),
            warnings: seq![
                warn_prefix() + "HOME is not set; skipped Linux desktop registration"@,
            ],
        },
        Some(h) => {
            let dir = linux_applications_dir(h);
            let desktop_path = path_join(dir, app_stem(package_name, app.app_id) + ".desktop"@);
            PlanView {
                steps: seq![
                    StepView {
                        op: OpView::CreateDirAll { path: dir },
                        on_failure: FailurePolicy::Stop,
                        warning_prefix: warn_prefix()
                            + "failed to create Linux user applications dir "@ + dir + ": "@,
                    },
                    StepView {
                        op: OpView::WriteFile {
                            path: desktop_path,
                            contents: desktop_entry_spec(app, source),
                        },
                        on_failure: FailurePolicy::Stop,
                        warning_prefix: warn_prefix() + "failed to write Linux desktop entry "@
                            + desktop_path + ": "@,
                    },
                    StepView {
                        op: OpView::RunCommand {
                            program: "update-desktop-database"@,
                            args: seq![dir],
                            context: "failed to refresh Linux desktop entry database"@,
                        },
                        on_failure: FailurePolicy::Continue,
                        warning_prefix: warn_prefix(),
                    },
                ],
                records: records_for_assets(assets, "desktop-entry"@, desktop_path),
                warnings: Seq::empty(),
            }
        },
    }
}

fn warn_prefix_string() -> (r: String)
    ensures
        r@ == warn_prefix(),
{
    String::from_str("native GUI registration warning: ")
}

fn step(op: NativeOp, on_failure: FailurePolicy, warning_prefix: String) -> (r: NativeStep)
    ensures
        r@ == (StepView { op: op@, on_failure, warning_prefix: warning_prefix@ }),
{
    NativeStep { op, on_failure, warning_prefix }
}

pub(crate) fn records_for(assets: &Vec<GuiExposureAsset>, kind: &str, path: &String) -> (r: Vec<
    GuiNativeRegistrationRecord,
>)
    ensures
        records_view(r@) == records_for_assets(assets_view(assets@), kind@, path@),
{
    let mut r: Vec<GuiNativeRegistrationRecord> = Vec::new();
    let n = assets.len();
    let mut i: usize = 0;
    while i < n
        invariant
            n == assets@.len(),
            i <= n,
            records_view(r@) == records_for_assets(assets_view(assets@.take(i as int)), kind@, path@),
        decreases n - i,
    {
        let x = GuiNativeRegistrationRecord {
            key: assets[i].key.clone(),
            kind: String::from_str(kind),
            path: path.clone(),
        };
        let ghost before = r@;
        r.push(x);
        assert(records_view(r@) =~= records_view(before).push(x@));
        assert(assets@.take(i + 1) =~= assets@.take(i as int).push(assets@[i as int]));
        assert(records_for_assets(assets_view(assets@.take(i + 1)), kind@, path@)
            =~= records_for_assets(assets_view(assets@.take(i as int)), kind@, path@).push(x@));
        i = i + 1;
    }
    assert(assets@.take(n as int) =~= assets@);
    r
}

fn warn_with(rest: &str, path: &str) -> (r: String)
    ensures
        r@ == warn_prefix() + rest@ + path@ + ": "@,
{
    let mut v: Vec<char> = Vec::new();
    extend_str(&mut v, "native GUI registration warning: ");
    extend_str(&mut v, rest);
    extend_str(&mut v, path);
    extend_str(&mut v, ": ");
    proof {
        reveal_strlit("native GUI registration warning: ");
    }
    string_of_vec(&v)
}

fn one_warning(text: &str) -> (r: Vec<String>)
    ensures
        strs_view(r@) == seq![warn_prefix() + text@],
{
    let mut v: Vec<char> = Vec::new();
    extend_str(&mut v, "native GUI registration warning: ");
    extend_str(&mut v, text);
    let s = string_of_vec(&v);
    let mut r: Vec<String> = Vec::new();
    r.push(s);
    assert(strs_view(r@) =~= seq![s@]);
    r
}

/// Plans the Linux registration (see `linux_plan_spec`).
pub fn plan_linux_registration(
    home: Option<&str>,
    package_name: &str,
    app: &ArtifactGuiApp,
    source_path: &str,
    assets: &Vec<GuiExposureAsset>,
) -> (r: NativeRegistrationPlan)
    ensures
        r@ == linux_plan_spec(
            match home {
                Some(h) => Some(h@),
                None => None,
            },
            package_name@,
            app@,
            source_path@,
            assets_view(assets@),
        ),
{
    let h = match home {
        None => {
            let w = one_warning("HOME is not set; skipped Linux desktop registration");
            let r = NativeRegistrationPlan { steps: Vec::new(), records: Vec::new(), warnings: w };
            assert(r@.steps =~= Seq::<StepView>::empty());
            assert(r@.records =~= Seq::<TripleView>::empty());
            return r;
        },
        Some(h) => h,
    };
    let dir = project_linux_user_applications_dir(h);
    let file = native_gui_launcher_filename(package_name, app);
    let desktop_path = join_path(dir.as_str(), file.as_str());
    let entry = render_linux_native_desktop_entry(app, source_path);
    let mut steps: Vec<NativeStep> = Vec::new();
    steps.push(
        step(
            NativeOp::CreateDirAll { path: dir.clone() },
            FailurePolicy::Stop,
            warn_with("failed to create Linux user applications dir ", dir.as_str()),
        ),
    );
    steps.push(
        step(
            NativeOp::WriteFile { path: desktop_path.clone(), contents: entry },
            FailurePolicy::Stop,
            warn_with("failed to write Linux desktop entry ", desktop_path.as_str()),
        ),
    );
    let mut args: Vec<String> = Vec::new();
    args.push(dir.clone());
    assert(args@.map_values(|a: String| a@) =~= seq![dir@]);
    let prefix = warn_prefix_string();
    proof {
        reveal_strlit("update-desktop-database");
    }
    steps.push(
        step(
            NativeOp::RunCommand {
                program: String::from_str("update-desktop-database"),
                args,
                context: String::from_str("failed to refresh Linux desktop entry database"),
            },
            FailurePolicy::Continue,
            prefix,
        ),
    );
    let records = records_for(assets, "desktop-entry", &desktop_path);
    let ghost spec = linux_plan_spec(Some(h@), package_name@, app@, source_path@, assets_view(assets@));
    assert(steps@.map_values(|s: NativeStep| s@)[0] == spec.steps[0]);
    assert(steps@.map_values(|s: NativeStep| s@)[1] == spec.steps[1]);
    assert(steps@.map_values(|s: NativeStep| s@)[2].op == spec.steps[2].op);
    let r = NativeRegistrationPlan { steps, records, warnings: Vec::new() };
    assert(r@.warnings =~= Seq::<Seq<char>>::empty());
    assert(r@.steps =~= linux_plan_spec(Some(h@), package_name@, app@, source_path@, assets_view(assets@)).steps);
    r
}


// ---------------------------------------------------------------------------
// Windows

/// `HKCU\Software\Classes\<name>`.
pub open spec fn classes_key(name: Seq<char>) -> Seq<char> {
    "HKCU\\Software\\Classes\\"@ + name
}

/// `reg add <args> /f`, a step whose failure is only warned about.
pub open spec fn reg_add(args: Seq<Seq<char>>, context: Seq<char>) -> StepView {
    StepView {
        op: OpView::RunCommand {
            program: "reg"@,
            args: seq!["add"@] + args + seq!["/f"@],
            context,
        },
        on_failure: FailurePolicy::Continue,
        warning_prefix: warn_prefix(),
    }
}

/// The command a registered class opens files or URLs with.
pub open spec fn open_command(source: Seq<char>) -> Seq<char> {
    "\""@ + source + "\" \"%1\""@
}

pub open spec fn scheme_of(p: Seq<char>) -> Seq<char> {
    protocol_scheme_spec(p)->Ok_0
}

pub open spec fn extension_of(e: Seq<char>) -> Seq<char> {
    extension_spec(e)->Ok_0
}

/// A protocol's class, its URL marker and its open command.
pub open spec fn protocol_steps(scheme: Seq<char>, display_name: Seq<char>, open: Seq<char>) -> Seq<
    StepView,
> {
    let key = classes_key(scheme);
    seq![
        reg_add(
            seq![key, "/ve"@, "/d"@, "URL:"@ + trim(display_name)],
            "failed to register Windows protocol class"@,
        ),
        reg_add(
            seq![key, "/v"@, "URL Protocol"@, "/d"@, Seq::<char>::empty()],
            "failed to set Windows protocol marker"@,
        ),
        reg_add(
            seq![key + "\\shell\\open\\command"@, "/ve"@, "/d"@, open],
            "failed to register Windows protocol open command"@,
        ),
    ]
}

pub open spec fn protocols_steps(ps: Seq<Seq<char>>, display_name: Seq<char>, open: Seq<char>) -> Seq<
    StepView,
>
    decreases ps.len(),
{
    if ps.len() == 0 {
        Seq::empty()
    } else {
        protocols_steps(ps.drop_last(), display_name, open) + protocol_steps(
            scheme_of(ps.last()),
            display_name,
            open,
        )
    }
}

pub open spec fn protocol_record(p: Seq<char>) -> TripleView {
    TripleView {
        key: "protocol:"@ + scheme_of(p),
        kind: "registry-key"@,
        path: classes_key(scheme_of(p)),
    }
}

/// An extension's mapping to the app's file class, and the class's open
/// command.
pub open spec fn extension_steps(n: Seq<char>, class_key: Seq<char>, open: Seq<char>) -> Seq<StepView> {
    seq![
        reg_add(
            seq![classes_key(n), "/ve"@, "/d"@, class_key],
            "failed to register Windows file extension mapping"@,
        ),
        reg_add(
            seq![class_key + "\\shell\\open\\command"@, "/ve"@, "/d"@, open],
            "failed to register Windows file extension open command"@,
        ),
    ]
}

pub open spec fn extensions_steps(es: Seq<Seq<char>>, class_key: Seq<char>, open: Seq<char>) -> Seq<
    StepView,
>
    decreases es.len(),
{
    if es.len() == 0 {
        Seq::empty()
    } else {
        extensions_steps(es.drop_last(), class_key, open) + extension_steps(
            extension_of(es.last()),
            class_key,
            open,
        )
    }
}

pub open spec fn associations_steps(assocs: Seq<AssocView>, class_key: Seq<char>, open: Seq<char>) -> Seq<
    StepView,
>
    decreases assocs.len(),
{
    if assocs.len() == 0 {
        Seq::empty()
    } else {
        associations_steps(assocs.drop_last(), class_key, open) + extensions_steps(
            assocs.last().extensions,
            class_key,
            open,
        )
    }
}

/// Per extension: its own record, then its MIME type's record.
pub open spec fn extensions_records(es: Seq<Seq<char>>, mime_type: Seq<char>, class_key: Seq<char>) -> Seq<
    TripleView,
>
    decreases es.len(),
{
    if es.len() == 0 {
        Seq::empty()
    } else {
        extensions_records(es.drop_last(), mime_type, class_key) + seq![
            TripleView {
                key: "extension:"@ + extension_of(es.last()),
                kind: "registry-key"@,
                path: classes_key(extension_of(es.last())),
            },
            TripleView {
                key: "mime:"@ + lower_seq(trim(mime_type)),
                kind: "registry-key"@,
                path: class_key,
            },
        ]
    }
}

pub open spec fn associations_records(assocs: Seq<AssocView>, class_key: Seq<char>) -> Seq<TripleView>
    decreases assocs.len(),
{
    if assocs.len() == 0 {
        Seq::empty()
    } else {
        associations_records(assocs.drop_last(), class_key) + extensions_records(
            assocs.last().extensions,
            assocs.last().mime_type,
            class_key,
        )
    }
}

/// The records of the assets whose key starts with `app:`.
pub open spec fn launcher_records(assets: Seq<(Seq<char>, Seq<char>)>, path: Seq<char>) -> Seq<
    TripleView,
>
    decreases assets.len(),
{
    if assets.len() == 0 {
        Seq::empty()
    } else {
        let rest = launcher_records(assets.drop_last(), path);
        let a = assets.last();
        if crate::text::has_prefix(a.0, "app:"@) {
            rest.push(TripleView { key: a.0, kind: "start-menu-launcher"@, path })
        } else {
            rest
        }
    }
}

pub open spec fn start_menu_dir(appdata: Seq<char>) -> Seq<char> {
    path_join(
        path_join(path_join(path_join(appdata, "Microsoft"@), "Windows"@), "Start Menu"@),
        "Programs"@,
    )
}

/// The Windows registration: a `.cmd` launcher in the Start Menu, recorded
/// for the app's launcher assets; then per protocol a URL class, and per
/// file extension a mapping to the app's file class, each recorded as a
/// registry key. Without an application data directory nothing is
/// registered.
pub open spec fn windows_plan_spec(
    appdata: Option<Seq<char>>,
    package_name: Seq<char>,
    app: GuiAppView,
    source: Seq<char>,
    assets: Seq<(Seq<char>, Seq<char>)>,
) -> PlanView {
    match appdata {
        None => PlanView {
            steps: Seq::empty(),
            records: Seq::empty(),
            warnings: seq![
                warn_prefix() + "APPDATA is not set; skipped Windows GUI registration"@,
            ],
        },
        Some(d) => {
            let dir = start_menu_dir(d);
            let launcher_path = path_join(
                dir,
                normalize_token_spec(package_name + "-"@ + app.app_id) + ".cmd"@,
            );
            let open = open_command(source);
            let class_key = classes_key(
                "Crosspack."@ + normalize_token_spec(package_name) + "."@ + normalize_token_spec(
                    app.app_id,
                ) + ".file"@,
            );
            PlanView {
                steps: seq![
                    StepView {
                        op: OpView::CreateDirAll { path: dir },
                        on_failure: FailurePolicy::Stop,
                        warning_prefix: warn_prefix()
                            + "failed to create Windows Start Menu programs dir "@ + dir + ": "@,
                    },
                    StepView {
                        op: OpView::WriteFile {
                            path: launcher_path,
                            contents: launcher_spec(HostPlatform::Windows, app, source),
                        },
                        on_failure: FailurePolicy::Stop,
                        warning_prefix: warn_prefix()
                            + "failed to write Windows Start Menu launcher "@ + launcher_path
                            + ": "@,
                    },
                ] + protocols_steps(app.protocols, app.display_name, open) + associations_steps(
                    app.associations,
                    class_key,
                    open,
                ),
                records: launcher_records(assets, launcher_path) + app.protocols.map_values(
                    |p: Seq<char>| protocol_record(p),
                ) + associations_records(app.associations, class_key),
                warnings: Seq::empty(),
            }
        },
    }
}

pub open spec fn steps_view(v: Seq<NativeStep>) -> Seq<StepView> {
    v.map_values(|s: NativeStep| s@)
}

fn push_step(v: &mut Vec<NativeStep>, s: NativeStep)
    ensures
        steps_view(final(v)@) == steps_view(old(v)@).push(s@),
{
    let ghost before = v@;
    v.push(s);
    assert(steps_view(v@) =~= steps_view(before).push(s@));
}

fn push_record(v: &mut Vec<GuiNativeRegistrationRecord>, key: String, kind: &str, path: String)
    ensures
        records_view(final(v)@) == records_view(old(v)@).push(
            TripleView { key: key@, kind: kind@, path: path@ },
        ),
{
    let ghost before = v@;
    let r = GuiNativeRegistrationRecord { key, kind: String::from_str(kind), path };
    v.push(r);
    assert(records_view(v@) =~= records_view(before).push(r@));
}

fn str_of(parts: &Vec<char>) -> (r: String)
    ensures
        r@ == parts@,
{
    string_of_vec(parts)
}

fn cat2(a: &str, b: &str) -> (r: String)
    ensures
        r@ == a@ + b@,
{
    let mut v: Vec<char> = Vec::new();
    extend_str(&mut v, a);
    extend_str(&mut v, b);
    string_of_vec(&v)
}

fn reg_add_step(args: Vec<String>, context: &str) -> (r: NativeStep)
    ensures
        r@ == reg_add(strs_view(args@), context@),
{
    let mut all: Vec<String> = Vec::new();
    all.push(String::from_str("add"));
    let n = args.len();
    let mut i: usize = 0;
    while i < n
        invariant
            n == args@.len(),
            i <= n,
            all@.map_values(|a: String| a@) == seq!["add"@] + strs_view(args@).take(i as int),
        decreases n - i,
    {
        let ghost before = all@;
        let x = args[i].clone();
        all.push(x);
        assert(all@.map_values(|a: String| a@) =~= before.map_values(|a: String| a@).push(x@));
        assert(strs_view(args@).take(i + 1) =~= strs_view(args@).take(i as int).push(
            args@[i as int]@,
        ));
        i = i + 1;
    }
    let ghost before = all@;
    let f = String::from_str("/f");
    all.push(f);
    assert(all@.map_values(|a: String| a@) =~= before.map_values(|a: String| a@).push(f@));
    assert(strs_view(args@).take(n as int) =~= strs_view(args@));
    assert(all@.map_values(|a: String| a@) =~= seq!["add"@] + strs_view(args@) + seq!["/f"@]);
    let r = NativeStep {
        op: NativeOp::RunCommand { program: String::from_str("reg"), args: all, context: String::from_str(context) },
        on_failure: FailurePolicy::Continue,
        warning_prefix: warn_prefix_string(),
    };
    assert(r@.op == reg_add(strs_view(args@), context@).op);
    r
}

fn strings4(a: String, b: &str, c: &str, d: String) -> (r: Vec<String>)
    ensures
        strs_view(r@) == seq![a@, b@, c@, d@],
{
    let mut r: Vec<String> = Vec::new();
    r.push(a);
    r.push(String::from_str(b));
    r.push(String::from_str(c));
    r.push(d);
    assert(strs_view(r@) =~= seq![a@, b@, c@, d@]);
    r
}

fn strings5(a: String, b: &str, c: &str, d: &str, e: String) -> (r: Vec<String>)
    ensures
        strs_view(r@) == seq![a@, b@, c@, d@, e@],
{
    let mut r: Vec<String> = Vec::new();
    r.push(a);
    r.push(String::from_str(b));
    r.push(String::from_str(c));
    r.push(String::from_str(d));
    r.push(e);
    assert(strs_view(r@) =~= seq![a@, b@, c@, d@, e@]);
    r
}

fn classes_key_exec(name: &str) -> (r: String)
    ensures
        r@ == classes_key(name@),
{
    cat2("HKCU\\Software\\Classes\\", name)
}

fn push_protocol_steps(
    steps: &mut Vec<NativeStep>,
    scheme: &String,
    display_name: &str,
    open: &String,
)
    ensures
        steps_view(final(steps)@) == steps_view(old(steps)@) + protocol_steps(
            scheme@,
            display_name@,
            open@,
        ),
{
    let key = classes_key_exec(scheme.as_str());
    let dn = str_of(&trim_chars(chars_of(display_name).as_slice()));
    let url = cat2("URL:", dn.as_str());
    let ghost start = steps_view(steps@);
    push_step(steps, reg_add_step(strings4(key.clone(), "/ve", "/d", url), "failed to register Windows protocol class"));
    push_step(
        steps,
        reg_add_step(
            strings5(key.clone(), "/v", "URL Protocol", "/d", String::new()),
            "failed to set Windows protocol marker",
        ),
    );
    let cmd_key = cat2(key.as_str(), "\\shell\\open\\command");
    push_step(
        steps,
        reg_add_step(
            strings4(cmd_key, "/ve", "/d", open.clone()),
            "failed to register Windows protocol open command",
        ),
    );
    assert(steps_view(steps@) =~= start + protocol_steps(scheme@, display_name@, open@));
}

fn push_extension_steps(steps: &mut Vec<NativeStep>, n: &String, class_key: &String, open: &String)
    ensures
        steps_view(final(steps)@) == steps_view(old(steps)@) + extension_steps(
            n@,
            class_key@,
            open@,
        ),
{
    let ghost start = steps_view(steps@);
    let ext_key = classes_key_exec(n.as_str());
    push_step(
        steps,
        reg_add_step(
            strings4(ext_key, "/ve", "/d", class_key.clone()),
            "failed to register Windows file extension mapping",
        ),
    );
    let cmd_key = cat2(class_key.as_str(), "\\shell\\open\\command");
    push_step(
        steps,
        reg_add_step(
            strings4(cmd_key, "/ve", "/d", open.clone()),
            "failed to register Windows file extension open command",
        ),
    );
    assert(steps_view(steps@) =~= start + extension_steps(n@, class_key@, open@));
}

/// Plans the Windows registration (see `windows_plan_spec`); the app's
/// declarations are the ones its projected assets were made from.
pub fn plan_windows_registration(
    appdata: Option<&str>,
    package_name: &str,
    app: &ArtifactGuiApp,
    source_path: &str,
    assets: &Vec<GuiExposureAsset>,
) -> (r: NativeRegistrationPlan)
    requires
        declarations_valid(app@),
    ensures
        r@ == windows_plan_spec(
            match appdata {
                Some(d) => Some(d@),
                None => None,
            },
            package_name@,
            app@,
            source_path@,
            assets_view(assets@),
        ),
{
    let d = match appdata {
        None => {
            let w = one_warning("APPDATA is not set; skipped Windows GUI registration");
            let r = NativeRegistrationPlan { steps: Vec::new(), records: Vec::new(), warnings: w };
            assert(r@.steps =~= Seq::<StepView>::empty());
            assert(r@.records =~= Seq::<TripleView>::empty());
            return r;
        },
        Some(d) => d,
    };
    let ghost spec = windows_plan_spec(Some(d@), package_name@, app@, source_path@, assets_view(assets@));
    let dir = project_windows_start_menu_programs_dir(d);
    let mut lv: Vec<char> = Vec::new();
    extend_str(&mut lv, package_name);
    extend_str(&mut lv, "-");
    extend_str(&mut lv, app.app_id.as_str());
    let combined = str_of(&lv);
    let token = normalize_gui_token(combined.as_str());
    let file = cat2(token.as_str(), ".cmd");
    let launcher_path = join_path(dir.as_str(), file.as_str());
    let mut ov: Vec<char> = Vec::new();
    extend_str(&mut ov, "\"");
    extend_str(&mut ov, source_path);
    extend_str(&mut ov, "\" \"%1\"");
    let open = str_of(&ov);
    let mut cv: Vec<char> = Vec::new();
    extend_str(&mut cv, "Crosspack.");
    let pt = normalize_gui_token(package_name);
    extend_str(&mut cv, pt.as_str());
    extend_str(&mut cv, ".");
    let at = normalize_gui_token(app.app_id.as_str());
    extend_str(&mut cv, at.as_str());
    extend_str(&mut cv, ".file");
    let class_name = str_of(&cv);
    let class_key = classes_key_exec(class_name.as_str());
    let launcher = render_gui_launcher(HostPlatform::Windows, app, source_path);
    let mut steps: Vec<NativeStep> = Vec::new();
    push_step(
        &mut steps,
        step(
            NativeOp::CreateDirAll { path: dir.clone() },
            FailurePolicy::Stop,
            warn_with("failed to create Windows Start Menu programs dir ", dir.as_str()),
        ),
    );
    push_step(
        &mut steps,
        step(
            NativeOp::WriteFile { path: launcher_path.clone(), contents: launcher },
            FailurePolicy::Stop,
            warn_with("failed to write Windows Start Menu launcher ", launcher_path.as_str()),
        ),
    );
    let ghost head = steps_view(steps@);
    assert(head =~= spec.steps.take(2));
    // launcher records
    let mut records: Vec<GuiNativeRegistrationRecord> = Vec::new();
    let na = assets.len();
    let mut i: usize = 0;
    assert(assets_view(assets@).take(0) =~= Seq::<(Seq<char>, Seq<char>)>::empty());
    while i < na
        invariant
            na == assets@.len(),
            i <= na,
            records_view(records@) == launcher_records(
                assets_view(assets@).take(i as int),
                launcher_path@,
            ),
        decreases na - i,
    {
        let a = &assets[i];
        let ghost av = assets_view(assets@);
        assert(av.take(i + 1).drop_last() =~= av.take(i as int));
        assert(av.take(i + 1).last() == asset_view(*a));
        proof {
            reveal_strlit("app:");
        }
        if crate::text::starts_with_str(chars_of(a.key.as_str()).as_slice(), "app:") {
            push_record(&mut records, a.key.clone(), "start-menu-launcher", launcher_path.clone());
        }
        i = i + 1;
    }
    assert(assets_view(assets@).take(na as int) =~= assets_view(assets@));
    // protocols
    let ghost pv = app@.protocols;
    let ghost dn = app@.display_name;
    let ghost rec_head = records_view(records@);
    let np = app.protocols.len();
    let mut j: usize = 0;
    assert(pv.take(0) =~= Seq::<Seq<char>>::empty());
    assert(head + Seq::<StepView>::empty() =~= head);
    assert(rec_head + Seq::<TripleView>::empty() =~= rec_head);
    while j < np
        invariant
            np == app.protocols@.len(),
            pv == app@.protocols,
            dn == app@.display_name,
            declarations_valid(app@),
            j <= np,
            steps_view(steps@) == head + protocols_steps(pv.take(j as int), dn, open@),
            records_view(records@) == rec_head + pv.take(j as int).map_values(
                |p: Seq<char>| protocol_record(p),
            ),
        decreases np - j,
    {
        assert(protocol_scheme_spec(pv[j as int]) is Ok);
        let scheme = match normalized_protocol_scheme(app.protocols[j].scheme.as_str()) {
            Ok(s) => s,
            Err(_) => {
                assert(false);
                return NativeRegistrationPlan { steps, records, warnings: Vec::new() };
            },
        };
        push_protocol_steps(&mut steps, &scheme, app.display_name.as_str(), &open);
        let key = cat2("protocol:", scheme.as_str());
        let path = classes_key_exec(scheme.as_str());
        push_record(&mut records, key, "registry-key", path);
        assert(pv.take(j + 1).drop_last() =~= pv.take(j as int));
        assert(pv.take(j + 1).last() == pv[j as int]);
        assert(steps_view(steps@) =~= head + protocols_steps(pv.take(j + 1), dn, open@));
        assert(pv.take(j + 1).map_values(|p: Seq<char>| protocol_record(p)) =~= pv.take(
            j as int,
        ).map_values(|p: Seq<char>| protocol_record(p)).push(protocol_record(pv[j as int])));
        j = j + 1;
    }
    assert(pv.take(np as int) =~= pv);
    // associations
    let ghost asv = app@.associations;
    let ghost mid = steps_view(steps@);
    let ghost rec_mid = records_view(records@);
    let nassoc = app.file_associations.len();
    let mut k: usize = 0;
    assert(asv.take(0) =~= Seq::<AssocView>::empty());
    assert(mid + Seq::<StepView>::empty() =~= mid);
    assert(rec_mid + Seq::<TripleView>::empty() =~= rec_mid);
    while k < nassoc
        invariant
            nassoc == app.file_associations@.len(),
            asv == app@.associations,
            declarations_valid(app@),
            k <= nassoc,
            steps_view(steps@) == mid + associations_steps(asv.take(k as int), class_key@, open@),
            records_view(records@) == rec_mid + associations_records(asv.take(k as int), class_key@),
        decreases nassoc - k,
    {
        let assoc = &app.file_associations[k];
        assert(asv[k as int] == assoc@);
        let ghost ev = assoc@.extensions;
        let ghost s0 = steps_view(steps@);
        let ghost r0 = records_view(records@);
        let mime = str_of(&to_lower(trim_chars(chars_of(assoc.mime_type.as_str()).as_slice()).as_slice()));
        let mime_key = cat2("mime:", mime.as_str());
        let ne = assoc.extensions.len();
        let mut e: usize = 0;
        assert(ev.take(0) =~= Seq::<Seq<char>>::empty());
        assert(s0 + Seq::<StepView>::empty() =~= s0);
        assert(r0 + Seq::<TripleView>::empty() =~= r0);
        while e < ne
            invariant
                ne == assoc.extensions@.len(),
                ev == assoc@.extensions,
                ev == asv[k as int].extensions,
                k < nassoc,
                nassoc == asv.len(),
                declarations_valid(app@),
                asv == app@.associations,
                mime_key@ == "mime:"@ + lower_seq(trim(assoc@.mime_type)),
                e <= ne,
                steps_view(steps@) == s0 + extensions_steps(ev.take(e as int), class_key@, open@),
                records_view(records@) == r0 + extensions_records(
                    ev.take(e as int),
                    assoc@.mime_type,
                    class_key@,
                ),
            decreases ne - e,
        {
            assert(extension_spec(asv[k as int].extensions[e as int]) is Ok);
            let n = match normalized_extension(assoc.extensions[e].as_str()) {
                Ok(n) => n,
                Err(_) => {
                    assert(false);
                    return NativeRegistrationPlan { steps, records, warnings: Vec::new() };
                },
            };
            push_extension_steps(&mut steps, &n, &class_key, &open);
            let ext_key = cat2("extension:", n.as_str());
            let ext_path = classes_key_exec(n.as_str());
            push_record(&mut records, ext_key, "registry-key", ext_path);
            push_record(&mut records, mime_key.clone(), "registry-key", class_key.clone());
            assert(ev.take(e + 1).drop_last() =~= ev.take(e as int));
            assert(ev.take(e + 1).last() == ev[e as int]);
            assert(steps_view(steps@) =~= s0 + extensions_steps(ev.take(e + 1), class_key@, open@));
            assert(records_view(records@) =~= r0 + extensions_records(
                ev.take(e + 1),
                assoc@.mime_type,
                class_key@,
            ));
            e = e + 1;
        }
        assert(ev.take(ne as int) =~= ev);
        assert(asv.take(k + 1).drop_last() =~= asv.take(k as int));
        assert(asv.take(k + 1).last() == assoc@);
        assert(steps_view(steps@) =~= mid + associations_steps(asv.take(k + 1), class_key@, open@));
        assert(records_view(records@) =~= rec_mid + associations_records(asv.take(k + 1), class_key@));
        k = k + 1;
    }
    assert(asv.take(nassoc as int) =~= asv);
    let r = NativeRegistrationPlan { steps, records, warnings: Vec::new() };
    assert(r@.warnings =~= Seq::<Seq<char>>::empty());
    assert(r@.steps =~= spec.steps);
    assert(r@.records =~= spec.records);
    r
}

} // verus!
