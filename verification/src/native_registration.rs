//! Which native registration a GUI app gets on each host, from the app's
//! declaration, the install root and the host's home or application data
//! directory.
use vstd::prelude::*;

use crate::exposure::{assets_view, relative_path_check, validated_relative_binary_path, ExposureError};
use crate::gui_app::{
    lemma_projected_declarations_valid, projected_assets_spec, projected_gui_assets,
    ArtifactGuiApp,
};
use crate::native::{
    is_normal_component, macos_registration_source_path,
    macos_source_spec, path_components, project_macos_user_applications_dir,
};
use crate::native_gui::{
    linux_plan_spec, plan_linux_registration, plan_windows_registration, warn_prefix,
    windows_plan_spec, NativeRegistrationPlan, PlanView,
};
use crate::native_macos::MacosDestination;
use crate::paths::{join_path, path_join};
use crate::text::{chars_of, string_of_vec};
use crate::types::{GuiExposureAsset, HostPlatform, TripleView};

verus! {

/// Why a GUI app cannot be registered.
#[derive(Clone, Copy, Debug, PartialEq, Eq, Structural)]
pub enum NativeGuiError {
    /// The declared executable is not a relative path inside the install root.
    ExecPathInvalid(ExposureError),
    /// The app's assets do not project.
    Projection(ExposureError),
    /// The path macOS would register names no file.
    ExecutablePathInvalid,
}

/// How a GUI app is registered on the host.
#[derive(Clone, Debug, PartialEq, Eq)]
pub enum NativeRegistration {
    /// Steps to run (see `finish_native_registration`).
    Steps(NativeRegistrationPlan),
    /// A macOS registration of `source` in the system or the user
    /// applications directory (see `register_macos_native_gui_registration`).
    Macos {
        assets: Vec<GuiExposureAsset>,
        source: String,
        system: MacosDestination,
        user: MacosDestination,
    },
}

/// The executable a GUI app declares, under the install root (see
/// `relative_path_check`).
pub fn gui_app_source_path(platform: HostPlatform, install_root: &str, app: &ArtifactGuiApp) -> (r: Result<
    String,
    NativeGuiError,
>)
    ensures
        match r {
            Ok(s) => relative_path_check(platform, app@.executable) is Ok && s@ == path_join(
                install_root@,
                app@.executable,
            ),
            Err(e) => exists|x: ExposureError|
                relative_path_check(platform, app@.executable) == Err::<(), ExposureError>(x) && e
                    == NativeGuiError::ExecPathInvalid(x),
        },
{
    match validated_relative_binary_path(platform, app.executable.as_str()) {
        Err(e) => Err(NativeGuiError::ExecPathInvalid(e)),
        Ok(_) => Ok(join_path(install_root, app.executable.as_str())),
    }
}

/// The name of the file or directory a path ends in (`Path::file_name`).
pub open spec fn file_name_spec(p: Seq<char>) -> Option<Seq<char>> {
    let cs = path_components(p);
    if cs.len() > 0 && is_normal_component(cs.last()) {
        Some(cs.last())
    } else {
        None
    }
}

fn file_name(p: &str) -> (r: Option<String>)
    ensures
        match r {
            Some(s) => file_name_spec(p@) == Some(s@),
            None => file_name_spec(p@) is None,
        },
{
    let c = chars_of(p);
    let cs = crate::native::path_components_exec(c.as_slice());
    if cs.len() == 0 {
        return None;
    }
    let last = &cs[cs.len() - 1];
    if crate::native::component_is_normal(last.as_slice()) {
        Some(string_of_vec(last))
    } else {
        None
    }
}

pub struct DestinationView {
    pub applications_dir: Seq<char>,
    pub path: Seq<char>,
}

pub open spec fn destination_view(d: MacosDestination) -> DestinationView {
    DestinationView { applications_dir: d.applications_dir@, path: d.path@ }
}

/// What `plan_native_gui_registration` answers, as views.
pub enum RegistrationView {
    Steps(PlanView),
    Macos {
        assets: Seq<(Seq<char>, Seq<char>)>,
        source: Seq<char>,
        system: DestinationView,
        user: DestinationView,
    },
}

pub open spec fn registration_view(r: NativeRegistration) -> RegistrationView {
    match r {
        NativeRegistration::Steps(p) => RegistrationView::Steps(p@),
        NativeRegistration::Macos { assets, source, system, user } => RegistrationView::Macos {
            assets: assets_view(assets@),
            source: source@,
            system: destination_view(system),
            user: destination_view(user),
        },
    }
}

/// The registration of a GUI app whose executable `source` exists: its
/// assets must project; then Linux gets a desktop entry, Windows a Start
/// Menu launcher and registry classes, and macOS a link or bundle copy of
/// the app (or of the `.app` bundle it lies in) in `/Applications` or the
/// user's `Applications`. Without the home or application data directory
/// the host needs, nothing is registered and a warning says so.
pub open spec fn registration_spec(
    platform: HostPlatform,
    home: Option<Seq<char>>,
    appdata: Option<Seq<char>>,
    package_name: Seq<char>,
    app: crate::gui_app::GuiAppView,
    install_root: Seq<char>,
    source: Seq<char>,
) -> Result<RegistrationView, NativeGuiError> {
    match projected_assets_spec(platform, package_name, app) {
        Err(e) => Err(NativeGuiError::Projection(e)),
        Ok(assets) => match platform {
            HostPlatform::Linux => Ok(
                RegistrationView::Steps(linux_plan_spec(home, package_name, app, source, assets)),
            ),
            HostPlatform::Windows => Ok(
                RegistrationView::Steps(windows_plan_spec(appdata, package_name, app, source, assets)),
            ),
            HostPlatform::Macos => match home {
                None => Ok(
                    RegistrationView::Steps(
                        PlanView {
                            steps: Seq::empty(),
                            records: Seq::empty(),
                            warnings: seq![
                                warn_prefix()
                                    + "HOME is not set; skipped macOS GUI registration"@,
                            ],
                        },
                    ),
                ),
                Some(h) => {
                    let reg = macos_source_spec(install_root, source);
                    match file_name_spec(reg) {
                        None => Err(NativeGuiError::ExecutablePathInvalid),
                        Some(name) => Ok(
                            RegistrationView::Macos {
                                assets,
                                source: reg,
                                system: DestinationView {
                                    applications_dir: "/Applications"@,
                                    path: path_join("/Applications"@, name),
                                },
                                user: DestinationView {
                                    applications_dir: path_join(h, "Applications"@),
                                    path: path_join(path_join(h, "Applications"@), name),
                                },
                            },
                        ),
                    }
                },
            },
        },
    }
}

pub open spec fn opt_view(o: Option<&str>) -> Option<Seq<char>> {
    match o {
        Some(s) => Some(s@),
        None => None,
    }
}

/// Plans registering a GUI app on `platform` (see `registration_spec`);
/// `source_path` is the executable under `install_root` that the caller
/// found to exist.
pub fn plan_native_gui_registration(
    platform: HostPlatform,
    home: Option<&str>,
    appdata: Option<&str>,
    package_name: &str,
    app: &ArtifactGuiApp,
    install_root: &str,
    source_path: &str,
) -> (r: Result<NativeRegistration, NativeGuiError>)
    ensures
        match r {
            Ok(x) => registration_spec(
                platform,
                opt_view(home),
                opt_view(appdata),
                package_name@,
                app@,
                install_root@,
                source_path@,
            ) == Ok::<RegistrationView, NativeGuiError>(registration_view(x)),
            Err(e) => registration_spec(
                platform,
                opt_view(home),
                opt_view(appdata),
                package_name@,
                app@,
                install_root@,
                source_path@,
            ) == Err::<RegistrationView, NativeGuiError>(e),
        },
{
    let assets = match projected_gui_assets(platform, package_name, app) {
        Ok(a) => a,
        Err(e) => {
            return Err(NativeGuiError::Projection(e));
        },
    };
    match platform {
        HostPlatform::Linux => Ok(
            NativeRegistration::Steps(
                plan_linux_registration(home, package_name, app, source_path, &assets),
            ),
        ),
        HostPlatform::Windows => {
            proof {
                lemma_projected_declarations_valid(platform, package_name@, app@);
            }
            Ok(
                NativeRegistration::Steps(
                    plan_windows_registration(appdata, package_name, app, source_path, &assets),
                ),
            )
        },
        HostPlatform::Macos => {
            let h = match home {
                None => {
                    let mut v: Vec<char> = Vec::new();
                    crate::text::extend_str(&mut v, "native GUI registration warning: ");
                    crate::text::extend_str(&mut v, "HOME is not set; skipped macOS GUI registration");
                    proof {
                        reveal_strlit("native GUI registration warning: ");
                    }
                    let mut w: Vec<String> = Vec::new();
                    w.push(string_of_vec(&v));
                    let p = NativeRegistrationPlan { steps: Vec::new(), records: Vec::new(), warnings: w };
                    assert(p@.steps =~= Seq::<crate::native_gui::StepView>::empty());
                    assert(p@.records =~= Seq::<TripleView>::empty());
                    assert(p@.warnings =~= seq![warn_prefix() + "HOME is not set; skipped macOS GUI registration"@]);
                    return Ok(NativeRegistration::Steps(p));
                },
                Some(h) => h,
            };
            let reg = macos_registration_source_path(install_root, source_path);
            let name = match file_name(reg.as_str()) {
                None => {
                    return Err(NativeGuiError::ExecutablePathInvalid);
                },
                Some(n) => n,
            };
            let user_dir = project_macos_user_applications_dir(h);
            let system = MacosDestination {
                applications_dir: String::from_str("/Applications"),
                path: join_path("/Applications", name.as_str()),
            };
            let user_path = join_path(user_dir.as_str(), name.as_str());
            let user = MacosDestination { applications_dir: user_dir, path: user_path };
            Ok(NativeRegistration::Macos { assets, source: reg, system, user })
        },
    }
}

} // verus!
