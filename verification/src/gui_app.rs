//! GUI applications a package declares: the prefix-owned assets they project
//! (a launcher and a handler, with one ownership key per app, protocol, MIME
//! type and file extension), and the launcher and handler text written for
//! them.
use vstd::prelude::*;

use crate::exposure::{
    asset_view, assets_view, extension_spec, normalize_gui_token, normalize_token_spec,
    normalized_extension, normalized_protocol_scheme, protocol_scheme_spec, relative_path_check,
    validated_relative_binary_path, ExposureError,
};
use crate::activation_plan::join_with;
use crate::exposure::{desktop_list_token_spec, sanitize_desktop_list_token, sanitize_gui_metadata_value, sanitize_metadata_spec};
use crate::native::{is_app_bundle_name, is_normal_component, path_components};
use crate::text::{chars_of, extend_chars, extend_str, lower_seq, str_eq, string_of_vec, to_lower, trim, trim_chars};
use crate::layout::PrefixLayout;
use crate::paths::{join_path, join_path_on_host, path_join, path_join_on_host};
use crate::types::{GuiExposureAsset, HostPlatform};

verus! {

/// A URL scheme a GUI app handles.
#[derive(Clone, Debug, PartialEq, Eq)]
pub struct ArtifactGuiProtocol {
    pub scheme: String,
}

/// A MIME type a GUI app opens, with the file extensions that map to it.
#[derive(Clone, Debug, PartialEq, Eq)]
pub struct ArtifactGuiFileAssociation {
    pub mime_type: String,
    pub extensions: Vec<String>,
}

/// A GUI application declared by a package artifact.
#[derive(Clone, Debug, PartialEq, Eq)]
pub struct ArtifactGuiApp {
    pub app_id: String,
    pub display_name: String,
    /// The executable, relative to the install root.
    pub executable: String,
    pub icon: Option<String>,
    pub categories: Vec<String>,
    pub file_associations: Vec<ArtifactGuiFileAssociation>,
    pub protocols: Vec<ArtifactGuiProtocol>,
}

pub struct AssocView {
    pub mime_type: Seq<char>,
    pub extensions: Seq<Seq<char>>,
}

pub struct GuiAppView {
    pub app_id: Seq<char>,
    pub display_name: Seq<char>,
    pub executable: Seq<char>,
    pub icon: Option<Seq<char>>,
    pub categories: Seq<Seq<char>>,
    pub associations: Seq<AssocView>,
    pub protocols: Seq<Seq<char>>,
}

pub open spec fn strings_view(v: Seq<String>) -> Seq<Seq<char>> {
    v.map_values(|s: String| s@)
}

impl View for ArtifactGuiFileAssociation {
    type V = AssocView;

    open spec fn view(&self) -> AssocView {
        AssocView { mime_type: self.mime_type@, extensions: strings_view(self.extensions@) }
    }
}

impl View for ArtifactGuiApp {
    type V = GuiAppView;

    open spec fn view(&self) -> GuiAppView {
        GuiAppView {
            app_id: self.app_id@,
            display_name: self.display_name@,
            executable: self.executable@,
            icon: match self.icon {
                Some(i) => Some(i@),
                None => None,
            },
            categories: strings_view(self.categories@),
            associations: self.file_associations@.map_values(
                |a: ArtifactGuiFileAssociation| a@,
            ),
            protocols: self.protocols@.map_values(|p: ArtifactGuiProtocol| p.scheme@),
        }
    }
}

// ---------------------------------------------------------------------------
// projected assets

/// The launcher's file extension on each host.
pub open spec fn launcher_extension_spec(platform: HostPlatform) -> Seq<char> {
    match platform {
        HostPlatform::Windows => "cmd"@,
        HostPlatform::Linux => "desktop"@,
        HostPlatform::Macos => "command"@,
    }
}

fn launcher_extension(platform: HostPlatform) -> (r: &'static str)
    ensures
        r@ == launcher_extension_spec(platform),
{
    match platform {
        HostPlatform::Windows => "cmd",
        HostPlatform::Linux => "desktop",
        HostPlatform::Macos => "command",
    }
}

/// `<package token>--<app token>`.
pub open spec fn app_stem(package_name: Seq<char>, app_id: Seq<char>) -> Seq<char> {
    normalize_token_spec(package_name) + "--"@ + normalize_token_spec(app_id)
}

/// `launchers/<stem>.<launcher extension>`.
pub open spec fn launcher_rel_spec(
    platform: HostPlatform,
    package_name: Seq<char>,
    app_id: Seq<char>,
) -> Seq<char> {
    "launchers/"@ + app_stem(package_name, app_id) + "."@ + launcher_extension_spec(platform)
}

/// `handlers/<stem>.meta`.
pub open spec fn handler_rel_spec(package_name: Seq<char>, app_id: Seq<char>) -> Seq<char> {
    "handlers/"@ + app_stem(package_name, app_id) + ".meta"@
}

/// An ownership key and the asset it owns, or why the declaration is refused.
pub type AssetEntry = Result<(Seq<char>, Seq<char>), ExposureError>;

pub open spec fn protocol_entry(scheme: Seq<char>, handler_rel: Seq<char>) -> AssetEntry {
    match protocol_scheme_spec(scheme) {
        Ok(s) => Ok(("protocol:"@ + s, handler_rel)),
        Err(e) => Err(e),
    }
}

pub open spec fn mime_entry(mime_type: Seq<char>, handler_rel: Seq<char>) -> AssetEntry {
    let t = lower_seq(trim(mime_type));
    if t.len() == 0 {
        Err(ExposureError::GuiMimeEmpty)
    } else {
        Ok(("mime:"@ + t, handler_rel))
    }
}

pub open spec fn extension_entry(extension: Seq<char>, handler_rel: Seq<char>) -> AssetEntry {
    match extension_spec(extension) {
        Ok(n) => Ok(("extension:"@ + n, handler_rel)),
        Err(e) => Err(e),
    }
}

pub open spec fn association_entries(a: AssocView, handler_rel: Seq<char>) -> Seq<AssetEntry> {
    seq![mime_entry(a.mime_type, handler_rel)] + a.extensions.map_values(
        |e: Seq<char>| extension_entry(e, handler_rel),
    )
}

pub open spec fn associations_entries(
    assocs: Seq<AssocView>,
    handler_rel: Seq<char>,
) -> Seq<AssetEntry>
    decreases assocs.len(),
{
    if assocs.len() == 0 {
        Seq::empty()
    } else {
        associations_entries(assocs.drop_last(), handler_rel) + association_entries(
            assocs.last(),
            handler_rel,
        )
    }
}

/// The ownership keys of an app, in declaration order: the app, its
/// handler, each protocol, then each MIME type followed by its extensions.
pub open spec fn gui_entries(
    app: GuiAppView,
    launcher_rel: Seq<char>,
    handler_rel: Seq<char>,
) -> Seq<AssetEntry> {
    let id = lower_seq(trim(app.app_id));
    seq![
        Ok::<(Seq<char>, Seq<char>), ExposureError>(("app:"@ + id, launcher_rel)),
        Ok::<(Seq<char>, Seq<char>), ExposureError>(("handler:"@ + id, handler_rel)),
    ] + app.protocols.map_values(|p: Seq<char>| protocol_entry(p, handler_rel))
        + associations_entries(app.associations, handler_rel)
}

pub open spec fn keys_of(acc: Seq<(Seq<char>, Seq<char>)>) -> Seq<Seq<char>> {
    acc.map_values(|a: (Seq<char>, Seq<char>)| a.0)
}

/// The assets of the entries, in order; the first refused entry, or the
/// first key declared twice, refuses the whole app.
pub open spec fn collect_assets(es: Seq<AssetEntry>) -> Result<
    Seq<(Seq<char>, Seq<char>)>,
    ExposureError,
>
    decreases es.len(),
{
    if es.len() == 0 {
        Ok(Seq::empty())
    } else {
        match collect_assets(es.drop_last()) {
            Err(e) => Err(e),
            Ok(acc) => match es.last() {
                Err(e) => Err(e),
                Ok(kr) => if keys_of(acc).contains(kr.0) {
                    Err(ExposureError::DuplicateGuiKey)
                } else {
                    Ok(acc.push(kr))
                },
            },
        }
    }
}

/// The prefix-owned assets of a GUI app: its id and display name must not
/// be blank and its executable must be a relative path; then the assets of
/// its ownership keys (see `gui_entries`, `collect_assets`).
pub open spec fn projected_assets_spec(
    platform: HostPlatform,
    package_name: Seq<char>,
    app: GuiAppView,
) -> Result<Seq<(Seq<char>, Seq<char>)>, ExposureError> {
    if trim(app.app_id).len() == 0 {
        Err(ExposureError::GuiAppIdEmpty)
    } else if trim(app.display_name).len() == 0 {
        Err(ExposureError::GuiDisplayNameEmpty)
    } else {
        match relative_path_check(platform, app.executable) {
            Err(e) => Err(e),
            Ok(_) => collect_assets(
                gui_entries(
                    app,
                    launcher_rel_spec(platform, package_name, app.app_id),
                    handler_rel_spec(package_name, app.app_id),
                ),
            ),
        }
    }
}

pub open spec fn entry_view(e: Result<(String, String), ExposureError>) -> AssetEntry {
    match e {
        Ok((k, p)) => Ok((k@, p@)),
        Err(x) => Err(x),
    }
}

pub open spec fn entries_view(v: Seq<Result<(String, String), ExposureError>>) -> Seq<AssetEntry> {
    v.map_values(|e: Result<(String, String), ExposureError>| entry_view(e))
}

/// `a + b` as a `String`.
fn concat2(a: &str, b: &str) -> (r: String)
    ensures
        r@ == a@ + b@,
{
    let mut v: Vec<char> = Vec::new();
    extend_str(&mut v, a);
    extend_str(&mut v, b);
    string_of_vec(&v)
}

fn lower_trimmed(s: &str) -> (r: Vec<char>)
    ensures
        r@ == lower_seq(trim(s@)),
{
    let c = chars_of(s);
    let t = trim_chars(c.as_slice());
    to_lower(t.as_slice())
}

fn push_entry(
    entries: &mut Vec<Result<(String, String), ExposureError>>,
    e: Result<(String, String), ExposureError>,
)
    ensures
        entries_view(final(entries)@) == entries_view(old(entries)@).push(entry_view(e)),
{
    let ghost before = entries@;
    entries.push(e);
    assert(entries_view(entries@) =~= entries_view(before).push(entry_view(e)));
}

fn protocol_entry_exec(scheme: &str, handler_rel: &String) -> (r: Result<(String, String), ExposureError>)
    ensures
        entry_view(r) == protocol_entry(scheme@, handler_rel@),
{
    match normalized_protocol_scheme(scheme) {
        Ok(s) => Ok((concat2("protocol:", s.as_str()), handler_rel.clone())),
        Err(e) => Err(e),
    }
}

fn mime_entry_exec(mime_type: &str, handler_rel: &String) -> (r: Result<(String, String), ExposureError>)
    ensures
        entry_view(r) == mime_entry(mime_type@, handler_rel@),
{
    let t = lower_trimmed(mime_type);
    if t.len() == 0 {
        Err(ExposureError::GuiMimeEmpty)
    } else {
        let t = string_of_vec(&t);
        Ok((concat2("mime:", t.as_str()), handler_rel.clone()))
    }
}

fn extension_entry_exec(extension: &str, handler_rel: &String) -> (r: Result<
    (String, String),
    ExposureError,
>)
    ensures
        entry_view(r) == extension_entry(extension@, handler_rel@),
{
    match normalized_extension(extension) {
        Ok(n) => Ok((concat2("extension:", n.as_str()), handler_rel.clone())),
        Err(e) => Err(e),
    }
}

fn gui_entries_exec(app: &ArtifactGuiApp, launcher_rel: &String, handler_rel: &String) -> (r: Vec<
    Result<(String, String), ExposureError>,
>)
    ensures
        entries_view(r@) == gui_entries(app@, launcher_rel@, handler_rel@),
{
    let id = string_of_vec(&lower_trimmed(app.app_id.as_str()));
    let mut r: Vec<Result<(String, String), ExposureError>> = Vec::new();
    push_entry(&mut r, Ok((concat2("app:", id.as_str()), launcher_rel.clone())));
    push_entry(&mut r, Ok((concat2("handler:", id.as_str()), handler_rel.clone())));
    let ghost head = entries_view(r@);
    let ghost hv = handler_rel@;
    let np = app.protocols.len();
    let mut i: usize = 0;
    while i < np
        invariant
            np == app.protocols@.len(),
            i <= np,
            hv == handler_rel@,
            entries_view(r@) == head + app@.protocols.take(i as int).map_values(
                |p: Seq<char>| protocol_entry(p, hv),
            ),
        decreases np - i,
    {
        let e = protocol_entry_exec(app.protocols[i].scheme.as_str(), handler_rel);
        push_entry(&mut r, e);
        assert(app@.protocols.take(i + 1) =~= app@.protocols.take(i as int).push(
            app@.protocols[i as int],
        ));
        assert(app@.protocols.take(i + 1).map_values(|p: Seq<char>| protocol_entry(p, hv))
            =~= app@.protocols.take(i as int).map_values(|p: Seq<char>| protocol_entry(p, hv)).push(
            protocol_entry(app@.protocols[i as int], hv),
        ));
        i = i + 1;
    }
    assert(app@.protocols.take(np as int) =~= app@.protocols);
    let ghost mid = entries_view(r@);
    let na = app.file_associations.len();
    let mut j: usize = 0;
    while j < na
        invariant
            na == app.file_associations@.len(),
            j <= na,
            hv == handler_rel@,
            entries_view(r@) == mid + associations_entries(
                app@.associations.take(j as int),
                hv,
            ),
        decreases na - j,
    {
        let assoc = &app.file_associations[j];
        let ghost before = entries_view(r@);
        let m = mime_entry_exec(assoc.mime_type.as_str(), handler_rel);
        push_entry(&mut r, m);
        let ne = assoc.extensions.len();
        let mut k: usize = 0;
        while k < ne
            invariant
                ne == assoc.extensions@.len(),
                k <= ne,
                hv == handler_rel@,
                entries_view(r@) == before + seq![mime_entry(assoc@.mime_type, hv)]
                    + assoc@.extensions.take(k as int).map_values(
                    |e: Seq<char>| extension_entry(e, hv),
                ),
            decreases ne - k,
        {
            let x = extension_entry_exec(assoc.extensions[k].as_str(), handler_rel);
            push_entry(&mut r, x);
            assert(assoc@.extensions.take(k + 1) =~= assoc@.extensions.take(k as int).push(
                assoc@.extensions[k as int],
            ));
            assert(assoc@.extensions.take(k + 1).map_values(|e: Seq<char>| extension_entry(e, hv))
                =~= assoc@.extensions.take(k as int).map_values(
                |e: Seq<char>| extension_entry(e, hv),
            ).push(extension_entry(assoc@.extensions[k as int], hv)));
            k = k + 1;
        }
        assert(assoc@.extensions.take(ne as int) =~= assoc@.extensions);
        assert(app@.associations[j as int] == assoc@);
        assert(app@.associations.take(j + 1).drop_last() =~= app@.associations.take(j as int));
        assert(app@.associations.take(j + 1).last() == assoc@);
        assert(entries_view(r@) =~= mid + associations_entries(app@.associations.take(j + 1), hv));
        j = j + 1;
    }
    assert(app@.associations.take(na as int) =~= app@.associations);
    assert(entries_view(r@) =~= gui_entries(app@, launcher_rel@, handler_rel@));
    r
}

/// Once the entries seen so far are refused, the whole app is.
proof fn lemma_collect_err_sticks(es: Seq<AssetEntry>, i: int, e: ExposureError)
    requires
        0 <= i <= es.len(),
        collect_assets(es.take(i)) == Err::<Seq<(Seq<char>, Seq<char>)>, ExposureError>(e),
    ensures
        collect_assets(es) == Err::<Seq<(Seq<char>, Seq<char>)>, ExposureError>(e),
    decreases es.len() - i,
{
    if i < es.len() {
        assert(es.take(i + 1).drop_last() =~= es.take(i));
        lemma_collect_err_sticks(es, i + 1, e);
    } else {
        assert(es.take(i) =~= es);
    }
}

fn key_taken(assets: &Vec<GuiExposureAsset>, key: &String) -> (r: bool)
    ensures
        r == keys_of(assets_view(assets@)).contains(key@),
{
    let n = assets.len();
    let mut i: usize = 0;
    while i < n
        invariant
            n == assets@.len(),
            i <= n,
            forall|k: int| 0 <= k < i ==> keys_of(assets_view(assets@))[k] != key@,
        decreases n - i,
    {
        if str_eq(assets[i].key.as_str(), key.as_str()) {
            assert(keys_of(assets_view(assets@))[i as int] == key@);
            return true;
        }
        i = i + 1;
    }
    false
}

fn collect_assets_exec(entries: Vec<Result<(String, String), ExposureError>>) -> (r: Result<
    Vec<GuiExposureAsset>,
    ExposureError,
>)
    ensures
        match r {
            Ok(v) => collect_assets(entries_view(entries@)) == Ok::<
                Seq<(Seq<char>, Seq<char>)>,
                ExposureError,
            >(assets_view(v@)),
            Err(e) => collect_assets(entries_view(entries@)) == Err::<
                Seq<(Seq<char>, Seq<char>)>,
                ExposureError,
            >(e),
        },
{
    let ghost ev = entries_view(entries@);
    let n = entries.len();
    let mut assets: Vec<GuiExposureAsset> = Vec::new();
    let mut i: usize = 0;
    assert(ev.take(0) =~= Seq::<AssetEntry>::empty());
    assert(assets_view(assets@) =~= Seq::<(Seq<char>, Seq<char>)>::empty());
    while i < n
        invariant
            n == entries@.len(),
            ev == entries_view(entries@),
            i <= n,
            collect_assets(ev.take(i as int)) == Ok::<Seq<(Seq<char>, Seq<char>)>, ExposureError>(
                assets_view(assets@),
            ),
        decreases n - i,
    {
        assert(ev.take(i + 1).drop_last() =~= ev.take(i as int));
        assert(ev.take(i + 1).last() == entry_view(entries@[i as int]));
        match &entries[i] {
            Err(e) => {
                proof {
                    lemma_collect_err_sticks(ev, i + 1, *e);
                }
                return Err(*e);
            },
            Ok((k, p)) => {
                if key_taken(&assets, k) {
                    proof {
                        lemma_collect_err_sticks(ev, i + 1, ExposureError::DuplicateGuiKey);
                    }
                    return Err(ExposureError::DuplicateGuiKey);
                }
                let ghost before = assets@;
                assets.push(GuiExposureAsset { key: k.clone(), rel_path: p.clone() });
                assert(assets_view(assets@) =~= assets_view(before).push((k@, p@)));
            },
        }
        i = i + 1;
    }
    assert(ev.take(n as int) =~= ev);
    Ok(assets)
}

/// The prefix-owned assets a GUI app projects (see `projected_assets_spec`).
pub fn projected_gui_assets(
    platform: HostPlatform,
    package_name: &str,
    app: &ArtifactGuiApp,
) -> (r: Result<Vec<GuiExposureAsset>, ExposureError>)
    ensures
        match r {
            Ok(v) => projected_assets_spec(platform, package_name@, app@) == Ok::<
                Seq<(Seq<char>, Seq<char>)>,
                ExposureError,
            >(assets_view(v@)),
            Err(e) => projected_assets_spec(platform, package_name@, app@) == Err::<
                Seq<(Seq<char>, Seq<char>)>,
                ExposureError,
            >(e),
        },
{
    let id = trim_chars(chars_of(app.app_id.as_str()).as_slice());
    if id.len() == 0 {
        return Err(ExposureError::GuiAppIdEmpty);
    }
    let dn = trim_chars(chars_of(app.display_name.as_str()).as_slice());
    if dn.len() == 0 {
        return Err(ExposureError::GuiDisplayNameEmpty);
    }
    match validated_relative_binary_path(platform, app.executable.as_str()) {
        Err(e) => {
            return Err(e);
        },
        Ok(_) => {},
    }
    let stem = app_stem_exec(package_name, app.app_id.as_str());
    let mut lv: Vec<char> = Vec::new();
    extend_str(&mut lv, "launchers/");
    extend_str(&mut lv, stem.as_str());
    extend_str(&mut lv, ".");
    extend_str(&mut lv, launcher_extension(platform));
    let launcher_rel = string_of_vec(&lv);
    let mut hv: Vec<char> = Vec::new();
    extend_str(&mut hv, "handlers/");
    extend_str(&mut hv, stem.as_str());
    extend_str(&mut hv, ".meta");
    let handler_rel = string_of_vec(&hv);
    let entries = gui_entries_exec(app, &launcher_rel, &handler_rel);
    collect_assets_exec(entries)
}

fn app_stem_exec(package_name: &str, app_id: &str) -> (r: String)
    ensures
        r@ == app_stem(package_name@, app_id@),
{
    let p = normalize_gui_token(package_name);
    let a = normalize_gui_token(app_id);
    let mut v: Vec<char> = Vec::new();
    extend_str(&mut v, p.as_str());
    extend_str(&mut v, "--");
    extend_str(&mut v, a.as_str());
    string_of_vec(&v)
}


// ---------------------------------------------------------------------------
// launchers and handler metadata

/// The desktop-entry list items of `vs`: each sanitised as a Linux list
/// token, blank ones dropped.
pub open spec fn desktop_tokens(vs: Seq<Seq<char>>) -> Seq<Seq<char>>
    decreases vs.len(),
{
    if vs.len() == 0 {
        Seq::empty()
    } else {
        let rest = desktop_tokens(vs.drop_last());
        let t = desktop_list_token_spec(HostPlatform::Linux, vs.last());
        if t.len() == 0 {
            rest
        } else {
            rest.push(t)
        }
    }
}

/// The MIME types a desktop entry lists: the associations' types, then one
/// `x-scheme-handler/<scheme>` per protocol.
pub open spec fn desktop_mime_items(app: GuiAppView) -> Seq<Seq<char>> {
    desktop_tokens(app.associations.map_values(|a: AssocView| a.mime_type))
        + app.protocols.map_values(
        |p: Seq<char>| "x-scheme-handler/"@ + desktop_list_token_spec(HostPlatform::Linux, p),
    )
}

/// `<key>=<items joined by ;>;` and a line break, or nothing without items.
pub open spec fn desktop_list_line(key: Seq<char>, items: Seq<Seq<char>>) -> Seq<char> {
    if items.len() > 0 {
        key + "="@ + join_with(items, ';') + ";\n"@
    } else {
        Seq::empty()
    }
}

/// The Linux desktop entry that launches `source`.
pub open spec fn desktop_entry_spec(app: GuiAppView, source: Seq<char>) -> Seq<char> {
    "[Desktop Entry]\nType=Application\nName="@ + sanitize_metadata_spec(app.display_name)
        + "\nExec=\""@ + source + "\" %U\n"@ + match app.icon {
        Some(i) => "Icon="@ + sanitize_metadata_spec(i) + "\n"@,
        None => Seq::<char>::empty(),
    } + desktop_list_line("Categories"@, desktop_tokens(app.categories)) + desktop_list_line(
        "MimeType"@,
        desktop_mime_items(app),
    )
}

/// A path whose last component names an app bundle (`Path::extension` is
/// `app` in any case).
pub open spec fn is_app_bundle_path(p: Seq<char>) -> bool {
    let cs = path_components(p);
    cs.len() > 0 && is_normal_component(cs.last()) && is_app_bundle_name(cs.last())
}

/// The launcher written into the prefix for a GUI app on each host: a
/// `.cmd` script on Windows, a desktop entry on Linux, and on macOS a shell
/// script that opens an app bundle or runs the executable.
pub open spec fn launcher_spec(platform: HostPlatform, app: GuiAppView, source: Seq<char>) -> Seq<char> {
    let name = sanitize_metadata_spec(app.display_name);
    match platform {
        HostPlatform::Windows => "@echo off\r\nREM "@ + name + "\r\n\""@ + source + "\" %*\r\n"@,
        HostPlatform::Linux => desktop_entry_spec(app, source),
        HostPlatform::Macos => if is_app_bundle_path(source) {
            "#!/bin/sh\n# "@ + name + "\nopen -a \""@ + source + "\" --args \"$@\"\n"@
        } else {
            "#!/bin/sh\n# "@ + name + "\nexec \""@ + source + "\" \"$@\"\n"@
        },
    }
}

pub open spec fn items_view(v: Seq<Vec<char>>) -> Seq<Seq<char>> {
    v.map_values(|x: Vec<char>| x@)
}

fn push_item(items: &mut Vec<Vec<char>>, x: Vec<char>)
    ensures
        items_view(final(items)@) == items_view(old(items)@).push(x@),
{
    let ghost before = items@;
    items.push(x);
    assert(items_view(items@) =~= items_view(before).push(x@));
}

fn desktop_token_chars(value: &str) -> (r: Vec<char>)
    ensures
        r@ == desktop_list_token_spec(HostPlatform::Linux, value@),
{
    let t = sanitize_desktop_list_token(HostPlatform::Linux, value);
    chars_of(t.as_str())
}

fn desktop_category_items(categories: &Vec<String>) -> (r: Vec<Vec<char>>)
    ensures
        items_view(r@) == desktop_tokens(strings_view(categories@)),
{
    let ghost vs = strings_view(categories@);
    let n = categories.len();
    let mut r: Vec<Vec<char>> = Vec::new();
    let mut i: usize = 0;
    assert(vs.take(0) =~= Seq::<Seq<char>>::empty());
    while i < n
        invariant
            n == categories@.len(),
            vs == strings_view(categories@),
            i <= n,
            items_view(r@) == desktop_tokens(vs.take(i as int)),
        decreases n - i,
    {
        let t = desktop_token_chars(categories[i].as_str());
        assert(vs.take(i + 1).drop_last() =~= vs.take(i as int));
        assert(vs.take(i + 1).last() == categories@[i as int]@);
        if t.len() > 0 {
            push_item(&mut r, t);
        }
        i = i + 1;
    }
    assert(vs.take(n as int) =~= vs);
    r
}

fn desktop_mime_items_exec(app: &ArtifactGuiApp) -> (r: Vec<Vec<char>>)
    ensures
        items_view(r@) == desktop_mime_items(app@),
{
    let ghost ms = app@.associations.map_values(|a: AssocView| a.mime_type);
    let n = app.file_associations.len();
    let mut r: Vec<Vec<char>> = Vec::new();
    let mut i: usize = 0;
    assert(ms.take(0) =~= Seq::<Seq<char>>::empty());
    while i < n
        invariant
            n == app.file_associations@.len(),
            ms == app@.associations.map_values(|a: AssocView| a.mime_type),
            i <= n,
            items_view(r@) == desktop_tokens(ms.take(i as int)),
        decreases n - i,
    {
        let t = desktop_token_chars(app.file_associations[i].mime_type.as_str());
        assert(ms.take(i + 1).drop_last() =~= ms.take(i as int));
        assert(ms.take(i + 1).last() == app.file_associations@[i as int].mime_type@);
        if t.len() > 0 {
            push_item(&mut r, t);
        }
        i = i + 1;
    }
    assert(ms.take(n as int) =~= ms);
    let ghost head = items_view(r@);
    let np = app.protocols.len();
    let mut j: usize = 0;
    while j < np
        invariant
            np == app.protocols@.len(),
            j <= np,
            items_view(r@) == head + app@.protocols.take(j as int).map_values(
                |p: Seq<char>| "x-scheme-handler/"@ + desktop_list_token_spec(HostPlatform::Linux, p),
            ),
        decreases np - j,
    {
        let mut x: Vec<char> = Vec::new();
        extend_str(&mut x, "x-scheme-handler/");
        let t = desktop_token_chars(app.protocols[j].scheme.as_str());
        extend_chars(&mut x, t.as_slice());
        push_item(&mut r, x);
        assert(app@.protocols.take(j + 1) =~= app@.protocols.take(j as int).push(
            app@.protocols[j as int],
        ));
        assert(app@.protocols.take(j + 1).map_values(
            |p: Seq<char>| "x-scheme-handler/"@ + desktop_list_token_spec(HostPlatform::Linux, p),
        ) =~= app@.protocols.take(j as int).map_values(
            |p: Seq<char>| "x-scheme-handler/"@ + desktop_list_token_spec(HostPlatform::Linux, p),
        ).push("x-scheme-handler/"@ + desktop_list_token_spec(HostPlatform::Linux, app@.protocols[j as int])));
        j = j + 1;
    }
    assert(app@.protocols.take(np as int) =~= app@.protocols);
    r
}

pub(crate) fn join_items(items: &Vec<Vec<char>>, sep: char) -> (r: Vec<char>)
    ensures
        r@ == join_with(items_view(items@), sep),
{
    let ghost iv = items_view(items@);
    let n = items.len();
    let mut r: Vec<char> = Vec::new();
    let mut i: usize = 0;
    assert(iv.take(0) =~= Seq::<Seq<char>>::empty());
    while i < n
        invariant
            n == items@.len(),
            iv == items_view(items@),
            i <= n,
            r@ == join_with(iv.take(i as int), sep),
        decreases n - i,
    {
        proof {
            crate::activation_plan::lemma_join_with_push(iv.take(i as int), iv[i as int], sep);
            assert(iv.take(i + 1) =~= iv.take(i as int).push(iv[i as int]));
        }
        if i > 0 {
            r.push(sep);
        }
        extend_chars(&mut r, items[i].as_slice());
        i = i + 1;
    }
    assert(iv.take(n as int) =~= iv);
    r
}

fn push_list_line(out: &mut Vec<char>, key: &str, items: &Vec<Vec<char>>)
    ensures
        final(out)@ == old(out)@ + desktop_list_line(key@, items_view(items@)),
{
    if items.len() > 0 {
        extend_str(out, key);
        extend_str(out, "=");
        let j = join_items(items, ';');
        extend_chars(out, j.as_slice());
        extend_str(out, ";\n");
    } else {
        assert(old(out)@ + Seq::<char>::empty() =~= old(out)@);
    }
}

/// The Linux desktop entry that launches `source_path` (see
/// `desktop_entry_spec`).
pub fn render_linux_native_desktop_entry(app: &ArtifactGuiApp, source_path: &str) -> (r: String)
    ensures
        r@ == desktop_entry_spec(app@, source_path@),
{
    let mut out: Vec<char> = Vec::new();
    extend_str(&mut out, "[Desktop Entry]\nType=Application\nName=");
    let name = sanitize_gui_metadata_value(app.display_name.as_str());
    extend_str(&mut out, name.as_str());
    extend_str(&mut out, "\nExec=\"");
    extend_str(&mut out, source_path);
    extend_str(&mut out, "\" %U\n");
    let ghost head = out@;
    match &app.icon {
        Some(i) => {
            extend_str(&mut out, "Icon=");
            let s = sanitize_gui_metadata_value(i.as_str());
            extend_str(&mut out, s.as_str());
            extend_str(&mut out, "\n");
        },
        None => {
            assert(head + Seq::<char>::empty() =~= head);
        },
    }
    let cats = desktop_category_items(&app.categories);
    push_list_line(&mut out, "Categories", &cats);
    let mimes = desktop_mime_items_exec(app);
    push_list_line(&mut out, "MimeType", &mimes);
    assert(out@ =~= desktop_entry_spec(app@, source_path@));
    string_of_vec(&out)
}

pub(crate) fn is_app_bundle_path_exec(p: &str) -> (r: bool)
    ensures
        r == is_app_bundle_path(p@),
{
    let c = chars_of(p);
    let cs = crate::native::path_components_exec(c.as_slice());
    if cs.len() == 0 {
        return false;
    }
    let last = &cs[cs.len() - 1];
    crate::native::component_is_normal(last.as_slice()) && crate::native::is_app_bundle_exec(
        last.as_slice(),
    )
}

/// The launcher written into the prefix for a GUI app (see
/// `launcher_spec`).
pub fn render_gui_launcher(platform: HostPlatform, app: &ArtifactGuiApp, source_path: &str) -> (r: String)
    ensures
        r@ == launcher_spec(platform, app@, source_path@),
{
    match platform {
        HostPlatform::Linux => render_linux_native_desktop_entry(app, source_path),
        HostPlatform::Windows => {
            let mut out: Vec<char> = Vec::new();
            extend_str(&mut out, "@echo off\r\nREM ");
            let name = sanitize_gui_metadata_value(app.display_name.as_str());
            extend_str(&mut out, name.as_str());
            extend_str(&mut out, "\r\n\"");
            extend_str(&mut out, source_path);
            extend_str(&mut out, "\" %*\r\n");
            string_of_vec(&out)
        },
        HostPlatform::Macos => {
            let mut out: Vec<char> = Vec::new();
            extend_str(&mut out, "#!/bin/sh\n# ");
            let name = sanitize_gui_metadata_value(app.display_name.as_str());
            extend_str(&mut out, name.as_str());
            if is_app_bundle_path_exec(source_path) {
                extend_str(&mut out, "\nopen -a \"");
                extend_str(&mut out, source_path);
                extend_str(&mut out, "\" --args \"$@\"\n");
            } else {
                extend_str(&mut out, "\nexec \"");
                extend_str(&mut out, source_path);
                extend_str(&mut out, "\" \"$@\"\n");
            }
            string_of_vec(&out)
        },
    }
}


/// One handler metadata row: `<key>=<value on one line>`.
pub open spec fn meta_row(key: Seq<char>, v: Seq<char>) -> Seq<char> {
    key + "="@ + sanitize_metadata_spec(v) + "\n"@
}

pub open spec fn meta_rows(key: Seq<char>, vs: Seq<Seq<char>>) -> Seq<char>
    decreases vs.len(),
{
    if vs.len() == 0 {
        Seq::empty()
    } else {
        meta_rows(key, vs.drop_last()) + meta_row(key, vs.last())
    }
}

pub open spec fn association_meta_rows(assocs: Seq<AssocView>) -> Seq<char>
    decreases assocs.len(),
{
    if assocs.len() == 0 {
        Seq::empty()
    } else {
        association_meta_rows(assocs.drop_last()) + meta_row("mime"@, assocs.last().mime_type)
            + meta_rows("extension"@, assocs.last().extensions)
    }
}

/// The handler metadata of a GUI app: its id, display name and executable,
/// its icon when it has one, then a row per category and protocol, and per
/// association its MIME type followed by its extensions.
pub open spec fn handler_metadata_spec(app: GuiAppView) -> Seq<char> {
    meta_row("app_id"@, app.app_id) + meta_row("display_name"@, app.display_name) + meta_row(
        "exec"@,
        app.executable,
    ) + match app.icon {
        Some(i) => meta_row("icon"@, i),
        None => Seq::<char>::empty(),
    } + meta_rows("category"@, app.categories) + meta_rows("protocol"@, app.protocols)
        + association_meta_rows(app.associations)
}

fn push_meta_row(out: &mut Vec<char>, key: &str, v: &str)
    ensures
        final(out)@ == old(out)@ + meta_row(key@, v@),
{
    extend_str(out, key);
    extend_str(out, "=");
    let s = sanitize_gui_metadata_value(v);
    extend_str(out, s.as_str());
    extend_str(out, "\n");
}

fn push_meta_rows(out: &mut Vec<char>, key: &str, vs: &Vec<String>)
    ensures
        final(out)@ == old(out)@ + meta_rows(key@, strings_view(vs@)),
{
    let ghost sv = strings_view(vs@);
    let ghost start = out@;
    let n = vs.len();
    let mut i: usize = 0;
    assert(sv.take(0) =~= Seq::<Seq<char>>::empty());
    assert(start + Seq::<char>::empty() =~= start);
    while i < n
        invariant
            n == vs@.len(),
            sv == strings_view(vs@),
            i <= n,
            out@ == start + meta_rows(key@, sv.take(i as int)),
        decreases n - i,
    {
        push_meta_row(out, key, vs[i].as_str());
        assert(sv.take(i + 1).drop_last() =~= sv.take(i as int));
        assert(sv.take(i + 1).last() == vs@[i as int]@);
        assert(out@ =~= start + meta_rows(key@, sv.take(i + 1)));
        i = i + 1;
    }
    assert(sv.take(n as int) =~= sv);
}

/// The handler metadata written for a GUI app (see
/// `handler_metadata_spec`).
pub fn render_gui_handler_metadata(app: &ArtifactGuiApp) -> (r: String)
    ensures
        r@ == handler_metadata_spec(app@),
{
    let mut out: Vec<char> = Vec::new();
    push_meta_row(&mut out, "app_id", app.app_id.as_str());
    push_meta_row(&mut out, "display_name", app.display_name.as_str());
    push_meta_row(&mut out, "exec", app.executable.as_str());
    let ghost head = out@;
    match &app.icon {
        Some(i) => push_meta_row(&mut out, "icon", i.as_str()),
        None => {
            assert(head + Seq::<char>::empty() =~= head);
        },
    }
    push_meta_rows(&mut out, "category", &app.categories);
    let ghost mid = out@;
    let ghost pv = app@.protocols;
    let np = app.protocols.len();
    let mut i: usize = 0;
    assert(pv.take(0) =~= Seq::<Seq<char>>::empty());
    assert(mid + Seq::<char>::empty() =~= mid);
    while i < np
        invariant
            np == app.protocols@.len(),
            pv == app@.protocols,
            i <= np,
            out@ == mid + meta_rows("protocol"@, pv.take(i as int)),
        decreases np - i,
    {
        push_meta_row(&mut out, "protocol", app.protocols[i].scheme.as_str());
        assert(pv.take(i + 1).drop_last() =~= pv.take(i as int));
        assert(pv.take(i + 1).last() == app.protocols@[i as int].scheme@);
        assert(out@ =~= mid + meta_rows("protocol"@, pv.take(i + 1)));
        i = i + 1;
    }
    assert(pv.take(np as int) =~= pv);
    let ghost tail = out@;
    let ghost av = app@.associations;
    let na = app.file_associations.len();
    let mut j: usize = 0;
    assert(av.take(0) =~= Seq::<AssocView>::empty());
    assert(tail + Seq::<char>::empty() =~= tail);
    while j < na
        invariant
            na == app.file_associations@.len(),
            av == app@.associations,
            j <= na,
            out@ == tail + association_meta_rows(av.take(j as int)),
        decreases na - j,
    {
        let a = &app.file_associations[j];
        push_meta_row(&mut out, "mime", a.mime_type.as_str());
        push_meta_rows(&mut out, "extension", &a.extensions);
        assert(av.take(j + 1).drop_last() =~= av.take(j as int));
        assert(av.take(j + 1).last() == a@);
        assert(out@ =~= tail + association_meta_rows(av.take(j + 1)));
        j = j + 1;
    }
    assert(av.take(na as int) =~= av);
    assert(out@ =~= handler_metadata_spec(app@));
    string_of_vec(&out)
}

/// `<package token>--<app token>.desktop`: the file name of an app's Linux
/// desktop registration.
pub fn native_gui_launcher_filename(package_name: &str, app: &ArtifactGuiApp) -> (r: String)
    ensures
        r@ == app_stem(package_name@, app@.app_id) + ".desktop"@,
{
    let stem = app_stem_exec(package_name, app.app_id.as_str());
    let mut v: Vec<char> = Vec::new();
    extend_str(&mut v, stem.as_str());
    extend_str(&mut v, ".desktop");
    string_of_vec(&v)
}

// ---------------------------------------------------------------------------
// exposing a GUI app in the prefix

/// What exposing a GUI app writes: its projected assets, the launcher at
/// the launcher asset's path and the handler metadata at the handler
/// asset's path. `source_path` is the executable the launcher runs.
#[derive(Clone, Debug, PartialEq, Eq)]
pub struct GuiExposurePlan {
    pub assets: Vec<GuiExposureAsset>,
    pub source_path: String,
    pub launcher_path: String,
    pub launcher: String,
    pub handler_path: String,
    pub handler_metadata: String,
}

/// Once the whole list of entries is accepted, every prefix of it is, and
/// its assets come first.
proof fn lemma_collect_prefix(es: Seq<AssetEntry>, i: int)
    requires
        0 <= i <= es.len(),
        collect_assets(es) is Ok,
    ensures
        collect_assets(es.take(i)) is Ok,
        collect_assets(es.take(i))->Ok_0.len() <= collect_assets(es)->Ok_0.len(),
        collect_assets(es)->Ok_0.take(collect_assets(es.take(i))->Ok_0.len() as int)
            == collect_assets(es.take(i))->Ok_0,
    decreases es.len(),
{
    if i == es.len() {
        assert(es.take(i) =~= es);
        let v = collect_assets(es)->Ok_0;
        assert(v.take(v.len() as int) =~= v);
    } else {
        let d = es.drop_last();
        assert(d.take(i) =~= es.take(i));
        lemma_collect_prefix(d, i);
        let v = collect_assets(es)->Ok_0;
        let a = collect_assets(d)->Ok_0;
        let p = collect_assets(es.take(i))->Ok_0;
        assert(v == a.push(es.last()->Ok_0));
        assert(v.take(p.len() as int) =~= a.take(p.len() as int));
    }
}

/// The first two assets of an accepted app are its launcher and its
/// handler.
proof fn lemma_first_assets(app: GuiAppView, launcher_rel: Seq<char>, handler_rel: Seq<char>)
    requires
        collect_assets(gui_entries(app, launcher_rel, handler_rel)) is Ok,
    ensures
        ({
            let v = collect_assets(gui_entries(app, launcher_rel, handler_rel))->Ok_0;
            let id = lower_seq(trim(app.app_id));
            &&& v.len() >= 2
            &&& v[0] == ("app:"@ + id, launcher_rel)
            &&& v[1] == ("handler:"@ + id, handler_rel)
        }),
{
    let es = gui_entries(app, launcher_rel, handler_rel);
    let id = lower_seq(trim(app.app_id));
    lemma_collect_prefix(es, 2);
    let e0 = ("app:"@ + id, launcher_rel);
    let e1 = ("handler:"@ + id, handler_rel);
    assert(es.take(2).drop_last() =~= es.take(1));
    assert(es.take(1).drop_last() =~= Seq::<AssetEntry>::empty());
    assert(es.take(1).last() == Ok::<(Seq<char>, Seq<char>), ExposureError>(e0));
    assert(es.take(2).last() == Ok::<(Seq<char>, Seq<char>), ExposureError>(e1));
    assert(collect_assets(Seq::<AssetEntry>::empty()) == Ok::<Seq<(Seq<char>, Seq<char>)>, ExposureError>(Seq::empty()));
    assert(keys_of(Seq::<(Seq<char>, Seq<char>)>::empty()) =~= Seq::<Seq<char>>::empty());
    assert(collect_assets(es.take(1)) == Ok::<Seq<(Seq<char>, Seq<char>)>, ExposureError>(seq![e0]));
    reveal_strlit("app:");
    reveal_strlit("handler:");
    assert(("app:"@ + id)[0] == 'a' && ("handler:"@ + id)[0] == 'h');
    assert(keys_of(seq![e0]) =~= seq!["app:"@ + id]);
    assert(!keys_of(seq![e0]).contains("handler:"@ + id)) by {
        if keys_of(seq![e0]).contains("handler:"@ + id) {
            assert(keys_of(seq![e0])[0] == "app:"@ + id);
        }
    }
    let p = seq![e0].push(e1);
    assert(collect_assets(es.take(2)) == Ok::<Seq<(Seq<char>, Seq<char>)>, ExposureError>(p));
    let v = collect_assets(es)->Ok_0;
    assert(p.len() == 2);
    assert(v.take(2) == p);
    assert(v[0] == v.take(2)[0]);
    assert(v[1] == v.take(2)[1]);
}

/// What exposing a GUI app writes (see `GuiExposurePlan`): refused as
/// `projected_gui_assets` refuses the app; otherwise the launcher lives at
/// `<gui>/launchers/<stem>.<ext>` and the handler at
/// `<gui>/handlers/<stem>.meta`.
pub open spec fn gui_exposure_ok(
    plan: GuiExposurePlan,
    layout: PrefixLayout,
    platform: HostPlatform,
    install_root: Seq<char>,
    package_name: Seq<char>,
    app: GuiAppView,
) -> bool {
    &&& projected_assets_spec(platform, package_name, app) == Ok::<
        Seq<(Seq<char>, Seq<char>)>,
        ExposureError,
    >(assets_view(plan.assets@))
    &&& plan.source_path@ == path_join_on_host(layout.spec_windows(), install_root, app.executable)
    &&& plan.launcher_path@ == path_join_on_host(
        layout.spec_windows(),
        layout.spec_gui_dir(),
        launcher_rel_spec(platform, package_name, app.app_id),
    )
    &&& plan.launcher@ == launcher_spec(platform, app, plan.source_path@)
    &&& plan.handler_path@ == path_join_on_host(
        layout.spec_windows(),
        layout.spec_gui_dir(),
        handler_rel_spec(package_name, app.app_id),
    )
    &&& plan.handler_metadata@ == handler_metadata_spec(app)
    &&& plan.assets@.len() >= 2
    &&& asset_view(plan.assets@[0]).1 == launcher_rel_spec(platform, package_name, app.app_id)
    &&& asset_view(plan.assets@[1]).1 == handler_rel_spec(package_name, app.app_id)
}

/// Plans exposing a GUI app from `install_root` in the prefix: the
/// executable is not looked up here; the caller checks that
/// `source_path` exists before writing anything.
pub fn plan_gui_exposure(
    layout: &PrefixLayout,
    platform: HostPlatform,
    install_root: &str,
    package_name: &str,
    app: &ArtifactGuiApp,
) -> (r: Result<GuiExposurePlan, ExposureError>)
    ensures
        match r {
            Ok(plan) => gui_exposure_ok(plan, *layout, platform, install_root@, package_name@, app@),
            Err(e) => projected_assets_spec(platform, package_name@, app@) == Err::<
                Seq<(Seq<char>, Seq<char>)>,
                ExposureError,
            >(e),
        },
{
    let assets = match projected_gui_assets(platform, package_name, app) {
        Ok(a) => a,
        Err(e) => {
            return Err(e);
        },
    };
    proof {
        lemma_first_assets(
            app@,
            launcher_rel_spec(platform, package_name@, app@.app_id),
            handler_rel_spec(package_name@, app@.app_id),
        );
    }
    let windows = layout.joins_as_windows();
    let source_path = join_path_on_host(windows, install_root, app.executable.as_str());
    let gui = layout.gui_dir();
    let launcher_path = join_path_on_host(windows, gui.as_str(), assets[0].rel_path.as_str());
    let handler_path = join_path_on_host(windows, gui.as_str(), assets[1].rel_path.as_str());
    let launcher = render_gui_launcher(platform, app, source_path.as_str());
    let handler_metadata = render_gui_handler_metadata(app);
    Ok(GuiExposurePlan { assets, source_path, launcher_path, launcher, handler_path, handler_metadata })
}


/// The protocols and file extensions an app declares are all well formed.
pub open spec fn declarations_valid(app: GuiAppView) -> bool {
    &&& forall|i: int|
        0 <= i < app.protocols.len() ==> (#[trigger] protocol_scheme_spec(app.protocols[i])) is Ok
    &&& forall|j: int, k: int|
        0 <= j < app.associations.len() && 0 <= k < app.associations[j].extensions.len()
            ==> (#[trigger] extension_spec(app.associations[j].extensions[k])) is Ok
}

proof fn lemma_collect_all_ok(es: Seq<AssetEntry>)
    requires
        collect_assets(es) is Ok,
    ensures
        forall|k: int| 0 <= k < es.len() ==> (#[trigger] es[k]) is Ok,
    decreases es.len(),
{
    if es.len() > 0 {
        lemma_collect_all_ok(es.drop_last());
        assert forall|k: int| 0 <= k < es.len() implies (#[trigger] es[k]) is Ok by {
            if k < es.len() - 1 {
                assert(es[k] == es.drop_last()[k]);
            }
        }
    }
}

proof fn lemma_extension_entry_in(assocs: Seq<AssocView>, h: Seq<char>, j: int, k: int)
    requires
        0 <= j < assocs.len(),
        0 <= k < assocs[j].extensions.len(),
    ensures
        associations_entries(assocs, h).contains(extension_entry(assocs[j].extensions[k], h)),
    decreases assocs.len(),
{
    let rest = associations_entries(assocs.drop_last(), h);
    let last = association_entries(assocs.last(), h);
    if j == assocs.len() - 1 {
        assert(last[1 + k] == extension_entry(assocs[j].extensions[k], h));
        assert(associations_entries(assocs, h)[rest.len() + 1 + k] == last[1 + k]);
    } else {
        assert(assocs.drop_last()[j] == assocs[j]);
        lemma_extension_entry_in(assocs.drop_last(), h, j, k);
        let i = choose|i: int|
            0 <= i < rest.len() && rest[i] == extension_entry(assocs[j].extensions[k], h);
        assert(associations_entries(assocs, h)[i] == rest[i]);
    }
}

/// An app whose assets project declares only well-formed protocols and
/// extensions.
pub proof fn lemma_projected_declarations_valid(
    platform: HostPlatform,
    package_name: Seq<char>,
    app: GuiAppView,
)
    requires
        projected_assets_spec(platform, package_name, app) is Ok,
    ensures
        declarations_valid(app),
{
    let l = launcher_rel_spec(platform, package_name, app.app_id);
    let h = handler_rel_spec(package_name, app.app_id);
    let es = gui_entries(app, l, h);
    lemma_collect_all_ok(es);
    let head = seq![
        Ok::<(Seq<char>, Seq<char>), ExposureError>(("app:"@ + lower_seq(trim(app.app_id)), l)),
        Ok::<(Seq<char>, Seq<char>), ExposureError>(("handler:"@ + lower_seq(trim(app.app_id)), h)),
    ];
    let pm = app.protocols.map_values(|p: Seq<char>| protocol_entry(p, h));
    assert forall|i: int| 0 <= i < app.protocols.len() implies (#[trigger] protocol_scheme_spec(
        app.protocols[i],
    )) is Ok by {
        assert(es[2 + i] == pm[i]);
        assert(es[2 + i] is Ok);
    }
    assert forall|j: int, k: int|
        0 <= j < app.associations.len() && 0 <= k < app.associations[j].extensions.len()
            implies (#[trigger] extension_spec(app.associations[j].extensions[k])) is Ok by {
        lemma_extension_entry_in(app.associations, h, j, k);
        let ae = associations_entries(app.associations, h);
        let i = choose|i: int|
            0 <= i < ae.len() && ae[i] == extension_entry(app.associations[j].extensions[k], h);
        assert(es[2 + pm.len() + i] == ae[i]);
        assert(es[2 + pm.len() + i] is Ok);
    }
}


proof fn lemma_collect_keys_unique(es: Seq<AssetEntry>)
    requires
        collect_assets(es) is Ok,
    ensures
        keys_of(collect_assets(es)->Ok_0).no_duplicates(),
    decreases es.len(),
{
    if es.len() == 0 {
        assert(keys_of(collect_assets(es)->Ok_0) =~= Seq::<Seq<char>>::empty());
    } else {
        let d = es.drop_last();
        lemma_collect_keys_unique(d);
        let acc = collect_assets(d)->Ok_0;
        let kr = es.last()->Ok_0;
        let ks = keys_of(acc);
        assert(keys_of(acc.push(kr)) =~= ks.push(kr.0));
        assert(!ks.contains(kr.0));
        let all = ks.push(kr.0);
        assert forall|i: int, j: int|
            0 <= i < all.len() && 0 <= j < all.len() && i != j implies all[i] != all[j] by {
            if i == ks.len() {
                assert(all[j] == ks[j]);
            } else if j == ks.len() {
                assert(all[i] == ks[i]);
            } else {
                assert(all[i] == ks[i] && all[j] == ks[j]);
            }
        }
    }
}

/// The assets an app projects own distinct keys.
pub proof fn lemma_projected_keys_unique(platform: HostPlatform, package_name: Seq<char>, app: GuiAppView)
    requires
        projected_assets_spec(platform, package_name, app) is Ok,
    ensures
        keys_of(projected_assets_spec(platform, package_name, app)->Ok_0).no_duplicates(),
{
    lemma_collect_keys_unique(
        gui_entries(
            app,
            launcher_rel_spec(platform, package_name, app.app_id),
            handler_rel_spec(package_name, app.app_id),
        ),
    );
}

} // verus!
