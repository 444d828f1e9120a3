use crosspack_installer::exposure::ExposureError;
use crosspack_installer::gui_app::{
    native_gui_launcher_filename, plan_gui_exposure, projected_gui_assets,
    render_gui_handler_metadata, render_gui_launcher, render_linux_native_desktop_entry,
    ArtifactGuiApp, ArtifactGuiFileAssociation, ArtifactGuiProtocol,
};
use crosspack_installer::layout::PrefixLayout;
use crosspack_installer::types::{GuiExposureAsset, HostPlatform};

fn zed_app() -> ArtifactGuiApp {
    ArtifactGuiApp {
        app_id: "dev.zed.Zed".to_string(),
        display_name: "Zed".to_string(),
        executable: "zed".to_string(),
        icon: None,
        categories: vec!["Development".to_string()],
        file_associations: vec![ArtifactGuiFileAssociation {
            mime_type: "text/plain".to_string(),
            extensions: vec![".txt".to_string()],
        }],
        protocols: vec![ArtifactGuiProtocol { scheme: "zed".to_string() }],
    }
}

fn asset(key: &str, rel: &str) -> GuiExposureAsset {
    GuiExposureAsset { key: key.to_string(), rel_path: rel.to_string() }
}

#[test]
fn projected_gui_assets_list_every_ownership_key_in_order() {
    let assets = projected_gui_assets(HostPlatform::Linux, "zed", &zed_app()).expect("must project");
    assert_eq!(
        assets,
        vec![
            asset("app:dev.zed.zed", "launchers/zed--dev.zed.Zed.desktop"),
            asset("handler:dev.zed.zed", "handlers/zed--dev.zed.Zed.meta"),
            asset("protocol:zed", "handlers/zed--dev.zed.Zed.meta"),
            asset("mime:text/plain", "handlers/zed--dev.zed.Zed.meta"),
            asset("extension:.txt", "handlers/zed--dev.zed.Zed.meta"),
        ]
    );
}

#[test]
fn projected_gui_assets_use_the_host_launcher_extension() {
    let windows = projected_gui_assets(HostPlatform::Windows, "zed", &zed_app()).expect("must project");
    assert_eq!(windows[0].rel_path, "launchers/zed--dev.zed.Zed.cmd");
    let macos = projected_gui_assets(HostPlatform::Macos, "zed", &zed_app()).expect("must project");
    assert_eq!(macos[0].rel_path, "launchers/zed--dev.zed.Zed.command");
}

#[test]
fn projected_gui_assets_reject_invalid_declarations() {
    let mut app = zed_app();
    app.app_id = "  ".to_string();
    assert_eq!(projected_gui_assets(HostPlatform::Linux, "zed", &app), Err(ExposureError::GuiAppIdEmpty));

    let mut app = zed_app();
    app.display_name = String::new();
    assert_eq!(
        projected_gui_assets(HostPlatform::Linux, "zed", &app),
        Err(ExposureError::GuiDisplayNameEmpty)
    );

    let mut app = zed_app();
    app.executable = "../zed".to_string();
    assert_eq!(projected_gui_assets(HostPlatform::Linux, "zed", &app), Err(ExposureError::PathHasParent));

    let mut app = zed_app();
    app.protocols.push(ArtifactGuiProtocol { scheme: "1bad".to_string() });
    assert_eq!(
        projected_gui_assets(HostPlatform::Linux, "zed", &app),
        Err(ExposureError::ProtocolSchemeStart)
    );

    let mut app = zed_app();
    app.file_associations[0].mime_type = " ".to_string();
    assert_eq!(projected_gui_assets(HostPlatform::Linux, "zed", &app), Err(ExposureError::GuiMimeEmpty));

    let mut app = zed_app();
    app.file_associations[0].extensions.push("t*t".to_string());
    assert_eq!(
        projected_gui_assets(HostPlatform::Linux, "zed", &app),
        Err(ExposureError::ExtensionInvalid)
    );
}

#[test]
fn projected_gui_assets_reject_duplicate_keys() {
    let mut app = zed_app();
    app.protocols.push(ArtifactGuiProtocol { scheme: "ZED".to_string() });
    assert_eq!(
        projected_gui_assets(HostPlatform::Linux, "zed", &app),
        Err(ExposureError::DuplicateGuiKey)
    );
}

#[test]
fn linux_desktop_entry_lists_categories_and_mime_types() {
    let entry = render_linux_native_desktop_entry(&zed_app(), "/opt/zed/zed");
    assert_eq!(
        entry,
        "[Desktop Entry]\nType=Application\nName=Zed\nExec=\"/opt/zed/zed\" %U\nCategories=Development;\nMimeType=text/plain;x-scheme-handler/zed;\n"
    );
}

#[test]
fn linux_desktop_entry_drops_blank_tokens_and_adds_icon() {
    let mut app = zed_app();
    app.icon = Some("zed.png".to_string());
    app.categories = vec![" ; ".to_string(), "Dev;Tools".to_string()];
    app.file_associations = Vec::new();
    app.protocols = Vec::new();
    let entry = render_linux_native_desktop_entry(&app, "/opt/zed/zed");
    assert_eq!(
        entry,
        "[Desktop Entry]\nType=Application\nName=Zed\nExec=\"/opt/zed/zed\" %U\nIcon=zed.png\nCategories=_;Dev_Tools;\n"
    );
}

#[test]
fn gui_launchers_per_host() {
    let app = zed_app();
    assert_eq!(
        render_gui_launcher(HostPlatform::Windows, &app, "C:\\zed\\zed.exe"),
        "@echo off\r\nREM Zed\r\n\"C:\\zed\\zed.exe\" %*\r\n"
    );
    assert_eq!(
        render_gui_launcher(HostPlatform::Macos, &app, "/opt/zed/zed"),
        "#!/bin/sh\n# Zed\nexec \"/opt/zed/zed\" \"$@\"\n"
    );
    assert_eq!(
        render_gui_launcher(HostPlatform::Macos, &app, "/opt/Zed.APP"),
        "#!/bin/sh\n# Zed\nopen -a \"/opt/Zed.APP\" --args \"$@\"\n"
    );
    assert_eq!(
        render_gui_launcher(HostPlatform::Linux, &app, "/opt/zed/zed"),
        render_linux_native_desktop_entry(&app, "/opt/zed/zed")
    );
}

#[test]
fn gui_handler_metadata_rows() {
    let mut app = zed_app();
    app.display_name = "Zed\nEditor ".to_string();
    app.icon = Some("zed.png".to_string());
    assert_eq!(
        render_gui_handler_metadata(&app),
        "app_id=dev.zed.Zed\ndisplay_name=Zed Editor\nexec=zed\nicon=zed.png\ncategory=Development\nprotocol=zed\nmime=text/plain\nextension=.txt\n"
    );
}

#[test]
fn native_launcher_filename_joins_tokens() {
    assert_eq!(native_gui_launcher_filename("my pkg", &zed_app()), "my_pkg--dev.zed.Zed.desktop");
}

#[test]
fn gui_exposure_plan_places_launcher_and_handler() {
    let layout = PrefixLayout::new("/prefix");
    let plan = plan_gui_exposure(&layout, HostPlatform::Linux, "/prefix/pkgs/zed/1.0.0", "zed", &zed_app())
        .expect("must plan");
    assert_eq!(plan.source_path, "/prefix/pkgs/zed/1.0.0/zed");
    assert_eq!(plan.launcher_path, "/prefix/share/gui/launchers/zed--dev.zed.Zed.desktop");
    assert_eq!(plan.handler_path, "/prefix/share/gui/handlers/zed--dev.zed.Zed.meta");
    assert_eq!(plan.assets.len(), 5);
    assert!(plan.launcher.starts_with("[Desktop Entry]\n"));
    assert!(plan.handler_metadata.starts_with("app_id=dev.zed.Zed\n"));
}
