use crosspack_installer::activation_plan::{
    plan_docker_cli_plugin_activation, plan_path_plugin_activation, plan_service_activation,
    HostActivationContext, ServiceActivationMetadata,
};
use crosspack_installer::types::{
    IntegrationAdapterKind, IntegrationProjection, IntegrationReasonCode,
};

#[test]
fn docker_cli_plugin_plan_uses_platform_docker_config_precedence() {
    let projection = IntegrationProjection {
        kind: "docker_cli_plugin".to_string(),
        key: "docker_cli_plugin:compose".to_string(),
        rel_path: "docker/cli-plugins/docker-compose".to_string(),
    };

    let linux = HostActivationContext::linux()
        .with_home("/home/test")
        .with_env("DOCKER_CONFIG", "/tmp/docker-config");
    assert_eq!(
        plan_docker_cli_plugin_activation(&linux, "docker-compose", &projection)
            .expect("must plan linux docker plugin")
            .host_path,
        "/tmp/docker-config/cli-plugins/docker-compose"
    );

    let macos = HostActivationContext::macos()
        .with_home("/Users/test")
        .with_env("DOCKER_CONFIG", "/tmp/macos-docker-config");
    assert_eq!(
        plan_docker_cli_plugin_activation(&macos, "docker-compose", &projection)
            .expect("must plan macos docker plugin")
            .host_path,
        "/tmp/macos-docker-config/cli-plugins/docker-compose"
    );

    let windows = HostActivationContext::windows()
        .with_user_profile("C:\\Users\\test")
        .with_env("DOCKER_CONFIG", "D:\\DockerConfig");
    assert_eq!(
        plan_docker_cli_plugin_activation(&windows, "docker-compose", &projection)
            .expect("must plan windows docker plugin")
            .host_path,
        "D:\\DockerConfig\\cli-plugins\\docker-compose"
    );

    let windows_with_forward_slashes = HostActivationContext::windows()
        .with_user_profile("C:\\Users\\test")
        .with_env("DOCKER_CONFIG", "D:/DockerConfig");
    assert_eq!(
        plan_docker_cli_plugin_activation(
            &windows_with_forward_slashes,
            "docker-compose",
            &projection,
        )
        .expect("must normalize windows docker config spelling")
        .host_path,
        "D:\\DockerConfig\\cli-plugins\\docker-compose"
    );

    let linux_without_config = HostActivationContext::linux().with_home("/home/test");
    assert_eq!(
        plan_docker_cli_plugin_activation(&linux_without_config, "docker-compose", &projection)
            .expect("must plan linux docker plugin fallback")
            .host_path,
        "/home/test/.docker/cli-plugins/docker-compose"
    );

    let macos_without_config = HostActivationContext::macos().with_home("/Users/test");
    assert_eq!(
        plan_docker_cli_plugin_activation(&macos_without_config, "docker-compose", &projection)
            .expect("must plan macos docker plugin fallback")
            .host_path,
        "/Users/test/.docker/cli-plugins/docker-compose"
    );

    let windows_without_config =
        HostActivationContext::windows().with_user_profile("C:\\Users\\test");
    assert_eq!(
        plan_docker_cli_plugin_activation(&windows_without_config, "docker-compose", &projection)
            .expect("must plan windows docker plugin fallback")
            .host_path,
        "C:\\Users\\test\\.docker\\cli-plugins\\docker-compose"
    );
}

#[test]
fn activation_plan_docker_cli_plugin_rejects_relative_docker_config_and_missing_home() {
    let projection = IntegrationProjection {
        kind: "docker_cli_plugin".to_string(),
        key: "docker_cli_plugin:compose".to_string(),
        rel_path: "docker/cli-plugins/docker-compose".to_string(),
    };

    let relative_config = HostActivationContext::linux()
        .with_home("/home/test")
        .with_env("DOCKER_CONFIG", "relative/docker-config");
    assert_eq!(
        plan_docker_cli_plugin_activation(&relative_config, "docker-compose", &projection)
            .expect_err("relative docker config must fail")
            .reason_code,
        IntegrationReasonCode::UnsupportedHost
    );

    let relative_windows_config = HostActivationContext::windows()
        .with_user_profile("C:\\Users\\test")
        .with_env("DOCKER_CONFIG", "DockerConfig");
    assert_eq!(
        plan_docker_cli_plugin_activation(&relative_windows_config, "docker-compose", &projection)
            .expect_err("relative windows docker config must fail")
            .reason_code,
        IntegrationReasonCode::UnsupportedHost
    );

    let unc_windows_config = HostActivationContext::windows()
        .with_user_profile("C:\\Users\\test")
        .with_env("DOCKER_CONFIG", "\\\\server\\share\\DockerConfig");
    assert_eq!(
        plan_docker_cli_plugin_activation(&unc_windows_config, "docker-compose", &projection)
            .expect_err("UNC docker config roots are unsupported in this phase")
            .reason_code,
        IntegrationReasonCode::UnsupportedHost
    );

    assert_eq!(
        plan_docker_cli_plugin_activation(
            &HostActivationContext::macos(),
            "docker-compose",
            &projection,
        )
        .expect_err("missing home must fail")
        .reason_code,
        IntegrationReasonCode::UnsupportedHost
    );

    assert_eq!(
        plan_docker_cli_plugin_activation(
            &HostActivationContext::windows(),
            "docker-compose",
            &projection,
        )
        .expect_err("missing user profile must fail")
        .reason_code,
        IntegrationReasonCode::UnsupportedHost
    );
}

#[test]
fn activation_plan_path_plugin_uses_crosspack_owned_host_exposure() {
    let projection = IntegrationProjection {
        kind: "path_plugin".to_string(),
        key: "path_plugin:demo:democtl".to_string(),
        rel_path: "path-plugins/demo/demo-democtl".to_string(),
    };

    let linux = plan_path_plugin_activation(
        &HostActivationContext::linux().with_home("/home/test"),
        "demo",
        "demo-democtl",
        &projection,
    )
    .expect("must plan linux path plugin");
    assert_eq!(linux.adapter, IntegrationAdapterKind::PathPluginBin);
    assert_eq!(linux.host_path, "/prefix/bin/demo-democtl");
    assert_eq!(
        linux.source_path,
        "/prefix/share/integrations/path-plugins/demo/demo-democtl"
    );

    let macos = plan_path_plugin_activation(
        &HostActivationContext::macos().with_home("/Users/test"),
        "demo",
        "demo-democtl",
        &projection,
    )
    .expect("must plan macos path plugin");
    assert_eq!(macos.host_path, "/prefix/bin/demo-democtl");

    let windows = plan_path_plugin_activation(
        &HostActivationContext::windows().with_user_profile("C:\\Users\\test"),
        "demo",
        "demo-democtl",
        &projection,
    )
    .expect("must plan windows path plugin");
    assert_eq!(windows.host_path, "C:\\Crosspack\\bin\\demo-democtl.cmd");
    assert_eq!(
        windows.source_path,
        "C:\\Crosspack\\share\\integrations\\path-plugins\\demo\\demo-democtl"
    );
}

#[test]
fn activation_plan_path_plugin_rejects_host_name_that_does_not_match_key() {
    let projection = IntegrationProjection {
        kind: "path_plugin".to_string(),
        key: "path_plugin:demo:democtl".to_string(),
        rel_path: "path-plugins/demo/demo-democtl".to_string(),
    };

    assert_eq!(
        plan_path_plugin_activation(
            &HostActivationContext::linux().with_home("/home/test"),
            "demo",
            "democtl",
            &projection,
        )
        .expect_err("host_name must match path_plugin:<host>:<name>")
        .reason_code,
        IntegrationReasonCode::InvalidServiceMetadata
    );

    let malformed_key = IntegrationProjection {
        key: "path_plugin:demo".to_string(),
        ..projection
    };
    assert_eq!(
        plan_path_plugin_activation(
            &HostActivationContext::linux().with_home("/home/test"),
            "demo",
            "demo-democtl",
            &malformed_key,
        )
        .expect_err("malformed path plugin key must fail")
        .reason_code,
        IntegrationReasonCode::InvalidServiceMetadata
    );
}

#[test]
fn activation_plan_service_selects_platform_user_adapter_when_metadata_is_valid() {
    let linux = plan_service_activation(
        &HostActivationContext::linux().with_home("/home/test"),
        "caddy",
        &ServiceActivationMetadata::new("caddy").with_source("services/caddy.service"),
    )
    .expect("must plan linux service");
    assert_eq!(linux.adapter, IntegrationAdapterKind::SystemdUser);
    assert_eq!(linux.host_path, "systemd-user:caddy.service");
    assert_eq!(
        linux.source_path,
        "/prefix/share/integrations/services/caddy.service"
    );

    let macos = plan_service_activation(
        &HostActivationContext::macos().with_home("/Users/test"),
        "caddy",
        &ServiceActivationMetadata::new("caddy")
            .with_macos_launch_agent("services/com.example.caddy.plist"),
    )
    .expect("must plan macos service");
    assert_eq!(macos.adapter, IntegrationAdapterKind::LaunchdUser);
    assert_eq!(
        macos.host_path,
        "/Users/test/Library/LaunchAgents/com.example.caddy.plist"
    );

    let windows = plan_service_activation(
        &HostActivationContext::windows()
            .with_user_profile("C:\\Users\\test")
            .with_windows_user_services_supported(true),
        "caddy",
        &ServiceActivationMetadata::new("caddy")
            .with_windows_service("services/caddy-service.json"),
    )
    .expect("must plan windows service");
    assert_eq!(windows.adapter, IntegrationAdapterKind::WindowsServiceUser);
    assert_eq!(windows.host_path, "windows-service-user:caddy");
}

#[test]
fn activation_plan_service_reports_invalid_metadata_or_escalation_deterministically() {
    assert_eq!(
        plan_service_activation(
            &HostActivationContext::linux().with_home("/home/test"),
            "caddy",
            &ServiceActivationMetadata::new("caddy"),
        )
        .expect_err("missing linux service source must fail")
        .reason_code,
        IntegrationReasonCode::InvalidServiceMetadata
    );

    assert_eq!(
        plan_service_activation(
            &HostActivationContext::linux().with_home("/home/test"),
            "caddy",
            &ServiceActivationMetadata::new("caddy").with_source("services/caddy.txt"),
        )
        .expect_err("wrong linux service extension must fail")
        .reason_code,
        IntegrationReasonCode::InvalidServiceMetadata
    );

    assert_eq!(
        plan_service_activation(
            &HostActivationContext::macos().with_home("/Users/test"),
            "caddy",
            &ServiceActivationMetadata::new("caddy"),
        )
        .expect_err("missing macos plist must fail")
        .reason_code,
        IntegrationReasonCode::InvalidServiceMetadata
    );

    assert_eq!(
        plan_service_activation(
            &HostActivationContext::windows()
                .with_user_profile("C:\\Users\\test")
                .with_windows_user_services_supported(true),
            "caddy",
            &ServiceActivationMetadata::new("caddy"),
        )
        .expect_err("missing windows descriptor must fail")
        .reason_code,
        IntegrationReasonCode::InvalidServiceMetadata
    );

    assert_eq!(
        plan_service_activation(
            &HostActivationContext::windows()
                .with_user_profile("C:\\Users\\test")
                .with_windows_user_services_supported(false),
            "caddy",
            &ServiceActivationMetadata::new("caddy")
                .with_windows_service("services/caddy-service.json"),
        )
        .expect_err("admin-required windows service must fail")
        .reason_code,
        IntegrationReasonCode::EscalationRequired
    );

    assert_eq!(
        plan_service_activation(
            &HostActivationContext::windows()
                .with_user_profile("C:\\Users\\test")
                .with_windows_user_services_supported(true)
                .with_service_requires_admin(true),
            "caddy",
            &ServiceActivationMetadata::new("caddy")
                .with_windows_service("services/caddy-service.json"),
        )
        .expect_err("explicit admin-required windows service must fail")
        .reason_code,
        IntegrationReasonCode::EscalationRequired
    );
}

#[test]
fn activation_plan_rejects_unsafe_projection_and_service_source_paths() {
    for rel_path in [
        "",
        "../escape",
        "/absolute",
        ".",
        "safe/../escape",
        "..\\escape",
    ] {
        let projection = IntegrationProjection {
            kind: "docker_cli_plugin".to_string(),
            key: "docker_cli_plugin:compose".to_string(),
            rel_path: rel_path.to_string(),
        };

        assert_eq!(
            plan_docker_cli_plugin_activation(
                &HostActivationContext::linux().with_home("/home/test"),
                "docker-compose",
                &projection,
            )
            .expect_err("unsafe docker source path must fail")
            .reason_code,
            IntegrationReasonCode::InvalidServiceMetadata,
            "rel_path={rel_path:?}"
        );
    }

    for source in [
        "",
        "../escape.service",
        "/tmp/caddy.service",
        ".",
        "services/../caddy.service",
        "..\\escape.service",
        "services/caddy\t.service",
        "services/caddy\n.service",
        "services/caddy\u{1f}.service",
    ] {
        assert_eq!(
            plan_service_activation(
                &HostActivationContext::linux().with_home("/home/test"),
                "caddy",
                &ServiceActivationMetadata::new("caddy").with_source(source),
            )
            .expect_err("unsafe service source path must fail")
            .reason_code,
            IntegrationReasonCode::InvalidServiceMetadata,
            "source={source:?}"
        );
    }
}

#[test]
fn activation_plan_rejects_unsafe_host_path_leaf_names() {
    let docker_projection = IntegrationProjection {
        kind: "docker_cli_plugin".to_string(),
        key: "docker_cli_plugin:compose".to_string(),
        rel_path: "docker/cli-plugins/docker-compose".to_string(),
    };
    for package in [
        "",
        "../evil",
        "foo/../bar",
        "C:evil",
        "..\\evil",
        ".",
        "has\nnewline",
    ] {
        assert_eq!(
            plan_docker_cli_plugin_activation(
                &HostActivationContext::linux().with_home("/home/test"),
                package,
                &docker_projection,
            )
            .expect_err("unsafe docker package leaf must fail")
            .reason_code,
            IntegrationReasonCode::InvalidServiceMetadata,
            "package={package:?}"
        );
    }

    let path_projection = IntegrationProjection {
        kind: "path_plugin".to_string(),
        key: "path_plugin:demo:democtl".to_string(),
        rel_path: "path/demo/democtl".to_string(),
    };
    for host_name in [
        "",
        "../evil",
        "foo/../bar",
        "C:evil",
        "..\\evil",
        ".",
        "has\u{7f}control",
    ] {
        assert_eq!(
            plan_path_plugin_activation(
                &HostActivationContext::linux().with_home("/home/test"),
                "demo",
                host_name,
                &path_projection,
            )
            .expect_err("unsafe path plugin host leaf must fail")
            .reason_code,
            IntegrationReasonCode::InvalidServiceMetadata,
            "host_name={host_name:?}"
        );
    }
}

#[test]
fn activation_plan_rejects_relative_host_roots() {
    let docker_projection = IntegrationProjection {
        kind: "docker_cli_plugin".to_string(),
        key: "docker_cli_plugin:compose".to_string(),
        rel_path: "docker/cli-plugins/docker-compose".to_string(),
    };
    assert_eq!(
        plan_docker_cli_plugin_activation(
            &HostActivationContext::linux().with_home("relative-home"),
            "docker-compose",
            &docker_projection,
        )
        .expect_err("relative home must fail")
        .reason_code,
        IntegrationReasonCode::UnsupportedHost
    );
    assert_eq!(
        plan_docker_cli_plugin_activation(
            &HostActivationContext::windows().with_user_profile("Users\\test"),
            "docker-compose",
            &docker_projection,
        )
        .expect_err("relative user profile must fail")
        .reason_code,
        IntegrationReasonCode::UnsupportedHost
    );
    assert_eq!(
        plan_docker_cli_plugin_activation(
            &HostActivationContext::windows().with_user_profile("\\\\server\\share\\Users\\test"),
            "docker-compose",
            &docker_projection,
        )
        .expect_err("windows UNC roots are unsupported in this phase")
        .reason_code,
        IntegrationReasonCode::UnsupportedHost
    );

    let path_projection = IntegrationProjection {
        kind: "path_plugin".to_string(),
        key: "path_plugin:demo:democtl".to_string(),
        rel_path: "path/demo/democtl".to_string(),
    };
    assert_eq!(
        plan_path_plugin_activation(
            &HostActivationContext::linux().with_prefix("relative-prefix"),
            "demo",
            "democtl",
            &path_projection,
        )
        .expect_err("relative prefix must fail")
        .reason_code,
        IntegrationReasonCode::UnsupportedHost
    );

    assert_eq!(
        plan_service_activation(
            &HostActivationContext::macos().with_home("Users/test"),
            "caddy",
            &ServiceActivationMetadata::new("caddy")
                .with_macos_launch_agent("services/com.example.caddy.plist"),
        )
        .expect_err("relative macos home must fail")
        .reason_code,
        IntegrationReasonCode::UnsupportedHost
    );
}
