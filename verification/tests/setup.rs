use c4d_plugin_compiler::compiler::env::ToolSet;
use c4d_plugin_compiler::compiler::sdk::{
    configure_required_sdks, ConfigureAction, ConfigureEvent, ConfigureStage, SdkContext,
};
use c4d_plugin_compiler::fs::FsSnapshot;
use c4d_plugin_compiler::types::{
    SdkResolution, SdkResolutionSource, SdkRootConfig, SdkSourceConfig, ToolStatus,
};
use c4d_plugin_compiler::utils::platform::HostOs;

fn found() -> ToolStatus {
    ToolStatus {
        found: true,
        path: Some("/usr/bin/tool".to_string()),
        version: Some("1".to_string()),
        message: None,
    }
}

fn tools() -> ToolSet {
    ToolSet {
        cmake: found(),
        python: found(),
        xcode: found(),
        clang: found(),
        visual_studio: found(),
        windows_sdk: found(),
    }
}

fn context() -> SdkContext {
    SdkContext {
        os: HostOs::Macos,
        documents_dir: Some("/docs".to_string()),
        stored_config: Ok(SdkSourceConfig {
            sdk_root: Some("/old".to_string()),
        }),
    }
}

fn resolution(version: &str) -> SdkResolution {
    SdkResolution {
        version: version.to_string(),
        source: SdkResolutionSource::Cache,
        sdk_root: Some(format!("/sdks/{version}/sdk")),
        archive_path: None,
        download_url: None,
        status: "cached root".to_string(),
    }
}

#[test]
fn one_click_setup_rejects_roots_with_spaces() {
    let fs = FsSnapshot { entries: Vec::new() };
    let config = SdkRootConfig {
        sdk_root: Some("/my sdks".to_string()),
    };
    let (_, action) = configure_required_sdks(
        &fs,
        &context(),
        HostOs::Macos,
        &tools(),
        &config,
        false,
        ConfigureStage::Start,
        ConfigureEvent::Begin { installed: Vec::new() },
    );
    assert!(matches!(action, ConfigureAction::Finish { result: Err(e) }
        if e == "SDK root must not contain spaces: /my sdks"));
}

#[test]
fn one_click_setup_stores_then_prepares_then_reports() {
    let fs = FsSnapshot { entries: Vec::new() };
    let ctx = context();
    let config = SdkRootConfig {
        sdk_root: Some("  /sdks  ".to_string()),
    };
    let (stage, action) = configure_required_sdks(
        &fs,
        &ctx,
        HostOs::Macos,
        &tools(),
        &config,
        true,
        ConfigureStage::Start,
        ConfigureEvent::Begin { installed: Vec::new() },
    );
    assert!(matches!(&action, ConfigureAction::Store { config } if config.sdk_root.as_deref() == Some("/sdks")));

    let (stage, action) = configure_required_sdks(
        &fs,
        &ctx,
        HostOs::Macos,
        &tools(),
        &config,
        true,
        stage,
        ConfigureEvent::Stored { result: Ok(()) },
    );
    match &action {
        ConfigureAction::Prepare {
            version,
            refresh,
            context,
        } => {
            assert_eq!(version, "2024.4");
            assert!(*refresh);
            assert_eq!(
                context.stored_config.as_ref().unwrap().sdk_root.as_deref(),
                Some("/sdks")
            );
        }
        _ => panic!("expected the first SDK to be prepared"),
    }

    let (_, action) = configure_required_sdks(
        &fs,
        &ctx,
        HostOs::Macos,
        &tools(),
        &config,
        true,
        stage,
        ConfigureEvent::Prepared {
            result: Ok(resolution("2024.4")),
        },
    );
    match action {
        ConfigureAction::Finish { result: Ok(report) } => {
            assert_eq!(report.sdk_root.as_deref(), Some("/sdks"));
            assert_eq!(report.prepared_versions.len(), 1);
            assert_eq!(report.prepared_versions[0].version, "2024.4");
            assert!(report.versions.iter().any(|row| row.version == "2025"));
            assert!(report.installed_versions.is_empty());
        }
        _ => panic!("expected the setup report"),
    }
}

#[test]
fn one_click_setup_stops_at_the_first_failure() {
    let fs = FsSnapshot { entries: Vec::new() };
    let ctx = context();
    let config = SdkRootConfig { sdk_root: None };
    let (stage, _) = configure_required_sdks(
        &fs,
        &ctx,
        HostOs::Macos,
        &tools(),
        &config,
        false,
        ConfigureStage::Start,
        ConfigureEvent::Begin { installed: Vec::new() },
    );
    let (stage, _) = configure_required_sdks(
        &fs,
        &ctx,
        HostOs::Macos,
        &tools(),
        &config,
        false,
        stage,
        ConfigureEvent::Stored { result: Ok(()) },
    );
    let (_, action) = configure_required_sdks(
        &fs,
        &ctx,
        HostOs::Macos,
        &tools(),
        &config,
        false,
        stage,
        ConfigureEvent::Prepared {
            result: Err("download failed".to_string()),
        },
    );
    assert!(matches!(action, ConfigureAction::Finish { result: Err(e) } if e == "download failed"));

    let (_, action) = configure_required_sdks(
        &fs,
        &ctx,
        HostOs::Macos,
        &tools(),
        &config,
        false,
        ConfigureStage::Storing {
            config: SdkSourceConfig {
                sdk_root: Some("/sdks".to_string()),
            },
            installed: Vec::new(),
        },
        ConfigureEvent::Stored {
            result: Err("Failed to write /cfg: denied".to_string()),
        },
    );
    assert!(matches!(action, ConfigureAction::Finish { result: Err(e) } if e == "Failed to write /cfg: denied"));
}
