use c4d_plugin_compiler::compiler::driver::{
    choose_legacy_xcode_scheme, legacy_build_support, legacy_generator, legacy_module_root,
    legacy_project_definition, module_links_root, python_shim_dir, stale_module_links,
    xcode_build_args, xcode_list_args,
};
use c4d_plugin_compiler::utils::platform::HostOs;

#[test]
fn module_links_live_under_the_data_root() {
    assert_eq!(
        module_links_root(HostOs::Macos, Some("/Users/a"), "Boghma WaterMark"),
        Ok("/Users/a/.boghma/C4DPluginCompiler/plugin-links/Boghma_WaterMark_modules".to_string())
    );
    assert_eq!(
        module_links_root(HostOs::Linux, Some("/home/a"), "X"),
        Err("C4D builds are currently supported on Windows and macOS".to_string())
    );
    assert_eq!(
        module_links_root(HostOs::Windows, None, "X"),
        Err("Failed to resolve home directory".to_string())
    );
}

#[test]
fn stale_module_links_are_all_but_the_alias() {
    let names = vec!["old".to_string(), "Plugin".to_string(), "other".to_string()];
    assert_eq!(
        stale_module_links(&names, "Plugin"),
        vec!["old".to_string(), "other".to_string()]
    );
    assert!(stale_module_links(&vec!["Plugin".to_string()], "Plugin").is_empty());
}

#[test]
fn legacy_workspace_paths() {
    assert_eq!(legacy_module_root("/sdk/r21", "MyPlugin"), "/sdk/r21/plugins/MyPlugin");
    assert_eq!(
        legacy_project_definition("/sdk/r21"),
        "/sdk/r21/plugins/project/projectdefinition.txt"
    );
    assert_eq!(
        legacy_generator(HostOs::Macos, "/sdk/r21"),
        Ok("/sdk/r21/generate_solution_osx.command".to_string())
    );
    assert_eq!(
        legacy_generator(HostOs::Windows, "/sdk/r21"),
        Ok("/sdk/r21/generate_solution_win.bat".to_string())
    );
    assert_eq!(
        legacy_generator(HostOs::Linux, "/sdk/r21"),
        Err("Legacy SDK builds are currently supported on Windows and macOS".to_string())
    );
}

#[test]
fn legacy_builds_need_macos() {
    assert_eq!(legacy_build_support(HostOs::Macos), Ok(()));
    assert_eq!(
        legacy_build_support(HostOs::Windows),
        Err("Legacy Windows SDK build support is not implemented yet".to_string())
    );
    assert_eq!(
        legacy_build_support(HostOs::Other),
        Err("Legacy SDK builds are currently supported on Windows and macOS".to_string())
    );
}

#[test]
fn xcode_arguments() {
    assert_eq!(xcode_list_args("/p/x.xcodeproj"), vec!["-list", "-json", "-project", "/p/x.xcodeproj"]);
    let args = xcode_build_args("/p/x.xcodeproj", "MyPlugin", "Release");
    assert_eq!(args.len(), 12);
    assert_eq!(args[3], "MyPlugin");
    assert_eq!(args[5], "Release");
    assert_eq!(args[7], "generic/platform=macOS");
    assert_eq!(args[11], "build");
    assert!(args[10].starts_with("WARNING_CFLAGS="));
}

#[test]
fn legacy_scheme_choice_and_errors() {
    let schemes = vec!["cinema.framework".to_string(), "myplugin".to_string()];
    assert_eq!(
        choose_legacy_xcode_scheme(&schemes, "MyPlugin", "/p/x.xcodeproj"),
        Ok("myplugin".to_string())
    );
    assert_eq!(
        choose_legacy_xcode_scheme(&Vec::new(), "MyPlugin", "/p/x.xcodeproj"),
        Err("No Xcode schemes were found in /p/x.xcodeproj".to_string())
    );
    let only_frameworks = vec!["cinema.framework".to_string(), "core.framework".to_string()];
    assert_eq!(
        choose_legacy_xcode_scheme(&only_frameworks, "MyPlugin", "/p/x.xcodeproj"),
        Err("Xcode scheme 'MyPlugin' was not found. Available schemes: cinema.framework, core.framework".to_string())
    );
}

#[test]
fn python_shim_lives_under_the_data_root() {
    assert_eq!(
        python_shim_dir(Some("/Users/a")),
        Ok("/Users/a/.boghma/C4DPluginCompiler/legacy-python-shim".to_string())
    );
    assert!(python_shim_dir(None).is_err());
}
