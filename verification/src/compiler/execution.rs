//! The course of a plugin build: which SDK is prepared, which tool runs,
//! which binary is kept, step by step. The caller performs each action and
//! reports what came of it; every decision in between is made here.

use vstd::prelude::*;

use crate::compiler::driver::{
    build_args, build_dir_for, cmake_target_name, configure_args, find_legacy_plugin_binary,
    find_plugin_binary, is_missing_legacy_generated_file_error, resolve_cmake_build_module_name,
    spec_build_args, spec_build_dir_for, spec_cmake_target_name, spec_configure_args,
    spec_find_legacy_plugin_binary, spec_find_plugin_binary,
    spec_is_missing_legacy_generated_file_error, spec_resolve_cmake_build_module_name,
    spec_validate_request, validate_request,
};
use crate::compiler::package::{
    binaries_view, package_outputs, plan_view, spec_package_outputs, BinaryView, PackagePlan,
    PlanView,
};
use crate::compiler::sdk::{
    is_cmake_sdk_root, is_legacy_sdk_root, request_versions, requested_versions,
    resolution_view, spec_is_cmake_sdk_root, spec_is_legacy_sdk_root, ResolutionView,
};
use crate::compiler::{
    build_platform_view, current_build_platform, osv, select_build_preset, spec_build_platform,
    spec_select_build_preset, srv, sviews, BuildPlatform,
};
use crate::fs::{EntryView, FsSnapshot};
use crate::text::{chars_of, concat, dec, decimal, join_chars, join_with, string_of, vviews};
use crate::types::{ov, rv, spec_cmake_configs, BuildProgressEvent, BuildRequest, SdkResolution};
use crate::utils::platform::HostOs;

verus! {

// ---------------------------------------------------------------------------
// The plan of a build
// ---------------------------------------------------------------------------

/// What a build works through: the versions, the configurations of each,
/// the number of build steps as progress reports it, the binary extension
/// and the platform.
pub struct BuildPlan {
    pub versions: Vec<String>,
    pub configs: Vec<&'static str>,
    pub total: u32,
    pub extension: &'static str,
    pub platform: BuildPlatform,
}

pub open spec fn configs_view(c: Seq<&'static str>) -> Seq<Seq<char>> {
    c.map_values(|s: &'static str| s@)
}

/// The plan fits the request on the platform of `os`.
pub open spec fn plan_fits(plan: BuildPlan, os: HostOs, request: BuildRequest) -> bool {
    &&& sviews(plan.versions@) == requested_versions(sviews(request.versions@))
    &&& configs_view(plan.configs@) == spec_cmake_configs(request.configuration)
    &&& spec_build_platform(os).2 == Some(plan.extension@)
    &&& build_platform_view(plan.platform) == spec_build_platform(os)
}

/// Before anything is built: the platform must have a preset and a binary
/// extension, and the request must pass `spec_validate_request`.
pub open spec fn spec_begin_build(fs: Seq<EntryView>, os: HostOs, request: BuildRequest) -> Result<
    (),
    Seq<char>,
> {
    let p = spec_build_platform(os);
    if p.1 is None {
        Err("C4D builds are currently supported on Windows and macOS"@)
    } else if p.2 is None {
        Err("No binary extension is configured for this platform"@)
    } else {
        spec_validate_request(fs, request)
    }
}

/// Starts a build: the checks of `spec_begin_build`, then the plan. The
/// number of steps is the product of versions and configurations, cut to
/// `u32` as progress events carry it.
pub fn begin_build(fs: &FsSnapshot, os: HostOs, request: &BuildRequest) -> (r: Result<
    BuildPlan,
    String,
>)
    ensures
        match r {
            Ok(plan) => spec_begin_build(fs@, os, *request) is Ok && plan_fits(plan, os, *request)
                && plan.total == ((plan.versions@.len() * plan.configs@.len()) as u32),
            Err(e) => spec_begin_build(fs@, os, *request) == Err::<(), Seq<char>>(e@),
        },
{
    let platform = current_build_platform(os);
    if platform.preset.is_none() {
        return Err(crate::text::owned("C4D builds are currently supported on Windows and macOS"));
    }
    let extension = match platform.binary_extension {
        Some(e) => e,
        None => return Err(crate::text::owned("No binary extension is configured for this platform")),
    };
    match validate_request(fs, request) {
        Err(e) => return Err(e),
        Ok(_) => {},
    }
    let versions = request_versions(request);
    let configs = request.configuration.cmake_configs();
    let n = versions.len() as u128;
    let m = configs.len() as u128;
    assert(m <= 2) by {
        assert(configs_view(configs@).len() == configs@.len());
    }
    let product: u128 = if m == 2 {
        n + n
    } else if m == 1 {
        n
    } else {
        0
    };
    assert(product == n * m) by (nonlinear_arith)
        requires
            m <= 2,
            m == 2 ==> product == n + n,
            m == 1 ==> product == n,
            m == 0 ==> product == 0,
    ;
    let total = (#[verifier::truncate] (product as u32));
    Ok(BuildPlan { versions, configs, total, extension, platform })
}

// ---------------------------------------------------------------------------
// Stages, events and actions
// ---------------------------------------------------------------------------

/// Where a build stands between two pieces of outside work. `index` is the
/// position of the version being built, `config` that of the configuration.
pub enum BuildStage {
    Start,
    Preparing { index: usize },
    FindingCmake { index: usize, sdk_root: String },
    ReadingPresets { index: usize, sdk_root: String, cmake: String },
    Aliasing { index: usize, sdk_root: String, cmake: String, preset: String, module: String },
    Cleaning {
        index: usize,
        sdk_root: String,
        cmake: String,
        preset: String,
        module: String,
        build_dir: String,
        modules_dir: String,
    },
    Configuring { index: usize, sdk_root: String, cmake: String, module: String, build_dir: String },
    Building {
        index: usize,
        config: usize,
        sdk_root: String,
        cmake: String,
        module: String,
        build_dir: String,
    },
    LegacyPreparing { index: usize, sdk_root: String },
    LegacyGenerating { index: usize, sdk_root: String },
    LegacyBuilding { index: usize, config: usize, sdk_root: String, retried: bool },
    Done,
}

/// A build in progress: its stage and the binaries built so far (version,
/// configuration, path).
pub struct BuildState {
    pub stage: BuildStage,
    pub built: Vec<(String, String, String)>,
}

/// What the last piece of outside work produced.
pub enum BuildEvent {
    /// Nothing yet: the build starts.
    Begin,
    /// The SDK of the version was prepared, or could not be.
    Prepared { result: Result<SdkResolution, String> },
    /// Where CMake was found, if anywhere.
    CmakeFound { path: Option<String> },
    /// The configure presets of the SDK, or the error reading them.
    Presets { result: Result<Vec<String>, String> },
    /// The modules folder that links the plugin into the SDK, or the error.
    Alias { result: Result<String, String> },
    /// A folder operation or a command finished.
    Done { result: Result<(), String> },
    /// A legacy build finished, with the name its binary carries.
    LegacyBuilt { result: Result<String, String> },
}

/// What the build asks for next.
pub enum BuildAction {
    /// Prepare the SDK of `version` (see `prepare_sdk`); report `Prepared`.
    PrepareSdk { version: String },
    /// Look for CMake (see `detect_cmake_path`); report `CmakeFound`.
    DetectCmake,
    /// Read the configure presets of the SDK; report `Presets`.
    ReadPresets { sdk_root: String },
    /// Link the plugin into the SDK's modules as `alias`; report `Alias`.
    PrepareModuleAlias { alias: String },
    /// Remove the folder when it exists; report `Done`.
    CleanDir { path: String },
    /// Create `create_dir` when given, announce `progress` when given, run
    /// the program in `cwd`; report `Done`, failing with the command's
    /// failure summary.
    RunCommand {
        program: String,
        args: Vec<String>,
        cwd: String,
        create_dir: Option<String>,
        progress: Option<BuildProgressEvent>,
    },
    /// Copy the plugin into the legacy SDK as `module_name` (see
    /// `copy_dir_recursive` and `ensure_legacy_solution_includes_module`);
    /// report `Done`.
    PrepareLegacyWorkspace { sdk_root: String, module_name: String },
    /// Run the legacy SDK's solution generator; report `Done`.
    GenerateLegacyProjects { sdk_root: String },
    /// Announce `progress` when given and build the legacy module for the
    /// configuration; report `LegacyBuilt`.
    BuildLegacy {
        sdk_root: String,
        configuration: String,
        module_name: String,
        progress: Option<BuildProgressEvent>,
    },
    /// Run the packaging plan; its result is the build's.
    Package { plan: PackagePlan },
    /// The build failed.
    Fail { error: String },
}

pub enum StageView {
    Start,
    Preparing { index: nat },
    FindingCmake { index: nat, sdk_root: Seq<char> },
    ReadingPresets { index: nat, sdk_root: Seq<char>, cmake: Seq<char> },
    Aliasing {
        index: nat,
        sdk_root: Seq<char>,
        cmake: Seq<char>,
        preset: Seq<char>,
        module: Seq<char>,
    },
    Cleaning {
        index: nat,
        sdk_root: Seq<char>,
        cmake: Seq<char>,
        preset: Seq<char>,
        module: Seq<char>,
        build_dir: Seq<char>,
        modules_dir: Seq<char>,
    },
    Configuring {
        index: nat,
        sdk_root: Seq<char>,
        cmake: Seq<char>,
        module: Seq<char>,
        build_dir: Seq<char>,
    },
    Building {
        index: nat,
        config: nat,
        sdk_root: Seq<char>,
        cmake: Seq<char>,
        module: Seq<char>,
        build_dir: Seq<char>,
    },
    LegacyPreparing { index: nat, sdk_root: Seq<char> },
    LegacyGenerating { index: nat, sdk_root: Seq<char> },
    LegacyBuilding { index: nat, config: nat, sdk_root: Seq<char>, retried: bool },
    Done,
}

pub enum EventView {
    Begin,
    Prepared { result: Result<ResolutionView, Seq<char>> },
    CmakeFound { path: Option<Seq<char>> },
    Presets { result: Result<Seq<Seq<char>>, Seq<char>> },
    Alias { result: Result<Seq<char>, Seq<char>> },
    Done { result: Result<(), Seq<char>> },
    LegacyBuilt { result: Result<Seq<char>, Seq<char>> },
}

/// A progress event: job, step, number of steps, label.
pub type ProgressView = (Seq<char>, u32, u32, Seq<char>);

pub enum ActionView {
    PrepareSdk { version: Seq<char> },
    DetectCmake,
    ReadPresets { sdk_root: Seq<char> },
    PrepareModuleAlias { alias: Seq<char> },
    CleanDir { path: Seq<char> },
    RunCommand {
        program: Seq<char>,
        args: Seq<Seq<char>>,
        cwd: Seq<char>,
        create_dir: Option<Seq<char>>,
        progress: Option<ProgressView>,
    },
    PrepareLegacyWorkspace { sdk_root: Seq<char>, module_name: Seq<char> },
    GenerateLegacyProjects { sdk_root: Seq<char> },
    BuildLegacy {
        sdk_root: Seq<char>,
        configuration: Seq<char>,
        module_name: Seq<char>,
        progress: Option<ProgressView>,
    },
    Package { plan: PlanView },
    Fail { error: Seq<char> },
}

pub open spec fn stage_view(s: BuildStage) -> StageView {
    match s {
        BuildStage::Start => StageView::Start,
        BuildStage::Preparing { index } => StageView::Preparing { index: index as nat },
        BuildStage::FindingCmake { index, sdk_root } => StageView::FindingCmake {
            index: index as nat,
            sdk_root: sdk_root@,
        },
        BuildStage::ReadingPresets { index, sdk_root, cmake } => StageView::ReadingPresets {
            index: index as nat,
            sdk_root: sdk_root@,
            cmake: cmake@,
        },
        BuildStage::Aliasing { index, sdk_root, cmake, preset, module } => StageView::Aliasing {
            index: index as nat,
            sdk_root: sdk_root@,
            cmake: cmake@,
            preset: preset@,
            module: module@,
        },
        BuildStage::Cleaning { index, sdk_root, cmake, preset, module, build_dir, modules_dir } =>
        StageView::Cleaning {
            index: index as nat,
            sdk_root: sdk_root@,
            cmake: cmake@,
            preset: preset@,
            module: module@,
            build_dir: build_dir@,
            modules_dir: modules_dir@,
        },
        BuildStage::Configuring { index, sdk_root, cmake, module, build_dir } =>
        StageView::Configuring {
            index: index as nat,
            sdk_root: sdk_root@,
            cmake: cmake@,
            module: module@,
            build_dir: build_dir@,
        },
        BuildStage::Building { index, config, sdk_root, cmake, module, build_dir } =>
        StageView::Building {
            index: index as nat,
            config: config as nat,
            sdk_root: sdk_root@,
            cmake: cmake@,
            module: module@,
            build_dir: build_dir@,
        },
        BuildStage::LegacyPreparing { index, sdk_root } => StageView::LegacyPreparing {
            index: index as nat,
            sdk_root: sdk_root@,
        },
        BuildStage::LegacyGenerating { index, sdk_root } => StageView::LegacyGenerating {
            index: index as nat,
            sdk_root: sdk_root@,
        },
        BuildStage::LegacyBuilding { index, config, sdk_root, retried } =>
        StageView::LegacyBuilding {
            index: index as nat,
            config: config as nat,
            sdk_root: sdk_root@,
            retried,
        },
        BuildStage::Done => StageView::Done,
    }
}

pub open spec fn event_view(e: BuildEvent) -> EventView {
    match e {
        BuildEvent::Begin => EventView::Begin,
        BuildEvent::Prepared { result } => EventView::Prepared {
            result: match result {
                Ok(r) => Ok(resolution_view(r)),
                Err(e) => Err(e@),
            },
        },
        BuildEvent::CmakeFound { path } => EventView::CmakeFound { path: ov(path) },
        BuildEvent::Presets { result } => EventView::Presets {
            result: match result {
                Ok(p) => Ok(sviews(p@)),
                Err(e) => Err(e@),
            },
        },
        BuildEvent::Alias { result } => EventView::Alias { result: srv(result) },
        BuildEvent::Done { result } => EventView::Done { result: rv(result) },
        BuildEvent::LegacyBuilt { result } => EventView::LegacyBuilt { result: srv(result) },
    }
}

pub open spec fn progress_view(p: BuildProgressEvent) -> ProgressView {
    (p.job_id@, p.current, p.total, p.label@)
}

pub open spec fn oprogress(p: Option<BuildProgressEvent>) -> Option<ProgressView> {
    match p {
        Some(x) => Some(progress_view(x)),
        None => None,
    }
}

pub open spec fn action_view(a: BuildAction) -> ActionView {
    match a {
        BuildAction::PrepareSdk { version } => ActionView::PrepareSdk { version: version@ },
        BuildAction::DetectCmake => ActionView::DetectCmake,
        BuildAction::ReadPresets { sdk_root } => ActionView::ReadPresets { sdk_root: sdk_root@ },
        BuildAction::PrepareModuleAlias { alias } => ActionView::PrepareModuleAlias {
            alias: alias@,
        },
        BuildAction::CleanDir { path } => ActionView::CleanDir { path: path@ },
        BuildAction::RunCommand { program, args, cwd, create_dir, progress } =>
        ActionView::RunCommand {
            program: program@,
            args: sviews(args@),
            cwd: cwd@,
            create_dir: ov(create_dir),
            progress: oprogress(progress),
        },
        BuildAction::PrepareLegacyWorkspace { sdk_root, module_name } =>
        ActionView::PrepareLegacyWorkspace { sdk_root: sdk_root@, module_name: module_name@ },
        BuildAction::GenerateLegacyProjects { sdk_root } => ActionView::GenerateLegacyProjects {
            sdk_root: sdk_root@,
        },
        BuildAction::BuildLegacy { sdk_root, configuration, module_name, progress } =>
        ActionView::BuildLegacy {
            sdk_root: sdk_root@,
            configuration: configuration@,
            module_name: module_name@,
            progress: oprogress(progress),
        },
        BuildAction::Package { plan } => ActionView::Package { plan: plan_view(plan) },
        BuildAction::Fail { error } => ActionView::Fail { error: error@ },
    }
}

// ---------------------------------------------------------------------------
// The course of a build
// ---------------------------------------------------------------------------

/// The view of a build in progress: its stage and the binaries so far.
pub type BuildStateView = (StageView, Seq<BinaryView>);

pub open spec fn state_view(s: BuildState) -> BuildStateView {
    (stage_view(s.stage), binaries_view(s.built@))
}

/// Positions in a stage lie within the plan's `n` versions and `m`
/// configurations.
pub open spec fn stage_wf(stage: StageView, n: nat, m: nat) -> bool {
    match stage {
        StageView::Start => true,
        StageView::Done => true,
        StageView::Preparing { index } => index < n,
        StageView::FindingCmake { index, .. } => index < n,
        StageView::ReadingPresets { index, .. } => index < n,
        StageView::Aliasing { index, .. } => index < n,
        StageView::Cleaning { index, .. } => index < n,
        StageView::Configuring { index, .. } => index < n,
        StageView::LegacyPreparing { index, .. } => index < n,
        StageView::LegacyGenerating { index, .. } => index < n,
        StageView::Building { index, config, .. } => index < n && config < m,
        StageView::LegacyBuilding { index, config, .. } => index < n && config < m,
    }
}

/// The event reports the outside work the stage waits for.
pub open spec fn event_fits(stage: StageView, event: EventView) -> bool {
    match stage {
        StageView::Start => true,
        StageView::Preparing { .. } => event is Prepared,
        StageView::FindingCmake { .. } => event is CmakeFound,
        StageView::ReadingPresets { .. } => event is Presets,
        StageView::Aliasing { .. } => event is Alias,
        StageView::Cleaning { .. } => event is Done,
        StageView::Configuring { .. } => event is Done,
        StageView::Building { .. } => event is Done,
        StageView::LegacyPreparing { .. } => event is Done,
        StageView::LegacyGenerating { .. } => event is Done,
        StageView::LegacyBuilding { .. } => event is LegacyBuilt,
        StageView::Done => false,
    }
}

/// The build failed with `error`.
pub open spec fn failed(built: Seq<BinaryView>, error: Seq<char>) -> (BuildStateView, ActionView) {
    ((StageView::Done, built), ActionView::Fail { error })
}

/// On to version `i`: prepare its SDK; after the last one, package.
pub open spec fn next_version(
    fs: Seq<EntryView>,
    request: BuildRequest,
    versions: Seq<Seq<char>>,
    built: Seq<BinaryView>,
    i: nat,
) -> (BuildStateView, ActionView) {
    if i < versions.len() {
        ((StageView::Preparing { index: i }, built), ActionView::PrepareSdk { version: versions[i as int] })
    } else {
        (
            (StageView::Done, built),
            ActionView::Package { plan: spec_package_outputs(fs, request, built) },
        )
    }
}

/// The progress of building configuration `k` of version `i`: step
/// `i * m + k + 1` of `total`.
pub open spec fn progress_at(
    job_id: Seq<char>,
    versions: Seq<Seq<char>>,
    configs: Seq<Seq<char>>,
    total: u32,
    i: nat,
    k: nat,
) -> ProgressView {
    (
        job_id,
        (i * configs.len() + k + 1) as u32,
        total,
        "Building C4D "@ + versions[i as int] + " "@ + configs[k as int],
    )
}

/// On to configuration `k` of a CMake build of version `i`; after the
/// last one, the next version.
pub open spec fn next_config(
    fs: Seq<EntryView>,
    request: BuildRequest,
    job_id: Seq<char>,
    plan: BuildPlan,
    built: Seq<BinaryView>,
    i: nat,
    k: nat,
    sdk_root: Seq<char>,
    cmake: Seq<char>,
    module: Seq<char>,
    build_dir: Seq<char>,
) -> (BuildStateView, ActionView) {
    let versions = sviews(plan.versions@);
    let configs = configs_view(plan.configs@);
    if k < configs.len() {
        (
            (
                StageView::Building { index: i, config: k, sdk_root, cmake, module, build_dir },
                built,
            ),
            ActionView::RunCommand {
                program: cmake,
                args: spec_build_args(build_dir, configs[k as int], module),
                cwd: build_dir,
                create_dir: None,
                progress: Some(progress_at(job_id, versions, configs, plan.total, i, k)),
            },
        )
    } else {
        next_version(fs, request, versions, built, i + 1)
    }
}

/// On to configuration `k` of a legacy build of version `i`; after the
/// last one, the next version.
pub open spec fn next_legacy_config(
    fs: Seq<EntryView>,
    request: BuildRequest,
    job_id: Seq<char>,
    plan: BuildPlan,
    built: Seq<BinaryView>,
    i: nat,
    k: nat,
    sdk_root: Seq<char>,
) -> (BuildStateView, ActionView) {
    let versions = sviews(plan.versions@);
    let configs = configs_view(plan.configs@);
    if k < configs.len() {
        (
            (StageView::LegacyBuilding { index: i, config: k, sdk_root, retried: false }, built),
            ActionView::BuildLegacy {
                sdk_root,
                configuration: configs[k as int],
                module_name: request.module_name@,
                progress: Some(progress_at(job_id, versions, configs, plan.total, i, k)),
            },
        )
    } else {
        next_version(fs, request, versions, built, i + 1)
    }
}

/// The configure step of a CMake build.
pub open spec fn configure_step(
    built: Seq<BinaryView>,
    i: nat,
    sdk_root: Seq<char>,
    cmake: Seq<char>,
    preset: Seq<char>,
    module: Seq<char>,
    build_dir: Seq<char>,
    modules_dir: Seq<char>,
) -> (BuildStateView, ActionView) {
    (
        (StageView::Configuring { index: i, sdk_root, cmake, module, build_dir }, built),
        ActionView::RunCommand {
            program: cmake,
            args: spec_configure_args(preset, build_dir, modules_dir),
            cwd: sdk_root,
            create_dir: Some(build_dir),
            progress: None,
        },
    )
}

/// One step of a build. Each version's SDK is prepared; a CMake SDK gets
/// CMake, a preset the platform accepts, the module's target name, the
/// plugin linked in as a module, a build folder (cleaned when asked),
/// a configure run and one build run per configuration, each followed by
/// finding its binary; a legacy SDK gets the plugin copied in, its projects
/// generated and one build per configuration (retried once when generated
/// files came late). Any failure ends the build with its error; after the
/// last version the binaries are packaged.
pub open spec fn spec_build_step(
    fs: Seq<EntryView>,
    home: Option<Seq<char>>,
    job_id: Seq<char>,
    request: BuildRequest,
    plan: BuildPlan,
    state: BuildStateView,
    event: EventView,
) -> (BuildStateView, ActionView) {
    let versions = sviews(plan.versions@);
    let configs = configs_view(plan.configs@);
    let platform = build_platform_view(plan.platform);
    let built = state.1;
    match state.0 {
        StageView::Start => next_version(fs, request, versions, built, 0),
        StageView::Preparing { index } => match event {
            EventView::Prepared { result } => match result {
                Err(e) => failed(built, e),
                Ok(res) => match res.2 {
                    None => failed(
                        built,
                        "SDK "@ + versions[index as int] + " did not resolve to a root path"@,
                    ),
                    Some(root) => if spec_is_cmake_sdk_root(fs, root) {
                        (
                            (StageView::FindingCmake { index, sdk_root: root }, built),
                            ActionView::DetectCmake,
                        )
                    } else if spec_is_legacy_sdk_root(fs, root) {
                        (
                            (StageView::LegacyPreparing { index, sdk_root: root }, built),
                            ActionView::PrepareLegacyWorkspace {
                                sdk_root: root,
                                module_name: request.module_name@,
                            },
                        )
                    } else {
                        failed(built, "Unsupported SDK layout: "@ + root)
                    },
                },
            },
            _ => failed(built, Seq::empty()),
        },
        StageView::FindingCmake { index, sdk_root } => match event {
            EventView::CmakeFound { path } => match path {
                None => failed(built, "CMake was not found"@),
                Some(cmake) => (
                    (StageView::ReadingPresets { index, sdk_root, cmake }, built),
                    ActionView::ReadPresets { sdk_root },
                ),
            },
            _ => failed(built, Seq::empty()),
        },
        StageView::ReadingPresets { index, sdk_root, cmake } => match event {
            EventView::Presets { result } => match result {
                Err(e) => failed(built, e),
                Ok(presets) => match spec_select_build_preset(platform.0, platform.1, presets) {
                    None => failed(
                        built,
                        "SDK "@ + versions[index as int] + " does not provide preset "@ + (
                        match platform.1 {
                            Some(p) => p,
                            None => "a supported platform preset"@,
                        }) + ". Available presets: "@ + join_with(presets, ", "@),
                    ),
                    Some(preset) => {
                        let alias = spec_cmake_target_name(request.module_name@);
                        match spec_resolve_cmake_build_module_name(
                            fs,
                            request.plugin_root@,
                            alias,
                        ) {
                            Err(e) => failed(built, e),
                            Ok(module) => (
                                (
                                    StageView::Aliasing { index, sdk_root, cmake, preset, module },
                                    built,
                                ),
                                ActionView::PrepareModuleAlias { alias },
                            ),
                        }
                    },
                },
            },
            _ => failed(built, Seq::empty()),
        },
        StageView::Aliasing { index, sdk_root, cmake, preset, module } => match event {
            EventView::Alias { result } => match result {
                Err(e) => failed(built, e),
                Ok(modules_dir) => match spec_build_dir_for(
                    home,
                    sdk_root,
                    versions[index as int],
                    preset,
                ) {
                    Err(e) => failed(built, e),
                    Ok(build_dir) => if request.clean_output {
                        (
                            (
                                StageView::Cleaning {
                                    index,
                                    sdk_root,
                                    cmake,
                                    preset,
                                    module,
                                    build_dir,
                                    modules_dir,
                                },
                                built,
                            ),
                            ActionView::CleanDir { path: build_dir },
                        )
                    } else {
                        configure_step(
                            built,
                            index,
                            sdk_root,
                            cmake,
                            preset,
                            module,
                            build_dir,
                            modules_dir,
                        )
                    },
                },
            },
            _ => failed(built, Seq::empty()),
        },
        StageView::Cleaning { index, sdk_root, cmake, preset, module, build_dir, modules_dir } =>
        match event {
            EventView::Done { result } => match result {
                Err(e) => failed(built, e),
                Ok(_) => configure_step(
                    built,
                    index,
                    sdk_root,
                    cmake,
                    preset,
                    module,
                    build_dir,
                    modules_dir,
                ),
            },
            _ => failed(built, Seq::empty()),
        },
        StageView::Configuring { index, sdk_root, cmake, module, build_dir } => match event {
            EventView::Done { result } => match result {
                Err(e) => failed(built, e),
                Ok(_) => next_config(
                    fs,
                    request,
                    job_id,
                    plan,
                    built,
                    index,
                    0,
                    sdk_root,
                    cmake,
                    module,
                    build_dir,
                ),
            },
            _ => failed(built, Seq::empty()),
        },
        StageView::Building { index, config, sdk_root, cmake, module, build_dir } => match event {
            EventView::Done { result } => match result {
                Err(e) => failed(built, e),
                Ok(_) => match spec_find_plugin_binary(
                    fs,
                    build_dir,
                    configs[config as int],
                    module,
                    plan.extension@,
                ) {
                    Err(e) => failed(built, e),
                    Ok(binary) => next_config(
                        fs,
                        request,
                        job_id,
                        plan,
                        built.push((versions[index as int], configs[config as int], binary)),
                        index,
                        config + 1,
                        sdk_root,
                        cmake,
                        module,
                        build_dir,
                    ),
                },
            },
            _ => failed(built, Seq::empty()),
        },
        StageView::LegacyPreparing { index, sdk_root } => match event {
            EventView::Done { result } => match result {
                Err(e) => failed(built, e),
                Ok(_) => (
                    (StageView::LegacyGenerating { index, sdk_root }, built),
                    ActionView::GenerateLegacyProjects { sdk_root },
                ),
            },
            _ => failed(built, Seq::empty()),
        },
        StageView::LegacyGenerating { index, sdk_root } => match event {
            EventView::Done { result } => match result {
                Err(e) => failed(built, e),
                Ok(_) => next_legacy_config(fs, request, job_id, plan, built, index, 0, sdk_root),
            },
            _ => failed(built, Seq::empty()),
        },
        StageView::LegacyBuilding { index, config, sdk_root, retried } => match event {
            EventView::LegacyBuilt { result } => match result {
                Ok(name) => match spec_find_legacy_plugin_binary(
                    fs,
                    sdk_root,
                    configs[config as int],
                    name,
                    plan.extension@,
                ) {
                    Err(e) => failed(built, e),
                    Ok(binary) => next_legacy_config(
                        fs,
                        request,
                        job_id,
                        plan,
                        built.push((versions[index as int], configs[config as int], binary)),
                        index,
                        config + 1,
                        sdk_root,
                    ),
                },
                Err(e) => if !retried && spec_is_missing_legacy_generated_file_error(e) {
                    (
                        (StageView::LegacyBuilding { index, config, sdk_root, retried: true }, built),
                        ActionView::BuildLegacy {
                            sdk_root,
                            configuration: configs[config as int],
                            module_name: request.module_name@,
                            progress: None,
                        },
                    )
                } else {
                    failed(built, e)
                },
            },
            _ => failed(built, Seq::empty()),
        },
        StageView::Done => failed(built, Seq::empty()),
    }
}

fn fail_with(built: Vec<(String, String, String)>, error: String) -> (r: (BuildState, BuildAction))
    ensures
        (state_view(r.0), action_view(r.1)) == failed(binaries_view(built@), error@),
{
    (BuildState { stage: BuildStage::Done, built }, BuildAction::Fail { error })
}

fn next_version_step(
    fs: &FsSnapshot,
    request: &BuildRequest,
    plan: &BuildPlan,
    built: Vec<(String, String, String)>,
    i: usize,
) -> (r: (BuildState, BuildAction))
    requires
        i <= plan.versions@.len(),
    ensures
        (state_view(r.0), action_view(r.1)) == next_version(
            fs@,
            *request,
            sviews(plan.versions@),
            binaries_view(built@),
            i as nat,
        ),
        stage_wf(stage_view(r.0.stage), plan.versions@.len(), plan.configs@.len()),
{
    if i < plan.versions.len() {
        let version = plan.versions[i].clone();
        assert(sviews(plan.versions@)[i as int] == plan.versions@[i as int]@);
        (BuildState { stage: BuildStage::Preparing { index: i }, built }, BuildAction::PrepareSdk { version })
    } else {
        let package = package_outputs(fs, request, &built);
        (BuildState { stage: BuildStage::Done, built }, BuildAction::Package { plan: package })
    }
}

fn progress_of(job_id: &str, plan: &BuildPlan, i: usize, k: usize) -> (r: BuildProgressEvent)
    requires
        i < plan.versions@.len(),
        k < plan.configs@.len(),
        plan.versions@.len() * plan.configs@.len() <= u32::MAX,
    ensures
        progress_view(r) == progress_at(
            job_id@,
            sviews(plan.versions@),
            configs_view(plan.configs@),
            plan.total,
            i as nat,
            k as nat,
        ),
{
    let n = plan.versions.len();
    let m = plan.configs.len();
    assert(i * m + k + 1 <= n * m) by (nonlinear_arith)
        requires
            i < n,
            k < m,
    ;
    assert(i * m <= n * m) by (nonlinear_arith)
        requires
            i < n,
    ;
    let current = (i as u64) * (m as u64) + (k as u64) + 1;
    let version = chars_of(plan.versions[i].as_str());
    let config = chars_of(plan.configs[k]);
    let label = concat(&concat(&concat(&chars_of("Building C4D "), &version), &chars_of(" ")), &config);
    assert(sviews(plan.versions@)[i as int] == plan.versions@[i as int]@);
    assert(configs_view(plan.configs@)[k as int] == plan.configs@[k as int]@);
    assert(sviews(plan.versions@).len() == n);
    assert(configs_view(plan.configs@).len() == m);
    BuildProgressEvent {
        job_id: crate::text::owned(job_id),
        current: current as u32,
        total: plan.total,
        label: string_of(&label),
    }
}

fn next_config_step(
    fs: &FsSnapshot,
    request: &BuildRequest,
    job_id: &str,
    plan: &BuildPlan,
    built: Vec<(String, String, String)>,
    i: usize,
    k: usize,
    sdk_root: String,
    cmake: String,
    module: String,
    build_dir: String,
) -> (r: (BuildState, BuildAction))
    requires
        i < plan.versions@.len(),
        k <= plan.configs@.len(),
        plan.versions@.len() * plan.configs@.len() <= u32::MAX,
    ensures
        (state_view(r.0), action_view(r.1)) == next_config(
            fs@,
            *request,
            job_id@,
            *plan,
            binaries_view(built@),
            i as nat,
            k as nat,
            sdk_root@,
            cmake@,
            module@,
            build_dir@,
        ),
        stage_wf(stage_view(r.0.stage), plan.versions@.len(), plan.configs@.len()),
{
    assert(configs_view(plan.configs@).len() == plan.configs@.len());
    if k < plan.configs.len() {
        let progress = progress_of(job_id, plan, i, k);
        let args = build_args(build_dir.as_str(), plan.configs[k], module.as_str());
        assert(configs_view(plan.configs@)[k as int] == plan.configs@[k as int]@);
        let cwd = build_dir.clone();
        let program = cmake.clone();
        (
            BuildState {
                stage: BuildStage::Building { index: i, config: k, sdk_root, cmake, module, build_dir },
                built,
            },
            BuildAction::RunCommand { program, args, cwd, create_dir: None, progress: Some(progress) },
        )
    } else {
        let _versions_len = plan.versions.len();
        next_version_step(fs, request, plan, built, i + 1)
    }
}

fn next_legacy_config_step(
    fs: &FsSnapshot,
    request: &BuildRequest,
    job_id: &str,
    plan: &BuildPlan,
    built: Vec<(String, String, String)>,
    i: usize,
    k: usize,
    sdk_root: String,
) -> (r: (BuildState, BuildAction))
    requires
        i < plan.versions@.len(),
        k <= plan.configs@.len(),
        plan.versions@.len() * plan.configs@.len() <= u32::MAX,
    ensures
        (state_view(r.0), action_view(r.1)) == next_legacy_config(
            fs@,
            *request,
            job_id@,
            *plan,
            binaries_view(built@),
            i as nat,
            k as nat,
            sdk_root@,
        ),
        stage_wf(stage_view(r.0.stage), plan.versions@.len(), plan.configs@.len()),
{
    assert(configs_view(plan.configs@).len() == plan.configs@.len());
    if k < plan.configs.len() {
        let progress = progress_of(job_id, plan, i, k);
        assert(configs_view(plan.configs@)[k as int] == plan.configs@[k as int]@);
        let root = sdk_root.clone();
        (
            BuildState {
                stage: BuildStage::LegacyBuilding { index: i, config: k, sdk_root, retried: false },
                built,
            },
            BuildAction::BuildLegacy {
                sdk_root: root,
                configuration: crate::text::owned(plan.configs[k]),
                module_name: request.module_name.clone(),
                progress: Some(progress),
            },
        )
    } else {
        let _versions_len = plan.versions.len();
        next_version_step(fs, request, plan, built, i + 1)
    }
}

fn configure_action(
    built: Vec<(String, String, String)>,
    i: usize,
    sdk_root: String,
    cmake: String,
    preset: String,
    module: String,
    build_dir: String,
    modules_dir: String,
) -> (r: (BuildState, BuildAction))
    ensures
        (state_view(r.0), action_view(r.1)) == configure_step(
            binaries_view(built@),
            i as nat,
            sdk_root@,
            cmake@,
            preset@,
            module@,
            build_dir@,
            modules_dir@,
        ),
        r.0.stage matches BuildStage::Configuring { index, .. } && index == i,
{
    let args = configure_args(preset.as_str(), build_dir.as_str(), modules_dir.as_str());
    let program = cmake.clone();
    let cwd = sdk_root.clone();
    let create = build_dir.clone();
    (
        BuildState {
            stage: BuildStage::Configuring { index: i, sdk_root, cmake, module, build_dir },
            built,
        },
        BuildAction::RunCommand { program, args, cwd, create_dir: Some(create), progress: None },
    )
}

fn push_binary(
    built: Vec<(String, String, String)>,
    version: &str,
    configuration: &str,
    binary: String,
) -> (r: Vec<(String, String, String)>)
    ensures
        binaries_view(r@) == binaries_view(built@).push((version@, configuration@, binary@)),
{
    let mut built = built;
    let ghost before = built@;
    built.push((crate::text::owned(version), crate::text::owned(configuration), binary));
    assert(binaries_view(built@) =~= binaries_view(before).push((version@, configuration@, binary@)));
    built
}

fn presets_message(version: &str, platform: &BuildPlatform, presets: &Vec<String>) -> (r: String)
    ensures
        r@ == "SDK "@ + version@ + " does not provide preset "@ + (match osv(platform.preset) {
            Some(p) => p,
            None => "a supported platform preset"@,
        }) + ". Available presets: "@ + join_with(sviews(presets@), ", "@),
{
    let expected = match platform.preset {
        Some(p) => chars_of(p),
        None => chars_of("a supported platform preset"),
    };
    let mut pieces: Vec<Vec<char>> = Vec::new();
    let mut j: usize = 0;
    while j < presets.len()
        invariant
            j <= presets.len(),
            vviews(pieces@) == sviews(presets@).take(j as int),
        decreases presets.len() - j,
    {
        let ghost prev = pieces@;
        pieces.push(chars_of(presets[j].as_str()));
        proof {
            crate::text::lemma_vviews_push(prev, pieces@[prev.len() as int]);
            assert(pieces@ == prev.push(pieces@[prev.len() as int]));
        }
        assert(sviews(presets@).take(j + 1) =~= sviews(presets@).take(j as int).push(
            presets@[j as int]@,
        ));
        j += 1;
    }
    assert(sviews(presets@).take(presets.len() as int) =~= sviews(presets@));
    let listed = join_chars(&pieces, &chars_of(", "));
    let m = concat(
        &concat(
            &concat(&concat(&chars_of("SDK "), &chars_of(version)), &chars_of(" does not provide preset ")),
            &expected,
        ),
        &chars_of(". Available presets: "),
    );
    string_of(&concat(&m, &listed))
}

/// One step of a build (see `spec_build_step`). The caller starts at
/// `BuildStage::Start` with `BuildEvent::Begin`, performs each action and
/// reports its outcome, until `Package` or `Fail`; `fs` lists the file
/// system as it is at each step.
pub fn execute_build(
    fs: &FsSnapshot,
    home: Option<&str>,
    job_id: &str,
    request: &BuildRequest,
    plan: &BuildPlan,
    state: BuildState,
    event: BuildEvent,
) -> (r: (BuildState, BuildAction))
    requires
        stage_wf(stage_view(state.stage), plan.versions@.len(), plan.configs@.len()),
        event_fits(stage_view(state.stage), event_view(event)),
        plan.versions@.len() * plan.configs@.len() <= u32::MAX,
    ensures
        (state_view(r.0), action_view(r.1)) == spec_build_step(
            fs@,
            osv(home),
            job_id@,
            *request,
            *plan,
            state_view(state),
            event_view(event),
        ),
        stage_wf(stage_view(r.0.stage), plan.versions@.len(), plan.configs@.len()),
{
    let BuildState { stage, built } = state;
    let _versions_len = plan.versions.len();
    let _configs_len = plan.configs.len();
    assert(sviews(plan.versions@).len() == plan.versions@.len());
    assert(configs_view(plan.configs@).len() == plan.configs@.len());
    match stage {
        BuildStage::Start => next_version_step(fs, request, plan, built, 0),
        BuildStage::Preparing { index } => {
            assert(sviews(plan.versions@)[index as int] == plan.versions@[index as int]@);
            match event {
                BuildEvent::Prepared { result } => match result {
                    Err(e) => fail_with(built, e),
                    Ok(res) => match res.sdk_root {
                        None => {
                            let m = concat(
                                &concat(&chars_of("SDK "), &chars_of(plan.versions[index].as_str())),
                                &chars_of(" did not resolve to a root path"),
                            );
                            fail_with(built, string_of(&m))
                        },
                        Some(root) => {
                            if is_cmake_sdk_root(fs, root.as_str()) {
                                (
                                    BuildState {
                                        stage: BuildStage::FindingCmake { index, sdk_root: root },
                                        built,
                                    },
                                    BuildAction::DetectCmake,
                                )
                            } else if is_legacy_sdk_root(fs, root.as_str()) {
                                let r2 = root.clone();
                                (
                                    BuildState {
                                        stage: BuildStage::LegacyPreparing { index, sdk_root: root },
                                        built,
                                    },
                                    BuildAction::PrepareLegacyWorkspace {
                                        sdk_root: r2,
                                        module_name: request.module_name.clone(),
                                    },
                                )
                            } else {
                                let m = concat(&chars_of("Unsupported SDK layout: "), &chars_of(root.as_str()));
                                fail_with(built, string_of(&m))
                            }
                        },
                    },
                },
                _ => fail_with(built, String::new()),
            }
        },
        BuildStage::FindingCmake { index, sdk_root } => match event {
            BuildEvent::CmakeFound { path } => match path {
                None => fail_with(built, crate::text::owned("CMake was not found")),
                Some(cmake) => {
                    let r2 = sdk_root.clone();
                    (
                        BuildState { stage: BuildStage::ReadingPresets { index, sdk_root, cmake }, built },
                        BuildAction::ReadPresets { sdk_root: r2 },
                    )
                },
            },
            _ => fail_with(built, String::new()),
        },
        BuildStage::ReadingPresets { index, sdk_root, cmake } => match event {
            BuildEvent::Presets { result } => match result {
                Err(e) => fail_with(built, e),
                Ok(presets) => {
                    assert(sviews(plan.versions@)[index as int] == plan.versions@[index as int]@);
                    match select_build_preset(&plan.platform, &presets) {
                        None => {
                            let m = presets_message(plan.versions[index].as_str(), &plan.platform, &presets);
                            fail_with(built, m)
                        },
                        Some(p) => {
                            let preset = crate::text::owned(p);
                            let alias = cmake_target_name(request.module_name.as_str());
                            match resolve_cmake_build_module_name(
                                fs,
                                request.plugin_root.as_str(),
                                alias.as_str(),
                            ) {
                                Err(e) => fail_with(built, e),
                                Ok(module) => (
                                    BuildState {
                                        stage: BuildStage::Aliasing { index, sdk_root, cmake, preset, module },
                                        built,
                                    },
                                    BuildAction::PrepareModuleAlias { alias },
                                ),
                            }
                        },
                    }
                },
            },
            _ => fail_with(built, String::new()),
        },
        BuildStage::Aliasing { index, sdk_root, cmake, preset, module } => match event {
            BuildEvent::Alias { result } => match result {
                Err(e) => fail_with(built, e),
                Ok(modules_dir) => {
                    assert(sviews(plan.versions@)[index as int] == plan.versions@[index as int]@);
                    match build_dir_for(
                        home,
                        sdk_root.as_str(),
                        plan.versions[index].as_str(),
                        preset.as_str(),
                    ) {
                        Err(e) => fail_with(built, e),
                        Ok(build_dir) => if request.clean_output {
                            let path = build_dir.clone();
                            (
                                BuildState {
                                    stage: BuildStage::Cleaning {
                                        index,
                                        sdk_root,
                                        cmake,
                                        preset,
                                        module,
                                        build_dir,
                                        modules_dir,
                                    },
                                    built,
                                },
                                BuildAction::CleanDir { path },
                            )
                        } else {
                            configure_action(built, index, sdk_root, cmake, preset, module, build_dir, modules_dir)
                        },
                    }
                },
            },
            _ => fail_with(built, String::new()),
        },
        BuildStage::Cleaning { index, sdk_root, cmake, preset, module, build_dir, modules_dir } =>
        match event {
            BuildEvent::Done { result } => match result {
                Err(e) => fail_with(built, e),
                Ok(_) => configure_action(
                    built,
                    index,
                    sdk_root,
                    cmake,
                    preset,
                    module,
                    build_dir,
                    modules_dir,
                ),
            },
            _ => fail_with(built, String::new()),
        },
        BuildStage::Configuring { index, sdk_root, cmake, module, build_dir } => match event {
            BuildEvent::Done { result } => match result {
                Err(e) => fail_with(built, e),
                Ok(_) => next_config_step(
                    fs,
                    request,
                    job_id,
                    plan,
                    built,
                    index,
                    0,
                    sdk_root,
                    cmake,
                    module,
                    build_dir,
                ),
            },
            _ => fail_with(built, String::new()),
        },
        BuildStage::Building { index, config, sdk_root, cmake, module, build_dir } => match event {
            BuildEvent::Done { result } => match result {
                Err(e) => fail_with(built, e),
                Ok(_) => {
                    assert(configs_view(plan.configs@)[config as int] == plan.configs@[config as int]@);
                    assert(sviews(plan.versions@)[index as int] == plan.versions@[index as int]@);
                    match find_plugin_binary(
                        fs,
                        build_dir.as_str(),
                        plan.configs[config],
                        module.as_str(),
                        plan.extension,
                    ) {
                        Err(e) => fail_with(built, e),
                        Ok(binary) => {
                            let built = push_binary(
                                built,
                                plan.versions[index].as_str(),
                                plan.configs[config],
                                binary,
                            );
                            next_config_step(
                                fs,
                                request,
                                job_id,
                                plan,
                                built,
                                index,
                                config + 1,
                                sdk_root,
                                cmake,
                                module,
                                build_dir,
                            )
                        },
                    }
                },
            },
            _ => fail_with(built, String::new()),
        },
        BuildStage::LegacyPreparing { index, sdk_root } => match event {
            BuildEvent::Done { result } => match result {
                Err(e) => fail_with(built, e),
                Ok(_) => {
                    let r2 = sdk_root.clone();
                    (
                        BuildState { stage: BuildStage::LegacyGenerating { index, sdk_root }, built },
                        BuildAction::GenerateLegacyProjects { sdk_root: r2 },
                    )
                },
            },
            _ => fail_with(built, String::new()),
        },
        BuildStage::LegacyGenerating { index, sdk_root } => match event {
            BuildEvent::Done { result } => match result {
                Err(e) => fail_with(built, e),
                Ok(_) => next_legacy_config_step(fs, request, job_id, plan, built, index, 0, sdk_root),
            },
            _ => fail_with(built, String::new()),
        },
        BuildStage::LegacyBuilding { index, config, sdk_root, retried } => match event {
            BuildEvent::LegacyBuilt { result } => {
                assert(configs_view(plan.configs@)[config as int] == plan.configs@[config as int]@);
                assert(sviews(plan.versions@)[index as int] == plan.versions@[index as int]@);
                match result {
                    Ok(name) => match find_legacy_plugin_binary(
                        fs,
                        sdk_root.as_str(),
                        plan.configs[config],
                        name.as_str(),
                        plan.extension,
                    ) {
                        Err(e) => fail_with(built, e),
                        Ok(binary) => {
                            let built = push_binary(
                                built,
                                plan.versions[index].as_str(),
                                plan.configs[config],
                                binary,
                            );
                            next_legacy_config_step(
                                fs,
                                request,
                                job_id,
                                plan,
                                built,
                                index,
                                config + 1,
                                sdk_root,
                            )
                        },
                    },
                    Err(e) => if !retried && is_missing_legacy_generated_file_error(e.as_str()) {
                        let r2 = sdk_root.clone();
                        (
                            BuildState {
                                stage: BuildStage::LegacyBuilding { index, config, sdk_root, retried: true },
                                built,
                            },
                            BuildAction::BuildLegacy {
                                sdk_root: r2,
                                configuration: crate::text::owned(plan.configs[config]),
                                module_name: request.module_name.clone(),
                                progress: None,
                            },
                        )
                    } else {
                        fail_with(built, e)
                    },
                }
            },
            _ => fail_with(built, String::new()),
        },
        BuildStage::Done => fail_with(built, String::new()),
    }
}

// ---------------------------------------------------------------------------
// Laws of a build's course
// ---------------------------------------------------------------------------

/// Progress counts build steps: building configuration `k` of version `i`
/// is step `i * m + k + 1`, between one and the number of steps.
pub proof fn law_progress_counts_build_steps(
    job_id: Seq<char>,
    plan: BuildPlan,
    i: nat,
    k: nat,
)
    requires
        i < plan.versions@.len(),
        k < plan.configs@.len(),
        plan.versions@.len() * plan.configs@.len() <= u32::MAX,
    ensures
        progress_at(job_id, sviews(plan.versions@), configs_view(plan.configs@), plan.total, i, k).1
            == i * plan.configs@.len() + k + 1,
        1 <= progress_at(
            job_id,
            sviews(plan.versions@),
            configs_view(plan.configs@),
            plan.total,
            i,
            k,
        ).1 <= plan.versions@.len() * plan.configs@.len(),
{
    let n = plan.versions@.len();
    let m = plan.configs@.len();
    assert(configs_view(plan.configs@).len() == m);
    assert(i * m + k + 1 <= n * m) by (nonlinear_arith)
        requires
            i < n,
            k < m,
    ;
    assert(0 <= i * m) by (nonlinear_arith);
}

/// A build ends exactly when it fails or packages: every other action
/// leaves it in a stage that waits for the action's outcome.
pub proof fn law_build_ends_on_fail_or_package(
    fs: Seq<EntryView>,
    home: Option<Seq<char>>,
    job_id: Seq<char>,
    request: BuildRequest,
    plan: BuildPlan,
    state: BuildStateView,
    event: EventView,
)
    ensures
        (spec_build_step(fs, home, job_id, request, plan, state, event).1 is Fail
            || spec_build_step(fs, home, job_id, request, plan, state, event).1 is Package)
            <==> spec_build_step(fs, home, job_id, request, plan, state, event).0.0 is Done,
{
}

} // verus!
