use c4d_plugin_compiler::compiler::sdk::cache::{
    fetch_step, unpack_step, FetchAction, FetchStage, UnpackAction, UnpackStage,
};
use c4d_plugin_compiler::compiler::sdk::{sdk_archive_path, sdk_cache_root, SdkContext};
use c4d_plugin_compiler::fs::{EntryKind, FsEntry, FsSnapshot};
use c4d_plugin_compiler::types::SdkSourceConfig;
use c4d_plugin_compiler::utils::platform::HostOs;

fn entry(path: &str, kind: EntryKind, readable_zip: bool) -> FsEntry {
    FsEntry {
        path: path.to_string(),
        kind,
        readable_zip,
    }
}

fn sdk_tree(root: &str) -> Vec<FsEntry> {
    vec![
        entry(root, EntryKind::Dir, false),
        entry(&format!("{root}/CMakeLists.txt"), EntryKind::File, false),
        entry(&format!("{root}/CMakePresets.json"), EntryKind::File, false),
        entry(&format!("{root}/cmake"), EntryKind::Dir, false),
        entry(&format!("{root}/frameworks"), EntryKind::Dir, false),
        entry(&format!("{root}/plugins"), EntryKind::Dir, false),
    ]
}

fn context() -> SdkContext {
    SdkContext {
        os: HostOs::Linux,
        documents_dir: Some("/docs".to_string()),
        stored_config: Ok(SdkSourceConfig {
            sdk_root: Some("/sdks".to_string()),
        }),
    }
}

fn fs(entries: Vec<FsEntry>) -> FsSnapshot {
    FsSnapshot { entries }
}

fn archive_entry() -> FsEntry {
    entry("/zips/sdk.zip", EntryKind::File, true)
}

#[test]
fn unpack_requires_the_archive_file() {
    let ctx = context();
    let (_, action) = unpack_step(&fs(vec![]), &ctx, "2025", "/zips/sdk.zip", false, UnpackStage::Start, Ok(()));
    assert!(matches!(action, UnpackAction::Finish { result: Err(e) } if e == "Required file not found: /zips/sdk.zip"));
}

#[test]
fn unpack_extracts_into_a_staging_folder_then_moves_it_into_the_cache() {
    let ctx = context();
    let listing = fs(vec![archive_entry()]);
    let target = sdk_cache_root(&listing, &ctx, "2025");
    assert_eq!(target, "/sdks/2025/sdk");
    let staging = "/sdks/2025/sdk.extracting";
    let (stage, action) = unpack_step(&listing, &ctx, "2025", "/zips/sdk.zip", false, UnpackStage::Start, Ok(()));
    assert!(matches!(&action, UnpackAction::Unzip { archive, target: t } if archive == "/zips/sdk.zip" && t == staging));

    let mut entries = vec![archive_entry()];
    entries.extend(sdk_tree(staging));
    let (stage, action) = unpack_step(&fs(entries), &ctx, "2025", "/zips/sdk.zip", false, stage, Ok(()));
    assert!(matches!(&action, UnpackAction::Move { from, to, failure }
        if from == staging && to == &target
            && failure == "Failed to move /sdks/2025/sdk.extracting to /sdks/2025/sdk"));

    let mut moved = vec![archive_entry()];
    moved.extend(sdk_tree(&target));
    let (_, action) = unpack_step(&fs(moved), &ctx, "2025", "/zips/sdk.zip", false, stage, Ok(()));
    assert!(matches!(action, UnpackAction::Finish { result: Ok(root) } if root == target));
}

#[test]
fn unpack_answers_a_nested_sdk_at_its_place_in_the_cache() {
    let ctx = context();
    let mut entries = vec![archive_entry(), entry("/sdks/2025/sdk.extracting", EntryKind::Dir, false)];
    entries.extend(sdk_tree("/sdks/2025/sdk.extracting/cinema4d_cpp_sdk"));
    let stage = UnpackStage::Unzipping { target: "/sdks/2025/sdk".to_string() };
    let (stage, action) = unpack_step(&fs(entries), &ctx, "2025", "/zips/sdk.zip", false, stage, Ok(()));
    assert!(matches!(&action, UnpackAction::Move { from, to, .. }
        if from == "/sdks/2025/sdk.extracting" && to == "/sdks/2025/sdk"));
    let (_, action) = unpack_step(&fs(vec![archive_entry()]), &ctx, "2025", "/zips/sdk.zip", false, stage, Ok(()));
    assert!(matches!(action, UnpackAction::Finish { result: Ok(root) }
        if root == "/sdks/2025/sdk/cinema4d_cpp_sdk"));
}

#[test]
fn unpack_removes_the_staging_folder_when_unzipping_fails() {
    let ctx = context();
    let stage = UnpackStage::Unzipping { target: "/sdks/2025/sdk".to_string() };
    let listing = fs(vec![archive_entry()]);
    let (stage, action) = unpack_step(&listing, &ctx, "2025", "/zips/sdk.zip", false, stage, Err("Failed to extract SDK zip: bad".to_string()));
    assert!(matches!(&action, UnpackAction::RemoveDir { path, failure }
        if path == "/sdks/2025/sdk.extracting" && failure == "Failed to remove /sdks/2025/sdk.extracting"));
    let (_, action) = unpack_step(&listing, &ctx, "2025", "/zips/sdk.zip", false, stage, Err("gone".to_string()));
    assert!(matches!(action, UnpackAction::Finish { result: Err(e) } if e == "Failed to extract SDK zip: bad"));
}

#[test]
fn unpack_removes_the_staging_folder_when_the_move_fails() {
    let ctx = context();
    let stage = UnpackStage::Installing {
        target: "/sdks/2025/sdk".to_string(),
        root: "/sdks/2025/sdk.extracting".to_string(),
    };
    let listing = fs(vec![archive_entry()]);
    let (stage, action) = unpack_step(&listing, &ctx, "2025", "/zips/sdk.zip", false, stage, Err("denied".to_string()));
    assert!(matches!(&action, UnpackAction::RemoveDir { path, .. } if path == "/sdks/2025/sdk.extracting"));
    let (_, action) = unpack_step(&listing, &ctx, "2025", "/zips/sdk.zip", false, stage, Ok(()));
    assert!(matches!(action, UnpackAction::Finish { result: Err(e) } if e == "denied"));
}

#[test]
fn unpack_clears_a_leftover_staging_folder_first() {
    let ctx = context();
    let listing = fs(vec![archive_entry(), entry("/sdks/2025/sdk.extracting", EntryKind::Dir, false)]);
    let (stage, action) = unpack_step(&listing, &ctx, "2025", "/zips/sdk.zip", false, UnpackStage::Start, Ok(()));
    assert!(matches!(&action, UnpackAction::RemoveDir { path, failure }
        if path == "/sdks/2025/sdk.extracting"
            && failure == "Failed to remove stale SDK extraction /sdks/2025/sdk.extracting"));
    let (_, action) = unpack_step(&fs(vec![archive_entry()]), &ctx, "2025", "/zips/sdk.zip", false, stage, Ok(()));
    assert!(matches!(action, UnpackAction::Unzip { target, .. } if target == "/sdks/2025/sdk.extracting"));
}

#[test]
fn unpack_keeps_a_ready_cache_without_refresh() {
    let ctx = context();
    let mut entries = vec![archive_entry()];
    entries.extend(sdk_tree("/sdks/2025/sdk"));
    let (_, action) = unpack_step(&fs(entries), &ctx, "2025", "/zips/sdk.zip", false, UnpackStage::Start, Ok(()));
    assert!(matches!(action, UnpackAction::Finish { result: Ok(root) } if root == "/sdks/2025/sdk"));
}

#[test]
fn unpack_refresh_removes_the_cache_first_and_stops_on_failure() {
    let ctx = context();
    let mut entries = vec![archive_entry()];
    entries.extend(sdk_tree("/sdks/2025/sdk"));
    let listing = fs(entries);
    let (stage, action) = unpack_step(&listing, &ctx, "2025", "/zips/sdk.zip", true, UnpackStage::Start, Ok(()));
    assert!(matches!(&action, UnpackAction::RemoveDir { path, failure }
        if path == "/sdks/2025/sdk" && failure == "Failed to remove /sdks/2025/sdk"));
    let (_, action) = unpack_step(&listing, &ctx, "2025", "/zips/sdk.zip", true, stage, Err("busy".to_string()));
    assert!(matches!(action, UnpackAction::Finish { result: Err(e) } if e == "busy"));
}

#[test]
fn unpack_replaces_an_incomplete_cache() {
    let ctx = context();
    let listing = fs(vec![
        archive_entry(),
        entry("/sdks/2025/sdk", EntryKind::Dir, false),
    ]);
    let (stage, action) = unpack_step(&listing, &ctx, "2025", "/zips/sdk.zip", false, UnpackStage::Start, Ok(()));
    assert!(matches!(&action, UnpackAction::RemoveDir { failure, .. }
        if failure == "Failed to remove incomplete SDK cache /sdks/2025/sdk"));
    let after = fs(vec![archive_entry()]);
    let (stage, action) = unpack_step(&after, &ctx, "2025", "/zips/sdk.zip", false, stage, Ok(()));
    assert!(matches!(&action, UnpackAction::Unzip { target, .. } if target == "/sdks/2025/sdk.extracting"));
    let empty = fs(vec![archive_entry(), entry("/sdks/2025/sdk.extracting", EntryKind::Dir, false)]);
    let (stage, action) = unpack_step(&empty, &ctx, "2025", "/zips/sdk.zip", false, stage, Ok(()));
    assert!(matches!(&action, UnpackAction::RemoveDir { path, .. } if path == "/sdks/2025/sdk.extracting"));
    let (_, action) = unpack_step(&after, &ctx, "2025", "/zips/sdk.zip", false, stage, Ok(()));
    assert!(matches!(action, UnpackAction::Finish { result: Err(e) }
        if e == "Extracted SDK root is incomplete or invalid: /sdks/2025/sdk.extracting"));
}

#[test]
fn fetch_creates_the_download_folder_then_downloads() {
    let ctx = context();
    let listing = fs(vec![]);
    let archive = sdk_archive_path(&listing, &ctx, "2025");
    let (stage, action) = fetch_step(&listing, &ctx, "2025", "https://x/sdk.zip", FetchStage::Start, Ok(()));
    assert!(matches!(&action, FetchAction::CreateDir { path, failure }
        if path == "/sdks/2025/downloads" && failure == "Failed to create /sdks/2025/downloads"));
    let (stage, action) = fetch_step(&listing, &ctx, "2025", "https://x/sdk.zip", stage, Ok(()));
    assert!(matches!(&action, FetchAction::Download { url, target } if url == "https://x/sdk.zip" && target == &archive));
    let (_, action) = fetch_step(&listing, &ctx, "2025", "https://x/sdk.zip", stage, Ok(()));
    assert!(matches!(action, FetchAction::Finish { result: Ok(path) } if path == archive));
}

#[test]
fn fetch_keeps_a_readable_archive_and_replaces_a_broken_one() {
    let ctx = context();
    let archive = sdk_archive_path(&fs(vec![]), &ctx, "2025");
    let readable = fs(vec![entry(&archive, EntryKind::File, true)]);
    let (stage, _) = fetch_step(&readable, &ctx, "2025", "https://x/sdk.zip", FetchStage::Start, Ok(()));
    let (_, action) = fetch_step(&readable, &ctx, "2025", "https://x/sdk.zip", stage, Ok(()));
    assert!(matches!(action, FetchAction::Finish { result: Ok(path) } if path == archive));

    let broken = fs(vec![entry(&archive, EntryKind::File, false)]);
    let (stage, _) = fetch_step(&broken, &ctx, "2025", "https://x/sdk.zip", FetchStage::Start, Ok(()));
    let (stage, action) = fetch_step(&broken, &ctx, "2025", "https://x/sdk.zip", stage, Ok(()));
    let expected = format!("Failed to remove invalid SDK archive {archive}");
    assert!(matches!(&action, FetchAction::RemoveFile { path, failure } if path == &archive && failure == &expected));
    let (_, action) = fetch_step(&broken, &ctx, "2025", "https://x/sdk.zip", stage, Err("denied".to_string()));
    assert!(matches!(action, FetchAction::Finish { result: Err(e) } if e == "denied"));
}
