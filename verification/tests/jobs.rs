use c4d_plugin_compiler::compiler::jobs::{copy_artifacts, create_job_id, JobManager};
use c4d_plugin_compiler::types::BuildArtifact;

fn artifact(kind: &str, path: &str) -> BuildArtifact {
    BuildArtifact {
        version: Some("2026".to_string()),
        configuration: None,
        kind: kind.to_string(),
        path: path.to_string(),
    }
}

#[test]
fn cancel_answers_whether_the_job_exists() {
    let mut jobs = JobManager::new();
    assert!(!jobs.cancel_build("build-1"));
    jobs.register("build-1");
    assert!(jobs.cancel_build("build-1"));
    assert!(!jobs.cancel_build("build-2"));
    assert!(jobs.list_artifacts("build-1").is_empty());
}

#[test]
fn artifacts_read_back_what_was_recorded() {
    let mut jobs = JobManager::new();
    jobs.register("a");
    jobs.register("b");
    jobs.set_artifacts("a", vec![artifact("version-package", "/out/a")]);
    jobs.set_artifacts("missing", vec![artifact("x", "/x")]);
    let listed = jobs.list_artifacts("a");
    assert_eq!(listed.len(), 1);
    assert_eq!(listed[0].path, "/out/a");
    assert!(jobs.list_artifacts("b").is_empty());
    assert!(jobs.list_artifacts("missing").is_empty());
    jobs.finish("a");
    assert_eq!(jobs.list_artifacts("a").len(), 1);
    jobs.register("a");
    assert!(jobs.list_artifacts("a").is_empty());
}

#[test]
fn finished_builds_report_their_outcome() {
    let mut jobs = JobManager::new();
    jobs.register("ok");
    let success = jobs.finish_build("ok", Ok(vec![artifact("merged-package", "/out/p")]), "1");
    assert!(success.finished.success);
    assert_eq!(success.finished.message, "Build finished");
    assert_eq!(success.artifacts.len(), 1);
    assert!(success.error_log.is_none());
    assert_eq!(jobs.list_artifacts("ok")[0].path, "/out/p");

    jobs.register("bad");
    let failure = jobs.finish_build("bad", Err("CMake was not found".to_string()), "42");
    assert!(!failure.finished.success);
    assert_eq!(failure.finished.message, "CMake was not found");
    let log = failure.error_log.unwrap();
    assert_eq!(log.level, "error");
    assert_eq!(log.category, "system");
    assert_eq!(log.timestamp, "42");
    assert_eq!(log.job_id, "bad");
    assert!(failure.artifacts.is_empty());
}

#[test]
fn job_ids_carry_the_start_time() {
    assert_eq!(create_job_id(1719273600123), "build-1719273600123");
    let copies = copy_artifacts(&vec![artifact("k", "/p")]);
    assert_eq!(copies[0].kind, "k");
    assert_eq!(copies[0].version.as_deref(), Some("2026"));
}
