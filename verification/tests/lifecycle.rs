use innkeeper::lifecycle::attempt_start;
use innkeeper::lifecycle::{exit_outcome, overdue_message, readiness_message, upgrade_outcome};
use innkeeper::lifecycle::{interrupted_by_restart, interrupted_download, restart_message, restored_status};
use innkeeper::lifecycle::{
    attempt_current, check_settings_status, check_start_status, check_upgrade_status,
    docker_args_change_allowed, downloading, exit_message, keep_gpu, keep_timing, marker_matches,
    next_attempt, normal_exit, parse_timings, record_failure, software_encoding, stage_durations,
    stage_timed_out, start_check, stop_inspects, stopped_status, strings_eq, timed_out_message,
    upgrade_overdue, upgrade_succeeded, version_check_due, watch, watch_skips, ContainerState,
    LifecycleError, Watch,
};

fn strings(v: &[&str]) -> Vec<String> {
    v.iter().map(|s| s.to_string()).collect()
}

#[test]
fn attempts_supersede_each_other() {
    assert_eq!(next_attempt(1000, 500), 1000);
    assert_eq!(next_attempt(500, 500), 501);
    assert_eq!(next_attempt(100, 500), 501);
    assert_eq!(next_attempt(7, u64::MAX), u64::MAX);
    let started = next_attempt(500, 500);
    assert!(attempt_current("preparing", started, started));
    assert!(attempt_current("upgrading", 9, 9));
    assert!(!attempt_current("preparing", started, 500));
    assert!(!attempt_current("running", 9, 9));
}

#[test]
fn start_requests() {
    assert_eq!(check_start_status("stopped", false), Ok(()));
    assert_eq!(check_start_status("running", false), Err(LifecycleError::NotStopped));
    assert_eq!(check_start_status("running", true), Ok(()));
    assert_eq!(check_start_status("stopped", true), Err(LifecycleError::NotRunning));
    let missing = ContainerState { exists: false, created: false, running: false };
    let created = ContainerState { exists: true, created: true, running: false };
    let running = ContainerState { exists: true, created: false, running: true };
    let stopped = ContainerState { exists: true, created: false, running: false };
    assert_eq!(start_check(&missing, true, false, None, false), Err(LifecycleError::ContainerMissing));
    assert_eq!(start_check(&missing, true, true, None, false), Ok(false));
    assert_eq!(start_check(&created, false, false, None, false), Err(LifecycleError::InitInterrupted));
    assert_eq!(start_check(&created, true, false, None, false), Ok(false));
    assert_eq!(start_check(&stopped, true, false, Some(false), false), Err(LifecycleError::IncompleteInstall));
    assert_eq!(start_check(&running, true, false, Some(true), false), Err(LifecycleError::StillRunning));
    assert_eq!(start_check(&running, true, false, None, true), Ok(true));
    assert_eq!(start_check(&stopped, true, false, Some(true), false), Ok(false));
    assert_eq!(
        LifecycleError::StillRunning.message(),
        "Container is still running. Stop it before starting."
    );
}

#[test]
fn stops_and_stages() {
    assert!(keep_timing("image"));
    assert!(keep_timing("container"));
    assert!(!keep_timing("launch"));
    assert!(downloading("download"));
    assert!(!downloading("container"));
    assert!(stop_inspects(true, true, true));
    assert!(stop_inspects(false, false, false));
    assert!(!stop_inspects(false, true, false));
    assert_eq!(stopped_status(true, false, false, false), "cancelled");
    assert_eq!(stopped_status(true, true, false, false), "stopped");
    assert_eq!(stopped_status(false, false, false, false), "stopped");
}

#[test]
fn upgrades_and_settings() {
    assert_eq!(check_upgrade_status("running"), Ok(()));
    assert_eq!(check_upgrade_status("preparing"), Err(LifecycleError::NotUpgradable));
    assert_eq!(check_settings_status("stopped"), Ok(()));
    assert_eq!(check_settings_status("failed"), Err(LifecycleError::NotConfigurable));
    assert!(software_encoding(false, false));
    assert!(!software_encoding(false, true));
    assert!(keep_gpu(true, Some("a"), true, Some("a")));
    assert!(!keep_gpu(true, Some("a"), true, Some("b")));
    assert!(!keep_gpu(false, None, true, None));
    assert!(keep_gpu(false, None, false, None));
    assert!(strings_eq(&strings(&["a", "b"]), &strings(&["a", "b"])));
    assert!(!strings_eq(&strings(&["a"]), &strings(&["a", "b"])));
    assert!(docker_args_change_allowed(true, &strings(&["--cap-add=X"]), &[]));
    assert!(!docker_args_change_allowed(false, &strings(&["--cap-add=X"]), &[]));
    assert!(docker_args_change_allowed(false, &strings(&["--cap-add=X"]), &strings(&["--cap-add=X"])));
}

#[test]
fn watching_containers() {
    assert!(watch_skips("download", "preparing"));
    assert!(!watch_skips("download", "running"));
    assert!(!watch_skips("launch", "preparing"));
    assert!(normal_exit(0, false));
    assert!(normal_exit(143, false));
    assert!(!normal_exit(137, true));
    assert!(!normal_exit(1, false));
    assert!(stage_timed_out(1000, 1000, 122_001, true));
    assert!(!stage_timed_out(1000, 1000, 121_000, true));
    assert!(!stage_timed_out(999, 1000, 10_000_000, false));
    assert!(stage_timed_out(1000, 0, 1_801_001, false));
    assert!(!stage_timed_out(5000, 0, 10, false));
    assert!(upgrade_overdue(1, 1_800_002, false));
    assert!(!upgrade_overdue(1, 1_800_002, true));
    assert!(!upgrade_overdue(0, 1_800_002, false));
    assert!(version_check_due(true, "running", None));
    assert!(version_check_due(false, "stopped", Some(30_000)));
    assert!(!version_check_due(true, "stopped", None));
    assert!(!version_check_due(false, "stopped", Some(29_999)));
    assert_eq!(watch("failed", false, true, true, false, true), Watch::Leave);
    assert_eq!(watch("upgrading", true, true, false, false, true), Watch::WatchUpgrade);
    assert_eq!(watch("upgrading", false, true, false, false, true), Watch::FinishUpgrade);
    assert_eq!(watch("running", true, false, true, false, true), Watch::ClearError);
    assert_eq!(watch("running", true, false, false, false, true), Watch::Settled);
    assert_eq!(watch("stopped", false, false, false, false, true), Watch::Settled);
    assert_eq!(watch("preparing", false, false, false, true, false), Watch::Interrupted);
    assert_eq!(watch("running", false, false, false, false, true), Watch::Exited);
    assert_eq!(watch("preparing", true, false, false, false, true), Watch::Launching);
    assert!(record_failure("running", true));
    assert!(!record_failure("failed", true));
    assert_eq!(exit_message(1, "launch"), "Container exited with code 1 during launch. Open Logs for details.");
    assert_eq!(
        exit_message(i64::MIN, "x"),
        "Container exited with code -9223372036854775808 during x. Open Logs for details."
    );
    assert_eq!(timed_out_message("download"), "download timed out. Stop or destroy the session; Logs has the output.");
}

#[test]
fn timings_become_stage_durations() {
    let entries = parse_timings("100 image\nnot a mark\n250 download\n+300 container\n200 launch");
    assert_eq!(
        entries,
        vec![
            (100, "image".to_string()),
            (250, "download".to_string()),
            (300, "container".to_string()),
            (200, "launch".to_string()),
        ]
    );
    assert_eq!(
        stage_durations(&entries),
        vec![
            ("image".to_string(), 150),
            ("download".to_string(), 50),
            ("container".to_string(), 0),
        ]
    );
    assert!(stage_durations(&[]).is_empty());
    assert!(parse_timings("").is_empty());
}

#[test]
fn upgrade_outcomes() {
    assert!(marker_matches(" 1700000000000\n", 1_700_000_000_000));
    assert!(!marker_matches("17", 1_700_000_000_000));
    assert!(upgrade_succeeded(true, true, true, Some("0.5.1-1"), Some("0.5.1")));
    assert!(!upgrade_succeeded(true, true, true, Some("0.5.0-1"), Some("0.5.1")));
    assert!(!upgrade_succeeded(false, true, true, Some("0.5.1-1"), Some("0.5.1")));
    assert!(!upgrade_succeeded(true, true, true, None, Some("0.5.1")));
}

#[test]
fn restarts_fail_interrupted_preparations() {
    assert!(interrupted_by_restart("preparing", "queued"));
    assert!(interrupted_by_restart("upgrading", "snapshot"));
    assert!(!interrupted_by_restart("preparing", "launch"));
    assert!(!interrupted_by_restart("running", "image"));
    assert!(interrupted_download("upgrading", "download"));
    assert!(!interrupted_download("preparing", "download"));
    assert!(!interrupted_download("upgrading", "container"));
    assert_eq!(restored_status(true), "running");
    assert_eq!(restored_status(false), "stopped");
    assert!(restart_message().starts_with("Innkeeper restarted during session preparation."));
}

#[test]
fn outcomes_of_upgrades_and_exits() {
    assert_eq!(upgrade_outcome(true), ("stopped", None));
    assert_eq!(
        upgrade_outcome(false),
        ("failed", Some("Upgrade did not complete. Open Logs for details; stop the session before retrying or starting it."))
    );
    assert_eq!(exit_outcome(143, false, "launch"), ("stopped", None));
    assert_eq!(
        exit_outcome(137, true, "launch"),
        ("failed", Some("Container exited with code 137 during launch. Open Logs for details.".to_string()))
    );
    assert_eq!(
        exit_outcome(-1, false, "container"),
        ("failed", Some("Container exited with code -1 during container. Open Logs for details.".to_string()))
    );
    assert!(overdue_message().starts_with("Upgrade is taking longer than 30 minutes."));
    assert_eq!(readiness_message(), "Waiting for Elsewhere initialization");
}

#[test]
fn new_attempts_start_now_and_after_the_last_one() {
    let now = std::time::SystemTime::now().duration_since(std::time::UNIX_EPOCH).unwrap().as_millis() as u64;
    let started = attempt_start(0);
    assert!(started >= now);
    assert_eq!(attempt_start(u64::MAX - 1), u64::MAX);
    assert_eq!(attempt_start(u64::MAX), u64::MAX);
    let later = started + 3_600_000;
    assert_eq!(attempt_start(later), later + 1);
}
