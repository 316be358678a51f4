use innkeeper::containers::{ContainerSettings, Found, Replacement};
use innkeeper::prepare::{
    prepare_begin, prepare_step, record_prepare_failure, PrepareAction, PrepareEvent, PrepareFailure, PreparePhase,
};
use innkeeper::config::LaunchSettings;
use innkeeper::reconcile::{
    follow_container, launch_state, launched_session, reconcile_step, skipped, stopped_change, Followed, Launch, ReconcileAction,
    Seen, WatchedSession,
};
use innkeeper::replace::{replace_step, ReplaceAction, ReplaceEvent, ReplaceFailure, ReplacePhase};

fn run(mut state: innkeeper::prepare::PrepareState, events: Vec<PrepareEvent>) -> Vec<PrepareAction> {
    let mut actions = vec![];
    for e in events {
        let (next, action) = prepare_step(&state, e);
        state = next;
        actions.push(action);
    }
    actions
}

#[test]
fn a_new_container_is_prepared_step_by_step() {
    let actions = run(
        prepare_begin(100, true),
        vec![
            PrepareEvent::Session { current: true, upgrading: false },
            PrepareEvent::Architecture { supported: true },
            PrepareEvent::Present { ready: false },
            PrepareEvent::Session { current: true, upgrading: false },
            PrepareEvent::Present { ready: false },
            PrepareEvent::Exited { success: true },
            PrepareEvent::Session { current: true, upgrading: false },
            PrepareEvent::Done,
            PrepareEvent::Done,
            PrepareEvent::Done,
            PrepareEvent::Done,
            PrepareEvent::Done,
        ],
    );
    assert_eq!(
        actions,
        vec![
            PrepareAction::CheckArchitecture,
            PrepareAction::CheckPresent,
            PrepareAction::WaitForSlot,
            PrepareAction::CheckPresent,
            PrepareAction::RunPreparation,
            PrepareAction::Lock,
            PrepareAction::ResolveGpu,
            PrepareAction::CreateContainer,
            PrepareAction::CopyFiles,
            PrepareAction::StartLaunch,
            PrepareAction::Stop,
            PrepareAction::Stop,
        ]
    );
}

#[test]
fn an_upgrade_stops_and_replaces_the_running_container() {
    let actions = run(
        prepare_begin(7, false),
        vec![
            PrepareEvent::Session { current: true, upgrading: true },
            PrepareEvent::Architecture { supported: true },
            PrepareEvent::Present { ready: true },
            PrepareEvent::Session { current: true, upgrading: true },
            PrepareEvent::Done,
            PrepareEvent::Inspected { running: true },
            PrepareEvent::Done,
            PrepareEvent::Inspected { running: false },
            PrepareEvent::Done,
            PrepareEvent::Done,
        ],
    );
    assert_eq!(
        actions,
        vec![
            PrepareAction::CheckArchitecture,
            PrepareAction::CheckPresent,
            PrepareAction::Lock,
            PrepareAction::ResolveGpu,
            PrepareAction::InspectContainer,
            PrepareAction::StopAndReplace,
            PrepareAction::Reinspect,
            PrepareAction::ReadyUpgrade { stop: false },
            PrepareAction::CopyFiles,
            PrepareAction::StartUpgrade,
        ]
    );
}

#[test]
fn superseded_and_failed_attempts() {
    let launch = vec![PrepareEvent::Session { current: false, upgrading: false }, PrepareEvent::Done];
    assert_eq!(run(prepare_begin(1, false), launch), vec![PrepareAction::Stop, PrepareAction::Stop]);
    let plain = run(
        prepare_begin(1, false),
        vec![
            PrepareEvent::Session { current: true, upgrading: false },
            PrepareEvent::Session { current: true, upgrading: false },
            PrepareEvent::Done,
            PrepareEvent::Inspected { running: true },
        ],
    );
    assert_eq!(
        plain,
        vec![
            PrepareAction::Lock,
            PrepareAction::ResolveGpu,
            PrepareAction::InspectContainer,
            PrepareAction::Fail { failure: PrepareFailure::AlreadyRunning, unconditional: true },
        ]
    );
    let arch = run(
        prepare_begin(1, true),
        vec![PrepareEvent::Session { current: true, upgrading: false }, PrepareEvent::Architecture { supported: false }],
    );
    assert_eq!(arch[1], PrepareAction::Fail { failure: PrepareFailure::UnsupportedArchitecture, unconditional: false });
    let (state, _) = prepare_step(&prepare_begin(1, true), PrepareEvent::Session { current: true, upgrading: false });
    assert_eq!(state.phase, PreparePhase::Architecture);
    assert_eq!(
        prepare_step(&state, PrepareEvent::Failed).1,
        PrepareAction::Fail { failure: PrepareFailure::StepFailed, unconditional: false }
    );
    assert_eq!(
        record_prepare_failure(PrepareFailure::PreparationTimedOut, false, "", "preparing", 5, 5),
        Some(("failed", "Session preparation timed out. Open Logs for details.".to_string()))
    );
    assert_eq!(record_prepare_failure(PrepareFailure::StepFailed, false, "x", "preparing", 6, 5), None);
    assert_eq!(
        record_prepare_failure(PrepareFailure::StepFailed, true, "see https://x/#token=abc", "running", 6, 5),
        Some(("failed", "see https://x/#token=[REDACTED]".to_string()))
    );
}

fn target() -> ContainerSettings {
    ContainerSettings { packages: vec!["vim".into()], docker_args: vec![], gpu: None }
}

#[test]
fn replacements_snapshot_and_recreate() {
    let t = target();
    let (p, r, a) = replace_step(ReplacePhase::Check, None, &t, "inst", ReplaceEvent::Session { configured_is_target: Some(true) });
    assert_eq!((p, r.is_none(), a), (ReplacePhase::Finished, true, ReplaceAction::Finish));
    let (p, r, a) = replace_step(ReplacePhase::Check, None, &t, "inst", ReplaceEvent::Session { configured_is_target: Some(false) });
    assert_eq!((p, a), (ReplacePhase::Source, ReplaceAction::InspectSource));
    let (p, r, a) = replace_step(p, r, &t, "inst", ReplaceEvent::Source { id: Some("c1".into()), running: false, snapshot: "s1".into() });
    assert_eq!((p, a), (ReplacePhase::Lookup, ReplaceAction::SaveAndLookup));
    let rep = r.as_ref().unwrap();
    assert_eq!((rep.source.as_str(), rep.snapshot.as_str(), rep.image.clone()), ("c1", "s1", None));
    assert_eq!(rep.settings.packages, vec!["vim".to_string()]);
    let (p, r, a) = replace_step(p, r, &t, "inst", ReplaceEvent::Snapshot { found: None });
    assert_eq!((p, a), (ReplacePhase::CommitCheck, ReplaceAction::InspectForCommit));
    let (p, r, a) = replace_step(p, r, &t, "inst", ReplaceEvent::CommitSource { id: Some("c1".into()), running: false });
    assert_eq!((p, a), (ReplacePhase::Committing, ReplaceAction::Commit));
    let (p, r, a) = replace_step(p, r, &t, "inst", ReplaceEvent::Snapshot { found: Some((Some("sha256:i".into()), Some("c1".into()), Some("inst".into()))) });
    assert_eq!((p, a), (ReplacePhase::Owner, ReplaceAction::SaveAndReadLabels));
    assert_eq!(r.as_ref().unwrap().image.as_deref(), Some("sha256:i"));
    let (p, r, a) = replace_step(
        p,
        r,
        &t,
        "inst",
        ReplaceEvent::Labels { installation: Some("inst".into()), source: Some("c1".into()), snapshot_id: Some("s1".into()) },
    );
    assert_eq!((p, a), (ReplacePhase::Existing, ReplaceAction::InspectExisting));
    let (p, r, a) = replace_step(p, r, &t, "inst", ReplaceEvent::Existing { judged: Some(Found::Source) });
    assert_eq!((p, a), (ReplacePhase::Creating, ReplaceAction::RemoveSourceAndCreate));
    let (p, r, a) = replace_step(p, r, &t, "inst", ReplaceEvent::Done);
    assert_eq!((p, a), (ReplacePhase::Completing, ReplaceAction::Complete));
    let (p, r, a) = replace_step(p, r, &t, "inst", ReplaceEvent::Done);
    assert_eq!((p, r.is_none(), a), (ReplacePhase::Check, true, ReplaceAction::ReadSession));
}

#[test]
fn replacement_failures() {
    let t = target();
    let (_, _, a) = replace_step(ReplacePhase::Source, None, &t, "inst", ReplaceEvent::Source { id: Some("c1".into()), running: true, snapshot: "s".into() });
    assert_eq!(a, ReplaceAction::Fail { failure: ReplaceFailure::StillRunning });
    let rep = Replacement { source: "c1".into(), snapshot: "s".into(), image: None, settings: target() };
    let (_, _, a) = replace_step(ReplacePhase::Lookup, Some(rep), &t, "inst", ReplaceEvent::Snapshot { found: Some((Some("i".into()), Some("c9".into()), Some("inst".into()))) });
    assert_eq!(a, ReplaceAction::Fail { failure: ReplaceFailure::SnapshotSourceMismatch });
    let rep = Replacement { source: "c1".into(), snapshot: "s".into(), image: Some("i".into()), settings: target() };
    let (p, r, a) = replace_step(ReplacePhase::Check, Some(rep), &t, "inst", ReplaceEvent::Session { configured_is_target: Some(true) });
    assert_eq!((p, a), (ReplacePhase::Verify, ReplaceAction::InspectContainer));
    let (p, r, a) = replace_step(p, r, &t, "inst", ReplaceEvent::Container { id: Some("c1".into()) });
    assert_eq!((p, r.is_none(), a), (ReplacePhase::Finished, true, ReplaceAction::ClearReplacement));
    let rep = Replacement { source: "c1".into(), snapshot: "s".into(), image: Some("i".into()), settings: ContainerSettings { packages: vec![], docker_args: vec![], gpu: None } };
    let (p, r, a) = replace_step(ReplacePhase::Check, Some(rep), &t, "inst", ReplaceEvent::Session { configured_is_target: None });
    assert_eq!((p, a), (ReplacePhase::Owner, ReplaceAction::SaveAndReadLabels));
    assert_eq!(r.as_ref().unwrap().settings.packages, vec!["vim".to_string()]);
    let (_, _, a) = replace_step(p, r, &t, "inst", ReplaceEvent::Labels { installation: Some("other".into()), source: Some("c1".into()), snapshot_id: Some("s".into()) });
    assert_eq!(a, ReplaceAction::Fail { failure: ReplaceFailure::OwnershipMismatch });
}

fn session(status: &str, stage: &str) -> WatchedSession {
    WatchedSession {
        status: status.into(),
        stage: stage.into(),
        replacing: false,
        upgrading: false,
        has_error: false,
        configured: true,
        upgrade_started_ms: 0,
        since_version_check_ms: None,
    }
}

#[test]
fn one_watcher_pass() {
    let running = Seen::Container { running: true, created: false };
    let stopped = Seen::Container { running: false, created: false };
    assert_eq!(reconcile_step(&session("preparing", "download"), running, 0), (false, ReconcileAction::Skip));
    assert_eq!(reconcile_step(&session("running", "ready"), running, 0), (true, ReconcileAction::Skip));
    let mut erred = session("running", "ready");
    erred.has_error = true;
    erred.since_version_check_ms = Some(10);
    assert_eq!(reconcile_step(&erred, running, 0), (false, ReconcileAction::ClearError));
    assert_eq!(reconcile_step(&session("stopped", "ready"), stopped, 0), (true, ReconcileAction::Skip));
    assert_eq!(reconcile_step(&session("preparing", "launch"), running, 0), (false, ReconcileAction::ReadStage));
    assert_eq!(reconcile_step(&session("running", "ready"), Seen::Unowned, 0), (false, ReconcileAction::RecordFailure));
    let mut upgrading = session("upgrading", "upgrade");
    upgrading.upgrading = true;
    upgrading.upgrade_started_ms = 1;
    assert_eq!(reconcile_step(&upgrading, stopped, 0), (false, ReconcileAction::FinishUpgrade));
    assert_eq!(reconcile_step(&upgrading, running, 1_800_002), (false, ReconcileAction::WarnOverdue));
    assert_eq!(reconcile_step(&upgrading, running, 1_800_001), (false, ReconcileAction::Skip));
    let mut replacing = session("running", "ready");
    replacing.replacing = true;
    assert_eq!(reconcile_step(&replacing, Seen::Unowned, 0), (false, ReconcileAction::Skip));
    assert_eq!(follow_container("launch", false, true, false, 0, false), Followed::Interrupted);
    assert_eq!(follow_container("launch", false, false, true, 1, false), Followed::Exited { normal: false });
    assert_eq!(follow_container("launch", true, false, true, 0, false), Followed::Launching { check_readiness: true });
    assert_eq!(launch_state("launch", true, None, 0, 0), Launch::Ready);
    assert_eq!(launch_state("launch", false, Some(100), 100, 120_101), Launch::TimedOut);
    assert_eq!(launch_state("container", false, Some(100), 100, 120_101), Launch::Waiting);
    assert_eq!(launch_state("launch", false, Some(99), 100, 1_000_000), Launch::Waiting);
}

#[test]
fn replacement_failures_name_their_cause() {
    let t = target();
    let rep = || Replacement { source: "c1".into(), snapshot: "s".into(), image: None, settings: target() };
    let (_, r, a) = replace_step(
        ReplacePhase::Lookup,
        Some(rep()),
        &t,
        "inst",
        ReplaceEvent::Snapshot { found: Some((Some("i".into()), Some("c1".into()), Some("other".into()))) },
    );
    assert_eq!(a, ReplaceAction::Fail { failure: ReplaceFailure::SnapshotNotOwned });
    assert_eq!(r.unwrap().image, None);
    let (_, _, a) = replace_step(ReplacePhase::Committing, Some(rep()), &t, "inst", ReplaceEvent::Snapshot { found: None });
    assert_eq!(a, ReplaceAction::Fail { failure: ReplaceFailure::CommittedImageMissing });
    let (_, _, a) = replace_step(ReplacePhase::Owner, Some(rep()), &t, "inst", ReplaceEvent::Done);
    assert_eq!(a, ReplaceAction::Fail { failure: ReplaceFailure::StepFailed });
    assert_eq!(ReplaceFailure::StillRunning.message(), Some("Stop the container before snapshotting"));
    assert_eq!(ReplaceFailure::SourceChanged.message(), Some("Snapshot source changed"));
    assert_eq!(ReplaceFailure::OwnershipMismatch.message(), Some("Snapshot ownership or source does not match"));
    assert_eq!(ReplaceFailure::SnapshotNotOwned.message(), Some("Snapshot ownership does not match"));
    assert_eq!(ReplaceFailure::ContainerMismatch.message(), Some("Replacement container does not match the saved snapshot"));
    assert_eq!(ReplaceFailure::StepFailed.message(), None);
}

fn launch(command: &str) -> LaunchSettings {
    LaunchSettings { software_encoding: false, screen_size: None, kiosk: false, startup_command: command.into() }
}

#[test]
fn watcher_outcomes_change_the_session() {
    assert!(skipped(&session("preparing", "queued")));
    assert!(!skipped(&session("running", "queued")));
    let mut replacing = session("running", "ready");
    replacing.replacing = true;
    assert!(skipped(&replacing));
    let c = stopped_change(true, "launch", 0, false);
    assert_eq!((c.status, c.stage, c.error.as_deref()), ("failed", None, Some("Container initialization was interrupted. Destroy this session and create it again.")));
    let c = stopped_change(false, "launch", 143, false);
    assert_eq!((c.status, c.stage.as_deref(), c.error), ("stopped", Some("launch"), None));
    let c = stopped_change(false, "container", 2, false);
    assert_eq!(c.error.as_deref(), Some("Container exited with code 2 during container. Open Logs for details."));
    let ready = launched_session("launch", "container", true, true, Some(1), 1, 2, Some(launch("old")), Some(launch("new")));
    assert_eq!((ready.status, ready.stage.as_str(), ready.error.clone()), ("running", "ready", None));
    assert_eq!(ready.applied.unwrap().startup_command, "new");
    assert!(ready.launching.is_none());
    let waiting = launched_session("launch", "container", false, true, Some(100), 100, 200, None, Some(launch("new")));
    assert_eq!((waiting.status, waiting.stage.as_str(), waiting.error.as_deref()), ("preparing", "launch", Some("Waiting for Elsewhere initialization")));
    assert_eq!(waiting.launching.unwrap().startup_command, "new");
    let kept = launched_session("", "container", false, false, None, 100, 200, None, None);
    assert_eq!((kept.status, kept.stage.as_str(), kept.error), ("preparing", "container", None));
    let late = launched_session("launch", "container", false, true, Some(100), 100, 120_101, None, None);
    assert_eq!(
        (late.status, late.error.as_deref()),
        ("failed", Some("launch timed out. Stop or destroy the session; Logs has the output."))
    );
}
