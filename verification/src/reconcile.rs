//! Watching sessions: what one pass of the watcher does with a session,
//! from what it reads of the session and of its container.
use vstd::prelude::*;
use crate::config::LaunchSettings;
use crate::lifecycle::{self, is, settled_spec, signed_decimal};
use crate::store::optional_view;

verus! {

/// What the watcher reads of a session.
pub struct WatchedSession {
    pub status: String,
    pub stage: String,
    /// A replacement of its container is under way.
    pub replacing: bool,
    /// An upgrade has a target release.
    pub upgrading: bool,
    /// The session shows an error.
    pub has_error: bool,
    /// Its container was configured at least once.
    pub configured: bool,
    /// When the running upgrade started, or 0.
    pub upgrade_started_ms: u64,
    /// How long ago its installed version was last read, if ever.
    pub since_version_check_ms: Option<u64>,
}

/// What the watcher found of the session's container.
#[derive(PartialEq, Eq, Structural, Debug, Clone, Copy)]
pub enum Seen {
    /// The container could not be inspected, or is not this installation's.
    Unowned,
    /// The container as Docker reports it.
    Container { running: bool, created: bool },
}

/// What the watcher does with a session.
#[derive(PartialEq, Eq, Structural, Debug, Clone, Copy)]
pub enum ReconcileAction {
    /// Nothing: leave the session and its container alone.
    Skip,
    /// Mark the session failed with the inspection's error.
    RecordFailure,
    /// Read the upgrade's outcome: the package database, the marker the
    /// container wrote, and its exit code.
    FinishUpgrade,
    /// Warn that the upgrade takes longer than thirty minutes.
    WarnOverdue,
    /// Clear the error a running session shows.
    ClearError,
    /// Read the stage the container reports, then follow the container.
    ReadStage,
}

/// What the watcher does with a session: whether it reads the installed
/// version first, and the action that follows. Sessions still waiting for
/// a download, and sessions being replaced, are left alone; an upgrade is
/// finished or watched; a running session only loses a stale error; a
/// stopped or failed session with a stopped container is settled.
pub open spec fn reconcile_spec(s: WatchedSession, seen: Seen, now_ms: u64) -> (bool, ReconcileAction) {
    let status = s.status@;
    let stage = s.stage@;
    if ((stage == "image"@ || stage == "download"@ || stage == "queued"@) && !settled_spec(status)) || s.replacing {
        (false, ReconcileAction::Skip)
    } else {
        match seen {
            Seen::Unowned => (false, if status == "failed"@ && s.has_error { ReconcileAction::Skip } else { ReconcileAction::RecordFailure }),
            Seen::Container { running, created } => if status == "failed"@ && s.upgrading {
                (false, ReconcileAction::Skip)
            } else if status == "upgrading"@ {
                if !running {
                    (false, ReconcileAction::FinishUpgrade)
                } else if s.upgrade_started_ms != 0 && (if now_ms >= s.upgrade_started_ms {
                    now_ms - s.upgrade_started_ms
                } else {
                    0
                }) > 1_800_000 && !s.has_error {
                    (false, ReconcileAction::WarnOverdue)
                } else {
                    (false, ReconcileAction::Skip)
                }
            } else {
                let check = (!running || status == "running"@) && match s.since_version_check_ms {
                    Some(t) => t >= 30_000,
                    None => true,
                };
                if status == "running"@ && running {
                    (check, if s.has_error { ReconcileAction::ClearError } else { ReconcileAction::Skip })
                } else if !running && (status == "failed"@ || status == "stopped"@) {
                    (check, ReconcileAction::Skip)
                } else {
                    (check, ReconcileAction::ReadStage)
                }
            },
        }
    }
}

/// What the watcher does with a session.
pub fn reconcile_step(session: &WatchedSession, seen: Seen, now_ms: u64) -> (r: (bool, ReconcileAction))
    ensures
        r == reconcile_spec(*session, seen, now_ms),
{
    let status = session.status.as_str();
    if lifecycle::watch_skips(session.stage.as_str(), status) || session.replacing {
        return (false, ReconcileAction::Skip);
    }
    match seen {
        Seen::Unowned => (false, if lifecycle::record_failure(status, session.has_error) {
            ReconcileAction::RecordFailure
        } else {
            ReconcileAction::Skip
        }),
        Seen::Container { running, created } => {
            if is(status, "failed") && session.upgrading {
                return (false, ReconcileAction::Skip);
            }
            if is(status, "upgrading") {
                return if !running {
                    (false, ReconcileAction::FinishUpgrade)
                } else if lifecycle::upgrade_overdue(session.upgrade_started_ms, now_ms, session.has_error) {
                    (false, ReconcileAction::WarnOverdue)
                } else {
                    (false, ReconcileAction::Skip)
                };
            }
            let check = lifecycle::version_check_due(running, status, session.since_version_check_ms);
            if is(status, "running") && running {
                (check, if session.has_error { ReconcileAction::ClearError } else { ReconcileAction::Skip })
            } else if !running && (is(status, "failed") || is(status, "stopped")) {
                (check, ReconcileAction::Skip)
            } else {
                (check, ReconcileAction::ReadStage)
            }
        },
    }
}

/// What becomes of a session whose container was followed after its stage
/// was read.
#[derive(PartialEq, Eq, Structural, Debug, Clone, Copy)]
pub enum Followed {
    /// The container was created but never configured: the session failed.
    Interrupted,
    /// The container stopped: stopped after a normal exit, failed otherwise.
    Exited { normal: bool },
    /// The container runs: check that Elsewhere answers when the stage is
    /// `launch`, then follow the launch.
    Launching { check_readiness: bool },
}

/// What becomes of a session whose container was followed.
pub open spec fn follow_spec(stage: Seq<char>, running: bool, created: bool, configured: bool, exit_code: i64, oom_killed: bool) -> Followed {
    if !running && created && !configured {
        Followed::Interrupted
    } else if !running {
        Followed::Exited { normal: (exit_code == 0 || exit_code == 137 || exit_code == 143) && !oom_killed }
    } else {
        Followed::Launching { check_readiness: stage == "launch"@ }
    }
}

/// What becomes of a session whose container was followed.
pub fn follow_container(stage: &str, running: bool, created: bool, configured: bool, exit_code: i64, oom_killed: bool) -> (r: Followed)
    ensures
        r == follow_spec(stage@, running, created, configured, exit_code, oom_killed),
{
    if !running && created && !configured {
        Followed::Interrupted
    } else if !running {
        Followed::Exited { normal: lifecycle::normal_exit(exit_code, oom_killed) }
    } else {
        Followed::Launching { check_readiness: is(stage, "launch") }
    }
}

/// How a launch stands after the watcher followed it.
#[derive(PartialEq, Eq, Structural, Debug, Clone, Copy)]
pub enum Launch {
    /// Elsewhere answers: the session runs, with stage `ready`.
    Ready,
    /// The session is still preparing.
    Waiting,
    /// The last stage began over two minutes ago while launching, or over
    /// thirty minutes ago otherwise: the session failed.
    TimedOut,
}

/// How a launch stands: ready when Elsewhere answers, else timed out when
/// the last stage mark of this attempt is too old, else still waiting.
pub open spec fn launch_spec(stage: Seq<char>, ready: bool, last_mark_ms: Option<u64>, started_ms: u64, now_ms: u64) -> Launch {
    if ready {
        Launch::Ready
    } else if last_mark_ms matches Some(since) && since >= started_ms && (if now_ms >= since {
        now_ms - since
    } else {
        0
    }) > (if stage == "launch"@ { 120_000int } else { 1_800_000int }) {
        Launch::TimedOut
    } else {
        Launch::Waiting
    }
}

/// How a launch stands.
pub fn launch_state(stage: &str, ready: bool, last_mark_ms: Option<u64>, started_ms: u64, now_ms: u64) -> (r: Launch)
    ensures
        r == launch_spec(stage@, ready, last_mark_ms, started_ms, now_ms),
{
    if ready {
        return Launch::Ready;
    }
    match last_mark_ms {
        Some(since) => if lifecycle::stage_timed_out(since, started_ms, now_ms, is(stage, "launch")) {
            Launch::TimedOut
        } else {
            Launch::Waiting
        },
        None => Launch::Waiting,
    }
}

/// A session skipped by the watcher is left alone: no version read and no
/// change, whatever its container does.
pub proof fn skipped_sessions_are_left_alone(s: WatchedSession, seen: Seen, now_ms: u64)
    requires
        s.replacing || ((s.stage@ == "image"@ || s.stage@ == "download"@ || s.stage@ == "queued"@) && !settled_spec(s.status@)),
    ensures
        reconcile_spec(s, seen, now_ms) == (false, ReconcileAction::Skip),
{
}

/// A running session with a running container is never failed or
/// restarted by the watcher: at most its stale error is cleared.
pub proof fn running_sessions_stay_running(s: WatchedSession, created: bool, now_ms: u64)
    requires
        s.status@ == "running"@,
    ensures
        reconcile_spec(s, Seen::Container { running: true, created }, now_ms).1 == ReconcileAction::Skip
            || reconcile_spec(s, Seen::Container { running: true, created }, now_ms).1 == ReconcileAction::ClearError,
{
    reveal_strlit("running");
    reveal_strlit("failed");
    reveal_strlit("upgrading");
    assert("running"@.len() != "failed"@.len());
    assert("running"@.len() != "upgrading"@.len());
}

/// The watcher leaves a session alone, before looking at its container,
/// while it waits for a download or is being replaced.
pub open spec fn skipped_spec(s: WatchedSession) -> bool {
    s.replacing || ((s.stage@ == "image"@ || s.stage@ == "download"@ || s.stage@ == "queued"@) && !settled_spec(
        s.status@,
    ))
}

/// Whether the watcher leaves a session alone; it then makes no Docker
/// call for it.
pub fn skipped(session: &WatchedSession) -> (r: bool)
    ensures
        r == skipped_spec(*session),
        r ==> forall|seen: Seen, now_ms: u64| #[trigger] reconcile_spec(*session, seen, now_ms) == (false, ReconcileAction::Skip),
{
    session.replacing || lifecycle::watch_skips(session.stage.as_str(), session.status.as_str())
}

/// The session after the watcher followed a stopped container.
pub struct StoppedChange {
    pub status: &'static str,
    /// The stage recorded, when it changes.
    pub stage: Option<String>,
    pub error: Option<String>,
}

/// The session after the watcher followed a stopped container: a container
/// created but never configured fails the session; an exit stops it or
/// fails it with the exit code, at the stage the container reported.
pub fn stopped_change(interrupted: bool, read_stage: &str, exit_code: i64, oom_killed: bool) -> (r: StoppedChange)
    ensures
        interrupted ==> r.status@ == "failed"@ && r.stage is None && (r.error matches Some(e) && e@
            == lifecycle::LifecycleError::InitInterrupted.message_spec()),
        !interrupted ==> (r.stage matches Some(st) && st@ == read_stage@) && r.status@ == if (exit_code == 0
            || exit_code == 137 || exit_code == 143) && !oom_killed {
            "stopped"@
        } else {
            "failed"@
        } && if (exit_code == 0 || exit_code == 137 || exit_code == 143) && !oom_killed {
            r.error is None
        } else {
            r.error matches Some(e) && e@ == "Container exited with code "@ + signed_decimal(exit_code) + " during "@
                + read_stage@ + ". Open Logs for details."@
        },
{
    if interrupted {
        return StoppedChange {
            status: "failed",
            stage: None,
            error: Some(lifecycle::LifecycleError::InitInterrupted.message().to_string()),
        };
    }
    let (status, error) = lifecycle::exit_outcome(exit_code, oom_killed, read_stage);
    StoppedChange { status, stage: Some(read_stage.to_string()), error }
}

/// The session after the watcher followed a launch.
pub struct LaunchedSession {
    pub status: &'static str,
    pub stage: String,
    pub error: Option<String>,
    pub applied: Option<LaunchSettings>,
    pub launching: Option<LaunchSettings>,
}

/// The stage a session shows after the container reported `read_stage`:
/// that stage, unless the container reported nothing.
pub open spec fn shown_stage(read_stage: Seq<char>, session_stage: Seq<char>) -> Seq<char> {
    if read_stage.len() == 0 { session_stage } else { read_stage }
}

/// The session after the watcher followed its launch. When Elsewhere
/// answers, the session runs at stage `ready` with no error, and the
/// settings it launched with become its applied settings. Otherwise it
/// keeps preparing, showing that it waits for Elsewhere when that was
/// checked, unless its last stage ran too long: then it failed.
pub fn launched_session(
    read_stage: &str,
    session_stage: &str,
    ready: bool,
    checked_readiness: bool,
    last_mark_ms: Option<u64>,
    started_ms: u64,
    now_ms: u64,
    applied: Option<LaunchSettings>,
    launching: Option<LaunchSettings>,
) -> (r: LaunchedSession)
    ensures
        match launch_spec(read_stage@, ready, last_mark_ms, started_ms, now_ms) {
            Launch::Ready => {
                &&& r.status@ == "running"@
                &&& r.stage@ == "ready"@
                &&& r.error is None
                &&& optional_view(r.applied) == if launching is Some { optional_view(launching) } else { optional_view(applied) }
                &&& r.launching is None
            },
            Launch::Waiting => {
                &&& r.status@ == "preparing"@
                &&& r.stage@ == shown_stage(read_stage@, session_stage@)
                &&& (checked_readiness ==> (r.error matches Some(e) && e@ == "Waiting for Elsewhere initialization"@))
                &&& (!checked_readiness ==> r.error is None)
                &&& optional_view(r.applied) == optional_view(applied)
                &&& optional_view(r.launching) == optional_view(launching)
            },
            Launch::TimedOut => {
                &&& r.status@ == "failed"@
                &&& r.stage@ == shown_stage(read_stage@, session_stage@)
                &&& (r.error matches Some(e) && e@ == shown_stage(read_stage@, session_stage@)
                    + " timed out. Stop or destroy the session; Logs has the output."@)
                &&& optional_view(r.applied) == optional_view(applied)
                &&& optional_view(r.launching) == optional_view(launching)
            },
        },
{
    let stage = if crate::text::chars_of(read_stage).len() == 0 { session_stage } else { read_stage };
    match launch_state(read_stage, ready, last_mark_ms, started_ms, now_ms) {
        Launch::Ready => {
            let applied = match launching {
                Some(l) => Some(l),
                None => applied,
            };
            LaunchedSession { status: "running", stage: "ready".to_string(), error: None, applied, launching: None }
        },
        Launch::Waiting => LaunchedSession {
            status: "preparing",
            stage: stage.to_string(),
            error: if checked_readiness { Some(lifecycle::readiness_message().to_string()) } else { None },
            applied,
            launching,
        },
        Launch::TimedOut => LaunchedSession {
            status: "failed",
            stage: stage.to_string(),
            error: Some(lifecycle::timed_out_message(stage)),
            applied,
            launching,
        },
    }
}

/// A session the watcher does not skip is followed whenever its container
/// and its status disagree: a stopped container of a session that is
/// neither failed, stopped nor upgrading, and a running container of a
/// session that is neither running nor upgrading (nor a failed upgrade),
/// both lead to reading the container's stage, never to skipping it.
pub proof fn disagreeing_sessions_are_followed(s: WatchedSession, created: bool, now_ms: u64)
    requires
        !s.replacing,
        !((s.stage@ == "image"@ || s.stage@ == "download"@ || s.stage@ == "queued"@) && !(s.status@ == "running"@
            || s.status@ == "stopped"@)),
        s.status@ != "upgrading"@,
    ensures
        s.status@ != "failed"@ && s.status@ != "stopped"@ ==> reconcile_spec(s, Seen::Container { running: false, created }, now_ms).1
            == ReconcileAction::ReadStage,
        s.status@ != "running"@ && !(s.status@ == "failed"@ && s.upgrading) ==> reconcile_spec(
            s,
            Seen::Container { running: true, created },
            now_ms,
        ).1 == ReconcileAction::ReadStage,
{
    reveal_strlit("running");
    reveal_strlit("stopped");
    reveal_strlit("failed");
    reveal_strlit("upgrading");
    assert("running"@.len() != "failed"@.len());
    assert("running"@.len() != "upgrading"@.len());
    assert("stopped"@.len() != "failed"@.len());
    assert("stopped"@.len() != "upgrading"@.len());
    assert("failed"@.len() != "upgrading"@.len());
    assert("running"@ != "stopped"@) by {
        assert("running"@[0] != "stopped"@[0]);
    }
}

/// A session whose container cannot be inspected is marked failed, unless
/// it already shows a failure with an error; a stopped or failed session
/// whose container is stopped is left as it is; an upgrading session's
/// stopped container finishes the upgrade.
pub proof fn settled_and_unowned_sessions(s: WatchedSession, created: bool, now_ms: u64)
    requires
        !s.replacing,
        !((s.stage@ == "image"@ || s.stage@ == "download"@ || s.stage@ == "queued"@) && !(s.status@ == "running"@
            || s.status@ == "stopped"@)),
    ensures
        reconcile_spec(s, Seen::Unowned, now_ms).1 == if s.status@ == "failed"@ && s.has_error {
            ReconcileAction::Skip
        } else {
            ReconcileAction::RecordFailure
        },
        (s.status@ == "stopped"@ || s.status@ == "failed"@) ==> reconcile_spec(s, Seen::Container { running: false, created }, now_ms).1
            == ReconcileAction::Skip,
        s.status@ == "upgrading"@ ==> reconcile_spec(s, Seen::Container { running: false, created }, now_ms).1
            == ReconcileAction::FinishUpgrade,
{
    reveal_strlit("running");
    reveal_strlit("stopped");
    reveal_strlit("failed");
    reveal_strlit("upgrading");
    assert("running"@.len() != "failed"@.len());
    assert("running"@.len() != "upgrading"@.len());
    assert("stopped"@.len() != "failed"@.len());
    assert("stopped"@.len() != "upgrading"@.len());
    assert("failed"@.len() != "upgrading"@.len());
    assert("running"@ != "stopped"@) by {
        assert("running"@[0] != "stopped"@[0]);
    }
}

} // verus!
