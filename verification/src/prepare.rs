//! Preparing a session's container: the steps of one attempt, and what
//! each outcome leads to. The caller performs each action (Docker, files,
//! the preparation script) and hands back what came of it.
use vstd::prelude::*;
use crate::lifecycle::{attempt_current, attempt_current_spec};
use crate::redact::{redact, redact_spec};

verus! {

/// Where an attempt stands.
#[derive(PartialEq, Eq, Structural, Debug, Clone, Copy)]
pub enum PreparePhase {
    /// The session has not been read yet.
    Begin,
    /// The Docker host's architecture is being read.
    Architecture,
    /// The package file and base image are being looked for.
    Present,
    /// Waiting for the preparation slot; the session is read again after it.
    Waiting,
    /// Looking for the package file and base image again, holding the slot.
    Rechecked,
    /// The preparation script runs.
    Preparing,
    /// Waiting for the session's lock; the session is read again after it.
    Locked,
    /// The session's GPU is being resolved against the host's devices.
    Resolving,
    /// The existing container is being inspected.
    Inspected,
    /// The container is being replaced by one with the session's settings.
    Replaced,
    /// The replaced container is being inspected again.
    Reinspected,
    /// The new container is being created.
    Created,
    /// An upgrade is readying the stopped container.
    Upgraded,
    /// The files the container starts from are being copied in.
    Copying,
    /// The container is being started.
    Starting,
    /// Nothing more happens in this attempt.
    Finished,
}

/// An attempt to prepare a session.
#[derive(PartialEq, Eq, Structural, Debug, Clone, Copy)]
pub struct PrepareState {
    pub phase: PreparePhase,
    /// The attempt's start time, which identifies it.
    pub attempt_ms: u64,
    /// The session needs a new container.
    pub new_container: bool,
    /// The session is being upgraded to a new release.
    pub upgrading: bool,
}

/// What came of the last action.
#[derive(PartialEq, Eq, Structural, Debug, Clone, Copy)]
pub enum PrepareEvent {
    /// The session was read: whether this attempt is still its current
    /// one, and whether it has an upgrade target.
    Session { current: bool, upgrading: bool },
    /// The Docker host's architecture was read.
    Architecture { supported: bool },
    /// The package file was looked for, and the base image when a new
    /// container needs one: whether everything is there.
    Present { ready: bool },
    /// The preparation script exited.
    Exited { success: bool },
    /// While the script ran, the attempt stopped being the current one.
    Superseded,
    /// The script ran for thirty minutes.
    Deadline,
    /// The container was inspected.
    Inspected { running: bool },
    /// The action finished.
    Done,
    /// The action failed with an error of its own.
    Failed,
}

/// Why an attempt failed.
#[derive(PartialEq, Eq, Structural, Debug, Clone, Copy)]
pub enum PrepareFailure {
    UnsupportedArchitecture,
    PreparationFailed,
    PreparationTimedOut,
    AlreadyRunning,
    /// An action failed with its own error.
    StepFailed,
}

/// What the caller does next.
#[derive(PartialEq, Eq, Structural, Debug, Clone, Copy)]
pub enum PrepareAction {
    /// Leave the session as it is: the attempt is over.
    Stop,
    /// Read the Docker host's architecture.
    CheckArchitecture,
    /// Look for the package file, and for the base image when a new
    /// container needs one.
    CheckPresent,
    /// Log that the attempt waits, take the preparation slot, read the
    /// session.
    WaitForSlot,
    /// Run the preparation script that downloads the package and builds
    /// the image.
    RunPreparation,
    /// Take the session's lock and read the session.
    Lock,
    /// Resolve the session's GPU against the host's devices, check the
    /// NVIDIA runtime when it is NVIDIA's, and record the GPU.
    ResolveGpu,
    /// Inspect the session's container.
    InspectContainer,
    /// Stop the running container, then replace it.
    StopAndReplace,
    /// Replace the container by one with the session's settings.
    Replace,
    /// Mark the container stage, create the container and copy the session
    /// assets into it.
    CreateContainer,
    /// Mark the container stage and inspect the container again.
    Reinspect,
    /// Stop the container when it runs, and read its package database.
    ReadyUpgrade { stop: bool },
    /// Copy the package (when installing), the scripts, the operation, the
    /// requested packages and the GPU settings into the container.
    CopyFiles,
    /// Mark the upgrade stage and its start, record the configured
    /// settings, start the container.
    StartUpgrade,
    /// Copy the launch settings, record them and the configured settings,
    /// start the container, record the container stage's time.
    StartLaunch,
    /// Mark the session failed, with the failure's error, when the
    /// attempt is still current or `unconditional` holds.
    Fail { failure: PrepareFailure, unconditional: bool },
}

/// The phases in which the session's lock is held.
pub open spec fn locked_phase(p: PreparePhase) -> bool {
    !(p == PreparePhase::Begin || p == PreparePhase::Architecture || p == PreparePhase::Present || p
        == PreparePhase::Waiting || p == PreparePhase::Rechecked || p == PreparePhase::Preparing || p
        == PreparePhase::Locked || p == PreparePhase::Finished)
}

/// `s` moved to phase `p`.
pub open spec fn at(s: PrepareState, p: PreparePhase) -> PrepareState {
    PrepareState { phase: p, ..s }
}

/// One step of an attempt: the state after `e` and the next action. Work
/// before the lock fails only an attempt that is still current; work under
/// the lock fails the session outright. An attempt that is no longer
/// current stops without touching the session, and an event the phase
/// does not expect ends the attempt the same way.
pub open spec fn prepare_step_spec(s: PrepareState, e: PrepareEvent) -> (PrepareState, PrepareAction) {
    let finished = at(s, PreparePhase::Finished);
    match (s.phase, e) {
        (PreparePhase::Finished, _) => (finished, PrepareAction::Stop),
        (_, PrepareEvent::Failed) => (
            finished,
            PrepareAction::Fail { failure: PrepareFailure::StepFailed, unconditional: locked_phase(s.phase) },
        ),
        (PreparePhase::Begin, PrepareEvent::Session { current, upgrading }) => if !current {
            (finished, PrepareAction::Stop)
        } else if s.new_container || upgrading {
            (PrepareState { phase: PreparePhase::Architecture, upgrading, ..s }, PrepareAction::CheckArchitecture)
        } else {
            (PrepareState { phase: PreparePhase::Locked, upgrading, ..s }, PrepareAction::Lock)
        },
        (PreparePhase::Architecture, PrepareEvent::Architecture { supported }) => if supported {
            (at(s, PreparePhase::Present), PrepareAction::CheckPresent)
        } else {
            (finished, PrepareAction::Fail { failure: PrepareFailure::UnsupportedArchitecture, unconditional: false })
        },
        (PreparePhase::Present, PrepareEvent::Present { ready }) => if ready {
            (at(s, PreparePhase::Locked), PrepareAction::Lock)
        } else {
            (at(s, PreparePhase::Waiting), PrepareAction::WaitForSlot)
        },
        (PreparePhase::Waiting, PrepareEvent::Session { current, .. }) => if current {
            (at(s, PreparePhase::Rechecked), PrepareAction::CheckPresent)
        } else {
            (finished, PrepareAction::Stop)
        },
        (PreparePhase::Rechecked, PrepareEvent::Present { ready }) => if ready {
            (at(s, PreparePhase::Locked), PrepareAction::Lock)
        } else {
            (at(s, PreparePhase::Preparing), PrepareAction::RunPreparation)
        },
        (PreparePhase::Preparing, PrepareEvent::Exited { success }) => if success {
            (at(s, PreparePhase::Locked), PrepareAction::Lock)
        } else {
            (finished, PrepareAction::Fail { failure: PrepareFailure::PreparationFailed, unconditional: false })
        },
        (PreparePhase::Preparing, PrepareEvent::Superseded) => (finished, PrepareAction::Stop),
        (PreparePhase::Preparing, PrepareEvent::Deadline) => (
            finished,
            PrepareAction::Fail { failure: PrepareFailure::PreparationTimedOut, unconditional: false },
        ),
        (PreparePhase::Locked, PrepareEvent::Session { current, .. }) => if !current {
            (finished, PrepareAction::Stop)
        } else {
            (at(s, PreparePhase::Resolving), PrepareAction::ResolveGpu)
        },
        (PreparePhase::Resolving, PrepareEvent::Done) => if s.new_container {
            (at(s, PreparePhase::Created), PrepareAction::CreateContainer)
        } else {
            (at(s, PreparePhase::Inspected), PrepareAction::InspectContainer)
        },
        (PreparePhase::Inspected, PrepareEvent::Inspected { running }) => if !running {
            (at(s, PreparePhase::Replaced), PrepareAction::Replace)
        } else if s.upgrading {
            (at(s, PreparePhase::Replaced), PrepareAction::StopAndReplace)
        } else {
            (finished, PrepareAction::Fail { failure: PrepareFailure::AlreadyRunning, unconditional: true })
        },
        (PreparePhase::Replaced, PrepareEvent::Done) => (at(s, PreparePhase::Reinspected), PrepareAction::Reinspect),
        (PreparePhase::Reinspected, PrepareEvent::Inspected { running }) => if s.upgrading {
            (at(s, PreparePhase::Upgraded), PrepareAction::ReadyUpgrade { stop: running })
        } else if running {
            (finished, PrepareAction::Fail { failure: PrepareFailure::AlreadyRunning, unconditional: true })
        } else {
            (at(s, PreparePhase::Copying), PrepareAction::CopyFiles)
        },
        (PreparePhase::Created, PrepareEvent::Done) => (at(s, PreparePhase::Copying), PrepareAction::CopyFiles),
        (PreparePhase::Upgraded, PrepareEvent::Done) => (at(s, PreparePhase::Copying), PrepareAction::CopyFiles),
        (PreparePhase::Copying, PrepareEvent::Done) => if s.upgrading {
            (at(s, PreparePhase::Starting), PrepareAction::StartUpgrade)
        } else {
            (at(s, PreparePhase::Starting), PrepareAction::StartLaunch)
        },
        (PreparePhase::Starting, PrepareEvent::Done) => (finished, PrepareAction::Stop),
        _ => (finished, PrepareAction::Stop),
    }
}

/// The start of an attempt.
pub fn prepare_begin(attempt_ms: u64, new_container: bool) -> (r: PrepareState)
    ensures
        r == (PrepareState { phase: PreparePhase::Begin, attempt_ms, new_container, upgrading: false }),
{
    PrepareState { phase: PreparePhase::Begin, attempt_ms, new_container, upgrading: false }
}

/// Whether the session's lock is held in phase `p`.
fn is_locked_phase(p: PreparePhase) -> (r: bool)
    ensures
        r == locked_phase(p),
{
    !matches!(p, PreparePhase::Begin | PreparePhase::Architecture | PreparePhase::Present | PreparePhase::Waiting
        | PreparePhase::Rechecked | PreparePhase::Preparing | PreparePhase::Locked | PreparePhase::Finished)
}

/// One step of an attempt.
pub fn prepare_step(state: &PrepareState, event: PrepareEvent) -> (r: (PrepareState, PrepareAction))
    ensures
        r == prepare_step_spec(*state, event),
{
    let s = *state;
    let finished = PrepareState { phase: PreparePhase::Finished, ..s };
    let to = |p: PreparePhase| -> (t: PrepareState)
        ensures
            t == at(s, p),
        { PrepareState { phase: p, ..s } };
    match (s.phase, event) {
        (PreparePhase::Finished, _) => (finished, PrepareAction::Stop),
        (_, PrepareEvent::Failed) => (
            finished,
            PrepareAction::Fail { failure: PrepareFailure::StepFailed, unconditional: is_locked_phase(s.phase) },
        ),
        (PreparePhase::Begin, PrepareEvent::Session { current, upgrading }) => if !current {
            (finished, PrepareAction::Stop)
        } else if s.new_container || upgrading {
            (PrepareState { phase: PreparePhase::Architecture, upgrading, ..s }, PrepareAction::CheckArchitecture)
        } else {
            (PrepareState { phase: PreparePhase::Locked, upgrading, ..s }, PrepareAction::Lock)
        },
        (PreparePhase::Architecture, PrepareEvent::Architecture { supported }) => if supported {
            (to(PreparePhase::Present), PrepareAction::CheckPresent)
        } else {
            (finished, PrepareAction::Fail { failure: PrepareFailure::UnsupportedArchitecture, unconditional: false })
        },
        (PreparePhase::Present, PrepareEvent::Present { ready }) => if ready {
            (to(PreparePhase::Locked), PrepareAction::Lock)
        } else {
            (to(PreparePhase::Waiting), PrepareAction::WaitForSlot)
        },
        (PreparePhase::Waiting, PrepareEvent::Session { current, .. }) => if current {
            (to(PreparePhase::Rechecked), PrepareAction::CheckPresent)
        } else {
            (finished, PrepareAction::Stop)
        },
        (PreparePhase::Rechecked, PrepareEvent::Present { ready }) => if ready {
            (to(PreparePhase::Locked), PrepareAction::Lock)
        } else {
            (to(PreparePhase::Preparing), PrepareAction::RunPreparation)
        },
        (PreparePhase::Preparing, PrepareEvent::Exited { success }) => if success {
            (to(PreparePhase::Locked), PrepareAction::Lock)
        } else {
            (finished, PrepareAction::Fail { failure: PrepareFailure::PreparationFailed, unconditional: false })
        },
        (PreparePhase::Preparing, PrepareEvent::Superseded) => (finished, PrepareAction::Stop),
        (PreparePhase::Preparing, PrepareEvent::Deadline) => (
            finished,
            PrepareAction::Fail { failure: PrepareFailure::PreparationTimedOut, unconditional: false },
        ),
        (PreparePhase::Locked, PrepareEvent::Session { current, .. }) => if !current {
            (finished, PrepareAction::Stop)
        } else {
            (to(PreparePhase::Resolving), PrepareAction::ResolveGpu)
        },
        (PreparePhase::Resolving, PrepareEvent::Done) => if s.new_container {
            (to(PreparePhase::Created), PrepareAction::CreateContainer)
        } else {
            (to(PreparePhase::Inspected), PrepareAction::InspectContainer)
        },
        (PreparePhase::Inspected, PrepareEvent::Inspected { running }) => if !running {
            (to(PreparePhase::Replaced), PrepareAction::Replace)
        } else if s.upgrading {
            (to(PreparePhase::Replaced), PrepareAction::StopAndReplace)
        } else {
            (finished, PrepareAction::Fail { failure: PrepareFailure::AlreadyRunning, unconditional: true })
        },
        (PreparePhase::Replaced, PrepareEvent::Done) => (to(PreparePhase::Reinspected), PrepareAction::Reinspect),
        (PreparePhase::Reinspected, PrepareEvent::Inspected { running }) => if s.upgrading {
            (to(PreparePhase::Upgraded), PrepareAction::ReadyUpgrade { stop: running })
        } else if running {
            (finished, PrepareAction::Fail { failure: PrepareFailure::AlreadyRunning, unconditional: true })
        } else {
            (to(PreparePhase::Copying), PrepareAction::CopyFiles)
        },
        (PreparePhase::Created, PrepareEvent::Done) => (to(PreparePhase::Copying), PrepareAction::CopyFiles),
        (PreparePhase::Upgraded, PrepareEvent::Done) => (to(PreparePhase::Copying), PrepareAction::CopyFiles),
        (PreparePhase::Copying, PrepareEvent::Done) => if s.upgrading {
            (to(PreparePhase::Starting), PrepareAction::StartUpgrade)
        } else {
            (to(PreparePhase::Starting), PrepareAction::StartLaunch)
        },
        (PreparePhase::Starting, PrepareEvent::Done) => (finished, PrepareAction::Stop),
        _ => (finished, PrepareAction::Stop),
    }
}

impl PrepareFailure {
    /// The error a failure shows, when it is not the failed action's own.
    pub open spec fn message_spec(self) -> Option<Seq<char>> {
        match self {
            PrepareFailure::UnsupportedArchitecture => Some("Release packages currently support only x86_64 Docker hosts"@),
            PrepareFailure::PreparationFailed => Some("Package or base image preparation failed. Open Logs for details."@),
            PrepareFailure::PreparationTimedOut => Some("Session preparation timed out. Open Logs for details."@),
            PrepareFailure::AlreadyRunning => Some("Container is already running"@),
            PrepareFailure::StepFailed => None,
        }
    }

    /// The error a failure shows, when it is not the failed action's own.
    pub fn message(self) -> (r: Option<&'static str>)
        ensures
            match self.message_spec() {
                Some(m) => r matches Some(x) && x@ == m,
                None => r is None,
            },
    {
        match self {
            PrepareFailure::UnsupportedArchitecture => Some("Release packages currently support only x86_64 Docker hosts"),
            PrepareFailure::PreparationFailed => Some("Package or base image preparation failed. Open Logs for details."),
            PrepareFailure::PreparationTimedOut => Some("Session preparation timed out. Open Logs for details."),
            PrepareFailure::AlreadyRunning => Some("Container is already running"),
            PrepareFailure::StepFailed => None,
        }
    }
}

/// The error stored for a failed attempt: the failure's own message, or
/// the failed action's error, with access tokens hidden.
pub open spec fn failure_error_spec(failure: PrepareFailure, step_error: Seq<char>) -> Seq<char> {
    redact_spec(
        match failure.message_spec() {
            Some(m) => m,
            None => step_error,
        },
    )
}

/// What a failed attempt does to the session: nothing when the failure
/// may only fail a current attempt and the session has moved on to
/// another; otherwise the status becomes `failed` with the failure's error.
pub fn record_prepare_failure(
    failure: PrepareFailure,
    unconditional: bool,
    step_error: &str,
    status: &str,
    started_ms: u64,
    attempt_ms: u64,
) -> (r: Option<(&'static str, String)>)
    ensures
        (unconditional || attempt_current_spec(status@, started_ms, attempt_ms)) ==> (r matches Some((st, err))
            && st@ == "failed"@ && err@ == failure_error_spec(failure, step_error@)),
        !(unconditional || attempt_current_spec(status@, started_ms, attempt_ms)) ==> r is None,
{
    if !(unconditional || attempt_current(status, started_ms, attempt_ms)) {
        return None;
    }
    let text = match failure.message() {
        Some(m) => m,
        None => step_error,
    };
    Some(("failed", redact(text)))
}

/// An attempt that is no longer current stops without touching the
/// session, wherever it reads the session.
pub proof fn superseded_attempt_does_nothing(s: PrepareState, upgrading: bool)
    requires
        s.phase == PreparePhase::Begin || s.phase == PreparePhase::Waiting || s.phase == PreparePhase::Locked,
    ensures
        prepare_step_spec(s, PrepareEvent::Session { current: false, upgrading }) == (
        at(s, PreparePhase::Finished), PrepareAction::Stop),
{
}

/// A failed action fails the attempt and ends it; failures under the
/// session's lock fail the session even if the attempt was superseded.
pub proof fn failed_action_fails_attempt(s: PrepareState)
    requires
        s.phase != PreparePhase::Finished,
    ensures
        prepare_step_spec(s, PrepareEvent::Failed) == (at(s, PreparePhase::Finished), PrepareAction::Fail {
            failure: PrepareFailure::StepFailed,
            unconditional: locked_phase(s.phase),
        }),
{
}

/// A finished attempt stays finished and does nothing more, whatever
/// happens.
pub proof fn finished_attempt_stays_finished(s: PrepareState, e: PrepareEvent)
    requires
        s.phase == PreparePhase::Finished,
    ensures
        prepare_step_spec(s, e) == (s, PrepareAction::Stop),
{
}

/// Every step keeps the attempt's identity and whether it builds a new
/// container.
pub proof fn prepare_keeps_attempt(s: PrepareState, e: PrepareEvent)
    ensures
        prepare_step_spec(s, e).0.attempt_ms == s.attempt_ms,
        prepare_step_spec(s, e).0.new_container == s.new_container,
{
}

/// No container is inspected or created before the session's GPU was
/// resolved under the session's lock.
pub proof fn gpu_resolved_before_container_work(s: PrepareState, e: PrepareEvent)
    ensures
        prepare_step_spec(s, e).1 == PrepareAction::CreateContainer || prepare_step_spec(s, e).1
            == PrepareAction::InspectContainer ==> s.phase == PreparePhase::Resolving,
{
}

/// Starting an existing container: it fails as already running exactly
/// when an inspection under the lock finds it running and the attempt is
/// not an upgrade; a stopped container goes on (to be replaced, or to have
/// its files copied), and an upgrade stops a running one instead.
pub proof fn only_running_containers_are_refused(s: PrepareState, running: bool)
    requires
        s.phase == PreparePhase::Inspected || s.phase == PreparePhase::Reinspected,
    ensures
        ({
            let (t, a) = prepare_step_spec(s, (PrepareEvent::Inspected { running }));
            &&& (a == (PrepareAction::Fail { failure: PrepareFailure::AlreadyRunning, unconditional: true })) == (running
                && !s.upgrading)
            &&& (!running && s.phase == PreparePhase::Inspected) ==> a == PrepareAction::Replace
            &&& (!running && s.phase == PreparePhase::Reinspected && !s.upgrading) ==> a == PrepareAction::CopyFiles
                && t.phase == PreparePhase::Copying
            &&& (running && s.upgrading && s.phase == PreparePhase::Inspected) ==> a == PrepareAction::StopAndReplace
            &&& s.upgrading && s.phase == PreparePhase::Reinspected ==> a == (PrepareAction::ReadyUpgrade { stop: running })
        }),
{
}

/// Whatever the attempt, an "already running" failure follows only an
/// inspection that found the container running during a start that is not
/// an upgrade, and a container found stopped never fails the attempt.
pub proof fn already_running_means_running(s: PrepareState, e: PrepareEvent)
    ensures
        prepare_step_spec(s, e).1 matches (PrepareAction::Fail { failure: PrepareFailure::AlreadyRunning, .. }) ==> e
            == (PrepareEvent::Inspected { running: true }) && !s.upgrading,
        e == (PrepareEvent::Inspected { running: false }) && (s.phase == PreparePhase::Inspected || s.phase
            == PreparePhase::Reinspected) ==> !(prepare_step_spec(s, e).1 is Fail),
{
}

/// A start goes through the architecture check and package preparation
/// only when it installs a release (a new container or an upgrade);
/// otherwise it goes straight to the session's lock.
pub proof fn install_only_when_needed(s: PrepareState, upgrading: bool)
    requires
        s.phase == PreparePhase::Begin,
    ensures
        prepare_step_spec(s, (PrepareEvent::Session { current: true, upgrading })).1 == if s.new_container || upgrading {
            PrepareAction::CheckArchitecture
        } else {
            PrepareAction::Lock
        },
        prepare_step_spec(s, (PrepareEvent::Session { current: true, upgrading })).0.upgrading == upgrading,
{
}

/// A finished preparation script lets the attempt go on when it succeeded
/// and fails it otherwise; a new container is created, an existing one
/// inspected, only after the GPU is resolved; copied files lead to an
/// upgrade's start or a launch, as the attempt is.
pub proof fn preparation_outcomes(s: PrepareState, success: bool)
    ensures
        s.phase == PreparePhase::Preparing ==> prepare_step_spec(s, (PrepareEvent::Exited { success })).1 == if success {
            PrepareAction::Lock
        } else {
            (PrepareAction::Fail { failure: PrepareFailure::PreparationFailed, unconditional: false })
        },
        s.phase == PreparePhase::Preparing ==> prepare_step_spec(s, PrepareEvent::Deadline).1 == (PrepareAction::Fail {
            failure: PrepareFailure::PreparationTimedOut,
            unconditional: false,
        }),
        s.phase == PreparePhase::Resolving ==> prepare_step_spec(s, PrepareEvent::Done).1 == if s.new_container {
            PrepareAction::CreateContainer
        } else {
            PrepareAction::InspectContainer
        },
        s.phase == PreparePhase::Copying ==> prepare_step_spec(s, PrepareEvent::Done).1 == if s.upgrading {
            PrepareAction::StartUpgrade
        } else {
            PrepareAction::StartLaunch
        },
        s.phase == PreparePhase::Architecture ==> prepare_step_spec(s, (PrepareEvent::Architecture { supported: success })).1
            == if success {
            PrepareAction::CheckPresent
        } else {
            (PrepareAction::Fail { failure: PrepareFailure::UnsupportedArchitecture, unconditional: false })
        },
        (s.phase == PreparePhase::Present || s.phase == PreparePhase::Rechecked) ==> prepare_step_spec(
            s,
            (PrepareEvent::Present { ready: true }),
        ).1 == PrepareAction::Lock,
{
}

} // verus!
