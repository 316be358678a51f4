//! Replacing a session's container by one with new settings, through a
//! snapshot of the old one. The caller performs each action (Docker and
//! the session store) and hands back what came of it.
use vstd::prelude::*;
use crate::containers::{container_settings_eq, container_view, is_text, ContainerSettings, Found, Replacement};
use crate::gpu::GpuView;
use crate::text;

verus! {

/// A replacement as plain values.
pub struct ReplacementView {
    pub source: Seq<char>,
    pub snapshot: Seq<char>,
    pub image: Option<Seq<char>>,
    pub settings: (Seq<Seq<char>>, Seq<Seq<char>>, Option<GpuView>),
}

/// The view of an optional replacement.
pub open spec fn replacement_view(r: Option<Replacement>) -> Option<ReplacementView> {
    match r {
        Some(x) => Some(
            ReplacementView {
                source: x.source@,
                snapshot: x.snapshot@,
                image: match x.image {
                    Some(i) => Some(i@),
                    None => None,
                },
                settings: container_view(&x.settings),
            },
        ),
        None => None,
    }
}

/// Where a replacement stands.
#[derive(PartialEq, Eq, Structural, Debug, Clone, Copy)]
pub enum ReplacePhase {
    /// The session was read.
    Check,
    /// The container is inspected to see whether it is still the snapshotted one.
    Verify,
    /// The container to snapshot is inspected.
    Source,
    /// An image of the snapshot is looked for.
    Lookup,
    /// The container is inspected before it is committed.
    CommitCheck,
    /// The container is being committed to the snapshot image.
    Committing,
    /// The snapshot image's labels are read.
    Owner,
    /// The session's container, if any, is inspected.
    Existing,
    /// The new container is being created.
    Creating,
    /// The new settings are being recorded.
    Completing,
    /// Nothing more happens.
    Finished,
}

/// What came of the last action.
pub enum ReplaceEvent {
    /// The session was read: whether its configured settings are the
    /// target, when it has any.
    Session { configured_is_target: Option<bool> },
    /// The session's container was inspected: its id, if there is one.
    Container { id: Option<String> },
    /// The container to snapshot was inspected, and a fresh snapshot id
    /// drawn.
    Source { id: Option<String>, running: bool, snapshot: String },
    /// An image of the snapshot was looked for: its id, the container it
    /// was taken from and the installation it belongs to, when there is one.
    Snapshot { found: Option<(Option<String>, Option<String>, Option<String>)> },
    /// The container was inspected before committing it.
    CommitSource { id: Option<String>, running: bool },
    /// The snapshot image's labels were read.
    Labels { installation: Option<String>, source: Option<String>, snapshot_id: Option<String> },
    /// The container found while replacing was judged, when there is one.
    Existing { judged: Option<Found> },
    /// The action finished.
    Done,
    /// The action failed with an error of its own.
    Failed,
}

/// Why a replacement failed.
#[derive(PartialEq, Eq, Structural, Debug, Clone, Copy)]
pub enum ReplaceFailure {
    StillRunning,
    SnapshotNotOwned,
    NoContainerId,
    SourceChanged,
    CommittedImageMissing,
    SnapshotSourceMismatch,
    NoImageId,
    OwnershipMismatch,
    ContainerMismatch,
    /// An action failed with its own error.
    StepFailed,
}

impl ReplaceFailure {
    /// The error a failure shows, when it is not the failed action's own.
    pub open spec fn message_spec(self) -> Option<Seq<char>> {
        match self {
            ReplaceFailure::StillRunning => Some("Stop the container before snapshotting"@),
            ReplaceFailure::SnapshotNotOwned => Some("Snapshot ownership does not match"@),
            ReplaceFailure::NoContainerId => Some("Container has no ID"@),
            ReplaceFailure::SourceChanged => Some("Snapshot source changed"@),
            ReplaceFailure::CommittedImageMissing => Some("Committed image is missing"@),
            ReplaceFailure::SnapshotSourceMismatch => Some("Snapshot source does not match"@),
            ReplaceFailure::NoImageId => Some("Snapshot has no image ID"@),
            ReplaceFailure::OwnershipMismatch => Some("Snapshot ownership or source does not match"@),
            ReplaceFailure::ContainerMismatch => Some("Replacement container does not match the saved snapshot"@),
            ReplaceFailure::StepFailed => None,
        }
    }

    /// The error a failure shows, when it is not the failed action's own.
    pub fn message(self) -> (r: Option<&'static str>)
        ensures
            match self.message_spec() {
                Some(m) => r matches Some(x) && x@ == m,
                None => r is None,
            },
    {
        match self {
            ReplaceFailure::StillRunning => Some("Stop the container before snapshotting"),
            ReplaceFailure::SnapshotNotOwned => Some("Snapshot ownership does not match"),
            ReplaceFailure::NoContainerId => Some("Container has no ID"),
            ReplaceFailure::SourceChanged => Some("Snapshot source changed"),
            ReplaceFailure::CommittedImageMissing => Some("Committed image is missing"),
            ReplaceFailure::SnapshotSourceMismatch => Some("Snapshot source does not match"),
            ReplaceFailure::NoImageId => Some("Snapshot has no image ID"),
            ReplaceFailure::OwnershipMismatch => Some("Snapshot ownership or source does not match"),
            ReplaceFailure::ContainerMismatch => Some("Replacement container does not match the saved snapshot"),
            ReplaceFailure::StepFailed => None,
        }
    }
}

/// What the caller does next.
#[derive(PartialEq, Eq, Structural, Debug, Clone, Copy)]
pub enum ReplaceAction {
    /// The container has the wanted settings: stop.
    Finish,
    /// Inspect the session's container.
    InspectContainer,
    /// The replacement already finished: clear it from the session, then stop.
    ClearReplacement,
    /// Mark the snapshot stage and inspect the container to snapshot.
    InspectSource,
    /// Mark the snapshot stage, store the replacement, and look for its
    /// snapshot image.
    SaveAndLookup,
    /// Look for the replacement's snapshot image.
    LookupSnapshot,
    /// Inspect the container before committing it.
    InspectForCommit,
    /// Commit the container to the snapshot image, then look for it.
    Commit,
    /// Store the replacement and read the snapshot image's labels.
    SaveAndReadLabels,
    /// Read the snapshot image's labels.
    ReadLabels,
    /// Inspect the session's container.
    InspectExisting,
    /// Create the new container from the snapshot image.
    Create,
    /// Remove the snapshotted container, then create the new one.
    RemoveSourceAndCreate,
    /// Remove the outdated new container, then create it again.
    RemoveAndCreate,
    /// Record the replacement's settings as configured, clear the
    /// replacement and mark the container stage.
    Complete,
    /// Read the session again.
    ReadSession,
    /// Stop with the failure's error.
    Fail { failure: ReplaceFailure },
}

/// The replacement with its settings set to `target`.
pub open spec fn retarget(r: ReplacementView, target: (Seq<Seq<char>>, Seq<Seq<char>>, Option<GpuView>)) -> ReplacementView {
    ReplacementView { settings: target, ..r }
}

/// What follows once a replacement with the target settings is known:
/// store it if it changed, then look for its image or read its labels.
pub open spec fn after_settings(r: ReplacementView, changed: bool) -> (ReplacePhase, Option<ReplacementView>, ReplaceAction) {
    if r.image is None {
        (ReplacePhase::Lookup, Some(r), if changed { ReplaceAction::SaveAndLookup } else { ReplaceAction::LookupSnapshot })
    } else {
        (ReplacePhase::Owner, Some(r), if changed { ReplaceAction::SaveAndReadLabels } else { ReplaceAction::ReadLabels })
    }
}

/// What an image of the snapshot leads to: it must belong to this
/// installation, come from the snapshotted container and have an id, which
/// the replacement records.
pub open spec fn found_image(
    r: ReplacementView,
    id: Option<Seq<char>>,
    source_label: Option<Seq<char>>,
    installation_label: Option<Seq<char>>,
    installation_id: Seq<char>,
) -> (ReplacePhase, Option<ReplacementView>, ReplaceAction) {
    if installation_label != Some(installation_id) {
        (ReplacePhase::Finished, Some(r), ReplaceAction::Fail { failure: ReplaceFailure::SnapshotNotOwned })
    } else if source_label != Some(r.source) {
        (ReplacePhase::Finished, Some(r), ReplaceAction::Fail { failure: ReplaceFailure::SnapshotSourceMismatch })
    } else if id is None {
        (ReplacePhase::Finished, Some(r), ReplaceAction::Fail { failure: ReplaceFailure::NoImageId })
    } else {
        (ReplacePhase::Owner, Some(ReplacementView { image: id, ..r }), ReplaceAction::SaveAndReadLabels)
    }
}

/// The view of an optional text.
pub open spec fn text_view(t: Option<String>) -> Option<Seq<char>> {
    match t {
        Some(x) => Some(x@),
        None => None,
    }
}

/// One step of a replacement: the phase after `e`, the replacement then
/// held, and the next action. No replacement runs when the container is
/// already configured with the target settings; a replacement is recorded
/// before its snapshot is taken, and its settings always become the target.
/// Whenever the replacement goes on from `Check` or `Verify`, the caller
/// first marks the session's snapshot stage. An event the phase does not
/// expect fails the replacement.
pub open spec fn replace_spec(
    phase: ReplacePhase,
    rep: Option<ReplacementView>,
    target: (Seq<Seq<char>>, Seq<Seq<char>>, Option<GpuView>),
    installation_id: Seq<char>,
    e: ReplaceEvent,
) -> (ReplacePhase, Option<ReplacementView>, ReplaceAction) {
    match (phase, e) {
        (ReplacePhase::Finished, _) => (ReplacePhase::Finished, rep, ReplaceAction::Finish),
        (_, ReplaceEvent::Failed) => (ReplacePhase::Finished, rep, ReplaceAction::Fail { failure: ReplaceFailure::StepFailed }),
        (ReplacePhase::Check, ReplaceEvent::Session { configured_is_target }) => if rep is None
            && configured_is_target != Some(false) {
            (ReplacePhase::Finished, rep, ReplaceAction::Finish)
        } else if rep is Some && configured_is_target == Some(true) {
            (ReplacePhase::Verify, rep, ReplaceAction::InspectContainer)
        } else {
            match rep {
                None => (ReplacePhase::Source, rep, ReplaceAction::InspectSource),
                Some(r) => after_settings(retarget(r, target), r.settings != target),
            }
        },
        (ReplacePhase::Verify, ReplaceEvent::Container { id }) => match rep {
            Some(r) => if text_view(id) == Some(r.source) {
                (ReplacePhase::Finished, None, ReplaceAction::ClearReplacement)
            } else {
                after_settings(retarget(r, target), r.settings != target)
            },
            None => (ReplacePhase::Finished, rep, ReplaceAction::Fail { failure: ReplaceFailure::StepFailed }),
        },
        (ReplacePhase::Source, ReplaceEvent::Source { id, running, snapshot }) => if running {
            (ReplacePhase::Finished, rep, ReplaceAction::Fail { failure: ReplaceFailure::StillRunning })
        } else {
            match id {
                None => (ReplacePhase::Finished, rep, ReplaceAction::Fail { failure: ReplaceFailure::NoContainerId }),
                Some(i) => (
                    ReplacePhase::Lookup,
                    Some(ReplacementView { source: i@, snapshot: snapshot@, image: None, settings: target }),
                    ReplaceAction::SaveAndLookup,
                ),
            }
        },
        (ReplacePhase::Lookup, ReplaceEvent::Snapshot { found }) => match rep {
            Some(r) => match found {
                Some((id, label, owner)) => found_image(r, text_view(id), text_view(label), text_view(owner), installation_id),
                None => (ReplacePhase::CommitCheck, rep, ReplaceAction::InspectForCommit),
            },
            None => (ReplacePhase::Finished, rep, ReplaceAction::Fail { failure: ReplaceFailure::StepFailed }),
        },
        (ReplacePhase::CommitCheck, ReplaceEvent::CommitSource { id, running }) => match rep {
            Some(r) => if text_view(id) == Some(r.source) && !running {
                (ReplacePhase::Committing, rep, ReplaceAction::Commit)
            } else {
                (ReplacePhase::Finished, rep, ReplaceAction::Fail { failure: ReplaceFailure::SourceChanged })
            },
            None => (ReplacePhase::Finished, rep, ReplaceAction::Fail { failure: ReplaceFailure::StepFailed }),
        },
        (ReplacePhase::Committing, ReplaceEvent::Snapshot { found }) => match rep {
            Some(r) => match found {
                Some((id, label, owner)) => found_image(r, text_view(id), text_view(label), text_view(owner), installation_id),
                None => (ReplacePhase::Finished, rep, ReplaceAction::Fail { failure: ReplaceFailure::CommittedImageMissing }),
            },
            None => (ReplacePhase::Finished, rep, ReplaceAction::Fail { failure: ReplaceFailure::StepFailed }),
        },
        (ReplacePhase::Owner, ReplaceEvent::Labels { installation, source, snapshot_id }) => match rep {
            Some(r) => if text_view(installation) == Some(installation_id) && text_view(source) == Some(r.source)
                && text_view(snapshot_id) == Some(r.snapshot) {
                (ReplacePhase::Existing, rep, ReplaceAction::InspectExisting)
            } else {
                (ReplacePhase::Finished, rep, ReplaceAction::Fail { failure: ReplaceFailure::OwnershipMismatch })
            },
            None => (ReplacePhase::Finished, rep, ReplaceAction::Fail { failure: ReplaceFailure::StepFailed }),
        },
        (ReplacePhase::Existing, ReplaceEvent::Existing { judged }) => match judged {
            None => (ReplacePhase::Creating, rep, ReplaceAction::Create),
            Some(Found::Source) => (ReplacePhase::Creating, rep, ReplaceAction::RemoveSourceAndCreate),
            Some(Found::Mismatch) => (ReplacePhase::Finished, rep, ReplaceAction::Fail { failure: ReplaceFailure::ContainerMismatch }),
            Some(Found::Outdated) => (ReplacePhase::Creating, rep, ReplaceAction::RemoveAndCreate),
            Some(Found::Current) => (ReplacePhase::Completing, rep, ReplaceAction::Complete),
        },
        (ReplacePhase::Creating, ReplaceEvent::Done) => (ReplacePhase::Completing, rep, ReplaceAction::Complete),
        (ReplacePhase::Completing, ReplaceEvent::Done) => (ReplacePhase::Check, None, ReplaceAction::ReadSession),
        _ => (ReplacePhase::Finished, rep, ReplaceAction::Fail { failure: ReplaceFailure::StepFailed }),
    }
}

/// A copy of a list of texts.
fn copy_texts(v: &Vec<String>) -> (r: Vec<String>)
    ensures
        r@.len() == v@.len(),
        forall|k: int| 0 <= k < v@.len() ==> r@[k]@ == v@[k]@,
{
    let mut out: Vec<String> = Vec::new();
    let mut i: usize = 0;
    while i < v.len()
        invariant
            i <= v.len(),
            out@.len() == i,
            forall|k: int| 0 <= k < i ==> out@[k]@ == v@[k]@,
        decreases v.len() - i,
    {
        out.push(v[i].clone());
        i += 1;
    }
    out
}

/// A copy of container settings.
pub fn copy_settings(s: &ContainerSettings) -> (r: ContainerSettings)
    ensures
        container_view(&r) == container_view(s),
{
    let packages = copy_texts(&s.packages);
    let docker_args = copy_texts(&s.docker_args);
    let gpu = match &s.gpu {
        Some(g) => Some(g.duplicate()),
        None => None,
    };
    let r = ContainerSettings { packages, docker_args, gpu };
    assert(container_view(&r).0 =~= container_view(s).0);
    assert(container_view(&r).1 =~= container_view(s).1);
    r
}

/// Whether an optional text is `b`.
fn is_opt(a: &Option<String>, b: &String) -> (r: bool)
    ensures
        r == (text_view(*a) == Some(b@)),
{
    match a {
        Some(x) => is_text(Some(x.as_str()), b.as_str()),
        None => false,
    }
}

fn step_after_settings(r: Replacement, changed: bool) -> (out: (ReplacePhase, Option<Replacement>, ReplaceAction))
    ensures
        ({
            let (p, x, a) = after_settings(replacement_view(Some(r))->0, changed);
            out.0 == p && replacement_view(out.1) == x && out.2 == a
        }),
{
    if r.image.is_none() {
        (ReplacePhase::Lookup, Some(r), if changed { ReplaceAction::SaveAndLookup } else { ReplaceAction::LookupSnapshot })
    } else {
        (ReplacePhase::Owner, Some(r), if changed { ReplaceAction::SaveAndReadLabels } else { ReplaceAction::ReadLabels })
    }
}

fn step_found_image(
    r: Replacement,
    id: Option<String>,
    label: Option<String>,
    owner: Option<String>,
    installation_id: &str,
) -> (out: (ReplacePhase, Option<Replacement>, ReplaceAction))
    ensures
        ({
            let (p, x, a) = found_image(replacement_view(Some(r))->0, text_view(id), text_view(label), text_view(owner), installation_id@);
            out.0 == p && replacement_view(out.1) == x && out.2 == a
        }),
{
    let installation = installation_id.to_string();
    if !is_opt(&owner, &installation) {
        return (ReplacePhase::Finished, Some(r), ReplaceAction::Fail { failure: ReplaceFailure::SnapshotNotOwned });
    }
    if !is_opt(&label, &r.source) {
        return (ReplacePhase::Finished, Some(r), ReplaceAction::Fail { failure: ReplaceFailure::SnapshotSourceMismatch });
    }
    match id {
        None => (ReplacePhase::Finished, Some(r), ReplaceAction::Fail { failure: ReplaceFailure::NoImageId }),
        Some(i) => {
            let next = Replacement { source: r.source, snapshot: r.snapshot, image: Some(i), settings: r.settings };
            (ReplacePhase::Owner, Some(next), ReplaceAction::SaveAndReadLabels)
        },
    }
}

/// The replacement with its settings set to `target`, and whether they
/// changed.
fn step_retarget(r: Replacement, target: &ContainerSettings) -> (out: (Replacement, bool))
    ensures
        replacement_view(Some(out.0)) == Some(retarget(replacement_view(Some(r))->0, container_view(target))),
        out.1 == (container_view(&r.settings) != container_view(target)),
{
    let changed = !container_settings_eq(&r.settings, target);
    (Replacement { source: r.source, snapshot: r.snapshot, image: r.image, settings: copy_settings(target) }, changed)
}

/// One step of a replacement.
pub fn replace_step(
    phase: ReplacePhase,
    rep: Option<Replacement>,
    target: &ContainerSettings,
    installation_id: &str,
    event: ReplaceEvent,
) -> (r: (ReplacePhase, Option<Replacement>, ReplaceAction))
    ensures
        ({
            let (p, x, a) = replace_spec(phase, replacement_view(rep), container_view(target), installation_id@, event);
            r.0 == p && replacement_view(r.1) == x && r.2 == a
        }),
{
    match (phase, event) {
        (ReplacePhase::Finished, _) => (ReplacePhase::Finished, rep, ReplaceAction::Finish),
        (_, ReplaceEvent::Failed) => (ReplacePhase::Finished, rep, ReplaceAction::Fail { failure: ReplaceFailure::StepFailed }),
        (ReplacePhase::Check, ReplaceEvent::Session { configured_is_target }) => {
            let not_other = !matches!(configured_is_target, Some(false));
            let is_target = matches!(configured_is_target, Some(true));
            match rep {
                None => if not_other {
                    (ReplacePhase::Finished, None, ReplaceAction::Finish)
                } else {
                    (ReplacePhase::Source, None, ReplaceAction::InspectSource)
                },
                Some(r) => if is_target {
                    (ReplacePhase::Verify, Some(r), ReplaceAction::InspectContainer)
                } else {
                    let (n, changed) = step_retarget(r, target);
                    step_after_settings(n, changed)
                },
            }
        },
        (ReplacePhase::Verify, ReplaceEvent::Container { id }) => match rep {
            Some(r) => if is_opt(&id, &r.source) {
                (ReplacePhase::Finished, None, ReplaceAction::ClearReplacement)
            } else {
                let (n, changed) = step_retarget(r, target);
                step_after_settings(n, changed)
            },
            None => (ReplacePhase::Finished, None, ReplaceAction::Fail { failure: ReplaceFailure::StepFailed }),
        },
        (ReplacePhase::Source, ReplaceEvent::Source { id, running, snapshot }) => if running {
            (ReplacePhase::Finished, rep, ReplaceAction::Fail { failure: ReplaceFailure::StillRunning })
        } else {
            match id {
                None => (ReplacePhase::Finished, rep, ReplaceAction::Fail { failure: ReplaceFailure::NoContainerId }),
                Some(i) => (
                    ReplacePhase::Lookup,
                    Some(Replacement { source: i, snapshot, image: None, settings: copy_settings(target) }),
                    ReplaceAction::SaveAndLookup,
                ),
            }
        },
        (ReplacePhase::Lookup, ReplaceEvent::Snapshot { found }) => match rep {
            Some(r) => match found {
                Some((id, label, owner)) => step_found_image(r, id, label, owner, installation_id),
                None => (ReplacePhase::CommitCheck, Some(r), ReplaceAction::InspectForCommit),
            },
            None => (ReplacePhase::Finished, None, ReplaceAction::Fail { failure: ReplaceFailure::StepFailed }),
        },
        (ReplacePhase::CommitCheck, ReplaceEvent::CommitSource { id, running }) => match rep {
            Some(r) => if is_opt(&id, &r.source) && !running {
                (ReplacePhase::Committing, Some(r), ReplaceAction::Commit)
            } else {
                (ReplacePhase::Finished, Some(r), ReplaceAction::Fail { failure: ReplaceFailure::SourceChanged })
            },
            None => (ReplacePhase::Finished, None, ReplaceAction::Fail { failure: ReplaceFailure::StepFailed }),
        },
        (ReplacePhase::Committing, ReplaceEvent::Snapshot { found }) => match rep {
            Some(r) => match found {
                Some((id, label, owner)) => step_found_image(r, id, label, owner, installation_id),
                None => (ReplacePhase::Finished, Some(r), ReplaceAction::Fail { failure: ReplaceFailure::CommittedImageMissing }),
            },
            None => (ReplacePhase::Finished, None, ReplaceAction::Fail { failure: ReplaceFailure::StepFailed }),
        },
        (ReplacePhase::Owner, ReplaceEvent::Labels { installation, source, snapshot_id }) => match rep {
            Some(r) => {
                let owner = installation_id.to_string();
                if is_opt(&installation, &owner) && is_opt(&source, &r.source) && is_opt(&snapshot_id, &r.snapshot) {
                    (ReplacePhase::Existing, Some(r), ReplaceAction::InspectExisting)
                } else {
                    (ReplacePhase::Finished, Some(r), ReplaceAction::Fail { failure: ReplaceFailure::OwnershipMismatch })
                }
            },
            None => (ReplacePhase::Finished, None, ReplaceAction::Fail { failure: ReplaceFailure::StepFailed }),
        },
        (ReplacePhase::Existing, ReplaceEvent::Existing { judged }) => match judged {
            None => (ReplacePhase::Creating, rep, ReplaceAction::Create),
            Some(Found::Source) => (ReplacePhase::Creating, rep, ReplaceAction::RemoveSourceAndCreate),
            Some(Found::Mismatch) => (ReplacePhase::Finished, rep, ReplaceAction::Fail { failure: ReplaceFailure::ContainerMismatch }),
            Some(Found::Outdated) => (ReplacePhase::Creating, rep, ReplaceAction::RemoveAndCreate),
            Some(Found::Current) => (ReplacePhase::Completing, rep, ReplaceAction::Complete),
        },
        (ReplacePhase::Creating, ReplaceEvent::Done) => (ReplacePhase::Completing, rep, ReplaceAction::Complete),
        (ReplacePhase::Completing, ReplaceEvent::Done) => (ReplacePhase::Check, None, ReplaceAction::ReadSession),
        _ => (ReplacePhase::Finished, rep, ReplaceAction::Fail { failure: ReplaceFailure::StepFailed }),
    }
}

/// No replacement runs when none is under way and the container is
/// configured with the target settings, or was never configured.
pub proof fn no_replacement_when_configured(target: (Seq<Seq<char>>, Seq<Seq<char>>, Option<GpuView>), installation_id: Seq<char>, configured_is_target: Option<bool>)
    requires
        configured_is_target != Some(false),
    ensures
        replace_spec(ReplacePhase::Check, None, target, installation_id, ReplaceEvent::Session { configured_is_target })
            == (ReplacePhase::Finished, None::<ReplacementView>, ReplaceAction::Finish),
{
}

/// A new replacement snapshots the container it inspected and aims at the
/// target settings; a running container is never snapshotted.
pub proof fn new_replacement_aims_at_target(
    target: (Seq<Seq<char>>, Seq<Seq<char>>, Option<GpuView>),
    installation_id: Seq<char>,
    id: String,
    running: bool,
    snapshot: String,
)
    ensures
        ({
            let (p, x, a) = replace_spec(ReplacePhase::Source, None, target, installation_id, ReplaceEvent::Source { id: Some(id), running, snapshot });
            if running {
                a == ReplaceAction::Fail { failure: ReplaceFailure::StillRunning }
            } else {
                x == Some(ReplacementView { source: id@, snapshot: snapshot@, image: None, settings: target })
                    && a == ReplaceAction::SaveAndLookup
            }
        }),
{
}

/// A replacement that goes on always carries the target settings.
pub proof fn replacement_follows_target(
    r: ReplacementView,
    target: (Seq<Seq<char>>, Seq<Seq<char>>, Option<GpuView>),
    installation_id: Seq<char>,
    configured_is_target: Option<bool>,
)
    requires
        configured_is_target != Some(true),
    ensures
        replace_spec(ReplacePhase::Check, Some(r), target, installation_id, ReplaceEvent::Session { configured_is_target }).1
            matches Some(x) && x.settings == target,
{
}

/// Between the session's check and the recording of the new settings, a
/// replacement is held, and its settings are the target.
pub open spec fn replace_invariant(
    phase: ReplacePhase,
    rep: Option<ReplacementView>,
    target: (Seq<Seq<char>>, Seq<Seq<char>>, Option<GpuView>),
) -> bool {
    (phase == ReplacePhase::Lookup || phase == ReplacePhase::CommitCheck || phase == ReplacePhase::Committing
        || phase == ReplacePhase::Owner || phase == ReplacePhase::Existing || phase == ReplacePhase::Creating
        || phase == ReplacePhase::Completing) ==> (rep matches Some(r) && r.settings == target)
}

/// Every step keeps the replacement aimed at the target, and the new
/// settings recorded on completion are the target settings.
pub proof fn replacement_reaches_target(
    phase: ReplacePhase,
    rep: Option<ReplacementView>,
    target: (Seq<Seq<char>>, Seq<Seq<char>>, Option<GpuView>),
    installation_id: Seq<char>,
    e: ReplaceEvent,
)
    requires
        replace_invariant(phase, rep, target),
    ensures
        ({
            let (p, x, a) = replace_spec(phase, rep, target, installation_id, e);
            &&& replace_invariant(p, x, target)
            &&& (a == ReplaceAction::Complete ==> (x matches Some(r) && r.settings == target))
        }),
{
}

/// A replacement ends successfully only with nothing left to replace:
/// `Finish` (outside a finished replacement) comes only when no
/// replacement is held and the container is configured with the target
/// settings, or was never configured; `ClearReplacement` drops the
/// replacement; and after `Complete` the replacement is dropped and the
/// session is read again.
pub proof fn finished_replacement_is_settled(
    phase: ReplacePhase,
    rep: Option<ReplacementView>,
    target: (Seq<Seq<char>>, Seq<Seq<char>>, Option<GpuView>),
    installation_id: Seq<char>,
    e: ReplaceEvent,
)
    requires
        phase != ReplacePhase::Finished,
    ensures
        ({
            let (p, x, a) = replace_spec(phase, rep, target, installation_id, e);
            &&& (a == ReplaceAction::Finish ==> (x is None && rep is None && (e matches ReplaceEvent::Session {
                configured_is_target } && configured_is_target != Some(false))))
            &&& (a == ReplaceAction::ClearReplacement ==> x is None)
            &&& (phase == ReplacePhase::Completing && e is Done ==> x is None && a == ReplaceAction::ReadSession)
        }),
{
}


/// A replacement guards the snapshot: a failed action always fails it; a
/// container is committed only when it is still the snapshotted one and
/// stopped; a snapshot image is used only when its labels name this
/// installation, the snapshotted container and the snapshot; and the
/// container found is kept only when it is current, removed when it is the
/// snapshotted or an outdated one, and any other fails the replacement.
pub proof fn replacement_guards_the_snapshot(
    phase: ReplacePhase,
    rep: Option<ReplacementView>,
    target: (Seq<Seq<char>>, Seq<Seq<char>>, Option<GpuView>),
    installation_id: Seq<char>,
    e: ReplaceEvent,
)
    ensures
        ({
            let (p, x, a) = replace_spec(phase, rep, target, installation_id, e);
            &&& (phase != ReplacePhase::Finished && e is Failed) ==> p == ReplacePhase::Finished && a
                == ReplaceAction::Fail { failure: ReplaceFailure::StepFailed }
            &&& a == ReplaceAction::Commit ==> phase == ReplacePhase::CommitCheck && match (rep, e) {
                (Some(r), ReplaceEvent::CommitSource { id: Some(i), running }) => !running && i@ == r.source,
                _ => false,
            }
            &&& a == ReplaceAction::InspectExisting ==> phase == ReplacePhase::Owner && match (rep, e) {
                (
                    Some(r),
                    ReplaceEvent::Labels { installation: Some(i), source: Some(c), snapshot_id: Some(n) },
                ) => i@ == installation_id && c@ == r.source && n@ == r.snapshot,
                _ => false,
            }
            &&& (phase == ReplacePhase::Lookup || phase == ReplacePhase::Committing) && p == ReplacePhase::Owner
                ==> match (rep, e) {
                (Some(r), ReplaceEvent::Snapshot { found: Some((Some(id), Some(l), Some(o))) }) => o@ == installation_id
                    && l@ == r.source && x == Some(ReplacementView { image: Some(id@), ..r }),
                _ => false,
            }
            &&& phase == ReplacePhase::Existing ==> match e {
                ReplaceEvent::Existing { judged } => a == match judged {
                    None => ReplaceAction::Create,
                    Some(Found::Source) => ReplaceAction::RemoveSourceAndCreate,
                    Some(Found::Outdated) => ReplaceAction::RemoveAndCreate,
                    Some(Found::Current) => ReplaceAction::Complete,
                    Some(Found::Mismatch) => ReplaceAction::Fail { failure: ReplaceFailure::ContainerMismatch },
                },
                _ => true,
            }
            &&& phase == ReplacePhase::Source ==> match e {
                ReplaceEvent::Source { running: true, .. } => a == ReplaceAction::Fail {
                    failure: ReplaceFailure::StillRunning,
                },
                _ => true,
            }
        }),
{
}

} // verus!
