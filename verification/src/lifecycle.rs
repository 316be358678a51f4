//! The decisions that move a session through its life: starting, stopping,
//! upgrading, changing settings and watching the container.
use vstd::prelude::*;
use crate::text::{self, chars_eq, chars_of};

verus! {

/// Why a lifecycle request was refused.
#[derive(PartialEq, Eq, Structural, Debug, Clone, Copy)]
pub enum LifecycleError {
    /// Only running sessions can be relaunched.
    NotRunning,
    /// Only stopped sessions can be started.
    NotStopped,
    /// The session's container is missing and no replacement is pending.
    ContainerMissing,
    /// The container was created but never configured.
    InitInterrupted,
    /// The Elsewhere package is not completely installed.
    IncompleteInstall,
    /// The container still runs and the request was not a relaunch.
    StillRunning,
    /// Only running or stopped sessions can be upgraded.
    NotUpgradable,
    /// Settings can be saved only for running or stopped sessions.
    NotConfigurable,
}

impl LifecycleError {
    /// The text shown for the error.
    pub open spec fn message_spec(self) -> Seq<char> {
        match self {
            LifecycleError::NotRunning => "Only running sessions can be relaunched"@,
            LifecycleError::NotStopped => "Only stopped sessions can be started"@,
            LifecycleError::ContainerMissing => "Session container is missing."@,
            LifecycleError::InitInterrupted => "Container initialization was interrupted. Destroy this session and create it again."@,
            LifecycleError::IncompleteInstall => "Elsewhere installation is incomplete. Install the preferred Elsewhere version before starting."@,
            LifecycleError::StillRunning => "Container is still running. Stop it before starting."@,
            LifecycleError::NotUpgradable => "Only running or stopped sessions can be upgraded"@,
            LifecycleError::NotConfigurable => "Settings can be saved only for running or stopped sessions."@,
        }
    }

    /// The text shown for the error.
    pub fn message(&self) -> (r: &'static str)
        ensures
            r@ == self.message_spec(),
    {
        match self {
            LifecycleError::NotRunning => "Only running sessions can be relaunched",
            LifecycleError::NotStopped => "Only stopped sessions can be started",
            LifecycleError::ContainerMissing => "Session container is missing.",
            LifecycleError::InitInterrupted => "Container initialization was interrupted. Destroy this session and create it again.",
            LifecycleError::IncompleteInstall => "Elsewhere installation is incomplete. Install the preferred Elsewhere version before starting.",
            LifecycleError::StillRunning => "Container is still running. Stop it before starting.",
            LifecycleError::NotUpgradable => "Only running or stopped sessions can be upgraded",
            LifecycleError::NotConfigurable => "Settings can be saved only for running or stopped sessions.",
        }
    }
}

/// Whether `s` is the text `lit`.
pub(crate) fn is(s: &str, lit: &str) -> (r: bool)
    ensures
        r == (s@ == lit@),
{
    let a = chars_of(s);
    let b = chars_of(lit);
    chars_eq(a.as_slice(), b.as_slice())
}

/// A background preparation is still the session's current attempt: the
/// session is preparing or upgrading, and it was started by this attempt.
pub open spec fn attempt_current_spec(status: Seq<char>, started_ms: u64, attempt_ms: u64) -> bool {
    (status == "preparing"@ || status == "upgrading"@) && started_ms == attempt_ms
}

/// Whether a background preparation is still the session's current attempt.
pub fn attempt_current(status: &str, started_ms: u64, attempt_ms: u64) -> (r: bool)
    ensures
        r == attempt_current_spec(status@, started_ms, attempt_ms),
{
    (is(status, "preparing") || is(status, "upgrading")) && started_ms == attempt_ms
}

/// The start time of a new attempt: now, but always after the previous
/// attempt's start (unless that is already the largest time).
pub open spec fn next_attempt_spec(now_ms: u64, started_ms: u64) -> u64 {
    let after = if started_ms == u64::MAX { u64::MAX } else { (started_ms + 1) as u64 };
    if now_ms >= after { now_ms } else { after }
}

/// The start time of a new attempt.
pub fn next_attempt(now_ms: u64, started_ms: u64) -> (r: u64)
    ensures
        r == next_attempt_spec(now_ms, started_ms),
{
    let after = started_ms.saturating_add(1);
    if now_ms >= after { now_ms } else { after }
}

/// `std::time::SystemTime`: milliseconds since the Unix epoch by the
/// system clock, or zero when the clock reads earlier than the epoch. The
/// clock may go back, so nothing is promised of the value.
#[verifier::external_body]
pub(crate) fn now_ms() -> (r: u64) {
    match std::time::UNIX_EPOCH.elapsed() {
        Ok(d) => d.as_millis() as u64,
        Err(_) => 0,
    }
}

/// The start time of a new attempt on a session whose last attempt started
/// at `started_ms`: the current time, but always after the last start.
pub fn attempt_start(started_ms: u64) -> (r: u64)
    ensures
        exists|now: u64| r == next_attempt_spec(now, started_ms),
        started_ms < u64::MAX ==> r > started_ms,
{
    let now = now_ms();
    next_attempt(now, started_ms)
}

/// A new attempt supersedes the previous one: work of the previous attempt
/// is no longer current once the new attempt is recorded.
pub proof fn new_attempt_supersedes_old(now_ms: u64, started_ms: u64, status: Seq<char>)
    requires
        started_ms < u64::MAX,
    ensures
        next_attempt_spec(now_ms, started_ms) > started_ms,
        next_attempt_spec(now_ms, started_ms) >= now_ms,
        !attempt_current_spec(status, next_attempt_spec(now_ms, started_ms), started_ms),
{
}

/// Checks the session's status before a start or relaunch.
pub fn check_start_status(status: &str, relaunch: bool) -> (r: Result<(), LifecycleError>)
    ensures
        r == if relaunch {
            if status@ == "running"@ { Ok(()) } else { Err(LifecycleError::NotRunning) }
        } else {
            if status@ == "stopped"@ { Ok(()) } else { Err(LifecycleError::NotStopped) }
        },
{
    if relaunch {
        if is(status, "running") { Ok(()) } else { Err(LifecycleError::NotRunning) }
    } else {
        if is(status, "stopped") { Ok(()) } else { Err(LifecycleError::NotStopped) }
    }
}

/// What is known of a session's container before a start.
pub struct ContainerState {
    /// Docker reports a container for the session.
    pub exists: bool,
    /// Docker reports its state as `created`.
    pub created: bool,
    /// It is running.
    pub running: bool,
}

/// The checks on the container before a start. `Ok(true)` asks to stop the
/// container first (a relaunch of a running container). `install_complete`
/// is the package database's answer, when it could be read.
pub open spec fn start_check_spec(
    c: ContainerState,
    configured: bool,
    replacing: bool,
    install_complete: Option<bool>,
    relaunch: bool,
) -> Result<bool, LifecycleError> {
    if !c.exists {
        if !replacing { Err(LifecycleError::ContainerMissing) } else { Ok(false) }
    } else if c.created && !configured && !replacing {
        Err(LifecycleError::InitInterrupted)
    } else if install_complete == Some(false) {
        Err(LifecycleError::IncompleteInstall)
    } else if c.running {
        if relaunch { Ok(true) } else { Err(LifecycleError::StillRunning) }
    } else {
        Ok(false)
    }
}

/// Checks the container before a start.
pub fn start_check(
    c: &ContainerState,
    configured: bool,
    replacing: bool,
    install_complete: Option<bool>,
    relaunch: bool,
) -> (r: Result<bool, LifecycleError>)
    ensures
        r == start_check_spec(*c, configured, replacing, install_complete, relaunch),
{
    if !c.exists {
        return if !replacing { Err(LifecycleError::ContainerMissing) } else { Ok(false) };
    }
    if c.created && !configured && !replacing {
        return Err(LifecycleError::InitInterrupted);
    }
    if install_complete == Some(false) {
        return Err(LifecycleError::IncompleteInstall);
    }
    if c.running {
        if relaunch { Ok(true) } else { Err(LifecycleError::StillRunning) }
    } else {
        Ok(false)
    }
}

/// A timing survives a restart when it measured the image, download or
/// container stage.
pub fn keep_timing(stage: &str) -> (r: bool)
    ensures
        r == (stage@ == "image"@ || stage@ == "download"@ || stage@ == "container"@),
{
    is(stage, "image") || is(stage, "download") || is(stage, "container")
}

/// The session is in the image or download stage.
pub open spec fn downloading_spec(stage: Seq<char>) -> bool {
    stage == "image"@ || stage == "download"@
}

/// Whether the session is in the image or download stage.
pub fn downloading(stage: &str) -> (r: bool)
    ensures
        r == downloading_spec(stage@),
{
    is(stage, "image") || is(stage, "download")
}

/// A stop inspects (and stops) the container when there is one, or when the
/// session should have one: it is past downloading and not being replaced.
pub fn stop_inspects(has_container: bool, downloading: bool, replacing: bool) -> (r: bool)
    ensures
        r == (has_container || (!downloading && !replacing)),
{
    has_container || (!downloading && !replacing)
}

/// The status after a stop: a session stopped while downloading, before it
/// had any container, is cancelled; any other is stopped.
pub fn stopped_status(downloading: bool, has_container: bool, configured: bool, replacing: bool) -> (r: &'static str)
    ensures
        r@ == if downloading && !has_container && !configured && !replacing {
            "cancelled"@
        } else {
            "stopped"@
        },
{
    if downloading && !has_container && !configured && !replacing { "cancelled" } else { "stopped" }
}

/// The session runs or is stopped.
pub open spec fn settled_spec(status: Seq<char>) -> bool {
    status == "running"@ || status == "stopped"@
}

/// Checks the status before an upgrade.
pub fn check_upgrade_status(status: &str) -> (r: Result<(), LifecycleError>)
    ensures
        r == if settled_spec(status@) { Ok(()) } else { Err(LifecycleError::NotUpgradable) },
{
    if is(status, "running") || is(status, "stopped") { Ok(()) } else { Err(LifecycleError::NotUpgradable) }
}

/// Checks the status before saving settings.
pub fn check_settings_status(status: &str) -> (r: Result<(), LifecycleError>)
    ensures
        r == if settled_spec(status@) { Ok(()) } else { Err(LifecycleError::NotConfigurable) },
{
    if is(status, "running") || is(status, "stopped") { Ok(()) } else { Err(LifecycleError::NotConfigurable) }
}

/// Software encoding is forced on when the session has no GPU access.
pub fn software_encoding(requested: bool, gpu_access: bool) -> (r: bool)
    ensures
        r == (requested || !gpu_access),
{
    requested || !gpu_access
}

/// Saving settings keeps the session's GPU when neither GPU access nor the
/// requested GPU changed; otherwise a GPU is chosen again.
pub fn keep_gpu(
    requested_access: bool,
    requested_id: Option<&str>,
    current_access: bool,
    current_id: Option<&str>,
) -> (r: bool)
    ensures
        r == (requested_access == current_access && match (requested_id, current_id) {
            (Some(a), Some(b)) => a@ == b@,
            (None, None) => true,
            _ => false,
        }),
{
    if requested_access != current_access {
        return false;
    }
    match (requested_id, current_id) {
        (Some(a), Some(b)) => {
            let x = chars_of(a);
            let y = chars_of(b);
            chars_eq(x.as_slice(), y.as_slice())
        },
        (None, None) => true,
        _ => false,
    }
}

/// Whether two lists of strings are equal.
pub fn strings_eq(a: &[String], b: &[String]) -> (r: bool)
    ensures
        r == (crate::validation::string_views(a@) == crate::validation::string_views(b@)),
{
    if a.len() != b.len() {
        assert(crate::validation::string_views(a@).len() != crate::validation::string_views(b@).len());
        return false;
    }
    let mut i: usize = 0;
    while i < a.len()
        invariant
            a.len() == b.len(),
            i <= a.len(),
            forall|k: int| 0 <= k < i ==> a@[k]@ == b@[k]@,
        decreases a.len() - i,
    {
        let x = chars_of(a[i].as_str());
        let y = chars_of(b[i].as_str());
        if !chars_eq(x.as_slice(), y.as_slice()) {
            assert(crate::validation::string_views(a@)[i as int] != crate::validation::string_views(b@)[i as int]);
            return false;
        }
        i += 1;
    }
    assert(crate::validation::string_views(a@) =~= crate::validation::string_views(b@));
    true
}

/// Only administrators may change a session's extra Docker options.
pub fn docker_args_change_allowed(administrator: bool, requested: &[String], current: &[String]) -> (r: bool)
    ensures
        r == (administrator || crate::validation::string_views(requested@)
            == crate::validation::string_views(current@)),
{
    administrator || strings_eq(requested, current)
}

// ---------------------------------------------------------------------------
// Watching containers
// ---------------------------------------------------------------------------

/// The watcher leaves a session alone while it downloads or waits, unless
/// it is settled.
pub fn watch_skips(stage: &str, status: &str) -> (r: bool)
    ensures
        r == ((stage@ == "image"@ || stage@ == "download"@ || stage@ == "queued"@) && !settled_spec(status@)),
{
    (is(stage, "image") || is(stage, "download") || is(stage, "queued")) && !(is(status, "running") || is(
        status,
        "stopped",
    ))
}

/// A container exit is a normal stop: exit code 0, 137 or 143 without the
/// out-of-memory killer.
pub fn normal_exit(code: i64, oom_killed: bool) -> (r: bool)
    ensures
        r == ((code == 0 || code == 137 || code == 143) && !oom_killed),
{
    (code == 0 || code == 137 || code == 143) && !oom_killed
}

/// A stage has run too long: its last mark is from this attempt and older
/// than two minutes while launching, or thirty minutes otherwise.
pub fn stage_timed_out(since_ms: u64, started_ms: u64, now_ms: u64, launching: bool) -> (r: bool)
    ensures
        r == (since_ms >= started_ms && (if now_ms >= since_ms { now_ms - since_ms } else { 0 }) > (if launching {
            120_000int
        } else {
            1_800_000int
        })),
{
    since_ms >= started_ms && now_ms.saturating_sub(since_ms) > if launching { 120_000 } else { 1_800_000 }
}

/// An upgrade has been running for over thirty minutes with no error shown.
pub fn upgrade_overdue(upgrade_started_ms: u64, now_ms: u64, has_error: bool) -> (r: bool)
    ensures
        r == (upgrade_started_ms != 0 && (if now_ms >= upgrade_started_ms {
            now_ms - upgrade_started_ms
        } else {
            0
        }) > 1_800_000 && !has_error),
{
    upgrade_started_ms != 0 && now_ms.saturating_sub(upgrade_started_ms) > 1_800_000 && !has_error
}

/// A version check is due for a stopped container or a running session
/// when none was made in the last 30 seconds (`since_last_ms`).
pub fn version_check_due(running: bool, status: &str, since_last_ms: Option<u64>) -> (r: bool)
    ensures
        r == ((!running || status@ == "running"@) && match since_last_ms {
            Some(t) => t >= 30_000,
            None => true,
        }),
{
    (!running || is(status, "running")) && match since_last_ms {
        Some(t) => t >= 30_000,
        None => true,
    }
}

/// The stage marks a session's container writes: lines of a start time in
/// milliseconds, a space and the stage's name; other lines are ignored.
pub open spec fn timing_entry(line: Seq<char>) -> Option<(u64, Seq<char>)> {
    match text::split_once(line, ' ') {
        Some((a, b)) => match text::parse_u64(a) {
            Some(n) => Some((n, b)),
            None => None,
        },
        None => None,
    }
}

/// The stage marks of a timings file, in order.
pub open spec fn timing_entries(lines: Seq<Seq<char>>) -> Seq<(u64, Seq<char>)>
    decreases lines.len(),
{
    if lines.len() == 0 {
        Seq::empty()
    } else {
        let rest = timing_entries(lines.drop_last());
        match timing_entry(lines.last()) {
            Some(e) => rest.push(e),
            None => rest,
        }
    }
}

/// A mark line, a time written in decimal, a space and a stage's name, is
/// read as that time and name and added after the marks before it; a line
/// without a space is passed over.
pub proof fn marks_are_read_in_order(lines: Seq<Seq<char>>, t: u64, name: Seq<char>, other: Seq<char>)
    requires
        forall|i: int| 0 <= i < other.len() ==> other[i] != ' ',
    ensures
        timing_entries(lines.push(text::decimal(t as nat) + seq![' '] + name)) == timing_entries(lines).push((t, name)),
        timing_entries(lines.push(other)) == timing_entries(lines),
{
    let d = text::decimal(t as nat);
    let l = d + seq![' '] + name;
    let sp = seq![' '];
    text::lemma_decimal_digits(t as nat);
    text::decimal_reads_back(t);
    let n = d.len() as int;
    assert(l.subrange(n, n + 1) =~= sp);
    assert forall|j: int| 0 <= j < n implies !text::occurs_at(l, sp, j) by {
        if text::occurs_at(l, sp, j) {
            assert(l.subrange(j, j + 1)[0] == l[j]);
            assert(text::is_digit(d[j]));
        }
    }
    text::lemma_first_at_unique(l, sp, n);
    assert(l.take(n) =~= d);
    assert(l.skip(n + 1) =~= name);
    assert(lines.push(l).drop_last() =~= lines);
    assert(lines.push(other).drop_last() =~= lines);
    assert forall|j: int| 0 <= j implies !text::occurs_at(other, sp, j) by {
        if text::occurs_at(other, sp, j) {
            assert(other.subrange(j, j + 1)[0] == other[j]);
        }
    }
    text::lemma_find_first_none(other, sp);
}

/// The views of parsed stage marks.
pub open spec fn entry_views(s: Seq<(u64, String)>) -> Seq<(u64, Seq<char>)> {
    s.map_values(|e: (u64, String)| (e.0, e.1@))
}

/// Reads the stage marks of a timings file.
pub fn parse_timings(timings: &str) -> (r: Vec<(u64, String)>)
    ensures
        entry_views(r@) == timing_entries(text::lines(timings@)),
{
    let all = chars_of(timings);
    let ls = text::lines_chars(all.as_slice());
    let ghost lv = text::lines(timings@);
    let mut out: Vec<(u64, String)> = Vec::new();
    let mut i: usize = 0;
    while i < ls.len()
        invariant
            i <= ls.len(),
            text::views(ls@) == lv,
            entry_views(out@) == timing_entries(lv.take(i as int)),
        decreases ls.len() - i,
    {
        let line = ls[i].as_slice();
        assert(lv[i as int] == line@);
        assert(lv.take(i + 1).drop_last() =~= lv.take(i as int));
        let ghost before = entry_views(out@);
        match text::split_once_chars(line, ' ') {
            Some((a, b)) => match text::parse_u64_chars(a.as_slice()) {
                Some(n) => {
                    out.push((n, text::string_from(b.as_slice())));
                    assert(entry_views(out@) =~= before.push((n, b@)));
                },
                None => {},
            },
            None => {},
        }
        i += 1;
    }
    assert(lv.take(i as int) =~= lv);
    out
}

/// The time each stage took: from its mark to the next one (zero when the
/// clock went back), keyed by the stage's name.
pub open spec fn stage_durations_spec(entries: Seq<(u64, Seq<char>)>) -> Seq<(Seq<char>, u64)> {
    Seq::new(
        if entries.len() == 0 { 0 } else { (entries.len() - 1) as nat },
        |i: int| (entries[i].1, if entries[i + 1].0 >= entries[i].0 {
            (entries[i + 1].0 - entries[i].0) as u64
        } else {
            0u64
        }),
    )
}

/// Every mark but the last gives its stage's duration, in order: the time
/// from the mark to the next one, or zero when the clock went back; marks
/// that only go forward give durations that add up to the time from the
/// first mark to the last.
pub proof fn stage_durations_measure_marks(entries: Seq<(u64, Seq<char>)>)
    ensures
        stage_durations_spec(entries).len() == if entries.len() == 0 { 0 } else { entries.len() - 1 },
        forall|i: int|
            0 <= i < entries.len() - 1 ==> (#[trigger] stage_durations_spec(entries)[i]).0 == entries[i].1 && (
            entries[i].0 <= entries[i + 1].0 ==> stage_durations_spec(entries)[i].1 == entries[i + 1].0 - entries[i].0)
                && (entries[i].0 > entries[i + 1].0 ==> stage_durations_spec(entries)[i].1 == 0),
        (forall|i: int| 0 <= i < entries.len() - 1 ==> entries[i].0 <= #[trigger] entries[i + 1].0) && entries.len() > 0
            ==> total_duration(stage_durations_spec(entries)) == entries.last().0 - entries[0].0,
    decreases entries.len(),
{
    if entries.len() > 1 && (forall|i: int| 0 <= i < entries.len() - 1 ==> entries[i].0 <= #[trigger] entries[i
        + 1].0) {
        let front = entries.drop_last();
        assert forall|i: int| 0 <= i < front.len() - 1 implies front[i].0 <= #[trigger] front[i + 1].0 by {
            assert(entries[i].0 <= entries[i + 1].0);
        }
        stage_durations_measure_marks(front);
        assert(stage_durations_spec(entries).drop_last() =~= stage_durations_spec(front));
        let k = entries.len() - 2;
        assert(entries[k].0 <= entries[k + 1].0);
    }
}

/// The sum of stage durations.
pub open spec fn total_duration(d: Seq<(Seq<char>, u64)>) -> int
    decreases d.len(),
{
    if d.len() == 0 { 0 } else { total_duration(d.drop_last()) + d.last().1 }
}

/// The time each stage took.
pub fn stage_durations(entries: &[(u64, String)]) -> (r: Vec<(String, u64)>)
    ensures
        r@.map_values(|e: (String, u64)| (e.0@, e.1)) == stage_durations_spec(entry_views(entries@)),
{
    let mut out: Vec<(String, u64)> = Vec::new();
    let ghost target = stage_durations_spec(entry_views(entries@));
    if entries.len() == 0 {
        assert(out@.map_values(|e: (String, u64)| (e.0@, e.1)) =~= target);
        return out;
    }
    let mut i: usize = 0;
    while i + 1 < entries.len()
        invariant
            entries.len() > 0,
            i + 1 <= entries.len(),
            target == stage_durations_spec(entry_views(entries@)),
            out@.len() == i,
            forall|k: int| 0 <= k < i ==> (#[trigger] out@[k]).0@ == target[k].0 && out@[k].1 == target[k].1,
        decreases entries.len() - i,
    {
        let (a, name) = (entries[i].0, entries[i].1.clone());
        let b = entries[i + 1].0;
        out.push((name, b.saturating_sub(a)));
        i += 1;
    }
    assert(out@.map_values(|e: (String, u64)| (e.0@, e.1)) =~= target);
    out
}


/// The upgrade marker a container writes holds the attempt's start time.
pub fn marker_matches(marker: &str, started_ms: u64) -> (r: bool)
    ensures
        r == (crate::releases::trim(marker@) == text::decimal(started_ms as nat)),
{
    let m = chars_of(marker);
    let t = crate::releases::trim_chars(m.as_slice());
    let mut want: Vec<char> = Vec::new();
    text::push_decimal(&mut want, started_ms);
    assert(want@ =~= text::decimal(started_ms as nat));
    chars_eq(t.as_slice(), want.as_slice())
}

/// An upgrade succeeded when the package database shows a complete
/// installation, the container wrote this attempt's marker and exited with
/// code 0, and the installed version is the target version.
pub fn upgrade_succeeded(
    complete: bool,
    marker_ok: bool,
    exited_cleanly: bool,
    version: Option<&str>,
    target: Option<&str>,
) -> (r: bool)
    ensures
        r == (complete && marker_ok && exited_cleanly && match (version, target) {
            (Some(v), Some(t)) => crate::versions::version_status_spec(Some(v@), t@)
                == crate::versions::VersionStatus::Current,
            _ => false,
        }),
{
    if !(complete && marker_ok && exited_cleanly) {
        return false;
    }
    match (version, target) {
        (Some(v), Some(t)) => {
            let s = crate::versions::compare_versions(Some(v), t);
            proof {
                crate::versions::status_text_injective(
                    crate::versions::version_status_spec(Some(v@), t@),
                    crate::versions::VersionStatus::Current,
                );
            }
            is(s, "current")
        },
        _ => false,
    }
}


/// What the watcher does with a session whose container it could inspect.
#[derive(PartialEq, Eq, Structural, Debug, Clone, Copy)]
pub enum Watch {
    /// A failed upgrade: leave it for the user.
    Leave,
    /// An upgrade whose container stopped: read its outcome.
    FinishUpgrade,
    /// An upgrade still running: warn when it is overdue.
    WatchUpgrade,
    /// A running session showing an old error: clear it.
    ClearError,
    /// Nothing to do.
    Settled,
    /// A container created but never configured: the session failed.
    Interrupted,
    /// The container stopped: record whether it stopped normally.
    Exited,
    /// The container runs while the session is not yet running: follow its
    /// launch.
    Launching,
}

/// The watcher's decision for a session, from its status, whether its
/// container runs, whether an upgrade is targeted, whether it shows an
/// error, whether Docker reports the container as only created, and
/// whether the session was ever configured.
pub open spec fn watch_spec(
    status: Seq<char>,
    running: bool,
    upgrading: bool,
    has_error: bool,
    created: bool,
    configured: bool,
) -> Watch {
    if status == "failed"@ && upgrading {
        Watch::Leave
    } else if status == "upgrading"@ {
        if running { Watch::WatchUpgrade } else { Watch::FinishUpgrade }
    } else if status == "running"@ && running {
        if has_error { Watch::ClearError } else { Watch::Settled }
    } else if !running && (status == "failed"@ || status == "stopped"@) {
        Watch::Settled
    } else if !running && created && !configured {
        Watch::Interrupted
    } else if !running {
        Watch::Exited
    } else {
        Watch::Launching
    }
}

/// The watcher's decision for a session.
pub fn watch(status: &str, running: bool, upgrading: bool, has_error: bool, created: bool, configured: bool) -> (r: Watch)
    ensures
        r == watch_spec(status@, running, upgrading, has_error, created, configured),
{
    if is(status, "failed") && upgrading {
        Watch::Leave
    } else if is(status, "upgrading") {
        if running { Watch::WatchUpgrade } else { Watch::FinishUpgrade }
    } else if is(status, "running") && running {
        if has_error { Watch::ClearError } else { Watch::Settled }
    } else if !running && (is(status, "failed") || is(status, "stopped")) {
        Watch::Settled
    } else if !running && created && !configured {
        Watch::Interrupted
    } else if !running {
        Watch::Exited
    } else {
        Watch::Launching
    }
}

/// A failure the watcher saw is recorded unless the session already shows
/// a failure with its message.
pub fn record_failure(status: &str, has_error: bool) -> (r: bool)
    ensures
        r == !(status@ == "failed"@ && has_error),
{
    !(is(status, "failed") && has_error)
}

/// The decimal text of a signed number.
pub open spec fn signed_decimal(n: i64) -> Seq<char> {
    if n < 0 {
        "-"@ + text::decimal((-n) as nat)
    } else {
        text::decimal(n as nat)
    }
}

/// The message for a container that stopped abnormally.
pub fn exit_message(code: i64, stage: &str) -> (r: String)
    ensures
        r@ == "Container exited with code "@ + signed_decimal(code) + " during "@ + stage@
            + ". Open Logs for details."@,
{
    let mut out: Vec<char> = Vec::new();
    text::push_str(&mut out, "Container exited with code ");
    if code < 0 {
        text::push_str(&mut out, "-");
        let magnitude: u64 = ((-(code + 1)) as u64) + 1;
        text::push_decimal(&mut out, magnitude);
    } else {
        text::push_decimal(&mut out, code as u64);
    }
    text::push_str(&mut out, " during ");
    text::push_str(&mut out, stage);
    text::push_str(&mut out, ". Open Logs for details.");
    text::string_from(out.as_slice())
}

/// The message for a stage that ran too long.
pub fn timed_out_message(stage: &str) -> (r: String)
    ensures
        r@ == stage@ + " timed out. Stop or destroy the session; Logs has the output."@,
{
    let mut out: Vec<char> = Vec::new();
    text::push_str(&mut out, stage);
    text::push_str(&mut out, " timed out. Stop or destroy the session; Logs has the output.");
    text::string_from(out.as_slice())
}

/// At startup, a session that was being prepared in one of these stages
/// was interrupted by the restart: it is marked failed.
pub fn interrupted_by_restart(status: &str, stage: &str) -> (r: bool)
    ensures
        r == ((status@ == "preparing"@ || status@ == "upgrading"@) && (stage@ == "image"@ || stage@ == "download"@
            || stage@ == "container"@ || stage@ == "queued"@ || stage@ == "snapshot"@)),
{
    (is(status, "preparing") || is(status, "upgrading")) && (is(stage, "image") || is(stage, "download") || is(
        stage,
        "container",
    ) || is(stage, "queued") || is(stage, "snapshot"))
}

/// The error a session interrupted by a restart shows.
pub fn restart_message() -> (r: &'static str)
    ensures
        r@ == "Innkeeper restarted during session preparation. Stop and start to retry an existing session; destroy and recreate a session whose container was not initialized."@,
{
    "Innkeeper restarted during session preparation. Stop and start to retry an existing session; destroy and recreate a session whose container was not initialized."
}

/// An upgrade interrupted while downloading left the old container intact:
/// after the restart the session returns to the state of its container.
pub fn interrupted_download(status: &str, stage: &str) -> (r: bool)
    ensures
        r == (status@ == "upgrading"@ && downloading_spec(stage@)),
{
    is(status, "upgrading") && downloading(stage)
}

/// The status of a session whose upgrade download was interrupted: that of
/// its container.
pub fn restored_status(running: bool) -> (r: &'static str)
    ensures
        r@ == if running { "running"@ } else { "stopped"@ },
{
    if running { "running" } else { "stopped" }
}

/// The status and error a finished upgrade leaves: stopped when it
/// succeeded, failed with a message otherwise.
pub fn upgrade_outcome(success: bool) -> (r: (&'static str, Option<&'static str>))
    ensures
        r.0@ == if success { "stopped"@ } else { "failed"@ },
        success ==> r.1 is None,
        !success ==> (r.1 matches Some(m) && m@ == "Upgrade did not complete. Open Logs for details; stop the session before retrying or starting it."@),
{
    if success {
        ("stopped", None)
    } else {
        ("failed", Some("Upgrade did not complete. Open Logs for details; stop the session before retrying or starting it."))
    }
}

/// The warning an overdue upgrade shows.
pub fn overdue_message() -> (r: &'static str)
    ensures
        r@ == "Upgrade is taking longer than 30 minutes. Still monitoring; inspect Logs before stopping it."@,
{
    "Upgrade is taking longer than 30 minutes. Still monitoring; inspect Logs before stopping it."
}

/// The error a launching session shows until Elsewhere answers.
pub fn readiness_message() -> (r: &'static str)
    ensures
        r@ == "Waiting for Elsewhere initialization"@,
{
    "Waiting for Elsewhere initialization"
}

/// The status and error a container exit leaves: stopped after a normal
/// exit, failed with the exit code and stage otherwise.
pub fn exit_outcome(code: i64, oom_killed: bool, stage: &str) -> (r: (&'static str, Option<String>))
    ensures
        r.0@ == if (code == 0 || code == 137 || code == 143) && !oom_killed { "stopped"@ } else { "failed"@ },
        (code == 0 || code == 137 || code == 143) && !oom_killed ==> r.1 is None,
        !((code == 0 || code == 137 || code == 143) && !oom_killed) ==> (r.1 matches Some(m) && m@
            == "Container exited with code "@ + signed_decimal(code) + " during "@ + stage@ + ". Open Logs for details."@),
{
    if normal_exit(code, oom_killed) {
        ("stopped", None)
    } else {
        ("failed", Some(exit_message(code, stage)))
    }
}


/// Before a start: a missing container fails unless a replacement will
/// create it; an incomplete installation always fails; only a relaunch
/// asks to stop the container first, and only when it runs; a start of a
/// stopped, configured container goes ahead.
pub proof fn start_checks_on_the_container(
    c: ContainerState,
    configured: bool,
    replacing: bool,
    install_complete: Option<bool>,
    relaunch: bool,
)
    ensures
        !c.exists ==> start_check_spec(c, configured, replacing, install_complete, relaunch) == if replacing {
            Ok::<bool, LifecycleError>(false)
        } else {
            Err(LifecycleError::ContainerMissing)
        },
        c.exists && install_complete == Some(false) ==> start_check_spec(
            c,
            configured,
            replacing,
            install_complete,
            relaunch,
        ) is Err,
        start_check_spec(c, configured, replacing, install_complete, relaunch) == Ok::<bool, LifecycleError>(true)
            ==> relaunch && c.exists && c.running,
        c.exists && c.running && !relaunch ==> start_check_spec(c, configured, replacing, install_complete, relaunch)
            is Err,
        c.exists && configured && install_complete != Some(false) ==> start_check_spec(
            c,
            configured,
            replacing,
            install_complete,
            relaunch,
        ) == if c.running {
            if relaunch { Ok::<bool, LifecycleError>(true) } else { Err(LifecycleError::StillRunning) }
        } else {
            Ok(false)
        },
        c.exists && c.created && !configured && !replacing ==> start_check_spec(
            c,
            configured,
            replacing,
            install_complete,
            relaunch,
        ) == Err::<bool, LifecycleError>(LifecycleError::InitInterrupted),
{
}

/// The watcher follows the container: an upgrade's stopped container
/// finishes the upgrade; a running session with a running container is
/// settled (its error cleared); a stopped or failed session whose
/// container is stopped is settled; any other session whose container
/// stopped is recorded as exited or interrupted, never settled; and a
/// container that runs for a session that is not yet running is followed.
pub proof fn watcher_follows_the_container(
    status: Seq<char>,
    running: bool,
    upgrading: bool,
    has_error: bool,
    created: bool,
    configured: bool,
)
    ensures
        status == "upgrading"@ ==> watch_spec(status, running, upgrading, has_error, created, configured) == if running {
            Watch::WatchUpgrade
        } else {
            Watch::FinishUpgrade
        },
        status == "running"@ && running ==> watch_spec(status, running, upgrading, has_error, created, configured)
            == if has_error { Watch::ClearError } else { Watch::Settled },
        (status == "stopped"@ || (status == "failed"@ && !upgrading)) && !running ==> watch_spec(
            status,
            running,
            upgrading,
            has_error,
            created,
            configured,
        ) == Watch::Settled,
        status != "upgrading"@ && status != "failed"@ && status != "stopped"@ && !running ==> watch_spec(
            status,
            running,
            upgrading,
            has_error,
            created,
            configured,
        ) == if created && !configured { Watch::Interrupted } else { Watch::Exited },
        status != "upgrading"@ && status != "running"@ && status != "failed"@ && running ==> watch_spec(
            status,
            running,
            upgrading,
            has_error,
            created,
            configured,
        ) == Watch::Launching,
        status == "failed"@ && upgrading ==> watch_spec(status, running, upgrading, has_error, created, configured)
            == Watch::Leave,
{
    reveal_strlit("running");
    reveal_strlit("stopped");
    reveal_strlit("failed");
    reveal_strlit("upgrading");
    assert("running"@.len() != "failed"@.len());
    assert("running"@.len() != "upgrading"@.len());
    assert("stopped"@.len() != "failed"@.len());
    assert("stopped"@.len() != "upgrading"@.len());
    assert("failed"@.len() != "upgrading"@.len());
    assert("running"@ != "stopped"@) by {
        assert("running"@[0] != "stopped"@[0]);
    }
}

} // verus!
