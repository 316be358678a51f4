//! The checks and session changes of the requests that create, start,
//! stop, upgrade and destroy sessions.
use vstd::prelude::*;
use crate::gpu::{self, Gpu, GpuError, GpuView};
use crate::lifecycle::{self, is, ContainerState, LifecycleError};
use crate::validation::{self, InputError, ScreenSize};

verus! {

/// Why a new session was refused.
#[derive(PartialEq, Eq, Structural, Debug, Clone, Copy)]
pub enum CreateError {
    /// Only administrators may give extra Docker options (HTTP 403).
    Forbidden,
    /// A value of the request is invalid (HTTP 400).
    Input(InputError),
    /// The requested GPU cannot be used (HTTP 400).
    Gpu(GpuError),
}

/// The GPU and software-encoding setting of a new session, or why it is
/// refused. The checks come in this order: extra Docker options need an
/// administrator; the distribution, name and packages; the name, screen
/// size and startup command; the Docker options; the GPU. Software
/// encoding is on whenever GPU access is off.
pub open spec fn create_spec(
    administrator: bool,
    distribution: Seq<char>,
    name: Seq<char>,
    packages: Seq<String>,
    docker_args: Seq<String>,
    screen_size: Option<ScreenSize>,
    startup_command: Seq<char>,
    gpu_access: bool,
    gpu_id: Option<Seq<char>>,
    software_encoding: bool,
    devices: Seq<GpuView>,
) -> Result<(Option<GpuView>, bool), CreateError> {
    if !administrator && docker_args.len() > 0 {
        Err(CreateError::Forbidden)
    } else if !validation::create_ok(distribution, name, packages) {
        Err(CreateError::Input(InputError::Create))
    } else {
        match validation::settings_check(name, screen_size, startup_command) {
            Err(e) => Err(CreateError::Input(e)),
            Ok(()) => match validation::docker_args_check(docker_args) {
                Err(e) => Err(CreateError::Input(e)),
                Ok(()) => match gpu::select_spec(devices, gpu_access, gpu_id) {
                    Err(e) => Err(CreateError::Gpu(e)),
                    Ok(g) => Ok((g, software_encoding || !gpu_access)),
                },
            },
        }
    }
}

/// Checks a request for a new session and chooses its GPU.
pub fn create_check(
    administrator: bool,
    distribution: &str,
    name: &str,
    packages: &[String],
    docker_args: &[String],
    screen_size: Option<ScreenSize>,
    startup_command: &str,
    gpu_access: bool,
    gpu_id: Option<&str>,
    software_encoding: bool,
    devices: &[Gpu],
) -> (r: Result<(Option<Gpu>, bool), CreateError>)
    ensures
        match create_spec(
            administrator,
            distribution@,
            name@,
            packages@,
            docker_args@,
            screen_size,
            startup_command@,
            gpu_access,
            match gpu_id { Some(x) => Some(x@), None => None },
            software_encoding,
            gpu::gpu_views(devices@),
        ) {
            Ok((g, sw)) => r matches Ok((x, y)) && y == sw && gpu::choice_view(Ok(x)) == Ok::<Option<GpuView>, GpuError>(g),
            Err(e) => r matches Err(x) && x == e,
        },
{
    if !administrator && docker_args.len() > 0 {
        return Err(CreateError::Forbidden);
    }
    match validation::validate_create(distribution, name, packages) {
        Err(e) => return Err(CreateError::Input(e)),
        Ok(()) => {},
    }
    match validation::validate_settings(name, screen_size, startup_command) {
        Err(e) => return Err(CreateError::Input(e)),
        Ok(()) => {},
    }
    match validation::validate_docker_args(docker_args) {
        Err(e) => return Err(CreateError::Input(e)),
        Ok(()) => {},
    }
    match gpu::select(devices, gpu_access, gpu_id) {
        Err(e) => Err(CreateError::Gpu(e)),
        Ok(g) => Ok((g, lifecycle::software_encoding(software_encoding, gpu_access))),
    }
}

/// The checks before a start or relaunch: the session's status, then its
/// container. `Ok(true)` asks to stop the running container first.
pub open spec fn begin_start_spec(
    status: Seq<char>,
    relaunch: bool,
    c: ContainerState,
    configured: bool,
    replacing: bool,
    install_complete: Option<bool>,
) -> Result<bool, LifecycleError> {
    if relaunch && status != "running"@ {
        Err(LifecycleError::NotRunning)
    } else if !relaunch && status != "stopped"@ {
        Err(LifecycleError::NotStopped)
    } else {
        lifecycle::start_check_spec(c, configured, replacing, install_complete, relaunch)
    }
}

/// Checks a start or relaunch.
pub fn begin_start_check(
    status: &str,
    relaunch: bool,
    c: &ContainerState,
    configured: bool,
    replacing: bool,
    install_complete: Option<bool>,
) -> (r: Result<bool, LifecycleError>)
    ensures
        r == begin_start_spec(status@, relaunch, *c, configured, replacing, install_complete),
{
    match lifecycle::check_start_status(status, relaunch) {
        Err(e) => Err(e),
        Ok(()) => lifecycle::start_check(c, configured, replacing, install_complete, relaunch),
    }
}

/// The stage timings kept when a session starts again: those of the image,
/// download and container stages, in order.
pub open spec fn kept_timings_spec(timings: Seq<(Seq<char>, u64)>) -> Seq<(Seq<char>, u64)> {
    timings.filter(|t: (Seq<char>, u64)| t.0 == "image"@ || t.0 == "download"@ || t.0 == "container"@)
}

/// A new start keeps the timings of the image, download and container
/// stages, in their order, and drops every other.
pub proof fn only_preparation_timings_are_kept(timings: Seq<(Seq<char>, u64)>, t: (Seq<char>, u64))
    ensures
        kept_timings_spec(timings.push(t)) == if t.0 == "image"@ || t.0 == "download"@ || t.0 == "container"@ {
            kept_timings_spec(timings).push(t)
        } else {
            kept_timings_spec(timings)
        },
        kept_timings_spec(Seq::empty()) == Seq::<(Seq<char>, u64)>::empty(),
{
    let keep = |x: (Seq<char>, u64)| x.0 == "image"@ || x.0 == "download"@ || x.0 == "container"@;
    timings.lemma_filter_push(t, keep);
    assert(Seq::<(Seq<char>, u64)>::empty().filter(keep) =~= Seq::<(Seq<char>, u64)>::empty()) by {
        reveal(Seq::filter);
    }
}

/// The stage timings kept when a session starts again.
pub fn kept_timings(timings: &[(String, u64)]) -> (r: Vec<(String, u64)>)
    ensures
        r@.map_values(|t: (String, u64)| (t.0@, t.1)) == kept_timings_spec(timings@.map_values(|t: (String, u64)| (t.0@, t.1))),
{
    let ghost all = timings@.map_values(|t: (String, u64)| (t.0@, t.1));
    let ghost keep = |t: (Seq<char>, u64)| t.0 == "image"@ || t.0 == "download"@ || t.0 == "container"@;
    let mut out: Vec<(String, u64)> = Vec::new();
    let mut i: usize = 0;
    while i < timings.len()
        invariant
            i <= timings.len(),
            all == timings@.map_values(|t: (String, u64)| (t.0@, t.1)),
            keep == (|t: (Seq<char>, u64)| t.0 == "image"@ || t.0 == "download"@ || t.0 == "container"@),
            out@.map_values(|t: (String, u64)| (t.0@, t.1)) == all.take(i as int).filter(keep),
        decreases timings.len() - i,
    {
        let ghost before = out@.map_values(|t: (String, u64)| (t.0@, t.1));
        proof {
            assert(all.take(i + 1) =~= all.take(i as int).push(all[i as int]));
            all.take(i as int).lemma_filter_push(all[i as int], keep);
        }
        if lifecycle::keep_timing(timings[i].0.as_str()) {
            out.push((timings[i].0.clone(), timings[i].1));
            assert(out@.map_values(|t: (String, u64)| (t.0@, t.1)) =~= before.push(all[i as int]));
        }
        i += 1;
    }
    assert(all.take(i as int) =~= all);
    out
}

/// What a stop does: whether the container is inspected (and stopped when
/// it runs), and the status the session then has.
pub open spec fn stop_spec(stage: Seq<char>, has_container: bool, configured: bool, replacing: bool) -> (bool, Seq<char>) {
    let downloading = lifecycle::downloading_spec(stage);
    (
        has_container || (!downloading && !replacing),
        if downloading && !has_container && !configured && !replacing { "cancelled"@ } else { "stopped"@ },
    )
}

/// What a stop does, and the session after it.
pub struct StopOutcome {
    /// The container is inspected, and stopped when it runs.
    pub inspect: bool,
    pub status: &'static str,
    /// The session's error afterwards: none.
    pub error: Option<String>,
    /// The session's upgrade target afterwards: none.
    pub upgrade_target: Option<String>,
}

/// What a stop does: whether the container is inspected (and stopped when
/// it runs), and the session then, whose error and upgrade target are
/// cleared and whose status is `cancelled` or `stopped`.
pub fn stop_plan(stage: &str, has_container: bool, configured: bool, replacing: bool) -> (r: StopOutcome)
    ensures
        r.inspect == stop_spec(stage@, has_container, configured, replacing).0,
        r.status@ == stop_spec(stage@, has_container, configured, replacing).1,
        r.error is None,
        r.upgrade_target is None,
{
    let downloading = lifecycle::downloading(stage);
    StopOutcome {
        inspect: lifecycle::stop_inspects(has_container, downloading, replacing),
        status: lifecycle::stopped_status(downloading, has_container, configured, replacing),
        error: None,
        upgrade_target: None,
    }
}

/// A session whose start was accepted.
pub struct StartedSession {
    pub started_ms: u64,
    pub status: &'static str,
    pub stage: &'static str,
    pub error: Option<String>,
    pub upgrade_target: Option<String>,
    pub timings: Vec<(String, u64)>,
}

/// The session after its start is accepted: a new attempt begins now and
/// after the last one, the session is preparing at stage `queued`, its
/// error and upgrade target are cleared, and only the image, download and
/// container timings are kept.
pub fn started_session(started_ms: u64, timings: &[(String, u64)]) -> (r: StartedSession)
    ensures
        exists|now: u64| r.started_ms == lifecycle::next_attempt_spec(now, started_ms),
        started_ms < u64::MAX ==> r.started_ms > started_ms,
        r.status@ == "preparing"@,
        r.stage@ == "queued"@,
        r.error is None,
        r.upgrade_target is None,
        r.timings@.map_values(|t: (String, u64)| (t.0@, t.1)) == kept_timings_spec(timings@.map_values(|t: (String, u64)| (t.0@, t.1))),
{
    StartedSession {
        started_ms: lifecycle::attempt_start(started_ms),
        status: "preparing",
        stage: "queued",
        error: None,
        upgrade_target: None,
        timings: kept_timings(timings),
    }
}

/// Why a session's data could not be destroyed.
#[derive(PartialEq, Eq, Structural, Debug, Clone, Copy)]
pub enum DestroyError {
    /// The data volume belongs to another installation (HTTP 409).
    VolumeNotOwned,
}

/// A session's data volume is removed only when its label names this
/// installation.
pub fn destroy_volume_check(label: Option<&str>, installation_id: &str) -> (r: Result<(), DestroyError>)
    ensures
        r is Ok <==> (label matches Some(l) && l@ == installation_id@),
        r is Err ==> r == Err::<(), DestroyError>(DestroyError::VolumeNotOwned),
{
    if crate::api::owned_by(label, installation_id) { Ok(()) } else { Err(DestroyError::VolumeNotOwned) }
}

/// The status of a session whose upgrade begins; the caller records the
/// target release, the attempt's start and the download stage.
pub fn upgrade_check(status: &str) -> (r: Result<(&'static str, &'static str), LifecycleError>)
    ensures
        match r {
            Ok((st, stage)) => settled_ok(status@) && st@ == "upgrading"@ && stage@ == "download"@,
            Err(e) => !settled_ok(status@) && e == LifecycleError::NotUpgradable,
        },
{
    match lifecycle::check_upgrade_status(status) {
        Ok(()) => Ok(("upgrading", "download")),
        Err(e) => Err(e),
    }
}

/// The session runs or is stopped.
pub open spec fn settled_ok(status: Seq<char>) -> bool {
    lifecycle::settled_spec(status)
}


/// A new session: extra Docker options from someone who is not an
/// administrator are refused before anything else; an accepted session
/// without GPU access has no GPU and uses software encoding; with GPU
/// access its encoding is the one requested; an unknown distribution is
/// refused.
pub proof fn new_session_rules(
    administrator: bool,
    distribution: Seq<char>,
    name: Seq<char>,
    packages: Seq<String>,
    docker_args: Seq<String>,
    screen_size: Option<ScreenSize>,
    startup_command: Seq<char>,
    gpu_access: bool,
    gpu_id: Option<Seq<char>>,
    software_encoding: bool,
    devices: Seq<GpuView>,
)
    ensures
        !administrator && docker_args.len() > 0 ==> create_spec(
            administrator,
            distribution,
            name,
            packages,
            docker_args,
            screen_size,
            startup_command,
            gpu_access,
            gpu_id,
            software_encoding,
            devices,
        ) == Err::<(Option<GpuView>, bool), CreateError>(CreateError::Forbidden),
        (administrator || docker_args.len() == 0) && !(distribution == "arch"@ || distribution == "debian"@
            || distribution == "ubuntu"@) ==> create_spec(
            administrator,
            distribution,
            name,
            packages,
            docker_args,
            screen_size,
            startup_command,
            gpu_access,
            gpu_id,
            software_encoding,
            devices,
        ) == Err::<(Option<GpuView>, bool), CreateError>(CreateError::Input(InputError::Create)),
        create_spec(
            administrator,
            distribution,
            name,
            packages,
            docker_args,
            screen_size,
            startup_command,
            gpu_access,
            gpu_id,
            software_encoding,
            devices,
        ) matches Ok((g, sw)) ==> {
            &&& administrator || docker_args.len() == 0
            &&& (distribution == "arch"@ || distribution == "debian"@ || distribution == "ubuntu"@)
            &&& !gpu_access ==> g is None && sw
            &&& gpu_access ==> sw == software_encoding && g is Some
            &&& (gpu_id matches Some(x) ==> g matches Some(d) && d.id == x)
        },
{
    gpu::select_finds_requested_gpu(devices, gpu_id);
}

/// A start needs a stopped session and a relaunch a running one; the
/// container is stopped first only on a relaunch of a running container.
pub proof fn starts_need_the_right_status(
    status: Seq<char>,
    relaunch: bool,
    c: ContainerState,
    configured: bool,
    replacing: bool,
    install_complete: Option<bool>,
)
    ensures
        relaunch && status != "running"@ ==> begin_start_spec(status, relaunch, c, configured, replacing, install_complete)
            == Err::<bool, LifecycleError>(LifecycleError::NotRunning),
        !relaunch && status != "stopped"@ ==> begin_start_spec(status, relaunch, c, configured, replacing, install_complete)
            == Err::<bool, LifecycleError>(LifecycleError::NotStopped),
        begin_start_spec(status, relaunch, c, configured, replacing, install_complete) is Ok ==> if relaunch {
            status == "running"@
        } else {
            status == "stopped"@
        },
        begin_start_spec(status, relaunch, c, configured, replacing, install_complete) == Ok::<bool, LifecycleError>(
            true,
        ) ==> relaunch && c.running,
        !relaunch && status == "stopped"@ && c.exists && configured && !c.running && install_complete != Some(false)
            ==> begin_start_spec(status, relaunch, c, configured, replacing, install_complete) == Ok::<
            bool,
            LifecycleError,
        >(false),
{
}

/// A stop cancels a session only while it downloads (stage `image` or
/// `download`), before it has a container, was configured or is being
/// replaced; any other stop leaves it stopped. An existing container is
/// always inspected, and so is a session past its download that is not
/// being replaced.
pub proof fn stops_cancel_only_downloads(stage: Seq<char>, has_container: bool, configured: bool, replacing: bool)
    ensures
        stop_spec(stage, has_container, configured, replacing).1 == "cancelled"@ <==> ((stage == "image"@ || stage
            == "download"@) && !has_container && !configured && !replacing),
        stop_spec(stage, has_container, configured, replacing).1 == "cancelled"@ || stop_spec(
            stage,
            has_container,
            configured,
            replacing,
        ).1 == "stopped"@,
        has_container ==> stop_spec(stage, has_container, configured, replacing).0,
        stage != "image"@ && stage != "download"@ && !replacing ==> stop_spec(
            stage,
            has_container,
            configured,
            replacing,
        ) == (true, "stopped"@),
        !has_container && (replacing || stage == "image"@ || stage == "download"@) ==> !stop_spec(
            stage,
            has_container,
            configured,
            replacing,
        ).0,
{
    reveal_strlit("cancelled");
    reveal_strlit("stopped");
    assert("cancelled"@.len() != "stopped"@.len());
}

} // verus!
