//! Session containers: the settings a container was created with and the
//! `docker create` command that makes one.
use vstd::prelude::*;
use crate::config::{container, volume, LABEL};
use crate::gpu::{self, Gpu, GpuView};
use crate::text::{self, push_decimal, push_str, string_from};
use crate::config::LaunchSettings;
use crate::lifecycle::strings_eq;
use crate::validation::{string_views, ScreenSize};

verus! {

/// What a container is created with: packages, extra Docker options and
/// the GPU.
pub struct ContainerSettings {
    pub packages: Vec<String>,
    pub docker_args: Vec<String>,
    pub gpu: Option<Gpu>,
}

/// A container being rebuilt from a snapshot of the old one.
pub struct Replacement {
    /// The container that was snapshotted.
    pub source: String,
    /// The snapshot's id.
    pub snapshot: String,
    /// The committed image, once there is one.
    pub image: Option<String>,
    /// The settings of the new container.
    pub settings: ContainerSettings,
}

/// Why a container could not be created.
#[derive(PartialEq, Eq, Structural, Debug, Clone, Copy)]
pub enum ContainerError {
    /// GPU access is on but no GPU is selected.
    NoSelectedGpu,
}

impl ContainerError {
    /// The text shown for the error.
    pub open spec fn message_spec(self) -> Seq<char> {
        match self {
            ContainerError::NoSelectedGpu => "Session has no selected GPU"@,
        }
    }

    /// The text shown for the error.
    pub fn message(&self) -> (r: &'static str)
        ensures
            r@ == self.message_spec(),
    {
        match self {
            ContainerError::NoSelectedGpu => "Session has no selected GPU",
        }
    }
}

/// The options that switch NVIDIA's runtime on, or hide NVIDIA devices.
pub open spec fn nvidia_options(gpu: Option<GpuView>) -> Seq<Seq<char>> {
    if gpu matches Some(g) && gpu::is_nvidia(g) {
        seq![
            "--runtime=nvidia"@,
            "--env=NVIDIA_VISIBLE_DEVICES=all"@,
            "--env=NVIDIA_DRIVER_CAPABILITIES=compute,video,graphics,utility,display,compat32"@,
        ]
    } else {
        seq!["--env=NVIDIA_VISIBLE_DEVICES=void"@]
    }
}

/// The options that pass the host's render devices through.
pub open spec fn device_options(gpu_access: bool) -> Seq<Seq<char>> {
    if gpu_access {
        seq!["--device"@, "/dev/dri:/dev/dri"@]
    } else {
        seq![]
    }
}

/// The options that connect the container: the given network, or a
/// published loopback port for the desktop.
pub open spec fn network_options(network: Option<Seq<char>>, port: u16) -> Seq<Seq<char>> {
    match network {
        Some(n) => seq!["--network"@, n],
        None => seq!["-p"@, "127.0.0.1:"@ + text::decimal(port as nat) + ":19443/tcp"@],
    }
}

/// The fixed part of the command, after `create`.
pub open spec fn base_options(id: Seq<char>, owner: Seq<char>, settings_json: Seq<char>, port: u16, image: Seq<char>) -> Seq<Seq<char>> {
    let name = "innkeeper-"@ + id;
    let p = text::decimal(port as nat);
    seq![
        "--name"@,
        name,
        "--hostname"@,
        name,
        "--label"@,
        LABEL@ + "="@ + owner,
        "--label"@,
        "io.innkeeper.settings="@ + settings_json,
        "--init"@,
        "--shm-size"@,
        "1g"@,
        "--log-driver"@,
        "json-file"@,
        "--log-opt"@,
        "max-size=10m"@,
        "--log-opt"@,
        "max-file=3"@,
        "-p"@,
        "0.0.0.0:"@ + p + ":"@ + p + "/udp"@,
        "-v"@,
        "innkeeper-"@ + id + "-data"@ + ":/home/elsewhere"@,
        "--platform"@,
        "linux/amd64"@,
        "--entrypoint"@,
        "sh"@,
        image,
        "/opt/innkeeper/entrypoint.sh"@,
    ]
}

/// The arguments of `docker create` for a session's container; a session
/// with GPU access must have a GPU.
pub open spec fn create_args_spec(
    id: Seq<char>,
    owner: Seq<char>,
    settings_json: Seq<char>,
    port: u16,
    network: Option<Seq<char>>,
    docker_args: Seq<Seq<char>>,
    gpu_access: bool,
    gpu: Option<GpuView>,
    image: Seq<char>,
    packages: Seq<Seq<char>>,
) -> Result<Seq<Seq<char>>, ContainerError> {
    if gpu_access && gpu is None {
        Err(ContainerError::NoSelectedGpu)
    } else {
        Ok(seq!["create"@] + nvidia_options(gpu) + device_options(gpu_access) + network_options(network, port)
            + docker_args + base_options(id, owner, settings_json, port, image) + packages)
    }
}

/// A string holding `s`.
fn owned(s: &str) -> (r: String)
    ensures
        r@ == s@,
{
    s.to_string()
}

/// Appends `items` to `out`.
fn extend_strings(out: &mut Vec<String>, items: &[String])
    ensures
        string_views(final(out)@) == string_views(old(out)@) + string_views(items@),
{
    let ghost start = string_views(out@);
    let mut i: usize = 0;
    while i < items.len()
        invariant
            i <= items.len(),
            string_views(out@) == start + string_views(items@).take(i as int),
        decreases items.len() - i,
    {
        let ghost before = string_views(out@);
        out.push(items[i].clone());
        assert(string_views(out@) =~= before.push(items@[i as int]@));
        assert(string_views(items@).take(i + 1) =~= string_views(items@).take(i as int).push(items@[i as int]@));
        i += 1;
    }
    assert(string_views(items@).take(i as int) =~= string_views(items@));
}

/// Appends `s` to `out`.
fn push_string(out: &mut Vec<String>, s: String)
    ensures
        string_views(final(out)@) == string_views(old(out)@).push(s@),
{
    let ghost before = string_views(out@);
    out.push(s);
    assert(string_views(out@) =~= before.push(s@));
}

/// The options for NVIDIA's runtime.
fn nvidia_args(gpu: Option<&Gpu>) -> (r: Vec<String>)
    ensures
        string_views(r@) == nvidia_options(match gpu { Some(g) => Some(g@), None => None }),
{
    let mut args: Vec<String> = Vec::new();
    let is_nvidia = match gpu {
        Some(g) => g.nvidia(),
        None => false,
    };
    if is_nvidia {
        push_string(&mut args, owned("--runtime=nvidia"));
        push_string(&mut args, owned("--env=NVIDIA_VISIBLE_DEVICES=all"));
        push_string(
            &mut args,
            owned("--env=NVIDIA_DRIVER_CAPABILITIES=compute,video,graphics,utility,display,compat32"),
        );
    } else {
        push_string(&mut args, owned("--env=NVIDIA_VISIBLE_DEVICES=void"));
    }
    assert(string_views(args@) =~= nvidia_options(match gpu { Some(g) => Some(g@), None => None }));
    args
}

/// The options that pass render devices through.
fn device_args(gpu_access: bool) -> (r: Vec<String>)
    ensures
        string_views(r@) == device_options(gpu_access),
{
    let mut args: Vec<String> = Vec::new();
    if gpu_access {
        push_string(&mut args, owned("--device"));
        push_string(&mut args, owned("/dev/dri:/dev/dri"));
    }
    assert(string_views(args@) =~= device_options(gpu_access));
    args
}

/// The options that connect the container.
fn network_args(network: Option<&str>, port: u16) -> (r: Vec<String>)
    ensures
        string_views(r@) == network_options(match network { Some(n) => Some(n@), None => None }, port),
{
    let mut args: Vec<String> = Vec::new();
    match network {
        Some(n) => {
            push_string(&mut args, owned("--network"));
            push_string(&mut args, owned(n));
        },
        None => {
            push_string(&mut args, owned("-p"));
            let mut tcp: Vec<char> = Vec::new();
            push_str(&mut tcp, "127.0.0.1:");
            push_decimal(&mut tcp, port as u64);
            push_str(&mut tcp, ":19443/tcp");
            push_string(&mut args, string_from(tcp.as_slice()));
        },
    }
    assert(string_views(args@) =~= network_options(match network { Some(n) => Some(n@), None => None }, port));
    args
}

/// The first part of the fixed options: names and labels.
fn identity_args(id: &str, owner: &str, settings_json: &str) -> (r: Vec<String>)
    ensures
        string_views(r@) == seq![
            "--name"@,
            "innkeeper-"@ + id@,
            "--hostname"@,
            "innkeeper-"@ + id@,
            "--label"@,
            LABEL@ + "="@ + owner@,
            "--label"@,
            "io.innkeeper.settings="@ + settings_json@,
        ],
{
    let mut args: Vec<String> = Vec::new();
    let name = container(id);
    push_string(&mut args, owned("--name"));
    push_string(&mut args, name.clone());
    push_string(&mut args, owned("--hostname"));
    push_string(&mut args, name);
    let mut label: Vec<char> = Vec::new();
    push_str(&mut label, LABEL);
    push_str(&mut label, "=");
    push_str(&mut label, owner);
    push_string(&mut args, owned("--label"));
    push_string(&mut args, string_from(label.as_slice()));
    let mut settings: Vec<char> = Vec::new();
    push_str(&mut settings, "io.innkeeper.settings=");
    push_str(&mut settings, settings_json);
    push_string(&mut args, owned("--label"));
    push_string(&mut args, string_from(settings.as_slice()));
    args
}

/// The second part of the fixed options: runtime limits and logging.
fn runtime_args() -> (r: Vec<String>)
    ensures
        string_views(r@) == seq![
            "--init"@,
            "--shm-size"@,
            "1g"@,
            "--log-driver"@,
            "json-file"@,
            "--log-opt"@,
            "max-size=10m"@,
            "--log-opt"@,
            "max-file=3"@,
        ],
{
    let mut args: Vec<String> = Vec::new();
    push_string(&mut args, owned("--init"));
    push_string(&mut args, owned("--shm-size"));
    push_string(&mut args, owned("1g"));
    push_string(&mut args, owned("--log-driver"));
    push_string(&mut args, owned("json-file"));
    push_string(&mut args, owned("--log-opt"));
    push_string(&mut args, owned("max-size=10m"));
    push_string(&mut args, owned("--log-opt"));
    push_string(&mut args, owned("max-file=3"));
    args
}

/// The third part of the fixed options: ports, volume, platform, image.
fn start_args(id: &str, port: u16, image: &str) -> (r: Vec<String>)
    ensures
        string_views(r@) == seq![
            "-p"@,
            "0.0.0.0:"@ + text::decimal(port as nat) + ":"@ + text::decimal(port as nat) + "/udp"@,
            "-v"@,
            "innkeeper-"@ + id@ + "-data"@ + ":/home/elsewhere"@,
            "--platform"@,
            "linux/amd64"@,
            "--entrypoint"@,
            "sh"@,
            image@,
            "/opt/innkeeper/entrypoint.sh"@,
        ],
{
    let mut args: Vec<String> = Vec::new();
    push_string(&mut args, owned("-p"));
    let mut udp: Vec<char> = Vec::new();
    push_str(&mut udp, "0.0.0.0:");
    push_decimal(&mut udp, port as u64);
    push_str(&mut udp, ":");
    push_decimal(&mut udp, port as u64);
    push_str(&mut udp, "/udp");
    push_string(&mut args, string_from(udp.as_slice()));
    push_string(&mut args, owned("-v"));
    let data = volume(id);
    let mut mount: Vec<char> = Vec::new();
    push_str(&mut mount, data.as_str());
    push_str(&mut mount, ":/home/elsewhere");
    push_string(&mut args, string_from(mount.as_slice()));
    push_string(&mut args, owned("--platform"));
    push_string(&mut args, owned("linux/amd64"));
    push_string(&mut args, owned("--entrypoint"));
    push_string(&mut args, owned("sh"));
    push_string(&mut args, owned(image));
    push_string(&mut args, owned("/opt/innkeeper/entrypoint.sh"));
    args
}

/// The arguments of `docker create` for a session's container.
pub fn create_args(
    id: &str,
    owner: &str,
    settings_json: &str,
    port: u16,
    network: Option<&str>,
    docker_args: &[String],
    gpu_access: bool,
    gpu: Option<&Gpu>,
    image: &str,
    packages: &[String],
) -> (r: Result<Vec<String>, ContainerError>)
    ensures
        match create_args_spec(
            id@,
            owner@,
            settings_json@,
            port,
            match network { Some(n) => Some(n@), None => None },
            string_views(docker_args@),
            gpu_access,
            match gpu { Some(g) => Some(g@), None => None },
            image@,
            string_views(packages@),
        ) {
            Ok(args) => r matches Ok(v) && string_views(v@) == args,
            Err(e) => r == Err::<Vec<String>, ContainerError>(e),
        },
{
    if gpu_access && gpu.is_none() {
        return Err(ContainerError::NoSelectedGpu);
    }
    let mut args: Vec<String> = Vec::new();
    push_string(&mut args, owned("create"));
    extend_strings(&mut args, nvidia_args(gpu).as_slice());
    extend_strings(&mut args, device_args(gpu_access).as_slice());
    extend_strings(&mut args, network_args(network, port).as_slice());
    extend_strings(&mut args, docker_args);
    let ghost head = string_views(args@);
    extend_strings(&mut args, identity_args(id, owner, settings_json).as_slice());
    extend_strings(&mut args, runtime_args().as_slice());
    extend_strings(&mut args, start_args(id, port, image).as_slice());
    proof {
        assert(string_views(args@) =~= head + base_options(id@, owner@, settings_json@, port, image@));
    }
    extend_strings(&mut args, packages);
    Ok(args)
}


/// Launch settings as plain values.
pub open spec fn launch_view(s: &LaunchSettings) -> (bool, Option<ScreenSize>, bool, Seq<char>) {
    (s.software_encoding, s.screen_size, s.kiosk, s.startup_command@)
}

/// Container settings as plain values.
pub open spec fn container_view(s: &ContainerSettings) -> (Seq<Seq<char>>, Seq<Seq<char>>, Option<GpuView>) {
    (string_views(s.packages@), string_views(s.docker_args@), match s.gpu {
        Some(g) => Some(g@),
        None => None,
    })
}

/// Whether two launch settings are the same.
pub fn launch_settings_eq(a: &LaunchSettings, b: &LaunchSettings) -> (r: bool)
    ensures
        r == (launch_view(a) == launch_view(b)),
{
    let x = text::chars_of(a.startup_command.as_str());
    let y = text::chars_of(b.startup_command.as_str());
    a.software_encoding == b.software_encoding && a.screen_size == b.screen_size && a.kiosk == b.kiosk
        && text::chars_eq(x.as_slice(), y.as_slice())
}

/// Whether two GPUs are the same.
pub fn gpu_eq(a: &Gpu, b: &Gpu) -> (r: bool)
    ensures
        r == (a@ == b@),
{
    let ids = text::chars_eq(text::chars_of(a.id.as_str()).as_slice(), text::chars_of(b.id.as_str()).as_slice());
    let drivers = text::chars_eq(
        text::chars_of(a.driver.as_str()).as_slice(),
        text::chars_of(b.driver.as_str()).as_slice(),
    );
    let nodes = text::chars_eq(text::chars_of(a.node.as_str()).as_slice(), text::chars_of(b.node.as_str()).as_slice());
    ids && drivers && nodes && a.major == b.major && a.minor == b.minor
}

/// Whether two container settings are the same.
pub fn container_settings_eq(a: &ContainerSettings, b: &ContainerSettings) -> (r: bool)
    ensures
        r == (container_view(a) == container_view(b)),
{
    let gpus = match (&a.gpu, &b.gpu) {
        (Some(x), Some(y)) => gpu_eq(x, y),
        (None, None) => true,
        _ => false,
    };
    strings_eq(a.packages.as_slice(), b.packages.as_slice()) && strings_eq(
        a.docker_args.as_slice(),
        b.docker_args.as_slice(),
    ) && gpus
}

/// A session's settings are pending when its desktop or container was
/// started with settings other than those the user chose.
pub open spec fn settings_pending_spec(
    applied: Option<(bool, Option<ScreenSize>, bool, Seq<char>)>,
    desired: (bool, Option<ScreenSize>, bool, Seq<char>),
    configured: Option<(Seq<Seq<char>>, Seq<Seq<char>>, Option<GpuView>)>,
    wanted: (Seq<Seq<char>>, Seq<Seq<char>>, Option<GpuView>),
) -> bool {
    (applied matches Some(a) && a != desired) || (configured matches Some(c) && c != wanted)
}

/// Whether a session's settings await a restart.
pub fn settings_pending(
    applied: Option<&LaunchSettings>,
    desired: &LaunchSettings,
    configured: Option<&ContainerSettings>,
    wanted: &ContainerSettings,
) -> (r: bool)
    ensures
        r == settings_pending_spec(
            match applied { Some(a) => Some(launch_view(a)), None => None },
            launch_view(desired),
            match configured { Some(c) => Some(container_view(c)), None => None },
            container_view(wanted),
        ),
{
    let launch = match applied {
        Some(a) => !launch_settings_eq(a, desired),
        None => false,
    };
    let container = match configured {
        Some(c) => !container_settings_eq(c, wanted),
        None => false,
    };
    launch || container
}


// ---------------------------------------------------------------------------
// Replacing a container with one of new settings
// ---------------------------------------------------------------------------

/// Whether an optional text is `Some(b)`.
pub(crate) fn is_text(a: Option<&str>, b: &str) -> (r: bool)
    ensures
        r == (a matches Some(x) && x@ == b@),
{
    match a {
        Some(x) => text::chars_eq(text::chars_of(x).as_slice(), text::chars_of(b).as_slice()),
        None => false,
    }
}

/// No replacement is needed: none is under way, and the container was
/// never configured or already has the wanted settings.
pub fn replacement_unneeded(replacing: bool, configured: Option<&ContainerSettings>, wanted: &ContainerSettings) -> (r: bool)
    ensures
        r == (!replacing && match configured {
            Some(c) => container_view(c) == container_view(wanted),
            None => true,
        }),
{
    !replacing && match configured {
        Some(c) => container_settings_eq(c, wanted),
        None => true,
    }
}

/// A replacement under way has already finished: the wanted settings are
/// configured and the session's container is still the snapshotted one.
pub fn replacement_finished(
    configured: Option<&ContainerSettings>,
    wanted: &ContainerSettings,
    container_id: Option<&str>,
    source: &str,
) -> (r: bool)
    ensures
        r == ((configured matches Some(c) && container_view(c) == container_view(wanted)) && (container_id matches Some(
            i,
        ) && i@ == source@)),
{
    let same = match configured {
        Some(c) => container_settings_eq(c, wanted),
        None => false,
    };
    same && is_text(container_id, source)
}

/// A snapshot image belongs to this installation and to this replacement:
/// its labels name the installation, the snapshotted container and the
/// snapshot.
pub fn snapshot_labels_match(
    installation_label: Option<&str>,
    source_label: Option<&str>,
    snapshot_label: Option<&str>,
    installation_id: &str,
    source: &str,
    snapshot: &str,
) -> (r: bool)
    ensures
        r == ((installation_label matches Some(a) && a@ == installation_id@) && (source_label matches Some(b) && b@
            == source@) && (snapshot_label matches Some(c) && c@ == snapshot@)),
{
    is_text(installation_label, installation_id) && is_text(source_label, source) && is_text(snapshot_label, snapshot)
}

/// What to do with the container found while replacing.
#[derive(PartialEq, Eq, Structural, Debug, Clone, Copy)]
pub enum Found {
    /// It is the snapshotted container: remove it, then create the new one.
    Source,
    /// It is not made from the snapshot or not freshly created: stop.
    Mismatch,
    /// It is the new container but with other settings: remove and create.
    Outdated,
    /// It is the new container with the wanted settings: keep it.
    Current,
}

/// Judges the container found while replacing, from its id, its image, its
/// state and its settings label.
pub open spec fn found_spec(
    id: Option<Seq<char>>,
    image: Option<Seq<char>>,
    state: Option<Seq<char>>,
    settings_label: Option<Seq<char>>,
    source: Seq<char>,
    snapshot_image: Seq<char>,
    settings_json: Seq<char>,
) -> Found {
    if id == Some(source) {
        Found::Source
    } else if !(image == Some(snapshot_image) && state == Some("created"@)) {
        Found::Mismatch
    } else if settings_label != Some(settings_json) {
        Found::Outdated
    } else {
        Found::Current
    }
}

/// Judges the container found while replacing.
pub fn judge_found(
    id: Option<&str>,
    image: Option<&str>,
    state: Option<&str>,
    settings_label: Option<&str>,
    source: &str,
    snapshot_image: &str,
    settings_json: &str,
) -> (r: Found)
    ensures
        r == found_spec(
            match id { Some(x) => Some(x@), None => None },
            match image { Some(x) => Some(x@), None => None },
            match state { Some(x) => Some(x@), None => None },
            match settings_label { Some(x) => Some(x@), None => None },
            source@,
            snapshot_image@,
            settings_json@,
        ),
{
    if is_text(id, source) {
        Found::Source
    } else if !(is_text(image, snapshot_image) && is_text(state, "created")) {
        Found::Mismatch
    } else if !is_text(settings_label, settings_json) {
        Found::Outdated
    } else {
        Found::Current
    }
}


/// Settings are pending exactly when something was applied that differs
/// from what is now chosen: no applied settings leave nothing pending, the
/// chosen settings themselves leave nothing pending, and any difference in
/// the desktop's or the container's settings is pending.
pub proof fn pending_means_applied_differs(
    applied: Option<(bool, Option<ScreenSize>, bool, Seq<char>)>,
    desired: (bool, Option<ScreenSize>, bool, Seq<char>),
    configured: Option<(Seq<Seq<char>>, Seq<Seq<char>>, Option<GpuView>)>,
    wanted: (Seq<Seq<char>>, Seq<Seq<char>>, Option<GpuView>),
)
    ensures
        !settings_pending_spec(None, desired, None, wanted),
        !settings_pending_spec(Some(desired), desired, Some(wanted), wanted),
        (applied matches Some(a) && a != desired) ==> settings_pending_spec(applied, desired, configured, wanted),
        (configured matches Some(c) && c != wanted) ==> settings_pending_spec(applied, desired, configured, wanted),
        settings_pending_spec(applied, desired, configured, wanted) ==> applied != Some(desired) || configured != Some(
            wanted,
        ),
{
}

/// The container found while replacing is kept only when it is not the
/// snapshotted one, is made from the snapshot image, was only created, and
/// carries the wanted settings; the snapshotted container is always the
/// source; a container in any state but `created` is never reused.
pub proof fn found_container_judgement(
    id: Option<Seq<char>>,
    image: Option<Seq<char>>,
    state: Option<Seq<char>>,
    settings_label: Option<Seq<char>>,
    source: Seq<char>,
    snapshot_image: Seq<char>,
    settings_json: Seq<char>,
)
    ensures
        id == Some(source) ==> found_spec(id, image, state, settings_label, source, snapshot_image, settings_json)
            == Found::Source,
        found_spec(id, image, state, settings_label, source, snapshot_image, settings_json) == Found::Current <==> (
        id != Some(source) && image == Some(snapshot_image) && state == Some("created"@) && settings_label == Some(
            settings_json,
        )),
        id != Some(source) && (image != Some(snapshot_image) || state != Some("created"@)) ==> found_spec(
            id,
            image,
            state,
            settings_label,
            source,
            snapshot_image,
            settings_json,
        ) == Found::Mismatch,
        id != Some(source) && image == Some(snapshot_image) && state == Some("created"@) && settings_label != Some(
            settings_json,
        ) ==> found_spec(id, image, state, settings_label, source, snapshot_image, settings_json) == Found::Outdated,
{
}


/// The container is created only when a session with GPU access has its
/// GPU. Its `docker create` arguments then start with `create` and NVIDIA's
/// runtime exactly for an NVIDIA GPU (otherwise NVIDIA devices are
/// hidden); they pass the render devices through exactly with GPU access,
/// carry the user's Docker options unchanged after the network options, and
/// end with the image, the entry script and the packages to install.
pub proof fn container_arguments(
    id: Seq<char>,
    owner: Seq<char>,
    settings_json: Seq<char>,
    port: u16,
    network: Option<Seq<char>>,
    docker_args: Seq<Seq<char>>,
    gpu_access: bool,
    gpu: Option<GpuView>,
    image: Seq<char>,
    packages: Seq<Seq<char>>,
)
    ensures
        create_args_spec(id, owner, settings_json, port, network, docker_args, gpu_access, gpu, image, packages) is Ok
            <==> !(gpu_access && gpu is None),
        create_args_spec(id, owner, settings_json, port, network, docker_args, gpu_access, gpu, image, packages)
            matches Ok(r) ==> {
            let nv = gpu matches Some(g) && g.driver == "nvidia"@;
            let k = (if nv { 4int } else { 2int }) + (if gpu_access { 2int } else { 0int }) + 2;
            let n = r.len() - packages.len();
            &&& r[0] == "create"@
            &&& r[1] == if nv { "--runtime=nvidia"@ } else { "--env=NVIDIA_VISIBLE_DEVICES=void"@ }
            &&& gpu_access ==> r.subrange(k - 4, k - 2) == seq!["--device"@, "/dev/dri:/dev/dri"@]
            &&& r.subrange(k, k + docker_args.len()) == docker_args
            &&& r.skip(n) == packages
            &&& r[n - 1] == "/opt/innkeeper/entrypoint.sh"@
            &&& r[n - 2] == image
        },
{
    if !(gpu_access && gpu is None) {
        let nv = gpu matches Some(g) && g.driver == "nvidia"@;
        let a = seq!["create"@] + nvidia_options(gpu);
        let b = a + device_options(gpu_access);
        let c = b + network_options(network, port);
        let d = c + docker_args;
        let e = d + base_options(id, owner, settings_json, port, image);
        let r = e + packages;
        let k = (if nv { 4int } else { 2int }) + (if gpu_access { 2int } else { 0int }) + 2;
        assert(a.len() == if nv { 4int } else { 2int });
        assert(c.len() == k);
        assert(r[0] == "create"@);
        assert(r[1] == a[1]);
        if gpu_access {
            assert(r.subrange(k - 4, k - 2) =~= seq!["--device"@, "/dev/dri:/dev/dri"@]);
        }
        assert(r.subrange(k, k + docker_args.len()) =~= docker_args);
        assert(r.skip(r.len() - packages.len()) =~= packages);
        assert(r[r.len() - packages.len() - 1] == base_options(id, owner, settings_json, port, image).last());
    }
}

} // verus!
