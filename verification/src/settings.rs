//! Saving a session's settings: the checks, in the order they are made,
//! and the settings the session holds afterwards.
use vstd::prelude::*;
use crate::gpu::{self, Gpu, GpuError, GpuView};
use crate::lifecycle::{self, LifecycleError};
use crate::text;
use crate::validation::{self, string_views, InputError, ScreenSize};

verus! {

/// The settings a session holds.
pub struct SessionSettings {
    pub name: String,
    pub packages: Vec<String>,
    pub docker_args: Vec<String>,
    pub gpu_access: bool,
    pub gpu: Option<Gpu>,
    pub screen_size: Option<ScreenSize>,
    pub kiosk: bool,
    pub software_encoding: bool,
    pub startup_command: String,
}

/// A request to save a session's settings.
pub struct SettingsInput {
    pub name: String,
    pub packages: Vec<String>,
    pub docker_args: Vec<String>,
    pub gpu_access: bool,
    pub gpu_id: Option<String>,
    pub screen_size: Option<ScreenSize>,
    pub kiosk: bool,
    pub software_encoding: bool,
    pub startup_command: String,
}

/// A session's settings as plain values.
pub struct SessionSettingsView {
    pub name: Seq<char>,
    pub packages: Seq<String>,
    pub docker_args: Seq<String>,
    pub gpu_access: bool,
    pub gpu: Option<GpuView>,
    pub screen_size: Option<ScreenSize>,
    pub kiosk: bool,
    pub software_encoding: bool,
    pub startup_command: Seq<char>,
}

/// A settings request as plain values.
pub struct SettingsInputView {
    pub name: Seq<char>,
    pub packages: Seq<String>,
    pub docker_args: Seq<String>,
    pub gpu_access: bool,
    pub gpu_id: Option<Seq<char>>,
    pub screen_size: Option<ScreenSize>,
    pub kiosk: bool,
    pub software_encoding: bool,
    pub startup_command: Seq<char>,
}

impl View for SessionSettings {
    type V = SessionSettingsView;

    open spec fn view(&self) -> SessionSettingsView {
        SessionSettingsView {
            name: self.name@,
            packages: self.packages@,
            docker_args: self.docker_args@,
            gpu_access: self.gpu_access,
            gpu: match self.gpu {
                Some(g) => Some(g@),
                None => None,
            },
            screen_size: self.screen_size,
            kiosk: self.kiosk,
            software_encoding: self.software_encoding,
            startup_command: self.startup_command@,
        }
    }
}

impl View for SettingsInput {
    type V = SettingsInputView;

    open spec fn view(&self) -> SettingsInputView {
        SettingsInputView {
            name: self.name@,
            packages: self.packages@,
            docker_args: self.docker_args@,
            gpu_access: self.gpu_access,
            gpu_id: match self.gpu_id {
                Some(i) => Some(i@),
                None => None,
            },
            screen_size: self.screen_size,
            kiosk: self.kiosk,
            software_encoding: self.software_encoding,
            startup_command: self.startup_command@,
        }
    }
}

/// Why settings were not saved.
#[derive(PartialEq, Eq, Structural, Debug, Clone, Copy)]
pub enum SettingsError {
    /// A value of the request is invalid (HTTP 400).
    Input(InputError),
    /// The session is neither running nor stopped (HTTP 409).
    Status(LifecycleError),
    /// Only administrators may change the Docker options (HTTP 403).
    Forbidden,
    /// The requested GPU cannot be used (HTTP 400).
    Gpu(GpuError),
}

/// The settings a session holds after a request to save `input`, or why
/// they were not saved. The checks come in this order: name, screen size
/// and startup command; the session running or stopped; the Docker options
/// unchanged unless an administrator asks; the packages; the Docker
/// options; the GPU. The saved name is trimmed, and software encoding is on
/// whenever GPU access is off.
pub open spec fn apply_settings_spec(
    s: SessionSettingsView,
    status: Seq<char>,
    nvidia: bool,
    input: SettingsInputView,
    administrator: bool,
    devices: Seq<GpuView>,
) -> Result<SessionSettingsView, SettingsError> {
    match validation::settings_check(input.name, input.screen_size, input.startup_command) {
        Err(e) => Err(SettingsError::Input(e)),
        Ok(()) => if !lifecycle::settled_spec(status) {
            Err(SettingsError::Status(LifecycleError::NotConfigurable))
        } else if !(administrator || string_views(input.docker_args) == string_views(s.docker_args)) {
            Err(SettingsError::Forbidden)
        } else if !validation::packages_ok(input.packages) {
            Err(SettingsError::Input(InputError::Packages))
        } else {
            match validation::docker_args_check(input.docker_args) {
                Err(e) => Err(SettingsError::Input(e)),
                Ok(()) => match gpu::settings_gpu_spec(
                    devices,
                    nvidia,
                    input.gpu_access,
                    input.gpu_id,
                    s.gpu_access,
                    s.gpu,
                ) {
                    Err(e) => Err(SettingsError::Gpu(e)),
                    Ok(g) => Ok(
                        SessionSettingsView {
                            name: crate::releases::trim(input.name),
                            packages: input.packages,
                            docker_args: input.docker_args,
                            gpu_access: input.gpu_access,
                            gpu: g,
                            screen_size: input.screen_size,
                            kiosk: input.kiosk,
                            software_encoding: input.software_encoding || !input.gpu_access,
                            startup_command: input.startup_command,
                        },
                    ),
                },
            }
        }
    }
}

/// Saves a session's settings: checks the request against the session and
/// the host's devices, and gives the settings the session then holds.
pub fn apply_settings(
    session: &SessionSettings,
    status: &str,
    nvidia: bool,
    input: SettingsInput,
    administrator: bool,
    devices: &[Gpu],
) -> (r: Result<SessionSettings, SettingsError>)
    ensures
        match apply_settings_spec(session@, status@, nvidia, input@, administrator, gpu::gpu_views(devices@)) {
            Ok(v) => r matches Ok(x) && x@ == v,
            Err(e) => r matches Err(x) && x == e,
        },
{
    match validation::validate_settings(input.name.as_str(), input.screen_size, input.startup_command.as_str()) {
        Err(e) => return Err(SettingsError::Input(e)),
        Ok(()) => {},
    }
    match lifecycle::check_settings_status(status) {
        Err(e) => return Err(SettingsError::Status(e)),
        Ok(()) => {},
    }
    if !lifecycle::docker_args_change_allowed(administrator, input.docker_args.as_slice(), session.docker_args.as_slice()) {
        return Err(SettingsError::Forbidden);
    }
    match validation::validate_packages(input.packages.as_slice()) {
        Err(e) => return Err(SettingsError::Input(e)),
        Ok(()) => {},
    }
    match validation::validate_docker_args(input.docker_args.as_slice()) {
        Err(e) => return Err(SettingsError::Input(e)),
        Ok(()) => {},
    }
    let current = match &session.gpu {
        Some(g) => Some(g),
        None => None,
    };
    let requested = match &input.gpu_id {
        Some(i) => Some(i.as_str()),
        None => None,
    };
    let gpu = match gpu::settings_gpu(devices, nvidia, input.gpu_access, requested, session.gpu_access, current) {
        Err(e) => return Err(SettingsError::Gpu(e)),
        Ok(g) => g,
    };
    let name = text::string_from(crate::releases::trim_chars(text::chars_of(input.name.as_str()).as_slice()).as_slice());
    let software_encoding = lifecycle::software_encoding(input.software_encoding, input.gpu_access);
    let r = SessionSettings {
        name,
        packages: input.packages,
        docker_args: input.docker_args,
        gpu_access: input.gpu_access,
        gpu,
        screen_size: input.screen_size,
        kiosk: input.kiosk,
        software_encoding,
        startup_command: input.startup_command,
    };
    Ok(r)
}

/// Only an administrator changes a session's Docker options: whatever
/// others save keeps them as they were. Saved settings always fit the
/// session's GPU, and without GPU access they encode in software.
pub proof fn saved_settings_respect_limits(
    s: SessionSettingsView,
    status: Seq<char>,
    nvidia: bool,
    input: SettingsInputView,
    administrator: bool,
    devices: Seq<GpuView>,
)
    ensures
        apply_settings_spec(s, status, nvidia, input, administrator, devices) matches Ok(v) ==> {
            &&& (!administrator ==> string_views(v.docker_args) == string_views(s.docker_args))
            &&& (!v.gpu_access ==> v.software_encoding)
            &&& gpu::compatible_spec(nvidia, v.gpu)
            &&& lifecycle::settled_spec(status)
        },
{
}

/// Saved settings are the request's: its packages, Docker options, GPU
/// access, screen size, kiosk mode and startup command as given, its name
/// trimmed, and software encoding as asked or forced on without GPU access.
/// A session left without GPU access gets no GPU (unless it already held
/// one without access and keeps it); one that keeps its GPU access
/// and GPU keeps its GPU; any other GPU is one of the host's devices, of the
/// requested id when one is given.
pub proof fn saved_settings_are_the_request(
    s: SessionSettingsView,
    status: Seq<char>,
    nvidia: bool,
    input: SettingsInputView,
    administrator: bool,
    devices: Seq<GpuView>,
)
    ensures
        apply_settings_spec(s, status, nvidia, input, administrator, devices) matches Ok(v) ==> {
            &&& v.screen_size == input.screen_size
            &&& v.kiosk == input.kiosk
            &&& v.startup_command == input.startup_command
            &&& v.packages == input.packages
            &&& v.docker_args == input.docker_args
            &&& v.gpu_access == input.gpu_access
            &&& v.software_encoding == (input.software_encoding || !input.gpu_access)
            &&& v.name == crate::releases::trim(input.name)
            &&& (!input.gpu_access && (s.gpu_access || s.gpu is None) ==> v.gpu is None)
            &&& (input.gpu_access == s.gpu_access && input.gpu_id == (match s.gpu {
                Some(g) => Some(g.id),
                None => None,
            }) ==> v.gpu == s.gpu)
            &&& (!(input.gpu_access == s.gpu_access && input.gpu_id == (match s.gpu {
                Some(g) => Some(g.id),
                None => None,
            })) ==> (v.gpu matches Some(g) ==> devices.contains(g) && (input.gpu_id matches Some(x) ==> g.id
                == x)))
        },
        apply_settings_spec(s, status, nvidia, input, administrator, devices) is Ok ==> (status == "running"@
            || status == "stopped"@),
        !administrator && string_views(input.docker_args) != string_views(s.docker_args) ==> !(apply_settings_spec(
            s,
            status,
            nvidia,
            input,
            administrator,
            devices,
        ) is Ok),
{
    let pred = gpu::eligible(nvidia);
    let cands = devices.filter(pred);
    gpu::selected_gpu_is_requested(cands, input.gpu_access, input.gpu_id);
    match gpu::select_spec(cands, input.gpu_access, input.gpu_id) {
        Ok(Some(g)) => devices.lemma_filter_contains_rev(pred, g),
        _ => {},
    }
}

} // verus!
