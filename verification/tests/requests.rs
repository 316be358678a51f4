use innkeeper::api::{preview_decision, PreviewError};
use innkeeper::gpu::{Gpu, GpuError};
use innkeeper::handlers::{begin_start_check, create_check, destroy_volume_check, kept_timings, started_session, stop_plan, upgrade_check, CreateError, DestroyError};
use innkeeper::lifecycle::{ContainerState, LifecycleError};
use innkeeper::settings::{apply_settings, SessionSettings, SettingsError, SettingsInput};
use innkeeper::validation::{InputError, ScreenSize};

fn intel() -> Gpu {
    Gpu { id: "0000:00:02.0".into(), driver: "i915".into(), node: "/dev/dri/renderD128".into(), major: 226, minor: 128 }
}

fn strings(v: &[&str]) -> Vec<String> {
    v.iter().map(|s| s.to_string()).collect()
}

#[test]
fn previews_are_checked_in_order() {
    assert_eq!(preview_decision(0, false, true, 0, None), Err(PreviewError::Width));
    assert_eq!(preview_decision(800, false, true, 0, None), Err(PreviewError::NotRunning));
    assert_eq!(preview_decision(800, true, true, 0, None), Err(PreviewError::QueueFull));
    assert_eq!(preview_decision(800, true, false, 5_000, Some(3_001)), Err(PreviewError::TooSoon));
    assert_eq!(preview_decision(800, true, false, 5_000, Some(3_000)), Ok(()));
    assert_eq!(preview_decision(1600, true, false, 5_000, None), Ok(()));
    let e = PreviewError::TooSoon.error();
    assert_eq!((e.0, e.1.as_str()), (429, "Preview refresh is limited to once every two seconds"));
    assert_eq!(PreviewError::NotRunning.error().0, 503);
}

fn current() -> SessionSettings {
    SessionSettings {
        name: "Desk".into(),
        packages: vec![],
        docker_args: strings(&["--cap-add=SYS_ADMIN"]),
        gpu_access: true,
        gpu: Some(intel()),
        screen_size: None,
        kiosk: false,
        software_encoding: false,
        startup_command: String::new(),
    }
}

fn input() -> SettingsInput {
    SettingsInput {
        name: "  New name ".into(),
        packages: strings(&["vim"]),
        docker_args: strings(&["--cap-add=SYS_ADMIN"]),
        gpu_access: true,
        gpu_id: Some("0000:00:02.0".into()),
        screen_size: Some(ScreenSize { width: 1280, height: 720 }),
        kiosk: true,
        software_encoding: false,
        startup_command: "xterm".into(),
    }
}

#[test]
fn saving_settings() {
    let saved = apply_settings(&current(), "running", false, input(), false, &[]).unwrap();
    assert_eq!(saved.name, "New name");
    assert_eq!(saved.packages, strings(&["vim"]));
    assert_eq!(saved.gpu, Some(intel()));
    assert!(saved.kiosk && !saved.software_encoding);
    let mut off = input();
    off.gpu_access = false;
    off.gpu_id = None;
    let saved = apply_settings(&current(), "stopped", false, off, false, &[]).unwrap();
    assert_eq!(saved.gpu, None);
    assert!(saved.software_encoding);
    let mut blank = input();
    blank.name = " ".into();
    assert!(matches!(apply_settings(&current(), "running", false, blank, false, &[]), Err(SettingsError::Input(InputError::Name))));
    assert!(matches!(
        apply_settings(&current(), "preparing", false, input(), false, &[]),
        Err(SettingsError::Status(LifecycleError::NotConfigurable))
    ));
    let mut args = input();
    args.docker_args = vec![];
    assert!(matches!(apply_settings(&current(), "running", false, args, false, &[]), Err(SettingsError::Forbidden)));
    let mut args = input();
    args.docker_args = strings(&["--name=x"]);
    assert!(matches!(
        apply_settings(&current(), "running", false, args, true, &[]),
        Err(SettingsError::Input(InputError::DockerFlag))
    ));
    let mut other = input();
    other.gpu_id = Some("missing".into());
    assert!(matches!(
        apply_settings(&current(), "running", false, other, false, &[intel()]),
        Err(SettingsError::Gpu(GpuError::Unavailable))
    ));
    assert!(matches!(
        apply_settings(&current(), "running", true, input(), false, &[intel()]),
        Err(SettingsError::Gpu(GpuError::Incompatible))
    ));
}

#[test]
fn creating_sessions() {
    let ok = create_check(false, "arch", "Desk", &strings(&["vim"]), &[], None, "", true, None, false, &[intel()]).unwrap();
    assert_eq!(ok, (Some(intel()), false));
    let off = create_check(false, "arch", "Desk", &[], &[], None, "", false, None, false, &[]).unwrap();
    assert_eq!(off, (None, true));
    assert_eq!(
        create_check(false, "arch", "Desk", &[], &strings(&["--cap-add=X"]), None, "", false, None, false, &[]),
        Err(CreateError::Forbidden)
    );
    assert_eq!(
        create_check(true, "fedora", "Desk", &[], &[], None, "", false, None, false, &[]),
        Err(CreateError::Input(InputError::Create))
    );
    assert_eq!(
        create_check(true, "arch", "Desk", &[], &[], Some(ScreenSize { width: 3, height: 2 }), "", false, None, false, &[]),
        Err(CreateError::Input(InputError::ScreenSize))
    );
    assert_eq!(
        create_check(true, "arch", "Desk", &[], &strings(&["x"]), None, "", false, None, false, &[]),
        Err(CreateError::Input(InputError::DockerFormat))
    );
    assert_eq!(
        create_check(true, "arch", "Desk", &[], &[], None, "", true, None, false, &[]),
        Err(CreateError::Gpu(GpuError::Unavailable))
    );
}

#[test]
fn starting_stopping_upgrading_destroying() {
    let stopped = ContainerState { exists: true, created: false, running: false };
    let running = ContainerState { exists: true, created: false, running: true };
    assert_eq!(begin_start_check("stopped", false, &stopped, true, false, Some(true)), Ok(false));
    assert_eq!(begin_start_check("running", true, &running, true, false, None), Ok(true));
    assert_eq!(begin_start_check("running", false, &running, true, false, None), Err(LifecycleError::NotStopped));
    assert_eq!(begin_start_check("stopped", false, &running, true, false, None), Err(LifecycleError::StillRunning));
    let kept = kept_timings(&[("image".into(), 1), ("launch".into(), 2), ("container".into(), 3), ("readiness".into(), 4)]);
    assert_eq!(kept, vec![("image".to_string(), 1), ("container".to_string(), 3)]);
    let plan = |stage, has, configured, replacing| {
        let r = stop_plan(stage, has, configured, replacing);
        assert!(r.error.is_none() && r.upgrade_target.is_none());
        (r.inspect, r.status)
    };
    assert_eq!(plan("download", false, false, false), (false, "cancelled"));
    assert_eq!(plan("launch", false, true, false), (true, "stopped"));
    assert_eq!(plan("download", true, false, false), (true, "stopped"));
    let started = started_session(5, &[("image".into(), 1), ("launch".into(), 2)]);
    assert!(started.started_ms > 5);
    assert_eq!((started.status, started.stage), ("preparing", "queued"));
    assert!(started.error.is_none() && started.upgrade_target.is_none());
    assert_eq!(started.timings, vec![("image".to_string(), 1)]);
    assert_eq!(upgrade_check("stopped"), Ok(("upgrading", "download")));
    assert_eq!(upgrade_check("failed"), Err(LifecycleError::NotUpgradable));
    assert_eq!(destroy_volume_check(Some("inst"), "inst"), Ok(()));
    assert_eq!(destroy_volume_check(None, "inst"), Err(DestroyError::VolumeNotOwned));
}
