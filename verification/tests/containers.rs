use innkeeper::config::{container, gpu_config, launch_config, launch_file, package_list, tag, volume, LaunchSettings};
use innkeeper::containers::{
    container_settings_eq, create_args, judge_found, replacement_finished, replacement_unneeded,
    settings_pending, snapshot_labels_match, ContainerError, ContainerSettings, Found,
};
use innkeeper::gpu::Gpu;
use innkeeper::validation::ScreenSize;

fn intel() -> Gpu {
    Gpu {
        id: "0000:00:02.0".into(),
        driver: "i915".into(),
        node: "/dev/dri/renderD128".into(),
        major: 226,
        minor: 128,
    }
}

fn nvidia() -> Gpu {
    Gpu {
        id: "0000:01:00.0".into(),
        driver: "nvidia".into(),
        node: "/dev/dri/renderD129".into(),
        major: 226,
        minor: 129,
    }
}

fn strings(v: &[&str]) -> Vec<String> {
    v.iter().map(|s| s.to_string()).collect()
}

fn base(id: &str, owner: &str, json: &str, port: u16, image: &str) -> Vec<String> {
    strings(&[
        "--name",
        &format!("innkeeper-{id}"),
        "--hostname",
        &format!("innkeeper-{id}"),
        "--label",
        &format!("io.innkeeper.installation={owner}"),
        "--label",
        &format!("io.innkeeper.settings={json}"),
        "--init",
        "--shm-size",
        "1g",
        "--log-driver",
        "json-file",
        "--log-opt",
        "max-size=10m",
        "--log-opt",
        "max-file=3",
        "-p",
        &format!("0.0.0.0:{port}:{port}/udp"),
        "-v",
        &format!("innkeeper-{id}-data:/home/elsewhere"),
        "--platform",
        "linux/amd64",
        "--entrypoint",
        "sh",
        image,
        "/opt/innkeeper/entrypoint.sh",
    ])
}

#[test]
fn names_of_docker_objects() {
    assert_eq!(container("abc"), "innkeeper-abc");
    assert_eq!(volume("abc"), "innkeeper-abc-data");
    assert_eq!(tag("abc", "snap"), "innkeeper-snapshot-abc:snap");
}

#[test]
fn create_args_for_a_gpu_session_on_the_host_network() {
    let args = create_args(
        "abc",
        "inst",
        "{}",
        19500,
        None,
        &strings(&["--cap-add=SYS_ADMIN"]),
        true,
        Some(&intel()),
        "img",
        &strings(&["firefox"]),
    )
    .unwrap();
    let mut want = strings(&[
        "create",
        "--env=NVIDIA_VISIBLE_DEVICES=void",
        "--device",
        "/dev/dri:/dev/dri",
        "-p",
        "127.0.0.1:19500:19443/tcp",
        "--cap-add=SYS_ADMIN",
    ]);
    want.extend(base("abc", "inst", "{}", 19500, "img"));
    want.push("firefox".into());
    assert_eq!(args, want);
}

#[test]
fn create_args_for_an_nvidia_session_on_a_network() {
    let args = create_args("s1", "o", "{\"a\":1}", 19501, Some("net1"), &[], false, Some(&nvidia()), "image:1", &[])
        .unwrap();
    let mut want = strings(&[
        "create",
        "--runtime=nvidia",
        "--env=NVIDIA_VISIBLE_DEVICES=all",
        "--env=NVIDIA_DRIVER_CAPABILITIES=compute,video,graphics,utility,display,compat32",
        "--network",
        "net1",
    ]);
    want.extend(base("s1", "o", "{\"a\":1}", 19501, "image:1"));
    assert_eq!(args, want);
}

#[test]
fn create_args_need_a_gpu_when_access_is_on() {
    assert_eq!(
        create_args("abc", "inst", "{}", 19500, None, &[], true, None, "img", &[]),
        Err(ContainerError::NoSelectedGpu)
    );
    assert_eq!(ContainerError::NoSelectedGpu.message(), "Session has no selected GPU");
}

#[test]
fn gpu_config_describes_the_device_or_none() {
    assert_eq!(
        gpu_config(Some(&intel())),
        "export INNKEEPER_RENDER_NODE='/dev/dri/renderD128'\nexport INNKEEPER_GPU_ID='0000:00:02.0'\nexport INNKEEPER_GPU_DRIVER='i915'\nexport INNKEEPER_GPU_DEVICE='226:128'\n"
    );
    assert_eq!(
        gpu_config(None),
        "export INNKEEPER_RENDER_NODE=none\nexport INNKEEPER_GPU_ID=''\nexport INNKEEPER_GPU_DRIVER=''\nexport INNKEEPER_GPU_DEVICE=''\n"
    );
}

#[test]
fn launch_config_quotes_the_startup_command() {
    let settings = LaunchSettings {
        software_encoding: true,
        screen_size: Some(ScreenSize { width: 1920, height: 1080 }),
        kiosk: false,
        startup_command: "echo 'hi'".into(),
    };
    assert_eq!(
        launch_config(&settings),
        "export INNKEEPER_SCREEN_SIZE='1920x1080'\nexport INNKEEPER_KIOSK='0'\nexport INNKEEPER_SOFTWARE_ENCODING='1'\nexport INNKEEPER_STARTUP_COMMAND='echo '\"'\"'hi'\"'\"''\n"
    );
    let plain = LaunchSettings {
        software_encoding: false,
        screen_size: None,
        kiosk: true,
        startup_command: String::new(),
    };
    assert_eq!(
        launch_config(&plain),
        "export INNKEEPER_SCREEN_SIZE=''\nexport INNKEEPER_KIOSK='1'\nexport INNKEEPER_SOFTWARE_ENCODING='0'\nexport INNKEEPER_STARTUP_COMMAND=''\n"
    );
}

fn settings(packages: &[&str], gpu: Option<Gpu>) -> ContainerSettings {
    ContainerSettings { packages: strings(packages), docker_args: vec![], gpu }
}

#[test]
fn settings_are_pending_only_when_they_differ() {
    let desired = LaunchSettings {
        software_encoding: false,
        screen_size: None,
        kiosk: false,
        startup_command: "x".into(),
    };
    let same = LaunchSettings { startup_command: "x".into(), ..desired_clone(&desired) };
    let other = LaunchSettings { kiosk: true, ..desired_clone(&desired) };
    let wanted = settings(&["firefox"], Some(intel()));
    assert!(!settings_pending(None, &desired, None, &wanted));
    assert!(!settings_pending(Some(&same), &desired, Some(&settings(&["firefox"], Some(intel()))), &wanted));
    assert!(settings_pending(Some(&other), &desired, None, &wanted));
    assert!(settings_pending(None, &desired, Some(&settings(&["vim"], Some(intel()))), &wanted));
    assert!(settings_pending(None, &desired, Some(&settings(&["firefox"], Some(nvidia()))), &wanted));
    assert!(container_settings_eq(&wanted, &settings(&["firefox"], Some(intel()))));
    assert!(!container_settings_eq(&wanted, &settings(&["firefox"], None)));
}

fn desired_clone(s: &LaunchSettings) -> LaunchSettings {
    LaunchSettings {
        software_encoding: s.software_encoding,
        screen_size: s.screen_size,
        kiosk: s.kiosk,
        startup_command: s.startup_command.clone(),
    }
}

#[test]
fn replacement_decisions() {
    let wanted = settings(&["firefox"], None);
    assert!(replacement_unneeded(false, None, &wanted));
    assert!(replacement_unneeded(false, Some(&settings(&["firefox"], None)), &wanted));
    assert!(!replacement_unneeded(false, Some(&settings(&[], None)), &wanted));
    assert!(!replacement_unneeded(true, None, &wanted));
    assert!(replacement_finished(Some(&settings(&["firefox"], None)), &wanted, Some("c1"), "c1"));
    assert!(!replacement_finished(Some(&settings(&["firefox"], None)), &wanted, Some("c2"), "c1"));
    assert!(!replacement_finished(None, &wanted, Some("c1"), "c1"));
    assert!(snapshot_labels_match(Some("i"), Some("c1"), Some("s"), "i", "c1", "s"));
    assert!(!snapshot_labels_match(Some("i"), None, Some("s"), "i", "c1", "s"));
    assert!(!snapshot_labels_match(Some("j"), Some("c1"), Some("s"), "i", "c1", "s"));
}

#[test]
fn found_containers_are_judged_in_order() {
    assert_eq!(judge_found(Some("c1"), None, None, None, "c1", "img", "{}"), Found::Source);
    assert_eq!(judge_found(Some("c2"), Some("other"), Some("created"), Some("{}"), "c1", "img", "{}"), Found::Mismatch);
    assert_eq!(judge_found(Some("c2"), Some("img"), Some("running"), Some("{}"), "c1", "img", "{}"), Found::Mismatch);
    assert_eq!(judge_found(Some("c2"), Some("img"), Some("created"), Some("{\"x\":1}"), "c1", "img", "{}"), Found::Outdated);
    assert_eq!(judge_found(Some("c2"), Some("img"), Some("created"), None, "c1", "img", "{}"), Found::Outdated);
    assert_eq!(judge_found(Some("c2"), Some("img"), Some("created"), Some("{}"), "c1", "img", "{}"), Found::Current);
}

#[test]
fn desktop_settings_file_and_package_list() {
    let settings = LaunchSettings {
        software_encoding: false,
        screen_size: None,
        kiosk: false,
        startup_command: String::new(),
    };
    assert_eq!(
        launch_file(&settings, "abc", 19500, "10.0.0.2"),
        format!(
            "{}export INNKEEPER_URL_PREFIX='/e/abc'\nexport INNKEEPER_RTC_PORT=19500\nexport INNKEEPER_RTC_ADDR='10.0.0.2'\n",
            launch_config(&settings)
        )
    );
    assert_eq!(package_list(&strings(&["vim", "g++"])), "vim\ng++");
    assert_eq!(package_list(&strings(&["vim"])), "vim");
    assert_eq!(package_list(&[]), "");
}
