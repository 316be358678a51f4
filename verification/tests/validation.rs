use innkeeper::redact::redact;
use innkeeper::validation::{valid_package, validate_docker_args, ScreenSize};

#[test]
fn docker_options_validate_complete_arguments() {
    let valid = [
        "--security-opt=seccomp=unconfined",
        "--security-opt=apparmor=unconfined",
        "--cap-add=SYS_ADMIN",
        "--cap-drop=NET_RAW",
    ];
    assert!(validate_docker_args(&valid.map(str::to_owned)).is_ok());
    assert!(validate_docker_args(&[]).is_ok());
    for invalid in [
        "--privileged=true",
        "--name=other",
        "image",
        "--cap-add",
        "--cap-add=",
        "--cap-add=  ",
        "--cap-add=SYS_ADMIN\n",
        "--cap-add=SYS_ADMIN\0",
        "--cap-add=SYS_ADMIN\r",
    ] {
        assert!(
            validate_docker_args(&[invalid.into()]).is_err(),
            "{invalid:?}"
        );
    }
    assert!(validate_docker_args(&vec!["--cap-add=SYS_ADMIN".into(); 65]).is_err());
    assert!(validate_docker_args(&[format!("--security-opt={}", "x".repeat(4096))]).is_err());
}

#[test]
fn package_boundary() {
    for p in [
        "firefox",
        "libgtk-3-0",
        "foo+bar",
        "libc6:amd64",
        "g++",
        "libstdc++-14-dev",
    ] {
        assert!(valid_package(p));
    }
    for p in [
        "", "-y", "--help", "x;id", "$(id)", "x y", "x\ny", "../x", "foo=1", "a/b", "dbus-",
    ] {
        assert!(!valid_package(p), "{p}");
    }
}

#[test]
fn screen_sizes_and_profile_defaults() {
    for (width, height, valid) in [
        (1920, 1080, true),
        (2, 8192, true),
        (0, 720, false),
        (1281, 720, false),
        (1920, 8194, false),
    ] {
        assert_eq!(ScreenSize { width, height }.valid(), valid);
    }
}

#[test]
fn token_links_are_redacted_without_format_assumptions() {
    assert_eq!(
        redact("before\nhttps://desktop/#token=opaque / + ? trailing\nafter"),
        "before\nhttps://desktop/#token=[REDACTED]\nafter"
    );
}
