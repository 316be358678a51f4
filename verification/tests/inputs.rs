use innkeeper::validation::{
    valid_package, validate_create, validate_docker_args, validate_packages, validate_settings,
    InputError, ScreenSize,
};

fn strings(v: &[&str]) -> Vec<String> {
    v.iter().map(|s| s.to_string()).collect()
}

#[test]
fn settings_errors_in_order() {
    assert_eq!(validate_settings("Desktop", None, ""), Ok(()));
    assert_eq!(validate_settings("   ", None, ""), Err(InputError::Name));
    assert_eq!(validate_settings("", None, ""), Err(InputError::Name));
    assert_eq!(validate_settings(&"é".repeat(80), None, ""), Ok(()));
    assert_eq!(validate_settings(&"é".repeat(81), None, ""), Err(InputError::Name));
    assert_eq!(
        validate_settings("Desktop", Some(ScreenSize { width: 1921, height: 1080 }), ""),
        Err(InputError::ScreenSize)
    );
    assert_eq!(
        validate_settings("", Some(ScreenSize { width: 1921, height: 1080 }), "\0"),
        Err(InputError::Name)
    );
    assert_eq!(validate_settings("Desktop", None, "a\0b"), Err(InputError::Command));
    assert_eq!(validate_settings("Desktop", None, &"x".repeat(4096)), Ok(()));
    assert_eq!(validate_settings("Desktop", None, &"x".repeat(4097)), Err(InputError::Command));
    assert_eq!(
        InputError::ScreenSize.message(),
        "Screen dimensions must be even numbers between 2 and 8192."
    );
}

#[test]
fn screen_size_bounds() {
    assert!(ScreenSize { width: 8192, height: 2 }.valid());
    assert!(!ScreenSize { width: 8193, height: 2 }.valid());
    assert!(!ScreenSize { width: 1920, height: 1081 }.valid());
}

#[test]
fn package_lists() {
    assert_eq!(validate_packages(&strings(&["firefox", "g++"])), Ok(()));
    assert_eq!(validate_packages(&strings(&["firefox", "-y"])), Err(InputError::Packages));
    let many: Vec<String> = (0..101).map(|i| format!("p{i}")).collect();
    assert_eq!(validate_packages(&many), Err(InputError::Packages));
    assert_eq!(validate_packages(&many[..100]), Ok(()));
    assert!(valid_package(&"a".repeat(128)));
    assert!(!valid_package(&"a".repeat(129)));
    assert!(!valid_package("é"));
}

#[test]
fn create_requests() {
    assert_eq!(validate_create("arch", "Desktop", &[]), Ok(()));
    assert_eq!(validate_create("ubuntu", "Desktop", &strings(&["vim"])), Ok(()));
    assert_eq!(validate_create("fedora", "Desktop", &[]), Err(InputError::Create));
    assert_eq!(validate_create("debian", " ", &[]), Err(InputError::Create));
    assert_eq!(validate_create("debian", "Desktop", &strings(&["$(id)"])), Err(InputError::Create));
}

#[test]
fn docker_option_errors_name_their_cause() {
    assert_eq!(
        validate_docker_args(&vec!["--cap-add=SYS_ADMIN".into(); 65]),
        Err(InputError::DockerLimits)
    );
    assert_eq!(validate_docker_args(&strings(&["image"])), Err(InputError::DockerFormat));
    assert_eq!(validate_docker_args(&strings(&["--name=x"])), Err(InputError::DockerFlag));
    assert_eq!(validate_docker_args(&strings(&["--cap-add= "])), Err(InputError::DockerValue));
    assert_eq!(
        validate_docker_args(&strings(&["--cap-add=SYS_ADMIN", "--name=x"])),
        Err(InputError::DockerFlag)
    );
    assert_eq!(validate_docker_args(&vec!["--cap-add=A".into(); 64]), Ok(()));
    assert_eq!(
        validate_docker_args(&[format!("--security-opt={}", "x".repeat(4096 - 15))]),
        Ok(())
    );
}
