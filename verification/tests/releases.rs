use innkeeper::releases::{
    check_local_manifest, distribution_assets, operation_text, package_suffix, prepared_image,
    release_assets, release_url, supported_architecture, ReleaseError,
};

#[test]
fn assets_of_each_distribution() {
    assert_eq!(
        distribution_assets("arch", "0.5.1").unwrap(),
        ("archlinux:base", "elsewhere-0.5.1-1-x86_64.pkg.tar.zst".to_string())
    );
    assert_eq!(
        distribution_assets("debian", "0.5.1").unwrap(),
        ("debian:13-slim", "elsewhere_0.5.1-1_debian-13_amd64.deb".to_string())
    );
    assert_eq!(
        distribution_assets("ubuntu", "0.5.1").unwrap(),
        ("ubuntu:26.04", "elsewhere_0.5.1-1_ubuntu-26.04_amd64.deb".to_string())
    );
    assert_eq!(
        distribution_assets("fedora", "0.5.1"),
        Err(ReleaseError::UnsupportedDistribution)
    );
    assert_eq!(
        release_assets("0.4.4.7.dirty"),
        vec![
            "elsewhere-0.4.4.7.dirty-1-x86_64.pkg.tar.zst".to_string(),
            "elsewhere_0.4.4.7.dirty-1_debian-13_amd64.deb".to_string(),
            "elsewhere_0.4.4.7.dirty-1_ubuntu-26.04_amd64.deb".to_string(),
        ]
    );
    assert_eq!(package_suffix("arch"), "pkg.tar.zst");
    assert_eq!(package_suffix("ubuntu"), "deb");
}

#[test]
fn release_urls_point_at_the_tagged_release() {
    assert_eq!(
        release_url("0.5.1", "elsewhere-0.5.1-1-x86_64.pkg.tar.zst"),
        "https://github.com/ryanpetris/elsewhere/releases/download/v0.5.1/elsewhere-0.5.1-1-x86_64.pkg.tar.zst"
    );
}

#[test]
fn installer_instructions() {
    assert_eq!(operation_text(true, false, 42, "0.5.1"), "upgrade 42 0.5.1-1\n");
    assert_eq!(operation_text(false, true, 1700000000000, "0.5.1"), "create 1700000000000 0.5.1-1\n");
    assert_eq!(operation_text(false, false, 42, "0.5.1"), "launch\n");
}

#[test]
fn host_architectures() {
    assert!(supported_architecture("x86_64\n"));
    assert!(supported_architecture("  amd64 "));
    assert!(!supported_architecture("aarch64"));
    assert!(!supported_architecture("x86_64 x"));
    assert_eq!(
        ReleaseError::UnsupportedArchitecture.message(),
        "Release packages currently support only x86_64 Docker hosts"
    );
}

#[test]
fn prepared_images_are_named_by_the_hash_of_their_inputs() {
    assert_eq!(
        prepared_image("arch", "a", b"b", b"c"),
        "innkeeper-session-arch:ba7816bf8f01cfea414140de5dae2223b00361a396177a9cb410ff61f20015ad"
    );
    assert_eq!(
        prepared_image("debian", "", b"", b""),
        "innkeeper-session-debian:e3b0c44298fc1c149afbf4c8996fb92427ae41e4649b934ca495991b7852b855"
    );
}

#[test]
fn local_manifest_checks() {
    assert_eq!(check_local_manifest("0.4.4.7.dirty", "build-with_underscore"), Ok(()));
    assert_eq!(check_local_manifest("0.4.4", "build-1"), Ok(()));
    assert_eq!(
        check_local_manifest("../escape", "build-with_underscore"),
        Err(ReleaseError::InvalidVersion)
    );
    assert_eq!(check_local_manifest("0.4.4", "build-../escape"), Err(ReleaseError::InvalidDirectory));
    assert_eq!(check_local_manifest("0.4", "build-x"), Err(ReleaseError::InvalidVersion));
    assert_eq!(check_local_manifest("0..4.4", "build-x"), Err(ReleaseError::InvalidVersion));
    assert_eq!(check_local_manifest("0.4.4", "other"), Err(ReleaseError::InvalidDirectory));
    assert_eq!(check_local_manifest("0.4.4.dirty.dirty", "build-x"), Err(ReleaseError::InvalidVersion));
}
