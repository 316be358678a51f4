use innkeeper::packages::{arch_version, debian_metadata};
use innkeeper::versions::{compare_versions, release_version, version_status, ELSEWHERE_VERSION};

#[test]
fn installed_package_metadata_and_ordering() {
    assert_eq!(
        debian_metadata("Package: elsewhere-extras\nStatus: install ok installed\nVersion: 9.0.0-1\n\nPackage: elsewhere\nStatus: install ok installed\nVersion: 0.4.4-1\n")
            .unwrap().version.as_deref(),
        Some("0.4.4-1")
    );
    assert!(
        debian_metadata(&format!(
            "Package: elsewhere\nStatus: install ok unpacked\nVersion: {ELSEWHERE_VERSION}-1\n"
        ))
        .unwrap()
        .repair_available()
    );
    assert_eq!(
        arch_version("%NAME%\nelsewhere\n\n%VERSION%\n0.4.4-1\n\n").as_deref(),
        Some("0.4.4-1")
    );
    assert!(release_version("0.4.10-1") > release_version("0.4.9-1"));
    assert!(release_version("0.4.4-2") > release_version("0.4.4-1"));
    assert!(release_version("v0.4.4.2-1") > release_version("0.4.4-1"));
    assert_eq!(version_status(Some(ELSEWHERE_VERSION), None), "current");
    assert_eq!(version_status(None, None), "unknown");
    assert_eq!(
        compare_versions(Some("0.4.4.7.dirty-1"), "0.4.4.7.dirty"),
        "current"
    );
    assert_eq!(
        compare_versions(Some("0.4.4.8.dirty-1"), "0.4.4.7.dirty"),
        "unknown"
    );
    assert_eq!(version_status(Some("0.5.0~rc1-1"), None), "unknown");
    assert!(release_version("1:0.1.0-1") > release_version("0:99.0.0-1"));
    assert!(arch_version("%NAME%\nelsewhere-extras\n\n%VERSION%\n1.0.0-1\n\n").is_none());
    assert!(debian_metadata("invalid").is_err());
    assert!(debian_metadata("Package: elsewhere\nStatus: install ok unpacked\n").is_err());
    assert!(debian_metadata("").unwrap().repair_available());
    for version in ["99.0.0-1", "0.5.0~rc1-1"] {
        let metadata = debian_metadata(&format!(
            "Package: elsewhere\nStatus: install ok unpacked\nVersion: {version}\n"
        ))
        .unwrap();
        assert!(metadata.repair_available());
    }
}
