use innkeeper::packages::{
    arch_entry, arch_package_metadata, debian_metadata, debian_package_metadata, installed_version_of, MetadataError,
    PackageMetadata,
};
use innkeeper::versions::{compare_versions, elsewhere_version, release_version, version_status, ELSEWHERE_VERSION};

fn err(r: Result<PackageMetadata, MetadataError>) -> MetadataError {
    match r {
        Ok(_) => panic!("expected an error"),
        Err(e) => e,
    }
}

#[test]
fn debian_errors_name_the_missing_field() {
    assert_eq!(err(debian_metadata("Status: install ok installed\n")), MetadataError::InvalidMetadata);
    assert_eq!(err(debian_metadata("Package: elsewhere\nVersion: 1\n")), MetadataError::MissingStatus);
    assert_eq!(
        err(debian_metadata("Package: elsewhere\nStatus: install ok installed\n")),
        MetadataError::MissingVersion
    );
    let found = debian_metadata("\n\n  \n\nPackage: elsewhere\nStatus: install ok installed\nVersion: 0.5.1-1\n").unwrap();
    assert_eq!(found.version.as_deref(), Some("0.5.1-1"));
    assert!(!found.repair_available());
    let none = debian_metadata("Package: other\nStatus: install ok installed\nVersion: 1\n").unwrap();
    assert_eq!(none.version, None);
    assert!(none.repair_available());
    assert_eq!(MetadataError::Ambiguous.message(), "Ambiguous Elsewhere package metadata");
}

#[test]
fn arch_entries_gather_one_elsewhere_package() {
    let desc = "%NAME%\nelsewhere\n\n%VERSION%\n0.5.1-1\n\n";
    let m = arch_entry(PackageMetadata::default(), desc).unwrap();
    assert_eq!(m.version.as_deref(), Some("0.5.1-1"));
    assert!(m.complete);
    assert_eq!(err(arch_entry(m, desc)), MetadataError::Ambiguous);
    let other = arch_entry(PackageMetadata::default(), "%NAME%\nelsewhere-extras\n\n%VERSION%\n1\n").unwrap();
    assert_eq!(other.version, None);
    assert!(!other.complete);
    assert_eq!(err(arch_entry(PackageMetadata::default(), "%VERSION%\n1\n")), MetadataError::MissingName);
    assert_eq!(
        err(arch_entry(PackageMetadata::default(), "%NAME%\nelsewhere\n\n")),
        MetadataError::MissingVersion
    );
}

#[test]
fn installed_versions_need_a_complete_installation() {
    assert_eq!(
        installed_version_of(PackageMetadata { version: Some("0.5.1-1".into()), complete: true }),
        Ok("0.5.1-1".to_string())
    );
    assert_eq!(
        installed_version_of(PackageMetadata { version: Some("0.5.1-1".into()), complete: false }),
        Err(MetadataError::Incomplete)
    );
    assert_eq!(
        installed_version_of(PackageMetadata { version: None, complete: true }),
        Err(MetadataError::Unavailable)
    );
}

#[test]
fn release_versions_parse_epoch_numbers_and_revision() {
    assert_eq!(release_version("0.4.4-1"), Some((0, vec![0, 4, 4], vec![1])));
    assert_eq!(release_version("2:v1.2.3.4-5.6"), Some((2, vec![1, 2, 3, 4], vec![5, 6])));
    assert_eq!(release_version("1.2.3"), Some((0, vec![1, 2, 3], vec![1])));
    assert_eq!(release_version("1.2-1"), None);
    assert_eq!(release_version("x:1.2.3"), None);
    assert_eq!(release_version("1.2.3-"), None);
    assert_eq!(release_version("0.5.0~rc1-1"), None);
}

#[test]
fn version_comparison_reverses_with_its_arguments() {
    for (a, b) in [("0.4.10-1", "0.4.9"), ("1:0.1.0", "99.0.0"), ("0.4.4-2", "0.4.4"), ("0.4.4", "0.4.4-1")] {
        let forward = compare_versions(Some(a), b);
        let back = compare_versions(Some(b), a);
        match forward {
            "older" => assert_eq!(back, "newer"),
            "newer" => assert_eq!(back, "older"),
            "current" => assert_eq!(back, "current"),
            other => panic!("unexpected {other}"),
        }
    }
    assert_eq!(compare_versions(Some("0.4.10-1"), "0.4.9"), "newer");
    assert_eq!(compare_versions(Some("0.4.4"), "0.4.4-1"), "current");
    assert_eq!(compare_versions(Some("0.4.4-1"), "0.4.4"), "current");
    assert_eq!(compare_versions(None, "0.4.4"), "unknown");
}

#[test]
fn the_release_to_install() {
    assert_eq!(elsewhere_version(None), ELSEWHERE_VERSION);
    assert_eq!(elsewhere_version(Some("0.4.4.7.dirty")), "0.4.4.7.dirty");
    assert_eq!(version_status(Some(&format!("{ELSEWHERE_VERSION}-1")), None), "current");
    assert_eq!(version_status(Some("0.0.1-1"), None), "older");
    assert_eq!(version_status(Some("99.0.0-1"), None), "newer");
}

#[test]
fn version_status_follows_a_local_release() {
    assert_eq!(version_status(Some("0.4.4.7.dirty-1"), Some("0.4.4.7.dirty")), "current");
    assert_eq!(version_status(Some(&format!("{ELSEWHERE_VERSION}-1")), Some("0.4.4.7.dirty")), "unknown");
    assert_eq!(version_status(Some("0.4.4-1"), Some("0.4.5")), "older");
}

#[test]
fn package_databases() {
    let status = "Package: elsewhere\nStatus: install ok installed\nVersion: 0.5.1-1\n";
    assert_eq!(err(debian_package_metadata(status, true)), MetadataError::JournalPending);
    assert_eq!(debian_package_metadata(status, false).unwrap().version.as_deref(), Some("0.5.1-1"));
    assert!(MetadataError::JournalPending.message().starts_with("Debian package journal is pending."));
    let elsewhere = "%NAME%\nelsewhere\n\n%VERSION%\n0.5.1-1\n\n".to_string();
    let extras = "%NAME%\nelsewhere-extras\n\n%VERSION%\n1\n".to_string();
    let m = arch_package_metadata(&[extras.clone(), elsewhere.clone()]).unwrap();
    assert_eq!((m.version.as_deref(), m.complete), (Some("0.5.1-1"), true));
    let none = arch_package_metadata(&[extras.clone()]).unwrap();
    assert_eq!((none.version, none.complete), (None, false));
    assert_eq!(err(arch_package_metadata(&[elsewhere.clone(), extras, elsewhere])), MetadataError::Ambiguous);
    assert_eq!(err(arch_package_metadata(&["%VERSION%\n1\n".to_string()])), MetadataError::MissingName);
}
