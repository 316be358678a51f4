use innkeeper::gpu::{compatible, resolve, select, Gpu};

#[test]
fn selection() {
    let intel = Gpu {
        id: "0000:00:02.0".into(),
        driver: "i915".into(),
        node: "/dev/dri/renderD128".into(),
        major: 226,
        minor: 128,
    };
    let nvidia = Gpu {
        id: "0000:01:00.0".into(),
        driver: "nvidia".into(),
        node: "/dev/dri/renderD129".into(),
        major: 226,
        minor: 129,
    };
    let devices = vec![intel.clone(), nvidia.clone()];
    assert_eq!(select(&devices, true, None).unwrap(), Some(intel));
    assert_eq!(
        select(&devices, true, Some(&nvidia.id)).unwrap(),
        Some(nvidia)
    );
    assert!(select(&devices, true, Some("/etc/passwd")).is_err());
    assert!(select(&[], true, None).is_err());
    assert!(compatible(true, Some(&devices[0])).is_err());
    assert!(compatible(true, None).is_err());
    assert!(compatible(false, Some(&devices[1])).is_err());
    assert_eq!(
        resolve(&devices, true, true, Some("missing")).unwrap(),
        Some(devices[1].clone())
    );
    assert_eq!(
        resolve(&devices, false, true, Some("missing")).unwrap(),
        Some(devices[0].clone())
    );
    assert!(resolve(&devices[..1], true, true, None).is_err());
    assert!(resolve(&devices[1..], false, true, None).is_err());
    assert!(resolve(&[], false, true, None).is_err());
    assert_eq!(resolve(&[], false, false, None).unwrap(), None);
    let mut renumbered = devices[0].clone();
    renumbered.node = "/dev/dri/renderD130".into();
    renumbered.minor = 130;
    assert_eq!(
        resolve(&[renumbered.clone()], false, true, Some(&renumbered.id)).unwrap(),
        Some(renumbered)
    );
    assert!(select(&devices, false, Some("0000:01:00.0")).is_err());
    assert_eq!(select(&devices, false, None).unwrap(), None);
}
