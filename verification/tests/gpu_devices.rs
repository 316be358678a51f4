use innkeeper::gpu::{
    compatible, device_numbers, settings_gpu, identify, is_render_node, resolve, select, sort_devices,
    sysfs_device_path, valid_identity, Gpu, GpuError,
};

fn device(id: &str, driver: &str, major: u32, minor: u32) -> Gpu {
    Gpu {
        id: id.into(),
        driver: driver.into(),
        node: format!("/dev/dri/renderD{minor}"),
        major,
        minor,
    }
}

#[test]
fn device_numbers_split_the_linux_encoding() {
    assert_eq!(device_numbers(57984), (226, 128));
    assert_eq!(device_numbers(57985), (226, 129));
    assert_eq!(device_numbers(1106560), (226, 384));
    assert_eq!(device_numbers(0), (0, 0));
}

#[test]
fn render_nodes_are_named_render_d_and_digits() {
    assert!(is_render_node("renderD128"));
    assert!(is_render_node("renderD0"));
    assert!(!is_render_node("renderD"));
    assert!(!is_render_node("renderD12a"));
    assert!(!is_render_node("card0"));
    assert!(!is_render_node("xrenderD128"));
}

#[test]
fn identities_allow_only_sysfs_characters() {
    assert!(valid_identity("0000:00:02.0"));
    assert!(valid_identity("i915"));
    assert!(valid_identity("nvidia-drm_x"));
    assert!(!valid_identity("a/b"));
    assert!(!valid_identity("a b"));
    assert!(!valid_identity("é"));
}

#[test]
fn identify_builds_the_gpu_or_names_the_fault() {
    assert_eq!(
        identify(Some("0000:00:02.0"), Some("i915"), Some("/dev/dri/renderD128"), 226, 128),
        Ok(device("0000:00:02.0", "i915", 226, 128))
    );
    assert_eq!(
        identify(Some("bad/id"), Some("i915"), Some("/dev/dri/renderD128"), 226, 128),
        Err(GpuError::InvalidIdentity)
    );
    assert_eq!(
        identify(Some("0000:00:02.0"), None, Some("/dev/dri/renderD128"), 226, 128),
        Err(GpuError::InvalidIdentity)
    );
    assert_eq!(
        identify(Some("0000:00:02.0"), Some("i915"), None, 226, 128),
        Err(GpuError::InvalidPath)
    );
}

#[test]
fn sysfs_path_names_major_and_minor() {
    assert_eq!(sysfs_device_path(226, 128), "/sys/dev/char/226:128/device");
    assert_eq!(sysfs_device_path(0, 7), "/sys/dev/char/0:7/device");
}

#[test]
fn devices_are_sorted_by_device_numbers_keeping_ties_in_order() {
    let a = device("a", "i915", 226, 129);
    let b = device("b", "i915", 226, 128);
    let c = device("c", "nvidia", 1, 5);
    let d = device("d", "nvidia", 226, 128);
    let sorted = sort_devices(vec![a.clone(), b.clone(), c.clone(), d.clone()]);
    assert_eq!(sorted, vec![c, b, d, a]);
    assert!(sort_devices(vec![]).is_empty());
}

#[test]
fn selection_errors_name_their_cause() {
    let intel = device("0000:00:02.0", "i915", 226, 128);
    let devices = vec![intel.clone()];
    assert_eq!(
        select(&devices, false, Some("0000:00:02.0")),
        Err(GpuError::SelectionNeedsAccess)
    );
    assert_eq!(select(&devices, true, Some("missing")), Err(GpuError::Unavailable));
    assert_eq!(compatible(true, Some(&intel)), Err(GpuError::Incompatible));
    assert_eq!(compatible(false, Some(&intel)), Ok(()));
    assert_eq!(resolve(&devices, true, true, None), Err(GpuError::NoCompatible));
    assert_eq!(resolve(&devices, true, false, None), Err(GpuError::Incompatible));
    assert_eq!(
        GpuError::Unavailable.message(),
        "Selected GPU is unavailable. Check host devices and sysfs access."
    );
    assert_eq!(GpuError::InvalidPath.message(), "Invalid GPU path");
}

#[test]
fn resolved_gpu_matches_the_session_driver() {
    let intel = device("0000:00:02.0", "i915", 226, 128);
    let nvidia = device("0000:01:00.0", "nvidia", 226, 129);
    let devices = vec![intel.clone(), nvidia.clone()];
    for (want_nvidia, id) in [(true, None), (false, None), (true, Some("0000:00:02.0")), (false, Some("0000:01:00.0"))] {
        let chosen = resolve(&devices, want_nvidia, true, id).unwrap().unwrap();
        assert_eq!(chosen.nvidia(), want_nvidia);
        assert!(compatible(want_nvidia, Some(&chosen)).is_ok());
    }
    assert_eq!(select(&devices, true, Some("0000:01:00.0")).unwrap().unwrap().id, "0000:01:00.0");
    assert_eq!(intel.duplicate(), intel);
}

#[test]
fn saving_settings_keeps_or_reselects_the_gpu() {
    let intel = device("0000:00:02.0", "i915", 226, 128);
    let nvidia = device("0000:01:00.0", "nvidia", 226, 129);
    let devices = vec![intel.clone(), nvidia.clone()];
    assert_eq!(
        settings_gpu(&devices, false, true, Some("0000:00:02.0"), true, Some(&intel)),
        Ok(Some(intel.clone()))
    );
    assert_eq!(
        settings_gpu(&[], false, true, Some("0000:00:02.0"), true, Some(&intel)),
        Ok(Some(intel.clone()))
    );
    assert_eq!(
        settings_gpu(&devices, false, true, Some("0000:01:00.0"), true, Some(&intel)),
        Err(GpuError::Unavailable)
    );
    assert_eq!(settings_gpu(&devices, true, true, None, false, None), Ok(Some(nvidia.clone())));
    assert_eq!(settings_gpu(&devices, false, true, None, false, None), Ok(Some(intel.clone())));
    assert_eq!(settings_gpu(&devices, true, false, None, true, Some(&nvidia)), Err(GpuError::Incompatible));
    assert_eq!(
        settings_gpu(&devices, false, false, Some("0000:00:02.0"), true, Some(&intel)),
        Err(GpuError::SelectionNeedsAccess)
    );
    assert_eq!(settings_gpu(&devices, false, false, None, false, None), Ok(None));
}
