use tobi::manifest::{ImageEntry, ImageFormat};
use tobi::memory::{MIB, check_image_memory, ensure_image_memory, lite_env_enabled, parse_mem_available};

fn large_xz() -> ImageEntry {
    ImageEntry {
        id: "large".to_string(),
        name: "large".to_string(),
        description: "large".to_string(),
        devices: Vec::new(),
        category: Some("Test".to_string()),
        recommended: false,
        version: "local".to_string(),
        release_date: "local".to_string(),
        channel: "test".to_string(),
        url: "file:///image.wic.xz".to_string(),
        format: ImageFormat::WicXz,
        image_download_sha256: None,
        extract_sha256: None,
        image_download_size: Some(16 * 1024 * MIB),
        extract_size: Some(64 * 1024 * MIB),
        bmap_url: None,
        signature_url: None,
    }
}

#[test]
fn xz_images_require_working_ram_but_not_full_image_size() {
    let image = large_xz();

    let check = check_image_memory(&image, false, None);
    assert!(check.required_bytes < image.image_download_size.unwrap());
    assert!(!check.guard_relaxed);
}

#[test]
fn lite_mode_relaxes_xz_guard_for_hardware_testing() {
    let image = large_xz();

    let check = check_image_memory(&image, true, None);
    assert_eq!(check.required_bytes, 160 * MIB);
    assert!(check.guard_relaxed);
    assert!(!check.blocks_install());
}

#[test]
fn memory_summaries_read_well() {
    let image = large_xz();
    let short = check_image_memory(&image, false, Some(100 * MIB));
    assert!(short.blocks_install());
    assert_eq!(short.summary(), "Insufficient: 100 MiB available, 352 MiB working RAM needed");
    assert_eq!(
        ensure_image_memory(&image, false, Some(100 * MIB)),
        Err("not enough available RAM for the installer working set: need at least 352 MiB, have 100 MiB".to_string())
    );
    let ok = check_image_memory(&image, false, Some(2048 * MIB));
    assert_eq!(ok.summary(), "OK: 2.0 GiB available, 352 MiB working RAM needed");
    let relaxed = check_image_memory(&image, true, Some(100 * MIB));
    assert!(!relaxed.blocks_install());
    assert_eq!(
        relaxed.summary(),
        "TOBI-lite test: 100 MiB available, xz guard relaxed to 160 MiB working RAM and not enforced"
    );
    assert_eq!(ensure_image_memory(&image, true, Some(100 * MIB)), Ok(()));
}

#[test]
fn meminfo_and_lite_setting_are_read() {
    assert_eq!(parse_mem_available("MemTotal: 100 kB\nMemAvailable:   2048 kB\n"), Some(2048 * 1024));
    assert_eq!(parse_mem_available("MemTotal: 100 kB\n"), None);
    assert!(lite_env_enabled(Some("yes")));
    assert!(!lite_env_enabled(Some("on")));
    assert!(!lite_env_enabled(None));
}
