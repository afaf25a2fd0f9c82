use tobi::device::{InstallTarget, TargetKind};
use tobi::installer::{
    DecoderKind, InstallEvent, InstallRequest, RunMode, decoder_for_format, interrupted_phase,
    is_remote_image, is_retryable_download_error, is_retryable_http_read_error, live_install_attempts,
    mock_install_events, opening_phase, parse_content_range, retry_event, verify_download_size, verify_hash,
    verify_written_image, written_events,
};
use tobi::manifest::{ImageEntry, ImageFormat};

fn request(url: &str, allow_write: bool) -> InstallRequest {
    InstallRequest {
        image: ImageEntry {
            id: "test".to_string(),
            name: "test".to_string(),
            description: "test".to_string(),
            devices: vec![],
            category: Some("Test".to_string()),
            recommended: false,
            version: "0".to_string(),
            release_date: "2026-05-07".to_string(),
            channel: "dev".to_string(),
            url: url.to_string(),
            format: ImageFormat::Raw,
            image_download_sha256: None,
            extract_sha256: None,
            image_download_size: None,
            extract_size: None,
            bmap_url: None,
            signature_url: None,
        },
        target: InstallTarget {
            id: "target".to_string(),
            name: "target".to_string(),
            path: "/tmp/target".to_string(),
            size_bytes: None,
            kind: TargetKind::File,
            removable: false,
            partitions: Vec::new(),
            warning: None,
        },
        run_mode: RunMode::Live,
        allow_write,
        proxy_url: None,
        reboot_after_install: false,
    }
}

#[test]
fn parse_content_range_extracts_resume_start_and_total() {
    assert_eq!(
        parse_content_range("bytes 123-456/789"),
        Some((123, Some(789)))
    );
    assert_eq!(parse_content_range("bytes 123-456/*"), Some((123, None)));
    assert_eq!(parse_content_range("octets 123-456/789"), None);
}

#[test]
fn content_ranges_need_a_start() {
    assert_eq!(parse_content_range("bytes 123/789"), None);
    assert_eq!(parse_content_range("bytes x-4/9"), None);
    assert_eq!(parse_content_range("bytes 1-4/nine"), None);
    assert_eq!(parse_content_range("bytes +7-9/10"), Some((7, Some(10))));
}

#[test]
fn live_mode_requires_allow_write() {
    let error = live_install_attempts(&request("file:///tmp/nonexistent", false), false, None)
        .expect_err("should refuse");
    assert!(error.contains("--allow-write"));
}

#[test]
fn live_installs_get_attempts_by_source() {
    assert_eq!(live_install_attempts(&request("file:///tmp/x", true), false, None), Ok(1));
    assert_eq!(live_install_attempts(&request("https://example.com/x.img", true), false, None), Ok(3));
    assert_eq!(
        live_install_attempts(&request("mock://image", true), false, None),
        Err("mock images cannot be written in live mode".to_string())
    );
    assert!(is_remote_image(&request("http://example.com/x", true).image));
    assert!(!is_remote_image(&request("file:///x", true).image));
}

#[test]
fn hashes_compare_without_case() {
    assert_eq!(verify_hash("extracted image", None, "abc"), Ok(()));
    assert_eq!(verify_hash("extracted image", Some("ABC"), "abc"), Ok(()));
    assert_eq!(
        verify_hash("extracted image", Some("abd"), "abc"),
        Err("extracted image hash mismatch: expected abd, got abc".to_string())
    );
    assert_eq!(verify_download_size(Some(8), 8), Ok(()));
    assert_eq!(
        verify_download_size(Some(8), 7),
        Err("downloaded image size mismatch: expected 8 bytes, received 7 bytes".to_string())
    );
}

#[test]
fn written_images_are_checked() {
    let mut r = request("file:///x", true);
    r.image.image_download_size = Some(8);
    r.image.image_download_sha256 = Some("AA".to_string());
    r.image.extract_sha256 = Some("bb".to_string());
    assert_eq!(verify_written_image(&r.image, 8, "aa", "bb"), Ok(()));
    assert!(verify_written_image(&r.image, 7, "aa", "bb").unwrap_err().starts_with("downloaded image size mismatch"));
    assert!(verify_written_image(&r.image, 8, "ab", "bb").unwrap_err().starts_with("downloaded image hash mismatch"));
    assert!(verify_written_image(&r.image, 8, "aa", "cc").unwrap_err().starts_with("extracted image hash mismatch"));
    r.image.format = ImageFormat::WicXz;
    assert_eq!(verify_written_image(&r.image, 1, "zz", "bb"), Ok(()));
}

#[test]
fn interrupted_transfers_are_retried() {
    assert!(is_retryable_download_error(&vec![
        "failed while reading image stream".to_string(),
        "connection reset".to_string(),
    ]));
    assert!(!is_retryable_download_error(&vec!["permission denied".to_string()]));
    assert!(is_retryable_http_read_error("IncompleteBody: body ended"));
    assert!(!is_retryable_http_read_error("404"));
}

#[test]
fn mock_install_reports_progress_then_completion() {
    let mut r = request("mock://image", false);
    r.image.extract_size = Some(1000);
    let events = mock_install_events(&r);
    assert_eq!(events.len(), 104);
    assert!(matches!(&events[1], InstallEvent::Phase(p) if p == "Selected test for /tmp/target"));
    assert!(matches!(&events[52], InstallEvent::Progress { current: 500, total: Some(1000), .. }));
    assert!(matches!(&events[103], InstallEvent::Complete(m) if m == "Mock install complete. target would now reboot into test."));
    r.image.extract_size = None;
    let events = mock_install_events(&r);
    assert!(matches!(&events[102], InstallEvent::Progress { current: 100, total: Some(100), .. }));
}

#[test]
fn install_phases_read_well() {
    let r = request("https://example.com/x.img", true);
    assert!(matches!(opening_phase(2, 3), InstallEvent::Phase(p) if p == "Opening source image (attempt 2/3)"));
    assert!(matches!(opening_phase(1, 1), InstallEvent::Phase(p) if p == "Opening source image"));
    assert!(matches!(retry_event(&r, 2, 3), InstallEvent::Progress { phase, current: 0, .. } if phase == "Retrying download from the beginning (2/3)"));
    assert!(matches!(interrupted_phase("timed out"), InstallEvent::Phase(p) if p == "Download interrupted: timed out. Retrying from byte 0."));
    let done = written_events(&r, 8);
    assert!(matches!(&done[0], InstallEvent::Complete(m) if m == "Install complete. Wrote 8 bytes to /tmp/target."));
    let mut rebooting = r.clone();
    rebooting.reboot_after_install = true;
    let done = written_events(&rebooting, 8);
    assert_eq!(done.len(), 2);
    assert!(matches!(&done[1], InstallEvent::Phase(p) if p == "Rebooting now into the installed image."));
    assert_eq!(decoder_for_format(ImageFormat::ImgZst), DecoderKind::Zstd);
    assert_eq!(decoder_for_format(ImageFormat::Raw), DecoderKind::Plain);
}

#[test]
fn local_images_drop_the_file_scheme() {
    assert_eq!(tobi::installer::local_image_path("file:///media/usb/os.wic.xz"), "/media/usb/os.wic.xz");
    assert_eq!(tobi::installer::local_image_path("/media/usb/os.img"), "/media/usb/os.img");
    assert_eq!(tobi::installer::local_image_path("file://"), "");
}

#[test]
fn blank_proxies_are_not_used() {
    assert_eq!(tobi::installer::effective_proxy(None), None);
    assert_eq!(tobi::installer::effective_proxy(Some("  ")), None);
    assert_eq!(
        tobi::installer::effective_proxy(Some("http://proxy:8080")),
        Some("http://proxy:8080".to_string())
    );
}

#[test]
fn only_interrupted_attempts_with_attempts_left_are_retried() {
    let interrupted = vec!["failed while reading image stream".to_string(), "connection reset".to_string()];
    assert!(tobi::installer::should_retry(1, 3, &interrupted));
    assert!(!tobi::installer::should_retry(3, 3, &interrupted));
    assert!(!tobi::installer::should_retry(1, 3, &vec!["extracted image hash mismatch".to_string()]));
}
