use tobi::app::{App, AppAction, ProxyConfigField, Screen, SystemStatus};
use tobi::board::{BoardProbe, BoardSource, DetectedBoard};
use tobi::custom_image::{CustomImage, is_custom_placeholder};
use tobi::device::{DeviceError, InstallTarget, TargetKind, TargetPartition};
use tobi::installer::{InstallEvent, RunMode};
use tobi::manifest::{Catalog, DeviceEntry, ImageEntry, ImageFormat};

const SECOND: u64 = 1_000_000_000;

fn catalog() -> Catalog {
    Catalog {
        schema_version: 1,
        generated_at: None,
        devices: vec![],
        images: vec![ImageEntry {
            id: "image".to_string(),
            name: "Image".to_string(),
            description: "Test image".to_string(),
            devices: vec![],
            category: Some("Yocto".to_string()),
            recommended: true,
            version: "1".to_string(),
            release_date: "2026-05-07".to_string(),
            channel: "dev".to_string(),
            url: "mock://image".to_string(),
            format: ImageFormat::Raw,
            image_download_sha256: None,
            extract_sha256: None,
            image_download_size: Some(1),
            extract_size: Some(1),
            bmap_url: None,
            signature_url: None,
        }],
    }
}

fn board() -> DetectedBoard {
    DetectedBoard {
        id: Some("sk-am62p-lp".to_string()),
        name: "SK-AM62P-LP".to_string(),
        compatible: vec!["ti,am62pxx-evm".to_string()],
        source: BoardSource::Mock,
    }
}

fn targets() -> Vec<InstallTarget> {
    vec![InstallTarget {
        id: "target".to_string(),
        name: "Target".to_string(),
        path: "/dev/mmcblk0".to_string(),
        size_bytes: Some(1),
        kind: TargetKind::Emmc,
        removable: false,
        partitions: Vec::new(),
        warning: None,
    }]
}

fn status() -> SystemStatus {
    SystemStatus {
        time: "2026-05-07 12:00:00 UTC".to_string(),
        ip: "eth0 192.168.1.2".to_string(),
        ethernet: "connected (eth0 192.168.1.2)".to_string(),
    }
}

fn app_with(catalog: Catalog, board: DetectedBoard, run_mode: RunMode, allow_write: bool) -> App {
    App::new(
        catalog,
        board,
        targets(),
        run_mode,
        allow_write,
        "sample/catalog.json".to_string(),
        None,
        None,
        status(),
        0,
    )
}

fn new_app(run_mode: RunMode, allow_write: bool) -> App {
    app_with(catalog(), board(), run_mode, allow_write)
}

/// Walks a fresh installer to the completion screen of an install that
/// ended at `done`.
fn complete_install(app: &mut App, done: u64) {
    app.activate_selected(0, None);
    app.activate_selected(0, None);
    app.activate_selected(0, None);
    let action = app.activate_selected(0, None);
    assert!(matches!(action, AppAction::StartInstall(_)));
    assert_eq!(app.screen(), Screen::Installing);
    app.poll_install_events(vec![InstallEvent::Complete("done".to_string())], done);
}

#[test]
fn starts_on_welcome() {
    let app = new_app(RunMode::Mock, false);
    assert_eq!(app.screen(), Screen::Welcome);
}

#[test]
fn enter_advances_from_welcome_to_image_list() {
    let mut app = new_app(RunMode::Mock, false);
    app.activate_selected(0, None);
    assert_eq!(app.screen(), Screen::ImageSelect);
}

#[test]
fn enter_advances_from_image_to_target() {
    let mut app = new_app(RunMode::Mock, false);
    app.activate_selected(0, None);
    app.activate_selected(0, None);
    assert_eq!(app.screen(), Screen::TargetSelect);
}

#[test]
fn recommended_image_is_selected_first() {
    let app = new_app(RunMode::Mock, false);
    assert_eq!(app.selected_image().expect("image").name, "Image");
}

#[test]
fn custom_placeholder_is_added() {
    let app = new_app(RunMode::Mock, false);
    assert!(app.catalog().images.iter().any(is_custom_placeholder));
}

#[test]
fn board_filter_hides_images_for_other_boards() {
    let mut catalog = catalog();
    catalog.images[0].devices = vec!["sk-am62p-lp".to_string()];
    let mut other_image = catalog.images[0].clone();
    other_image.id = "other-board-image".to_string();
    other_image.name = "Other Board Image".to_string();
    other_image.devices = vec!["sk-am64b".to_string()];
    catalog.images.push(other_image);

    let app = app_with(catalog, board(), RunMode::Mock, false);

    assert!(app.catalog().images.iter().any(|image| image.id == "image"));
    assert!(
        !app.catalog()
            .images
            .iter()
            .any(|image| image.id == "other-board-image")
    );
}

#[test]
fn board_filter_uses_detected_id_before_generic_compatible_aliases() {
    let mut catalog = catalog();
    catalog.devices = vec![
        DeviceEntry {
            id: "sk-am64b".to_string(),
            name: "SK-AM64B".to_string(),
            compatible: vec!["ti,am642-sk".to_string(), "ti,am642".to_string()],
        },
        DeviceEntry {
            id: "tmds64evm".to_string(),
            name: "TMDS64EVM".to_string(),
            compatible: vec!["ti,am642-evm".to_string(), "ti,am642".to_string()],
        },
    ];
    catalog.images[0].devices = vec!["tmds64evm".to_string()];
    let mut sk_only = catalog.images[0].clone();
    sk_only.id = "sk-am64b-only".to_string();
    sk_only.name = "SK-AM64B Only".to_string();
    sk_only.devices = vec!["sk-am64b".to_string()];
    catalog.images.push(sk_only);

    let app = app_with(
        catalog,
        DetectedBoard {
            id: Some("tmds64evm".to_string()),
            name: "TMDS64EVM".to_string(),
            compatible: vec!["ti,am642-evm".to_string(), "ti,am642".to_string()],
            source: BoardSource::DeviceTree,
        },
        RunMode::Mock,
        false,
    );

    assert!(app.catalog().images.iter().any(|image| image.id == "image"));
    assert!(
        !app.catalog()
            .images
            .iter()
            .any(|image| image.id == "sk-am64b-only")
    );
}

#[test]
fn complete_screen_reboots_only_live_block_targets() {
    let mut live_app = new_app(RunMode::Live, true);
    complete_install(&mut live_app, 0);
    assert_eq!(live_app.screen(), Screen::Complete);
    assert!(live_app.can_reboot_after_complete());

    let mut mock_app = new_app(RunMode::Mock, false);
    complete_install(&mut mock_app, 0);
    assert_eq!(mock_app.screen(), Screen::Complete);
    assert!(!mock_app.can_reboot_after_complete());
}

#[test]
fn live_complete_screen_counts_down_to_reboot() {
    let mut app = new_app(RunMode::Live, true);
    let done = 5 * SECOND;
    complete_install(&mut app, done);
    assert!(matches!(app.complete_auto_reboot_seconds(done), Some(1..=10)));

    assert_eq!(app.complete_auto_reboot_seconds(done + 10 * SECOND), Some(0));
}

#[test]
fn countdown_rounds_partial_seconds_up() {
    let mut app = new_app(RunMode::Live, true);
    complete_install(&mut app, 0);
    assert_eq!(app.complete_auto_reboot_seconds(0), Some(10));
    assert_eq!(app.complete_auto_reboot_seconds(SECOND / 2), Some(10));
    assert_eq!(app.complete_auto_reboot_seconds(SECOND), Some(9));
    assert_eq!(app.complete_auto_reboot_seconds(9 * SECOND + 1), Some(1));
    let action = app.auto_reboot_if_due(9 * SECOND);
    assert!(matches!(action, AppAction::Idle));
    let action = app.auto_reboot_if_due(10 * SECOND);
    assert!(matches!(action, AppAction::Reboot));
}

#[test]
fn failed_reboot_shows_error() {
    let mut app = new_app(RunMode::Live, true);
    complete_install(&mut app, 0);
    assert!(matches!(app.reboot_or_start_over(), AppAction::Reboot));
    app.reboot_failed("permission denied");
    assert_eq!(app.screen(), Screen::Error);
    assert_eq!(
        app.status(),
        "Install succeeded, but TOBI could not reboot the board.\n\npermission denied\n\nYou can reboot manually or press R to start over."
    );
}

#[test]
fn mock_completion_starts_over_instead_of_rebooting() {
    let mut app = new_app(RunMode::Mock, false);
    complete_install(&mut app, 0);
    assert!(matches!(app.reboot_or_start_over(), AppAction::Idle));
    assert_eq!(app.screen(), Screen::Welcome);
    assert_eq!(app.status(), "Press Enter to continue.");
}

#[test]
fn next_then_previous_returns_to_the_same_image() {
    let mut catalog = catalog();
    let mut second = catalog.images[0].clone();
    second.id = "second".to_string();
    second.name = "Second".to_string();
    second.recommended = false;
    catalog.images.push(second);
    let mut app = app_with(catalog, board(), RunMode::Mock, false);
    app.activate_selected(0, None);
    let start = app.image_index();
    let count = app.catalog().images.len();
    assert_eq!(count, 3);
    app.next();
    assert_eq!(app.image_index(), (start + 1) % count);
    app.previous();
    assert_eq!(app.image_index(), start);
    app.previous();
    assert_eq!(app.image_index(), (start + count - 1) % count);
    app.next();
    assert_eq!(app.image_index(), start);
}

#[test]
fn placeholder_opens_the_custom_image_list() {
    let mut app = new_app(RunMode::Mock, false);
    app.activate_selected(0, None);
    app.next();
    assert!(is_custom_placeholder(app.selected_image().expect("image")));
    let action = app.activate_selected(0, None);
    assert!(matches!(action, AppAction::ScanCustomImages { report: false }));
    assert_eq!(app.screen(), Screen::CustomImageSelect);
    app.custom_images_scanned(
        Ok(vec![CustomImage {
            name: "demo.wic.xz".to_string(),
            path: "/media/usb/demo.wic.xz".to_string(),
            size_bytes: Some(42),
            format: ImageFormat::WicXz,
        }]),
        false,
    );
    assert_eq!(app.status(), "Choose a custom image from attached media.");
    app.activate_selected(0, None);
    assert_eq!(app.screen(), Screen::TargetSelect);
    let chosen = app.selected_image().expect("custom image");
    assert_eq!(chosen.url, "file:///media/usb/demo.wic.xz");
    app.back();
    assert_eq!(app.screen(), Screen::CustomImageSelect);
}

#[test]
fn rescans_report_what_they_found() {
    let mut app = new_app(RunMode::Mock, false);
    app.custom_images_scanned(Ok(Vec::new()), true);
    assert_eq!(app.status(), "No custom images found. Attach media and press R to rescan.");
    app.custom_images_scanned(Err("permission denied".to_string()), true);
    assert_eq!(app.status(), "Could not scan attached media: permission denied");
}

#[test]
fn refreshing_targets_keeps_the_cursor_in_range() {
    let mut app = new_app(RunMode::Mock, false);
    app.activate_selected(0, None);
    app.activate_selected(0, None);
    assert!(matches!(app.refresh_devices(), AppAction::ListDevices(_)));
    let partitioned = InstallTarget {
        id: "disk".to_string(),
        name: "Disk".to_string(),
        path: "/dev/sda".to_string(),
        size_bytes: Some(1024),
        kind: TargetKind::Usb,
        removable: true,
        partitions: vec![TargetPartition {
            name: "sda1".to_string(),
            path: "/dev/sda1".to_string(),
            size_bytes: Some(512),
        }],
        warning: None,
    };
    app.devices_listed(Ok(vec![partitioned]));
    assert_eq!(app.status(), "Storage targets refreshed.");
    assert_eq!(app.target_index(), 0);
    app.expand_target();
    assert!(app.is_target_expanded("disk"));
    assert_eq!(app.status(), "Showing partitions for Disk.");
    app.collapse_target();
    assert!(!app.is_target_expanded("disk"));
    assert_eq!(app.status(), "Hiding partitions for Disk.");
    app.devices_listed(Err(DeviceError::NoBlockDevices));
    assert_eq!(app.status(), "Could not refresh targets: no writable block devices were found");
    app.devices_listed(Ok(Vec::new()));
    assert_eq!(app.target_index(), 0);
    assert!(app.selected_target().is_none());
}

#[test]
fn installing_blocks_quitting_and_reports_progress() {
    let mut app = new_app(RunMode::Mock, false);
    app.activate_selected(0, None);
    app.activate_selected(0, None);
    app.activate_selected(0, None);
    assert_eq!(app.screen(), Screen::Confirm);
    assert!(app.can_quit());
    app.activate_selected(0, None);
    assert!(!app.can_quit());
    let progress = app.progress().expect("progress");
    assert_eq!(progress.phase, "Starting");
    assert_eq!(progress.total, Some(1));
    app.poll_install_events(
        vec![
            InstallEvent::Phase("Opening".to_string()),
            InstallEvent::Progress {
                phase: "Writing image".to_string(),
                current: 4096,
                total: Some(8192),
                source_current: Some(1024),
                source_total: None,
            },
        ],
        2 * SECOND,
    );
    assert_eq!(app.status(), "Writing image");
    assert_eq!(app.progress().expect("progress").current, 4096);
    assert_eq!(app.install_elapsed(2 * SECOND), Some(2 * SECOND));
    assert_eq!(app.install_rate_bytes_per_second(2 * SECOND), Some(2048));
    app.poll_install_events(vec![InstallEvent::Failed("disk full".to_string())], 3 * SECOND);
    assert_eq!(app.screen(), Screen::Error);
    assert_eq!(app.status(), "disk full");
    app.poll_install_events(vec![InstallEvent::Complete("late".to_string())], 4 * SECOND);
    assert_eq!(app.screen(), Screen::Error);
}

#[test]
fn short_memory_stops_the_install() {
    let mut catalog = catalog();
    catalog.images[0].format = ImageFormat::WicXz;
    let mut app = app_with(catalog, board(), RunMode::Mock, false);
    app.activate_selected(0, None);
    app.activate_selected(0, None);
    app.activate_selected(0, None);
    let action = app.activate_selected(0, Some(64 * 1024 * 1024));
    assert!(matches!(action, AppAction::Idle));
    assert_eq!(app.screen(), Screen::Error);
    assert!(app.status().starts_with("Not enough available RAM for the installer working set. Insufficient: 64 MiB available, 352 MiB working RAM needed."));
}

#[test]
fn proxy_entry_builds_the_catalog_request() {
    let mut app = new_app(RunMode::Mock, false);
    app.start_proxy_config();
    assert_eq!(app.screen(), Screen::ProxyConfig);
    assert_eq!(app.proxy_config_field(), ProxyConfigField::Time);
    app.next_proxy_field();
    for ch in " http://proxy:8080 ".chars() {
        app.proxy_push(ch);
    }
    app.proxy_push('\u{7}');
    assert_eq!(app.proxy_input(), " http://proxy:8080 ");
    app.proxy_backspace();
    assert_eq!(app.proxy_input(), " http://proxy:8080");
    match app.apply_proxy_config() {
        AppAction::LoadCatalog { source, proxy } => {
            assert_eq!(source, "sample/catalog.json");
            assert_eq!(proxy.as_deref(), Some("http://proxy:8080"));
        }
        other => panic!("unexpected action {other:?}"),
    }
    app.catalog_loaded(Err("timed out".to_string()), &BoardProbe::NotLinux);
    assert_eq!(app.screen(), Screen::ProxyConfig);
    assert!(app.warning().expect("warning").ends_with("\n\ntimed out"));
    app.catalog_loaded(Ok(catalog()), &BoardProbe::NotLinux);
    assert_eq!(app.screen(), Screen::ImageSelect);
    assert_eq!(app.status(), "Online OS catalog loaded.");
    assert!(app.warning().is_none());
}

#[test]
fn system_status_refreshes_once_a_second() {
    let mut app = new_app(RunMode::Mock, false);
    assert!(!app.refresh_system_status_if_due(SECOND / 2));
    assert!(app.refresh_system_status_if_due(SECOND));
    assert!(!app.refresh_system_status_if_due(SECOND + 1));
    let mut next = status();
    next.ip = "no IPv4".to_string();
    app.set_system_status(next);
    assert_eq!(app.system_status().ip, "no IPv4");
}

#[test]
fn warning_is_hidden_on_the_proxy_screen() {
    let mut app = App::new(
        catalog(),
        board(),
        targets(),
        RunMode::Mock,
        false,
        "https://example.com/catalog.json".to_string(),
        Some("http://proxy:3128".to_string()),
        Some("offline".to_string()),
        status(),
        0,
    );
    assert!(app.has_warning());
    assert_eq!(app.proxy_input(), "http://proxy:3128");
    app.start_proxy_config();
    assert!(!app.has_warning());
    app.back();
    assert_eq!(app.screen(), Screen::ImageSelect);
}

#[test]
fn backspace_deletes_the_character_just_typed() {
    let mut app = new_app(RunMode::Mock, false);
    app.start_proxy_config();
    app.next_proxy_field();
    app.set_proxy_input("http://proxy".to_string());
    app.proxy_push(':');
    assert_eq!(app.proxy_input(), "http://proxy:");
    app.proxy_backspace();
    assert_eq!(app.proxy_input(), "http://proxy");
    app.proxy_push('\u{7}');
    assert_eq!(app.proxy_input(), "http://proxy");
}

#[test]
fn back_returns_to_the_screen_enter_left() {
    let mut app = new_app(RunMode::Mock, false);
    let _ = app.activate_selected(0, None);
    assert_eq!(app.screen(), Screen::ImageSelect);
    app.back();
    assert_eq!(app.screen(), Screen::Welcome);
    assert_eq!(app.status(), "Press Enter to continue.");

    let _ = app.activate_selected(0, None);
    let _ = app.activate_selected(0, None);
    assert_eq!(app.screen(), Screen::TargetSelect);
    let _ = app.activate_selected(0, None);
    assert_eq!(app.screen(), Screen::Confirm);
    app.back();
    assert_eq!(app.screen(), Screen::TargetSelect);
    assert_eq!(app.status(), "Choose target media.");
    app.back();
    assert_eq!(app.screen(), Screen::ImageSelect);
    assert_eq!(app.status(), "Choose an operating system image.");
}

#[test]
fn lite_guard_does_not_block_xz_installs_on_a_short_estimate() {
    let mut catalog = catalog();
    catalog.images[0].format = ImageFormat::WicXz;
    let mut app = app_with(catalog, board(), RunMode::Mock, false);
    app.set_lite_xz_memory_guard(true);
    app.activate_selected(0, None);
    app.activate_selected(0, None);
    app.activate_selected(0, None);
    let action = app.activate_selected(0, Some(64 * 1024 * 1024));
    assert!(matches!(action, AppAction::StartInstall(_)));
    assert_eq!(app.screen(), Screen::Installing);
    assert!(app.progress().is_some());
    assert!(app.install_elapsed(0).is_some());
}

#[test]
fn moving_down_a_whole_list_comes_back() {
    let mut app = new_app(RunMode::Mock, false);
    app.activate_selected(0, None);
    let start = app.image_index();
    let n = app.catalog().images.len();
    assert!(app.catalog().images.iter().any(is_custom_placeholder));
    for _ in 0..n {
        app.next();
    }
    assert_eq!(app.image_index(), start);
}

#[test]
fn proxy_screen_asks_for_utc_time_first() {
    let mut app = new_app(RunMode::Mock, false);
    app.start_proxy_config();
    assert_eq!(app.proxy_config_field(), ProxyConfigField::Time);
    for ch in "2026-05-07 1".chars() {
        app.proxy_push(ch);
    }
    assert_eq!(app.proxy_time_input(), "2026-05-07 1");
    assert_eq!(app.proxy_input(), "");
    assert!(matches!(app.submit_proxy_config(), AppAction::Idle));
    assert_eq!(app.status(), "Enter UTC time as YYYY-MM-DD HH:MM:SS.");
    assert_eq!(app.proxy_config_field(), ProxyConfigField::Time);
    app.set_proxy_time_input(" 2026-05-07 12:30:00 ".to_string());
    match app.submit_proxy_config() {
        AppAction::SetClock { time } => assert_eq!(time, "2026-05-07 12:30:00"),
        other => panic!("unexpected action {other:?}"),
    }
    assert_eq!(app.proxy_config_field(), ProxyConfigField::Proxy);
    app.clock_set("2026-05-07 12:30:00", Ok(()));
    assert_eq!(app.status(), "UTC time set to 2026-05-07 12:30:00.");
    app.clock_set("2026-05-07 12:30:00", Err("not permitted".to_string()));
    assert_eq!(app.status(), "Could not set UTC time: not permitted");
    app.set_proxy_input("http://webproxy:80".to_string());
    assert!(matches!(app.submit_proxy_config(), AppAction::LoadCatalog { .. }));
    app.previous_proxy_field();
    assert_eq!(app.proxy_config_field(), ProxyConfigField::Time);
    app.set_proxy_time_input(String::new());
    assert!(matches!(app.submit_proxy_config(), AppAction::Idle));
    assert_eq!(app.proxy_config_field(), ProxyConfigField::Proxy);
}
