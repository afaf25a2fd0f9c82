use tobi::app::{App, AppAction, Screen, SystemStatus};
use tobi::board::{BoardSource, DetectedBoard};
use tobi::console::{
    KeyInput, Reply, handle_key, serial_format_bytes, serial_format_progress, serial_handle_command,
    serial_input_display, serial_render, serial_select_index,
};
use tobi::device::{InstallTarget, TargetKind};
use tobi::installer::RunMode;
use tobi::manifest::{Catalog, ImageEntry, ImageFormat};

fn image(id: &str, name: &str) -> ImageEntry {
    ImageEntry {
        id: id.to_string(),
        name: name.to_string(),
        description: "Test image".to_string(),
        devices: vec![],
        category: Some("Yocto".to_string()),
        recommended: false,
        version: "1".to_string(),
        release_date: "2026-05-07".to_string(),
        channel: "dev".to_string(),
        url: "mock://image".to_string(),
        format: ImageFormat::Raw,
        image_download_sha256: None,
        extract_sha256: None,
        image_download_size: Some(1),
        extract_size: Some(1),
        bmap_url: None,
        signature_url: None,
    }
}

fn app(warning: Option<String>) -> App {
    App::new(
        Catalog { schema_version: 1, generated_at: None, devices: vec![], images: vec![image("a", "Alpha"), image("b", "Beta")] },
        DetectedBoard { id: None, name: "Board".to_string(), compatible: vec![], source: BoardSource::Mock },
        vec![InstallTarget {
            id: "t".to_string(),
            name: "Target".to_string(),
            path: "/dev/mmcblk0".to_string(),
            size_bytes: Some(2048),
            kind: TargetKind::Emmc,
            removable: false,
            partitions: vec![],
            warning: None,
        }],
        RunMode::Mock,
        false,
        "https://example.com/catalog.json".to_string(),
        None,
        warning,
        SystemStatus { time: "t".to_string(), ip: "i".to_string(), ethernet: "e".to_string() },
        0,
    )
}

#[test]
fn typed_numbers_pick_list_entries() {
    assert_eq!(serial_select_index("2", 3), Some(1));
    assert_eq!(serial_select_index("0", 3), None);
    assert_eq!(serial_select_index("4", 3), None);
    assert_eq!(serial_select_index("x", 3), None);
    let mut app = app(None);
    assert!(matches!(serial_handle_command(&mut app, "", 0, None), Reply::Continue(AppAction::Idle)));
    assert_eq!(app.screen(), Screen::ImageSelect);
    assert!(matches!(serial_handle_command(&mut app, " 2 ", 0, None), Reply::Continue(AppAction::Idle)));
    assert_eq!(app.screen(), Screen::TargetSelect);
    assert_eq!(app.selected_image().expect("image").name, "Beta");
    assert!(matches!(serial_handle_command(&mut app, "B", 0, None), Reply::Continue(AppAction::Idle)));
    assert_eq!(app.screen(), Screen::ImageSelect);
    assert!(matches!(serial_handle_command(&mut app, "QUIT", 0, None), Reply::Quit));
}

#[test]
fn serial_confirm_starts_the_install() {
    let mut app = app(None);
    serial_handle_command(&mut app, "enter", 0, None);
    serial_handle_command(&mut app, "1", 0, None);
    serial_handle_command(&mut app, "1", 0, None);
    assert_eq!(app.screen(), Screen::Confirm);
    let text = serial_render(&app);
    assert!(text.contains("Image: Alpha\r\nTarget: Target (/dev/mmcblk0)\r\n"));
    assert!(matches!(serial_handle_command(&mut app, "yes", 0, None), Reply::Continue(AppAction::StartInstall(_))));
    assert_eq!(app.screen(), Screen::Installing);
    assert!(matches!(serial_handle_command(&mut app, "q", 0, None), Reply::Continue(AppAction::Idle)));
}

#[test]
fn warnings_come_first() {
    let mut app = app(Some("offline".to_string()));
    let text = serial_render(&app);
    assert_eq!(
        text,
        "\r\n\r\n=== TOBI Welcome ===\r\n\r\nWARNING:\r\noffline\r\n\r\nPress Enter to continue, P to configure proxy, or Q to quit.\r\n"
    );
    serial_handle_command(&mut app, "p", 0, None);
    assert_eq!(app.screen(), Screen::ProxyConfig);
    assert!(matches!(serial_handle_command(&mut app, "proxy  http://p:1 ", 0, None), Reply::Continue(AppAction::Idle)));
    match serial_handle_command(&mut app, "proxy  http://p:1 ", 0, None) {
        Reply::Continue(AppAction::LoadCatalog { proxy, .. }) => assert_eq!(proxy.as_deref(), Some("http://p:1")),
        _ => panic!("expected a catalog load"),
    }
    assert!(matches!(serial_handle_command(&mut app, "cancel", 0, None), Reply::Continue(AppAction::Idle)));
    assert_eq!(app.screen(), Screen::ImageSelect);
}

#[test]
fn serial_lists_number_entries() {
    let mut app = app(None);
    serial_handle_command(&mut app, "", 0, None);
    let text = serial_render(&app);
    assert!(text.starts_with("\r\n\r\n=== TOBI ImageSelect ===\r\nStatus: Choose an operating system image.\r\n\r\nImages:\r\n"));
    assert!(text.contains(">  1. Alpha\r\n   2. Beta\r\n"));
    serial_handle_command(&mut app, "1", 0, None);
    let text = serial_render(&app);
    assert!(text.contains(">  1. Target  /dev/mmcblk0  2.0 KiB\r\n"));
}

#[test]
fn serial_formats() {
    assert_eq!(serial_format_bytes(None), "unknown");
    assert_eq!(serial_format_bytes(Some(1023)), "1023 B");
    assert_eq!(serial_format_progress(1536, Some(4096)), "1.5 KiB / 4.0 KiB");
    assert_eq!(serial_input_display("", 3), "   ");
    assert_eq!(serial_input_display("ab", 4), "ab  ");
    assert_eq!(serial_input_display("é", 3), "é ");
    assert_eq!(serial_input_display("abcde", 4), "abcde");
}

#[test]
fn keys_drive_the_screens() {
    let mut app = app(None);
    assert!(matches!(handle_key(&mut app, KeyInput::Enter, false, 0, None), Reply::Continue(AppAction::Idle)));
    assert_eq!(app.screen(), Screen::ImageSelect);
    handle_key(&mut app, KeyInput::Char('j'), false, 0, None);
    assert_eq!(app.image_index(), 1);
    handle_key(&mut app, KeyInput::Up, false, 0, None);
    assert_eq!(app.image_index(), 0);
    assert!(matches!(handle_key(&mut app, KeyInput::Char('r'), false, 0, None), Reply::Continue(AppAction::ListDevices(_))));
    handle_key(&mut app, KeyInput::Backspace, false, 0, None);
    assert_eq!(app.screen(), Screen::Welcome);
    assert!(matches!(handle_key(&mut app, KeyInput::Char('c'), true, 0, None), Reply::Quit));
    assert!(matches!(handle_key(&mut app, KeyInput::Esc, false, 0, None), Reply::Quit));
}

#[test]
fn keys_edit_the_proxy() {
    let mut app = app(Some("offline".to_string()));
    handle_key(&mut app, KeyInput::Char('P'), false, 0, None);
    assert_eq!(app.screen(), Screen::ProxyConfig);
    handle_key(&mut app, KeyInput::Tab, false, 0, None);
    handle_key(&mut app, KeyInput::Char('x'), false, 0, None);
    handle_key(&mut app, KeyInput::Char('y'), false, 0, None);
    handle_key(&mut app, KeyInput::Backspace, false, 0, None);
    assert_eq!(app.proxy_input(), "x");
    match handle_key(&mut app, KeyInput::Enter, false, 0, None) {
        Reply::Continue(AppAction::LoadCatalog { proxy, .. }) => assert_eq!(proxy.as_deref(), Some("x")),
        _ => panic!("expected a catalog load"),
    }
    handle_key(&mut app, KeyInput::Esc, false, 0, None);
    assert_eq!(app.screen(), Screen::ImageSelect);
}

#[test]
fn serial_time_command_sets_the_clock() {
    let mut app = app(Some("offline".to_string()));
    serial_handle_command(&mut app, "p", 0, None);
    let text = serial_render(&app);
    assert!(text.contains("\r\nUTC time: [                   ]\r\nProxy: ["));
    assert!(text.ends_with("\r\nType 'time YYYY-MM-DD HH:MM:SS', then 'proxy http://host:port'. Press Enter to submit the active field, N/P to switch fields, or B to cancel.\r\n"));
    match serial_handle_command(&mut app, "time 2026-05-07 12:00:00", 0, None) {
        Reply::Continue(AppAction::SetClock { time }) => assert_eq!(time, "2026-05-07 12:00:00"),
        _ => panic!("expected the clock to be set"),
    }
    assert!(matches!(serial_handle_command(&mut app, "n", 0, None), Reply::Continue(AppAction::Idle)));
    assert!(matches!(serial_handle_command(&mut app, "bad time", 0, None), Reply::Continue(AppAction::Idle)));
    assert_eq!(app.status(), "Enter UTC time as YYYY-MM-DD HH:MM:SS.");
}
