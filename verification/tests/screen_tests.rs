use tobi::app::{App, SystemStatus};
use tobi::board::{BoardSource, DetectedBoard};
use tobi::device::{InstallTarget, TargetKind, TargetPartition};
use tobi::installer::{InstallEvent, RunMode};
use tobi::manifest::{Catalog, ImageEntry, ImageFormat};
use tobi::runner::{Obstacle, ObstacleKind};
use tobi::screen::{
    Tone, activity_symbol, format_duration, format_progress_bytes, install_panel, runner_game_grid,
    target_details, target_list_items, welcome_layout,
};

#[test]
fn runner_jump_keeps_ground_and_obstacles_fixed() {
    let obstacles = [
        Obstacle::new(18, ObstacleKind::Cactus),
        Obstacle::new(34, ObstacleKind::Rock),
        Obstacle::new(52, ObstacleKind::Cactus),
    ];
    let grounded = runner_game_grid(80, 6, 0, &obstacles);
    let jumping = runner_game_grid(80, 6, 2, &obstacles);

    let expected_ground = "_".repeat(80);
    assert_eq!(
        grounded.last().map(String::as_str),
        Some(expected_ground.as_str())
    );
    assert_eq!(
        jumping.last().map(String::as_str),
        Some(expected_ground.as_str())
    );

    for (row_index, (grounded_row, jumping_row)) in
        grounded.iter().zip(jumping.iter()).enumerate()
    {
        for (column_index, (grounded_cell, jumping_cell)) in
            grounded_row.chars().zip(jumping_row.chars()).enumerate()
        {
            if (5..=7).contains(&column_index) {
                continue;
            }

            assert_eq!(
                grounded_cell, jumping_cell,
                "static scene moved at row {row_index}, column {column_index}"
            );
        }
    }
}

#[test]
fn runner_and_obstacles_are_drawn() {
    let grid = runner_game_grid(30, 6, 0, &[Obstacle::new(20, ObstacleKind::Rock)]);
    assert_eq!(grid.len(), 6);
    assert_eq!(grid[2], format!("{:30}", "      o"));
    assert_eq!(&grid[3][5..8], "/|\\");
    assert_eq!(&grid[3][20..24], "/^^\\");
    assert_eq!(&grid[4][20..24], "\\__/");
    let jumped = runner_game_grid(30, 6, 2, &[]);
    assert_eq!(&jumped[0][5..8], " o ");
}

#[test]
fn small_formats_read_well() {
    assert_eq!(format_duration(125 * 1_000_000_000), "02:05");
    assert_eq!(format_duration(6000 * 1_000_000_000), "100:00");
    assert_eq!(activity_symbol(5), "/");
    assert_eq!(activity_symbol(7), "\\");
    assert_eq!(format_progress_bytes(1024, Some(2048)), "1.0 KiB / 2.0 KiB");
    assert_eq!(format_progress_bytes(10, None), "10 B");
    assert_eq!(welcome_layout(86, 19), (true, false));
    assert_eq!(welcome_layout(85, 15), (false, true));
}

fn installing_app() -> App {
    let catalog = Catalog {
        schema_version: 1,
        generated_at: None,
        devices: vec![],
        images: vec![ImageEntry {
            id: "image".to_string(),
            name: "Image".to_string(),
            description: "Test image".to_string(),
            devices: vec![],
            category: Some("Yocto".to_string()),
            recommended: true,
            version: "1".to_string(),
            release_date: "2026-05-07".to_string(),
            channel: "dev".to_string(),
            url: "mock://image".to_string(),
            format: ImageFormat::Raw,
            image_download_sha256: None,
            extract_sha256: None,
            image_download_size: Some(1),
            extract_size: Some(3),
            bmap_url: None,
            signature_url: None,
        }],
    };
    let mut app = App::new(
        catalog,
        DetectedBoard { id: None, name: "Board".to_string(), compatible: vec![], source: BoardSource::Mock },
        vec![InstallTarget {
            id: "t".to_string(),
            name: "T".to_string(),
            path: "/dev/mmcblk0".to_string(),
            size_bytes: Some(1),
            kind: TargetKind::Emmc,
            removable: false,
            partitions: vec![TargetPartition { name: "p1".to_string(), path: "/dev/mmcblk0p1".to_string(), size_bytes: Some(2) }],
            warning: None,
        }],
        RunMode::Mock,
        false,
        "sample/catalog.json".to_string(),
        None,
        None,
        SystemStatus { time: "t".to_string(), ip: "i".to_string(), ethernet: "e".to_string() },
        0,
    );
    for _ in 0..4 {
        app.activate_selected(0, None);
    }
    app
}

#[test]
fn install_panel_shows_progress() {
    let mut app = installing_app();
    app.poll_install_events(
        vec![InstallEvent::Progress {
            phase: "Writing image".to_string(),
            current: 1,
            total: Some(3),
            source_current: None,
            source_total: None,
        }],
        0,
    );
    let panel = install_panel(&app, 1_000_000_000);
    assert_eq!(panel.gauge_title, " Writing image ");
    assert_eq!(panel.gauge_label, "/  1 B / 3 B  (33.33%)");
    assert_eq!(panel.ratio, (1, 3));
    assert!(panel.show_game);
    assert_eq!(panel.details[0].pieces[0].text, "Installing");
    assert_eq!(panel.details[0].pieces[0].tone, Tone::Heading);
    assert_eq!(panel.details[2].pieces[1].text, "Image");
    assert_eq!(panel.details[5].pieces[4].text, "00:01");
    assert_eq!(panel.details[5].pieces[7].text, "1 B/s");
}

#[test]
fn target_lists_show_partitions_when_expanded() {
    let mut app = installing_app();
    app.start_over();
    app.activate_selected(0, None);
    app.activate_selected(0, None);
    let (rows, selected) = target_list_items(&app);
    assert_eq!(rows.len(), 1);
    assert_eq!(selected, Some(0));
    assert_eq!(rows[0].lines[0].pieces[0].text, "[+] ");
    app.expand_target();
    let (rows, _) = target_list_items(&app);
    assert_eq!(rows.len(), 2);
    assert_eq!(rows[1].lines[1].pieces[0].text, "    partition  2 B  /dev/mmcblk0p1");
    let details = target_details(&app, app.selected_target().expect("target"));
    assert_eq!(details[6].pieces[1].text, "1 shown");
    assert_eq!(details.last().expect("line").pieces[0].text, "p1  2 B  /dev/mmcblk0p1");
}

#[test]
fn image_list_shows_upper_case_category_bars() {
    let app = installing_app();
    let (rows, _) = tobi::screen::image_list_items(&app);
    let bars = rows
        .iter()
        .filter(|row| row.category)
        .map(|row| row.lines[0].pieces[0].text.clone())
        .collect::<Vec<_>>();
    assert!(bars.contains(&" YOCTO ".to_string()));
    assert!(bars.contains(&" CUSTOM ".to_string()));
    assert!(rows.iter().filter(|row| row.category).all(|row| row.lines[0].pieces[0].tone == Tone::Category));
}

#[test]
fn proxy_screen_shows_the_time_field_first() {
    let mut app = installing_app();
    app.start_over();
    app.start_proxy_config();
    let lines = tobi::screen::proxy_lines(&app);
    assert_eq!(lines[0].pieces[0].text, "Set Time and Configure Proxy");
    let time: Vec<&str> = lines[2].pieces.iter().map(|p| p.text.as_str()).collect();
    assert_eq!(time, vec!["> ", "UTC time: ", "[", "                   ", "]"]);
    assert_eq!(lines[2].pieces[3].tone, Tone::Field);
    assert_eq!(lines[5].pieces[0].text, "  ");
    assert_eq!(lines[5].pieces[3].tone, Tone::IdleField);
    assert_eq!(lines[3].pieces[0].text, "Format: YYYY-MM-DD HH:MM:SS");
}
