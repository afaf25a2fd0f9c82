use tobi::board::{BoardProbe, BoardSource, detect_board, parse_compatible, parse_model};
use tobi::installer::RunMode;
use tobi::manifest::fallback_catalog;

#[test]
fn device_tree_strings_are_split_at_zero_bytes() {
    let parsed = parse_compatible(b"ti,am62p5-sk\0ti,am62p5\0").expect("compatible");
    assert_eq!(parsed, vec!["ti,am62p5-sk".to_string(), "ti,am62p5".to_string()]);
    assert_eq!(parse_model(b"Texas Instruments AM62P5 SK\0").as_deref(), Some("Texas Instruments AM62P5 SK"));
}

#[test]
fn live_board_is_matched_through_the_catalog() {
    let catalog = fallback_catalog();
    let probe = BoardProbe::DeviceTree {
        compatible: Some(b"ti,am62p5-sk\0ti,am62p5\0".to_vec()),
        model: Some(b"Texas Instruments AM62P5 SK\0".to_vec()),
    };
    let board = detect_board(RunMode::Live, &catalog, &probe);
    assert_eq!(board.id.as_deref(), Some("sk-am62p-lp"));
    assert_eq!(board.name, "SK-AM62P-LP");
    assert_eq!(board.source, BoardSource::DeviceTree);

    let unknown = BoardProbe::DeviceTree {
        compatible: Some(b"acme,widget\0".to_vec()),
        model: Some(b"Widget\0".to_vec()),
    };
    let board = detect_board(RunMode::Live, &catalog, &unknown);
    assert_eq!(board.id, None);
    assert_eq!(board.name, "Widget");
    assert_eq!(board.source, BoardSource::Unknown);

    let board = detect_board(RunMode::Live, &catalog, &BoardProbe::NotLinux);
    assert_eq!(board.name, "Unknown board");
}

#[test]
fn mock_board_prefers_the_am62p() {
    let board = detect_board(RunMode::Mock, &fallback_catalog(), &BoardProbe::NotLinux);
    assert_eq!(board.id.as_deref(), Some("sk-am62p-lp"));
    assert_eq!(board.source, BoardSource::Mock);
}

#[test]
fn mock_board_can_be_chosen_by_id() {
    let catalog = fallback_catalog();
    let probe = BoardProbe::Simulated { requested: Some("sk-am64b".to_string()) };
    let board = detect_board(RunMode::Mock, &catalog, &probe);
    assert_eq!(board.id.as_deref(), Some("sk-am64b"));
    assert_eq!(board.name, "SK-AM64B");
    assert_eq!(board.source, BoardSource::Mock);

    let unknown = BoardProbe::Simulated { requested: Some("no-such-board".to_string()) };
    let board = detect_board(RunMode::Mock, &catalog, &unknown);
    assert_eq!(board.id.as_deref(), Some("sk-am62p-lp"));

    let board = detect_board(RunMode::Live, &catalog, &probe);
    assert_eq!(board.name, "Unknown board");
    assert_eq!(board.source, BoardSource::Unknown);
}
