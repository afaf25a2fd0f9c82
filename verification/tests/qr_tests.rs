use tobi::qr::{fit_qr_lines, render_qr};

#[test]
fn renders_short_url_when_it_fits() {
    let lines = render_qr("https://www.ti.com/sitara", 80, 40).expect("qr code");
    assert!(!lines.is_empty());
    assert!(lines.iter().all(|line| line.chars().count() <= 80));
}

#[test]
fn returns_none_when_viewport_is_too_small() {
    assert!(render_qr("https://www.ti.com/sitara", 8, 4).is_none());
}

#[test]
fn fitting_drops_blank_lines_and_checks_size() {
    let lines = vec!["  ".to_string(), "ab".to_string(), String::new(), "abcd".to_string()];
    assert_eq!(fit_qr_lines(lines.clone(), 4, 2), Some(vec!["ab".to_string(), "abcd".to_string()]));
    assert_eq!(fit_qr_lines(lines.clone(), 3, 2), None);
    assert_eq!(fit_qr_lines(lines, 4, 1), None);
    assert_eq!(fit_qr_lines(vec![" ".to_string()], 4, 4), None);
}

#[test]
fn drawn_codes_use_half_blocks() {
    let lines = render_qr("https://www.ti.com/sitara", 200, 200).expect("qr code");
    assert!(lines.iter().any(|line| line.contains('\u{2580}') || line.contains('\u{2584}') || line.contains('\u{2588}')));
    let width = lines[0].chars().count();
    assert!(lines.iter().all(|line| line.chars().count() == width));
}
