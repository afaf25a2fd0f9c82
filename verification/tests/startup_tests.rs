use clap::{Arg, ArgAction, Command};
use tobi::installer::RunMode;
use tobi::manifest::{Catalog, fallback_catalog};
use tobi::startup::{load_startup_catalog, proxy_setup_test_warning, write_allowed};

/// The installer's command line, as its binary declares it.
fn command() -> Command {
    Command::new("tobi")
        .arg(Arg::new("manifest").long("manifest").default_value("https://raw.githubusercontent.com/Grippy98/TOBI/master/tobi/sample/catalog.json"))
        .arg(Arg::new("mode").long("mode").value_parser(["mock", "live"]).default_value("live"))
        .arg(Arg::new("target").long("target"))
        .arg(Arg::new("allow_write").long("allow-write").action(ArgAction::SetTrue))
        .arg(
            Arg::new("no_allow_write")
                .long("no-allow-write")
                .action(ArgAction::SetTrue)
                .conflicts_with("allow_write"),
        )
        .arg(Arg::new("proxy").long("proxy"))
        .arg(Arg::new("no_alt_screen").long("no-alt-screen").action(ArgAction::SetTrue))
        .arg(Arg::new("serial_ui").long("serial-ui").action(ArgAction::SetTrue))
        .arg(Arg::new("lite").long("lite").action(ArgAction::SetTrue))
        .arg(Arg::new("test_proxy_setup").long("test-proxy-setup").action(ArgAction::SetTrue))
}

struct Args {
    mode: RunMode,
    allow_write: bool,
    no_allow_write: bool,
    serial_ui: bool,
    lite: bool,
    test_proxy_setup: bool,
}

impl Args {
    fn parse_from(args: &[&str]) -> Args {
        let m = command().try_get_matches_from(args).expect("arguments");
        let mode = match m.get_one::<String>("mode").map(String::as_str) {
            Some("mock") => RunMode::Mock,
            _ => RunMode::Live,
        };
        Args {
            mode,
            allow_write: m.get_flag("allow_write"),
            no_allow_write: m.get_flag("no_allow_write"),
            serial_ui: m.get_flag("serial_ui"),
            lite: m.get_flag("lite"),
            test_proxy_setup: m.get_flag("test_proxy_setup"),
        }
    }

    fn write_allowed(&self) -> bool {
        write_allowed(self.mode, self.allow_write, self.no_allow_write)
    }
}

#[test]
fn defaults_to_live_write_mode() {
    let args = Args::parse_from(&["tobi"]);
    assert_eq!(args.mode, RunMode::Live);
    assert!(args.write_allowed());
}

#[test]
fn mock_mode_is_still_available_for_safe_local_runs() {
    let args = Args::parse_from(&["tobi", "--mode", "mock"]);
    assert_eq!(args.mode, RunMode::Mock);
    assert!(!args.write_allowed());
}

#[test]
fn live_write_permission_can_be_disabled_explicitly() {
    let args = Args::parse_from(&["tobi", "--mode", "live", "--no-allow-write"]);
    assert_eq!(args.mode, RunMode::Live);
    assert!(!args.write_allowed());
}

#[test]
fn proxy_setup_test_mode_is_available() {
    let args = Args::parse_from(&["tobi", "--mode", "mock", "--test-proxy-setup"]);
    assert_eq!(args.mode, RunMode::Mock);
    assert!(args.test_proxy_setup);
}

#[test]
fn lite_mode_is_available_for_serial_low_memory_images() {
    let args = Args::parse_from(&["tobi", "--lite", "--serial-ui"]);
    assert!(args.lite);
    assert!(args.serial_ui);
}

#[test]
fn mock_writes_need_permission() {
    assert!(write_allowed(RunMode::Mock, true, false));
    assert!(!write_allowed(RunMode::Live, true, true));
}

#[test]
fn startup_catalog_falls_back_when_offline() {
    let (catalog, warning) = load_startup_catalog(true, "https://example.com/c.json", None).expect("test mode");
    assert_eq!(catalog.devices.len(), fallback_catalog().devices.len());
    assert!(warning.is_none());
    let (catalog, warning) =
        load_startup_catalog(false, "https://example.com/c.json", Some(Err("timed out".to_string()))).expect("fallback");
    assert!(catalog.images.is_empty());
    let warning = warning.expect("warning");
    assert!(warning.starts_with("Could not fetch the online OS catalog."));
    assert!(warning.ends_with("\n\ntimed out"));
    assert_eq!(
        load_startup_catalog(false, "local.json", Some(Err("missing".to_string()))).map(|_| ()),
        Err("failed to load manifest local.json: missing".to_string())
    );
    let given = Catalog { schema_version: 1, generated_at: None, devices: vec![], images: vec![] };
    let (catalog, warning) = load_startup_catalog(false, "local.json", Some(Ok(given))).expect("loaded");
    assert!(catalog.devices.is_empty());
    assert!(warning.is_none());
    assert!(proxy_setup_test_warning().starts_with("Connectivity test mode"));
}
