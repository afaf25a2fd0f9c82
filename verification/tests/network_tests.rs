use tobi::network::{
    command_text, connected_status, ethernet_status, ipv4_for_iface_from_ip,
    is_likely_ethernet_iface, linux_ethernet_link, linux_ethernet_status, macos_ethernet_devices,
    macos_ethernet_status, macos_iface_status, paragraphs_of, primary_ipv4_from_ifconfig,
    primary_ipv4_from_ip, system_status_of, EthernetLink, InterfaceState,
};
use tobi::text::words_of;

fn state(name: &str, kind: &str, carrier: &str, operstate: &str) -> InterfaceState {
    InterfaceState {
        name: name.to_string(),
        kind: Some(format!("{kind}\n")),
        carrier: Some(format!("{carrier}\n")),
        operstate: Some(format!("{operstate}\n")),
    }
}

#[test]
fn words_split_on_any_white_space() {
    assert_eq!(words_of("  a bb\tc \n"), vec!["a", "bb", "c"]);
    assert!(words_of("   ").is_empty());
}

#[test]
fn ip_output_gives_interface_and_address() {
    let out = "2: eth0    inet 192.168.1.5/24 brd 192.168.1.255 scope global dynamic eth0\\       valid_lft 85000sec\n3: wlan0    inet 10.1.2.3/16 scope global wlan0\n";
    assert_eq!(primary_ipv4_from_ip(out), Some("eth0 192.168.1.5".to_string()));
}

#[test]
fn ip_output_trims_colons_and_skips_short_lines() {
    let out = "garbage\n4: end0:    inet 172.16.0.9/12 scope global end0\n";
    assert_eq!(primary_ipv4_from_ip(out), Some("end0 172.16.0.9".to_string()));
    assert_eq!(primary_ipv4_from_ip(""), None);
    assert_eq!(primary_ipv4_from_ip("1: lo\n"), None);
}

#[test]
fn ip_output_for_one_interface_gives_the_address() {
    let out = "2: eth0    inet 192.168.7.2/24 scope global eth0\n";
    assert_eq!(ipv4_for_iface_from_ip(out), Some("192.168.7.2".to_string()));
    assert_eq!(ipv4_for_iface_from_ip("2: eth0 inet\n"), None);
}

#[test]
fn ifconfig_skips_loopback_blocks_and_addresses() {
    let out = "lo: flags=73<UP,LOOPBACK,RUNNING>  mtu 65536\n        inet 127.0.0.1  netmask 255.0.0.0\n\neth0: flags=4163<UP>  mtu 1500\n        inet 127.0.1.1  netmask 255.0.0.0\n        inet 10.0.0.2  netmask 255.0.0.0\n";
    assert_eq!(primary_ipv4_from_ifconfig(out), Some("eth0 10.0.0.2".to_string()));
}

#[test]
fn ifconfig_without_addresses_gives_none() {
    let out = "lo0: flags=8049<UP>\n\tinet 127.0.0.1 netmask 0xff000000\nen0: flags=8863<UP>\n\tether 00:11:22:33:44:55\n";
    assert_eq!(primary_ipv4_from_ifconfig(out), None);
    assert_eq!(primary_ipv4_from_ifconfig("\tinet 10.0.0.3\n"), None);
}

#[test]
fn wired_interface_names() {
    assert!(is_likely_ethernet_iface("eth0"));
    assert!(is_likely_ethernet_iface("end0"));
    assert!(!is_likely_ethernet_iface("lo"));
    assert!(!is_likely_ethernet_iface("wlan0"));
    assert!(!is_likely_ethernet_iface("docker0"));
    assert!(!is_likely_ethernet_iface("veth12"));
    assert!(!is_likely_ethernet_iface("br-1234"));
    assert!(!is_likely_ethernet_iface("tun0"));
    assert!(!is_likely_ethernet_iface("tap0"));
}

#[test]
fn first_wired_port_with_link_is_up() {
    let ifaces = vec![
        state("lo", "772", "1", "unknown"),
        state("wlan0", "1", "1", "up"),
        state("eth0", "1", "0", "down"),
        state("eth1", "1", "0", "up"),
        state("eth2", "1", "1", "up"),
    ];
    assert!(matches!(linux_ethernet_link(&ifaces), EthernetLink::Up(name) if name == "eth1"));
}

#[test]
fn wired_ports_without_link_are_down() {
    let ifaces = vec![state("eth0", "1", "0", "down"), state("wlan0", "1", "1", "up")];
    assert!(matches!(linux_ethernet_link(&ifaces), EthernetLink::Down));
    let none = vec![state("wlan0", "1", "1", "up"), state("usb0", "772", "1", "up")];
    assert!(matches!(linux_ethernet_link(&none), EthernetLink::NoEthernet));
    let unread = vec![InterfaceState {
        name: "eth0".to_string(),
        kind: None,
        carrier: Some("1".to_string()),
        operstate: None,
    }];
    assert!(matches!(linux_ethernet_link(&unread), EthernetLink::NoEthernet));
}

#[test]
fn connected_text_with_and_without_address() {
    assert_eq!(
        connected_status("eth0", &Some("10.0.0.2".to_string())),
        "connected (eth0 10.0.0.2)"
    );
    assert_eq!(connected_status("eth0", &None), "connected (eth0, waiting for DHCP)");
}

#[test]
fn linux_status_text_per_link_state() {
    assert_eq!(linux_ethernet_status(&EthernetLink::NoEthernet, &None), None);
    assert_eq!(
        linux_ethernet_status(&EthernetLink::Down, &None),
        Some("not connected".to_string())
    );
    assert_eq!(
        linux_ethernet_status(&EthernetLink::Up("end0".to_string()), &Some("1.2.3.4".to_string())),
        Some("connected (end0 1.2.3.4)".to_string())
    );
}

#[test]
fn ethernet_text_falls_back_on_the_primary_address() {
    assert_eq!(ethernet_status(Some("a".to_string()), Some("b".to_string()), "x"), "a");
    assert_eq!(ethernet_status(None, Some("b".to_string()), "x"), "b");
    assert_eq!(ethernet_status(None, None, "no IPv4"), "not connected");
    assert_eq!(ethernet_status(None, None, "eth0 10.0.0.2"), "network online (eth0 10.0.0.2)");
}

#[test]
fn command_text_is_trimmed_and_never_empty() {
    assert_eq!(command_text("  2024-01-01 00:00:00 UTC\n"), Some("2024-01-01 00:00:00 UTC".to_string()));
    assert_eq!(command_text(" \n\t"), None);
}

#[test]
fn system_status_defaults() {
    let s = system_status_of(None, None, None, None);
    assert_eq!(s.time, "time unavailable");
    assert_eq!(s.ip, "no IPv4");
    assert_eq!(s.ethernet, "not connected");
    let s = system_status_of(Some("now".to_string()), Some("eth0 10.0.0.2".to_string()), None, None);
    assert_eq!(s.time, "now");
    assert_eq!(s.ip, "eth0 10.0.0.2");
    assert_eq!(s.ethernet, "network online (eth0 10.0.0.2)");
}

#[test]
fn paragraphs_split_on_blank_lines() {
    assert_eq!(paragraphs_of("a\n\nb"), vec!["a", "b"]);
    assert_eq!(paragraphs_of("\n\n\n"), vec!["", "\n"]);
    assert_eq!(paragraphs_of(""), vec![""]);
    assert_eq!(paragraphs_of("a\nb"), vec!["a\nb"]);
}

#[test]
fn networksetup_ethernet_devices() {
    let ports = "Hardware Port: Wi-Fi\nDevice: en0\nEthernet Address: aa\n\nHardware Port: USB 10/100/1000 LAN\nDevice: en7\n\nHardware Port: Thunderbolt Ethernet Slot 1\nDevice:  en8 \nEthernet Address: bb\n\nHardware Port: Ethernet\nEthernet Address: cc";
    assert_eq!(macos_ethernet_devices(ports), vec!["en8"]);
}

#[test]
fn macos_port_status_needs_active() {
    let active = "en8: flags=8863<UP>\n\tether aa:bb\n\tinet 192.168.2.4 netmask 0xffffff00\n\tstatus: active";
    assert_eq!(
        macos_iface_status("en8", active),
        Some("connected (en8 192.168.2.4)".to_string())
    );
    let no_addr = "en8: flags=8863<UP>\n\tstatus: active";
    assert_eq!(macos_iface_status("en8", no_addr), Some("connected (en8, waiting for DHCP)".to_string()));
    assert_eq!(macos_iface_status("en8", "en8: flags=0\n\tstatus: inactive"), None);
}

#[test]
fn macos_status_takes_the_first_active_port() {
    let devices = vec!["en7".to_string(), "en8".to_string()];
    let texts = vec![
        Some("\tstatus: inactive".to_string()),
        Some("\tinet 10.0.0.7 netmask 0\n\tstatus: active".to_string()),
    ];
    assert_eq!(macos_ethernet_status(&devices, &texts), Some("connected (en8 10.0.0.7)".to_string()));
    assert_eq!(macos_ethernet_status(&devices, &vec![None, None]), Some("not connected".to_string()));
    assert_eq!(macos_ethernet_status(&vec![], &vec![]), None);
}
