use orc_core::model::{ConnectionType, VpnPostureState};
use orc_core::vpn::{
    classify_interface, detect_vpn_interface, is_vpn_description, vpn_status, vpn_status_at,
    NetInterface,
};

fn iface(name: &str, addresses: usize) -> NetInterface {
    NetInterface { name: name.to_string(), addresses }
}

fn detected_among(names: &[(&str, usize)], descriptive: bool) -> Option<String> {
    let interfaces: Vec<NetInterface> = names.iter().map(|(n, a)| iface(n, *a)).collect();
    detect_vpn_interface(&interfaces, descriptive).map(|(name, kind)| {
        assert_eq!(kind, ConnectionType::Vpn);
        name
    })
}

fn detected(names: &[(&str, usize)]) -> Option<String> {
    let plain = detected_among(names, false);
    if plain.is_some() {
        assert_eq!(detected_among(&names[..], true).is_some(), true);
    }
    plain
}

#[test]
fn descriptions_that_speak_of_a_vpn() {
    assert!(is_vpn_description("tap-windows adaptor v9"));
    assert!(is_vpn_description("my tun device"));
    assert!(is_vpn_description("wintun userspace tunnel"));
    assert!(!is_vpn_description("tap-windows adapter v9"));
    assert!(!is_vpn_description("ethernet tun"));
    assert!(is_vpn_description("the mullvad adapter"));
    assert!(is_vpn_description("x nordvpn"));
    assert!(is_vpn_description("a wireguard adapter"));
    assert!(is_vpn_description("an openvpn ethernet adapter"));
    assert!(is_vpn_description("protonvpn"));
    assert!(is_vpn_description("my expressvpn"));
    assert!(!is_vpn_description("realtek gaming adapter"));
    assert!(!is_vpn_description("Mullvad"));
    assert!(!is_vpn_description(""));
    assert!(!is_vpn_description("ta p"));
}

#[test]
fn descriptive_names_count_only_where_the_host_describes() {
    let names = [("Connection 2 (my Mullvad link)", 1)];
    assert_eq!(detected_among(&names, false), None);
    assert_eq!(detected_among(&names, true), Some("Connection 2 (my Mullvad link)".to_string()));
    assert_eq!(detected_among(&[("Sitap 5", 1)], false), None);
    assert_eq!(detected_among(&[("Sitap 5", 1)], true), Some("Sitap 5".to_string()));
    assert_eq!(detected_among(&[("Sitap Adapter", 1)], true), None);
}

#[test]
fn descriptive_names_need_an_address_and_no_exclusion() {
    assert_eq!(detected_among(&[("my wireguard", 0)], true), None);
    assert_eq!(detected_among(&[("Ethernet wireguard", 1)], true), None);
    assert_eq!(detected_among(&[("Local Area Connection mullvad", 1)], true), None);
    assert_eq!(detected_among(&[("a bluetooth tun", 1)], true), None);
    assert_eq!(
        detected_among(&[("my wireguard", 0), ("eth0", 1), ("x openvpn", 2), ("tun0", 1)], true),
        Some("x openvpn".to_string())
    );
    assert_eq!(
        detected_among(&[("my wireguard", 0), ("eth0", 1), ("x openvpn", 2), ("tun0", 1)], false),
        Some("tun0".to_string())
    );
}

#[test]
fn tunnel_devices_are_taken_for_a_vpn() {
    assert_eq!(detected(&[("tun0", 1)]), Some("tun0".to_string()));
    assert_eq!(detected(&[("tap3", 1)]), Some("tap3".to_string()));
    assert_eq!(detected(&[("wg0", 2)]), Some("wg0".to_string()));
    assert_eq!(detected(&[("utun4", 1)]), Some("utun4".to_string()));
    assert_eq!(detected(&[("ppp0", 1)]), Some("ppp0".to_string()));
    assert_eq!(detected(&[("my-tunnel-1", 1)]), Some("my-tunnel-1".to_string()));
}

#[test]
fn providers_and_protocols_are_taken_for_a_vpn() {
    assert_eq!(detected(&[("nordlynx", 1)]), Some("nordlynx".to_string()));
    assert_eq!(detected(&[("Mullvad", 1)]), Some("Mullvad".to_string()));
    assert_eq!(detected(&[("ProtonVPN TUN", 1)]), Some("ProtonVPN TUN".to_string()));
    assert_eq!(detected(&[("tailscale0", 1)]), Some("tailscale0".to_string()));
    assert_eq!(detected(&[("OpenVPN Connect", 1)]), Some("OpenVPN Connect".to_string()));
    assert_eq!(detected(&[("wireguard", 1)]), Some("wireguard".to_string()));
    assert_eq!(detected(&[("Private Internet Access", 1)]), Some("Private Internet Access".to_string()));
    assert_eq!(detected(&[("pia", 1)]), Some("pia".to_string()));
}

#[test]
fn names_are_matched_in_lower_case() {
    assert_eq!(detected(&[("TUN0", 1)]), Some("TUN0".to_string()));
    assert_eq!(detected(&[("WG1", 1)]), Some("WG1".to_string()));
}

#[test]
fn ordinary_interfaces_are_passed_over() {
    assert_eq!(detected(&[("lo", 2), ("eth0", 2), ("wlan0", 1), ("docker0", 1), ("br-1", 1)]), None);
    assert_eq!(detected(&[("enp3s0", 1)]), None);
    assert_eq!(detected(&[("tun", 1)]), None);
    assert_eq!(detected(&[("xtun0", 1)]), None);
    assert_eq!(detected(&[]), None);
}

#[test]
fn excluded_names_are_never_a_vpn() {
    assert_eq!(detected(&[("ethernet-tunnel", 1)]), None);
    assert_eq!(detected(&[("local tunnel", 1)]), None);
    assert_eq!(detected(&[("bluetooth tunnel", 1)]), None);
    assert_eq!(detected(&[("expansion tun0", 1)]), None);
    assert_eq!(detected(&[("wwan-tunnel", 1)]), None);
    assert_eq!(detected(&[("loopback-wg0", 1)]), None);
}

#[test]
fn a_vpn_needs_an_address() {
    assert_eq!(detected(&[("tun0", 0)]), None);
    assert_eq!(detected(&[("tun0", 0), ("wg0", 1)]), Some("wg0".to_string()));
}

#[test]
fn the_first_vpn_is_reported() {
    assert_eq!(
        detected(&[("eth0", 1), ("wg0", 1), ("tun0", 1)]),
        Some("wg0".to_string())
    );
}

#[test]
fn classification_needs_all_three() {
    assert!(classify_interface(false, true, 1));
    assert!(!classify_interface(true, true, 1));
    assert!(!classify_interface(false, false, 1));
    assert!(!classify_interface(false, true, 0));
}

#[test]
fn status_of_a_detected_vpn() {
    let s = vpn_status_at(&vec![iface("eth0", 1), iface("wg0", 1)], false, 1234);
    assert_eq!(s.posture, VpnPostureState::Connected);
    assert_eq!(s.interface_name, Some("wg0".to_string()));
    assert_eq!(s.default_route_interface, Some("wg0".to_string()));
    assert_eq!(s.interface_name_legacy, Some("wg0".to_string()));
    assert!(s.dns_servers.is_empty());
    assert!(s.signals.adapter_match && s.signals.default_route_match && !s.signals.dns_match);
    assert_eq!(s.signals.public_ip_match, None);
    assert_eq!(s.last_check_ms, 1234);
    assert_eq!(s.connection_type, ConnectionType::Vpn);
    assert_eq!(s.public_ip, None);
    assert_eq!(s.detected, Some(true));
}

#[test]
fn status_without_vpn() {
    let s = vpn_status_at(&vec![iface("eth0", 1)], false, 99);
    assert_eq!(s.posture, VpnPostureState::Disconnected);
    assert_eq!(s.interface_name, None);
    assert_eq!(s.default_route_interface, None);
    assert_eq!(s.interface_name_legacy, None);
    assert!(!s.signals.adapter_match && !s.signals.default_route_match && !s.signals.dns_match);
    assert_eq!(s.last_check_ms, 99);
    assert_eq!(s.connection_type, ConnectionType::NonVpn);
    assert_eq!(s.detected, Some(false));
}

#[test]
fn status_of_a_described_vpn() {
    let s = vpn_status_at(&vec![iface("eth0", 1), iface("My NordVPN link", 1)], true, 7);
    assert_eq!(s.posture, VpnPostureState::Connected);
    assert_eq!(s.interface_name, Some("My NordVPN link".to_string()));
    assert_eq!(s.detected, Some(true));
    let s = vpn_status_at(&vec![iface("eth0", 1), iface("My NordVPN link", 1)], false, 7);
    assert_eq!(s.posture, VpnPostureState::Disconnected);
    assert_eq!(s.detected, Some(false));
}

#[test]
fn status_is_stamped_with_the_current_time() {
    let s = vpn_status(&vec![iface("tun0", 1)], false);
    assert_eq!(s.posture, VpnPostureState::Connected);
    assert!(s.last_check_ms > 1_600_000_000_000);
}
