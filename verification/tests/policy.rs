use orc_core::kill_switch::{advance_switch, is_vpn_connected, patch_switch};
use orc_core::model::{
    ConnectionType, DesiredPolicy, KillSwitchConfig, KillSwitchScope, KillSwitchState,
    KillSwitchTriggers, PaddingLevel, PolicyProfile, PolicyWarningSeverity, TriState,
    VpnPostureState, VpnSignals, VpnSource, VpnStatus,
};
use orc_core::policy::{derive_effective, initial_policy, replace_policy, set_network_gate};
use orc_core::requests::PatchKillSwitchRequest;

fn vpn(posture: VpnPostureState, kind: ConnectionType, detected: Option<bool>) -> VpnStatus {
    VpnStatus {
        posture,
        interface_name: None,
        default_route_interface: None,
        dns_servers: vec![],
        signals: VpnSignals {
            adapter_match: false,
            default_route_match: false,
            dns_match: false,
            public_ip_match: None,
        },
        last_check_ms: 0,
        connection_type: kind,
        public_ip: None,
        detected,
        interface_name_legacy: None,
    }
}

fn switch(enabled: bool, state: KillSwitchState) -> KillSwitchConfig {
    KillSwitchConfig {
        enabled,
        scope: KillSwitchScope::TorrentOnly,
        vpn_source: VpnSource { auto_detect: true, allowed_adapters: vec!["wg0".to_string()] },
        grace_period_sec: 10,
        triggers: KillSwitchTriggers {
            pause_all_torrents: true,
            stop_seeding: false,
            disable_dht_pex_lpd: false,
            block_outbound: false,
        },
        enforcement_state: state,
        last_enforcement_ms: None,
    }
}

fn desired() -> DesiredPolicy {
    DesiredPolicy {
        anonymous_mode: false,
        peer_encryption: TriState::Prefer,
        dht_hardening: true,
        enforce_private_torrents: false,
        ip_blocklist: false,
        kill_switch: false,
        bind_interface_only: false,
        overlay_padding: PaddingLevel::Off,
        sybil_resistance: false,
        relay_pow_required: false,
        relay_subnet_diversity: false,
        relay_reputation_weighting: false,
        ipv6_enabled: true,
        upnp_natpmp_enabled: true,
        circuit_rotation_enabled: false,
        deny_direct_exits: false,
        minimize_fingerprinting: false,
        profile: Some(PolicyProfile::Standard),
    }
}

#[test]
fn vpn_counts_as_connected_only_with_all_signals() {
    assert!(is_vpn_connected(&vpn(VpnPostureState::Connected, ConnectionType::Vpn, Some(true))));
    assert!(is_vpn_connected(&vpn(VpnPostureState::Connected, ConnectionType::Vpn, None)));
    assert!(!is_vpn_connected(&vpn(VpnPostureState::Connected, ConnectionType::Vpn, Some(false))));
    assert!(!is_vpn_connected(&vpn(VpnPostureState::Connected, ConnectionType::Tor, Some(true))));
    assert!(!is_vpn_connected(&vpn(VpnPostureState::Connected, ConnectionType::NonVpn, None)));
    assert!(!is_vpn_connected(&vpn(VpnPostureState::Disconnected, ConnectionType::Vpn, Some(true))));
    assert!(!is_vpn_connected(&vpn(VpnPostureState::Unknown, ConnectionType::Vpn, Some(true))));
    assert!(!is_vpn_connected(&vpn(VpnPostureState::Checking, ConnectionType::Vpn, Some(true))));
}

#[test]
fn armed_switch_engages_when_the_vpn_is_lost() {
    let mut ks = switch(true, KillSwitchState::Armed);
    assert!(advance_switch(&mut ks, false, 500));
    assert_eq!(ks.enforcement_state, KillSwitchState::Engaged);
    assert_eq!(ks.last_enforcement_ms, Some(500));
    assert!(ks.enabled);
    assert_eq!(ks.vpn_source.allowed_adapters, vec!["wg0".to_string()]);
}

#[test]
fn armed_switch_stays_armed_while_the_vpn_is_connected() {
    let mut ks = switch(true, KillSwitchState::Armed);
    assert!(!advance_switch(&mut ks, true, 500));
    assert_eq!(ks.enforcement_state, KillSwitchState::Armed);
    assert_eq!(ks.last_enforcement_ms, None);
}

#[test]
fn engaged_switch_is_armed_again_when_the_vpn_returns() {
    let mut ks = switch(true, KillSwitchState::Engaged);
    assert!(!advance_switch(&mut ks, false, 600));
    assert_eq!(ks.enforcement_state, KillSwitchState::Engaged);
    assert_eq!(ks.last_enforcement_ms, None);
    assert!(!advance_switch(&mut ks, true, 700));
    assert_eq!(ks.enforcement_state, KillSwitchState::Armed);
    assert_eq!(ks.last_enforcement_ms, Some(700));
}

#[test]
fn releasing_and_disarmed_switch_are_armed_by_the_vpn() {
    let mut releasing = switch(true, KillSwitchState::Releasing);
    assert!(!advance_switch(&mut releasing, false, 1));
    assert_eq!(releasing.enforcement_state, KillSwitchState::Releasing);
    assert!(!advance_switch(&mut releasing, true, 2));
    assert_eq!(releasing.enforcement_state, KillSwitchState::Armed);
    let mut disarmed = switch(true, KillSwitchState::Disarmed);
    assert!(!advance_switch(&mut disarmed, false, 3));
    assert_eq!(disarmed.enforcement_state, KillSwitchState::Disarmed);
    assert!(!advance_switch(&mut disarmed, true, 4));
    assert_eq!(disarmed.enforcement_state, KillSwitchState::Armed);
    assert_eq!(disarmed.last_enforcement_ms, Some(4));
}

#[test]
fn disabled_switch_does_not_move() {
    let mut ks = switch(false, KillSwitchState::Armed);
    assert!(!advance_switch(&mut ks, false, 9));
    assert_eq!(ks.enforcement_state, KillSwitchState::Armed);
    assert_eq!(ks.last_enforcement_ms, None);
    let mut off = switch(false, KillSwitchState::Disarmed);
    assert!(!advance_switch(&mut off, true, 9));
    assert_eq!(off.enforcement_state, KillSwitchState::Disarmed);
}

#[test]
fn patching_the_switch_arms_and_disarms_it() {
    let mut ks = switch(false, KillSwitchState::Disarmed);
    patch_switch(
        &mut ks,
        PatchKillSwitchRequest { enabled: Some(true), scope: None, grace_period_sec: None, triggers: None },
        true,
        100,
    );
    assert!(ks.enabled);
    assert_eq!(ks.enforcement_state, KillSwitchState::Armed);
    assert_eq!(ks.last_enforcement_ms, Some(100));
    assert_eq!(ks.grace_period_sec, 10);
    let mut engaged = switch(true, KillSwitchState::Engaged);
    patch_switch(
        &mut engaged,
        PatchKillSwitchRequest { enabled: Some(false), scope: None, grace_period_sec: None, triggers: None },
        true,
        200,
    );
    assert!(!engaged.enabled);
    assert_eq!(engaged.enforcement_state, KillSwitchState::Disarmed);
    assert_eq!(engaged.last_enforcement_ms, Some(200));
}

fn switch_on() -> PatchKillSwitchRequest {
    PatchKillSwitchRequest { enabled: Some(true), scope: None, grace_period_sec: None, triggers: None }
}

#[test]
fn switching_on_without_the_vpn_leaves_the_switch_disarmed() {
    let mut ks = switch(false, KillSwitchState::Disarmed);
    patch_switch(&mut ks, switch_on(), false, 100);
    assert!(ks.enabled);
    assert_eq!(ks.enforcement_state, KillSwitchState::Disarmed);
    assert_eq!(ks.last_enforcement_ms, Some(100));
    assert!(!advance_switch(&mut ks, false, 200));
    assert_eq!(ks.enforcement_state, KillSwitchState::Disarmed);
    assert_eq!(ks.last_enforcement_ms, Some(100));
    assert!(!advance_switch(&mut ks, true, 300));
    assert_eq!(ks.enforcement_state, KillSwitchState::Armed);
    assert_eq!(ks.last_enforcement_ms, Some(300));
    assert!(advance_switch(&mut ks, false, 400));
    assert_eq!(ks.enforcement_state, KillSwitchState::Engaged);
}

#[test]
fn switching_on_a_stale_switch_without_the_vpn_disarms_it() {
    let mut ks = switch(false, KillSwitchState::Armed);
    patch_switch(&mut ks, switch_on(), false, 5);
    assert!(ks.enabled);
    assert_eq!(ks.enforcement_state, KillSwitchState::Disarmed);
    let mut ks = switch(false, KillSwitchState::Engaged);
    patch_switch(&mut ks, switch_on(), true, 5);
    assert_eq!(ks.enforcement_state, KillSwitchState::Armed);
}

#[test]
fn switching_on_again_keeps_the_state_without_the_vpn() {
    let mut engaged = switch(true, KillSwitchState::Engaged);
    patch_switch(&mut engaged, switch_on(), false, 7);
    assert!(engaged.enabled);
    assert_eq!(engaged.enforcement_state, KillSwitchState::Engaged);
    assert_eq!(engaged.last_enforcement_ms, Some(7));
    let mut armed = switch(true, KillSwitchState::Armed);
    patch_switch(&mut armed, switch_on(), false, 8);
    assert_eq!(armed.enforcement_state, KillSwitchState::Armed);
    assert!(advance_switch(&mut armed, false, 9));
    let mut back = switch(true, KillSwitchState::Engaged);
    patch_switch(&mut back, switch_on(), true, 10);
    assert_eq!(back.enforcement_state, KillSwitchState::Armed);
}

#[test]
fn switching_off_disarms_whatever_the_vpn() {
    for connected in [false, true] {
        for state in [KillSwitchState::Armed, KillSwitchState::Engaged, KillSwitchState::Releasing] {
            let mut ks = switch(true, state);
            patch_switch(
                &mut ks,
                PatchKillSwitchRequest { enabled: Some(false), scope: None, grace_period_sec: None, triggers: None },
                connected,
                50,
            );
            assert!(!ks.enabled);
            assert_eq!(ks.enforcement_state, KillSwitchState::Disarmed);
            assert!(!advance_switch(&mut ks, !connected, 60));
            assert_eq!(ks.enforcement_state, KillSwitchState::Disarmed);
        }
    }
}

#[test]
fn patching_the_switch_takes_over_what_is_named() {
    let mut ks = switch(true, KillSwitchState::Engaged);
    let triggers = KillSwitchTriggers {
        pause_all_torrents: false,
        stop_seeding: true,
        disable_dht_pex_lpd: true,
        block_outbound: true,
    };
    patch_switch(
        &mut ks,
        PatchKillSwitchRequest {
            enabled: None,
            scope: Some(KillSwitchScope::AppLevel),
            grace_period_sec: Some(30),
            triggers: Some(triggers),
        },
        true,
        300,
    );
    assert!(ks.enabled);
    assert_eq!(ks.enforcement_state, KillSwitchState::Engaged);
    assert_eq!(ks.last_enforcement_ms, None);
    assert_eq!(ks.scope, KillSwitchScope::AppLevel);
    assert_eq!(ks.grace_period_sec, 30);
    assert_eq!(ks.triggers, triggers);
}

#[test]
fn effective_policy_is_derived_from_the_desired_one() {
    let mut d = desired();
    let e = derive_effective(&d, true);
    assert!(e.network_allowed && e.discovery_allowed && e.direct_peer_allowed);
    assert_eq!(e.peer_encryption, TriState::Prefer);
    assert!(e.dht_hardening && e.ipv6_enabled && e.upnp_natpmp_enabled);
    assert_eq!(e.profile, Some(PolicyProfile::Standard));
    d.enforce_private_torrents = true;
    d.anonymous_mode = true;
    d.overlay_padding = PaddingLevel::Low;
    d.profile = Some(PolicyProfile::Hardened);
    let e = derive_effective(&d, false);
    assert!(!e.network_allowed && !e.discovery_allowed && !e.direct_peer_allowed);
    assert!(e.enforce_private_torrents && e.anonymous_mode);
    assert_eq!(e.overlay_padding, PaddingLevel::Low);
    assert_eq!(e.profile, Some(PolicyProfile::Hardened));
}

#[test]
fn initial_policy_is_the_default() {
    let p = initial_policy(77);
    assert_eq!(p.desired, desired());
    assert_eq!(p.effective, derive_effective(&desired(), true));
    assert!(p.warnings.is_empty());
    assert_eq!(p.version, 1);
    assert_eq!(p.last_updated_ms, 77);
    assert_eq!(p.disabled.len(), 18);
    assert_eq!(p.disabled[0].field, "anonymous_mode");
    assert_eq!(p.disabled[17].field, "profile");
    assert!(p.disabled.iter().all(|d| !d.toggle.disabled && d.toggle.reason.is_none()));
}

#[test]
fn replacing_the_policy_warns_about_port_mapping() {
    let mut p = initial_policy(1);
    let mut d = desired();
    d.anonymous_mode = true;
    replace_policy(&mut p, d, true, 50);
    assert_eq!(p.version, 2);
    assert_eq!(p.last_updated_ms, 50);
    assert_eq!(p.desired, d);
    assert_eq!(p.effective, derive_effective(&d, true));
    assert_eq!(p.warnings.len(), 1);
    assert_eq!(p.warnings[0].code, "anon_upnp");
    assert_eq!(p.warnings[0].severity, PolicyWarningSeverity::Warn);
    assert_eq!(
        p.warnings[0].message,
        "Anonymous mode is enabled while UPnP/NAT-PMP is enabled. Consider disabling port mapping."
    );
    d.upnp_natpmp_enabled = false;
    replace_policy(&mut p, d, false, 60);
    assert_eq!(p.version, 3);
    assert!(p.warnings.is_empty());
    assert!(!p.effective.network_allowed);
    assert_eq!(p.disabled.len(), 18);
}

#[test]
fn network_gate_bumps_the_version_only_when_it_flips() {
    let mut p = initial_policy(1);
    set_network_gate(&mut p, true, 10);
    assert_eq!(p.version, 1);
    assert_eq!(p.last_updated_ms, 1);
    set_network_gate(&mut p, false, 20);
    assert_eq!(p.version, 2);
    assert_eq!(p.last_updated_ms, 20);
    assert!(!p.effective.network_allowed);
    assert!(p.effective.discovery_allowed);
    set_network_gate(&mut p, false, 30);
    assert_eq!(p.version, 2);
    set_network_gate(&mut p, true, 40);
    assert_eq!(p.version, 3);
    assert!(p.effective.network_allowed);
}

#[test]
fn version_stops_at_the_largest_number() {
    let mut p = initial_policy(1);
    p.version = u64::MAX;
    set_network_gate(&mut p, false, 2);
    assert_eq!(p.version, u64::MAX);
    replace_policy(&mut p, desired(), true, 3);
    assert_eq!(p.version, u64::MAX);
}
