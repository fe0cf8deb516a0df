//! The security policy: what the user desires and what is in force.

use crate::model::{
    DesiredPolicy, DisabledEntry, EffectivePolicy, PaddingLevel, PolicyProfile, PolicyState,
    PolicyView, PolicyWarning, PolicyWarningSeverity, ToggleDisabled, TriState,
};
use vstd::prelude::*;
use vstd::string::*;

verus! {

/// The policy in force for a desired policy: every setting is taken over
/// as it is, peers may be discovered unless private torrents are enforced,
/// direct peers are allowed unless anonymous mode is on, and the network
/// gate is as given.
pub open spec fn effective_of(d: DesiredPolicy, network_allowed: bool) -> EffectivePolicy {
    EffectivePolicy {
        anonymous_mode: d.anonymous_mode,
        peer_encryption: d.peer_encryption,
        dht_hardening: d.dht_hardening,
        enforce_private_torrents: d.enforce_private_torrents,
        ip_blocklist: d.ip_blocklist,
        kill_switch: d.kill_switch,
        bind_interface_only: d.bind_interface_only,
        overlay_padding: d.overlay_padding,
        sybil_resistance: d.sybil_resistance,
        relay_pow_required: d.relay_pow_required,
        relay_subnet_diversity: d.relay_subnet_diversity,
        relay_reputation_weighting: d.relay_reputation_weighting,
        ipv6_enabled: d.ipv6_enabled,
        upnp_natpmp_enabled: d.upnp_natpmp_enabled,
        circuit_rotation_enabled: d.circuit_rotation_enabled,
        deny_direct_exits: d.deny_direct_exits,
        minimize_fingerprinting: d.minimize_fingerprinting,
        profile: d.profile,
        network_allowed: network_allowed,
        discovery_allowed: !d.enforce_private_torrents,
        direct_peer_allowed: !d.anonymous_mode,
    }
}

/// Derives the policy in force from the desired policy and the network
/// gate.
pub fn derive_effective(d: &DesiredPolicy, network_allowed: bool) -> (e: EffectivePolicy)
    ensures
        e == effective_of(*d, network_allowed),
{
    EffectivePolicy {
        anonymous_mode: d.anonymous_mode,
        peer_encryption: d.peer_encryption,
        dht_hardening: d.dht_hardening,
        enforce_private_torrents: d.enforce_private_torrents,
        ip_blocklist: d.ip_blocklist,
        kill_switch: d.kill_switch,
        bind_interface_only: d.bind_interface_only,
        overlay_padding: d.overlay_padding,
        sybil_resistance: d.sybil_resistance,
        relay_pow_required: d.relay_pow_required,
        relay_subnet_diversity: d.relay_subnet_diversity,
        relay_reputation_weighting: d.relay_reputation_weighting,
        ipv6_enabled: d.ipv6_enabled,
        upnp_natpmp_enabled: d.upnp_natpmp_enabled,
        circuit_rotation_enabled: d.circuit_rotation_enabled,
        deny_direct_exits: d.deny_direct_exits,
        minimize_fingerprinting: d.minimize_fingerprinting,
        profile: d.profile,
        network_allowed,
        discovery_allowed: !d.enforce_private_torrents,
        direct_peer_allowed: !d.anonymous_mode,
    }
}

/// The policy in force is what the desired policy and some network gate
/// give: it is never changed on its own.
pub open spec fn policy_consistent(p: PolicyView) -> bool {
    p.effective == effective_of(p.desired, p.effective.network_allowed)
}

/// The desired policy of a fresh daemon.
pub open spec fn default_desired() -> DesiredPolicy {
    DesiredPolicy {
        anonymous_mode: false,
        peer_encryption: TriState::Prefer,
        dht_hardening: true,
        enforce_private_torrents: false,
        ip_blocklist: false,
        kill_switch: false,
        bind_interface_only: false,
        overlay_padding: PaddingLevel::Off,
        sybil_resistance: false,
        relay_pow_required: false,
        relay_subnet_diversity: false,
        relay_reputation_weighting: false,
        ipv6_enabled: true,
        upnp_natpmp_enabled: true,
        circuit_rotation_enabled: false,
        deny_direct_exits: false,
        minimize_fingerprinting: false,
        profile: Some(PolicyProfile::Standard),
    }
}

/// The names of the settings of a policy, in the order of their
/// declaration.
pub open spec fn setting_names() -> Seq<Seq<char>> {
    seq![
        "anonymous_mode"@,
        "peer_encryption"@,
        "dht_hardening"@,
        "enforce_private_torrents"@,
        "ip_blocklist"@,
        "kill_switch"@,
        "bind_interface_only"@,
        "overlay_padding"@,
        "sybil_resistance"@,
        "relay_pow_required"@,
        "relay_subnet_diversity"@,
        "relay_reputation_weighting"@,
        "ipv6_enabled"@,
        "upnp_natpmp_enabled"@,
        "circuit_rotation_enabled"@,
        "deny_direct_exits"@,
        "minimize_fingerprinting"@,
        "profile"@,
    ]
}

/// Every setting is listed by its name, and none is disabled.
pub open spec fn all_enabled(entries: Seq<DisabledEntry>) -> bool {
    &&& entries.len() == setting_names().len()
    &&& forall|i: int|
        0 <= i < entries.len() ==> (#[trigger] entries[i]).field@ == setting_names()[i]
            && !entries[i].toggle.disabled && entries[i].toggle.reason is None
}

/// The policy of a fresh daemon at time `now`: the default desired policy
/// in force with every gate open, no warning, no setting disabled, at
/// version 1.
pub fn initial_policy(now: u64) -> (p: PolicyState)
    ensures
        p.desired == default_desired(),
        p.effective == effective_of(default_desired(), true),
        p.warnings@.len() == 0,
        all_enabled(p.disabled@),
        p.version == 1,
        p.last_updated_ms == now,
        policy_consistent(p@),
{
    let desired = DesiredPolicy {
        anonymous_mode: false,
        peer_encryption: TriState::Prefer,
        dht_hardening: true,
        enforce_private_torrents: false,
        ip_blocklist: false,
        kill_switch: false,
        bind_interface_only: false,
        overlay_padding: PaddingLevel::Off,
        sybil_resistance: false,
        relay_pow_required: false,
        relay_subnet_diversity: false,
        relay_reputation_weighting: false,
        ipv6_enabled: true,
        upnp_natpmp_enabled: true,
        circuit_rotation_enabled: false,
        deny_direct_exits: false,
        minimize_fingerprinting: false,
        profile: Some(PolicyProfile::Standard),
    };
    let effective = derive_effective(&desired, true);
    let names = [
        "anonymous_mode",
        "peer_encryption",
        "dht_hardening",
        "enforce_private_torrents",
        "ip_blocklist",
        "kill_switch",
        "bind_interface_only",
        "overlay_padding",
        "sybil_resistance",
        "relay_pow_required",
        "relay_subnet_diversity",
        "relay_reputation_weighting",
        "ipv6_enabled",
        "upnp_natpmp_enabled",
        "circuit_rotation_enabled",
        "deny_direct_exits",
        "minimize_fingerprinting",
        "profile",
    ];
    let mut disabled: Vec<DisabledEntry> = Vec::new();
    let mut i: usize = 0;
    while i < names.len()
        invariant
            i <= names.len(),
            names@.len() == setting_names().len(),
            forall|k: int| 0 <= k < names@.len() ==> (#[trigger] names@[k])@ == setting_names()[k],
            disabled.len() == i,
            forall|k: int|
                0 <= k < i ==> (#[trigger] disabled@[k]).field@ == setting_names()[k]
                    && !disabled@[k].toggle.disabled && disabled@[k].toggle.reason is None,
        decreases names.len() - i,
    {
        disabled.push(
            DisabledEntry {
                field: names[i].to_owned(),
                toggle: ToggleDisabled { disabled: false, reason: None },
            },
        );
        i += 1;
    }
    PolicyState {
        desired,
        effective,
        warnings: Vec::new(),
        disabled,
        version: 1,
        last_updated_ms: now,
    }
}

/// Whether a desired policy is warned about: anonymous mode together with
/// port mapping.
pub open spec fn warns_port_mapping(d: DesiredPolicy) -> bool {
    d.anonymous_mode && d.upnp_natpmp_enabled
}

/// The warnings are those that the desired policy calls for: one advisory
/// warning where anonymous mode is combined with port mapping, none
/// otherwise.
pub open spec fn warnings_for(ws: Seq<PolicyWarning>, d: DesiredPolicy) -> bool {
    if warns_port_mapping(d) {
        ws.len() == 1 && ws[0].code@ == "anon_upnp"@ && ws[0].severity
            == PolicyWarningSeverity::Warn && ws[0].message@
            == "Anonymous mode is enabled while UPnP/NAT-PMP is enabled. Consider disabling port mapping."@
    } else {
        ws.len() == 0
    }
}

/// `n + 1`, or `n` where that does not fit.
pub open spec fn bumped(n: u64) -> u64 {
    if n == u64::MAX {
        n
    } else {
        (n + 1) as u64
    }
}

/// Replaces the desired policy at time `now` and derives the policy in
/// force from it. The version goes up by one.
pub fn replace_policy(p: &mut PolicyState, desired: DesiredPolicy, network_allowed: bool, now: u64)
    ensures
        final(p).desired == desired,
        final(p).effective == effective_of(desired, network_allowed),
        warnings_for(final(p).warnings@, desired),
        final(p).disabled@ == old(p).disabled@,
        final(p).version == bumped(old(p).version),
        final(p).last_updated_ms == now,
        policy_consistent(final(p)@),
{
    let mut warnings: Vec<PolicyWarning> = Vec::new();
    if desired.anonymous_mode && desired.upnp_natpmp_enabled {
        warnings.push(
            PolicyWarning {
                code: "anon_upnp".to_owned(),
                message: "Anonymous mode is enabled while UPnP/NAT-PMP is enabled. Consider disabling port mapping.".to_owned(),
                severity: PolicyWarningSeverity::Warn,
            },
        );
    }
    p.effective = derive_effective(&desired, network_allowed);
    p.desired = desired;
    p.warnings = warnings;
    p.version = p.version.saturating_add(1);
    p.last_updated_ms = now;
}

/// A policy after the network gate was set at time `now`: where it flips,
/// the version goes up by one and the time is noted; otherwise nothing
/// changes.
pub open spec fn gate_set(p: PolicyView, allowed: bool, now: u64) -> PolicyView {
    if p.effective.network_allowed != allowed {
        PolicyView {
            effective: EffectivePolicy { network_allowed: allowed, ..p.effective },
            version: bumped(p.version),
            last_updated_ms: now,
            ..p
        }
    } else {
        p
    }
}

/// Setting the network gate keeps the policy in force derived from the
/// desired policy.
pub proof fn lemma_gate_keeps_consistency(p: PolicyView, allowed: bool, now: u64)
    requires
        policy_consistent(p),
    ensures
        policy_consistent(gate_set(p, allowed, now)),
{
}

/// Sets the network gate of the policy in force.
pub fn set_network_gate(p: &mut PolicyState, allowed: bool, now: u64)
    ensures
        final(p)@ == gate_set(old(p)@, allowed, now),
{
    if p.effective.network_allowed != allowed {
        let before = p.effective;
        p.effective = EffectivePolicy { network_allowed: allowed, ..before };
        p.version = p.version.saturating_add(1);
        p.last_updated_ms = now;
    }
}

/// The version of the policy never goes down: neither when the desired
/// policy is replaced nor when the network gate is set.
pub proof fn lemma_version_never_goes_down(p: PolicyView, allowed: bool, now: u64)
    ensures
        bumped(p.version) >= p.version,
        gate_set(p, allowed, now).version >= p.version,
        gate_set(p, allowed, now).effective.network_allowed == allowed,
{
}

} // verus!
