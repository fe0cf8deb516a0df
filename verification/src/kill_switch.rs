//! The kill switch: a state machine that follows the VPN.
//!
//! While the switch is enabled it is armed as long as the VPN is
//! connected, engages when the VPN is lost, and is armed again when the VPN
//! comes back. A disabled switch is disarmed, and one that is switched on
//! without the VPN stays disarmed until the VPN is seen.

use crate::model::{
    ConnectionType, KillSwitchConfig, KillSwitchState, KillSwitchView, VpnPostureState, VpnStatus,
};
use crate::requests::PatchKillSwitchRequest;
use vstd::prelude::*;

verus! {

/// The VPN counts as connected where the detector reports a connected VPN
/// and does not say that it detected none.
pub open spec fn vpn_connected(vpn: VpnStatus) -> bool {
    vpn.posture == VpnPostureState::Connected && vpn.connection_type == ConnectionType::Vpn
        && vpn.detected != Some(false)
}

/// Whether the VPN counts as connected.
pub fn is_vpn_connected(vpn: &VpnStatus) -> (r: bool)
    ensures
        r == vpn_connected(*vpn),
{
    let connected = match vpn.posture {
        VpnPostureState::Connected => true,
        _ => false,
    };
    let is_vpn = match vpn.connection_type {
        ConnectionType::Vpn => true,
        _ => false,
    };
    let denied = match vpn.detected {
        Some(false) => true,
        _ => false,
    };
    connected && is_vpn && !denied
}

/// The state of an enabled switch after it saw whether the VPN is
/// connected.
pub open spec fn next_state(state: KillSwitchState, connected: bool) -> KillSwitchState {
    match state {
        KillSwitchState::Armed => if connected {
            KillSwitchState::Armed
        } else {
            KillSwitchState::Engaged
        },
        _ => if connected {
            KillSwitchState::Armed
        } else {
            state
        },
    }
}

/// The switch engages: it is enabled and armed, and the VPN is lost.
pub open spec fn engages(ks: KillSwitchView, connected: bool) -> bool {
    ks.enabled && ks.enforcement_state == KillSwitchState::Armed && !connected
}

/// The switch after it saw at time `now` whether the VPN is connected. A
/// disabled switch stays as it is; an enabled one moves to its next state,
/// and every change of state is stamped with the time.
pub open spec fn switch_after(ks: KillSwitchView, connected: bool, now: u64) -> KillSwitchView {
    if ks.enabled && next_state(ks.enforcement_state, connected) != ks.enforcement_state {
        KillSwitchView {
            enforcement_state: next_state(ks.enforcement_state, connected),
            last_enforcement_ms: Some(now),
            ..ks
        }
    } else {
        ks
    }
}

/// Moves the switch to its next state. Returns whether it engaged, which
/// is when every running torrent has to stop.
pub fn advance_switch(ks: &mut KillSwitchConfig, connected: bool, now: u64) -> (engaged: bool)
    ensures
        final(ks)@ == switch_after(old(ks)@, connected, now),
        engaged == engages(old(ks)@, connected),
{
    if !ks.enabled {
        return false;
    }
    match ks.enforcement_state {
        KillSwitchState::Armed => {
            if !connected {
                ks.enforcement_state = KillSwitchState::Engaged;
                ks.last_enforcement_ms = Some(now);
                return true;
            }
        },
        _ => {
            if connected {
                ks.enforcement_state = KillSwitchState::Armed;
                ks.last_enforcement_ms = Some(now);
            }
        },
    }
    false
}

/// Whether the network may be used: always with a disabled switch, and
/// with an enabled one as long as the VPN is connected.
pub open spec fn network_allowed(enabled: bool, connected: bool) -> bool {
    !enabled || connected
}

/// The state of the switch after a change request that names `enabled`,
/// made while the VPN is connected or not. Switching on arms the switch
/// where the VPN is connected; without the VPN a switch that was off is
/// disarmed, and one that was on already stays in its state. Switching off
/// disarms it, whatever its state was.
pub open spec fn state_patched(ks: KillSwitchView, enabled: bool, connected: bool) -> KillSwitchState {
    if !enabled {
        KillSwitchState::Disarmed
    } else if connected {
        KillSwitchState::Armed
    } else if ks.enabled {
        ks.enforcement_state
    } else {
        KillSwitchState::Disarmed
    }
}

/// The switch after a change request at time `now`, made while the VPN is
/// connected or not. Where the request switches it on or off, the state
/// follows `state_patched` and is stamped with the time; every other
/// setting that the request names is taken over.
pub open spec fn switch_patched(
    ks: KillSwitchView,
    req: PatchKillSwitchRequest,
    connected: bool,
    now: u64,
) -> KillSwitchView {
    KillSwitchView {
        enabled: match req.enabled {
            Some(e) => e,
            None => ks.enabled,
        },
        enforcement_state: match req.enabled {
            Some(e) => state_patched(ks, e, connected),
            None => ks.enforcement_state,
        },
        last_enforcement_ms: match req.enabled {
            Some(_) => Some(now),
            None => ks.last_enforcement_ms,
        },
        scope: match req.scope {
            Some(s) => s,
            None => ks.scope,
        },
        grace_period_sec: match req.grace_period_sec {
            Some(g) => g,
            None => ks.grace_period_sec,
        },
        triggers: match req.triggers {
            Some(t) => t,
            None => ks.triggers,
        },
        ..ks
    }
}

/// Applies a change request to the switch, given whether the VPN is
/// connected.
pub fn patch_switch(
    ks: &mut KillSwitchConfig,
    req: PatchKillSwitchRequest,
    connected: bool,
    now: u64,
)
    ensures
        final(ks)@ == switch_patched(old(ks)@, req, connected, now),
{
    if let Some(enabled) = req.enabled {
        if !enabled {
            ks.enforcement_state = KillSwitchState::Disarmed;
        } else if connected {
            ks.enforcement_state = KillSwitchState::Armed;
        } else if !ks.enabled {
            ks.enforcement_state = KillSwitchState::Disarmed;
        }
        ks.enabled = enabled;
        ks.last_enforcement_ms = Some(now);
    }
    if let Some(scope) = req.scope {
        ks.scope = scope;
    }
    if let Some(gp) = req.grace_period_sec {
        ks.grace_period_sec = gp;
    }
    if let Some(tr) = req.triggers {
        ks.triggers = tr;
    }
}

/// Switching off disarms the switch, and no sight of the VPN moves a
/// disabled switch.
pub proof fn lemma_switched_off_stays_disarmed(
    ks: KillSwitchView,
    req: PatchKillSwitchRequest,
    seen: bool,
    now: u64,
    connected: bool,
    later: u64,
)
    requires
        req.enabled == Some(false),
    ensures
        switch_patched(ks, req, seen, now).enforcement_state == KillSwitchState::Disarmed,
        switch_after(switch_patched(ks, req, seen, now), connected, later) == switch_patched(
            ks,
            req,
            seen,
            now,
        ),
{
}

/// A switch that was off and is switched on is armed where the VPN is
/// connected and disarmed where it is not; a disarmed one does not engage,
/// and is armed as soon as the VPN is seen.
pub proof fn lemma_switched_on_follows_vpn(
    ks: KillSwitchView,
    req: PatchKillSwitchRequest,
    connected: bool,
    now: u64,
    later: u64,
)
    requires
        !ks.enabled,
        req.enabled == Some(true),
    ensures
        switch_patched(ks, req, connected, now).enabled,
        switch_patched(ks, req, connected, now).enforcement_state == if connected {
            KillSwitchState::Armed
        } else {
            KillSwitchState::Disarmed
        },
        !connected ==> !engages(switch_patched(ks, req, connected, now), false),
        switch_after(switch_patched(ks, req, connected, now), true, later).enforcement_state
            == KillSwitchState::Armed,
{
}

/// Switching on a switch that is on already never takes it out of the
/// engaged state while the VPN is away, nor disarms an armed one.
pub proof fn lemma_switching_on_again_keeps_guard(
    ks: KillSwitchView,
    req: PatchKillSwitchRequest,
    now: u64,
)
    requires
        ks.enabled,
        req.enabled == Some(true),
    ensures
        switch_patched(ks, req, false, now).enforcement_state == ks.enforcement_state,
        engages(switch_patched(ks, req, false, now), false) == engages(ks, false),
{
}

/// An enabled and armed switch engages when the VPN is lost and is armed
/// again when the VPN comes back.
pub proof fn lemma_engage_and_release(ks: KillSwitchView, lost_at: u64, back_at: u64)
    requires
        ks.enabled,
        ks.enforcement_state == KillSwitchState::Armed,
    ensures
        engages(ks, false),
        switch_after(ks, false, lost_at).enforcement_state == KillSwitchState::Engaged,
        switch_after(ks, false, lost_at).last_enforcement_ms == Some(lost_at),
        !engages(switch_after(ks, false, lost_at), true),
        switch_after(switch_after(ks, false, lost_at), true, back_at).enforcement_state
            == KillSwitchState::Armed,
{
}

} // verus!
