//! Finding a VPN among the network interfaces of the host.
//!
//! The detector goes by the names of the interfaces: a name that looks
//! like that of a loopback, ethernet, wireless, bridge, container,
//! bluetooth or mobile broadband interface is passed over, and the first
//! other interface with an address whose name looks like that of a VPN is
//! reported. On a host that names its interfaces by a description, as
//! Windows does, a name that holds the name of a tunnel driver or of a VPN
//! product counts as well.

use crate::clock::now_ms;
use crate::model::{ConnectionType, VpnPostureState, VpnSignals, VpnStatus};
use crate::text::{chars_of, contains_text, lowercased, text_contains, to_lowercase};
use regex::Regex;
use vstd::prelude::*;
use vstd::string::*;

verus! {

/// One network interface of the host: its name and the number of
/// addresses that are bound to it.
#[derive(Debug)]
pub struct NetInterface {
    pub name: String,
    pub addresses: usize,
}

/// Whether a regular expression of the `regex` crate matches somewhere in
/// a text; `None` where the pattern is not a valid expression.
pub uninterp spec fn regex_matches(pattern: Seq<char>, text: Seq<char>) -> Option<bool>;

/// Compiles `pattern` with `regex::Regex::new` and searches `text` with
/// `Regex::is_match`. The outcome is named by [`regex_matches`]; it is
/// `None` where the crate rejects the pattern.
#[verifier::external_body]
pub(crate) fn regex_is_match(pattern: &str, text: &str) -> (r: Option<bool>)
    ensures
        r == regex_matches(pattern@, text@),
{
    match Regex::new(pattern) {
        Ok(re) => Some(re.is_match(text)),
        Err(_) => None,
    }
}

/// The patterns of interface names that are never taken for a VPN.
pub open spec fn excluded_patterns() -> Seq<&'static str> {
    seq![
        "(?i)^(lo|loopback|eth|wlan|wifi|ethernet|local|bridge|docker|veth)",
        "(?i)(bluetooth|pan|wwan)",
    ]
}

/// The patterns of interface names that are taken for a VPN: providers
/// first, then protocols, then tunnel devices.
pub open spec fn vpn_patterns() -> Seq<&'static str> {
    seq![
        "(?i)^(nordlynx|nordvpn|mullvad|proton|expressvpn|surfshark|cyberghost|tailscale|wintun)",
        "(?i)(private.*internet|pia\\b)",
        "(?i)^(openvpn|wireguard)",
        "^tun\\d+",
        "^tap\\d+",
        "^wg\\d+",
        "^utun\\d+",
        "(?i)^.*tunnel.*$",
        "^ppp\\d+",
    ]
}

/// Some pattern matches the name.
pub open spec fn matches_any(patterns: Seq<&'static str>, name: Seq<char>) -> bool {
    exists|i: int|
        0 <= i < patterns.len() && regex_matches((#[trigger] patterns[i])@, name) == Some(true)
}

/// A descriptive name that speaks of a VPN: it holds `tap` or `tun` (and
/// with it `wintun`) but neither `ethernet` nor `adapter`, or it holds the
/// name of one of six VPN products.
pub open spec fn describes_vpn(name: Seq<char>) -> bool {
    ||| ((contains_text(name, "tap"@) || contains_text(name, "tun"@)) && !contains_text(
        name,
        "ethernet"@,
    ) && !contains_text(name, "adapter"@))
    ||| contains_text(name, "mullvad"@)
    ||| contains_text(name, "nordvpn"@)
    ||| contains_text(name, "wireguard"@)
    ||| contains_text(name, "openvpn"@)
    ||| contains_text(name, "proton"@)
    ||| contains_text(name, "expressvpn"@)
}

/// Tells whether a descriptive name, given in lower case, speaks of a VPN.
pub fn is_vpn_description(name: &str) -> (r: bool)
    ensures
        r == describes_vpn(name@),
{
    let hay = chars_of(name);
    let tap = chars_of("tap");
    let tun = chars_of("tun");
    let ethernet = chars_of("ethernet");
    let adapter = chars_of("adapter");
    let mullvad = chars_of("mullvad");
    let nordvpn = chars_of("nordvpn");
    let wireguard = chars_of("wireguard");
    let openvpn = chars_of("openvpn");
    let proton = chars_of("proton");
    let expressvpn = chars_of("expressvpn");
    let tunnel = (text_contains(hay.as_slice(), tap.as_slice()) || text_contains(
        hay.as_slice(),
        tun.as_slice(),
    )) && !text_contains(hay.as_slice(), ethernet.as_slice()) && !text_contains(
        hay.as_slice(),
        adapter.as_slice(),
    );
    tunnel || text_contains(hay.as_slice(), mullvad.as_slice()) || text_contains(
        hay.as_slice(),
        nordvpn.as_slice(),
    ) || text_contains(hay.as_slice(), wireguard.as_slice()) || text_contains(
        hay.as_slice(),
        openvpn.as_slice(),
    ) || text_contains(hay.as_slice(), proton.as_slice()) || text_contains(
        hay.as_slice(),
        expressvpn.as_slice(),
    )
}

/// A name, in lower case, looks like that of a VPN: some pattern for VPN
/// names matches it, or, where names are descriptions, it speaks of a VPN.
pub open spec fn looks_like_vpn(name: Seq<char>, descriptive: bool) -> bool {
    matches_any(vpn_patterns(), name) || (descriptive && describes_vpn(name))
}

/// An interface is taken for a VPN where its lower-cased name is not
/// excluded and looks like that of a VPN, and it has an address.
pub open spec fn is_vpn_interface(iface: NetInterface, descriptive: bool) -> bool {
    let name = lowercased(iface.name@);
    !matches_any(excluded_patterns(), name) && looks_like_vpn(name, descriptive) && iface.addresses
        > 0
}

/// Whether an interface is taken for a VPN, given what the patterns say of
/// its name and how many addresses it has.
pub fn classify_interface(excluded: bool, looks_like_vpn: bool, addresses: usize) -> (r: bool)
    ensures
        r == (!excluded && looks_like_vpn && addresses > 0),
{
    !excluded && looks_like_vpn && addresses > 0
}

/// Tries every pattern on a name.
fn any_match(patterns: &[&'static str], name: &str) -> (r: bool)
    ensures
        r == matches_any(patterns@, name@),
{
    let mut i: usize = 0;
    while i < patterns.len()
        invariant
            i <= patterns.len(),
            forall|k: int|
                0 <= k < i ==> regex_matches((#[trigger] patterns@[k])@, name@) != Some(true),
        decreases patterns.len() - i,
    {
        match regex_is_match(patterns[i], name) {
            Some(true) => {
                return true;
            },
            _ => {},
        }
        i += 1;
    }
    false
}

/// The index of the first interface from `from` on that is taken for a
/// VPN, or the number of interfaces where there is none.
pub open spec fn first_vpn(interfaces: Seq<NetInterface>, descriptive: bool, from: int) -> int
    decreases interfaces.len() - from,
{
    if from < 0 || from >= interfaces.len() || is_vpn_interface(interfaces[from], descriptive) {
        from
    } else {
        first_vpn(interfaces, descriptive, from + 1)
    }
}

/// Looks for a VPN among the interfaces of the host, whose names are
/// descriptions where `descriptive` says so. Reports the name of the first
/// interface that is taken for a VPN, with the kind of connection; that no
/// interface is found is no error.
pub fn detect_vpn_interface(interfaces: &Vec<NetInterface>, descriptive: bool) -> (r: Option<
    (String, ConnectionType),
>)
    ensures
        match r {
            Some((name, kind)) => first_vpn(interfaces@, descriptive, 0) < interfaces@.len()
                && name == interfaces@[first_vpn(interfaces@, descriptive, 0)].name && kind
                == ConnectionType::Vpn,
            None => first_vpn(interfaces@, descriptive, 0) == interfaces@.len(),
        },
{
    let excluded = [
        "(?i)^(lo|loopback|eth|wlan|wifi|ethernet|local|bridge|docker|veth)",
        "(?i)(bluetooth|pan|wwan)",
    ];
    let vpn = [
        "(?i)^(nordlynx|nordvpn|mullvad|proton|expressvpn|surfshark|cyberghost|tailscale|wintun)",
        "(?i)(private.*internet|pia\\b)",
        "(?i)^(openvpn|wireguard)",
        "^tun\\d+",
        "^tap\\d+",
        "^wg\\d+",
        "^utun\\d+",
        "(?i)^.*tunnel.*$",
        "^ppp\\d+",
    ];
    let mut i: usize = 0;
    while i < interfaces.len()
        invariant
            i <= interfaces.len(),
            excluded@ == excluded_patterns(),
            vpn@ == vpn_patterns(),
            first_vpn(interfaces@, descriptive, 0) == first_vpn(interfaces@, descriptive, i as int),
        decreases interfaces.len() - i,
    {
        let iface = &interfaces[i];
        let name = to_lowercase(iface.name.as_str());
        let is_excluded = any_match(excluded.as_slice(), name.as_str());
        let looks_like_vpn = if is_excluded {
            false
        } else if any_match(vpn.as_slice(), name.as_str()) {
            true
        } else {
            descriptive && is_vpn_description(name.as_str())
        };
        if classify_interface(is_excluded, looks_like_vpn, iface.addresses) {
            return Some((iface.name.clone(), ConnectionType::Vpn));
        }
        i += 1;
    }
    None
}

/// The text of an optional string.
pub open spec fn name_of(s: Option<String>) -> Option<Seq<char>> {
    match s {
        Some(t) => Some(t@),
        None => None,
    }
}

/// Whether `status` is what the detector reports at time `now` after it
/// found `found`: a connected VPN on the interface that was found, or no
/// VPN where none was found.
pub open spec fn status_reports(status: VpnStatus, found: Option<Seq<char>>, now: u64) -> bool {
    &&& status.posture == (if found is Some {
        VpnPostureState::Connected
    } else {
        VpnPostureState::Disconnected
    })
    &&& name_of(status.interface_name) == found
    &&& name_of(status.default_route_interface) == found
    &&& name_of(status.interface_name_legacy) == found
    &&& status.dns_servers@.len() == 0
    &&& status.signals == VpnSignals {
        adapter_match: found is Some,
        default_route_match: found is Some,
        dns_match: false,
        public_ip_match: None,
    }
    &&& status.last_check_ms == now
    &&& status.connection_type == (if found is Some {
        ConnectionType::Vpn
    } else {
        ConnectionType::NonVpn
    })
    &&& status.public_ip is None
    &&& status.detected == Some(found is Some)
}

/// The name of the interface that the detector finds, if it finds one.
pub open spec fn detected_name(interfaces: Seq<NetInterface>, descriptive: bool) -> Option<
    Seq<char>,
> {
    if first_vpn(interfaces, descriptive, 0) < interfaces.len() {
        Some(interfaces[first_vpn(interfaces, descriptive, 0)].name@)
    } else {
        None
    }
}

/// What the detector reports of the interfaces of the host at time `now`.
pub fn vpn_status_at(interfaces: &Vec<NetInterface>, descriptive: bool, now: u64) -> (status:
    VpnStatus)
    ensures
        status_reports(status, detected_name(interfaces@, descriptive), now),
{
    match detect_vpn_interface(interfaces, descriptive) {
        Some((name, kind)) => VpnStatus {
            posture: VpnPostureState::Connected,
            interface_name: Some(name.clone()),
            default_route_interface: Some(name.clone()),
            dns_servers: Vec::new(),
            signals: VpnSignals {
                adapter_match: true,
                default_route_match: true,
                dns_match: false,
                public_ip_match: None,
            },
            last_check_ms: now,
            connection_type: kind,
            public_ip: None,
            detected: Some(true),
            interface_name_legacy: Some(name),
        },
        None => VpnStatus {
            posture: VpnPostureState::Disconnected,
            interface_name: None,
            default_route_interface: None,
            dns_servers: Vec::new(),
            signals: VpnSignals {
                adapter_match: false,
                default_route_match: false,
                dns_match: false,
                public_ip_match: None,
            },
            last_check_ms: now,
            connection_type: ConnectionType::NonVpn,
            public_ip: None,
            detected: Some(false),
            interface_name_legacy: None,
        },
    }
}

/// What the detector reports of the interfaces of the host now.
pub fn vpn_status(interfaces: &Vec<NetInterface>, descriptive: bool) -> (status: VpnStatus)
    ensures
        exists|now: u64| status_reports(status, detected_name(interfaces@, descriptive), now),
{
    let now = now_ms();
    let status = vpn_status_at(interfaces, descriptive, now);
    status
}

} // verus!
