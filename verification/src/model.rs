//! The plain data that the daemon shows to its clients.

use vstd::prelude::*;

verus! {

/// How a torrent's traffic is routed.
#[derive(Debug, Clone, Copy, PartialEq, Eq, Structural)]
pub enum TorrentMode {
    Standard,
    Private,
    Anonymous,
    TorAssist,
}

/// The anonymity profile of one torrent.
#[derive(Debug, Clone, Copy, PartialEq, Eq, Structural)]
pub struct TorrentProfile {
    pub mode: TorrentMode,
    pub hops: u32,
}

/// The identity of a torrent and what the user asked of it.
#[derive(Debug)]
pub struct Torrent {
    pub id: String,
    pub name: String,
    pub added_at_ms: u64,
    pub running: bool,
    pub profile: TorrentProfile,
    pub info_hash_hex: Option<String>,
    pub save_path: Option<String>,
}

impl Clone for Torrent {
    fn clone(&self) -> (r: Self)
        ensures
            r == *self,
    {
        Torrent {
            id: self.id.clone(),
            name: self.name.clone(),
            added_at_ms: self.added_at_ms,
            running: self.running,
            profile: self.profile,
            info_hash_hex: clone_text(&self.info_hash_hex),
            save_path: clone_text(&self.save_path),
        }
    }
}

/// A copy of an optional string.
pub fn clone_text(s: &Option<String>) -> (r: Option<String>)
    ensures
        r == *s,
{
    match s {
        Some(t) => Some(t.clone()),
        None => None,
    }
}

/// A copy of a list of strings.
pub fn clone_texts(v: &Vec<String>) -> (r: Vec<String>)
    ensures
        r@ == v@,
{
    let mut r: Vec<String> = Vec::new();
    let mut i: usize = 0;
    while i < v.len()
        invariant
            i <= v.len(),
            r@ == v@.take(i as int),
        decreases v.len() - i,
    {
        r.push(v[i].clone());
        i += 1;
    }
    r
}

/// What a torrent is doing.
#[derive(Debug, Clone, Copy, PartialEq, Eq, Structural)]
pub enum TorrentState {
    Stopped,
    Downloading,
    Seeding,
    Checking,
    Error,
}

/// The live figures of one torrent. `progress_ppm` is the downloaded share
/// of the total in millionths, between 0 and 1 000 000.
#[derive(Debug)]
pub struct TorrentStatus {
    pub id: String,
    pub state: TorrentState,
    pub progress_ppm: u32,
    pub down_rate_bps: u64,
    pub up_rate_bps: u64,
    pub eta_sec: u64,
    pub total_bytes: u64,
    pub downloaded_bytes: u64,
    pub peers_seen: u32,
    pub error: Option<String>,
}

/// One bin of the piece map: `have_pieces` of its `pieces_in_bin` pieces
/// are complete, and `min_avail` is the lowest availability among the
/// others.
#[derive(Debug, Clone, Copy, PartialEq, Eq, Structural)]
pub struct PieceBin {
    pub have_pieces: u32,
    pub min_avail: u32,
    pub pieces_in_bin: u32,
}

/// What one row of the torrent table shows.
#[derive(Debug)]
pub struct TorrentRowSnapshot {
    pub progress_ppm: u32,
    pub state: TorrentState,
    pub pieces_bins: Vec<PieceBin>,
    pub heartbeat_samples: Vec<u64>,
}

/// The wallet of the node.
#[derive(Debug, Clone, Copy, PartialEq, Eq, Structural)]
pub struct WalletStatus {
    pub allowance_bytes_remaining: u64,
    pub balance_credits: u64,
}

/// One circuit of the overlay network.
#[derive(Debug)]
pub struct Circuit {
    pub id: String,
    pub hops: u32,
    pub healthy: bool,
    pub rtt_ms: u32,
}

/// The overlay network and its circuits.
#[derive(Debug)]
pub struct OverlayStatus {
    pub enabled: bool,
    pub circuits: Vec<Circuit>,
}

/// Whether the host is behind a VPN, as far as the detector can tell.
#[derive(Debug, Clone, Copy, PartialEq, Eq, Structural)]
pub enum VpnPostureState {
    Connected,
    Disconnected,
    Unknown,
    Checking,
}

/// Where the kill switch stands.
#[derive(Debug, Clone, Copy, PartialEq, Eq, Structural)]
pub enum KillSwitchState {
    Disarmed,
    Armed,
    Engaged,
    Releasing,
}

/// What the kill switch acts on.
#[derive(Debug, Clone, Copy, PartialEq, Eq, Structural)]
pub enum KillSwitchScope {
    TorrentOnly,
    AppLevel,
}

/// The signs by which a VPN was recognised.
#[derive(Debug, Clone, Copy, PartialEq, Eq, Structural)]
pub struct VpnSignals {
    pub adapter_match: bool,
    pub default_route_match: bool,
    pub dns_match: bool,
    pub public_ip_match: Option<bool>,
}

/// The kind of connection that the host uses.
#[derive(Debug, Clone, Copy, PartialEq, Eq, Structural)]
pub enum ConnectionType {
    Vpn,
    Tor,
    I2p,
    NonVpn,
}

/// What the VPN detector saw.
#[derive(Debug)]
pub struct VpnStatus {
    pub posture: VpnPostureState,
    pub interface_name: Option<String>,
    pub default_route_interface: Option<String>,
    pub dns_servers: Vec<String>,
    pub signals: VpnSignals,
    pub last_check_ms: u64,
    pub connection_type: ConnectionType,
    pub public_ip: Option<String>,
    pub detected: Option<bool>,
    pub interface_name_legacy: Option<String>,
}

/// Where the kill switch takes its knowledge of the VPN from.
#[derive(Debug)]
pub struct VpnSource {
    pub auto_detect: bool,
    pub allowed_adapters: Vec<String>,
}

/// What the kill switch does when it engages.
#[derive(Debug, Clone, Copy, PartialEq, Eq, Structural)]
pub struct KillSwitchTriggers {
    pub pause_all_torrents: bool,
    pub stop_seeding: bool,
    pub disable_dht_pex_lpd: bool,
    pub block_outbound: bool,
}

/// The configuration and the state of the kill switch.
#[derive(Debug)]
pub struct KillSwitchConfig {
    pub enabled: bool,
    pub scope: KillSwitchScope,
    pub vpn_source: VpnSource,
    pub grace_period_sec: u64,
    pub triggers: KillSwitchTriggers,
    pub enforcement_state: KillSwitchState,
    pub last_enforcement_ms: Option<u64>,
}

/// A kill switch with its list of adapters as a sequence.
pub ghost struct KillSwitchView {
    pub enabled: bool,
    pub scope: KillSwitchScope,
    pub auto_detect: bool,
    pub allowed_adapters: Seq<String>,
    pub grace_period_sec: u64,
    pub triggers: KillSwitchTriggers,
    pub enforcement_state: KillSwitchState,
    pub last_enforcement_ms: Option<u64>,
}

impl View for KillSwitchConfig {
    type V = KillSwitchView;

    open spec fn view(&self) -> KillSwitchView {
        KillSwitchView {
            enabled: self.enabled,
            scope: self.scope,
            auto_detect: self.vpn_source.auto_detect,
            allowed_adapters: self.vpn_source.allowed_adapters@,
            grace_period_sec: self.grace_period_sec,
            triggers: self.triggers,
            enforcement_state: self.enforcement_state,
            last_enforcement_ms: self.last_enforcement_ms,
        }
    }
}

impl Clone for KillSwitchConfig {
    fn clone(&self) -> (r: Self)
        ensures
            r@ == self@,
    {
        KillSwitchConfig {
            enabled: self.enabled,
            scope: self.scope,
            vpn_source: VpnSource {
                auto_detect: self.vpn_source.auto_detect,
                allowed_adapters: clone_texts(&self.vpn_source.allowed_adapters),
            },
            grace_period_sec: self.grace_period_sec,
            triggers: self.triggers,
            enforcement_state: self.enforcement_state,
            last_enforcement_ms: self.last_enforcement_ms,
        }
    }
}

/// How well the network of the daemon is protected.
#[derive(Debug, Clone, Copy, PartialEq, Eq, Structural)]
pub enum NetPostureState {
    Unconfigured,
    Protected,
    LeakRisk,
}

/// The network posture of the daemon.
#[derive(Debug)]
pub struct NetPosture {
    pub bind_interface: Option<String>,
    pub leak_proof_enabled: bool,
    pub state: NetPostureState,
    pub last_change_ms: u64,
    pub vpn_status: VpnStatus,
    pub kill_switch: KillSwitchConfig,
}

/// Whether the daemon is up, and for how long.
#[derive(Debug, Clone, Copy, PartialEq, Eq, Structural)]
pub struct Health {
    pub ok: bool,
    pub uptime_sec: u64,
}

/// The version of the daemon.
#[derive(Debug)]
pub struct Version {
    pub version: String,
}

/// The torrents of the registry.
#[derive(Debug)]
pub struct TorrentListResponse {
    pub items: Vec<Torrent>,
}

/// A setting that can be off, preferred or required.
#[derive(Debug, Clone, Copy, PartialEq, Eq, Structural)]
pub enum TriState {
    Off,
    Prefer,
    Require,
}

/// How much padding the overlay adds.
#[derive(Debug, Clone, Copy, PartialEq, Eq, Structural)]
pub enum PaddingLevel {
    Off,
    Low,
    High,
}

/// A named set of policy settings.
#[derive(Debug, Clone, Copy, PartialEq, Eq, Structural)]
pub enum PolicyProfile {
    Standard,
    Hardened,
    Anonymous,
}

/// The policy that the user asks for.
#[derive(Debug, Clone, Copy, PartialEq, Eq, Structural)]
pub struct DesiredPolicy {
    pub anonymous_mode: bool,
    pub peer_encryption: TriState,
    pub dht_hardening: bool,
    pub enforce_private_torrents: bool,
    pub ip_blocklist: bool,
    pub kill_switch: bool,
    pub bind_interface_only: bool,
    pub overlay_padding: PaddingLevel,
    pub sybil_resistance: bool,
    pub relay_pow_required: bool,
    pub relay_subnet_diversity: bool,
    pub relay_reputation_weighting: bool,
    pub ipv6_enabled: bool,
    pub upnp_natpmp_enabled: bool,
    pub circuit_rotation_enabled: bool,
    pub deny_direct_exits: bool,
    pub minimize_fingerprinting: bool,
    pub profile: Option<PolicyProfile>,
}

/// The policy in force: the desired policy and the three gates derived
/// from it and from the kill switch.
#[derive(Debug, Clone, Copy, PartialEq, Eq, Structural)]
pub struct EffectivePolicy {
    pub anonymous_mode: bool,
    pub peer_encryption: TriState,
    pub dht_hardening: bool,
    pub enforce_private_torrents: bool,
    pub ip_blocklist: bool,
    pub kill_switch: bool,
    pub bind_interface_only: bool,
    pub overlay_padding: PaddingLevel,
    pub sybil_resistance: bool,
    pub relay_pow_required: bool,
    pub relay_subnet_diversity: bool,
    pub relay_reputation_weighting: bool,
    pub ipv6_enabled: bool,
    pub upnp_natpmp_enabled: bool,
    pub circuit_rotation_enabled: bool,
    pub deny_direct_exits: bool,
    pub minimize_fingerprinting: bool,
    pub profile: Option<PolicyProfile>,
    pub network_allowed: bool,
    pub discovery_allowed: bool,
    pub direct_peer_allowed: bool,
}

/// How serious a warning is; only a blocking one stands in the way.
#[derive(Debug, Clone, Copy, PartialEq, Eq, Structural)]
pub enum PolicyWarningSeverity {
    Info,
    Warn,
    Block,
}

/// A warning about the desired policy.
#[derive(Debug)]
pub struct PolicyWarning {
    pub code: String,
    pub message: String,
    pub severity: PolicyWarningSeverity,
}

impl Clone for PolicyWarning {
    fn clone(&self) -> (r: Self)
        ensures
            r == *self,
    {
        PolicyWarning {
            code: self.code.clone(),
            message: self.message.clone(),
            severity: self.severity,
        }
    }
}

/// Whether a setting is disabled, and why.
#[derive(Debug)]
pub struct ToggleDisabled {
    pub disabled: bool,
    pub reason: Option<String>,
}

impl Clone for ToggleDisabled {
    fn clone(&self) -> (r: Self)
        ensures
            r == *self,
    {
        ToggleDisabled { disabled: self.disabled, reason: clone_text(&self.reason) }
    }
}

/// Whether one setting of the policy can be changed, by the setting's name.
#[derive(Debug)]
pub struct DisabledEntry {
    pub field: String,
    pub toggle: ToggleDisabled,
}

impl Clone for DisabledEntry {
    fn clone(&self) -> (r: Self)
        ensures
            r == *self,
    {
        DisabledEntry { field: self.field.clone(), toggle: self.toggle.clone() }
    }
}

/// The policy as the daemon holds it.
#[derive(Debug)]
pub struct PolicyState {
    pub desired: DesiredPolicy,
    pub effective: EffectivePolicy,
    pub warnings: Vec<PolicyWarning>,
    pub disabled: Vec<DisabledEntry>,
    pub version: u64,
    pub last_updated_ms: u64,
}

/// A policy state with its lists as sequences.
pub ghost struct PolicyView {
    pub desired: DesiredPolicy,
    pub effective: EffectivePolicy,
    pub warnings: Seq<PolicyWarning>,
    pub disabled: Seq<DisabledEntry>,
    pub version: u64,
    pub last_updated_ms: u64,
}

impl View for PolicyState {
    type V = PolicyView;

    open spec fn view(&self) -> PolicyView {
        PolicyView {
            desired: self.desired,
            effective: self.effective,
            warnings: self.warnings@,
            disabled: self.disabled@,
            version: self.version,
            last_updated_ms: self.last_updated_ms,
        }
    }
}

impl Clone for PolicyState {
    fn clone(&self) -> (r: Self)
        ensures
            r@ == self@,
    {
        let mut warnings: Vec<PolicyWarning> = Vec::new();
        let mut i: usize = 0;
        while i < self.warnings.len()
            invariant
                i <= self.warnings.len(),
                warnings@ == self.warnings@.take(i as int),
            decreases self.warnings.len() - i,
        {
            warnings.push(self.warnings[i].clone());
            i += 1;
        }
        assert(self.warnings@.take(self.warnings.len() as int) =~= self.warnings@);
        let mut disabled: Vec<DisabledEntry> = Vec::new();
        let mut j: usize = 0;
        while j < self.disabled.len()
            invariant
                j <= self.disabled.len(),
                disabled@ == self.disabled@.take(j as int),
            decreases self.disabled.len() - j,
        {
            disabled.push(self.disabled[j].clone());
            j += 1;
        }
        assert(self.disabled@.take(self.disabled.len() as int) =~= self.disabled@);
        PolicyState {
            desired: self.desired,
            effective: self.effective,
            warnings,
            disabled,
            version: self.version,
            last_updated_ms: self.last_updated_ms,
        }
    }
}

/// One file of a torrent.
#[derive(Debug)]
pub struct TorrentFileEntry {
    pub path: Vec<String>,
    pub size: u64,
    pub priority: String,
    pub downloaded: bool,
}

/// A file entry with its path as a sequence of texts.
pub ghost struct FileView {
    pub path: Seq<Seq<char>>,
    pub size: u64,
    pub priority: Seq<char>,
    pub downloaded: bool,
}

impl View for TorrentFileEntry {
    type V = FileView;

    open spec fn view(&self) -> FileView {
        FileView {
            path: crate::text::texts(self.path@),
            size: self.size,
            priority: self.priority@,
            downloaded: self.downloaded,
        }
    }
}

impl Clone for TorrentFileEntry {
    fn clone(&self) -> (r: Self)
        ensures
            r@ == self@,
    {
        TorrentFileEntry {
            path: clone_texts(&self.path),
            size: self.size,
            priority: self.priority.clone(),
            downloaded: self.downloaded,
        }
    }
}

/// What a list of file entries stands for.
pub open spec fn files_view(files: Seq<TorrentFileEntry>) -> Seq<FileView> {
    files.map_values(|f: TorrentFileEntry| f@)
}

/// The files of a torrent.
#[derive(Debug)]
pub struct TorrentContent {
    pub files: Vec<TorrentFileEntry>,
}

/// One row of the tracker table.
#[derive(Debug)]
pub struct TrackerRow {
    pub url: String,
    pub tier: Option<u32>,
    pub status: String,
    pub seeders: Option<u32>,
    pub leechers: Option<u32>,
    pub last_announce_ms: Option<u64>,
    pub next_announce_ms: Option<u64>,
    pub error: Option<String>,
    pub announce_count: Option<u32>,
    pub scrape_count: Option<u32>,
}

/// The tracker table of a torrent.
#[derive(Debug)]
pub struct TrackersResponse {
    pub trackers: Vec<TrackerRow>,
}

/// One row of the peer table. Rates are in bytes per second;
/// `progress_ppm` is the peer's progress in millionths.
#[derive(Debug)]
pub struct PeerRow {
    pub id: String,
    pub ip: String,
    pub port: u16,
    pub down_rate: i64,
    pub up_rate: i64,
    pub downloaded: u64,
    pub uploaded: u64,
    pub client: Option<String>,
    pub flags: Option<String>,
    pub progress_ppm: Option<i64>,
    pub snubbed: bool,
    pub choked: bool,
    pub interested: Option<bool>,
    pub optimistic: Option<bool>,
    pub incoming: Option<bool>,
    pub encrypted: Option<bool>,
    pub rtt_ms: Option<u32>,
    pub country: Option<String>,
    pub last_seen_ms: u64,
}

/// The peer table of a torrent.
#[derive(Debug)]
pub struct PeersResponse {
    pub peers: Vec<PeerRow>,
}

/// The id under which a torrent was added.
#[derive(Debug)]
pub struct AddTorrentResponse {
    pub id: String,
}

/// The version of the daemon.
pub fn version() -> (v: Version)
    ensures
        v.version@ == "0.1.0"@,
{
    Version { version: "0.1.0".to_owned() }
}

/// The traffic allowance of a fresh wallet: 50 GiB.
pub const WALLET_ALLOWANCE_BYTES: u64 = 50 * 1024 * 1024 * 1024;

/// The credits of a fresh wallet.
pub const WALLET_CREDITS: u64 = 1000;

/// The wallet of the node: a fixed allowance and a fixed balance.
pub fn wallet_status() -> (w: WalletStatus)
    ensures
        w.allowance_bytes_remaining == WALLET_ALLOWANCE_BYTES,
        w.balance_credits == WALLET_CREDITS,
{
    WalletStatus {
        allowance_bytes_remaining: WALLET_ALLOWANCE_BYTES,
        balance_credits: WALLET_CREDITS,
    }
}

/// The overlay network: switched off, without circuits.
pub fn overlay_status() -> (o: OverlayStatus)
    ensures
        !o.enabled,
        o.circuits@.len() == 0,
{
    OverlayStatus { enabled: false, circuits: Vec::new() }
}

} // verus!
