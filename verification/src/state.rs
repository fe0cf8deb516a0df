//! The state of the daemon: the registry of torrents, the policy and the
//! kill switch.
//!
//! The state is one value that is changed through the operations of this
//! module only. Every operation keeps the state well formed
//! ([`OrcState::wf`]): no two torrents share an id, there are at most
//! [`MAX_TORRENTS`] of them, the histories of every torrent are within
//! their bounds, and the policy in force is derived from the desired one.

use crate::availability::{is_row_snapshot, record_row_snapshot, PIECE_BINS};
use crate::clock::now_ms;
use crate::engine::{apply_report, report_applied, wanted, EngineReport};
use crate::error::OrcError;
use crate::heartbeat::{heartbeat_sample, heartbeat_step, minus};
use crate::ids::{id_shaped, new_torrent_id, HYPHENATED_ID_LENGTH};
use crate::ingest::{build_record, is_fresh_record, EngineAddResponse};
use crate::kill_switch::{
    advance_switch, engages, is_vpn_connected, network_allowed, patch_switch, switch_after,
    switch_patched, vpn_connected,
};
use crate::magnet::{extract_info_hash_from_magnet, magnet_info_hash};
use crate::metainfo::{extract_info_hash_from_torrent_bytes, info_hash_of};
use crate::model::{
    files_view, AddTorrentResponse, DesiredPolicy, Health, KillSwitchConfig, KillSwitchScope,
    KillSwitchState, KillSwitchTriggers, KillSwitchView, NetPosture, NetPostureState, PeerRow,
    PeersResponse,
    PolicyState, PolicyView, Torrent, TorrentContent, TorrentFileEntry, TorrentListResponse,
    TorrentProfile, TorrentRowSnapshot, TorrentState, TorrentStatus, TrackersResponse, VpnSource,
    VpnStatus,
};
use crate::peers::{
    lemma_crowded_snapshot_fills_table, peer_addresses, peers_noted, peers_taken, ranked,
    record_peers, rows_match, PeerObservation, PeerSnapshot,
};
use crate::policy::{
    effective_of, gate_set, initial_policy, lemma_gate_keeps_consistency, policy_consistent,
    replace_policy, set_network_gate, bumped, warnings_for,
};
use crate::record::{
    eq_ignore_ascii_case, halt_record, halted, has_info_hash, is_complete, runtime_wf,
    same_ignoring_case, set_record_file_priority, set_record_running, status_of,
    torrent_status_from_record, with_running, files_prioritized, RecordView, RuntimeView,
    TorrentRecord, MAX_PEER_SAMPLES_PER_TORRENT, MAX_TORRENTS,
};
use crate::requests::{
    add_input, add_request_fault, input_view, prepare_add_input, AddTorrentInput,
    AddTorrentRequest, PatchFilePriorityRequest, PatchKillSwitchRequest,
};
use crate::text::str_eq;
use crate::trackers::{
    force_record_checking, is_tracker_table, mark_record_announce, record_trackers, with_announce,
    with_checking,
};
use vstd::prelude::*;
use vstd::string::*;
use vstd::utf8::*;

verus! {

/// The state of the daemon.
pub struct OrcState {
    started_at_ms: u64,
    download_dir: String,
    torrents: Vec<TorrentRecord>,
    policy: PolicyState,
    kill_switch: KillSwitchConfig,
}

/// The index of the first record from `from` on whose id is `id`, or the
/// number of records where there is none.
pub open spec fn record_index(records: Seq<RecordView>, id: Seq<char>, from: int) -> int
    decreases records.len() - from,
{
    if from < 0 || from >= records.len() || records[from].torrent.id@ == id {
        from
    } else {
        record_index(records, id, from + 1)
    }
}

/// The index of the first record from `from` on that carries the given
/// info-hash, or the number of records where there is none.
pub open spec fn hash_index(records: Seq<RecordView>, hash: Seq<char>, from: int) -> int
    decreases records.len() - from,
{
    if from < 0 || from >= records.len() || has_info_hash(records[from], hash) {
        from
    } else {
        hash_index(records, hash, from + 1)
    }
}

/// No two records share an id.
pub open spec fn ids_unique(records: Seq<RecordView>) -> bool {
    forall|i: int, j: int|
        0 <= i < j < records.len() ==> (#[trigger] records[i]).torrent.id@ != (
        #[trigger] records[j]).torrent.id@
}

/// What the records of a registry stand for.
pub open spec fn records_view(torrents: Seq<TorrentRecord>) -> Seq<RecordView> {
    torrents.map_values(|r: TorrentRecord| r@)
}

/// What [`record_index`] finds is a record with the id, and the first one.
pub proof fn lemma_record_index(records: Seq<RecordView>, id: Seq<char>, from: int)
    requires
        0 <= from <= records.len(),
    ensures
        from <= record_index(records, id, from) <= records.len(),
        record_index(records, id, from) < records.len() ==> records[record_index(
            records,
            id,
            from,
        )].torrent.id@ == id,
        forall|k: int|
            from <= k < record_index(records, id, from) ==> (#[trigger] records[k]).torrent.id@
                != id,
    decreases records.len() - from,
{
    if from < records.len() && records[from].torrent.id@ != id {
        lemma_record_index(records, id, from + 1);
    }
}

/// A record that carries an info-hash is found by it: the search ends at
/// that record or before it.
pub proof fn lemma_hash_index(records: Seq<RecordView>, hash: Seq<char>, from: int, at: int)
    requires
        0 <= from <= at < records.len(),
        has_info_hash(records[at], hash),
    ensures
        from <= hash_index(records, hash, from) <= at,
        has_info_hash(records[hash_index(records, hash, from)], hash),
    decreases at - from,
{
    if !has_info_hash(records[from], hash) {
        lemma_hash_index(records, hash, from + 1, at);
    }
}

/// An info-hash equals itself in whatever case.
pub proof fn lemma_same_ignoring_case_reflexive(a: Seq<u8>)
    ensures
        same_ignoring_case(a, a),
{
}

/// A torrent that was added is found again by its info-hash, in whatever
/// case the hash is written: a second request for the same torrent meets
/// the record of the first and adds none.
pub proof fn lemma_added_torrent_is_found(
    records: Seq<RecordView>,
    at: int,
    id: String,
    now: u64,
    req: AddTorrentRequest,
    rqbit_id: usize,
    resp: EngineAddResponse,
    hash: Seq<char>,
)
    requires
        0 <= at < records.len(),
        is_fresh_record(records[at], id, now, req, rqbit_id, resp),
        same_ignoring_case(encode_utf8(resp.info_hash@), encode_utf8(hash)),
    ensures
        hash_index(records, hash, 0) < records.len(),
        has_info_hash(records[hash_index(records, hash, 0)], hash),
{
    lemma_hash_index(records, hash, 0, at);
}

impl OrcState {
    /// The records of the torrents, in the order in which they were added.
    pub closed spec fn records(&self) -> Seq<RecordView> {
        records_view(self.torrents@)
    }

    /// The policy.
    pub closed spec fn policy(&self) -> PolicyView {
        self.policy@
    }

    /// The kill switch.
    pub closed spec fn kill_switch(&self) -> KillSwitchView {
        self.kill_switch@
    }

    /// The time at which the daemon started, in milliseconds since the
    /// epoch.
    pub closed spec fn started_at(&self) -> u64 {
        self.started_at_ms
    }

    /// The directory that torrents are downloaded to by default.
    pub closed spec fn download_dir(&self) -> Seq<char> {
        self.download_dir@
    }

    /// The state is well formed.
    pub open spec fn wf(&self) -> bool {
        &&& self.records().len() <= MAX_TORRENTS
        &&& ids_unique(self.records())
        &&& forall|i: int|
            0 <= i < self.records().len() ==> runtime_wf((#[trigger] self.records()[i]).runtime)
        &&& policy_consistent(self.policy())
    }

    /// Everything but the records is the same in both states.
    pub open spec fn same_settings(&self, other: &OrcState) -> bool {
        &&& self.policy() == other.policy()
        &&& self.kill_switch() == other.kill_switch()
        &&& self.started_at() == other.started_at()
        &&& self.download_dir() == other.download_dir()
    }

    /// Both states stand for the same.
    pub open spec fn same_as(&self, other: &OrcState) -> bool {
        self.records() == other.records() && self.same_settings(other)
    }

    /// The directory that torrents are downloaded to by default.
    pub fn download_dir_path(&self) -> (dir: &String)
        ensures
            dir@ == self.download_dir(),
    {
        &self.download_dir
    }

    /// Finds the record with the given id.
    fn find(&self, id: &str) -> (at: usize)
        ensures
            at == record_index(self.records(), id@, 0),
            at <= self.torrents.len(),
            at < self.torrents.len() ==> self.torrents@[at as int]@.torrent.id@ == id@,
    {
        let mut i: usize = 0;
        while i < self.torrents.len()
            invariant
                i <= self.torrents.len(),
                record_index(self.records(), id@, 0) == record_index(
                    self.records(),
                    id@,
                    i as int,
                ),
            decreases self.torrents.len() - i,
        {
            if str_eq(self.torrents[i].torrent.id.as_str(), id) {
                return i;
            }
            i += 1;
        }
        i
    }
}

/// The kill switch of a fresh daemon: disabled and disarmed, for torrents
/// only, with a grace period of 10 seconds, set to pause all torrents.
pub open spec fn initial_switch(ks: KillSwitchView) -> bool {
    &&& !ks.enabled
    &&& ks.scope == KillSwitchScope::TorrentOnly
    &&& ks.auto_detect
    &&& ks.allowed_adapters.len() == 0
    &&& ks.grace_period_sec == 10
    &&& ks.triggers == KillSwitchTriggers {
        pause_all_torrents: true,
        stop_seeding: false,
        disable_dht_pex_lpd: false,
        block_outbound: false,
    }
    &&& ks.enforcement_state == KillSwitchState::Disarmed
    &&& ks.last_enforcement_ms is None
}

/// Whether `state` is the state of a daemon that starts at time `now`: no
/// torrents, the default policy in force at version 1 with every gate
/// open, and a disabled kill switch.
pub open spec fn is_initial_state(state: &OrcState, download_dir: Seq<char>, now: u64) -> bool {
    &&& state.records().len() == 0
    &&& state.started_at() == now
    &&& state.download_dir() == download_dir
    &&& initial_switch(state.kill_switch())
    &&& state.policy().desired == crate::policy::default_desired()
    &&& state.policy().effective == effective_of(crate::policy::default_desired(), true)
    &&& state.policy().warnings.len() == 0
    &&& crate::policy::all_enabled(state.policy().disabled)
    &&& state.policy().version == 1
    &&& state.policy().last_updated_ms == now
}

/// The state of a daemon that starts at time `now`.
pub fn new_state_at(download_dir: String, now: u64) -> (state: OrcState)
    ensures
        state.wf(),
        is_initial_state(&state, download_dir@, now),
{
    OrcState {
        started_at_ms: now,
        download_dir,
        torrents: Vec::new(),
        policy: initial_policy(now),
        kill_switch: KillSwitchConfig {
            enabled: false,
            scope: KillSwitchScope::TorrentOnly,
            vpn_source: VpnSource { auto_detect: true, allowed_adapters: Vec::new() },
            grace_period_sec: 10,
            triggers: KillSwitchTriggers {
                pause_all_torrents: true,
                stop_seeding: false,
                disable_dht_pex_lpd: false,
                block_outbound: false,
            },
            enforcement_state: KillSwitchState::Disarmed,
            last_enforcement_ms: None,
        },
    }
}

/// The state of a daemon that starts now.
pub fn new_state(download_dir: String) -> (state: OrcState)
    ensures
        state.wf(),
        is_initial_state(&state, download_dir@, state.started_at()),
{
    new_state_at(download_dir, now_ms())
}

/// The health of the daemon at time `now`: it is up, for the whole seconds
/// since it started.
pub fn health_at(state: &OrcState, now: u64) -> (h: Health)
    ensures
        h.ok,
        h.uptime_sec == minus(now, state.started_at()) / 1000,
{
    Health { ok: true, uptime_sec: now.saturating_sub(state.started_at_ms) / 1000 }
}

/// The health of the daemon now.
pub fn health(state: &OrcState) -> (h: Health)
    ensures
        h.ok,
        exists|now: u64| h.uptime_sec == #[trigger] minus(now, state.started_at()) / 1000,
{
    let now = now_ms();
    let h = health_at(state, now);
    h
}

/// The network posture at time `now`, given what the VPN detector saw:
/// nothing is configured, and the kill switch is as the state holds it.
pub fn net_posture_at(state: &OrcState, vpn: VpnStatus, now: u64) -> (p: NetPosture)
    ensures
        p.bind_interface is None,
        !p.leak_proof_enabled,
        p.state == NetPostureState::Unconfigured,
        p.last_change_ms == now,
        p.vpn_status == vpn,
        p.kill_switch@ == state.kill_switch(),
{
    NetPosture {
        bind_interface: None,
        leak_proof_enabled: false,
        state: NetPostureState::Unconfigured,
        last_change_ms: now,
        vpn_status: vpn,
        kill_switch: state.kill_switch.clone(),
    }
}

/// The network posture now, given what the VPN detector saw.
pub fn net_posture(state: &OrcState, vpn: VpnStatus) -> (p: NetPosture)
    ensures
        p.bind_interface is None,
        !p.leak_proof_enabled,
        p.state == NetPostureState::Unconfigured,
        p.vpn_status == vpn,
        p.kill_switch@ == state.kill_switch(),
{
    net_posture_at(state, vpn, now_ms())
}

/// The torrents of the registry, in the order in which they were added.
pub fn list_torrents(state: &OrcState) -> (list: TorrentListResponse)
    ensures
        list.items@.len() == state.records().len(),
        forall|i: int|
            0 <= i < list.items@.len() ==> #[trigger] list.items@[i] == state.records()[i].torrent,
{
    let mut items: Vec<Torrent> = Vec::new();
    let mut i: usize = 0;
    while i < state.torrents.len()
        invariant
            i <= state.torrents.len(),
            items.len() == i,
            forall|k: int| 0 <= k < i ==> #[trigger] items@[k] == state.records()[k].torrent,
        decreases state.torrents.len() - i,
    {
        items.push(state.torrents[i].torrent.clone());
        i += 1;
    }
    TorrentListResponse { items }
}

/// The torrent with the given id.
pub fn get_torrent(state: &OrcState, id: &str) -> (r: Option<Torrent>)
    ensures
        r == (if record_index(state.records(), id@, 0) < state.records().len() {
            Some(state.records()[record_index(state.records(), id@, 0)].torrent)
        } else {
            None
        }),
{
    let at = state.find(id);
    if at < state.torrents.len() {
        Some(state.torrents[at].torrent.clone())
    } else {
        None
    }
}

/// The live figures of the torrent with the given id.
pub fn get_status(state: &OrcState, id: &str) -> (r: Option<TorrentStatus>)
    ensures
        r == (if record_index(state.records(), id@, 0) < state.records().len() {
            Some(status_of(state.records()[record_index(state.records(), id@, 0)]))
        } else {
            None
        }),
{
    let at = state.find(id);
    if at < state.torrents.len() {
        Some(torrent_status_from_record(&state.torrents[at]))
    } else {
        None
    }
}

/// What a table row shows of the torrent with the given id. The piece map
/// is computed afresh and always has [`PIECE_BINS`] bins.
pub fn get_row_snapshot(state: &OrcState, id: &str) -> (r: Option<TorrentRowSnapshot>)
    ensures
        match r {
            Some(row) => record_index(state.records(), id@, 0) < state.records().len()
                && is_row_snapshot(
                row,
                state.records()[record_index(state.records(), id@, 0)].runtime,
            ) && row.pieces_bins@.len() == PIECE_BINS,
            None => record_index(state.records(), id@, 0) == state.records().len(),
        },
{
    let at = state.find(id);
    if at < state.torrents.len() {
        Some(record_row_snapshot(&state.torrents[at].runtime))
    } else {
        None
    }
}

/// The files of the torrent with the given id.
pub fn get_content(state: &OrcState, id: &str) -> (r: Option<TorrentContent>)
    ensures
        match r {
            Some(c) => record_index(state.records(), id@, 0) < state.records().len() && files_view(
                c.files@,
            ) == files_view(state.records()[record_index(state.records(), id@, 0)].runtime.files),
            None => record_index(state.records(), id@, 0) == state.records().len(),
        },
{
    let at = state.find(id);
    if at < state.torrents.len() {
        let src = &state.torrents[at].runtime.files;
        let mut files: Vec<TorrentFileEntry> = Vec::new();
        let mut i: usize = 0;
        while i < src.len()
            invariant
                i <= src.len(),
                files.len() == i,
                forall|k: int| 0 <= k < i ==> (#[trigger] files@[k])@ == src@[k]@,
            decreases src.len() - i,
        {
            files.push(src[i].clone());
            i += 1;
        }
        Some(TorrentContent { files })
    } else {
        None
    }
}

/// The id under which the engine knows the torrent with the given id.
pub fn rqbit_id_for(state: &OrcState, id: &str) -> (r: Option<usize>)
    ensures
        r == (if record_index(state.records(), id@, 0) < state.records().len() {
            Some(state.records()[record_index(state.records(), id@, 0)].runtime.rqbit_id)
        } else {
            None
        }),
{
    let at = state.find(id);
    if at < state.torrents.len() {
        Some(state.torrents[at].runtime.rqbit_id)
    } else {
        None
    }
}

/// The ids under which the engine knows the torrents, in the order of the
/// registry.
pub fn engine_ids(state: &OrcState) -> (ids: Vec<usize>)
    ensures
        ids@.len() == state.records().len(),
        forall|i: int|
            0 <= i < ids@.len() ==> #[trigger] ids@[i] == state.records()[i].runtime.rqbit_id,
{
    let mut ids: Vec<usize> = Vec::new();
    let mut i: usize = 0;
    while i < state.torrents.len()
        invariant
            i <= state.torrents.len(),
            ids.len() == i,
            forall|k: int| 0 <= k < i ==> #[trigger] ids@[k] == state.records()[k].runtime.rqbit_id,
        decreases state.torrents.len() - i,
    {
        ids.push(state.torrents[i].runtime.rqbit_id);
        i += 1;
    }
    ids
}

/// Looks for a torrent by its info-hash, in whatever case it is written.
/// Returns the id of the first torrent that carries it, whether it is
/// complete, and whether it runs.
pub fn find_torrent_by_info_hash(state: &OrcState, info_hash: &str) -> (r: Option<
    (String, bool, bool),
>)
    ensures
        match r {
            Some((id, complete, running)) => {
                let at = hash_index(state.records(), info_hash@, 0);
                &&& at < state.records().len()
                &&& id == state.records()[at].torrent.id
                &&& complete == is_complete(state.records()[at])
                &&& running == state.records()[at].runtime.running
            },
            None => hash_index(state.records(), info_hash@, 0) == state.records().len(),
        },
{
    let mut i: usize = 0;
    while i < state.torrents.len()
        invariant
            i <= state.torrents.len(),
            hash_index(state.records(), info_hash@, 0) == hash_index(
                state.records(),
                info_hash@,
                i as int,
            ),
        decreases state.torrents.len() - i,
    {
        let rec = &state.torrents[i];
        let found = match &rec.torrent.info_hash_hex {
            Some(h) => eq_ignore_ascii_case(h.as_str(), info_hash),
            None => false,
        };
        if found {
            let complete = rec.runtime.downloaded_bytes >= rec.runtime.total_bytes
                && rec.runtime.total_bytes > 0;
            return Some((rec.torrent.id.clone(), complete, rec.runtime.running));
        }
        i += 1;
    }
    None
}

/// The indices of the wanted files among the first `upto` files, in rising
/// order.
pub open spec fn wanted_indices(files: Seq<TorrentFileEntry>, upto: int) -> Seq<usize>
    decreases upto,
{
    if upto <= 0 {
        Seq::empty()
    } else if wanted(files[upto - 1]) {
        wanted_indices(files, upto - 1).push((upto - 1) as usize)
    } else {
        wanted_indices(files, upto - 1)
    }
}

/// The indices of the files of a torrent that are not skipped, in rising
/// order.
pub fn only_files_for(state: &OrcState, id: &str) -> (r: Option<Vec<usize>>)
    ensures
        match r {
            Some(set) => {
                let at = record_index(state.records(), id@, 0);
                at < state.records().len() && set@ == wanted_indices(
                    state.records()[at].runtime.files,
                    state.records()[at].runtime.files.len() as int,
                )
            },
            None => record_index(state.records(), id@, 0) == state.records().len(),
        },
{
    let at = state.find(id);
    if at >= state.torrents.len() {
        return None;
    }
    let files = &state.torrents[at].runtime.files;
    let mut set: Vec<usize> = Vec::new();
    let mut i: usize = 0;
    while i < files.len()
        invariant
            i <= files.len(),
            set@ == wanted_indices(files@, i as int),
        decreases files.len() - i,
    {
        if !str_eq(files[i].priority.as_str(), "skip") {
            set.push(i);
        }
        i += 1;
    }
    Some(set)
}

/// The policy as the state holds it.
pub fn get_policy(state: &OrcState) -> (p: PolicyState)
    ensures
        p@ == state.policy(),
{
    state.policy.clone()
}

/// The kill switch as the state holds it.
pub fn get_kill_switch(state: &OrcState) -> (ks: KillSwitchConfig)
    ensures
        ks@ == state.kill_switch(),
{
    state.kill_switch.clone()
}

/// Replacing a record replaces what it stands for.
proof fn lemma_update_view(torrents: Seq<TorrentRecord>, at: int, new: TorrentRecord)
    requires
        0 <= at < torrents.len(),
    ensures
        records_view(torrents.update(at, new)) == records_view(torrents).update(at, new@),
{
}

/// A record that keeps its id and its bounds can take the place of the old
/// one.
proof fn lemma_update_keeps_ids(records: Seq<RecordView>, at: int, new: RecordView)
    requires
        0 <= at < records.len(),
        ids_unique(records),
        new.torrent.id@ == records[at].torrent.id@,
    ensures
        ids_unique(records.update(at, new)),
        runtime_wf(new.runtime) && (forall|i: int|
            0 <= i < records.len() ==> runtime_wf((#[trigger] records[i]).runtime)) ==> (forall|
            i: int,
        |
            0 <= i < records.len() ==> runtime_wf(
                (#[trigger] records.update(at, new)[i]).runtime,
            )),
{
}

/// The outcome of an operation on the torrent with the id `id` that turns
/// its record into `changed`: without such a torrent the operation fails
/// and nothing changes.
pub open spec fn record_changed(
    before: &OrcState,
    after: &OrcState,
    id: Seq<char>,
    found: bool,
    changed: spec_fn(RecordView) -> RecordView,
) -> bool {
    let at = record_index(before.records(), id, 0);
    &&& after.same_settings(before)
    &&& found == (at < before.records().len())
    &&& if found {
        after.records() == before.records().update(at, changed(before.records()[at]))
    } else {
        after.records() == before.records()
    }
}

/// Starts or stops a torrent in the registry. The engine is not told.
pub fn set_running(state: &mut OrcState, id: &str, running: bool) -> (r: Result<(), OrcError>)
    ensures
        old(state).wf() ==> final(state).wf(),
        r is Ok || r == Err::<(), _>(OrcError::NotFound),
        record_changed(
            old(state),
            final(state),
            id@,
            r is Ok,
            |rec: RecordView| with_running(rec, running),
        ),
{
    let at = state.find(id);
    if at >= state.torrents.len() {
        return Err(OrcError::NotFound);
    }
    let ghost before = state.torrents@;
    set_record_running(&mut state.torrents[at], running);
    proof {
        lemma_update_view(before, at as int, state.torrents@[at as int]);
        if old(state).wf() {
            assert(runtime_wf(records_view(before)[at as int].runtime));
            lemma_update_keeps_ids(records_view(before), at as int, state.torrents@[at as int]@);
        }
    }
    Ok(())
}

/// Takes a torrent out of the registry.
pub fn remove_torrent(state: &mut OrcState, id: &str) -> (r: Result<(), OrcError>)
    ensures
        old(state).wf() ==> final(state).wf(),
        final(state).same_settings(old(state)),
        ({
            let at = record_index(old(state).records(), id@, 0);
            if at < old(state).records().len() {
                r is Ok && final(state).records() == old(state).records().remove(at)
            } else {
                r == Err::<(), _>(OrcError::NotFound) && final(state).records() == old(
                    state,
                ).records()
            }
        }),
{
    let at = state.find(id);
    if at >= state.torrents.len() {
        return Err(OrcError::NotFound);
    }
    let ghost before = state.torrents@;
    state.torrents.remove(at);
    proof {
        let old_records = records_view(before);
        let new_records = records_view(state.torrents@);
        if old(state).wf() {
            assert forall|i: int, j: int| 0 <= i < j < new_records.len() implies (
            #[trigger] new_records[i]).torrent.id@ != (#[trigger] new_records[j]).torrent.id@ by {
                let oi = if i < at {
                    i
                } else {
                    i + 1
                };
                let oj = if j < at {
                    j
                } else {
                    j + 1
                };
                assert(old_records[oi].torrent.id@ != old_records[oj].torrent.id@);
            }
            assert forall|i: int| 0 <= i < new_records.len() implies runtime_wf(
                (#[trigger] new_records[i]).runtime,
            ) by {
                let oi = if i < at {
                    i
                } else {
                    i + 1
                };
                assert(runtime_wf(old_records[oi].runtime));
            }
        }
    }
    Ok(())
}

/// A record with another anonymity profile.
pub open spec fn with_profile(rec: RecordView, profile: TorrentProfile) -> RecordView {
    RecordView { torrent: Torrent { profile: profile, ..rec.torrent }, ..rec }
}

/// Gives a torrent another anonymity profile and returns the torrent.
pub fn set_profile(state: &mut OrcState, id: &str, profile: TorrentProfile) -> (r: Result<
    Torrent,
    OrcError,
>)
    ensures
        old(state).wf() ==> final(state).wf(),
        r is Ok || r == Err::<Torrent, _>(OrcError::NotFound),
        record_changed(
            old(state),
            final(state),
            id@,
            r is Ok,
            |rec: RecordView| with_profile(rec, profile),
        ),
        r matches Ok(t) ==> t == final(state).records()[record_index(
            old(state).records(),
            id@,
            0,
        )].torrent,
{
    let at = state.find(id);
    if at >= state.torrents.len() {
        return Err(OrcError::NotFound);
    }
    let ghost before = state.torrents@;
    let rec = &mut state.torrents[at];
    rec.torrent.profile = profile;
    proof {
        lemma_update_view(before, at as int, state.torrents@[at as int]);
        if old(state).wf() {
            assert(runtime_wf(records_view(before)[at as int].runtime));
            lemma_update_keeps_ids(records_view(before), at as int, state.torrents@[at as int]@);
        }
    }
    Ok(state.torrents[at].torrent.clone())
}

/// A record whose files among `paths` have the priority `priority`.
pub open spec fn with_priority(
    rec: RecordView,
    paths: Seq<Vec<String>>,
    priority: String,
) -> RecordView {
    RecordView {
        runtime: RuntimeView {
            files: files_prioritized(rec.runtime.files, paths, priority),
            ..rec.runtime
        },
        ..rec
    }
}

/// Gives the files of a torrent that the request names another priority.
pub fn set_file_priority(state: &mut OrcState, id: &str, req: PatchFilePriorityRequest) -> (r:
    Result<(), OrcError>)
    ensures
        old(state).wf() ==> final(state).wf(),
        r is Ok || r == Err::<(), _>(OrcError::NotFound),
        record_changed(
            old(state),
            final(state),
            id@,
            r is Ok,
            |rec: RecordView| with_priority(rec, req.paths@, req.priority),
        ),
{
    let at = state.find(id);
    if at >= state.torrents.len() {
        return Err(OrcError::NotFound);
    }
    let ghost before = state.torrents@;
    set_record_file_priority(&mut state.torrents[at], &req.paths, &req.priority);
    proof {
        lemma_update_view(before, at as int, state.torrents@[at as int]);
        if old(state).wf() {
            assert(runtime_wf(records_view(before)[at as int].runtime));
            lemma_update_keeps_ids(records_view(before), at as int, state.torrents@[at as int]@);
        }
    }
    Ok(())
}

/// What forcing a check at time `now` does to the state.
pub open spec fn checking_forced(
    before: &OrcState,
    after: &OrcState,
    id: Seq<char>,
    found: bool,
    now: u64,
) -> bool {
    record_changed(before, after, id, found, |rec: RecordView| with_checking(rec, now))
}

/// What noting an announce at time `now` does to the state.
pub open spec fn announce_marked(
    before: &OrcState,
    after: &OrcState,
    id: Seq<char>,
    found: bool,
    now: u64,
) -> bool {
    record_changed(before, after, id, found, |rec: RecordView| with_announce(rec, now))
}

/// Makes a torrent show as checking for a few seconds from `now` on.
pub fn force_checking_at(state: &mut OrcState, id: &str, now: u64) -> (r: Result<(), OrcError>)
    ensures
        old(state).wf() ==> final(state).wf(),
        r is Ok || r == Err::<(), _>(OrcError::NotFound),
        record_changed(
            old(state),
            final(state),
            id@,
            r is Ok,
            |rec: RecordView| with_checking(rec, now),
        ),
{
    let at = state.find(id);
    if at >= state.torrents.len() {
        return Err(OrcError::NotFound);
    }
    let ghost before = state.torrents@;
    force_record_checking(&mut state.torrents[at], now);
    proof {
        lemma_update_view(before, at as int, state.torrents@[at as int]);
        if old(state).wf() {
            assert(runtime_wf(records_view(before)[at as int].runtime));
            lemma_update_keeps_ids(records_view(before), at as int, state.torrents@[at as int]@);
        }
    }
    Ok(())
}

/// Makes a torrent show as checking for a few seconds from now on.
pub fn force_checking(state: &mut OrcState, id: &str) -> (r: Result<(), OrcError>)
    ensures
        old(state).wf() ==> final(state).wf(),
        r is Ok || r == Err::<(), _>(OrcError::NotFound),
        exists|now: u64| #[trigger] checking_forced(old(state), final(state), id@, r is Ok, now),
{
    let now = now_ms();
    let r = force_checking_at(state, id, now);
    assert(checking_forced(old(state), state, id@, r is Ok, now));
    r
}

/// Notes an announce to every tracker of a torrent at time `now`.
pub fn mark_announce_at(state: &mut OrcState, id: &str, now: u64) -> (r: Result<(), OrcError>)
    ensures
        old(state).wf() ==> final(state).wf(),
        r is Ok || r == Err::<(), _>(OrcError::NotFound),
        record_changed(
            old(state),
            final(state),
            id@,
            r is Ok,
            |rec: RecordView| with_announce(rec, now),
        ),
{
    let at = state.find(id);
    if at >= state.torrents.len() {
        return Err(OrcError::NotFound);
    }
    let ghost before = state.torrents@;
    mark_record_announce(&mut state.torrents[at], now);
    proof {
        lemma_update_view(before, at as int, state.torrents@[at as int]);
        if old(state).wf() {
            assert(runtime_wf(records_view(before)[at as int].runtime));
            lemma_update_keeps_ids(records_view(before), at as int, state.torrents@[at as int]@);
        }
    }
    Ok(())
}

/// Notes an announce to every tracker of a torrent now.
pub fn mark_announce(state: &mut OrcState, id: &str) -> (r: Result<(), OrcError>)
    ensures
        old(state).wf() ==> final(state).wf(),
        r is Ok || r == Err::<(), _>(OrcError::NotFound),
        exists|now: u64| #[trigger] announce_marked(old(state), final(state), id@, r is Ok, now),
{
    let now = now_ms();
    let r = mark_announce_at(state, id, now);
    assert(announce_marked(old(state), state, id@, r is Ok, now));
    r
}

/// The tracker table of a torrent.
pub fn trackers_for(state: &OrcState, id: &str) -> (r: Result<TrackersResponse, OrcError>)
    ensures
        match r {
            Ok(resp) => record_index(state.records(), id@, 0) < state.records().len()
                && is_tracker_table(
                resp.trackers@,
                state.records()[record_index(state.records(), id@, 0)].runtime,
            ),
            Err(e) => e == OrcError::NotFound && record_index(state.records(), id@, 0)
                == state.records().len(),
        },
{
    let at = state.find(id);
    if at >= state.torrents.len() {
        return Err(OrcError::NotFound);
    }
    Ok(record_trackers(&state.torrents[at].runtime))
}

/// What a query for the peers of the torrent with the id `id` does to the
/// state, and the table that it yields. Without such a torrent nothing
/// changes.
pub open spec fn peers_taken_in(
    before: &OrcState,
    after: &OrcState,
    id: Seq<char>,
    snapshot: PeerSnapshot,
    r: Result<PeersResponse, OrcError>,
    now: u64,
) -> bool {
    let at = record_index(before.records(), id, 0);
    &&& after.same_settings(before)
    &&& after.records().len() == before.records().len()
    &&& forall|k: int|
        0 <= k < before.records().len() && k != at ==> #[trigger] after.records()[k]
            == before.records()[k]
    &&& match r {
        Ok(resp) => at < before.records().len() && peers_taken(
            before.records()[at],
            after.records()[at],
            snapshot,
            resp.peers@,
            now,
        ),
        Err(e) => e == OrcError::NotFound && at == before.records().len(),
    }
}

/// A query for the peers of a torrent whose snapshot names more distinct
/// addresses than the table of samples may hold leaves that table full:
/// it holds exactly as many samples as the bound allows, each of them that
/// of a peer of the snapshot, seen at the time of the snapshot.
pub proof fn lemma_crowded_snapshot_fills_peer_table(
    before: &OrcState,
    after: &OrcState,
    id: Seq<char>,
    obs: Vec<PeerObservation>,
    resp: PeersResponse,
    now: u64,
)
    requires
        before.wf(),
        peers_taken_in(before, after, id, PeerSnapshot::Peers(obs), Ok(resp), now),
        peer_addresses(obs@).to_set().len() > MAX_PEER_SAMPLES_PER_TORRENT,
    ensures
        record_index(before.records(), id, 0) < after.records().len(),
        after.records()[record_index(before.records(), id, 0)].runtime.peer_samples.len()
            == MAX_PEER_SAMPLES_PER_TORRENT,
        forall|k: int|
            0 <= k < MAX_PEER_SAMPLES_PER_TORRENT ==> peer_addresses(obs@).contains(
                (#[trigger] after.records()[record_index(
                    before.records(),
                    id,
                    0,
                )].runtime.peer_samples[k]).key@,
            ) && after.records()[record_index(
                before.records(),
                id,
                0,
            )].runtime.peer_samples[k].last_seen_ms == now,
{
    lemma_record_index(before.records(), id, 0);
    let at = record_index(before.records(), id, 0);
    let rec = before.records()[at];
    let rows = choose|rows: Seq<PeerRow>|
        {
            &&& #[trigger] rows_match(rows, obs@, rec.runtime.peer_samples, now)
            &&& ranked(resp.peers@)
            &&& resp.peers@.to_multiset() == rows.to_multiset()
            &&& after.records()[at] == RecordView {
                runtime: peers_noted(rec.runtime, obs@, rows, now),
                ..rec
            }
        };
    assert(runtime_wf(rec.runtime));
    lemma_crowded_snapshot_fills_table(rec.runtime, obs@, rows, now);
}

/// Takes the peers that the engine reports of a torrent at time `now` into
/// the registry and builds the peer table.
pub fn peers_for_at(state: &mut OrcState, id: &str, snapshot: PeerSnapshot, now: u64) -> (r:
    Result<PeersResponse, OrcError>)
    ensures
        old(state).wf() ==> final(state).wf(),
        peers_taken_in(old(state), final(state), id@, snapshot, r, now),
{
    let at = state.find(id);
    if at >= state.torrents.len() {
        return Err(OrcError::NotFound);
    }
    let ghost before = state.torrents@;
    let resp = record_peers(&mut state.torrents[at], snapshot, now);
    proof {
        lemma_update_view(before, at as int, state.torrents@[at as int]);
        let new = state.torrents@[at as int]@;
        if old(state).wf() {
            assert(runtime_wf(records_view(before)[at as int].runtime));
            lemma_update_keeps_ids(records_view(before), at as int, new);
        }
    }
    Ok(resp)
}

/// Takes the peers that the engine reports of a torrent now into the
/// registry and builds the peer table.
pub fn peers_for(state: &mut OrcState, id: &str, snapshot: PeerSnapshot) -> (r: Result<
    PeersResponse,
    OrcError,
>)
    ensures
        old(state).wf() ==> final(state).wf(),
        exists|now: u64| #[trigger] peers_taken_in(old(state), final(state), id@, snapshot, r, now),
{
    let now = now_ms();
    let r = peers_for_at(state, id, snapshot, now);
    r
}

/// Applies a change request to the kill switch at time `now`, given what
/// the detector reports of the VPN, and returns the switch. Torrents are
/// neither stopped nor started.
pub fn patch_kill_switch_at(
    state: &mut OrcState,
    req: PatchKillSwitchRequest,
    vpn: &VpnStatus,
    now: u64,
) -> (ks: KillSwitchConfig)
    ensures
        old(state).wf() ==> final(state).wf(),
        final(state).kill_switch() == switch_patched(
            old(state).kill_switch(),
            req,
            vpn_connected(*vpn),
            now,
        ),
        ks@ == final(state).kill_switch(),
        final(state).records() == old(state).records(),
        final(state).policy() == old(state).policy(),
        final(state).started_at() == old(state).started_at(),
        final(state).download_dir() == old(state).download_dir(),
{
    let connected = is_vpn_connected(vpn);
    patch_switch(&mut state.kill_switch, req, connected, now);
    state.kill_switch.clone()
}

/// Applies a change request to the kill switch now, given what the
/// detector reports of the VPN, and returns the switch.
pub fn patch_kill_switch(state: &mut OrcState, req: PatchKillSwitchRequest, vpn: &VpnStatus) -> (ks:
    KillSwitchConfig)
    ensures
        old(state).wf() ==> final(state).wf(),
        exists|now: u64|
            final(state).kill_switch() == #[trigger] switch_patched(
                old(state).kill_switch(),
                req,
                vpn_connected(*vpn),
                now,
            ),
        ks@ == final(state).kill_switch(),
        final(state).records() == old(state).records(),
        final(state).policy() == old(state).policy(),
        final(state).started_at() == old(state).started_at(),
        final(state).download_dir() == old(state).download_dir(),
{
    let now = now_ms();
    let ks = patch_kill_switch_at(state, req, vpn, now);
    ks
}

/// Whether `after` is the policy that comes of `before` when the desired
/// policy is replaced at time `now`: the policy in force is derived from
/// the desired one and from the network gate, the warnings are those that
/// the desired policy calls for, and the version goes up by one.
pub open spec fn policy_replaced(
    before: PolicyView,
    after: PolicyView,
    desired: DesiredPolicy,
    allowed: bool,
    now: u64,
) -> bool {
    &&& after.desired == desired
    &&& after.effective == effective_of(desired, allowed)
    &&& warnings_for(after.warnings, desired)
    &&& after.disabled == before.disabled
    &&& after.version == bumped(before.version)
    &&& after.last_updated_ms == now
}

/// Replaces the desired policy at time `now`, given what the VPN detector
/// saw, and returns the policy. The network is allowed unless the kill
/// switch is enabled and the VPN is not connected.
pub fn patch_policy_at(state: &mut OrcState, desired: DesiredPolicy, vpn: &VpnStatus, now: u64) -> (p:
    PolicyState)
    ensures
        old(state).wf() ==> final(state).wf(),
        policy_replaced(
            old(state).policy(),
            final(state).policy(),
            desired,
            network_allowed(old(state).kill_switch().enabled, vpn_connected(*vpn)),
            now,
        ),
        p@ == final(state).policy(),
        final(state).records() == old(state).records(),
        final(state).kill_switch() == old(state).kill_switch(),
        final(state).started_at() == old(state).started_at(),
        final(state).download_dir() == old(state).download_dir(),
{
    let allowed = if state.kill_switch.enabled {
        is_vpn_connected(vpn)
    } else {
        true
    };
    replace_policy(&mut state.policy, desired, allowed, now);
    state.policy.clone()
}

/// Replaces the desired policy now, given what the VPN detector saw, and
/// returns the policy.
pub fn patch_policy(state: &mut OrcState, desired: DesiredPolicy, vpn: &VpnStatus) -> (p:
    PolicyState)
    ensures
        old(state).wf() ==> final(state).wf(),
        exists|now: u64| #[trigger]
            policy_replaced(
                old(state).policy(),
                final(state).policy(),
                desired,
                network_allowed(old(state).kill_switch().enabled, vpn_connected(*vpn)),
                now,
            ),
        p@ == final(state).policy(),
        final(state).records() == old(state).records(),
        final(state).kill_switch() == old(state).kill_switch(),
        final(state).started_at() == old(state).started_at(),
        final(state).download_dir() == old(state).download_dir(),
{
    let now = now_ms();
    let p = patch_policy_at(state, desired, vpn, now);
    p
}

/// What taking in a torrent that the engine has added does to the state,
/// where the torrent gets the id `id` at time `now`. A full registry takes
/// no torrent, and neither is a torrent taken that the engine gave no id
/// to; in both cases nothing changes. Otherwise the fresh record comes
/// last, or takes the place of the record that had the same id.
pub open spec fn torrent_integrated(
    before: &OrcState,
    after: &OrcState,
    req: AddTorrentRequest,
    resp: EngineAddResponse,
    id: String,
    now: u64,
    r: Result<AddTorrentResponse, OrcError>,
) -> bool {
    let at = record_index(before.records(), id@, 0);
    let n = before.records().len();
    &&& after.same_settings(before)
    &&& if n >= MAX_TORRENTS {
        r == Err::<AddTorrentResponse, _>(OrcError::CapacityExceeded) && after.records()
            == before.records()
    } else if resp.id is None {
        r == Err::<AddTorrentResponse, _>(OrcError::EngineFailure) && after.records()
            == before.records()
    } else {
        &&& r matches Ok(out) && out.id == id
        &&& after.records().len() == (if at < n {
            n
        } else {
            n + 1
        })
        &&& is_fresh_record(after.records()[at], id, now, req, resp.id->0, resp)
        &&& forall|k: int| 0 <= k < n && k != at ==> #[trigger] after.records()[k]
            == before.records()[k]
    }
}

/// Takes a torrent that the engine has added into the registry, under the
/// id `id` at time `now`.
pub fn integrate_added_torrent_with(
    state: &mut OrcState,
    req: &AddTorrentRequest,
    resp: EngineAddResponse,
    id: String,
    now: u64,
) -> (r: Result<AddTorrentResponse, OrcError>)
    ensures
        old(state).wf() ==> final(state).wf(),
        torrent_integrated(old(state), final(state), *req, resp, id, now, r),
{
    if state.torrents.len() >= MAX_TORRENTS {
        return Err(OrcError::CapacityExceeded);
    }
    let rqbit_id = match resp.id {
        Some(i) => i,
        None => {
            return Err(OrcError::EngineFailure);
        },
    };
    let out = AddTorrentResponse { id: id.clone() };
    let at = state.find(id.as_str());
    let rec = build_record(id, now, req, rqbit_id, resp);
    let ghost before = state.torrents@;
    let ghost fresh = rec@;
    proof {
        lemma_record_index(records_view(before), id@, 0);
    }
    if at < state.torrents.len() {
        state.torrents.set(at, rec);
        proof {
            lemma_update_view(before, at as int, state.torrents@[at as int]);
            if old(state).wf() {
                lemma_update_keeps_ids(records_view(before), at as int, fresh);
            }
        }
    } else {
        state.torrents.push(rec);
        proof {
            let old_records = records_view(before);
            let new_records = records_view(state.torrents@);
            if old(state).wf() {
                assert forall|i: int, j: int| 0 <= i < j < new_records.len() implies (
                #[trigger] new_records[i]).torrent.id@ != (
                #[trigger] new_records[j]).torrent.id@ by {
                    if j < old_records.len() {
                        assert(old_records[i].torrent.id@ != old_records[j].torrent.id@);
                    }
                }
                assert forall|i: int| 0 <= i < new_records.len() implies runtime_wf(
                    (#[trigger] new_records[i]).runtime,
                ) by {
                    if i < old_records.len() {
                        assert(runtime_wf(old_records[i].runtime));
                    }
                }
            }
        }
    }
    Ok(out)
}

/// Takes a torrent that the engine has added into the registry, under a
/// random id, now. The id is one that `validate_torrent_id` accepts.
pub fn integrate_added_torrent(
    state: &mut OrcState,
    req: &AddTorrentRequest,
    resp: EngineAddResponse,
) -> (r: Result<AddTorrentResponse, OrcError>)
    ensures
        old(state).wf() ==> final(state).wf(),
        exists|id: String, now: u64|
            id@.len() == HYPHENATED_ID_LENGTH && id_shaped(id@) && #[trigger] torrent_integrated(
                old(state),
                final(state),
                *req,
                resp,
                id,
                now,
                r,
            ),
{
    let id = new_torrent_id();
    let now = now_ms();
    let r = integrate_added_torrent_with(state, req, resp, id, now);
    r
}

/// What is to be done about a request to add a torrent.
#[derive(Debug)]
pub enum AddPlan {
    /// The torrent is in the registry already: nothing is added, and the
    /// torrent is started where `start` is set.
    Existing { id: String, rqbit_id: usize, start: bool },
    /// The torrent is new: the engine is to add it from `input`.
    Fresh { input: AddTorrentInput, info_hash: Option<String> },
}

/// The info-hash that can be read off what the engine is handed.
pub open spec fn input_info_hash(input: Result<Seq<u8>, Seq<char>>) -> Option<Seq<char>> {
    match input {
        Ok(bytes) => info_hash_of(bytes),
        Err(link) => magnet_info_hash(encode_utf8(link)),
    }
}

/// Whether `plan` is what is to be done about a request whose input for
/// the engine is `input`: a torrent whose info-hash is in the registry
/// already is not added again, and is started only if it does not run.
pub open spec fn is_add_plan(
    plan: AddPlan,
    records: Seq<RecordView>,
    input: Result<Seq<u8>, Seq<char>>,
) -> bool {
    let hash = input_info_hash(input);
    let at = if hash is Some {
        hash_index(records, hash->0, 0)
    } else {
        records.len() as int
    };
    match plan {
        AddPlan::Existing { id, rqbit_id, start } => {
            &&& at < records.len()
            &&& id == records[at].torrent.id
            &&& rqbit_id == records[at].runtime.rqbit_id
            &&& start == !records[at].runtime.running
        },
        AddPlan::Fresh { input: chosen, info_hash } => {
            &&& at == records.len()
            &&& input_view(chosen) == input
            &&& crate::metainfo::text_of(info_hash) == hash
        },
    }
}

/// A request for a torrent that is in the registry already is never
/// planned as a fresh one: it meets the record that carries its info-hash.
pub proof fn lemma_known_torrent_is_not_added_again(
    plan: AddPlan,
    records: Seq<RecordView>,
    input: Result<Seq<u8>, Seq<char>>,
    at: int,
)
    requires
        is_add_plan(plan, records, input),
        input_info_hash(input) is Some,
        0 <= at < records.len(),
        has_info_hash(records[at], input_info_hash(input)->0),
    ensures
        plan is Existing,
        hash_index(records, input_info_hash(input)->0, 0) <= at,
{
    lemma_hash_index(records, input_info_hash(input)->0, 0, at);
}

/// Decides what is to be done about a request to add a torrent. A request
/// that is not acceptable is refused with its first fault. A request for a
/// torrent whose info-hash the registry knows already yields no second
/// record: the plan names the record that is there.
pub fn plan_add(state: &OrcState, req: &AddTorrentRequest) -> (r: Result<AddPlan, OrcError>)
    ensures
        match r {
            Err(e) => match add_request_fault(*req) {
                Some(fault) => e == OrcError::InvalidInput(fault),
                None => add_input(*req) == Err::<Result<Seq<u8>, Seq<char>>, _>(e),
            },
            Ok(plan) => add_request_fault(*req) is None && add_input(*req) is Ok && is_add_plan(
                plan,
                state.records(),
                add_input(*req)->Ok_0,
            ),
        },
{
    match req.validate() {
        Err(e) => {
            return Err(e);
        },
        Ok(_) => {},
    }
    let input = match prepare_add_input(req) {
        Ok(i) => i,
        Err(e) => {
            return Err(e);
        },
    };
    let info_hash = match &input {
        AddTorrentInput::Url(u) => extract_info_hash_from_magnet(u.as_str()),
        AddTorrentInput::TorrentBytes(b) => match extract_info_hash_from_torrent_bytes(
            b.as_slice(),
        ) {
            Ok(h) => h,
            Err(_) => None,
        },
    };
    if let Some(hash) = &info_hash {
        let at = find_hash(state, hash.as_str());
        if at < state.torrents.len() {
            let rec = &state.torrents[at];
            return Ok(
                AddPlan::Existing {
                    id: rec.torrent.id.clone(),
                    rqbit_id: rec.runtime.rqbit_id,
                    start: !rec.runtime.running,
                },
            );
        }
    }
    Ok(AddPlan::Fresh { input, info_hash })
}

/// Finds the first record that carries an info-hash.
fn find_hash(state: &OrcState, hash: &str) -> (at: usize)
    ensures
        at == hash_index(state.records(), hash@, 0),
        at <= state.torrents.len(),
{
    let mut i: usize = 0;
    while i < state.torrents.len()
        invariant
            i <= state.torrents.len(),
            hash_index(state.records(), hash@, 0) == hash_index(state.records(), hash@, i as int),
        decreases state.torrents.len() - i,
    {
        let rec = &state.torrents[i];
        let found = match &rec.torrent.info_hash_hex {
            Some(h) => eq_ignore_ascii_case(h.as_str(), hash),
            None => false,
        };
        if found {
            return i;
        }
        i += 1;
    }
    i
}

/// The record of a torrent after one tick at time `now`: the heartbeat
/// takes its sample, the kill switch stops the torrent if it has engaged,
/// and the report of the engine, if there is one, is taken in.
pub open spec fn ticked_record(
    rec: RecordView,
    engaged: bool,
    report: Option<EngineReport>,
    now: u64,
) -> RecordView {
    let beat = RecordView { runtime: heartbeat_step(rec.runtime, now), ..rec };
    let held = if engaged {
        halted(beat)
    } else {
        beat
    };
    match report {
        Some(r) => report_applied(held, r, now),
        None => held,
    }
}

/// The report for the torrent at index `i` of the registry, if there is
/// one.
pub open spec fn report_for(reports: Seq<EngineReport>, i: int) -> Option<EngineReport> {
    if 0 <= i < reports.len() {
        Some(reports[i])
    } else {
        None
    }
}

/// What one tick at time `now` does to the state, given what the VPN
/// detector saw and what the engine reported of each torrent, in the
/// order of the registry. The kill switch moves to its next state, the
/// network gate of the policy follows it, and every record is updated on
/// its own: what the engine reports of one torrent, be it a failure, has
/// no effect on another.
pub open spec fn ticked(
    before: &OrcState,
    after: &OrcState,
    vpn: VpnStatus,
    reports: Seq<EngineReport>,
    now: u64,
) -> bool {
    let connected = vpn_connected(vpn);
    &&& after.records().len() == before.records().len()
    &&& forall|i: int|
        0 <= i < before.records().len() ==> #[trigger] after.records()[i] == ticked_record(
            before.records()[i],
            engages(before.kill_switch(), connected),
            report_for(reports, i),
            now,
        )
    &&& after.kill_switch() == switch_after(before.kill_switch(), connected, now)
    &&& after.policy() == gate_set(
        before.policy(),
        network_allowed(before.kill_switch().enabled, connected),
        now,
    )
    &&& after.started_at() == before.started_at()
    &&& after.download_dir() == before.download_dir()
}

/// A tick keeps the id of a torrent and the bounds of its histories.
pub proof fn lemma_ticked_record_wf(
    rec: RecordView,
    engaged: bool,
    report: Option<EngineReport>,
    now: u64,
)
    ensures
        runtime_wf(rec.runtime) ==> runtime_wf(ticked_record(rec, engaged, report, now).runtime),
        ticked_record(rec, engaged, report, now).torrent.id == rec.torrent.id,
{
    if rec.runtime.heartbeat_samples.len() <= crate::record::HEARTBEAT_MAX_SAMPLES {
        lemma_ticked_heartbeat(rec, now);
    }
}

/// A heartbeat keeps the history of samples within its bound.
proof fn lemma_ticked_heartbeat(rec: RecordView, now: u64)
    requires
        rec.runtime.heartbeat_samples.len() <= crate::record::HEARTBEAT_MAX_SAMPLES,
    ensures
        heartbeat_step(rec.runtime, now).heartbeat_samples.len()
            <= crate::record::HEARTBEAT_MAX_SAMPLES,
{
    crate::heartbeat::lemma_ring_push_bounded(
        rec.runtime.heartbeat_samples,
        0,
        crate::record::HEARTBEAT_MAX_SAMPLES as nat,
    );
    crate::heartbeat::lemma_ring_push_bounded(
        rec.runtime.heartbeat_samples,
        crate::heartbeat::rate_per_sec(
            minus(rec.runtime.downloaded_bytes, rec.runtime.heartbeat_last_bytes),
            minus(now, rec.runtime.heartbeat_last_sample_ms),
        ),
        crate::record::HEARTBEAT_MAX_SAMPLES as nat,
    );
}

/// When an enabled and armed kill switch loses the VPN, a tick without
/// reports of the engine leaves no torrent running: every torrent that ran
/// is stopped, with both rates at 0.
pub proof fn lemma_engaged_tick_stops_torrents(rec: RecordView, now: u64)
    ensures
        !ticked_record(rec, true, None, now).runtime.running,
        rec.runtime.running ==> {
            &&& ticked_record(rec, true, None, now).runtime.state == TorrentState::Stopped
            &&& !ticked_record(rec, true, None, now).torrent.running
            &&& ticked_record(rec, true, None, now).runtime.down_rate_bps == 0
            &&& ticked_record(rec, true, None, now).runtime.up_rate_bps == 0
        },
{
}

/// While the kill switch does not engage, a tick without reports of the
/// engine starts and stops nothing: when the VPN comes back, the torrents
/// that the switch stopped stay stopped until they are started again.
pub proof fn lemma_quiet_tick_keeps_running(rec: RecordView, now: u64)
    ensures
        ticked_record(rec, false, None, now).runtime.running == rec.runtime.running,
        ticked_record(rec, false, None, now).torrent.running == rec.torrent.running,
        ticked_record(rec, false, None, now).runtime.state == rec.runtime.state,
{
}

/// Runs one tick at time `now`.
#[verifier::rlimit(40)]
pub fn tick_at(state: &mut OrcState, vpn: &VpnStatus, reports: Vec<EngineReport>, now: u64)
    ensures
        old(state).wf() ==> final(state).wf(),
        ticked(old(state), final(state), *vpn, reports@, now),
{
    let n = state.torrents.len();
    let ghost start = state.torrents@;
    let mut i: usize = 0;
    while i < n
        invariant
            i <= n,
            n == start.len(),
            state.torrents@.len() == n,
            start == old(state).torrents@,
            state.policy == old(state).policy,
            state.kill_switch == old(state).kill_switch,
            state.started_at_ms == old(state).started_at_ms,
            state.download_dir == old(state).download_dir,
            forall|k: int|
                0 <= k < i ==> (#[trigger] state.torrents@[k])@ == (RecordView {
                    runtime: heartbeat_step(start[k]@.runtime, now),
                    ..start[k]@
                }),
            forall|k: int| i <= k < n ==> #[trigger] state.torrents@[k] == start[k],
        decreases n - i,
    {
        let rec = &mut state.torrents[i];
        heartbeat_sample(&mut rec.runtime, now);
        i += 1;
    }
    let connected = is_vpn_connected(vpn);
    let enabled = state.kill_switch.enabled;
    let engaged = advance_switch(&mut state.kill_switch, connected, now);
    let allowed = !enabled || connected;
    proof {
        if old(state).wf() {
            lemma_gate_keeps_consistency(state.policy@, allowed, now);
        }
    }
    set_network_gate(&mut state.policy, allowed, now);
    let ghost beaten = state.torrents@;
    if engaged {
        let mut j: usize = 0;
        while j < n
            invariant
                j <= n,
                n == beaten.len(),
                state.torrents@.len() == n,
                state.policy@ == gate_set(old(state).policy@, allowed, now),
                state.kill_switch@ == switch_after(old(state).kill_switch@, connected, now),
                state.started_at_ms == old(state).started_at_ms,
                state.download_dir == old(state).download_dir,
                forall|k: int| 0 <= k < j ==> (#[trigger] state.torrents@[k])@ == halted(beaten[k]@),
                forall|k: int| j <= k < n ==> #[trigger] state.torrents@[k] == beaten[k],
            decreases n - j,
        {
            halt_record(&mut state.torrents[j]);
            j += 1;
        }
    }
    let ghost held = state.torrents@;
    let mut reports = reports;
    let ghost all_reports = reports@;
    reports.truncate(n);
    let m = reports.len();
    let mut k: usize = m;
    while k > 0
        invariant
            k <= m <= n,
            n == held.len(),
            state.torrents@.len() == n,
            reports@ == all_reports.take(k as int),
            m <= all_reports.len(),
            m == n || m == all_reports.len(),
            state.policy@ == gate_set(old(state).policy@, allowed, now),
            state.kill_switch@ == switch_after(old(state).kill_switch@, connected, now),
            state.started_at_ms == old(state).started_at_ms,
            state.download_dir == old(state).download_dir,
            forall|t: int|
                k <= t < m ==> (#[trigger] state.torrents@[t])@ == report_applied(
                    held[t]@,
                    all_reports[t],
                    now,
                ),
            forall|t: int| 0 <= t < k ==> #[trigger] state.torrents@[t] == held[t],
            forall|t: int| m <= t < n ==> #[trigger] state.torrents@[t] == held[t],
        decreases k,
    {
        k -= 1;
        let report = reports.pop().unwrap();
        apply_report(&mut state.torrents[k], report, now);
    }
    proof {
        let before = old(state).records();
        let after = state.records();
        if old(state).wf() {
            assert forall|t: int| 0 <= t < n implies runtime_wf((#[trigger] after[t]).runtime) by {
                lemma_ticked_record_wf(
                    before[t],
                    engages(old(state).kill_switch(), connected),
                    report_for(all_reports, t),
                    now,
                );
            }
            assert forall|a: int, b: int| 0 <= a < b < n implies (
            #[trigger] after[a]).torrent.id@ != (#[trigger] after[b]).torrent.id@ by {
                lemma_ticked_record_wf(
                    before[a],
                    engages(old(state).kill_switch(), connected),
                    report_for(all_reports, a),
                    now,
                );
                lemma_ticked_record_wf(
                    before[b],
                    engages(old(state).kill_switch(), connected),
                    report_for(all_reports, b),
                    now,
                );
            }
        }
    }
}

/// Runs one tick now.
pub fn tick(state: &mut OrcState, vpn: &VpnStatus, reports: Vec<EngineReport>)
    ensures
        old(state).wf() ==> final(state).wf(),
        exists|now: u64| #[trigger] ticked(old(state), final(state), *vpn, reports@, now),
{
    let now = now_ms();
    tick_at(state, vpn, reports, now);
}

/// Whether the kill switch forbids to start, recheck or announce a
/// torrent: it is enabled, and the policy in force does not allow the
/// network.
pub open spec fn network_blocked(state: &OrcState) -> bool {
    state.kill_switch().enabled && !state.policy().effective.network_allowed
}

/// Checks that the kill switch allows network activity.
pub fn check_network_allowed(state: &OrcState) -> (r: Result<(), OrcError>)
    ensures
        r == if network_blocked(state) {
            Err::<(), _>(OrcError::PolicyRejected)
        } else {
            Ok(())
        },
{
    if state.kill_switch.enabled && !state.policy.effective.network_allowed {
        Err(OrcError::PolicyRejected)
    } else {
        Ok(())
    }
}

/// A record that keeps its id is found where the old one was found.
pub proof fn lemma_record_index_after_update(
    records: Seq<RecordView>,
    at: int,
    new: RecordView,
    id: Seq<char>,
    from: int,
)
    requires
        0 <= at < records.len(),
        0 <= from <= records.len(),
        new.torrent.id@ == records[at].torrent.id@,
    ensures
        record_index(records.update(at, new), id, from) == record_index(records, id, from),
    decreases records.len() - from,
{
    if from < records.len() && records[from].torrent.id@ != id {
        lemma_record_index_after_update(records, at, new, id, from + 1);
    }
}

/// After a torrent was stopped, its status shows it as stopped, with both
/// rates at 0.
pub proof fn lemma_stopped_torrent_shows_stopped(records: Seq<RecordView>, id: Seq<char>)
    requires
        record_index(records, id, 0) < records.len(),
    ensures
        ({
            let at = record_index(records, id, 0);
            let after = records.update(at, with_running(records[at], false));
            &&& record_index(after, id, 0) == at
            &&& status_of(after[at]).state == TorrentState::Stopped
            &&& status_of(after[at]).down_rate_bps == 0
            &&& status_of(after[at]).up_rate_bps == 0
        }),
{
    lemma_record_index(records, id, 0);
    let at = record_index(records, id, 0);
    lemma_record_index_after_update(records, at, with_running(records[at], false), id, 0);
}

/// When the VPN is lost while the kill switch is enabled and armed, a tick
/// without reports of the engine engages the switch and leaves no torrent
/// running: every torrent that ran is stopped.
pub proof fn lemma_vpn_loss_stops_all_torrents(
    before: &OrcState,
    after: &OrcState,
    vpn: VpnStatus,
    now: u64,
)
    requires
        ticked(before, after, vpn, Seq::empty(), now),
        before.kill_switch().enabled,
        before.kill_switch().enforcement_state == KillSwitchState::Armed,
        !vpn_connected(vpn),
    ensures
        after.kill_switch().enforcement_state == KillSwitchState::Engaged,
        after.kill_switch().last_enforcement_ms == Some(now),
        !after.policy().effective.network_allowed,
        forall|i: int|
            0 <= i < after.records().len() ==> {
                &&& !(#[trigger] after.records()[i]).runtime.running
                &&& before.records()[i].runtime.running ==> !after.records()[i].torrent.running
                    && after.records()[i].runtime.state == TorrentState::Stopped
            },
{
    assert forall|i: int| 0 <= i < after.records().len() implies {
        &&& !(#[trigger] after.records()[i]).runtime.running
        &&& before.records()[i].runtime.running ==> !after.records()[i].torrent.running
            && after.records()[i].runtime.state == TorrentState::Stopped
    } by {
        lemma_engaged_tick_stops_torrents(before.records()[i], now);
    }
}

/// When the VPN comes back while the kill switch is engaged, a tick without
/// reports of the engine arms the switch again and starts no torrent: what
/// the switch stopped stays stopped until it is started again.
pub proof fn lemma_vpn_return_rearms(
    before: &OrcState,
    after: &OrcState,
    vpn: VpnStatus,
    now: u64,
)
    requires
        ticked(before, after, vpn, Seq::empty(), now),
        before.kill_switch().enabled,
        before.kill_switch().enforcement_state == KillSwitchState::Engaged,
        vpn_connected(vpn),
    ensures
        after.kill_switch().enforcement_state == KillSwitchState::Armed,
        after.policy().effective.network_allowed,
        forall|i: int|
            0 <= i < after.records().len() ==> (#[trigger] after.records()[i]).runtime.running
                == before.records()[i].runtime.running && after.records()[i].torrent.running
                == before.records()[i].torrent.running && after.records()[i].runtime.state
                == before.records()[i].runtime.state,
{
    assert forall|i: int| 0 <= i < after.records().len() implies (
    #[trigger] after.records()[i]).runtime.running == before.records()[i].runtime.running
        && after.records()[i].torrent.running == before.records()[i].torrent.running
        && after.records()[i].runtime.state == before.records()[i].runtime.state by {
        lemma_quiet_tick_keeps_running(before.records()[i], now);
    }
}

} // verus!
