//! The record that the registry keeps of each torrent.

use crate::heartbeat::minus;
use crate::model::{clone_text, Torrent, TorrentFileEntry, TorrentState, TorrentStatus};
use crate::text::{ascii_lower, str_eq, texts, to_ascii_lower};
use vstd::prelude::*;
use vstd::string::*;
use vstd::utf8::*;

verus! {

/// Most torrents that the registry holds.
pub const MAX_TORRENTS: usize = 10000;

/// Most peers whose transfer totals are remembered for one torrent.
pub const MAX_PEER_SAMPLES_PER_TORRENT: usize = 1000;

/// Most heartbeat samples that are kept for one torrent.
pub const HEARTBEAT_MAX_SAMPLES: usize = 120;

/// Shortest time between two heartbeat samples, in milliseconds.
pub const HEARTBEAT_SAMPLE_INTERVAL_MS: u64 = 200;

/// The transfer totals of one peer when it was last seen.
#[derive(Debug)]
pub struct PeerSample {
    pub key: String,
    pub downloaded: u64,
    pub uploaded: u64,
    pub last_seen_ms: u64,
}

/// What is known of the announces to one tracker.
#[derive(Debug)]
pub struct TrackerRuntimeState {
    pub last_announce_ms: Option<u64>,
    pub next_announce_ms: Option<u64>,
    pub announce_count: u32,
    pub scrape_count: u32,
    pub last_error: Option<String>,
}

/// A state that is shown in place of the engine's until a deadline.
#[derive(Debug, Clone, Copy, PartialEq, Eq, Structural)]
pub struct StateOverride {
    pub until_ms: u64,
    pub state: TorrentState,
}

/// The progress of one peer when it was last seen, in millionths.
#[derive(Debug)]
pub struct PeerProgress {
    pub key: String,
    pub progress_ppm: u32,
}

/// What the engine reported of a torrent, and what is derived from it.
#[derive(Debug)]
pub struct TorrentRuntime {
    pub rqbit_id: usize,
    pub total_bytes: u64,
    pub downloaded_bytes: u64,
    pub uploaded_bytes: u64,
    pub running: bool,
    pub state: TorrentState,
    pub down_rate_bps: u64,
    pub up_rate_bps: u64,
    pub peers_seen: u32,
    pub files: Vec<TorrentFileEntry>,
    pub last_error: Option<String>,
    pub trackers: Vec<String>,
    pub tracker_state: Vec<TrackerRuntimeState>,
    pub peer_samples: Vec<PeerSample>,
    pub state_override: Option<StateOverride>,
    pub last_sample_ms: u64,
    pub last_downloaded_bytes: u64,
    pub last_uploaded_bytes: u64,
    pub heartbeat_samples: Vec<u64>,
    pub heartbeat_last_sample_ms: u64,
    pub heartbeat_last_bytes: u64,
    pub total_pieces_estimate: u32,
    pub piece_availability: Vec<u32>,
    pub peer_progress_cache: Vec<PeerProgress>,
}

/// A runtime with its lists as sequences.
pub ghost struct RuntimeView {
    pub rqbit_id: usize,
    pub total_bytes: u64,
    pub downloaded_bytes: u64,
    pub uploaded_bytes: u64,
    pub running: bool,
    pub state: TorrentState,
    pub down_rate_bps: u64,
    pub up_rate_bps: u64,
    pub peers_seen: u32,
    pub files: Seq<TorrentFileEntry>,
    pub last_error: Option<String>,
    pub trackers: Seq<String>,
    pub tracker_state: Seq<TrackerRuntimeState>,
    pub peer_samples: Seq<PeerSample>,
    pub state_override: Option<StateOverride>,
    pub last_sample_ms: u64,
    pub last_downloaded_bytes: u64,
    pub last_uploaded_bytes: u64,
    pub heartbeat_samples: Seq<u64>,
    pub heartbeat_last_sample_ms: u64,
    pub heartbeat_last_bytes: u64,
    pub total_pieces_estimate: u32,
    pub piece_availability: Seq<u32>,
    pub peer_progress_cache: Seq<PeerProgress>,
}

impl View for TorrentRuntime {
    type V = RuntimeView;

    open spec fn view(&self) -> RuntimeView {
        RuntimeView {
            rqbit_id: self.rqbit_id,
            total_bytes: self.total_bytes,
            downloaded_bytes: self.downloaded_bytes,
            uploaded_bytes: self.uploaded_bytes,
            running: self.running,
            state: self.state,
            down_rate_bps: self.down_rate_bps,
            up_rate_bps: self.up_rate_bps,
            peers_seen: self.peers_seen,
            files: self.files@,
            last_error: self.last_error,
            trackers: self.trackers@,
            tracker_state: self.tracker_state@,
            peer_samples: self.peer_samples@,
            state_override: self.state_override,
            last_sample_ms: self.last_sample_ms,
            last_downloaded_bytes: self.last_downloaded_bytes,
            last_uploaded_bytes: self.last_uploaded_bytes,
            heartbeat_samples: self.heartbeat_samples@,
            heartbeat_last_sample_ms: self.heartbeat_last_sample_ms,
            heartbeat_last_bytes: self.heartbeat_last_bytes,
            total_pieces_estimate: self.total_pieces_estimate,
            piece_availability: self.piece_availability@,
            peer_progress_cache: self.peer_progress_cache@,
        }
    }
}

/// A torrent and its runtime.
#[derive(Debug)]
pub struct TorrentRecord {
    pub torrent: Torrent,
    pub runtime: TorrentRuntime,
}

/// A record with the lists of its runtime as sequences.
pub ghost struct RecordView {
    pub torrent: Torrent,
    pub runtime: RuntimeView,
}

impl View for TorrentRecord {
    type V = RecordView;

    open spec fn view(&self) -> RecordView {
        RecordView { torrent: self.torrent, runtime: self.runtime@ }
    }
}

/// The peers that a table of samples is kept for, in order.
pub open spec fn sampled_peers(samples: Seq<PeerSample>) -> Seq<Seq<char>> {
    samples.map_values(|s: PeerSample| s.key@)
}

/// The peers whose progress is remembered, in order.
pub open spec fn remembered_peers(cache: Seq<PeerProgress>) -> Seq<Seq<char>> {
    cache.map_values(|p: PeerProgress| p.key@)
}

/// What every runtime keeps: no tracker is listed twice, and there is one
/// state per tracker; no peer has two samples or two remembered values of
/// its progress; there are no more heartbeat samples and peer samples than
/// allowed; and there is one availability counter per estimated piece.
pub open spec fn runtime_wf(rt: RuntimeView) -> bool {
    &&& texts(rt.trackers).no_duplicates()
    &&& rt.tracker_state.len() == rt.trackers.len()
    &&& rt.heartbeat_samples.len() <= HEARTBEAT_MAX_SAMPLES
    &&& rt.peer_samples.len() <= MAX_PEER_SAMPLES_PER_TORRENT
    &&& sampled_peers(rt.peer_samples).no_duplicates()
    &&& remembered_peers(rt.peer_progress_cache).no_duplicates()
    &&& rt.piece_availability.len() == rt.total_pieces_estimate
}

/// Taking an item out of a sequence without repeats leaves no repeats.
pub proof fn lemma_remove_keeps_distinct<A>(s: Seq<A>, at: int)
    requires
        0 <= at < s.len(),
        s.no_duplicates(),
    ensures
        s.remove(at).no_duplicates(),
{
}

/// Putting an item that does not occur behind a sequence without repeats
/// leaves no repeats.
pub proof fn lemma_push_keeps_distinct<A>(s: Seq<A>, x: A)
    requires
        s.no_duplicates(),
        !s.contains(x),
    ensures
        s.push(x).no_duplicates(),
{
    let r = s.push(x);
    assert forall|i: int, j: int| 0 <= i < r.len() && 0 <= j < r.len() && i != j implies r[i]
        != r[j] by {
        if i < s.len() {
            assert(s.contains(s[i]));
        }
        if j < s.len() {
            assert(s.contains(s[j]));
        }
    }
}

/// The share `part / whole` in millionths, rounded down; `part` counts as
/// at most `whole`, and the share of nothing is 0.
pub open spec fn share_ppm(part: u64, whole: u64) -> u32 {
    if whole == 0 {
        0
    } else if part >= whole {
        1_000_000
    } else {
        (part * 1_000_000 / (whole as int)) as u32
    }
}

/// Computes a share in millionths.
pub fn compute_share_ppm(part: u64, whole: u64) -> (r: u32)
    ensures
        r == share_ppm(part, whole),
        r <= 1_000_000,
{
    if whole == 0 {
        return 0;
    }
    if part >= whole {
        return 1_000_000;
    }
    let scaled: u128 = part as u128 * 1_000_000;
    let share: u128 = scaled / (whole as u128);
    assert(share <= 1_000_000) by (nonlinear_arith)
        requires
            share == scaled / (whole as u128),
            scaled == part * 1_000_000,
            part < whole,
            whole > 0,
    ;
    share as u32
}

/// The live figures of a torrent: its state and totals as they are, its
/// progress as the downloaded share of the total, and the time that the
/// rest takes at the current download rate (0 where nothing comes in).
pub open spec fn status_of(rec: RecordView) -> TorrentStatus {
    let rt = rec.runtime;
    TorrentStatus {
        id: rec.torrent.id,
        state: rt.state,
        progress_ppm: share_ppm(rt.downloaded_bytes, rt.total_bytes),
        down_rate_bps: rt.down_rate_bps,
        up_rate_bps: rt.up_rate_bps,
        eta_sec: if rt.down_rate_bps > 0 {
            (minus(rt.total_bytes, rt.downloaded_bytes) / rt.down_rate_bps) as u64
        } else {
            0
        },
        total_bytes: rt.total_bytes,
        downloaded_bytes: rt.downloaded_bytes,
        peers_seen: rt.peers_seen,
        error: rt.last_error,
    }
}

/// Reads the live figures of a torrent off its record.
pub fn torrent_status_from_record(r: &TorrentRecord) -> (s: TorrentStatus)
    ensures
        s == status_of(r@),
{
    let remaining = r.runtime.total_bytes.saturating_sub(r.runtime.downloaded_bytes);
    let eta_sec = if r.runtime.down_rate_bps > 0 {
        remaining / r.runtime.down_rate_bps
    } else {
        0
    };
    TorrentStatus {
        id: r.torrent.id.clone(),
        state: r.runtime.state,
        progress_ppm: compute_share_ppm(r.runtime.downloaded_bytes, r.runtime.total_bytes),
        down_rate_bps: r.runtime.down_rate_bps,
        up_rate_bps: r.runtime.up_rate_bps,
        eta_sec,
        total_bytes: r.runtime.total_bytes,
        downloaded_bytes: r.runtime.downloaded_bytes,
        peers_seen: r.runtime.peers_seen,
        error: clone_text(&r.runtime.last_error),
    }
}

/// A record after the torrent was started or stopped. A started torrent
/// seeds where everything is downloaded and downloads otherwise; a stopped
/// one is in the stopped state with both rates at 0.
pub open spec fn with_running(rec: RecordView, running: bool) -> RecordView {
    let rt = rec.runtime;
    RecordView {
        torrent: Torrent { running: running, ..rec.torrent },
        runtime: if running {
            RuntimeView {
                running: true,
                state: if rt.downloaded_bytes >= rt.total_bytes {
                    TorrentState::Seeding
                } else {
                    TorrentState::Downloading
                },
                ..rt
            }
        } else {
            RuntimeView {
                running: false,
                state: TorrentState::Stopped,
                down_rate_bps: 0,
                up_rate_bps: 0,
                ..rt
            }
        },
    }
}

/// Starts or stops the torrent of a record.
pub fn set_record_running(rec: &mut TorrentRecord, running: bool)
    ensures
        final(rec)@ == with_running(old(rec)@, running),
{
    rec.torrent.running = running;
    rec.runtime.running = running;
    if running {
        if rec.runtime.downloaded_bytes >= rec.runtime.total_bytes {
            rec.runtime.state = TorrentState::Seeding;
        } else {
            rec.runtime.state = TorrentState::Downloading;
        }
    } else {
        rec.runtime.down_rate_bps = 0;
        rec.runtime.up_rate_bps = 0;
        rec.runtime.state = TorrentState::Stopped;
    }
}

/// A stopped torrent shows as stopped, and both of its rates are 0.
pub proof fn lemma_stopped_status(rec: RecordView)
    ensures
        status_of(with_running(rec, false)).state == TorrentState::Stopped,
        status_of(with_running(rec, false)).down_rate_bps == 0,
        status_of(with_running(rec, false)).up_rate_bps == 0,
        !with_running(rec, false).torrent.running,
        !with_running(rec, false).runtime.running,
{
}

/// A record after the kill switch engaged: a running torrent is stopped,
/// with both rates at 0; one that does not run stays as it is.
pub open spec fn halted(rec: RecordView) -> RecordView {
    if rec.runtime.running {
        RecordView {
            torrent: Torrent { running: false, ..rec.torrent },
            runtime: RuntimeView {
                running: false,
                state: TorrentState::Stopped,
                down_rate_bps: 0,
                up_rate_bps: 0,
                ..rec.runtime
            },
        }
    } else {
        rec
    }
}

/// Stops the torrent of a record for the kill switch.
pub fn halt_record(rec: &mut TorrentRecord)
    ensures
        final(rec)@ == halted(old(rec)@),
{
    if rec.runtime.running {
        rec.runtime.running = false;
        rec.torrent.running = false;
        rec.runtime.state = TorrentState::Stopped;
        rec.runtime.down_rate_bps = 0;
        rec.runtime.up_rate_bps = 0;
    }
}

/// Two lists of strings hold the same texts in the same order.
pub fn same_path(a: &Vec<String>, b: &Vec<String>) -> (r: bool)
    ensures
        r == (texts(a@) == texts(b@)),
{
    if a.len() != b.len() {
        return false;
    }
    let mut i: usize = 0;
    while i < a.len()
        invariant
            i <= a.len(),
            a.len() == b.len(),
            forall|j: int| 0 <= j < i ==> a@[j]@ == b@[j]@,
        decreases a.len() - i,
    {
        if !str_eq(a[i].as_str(), b[i].as_str()) {
            assert(texts(a@)[i as int] != texts(b@)[i as int]);
            return false;
        }
        i += 1;
    }
    assert(texts(a@) =~= texts(b@));
    true
}

/// Some path of `paths` spells the path `path`.
pub open spec fn names_path(paths: Seq<Vec<String>>, path: Seq<String>) -> bool {
    exists|k: int| 0 <= k < paths.len() && texts(#[trigger] paths[k]@) == texts(path)
}

/// The files after a change of priority: every file whose path is among
/// `paths` has the new priority, and every other file is as it was.
pub open spec fn files_prioritized(
    files: Seq<TorrentFileEntry>,
    paths: Seq<Vec<String>>,
    priority: String,
) -> Seq<TorrentFileEntry> {
    Seq::new(
        files.len(),
        |i: int|
            if names_path(paths, files[i].path@) {
                TorrentFileEntry { priority: priority, ..files[i] }
            } else {
                files[i]
            },
    )
}

/// Tells whether some path of `paths` spells `path`.
fn path_listed(paths: &Vec<Vec<String>>, path: &Vec<String>) -> (r: bool)
    ensures
        r == names_path(paths@, path@),
{
    let mut k: usize = 0;
    while k < paths.len()
        invariant
            k <= paths.len(),
            forall|j: int| 0 <= j < k ==> texts(#[trigger] paths@[j]@) != texts(path@),
        decreases paths.len() - k,
    {
        if same_path(&paths[k], path) {
            return true;
        }
        k += 1;
    }
    false
}

/// Gives every file whose path is among `paths` the priority `priority`.
pub fn set_record_file_priority(
    rec: &mut TorrentRecord,
    paths: &Vec<Vec<String>>,
    priority: &String,
)
    ensures
        final(rec)@ == (RecordView {
            runtime: RuntimeView {
                files: files_prioritized(old(rec)@.runtime.files, paths@, *priority),
                ..old(rec)@.runtime
            },
            ..old(rec)@
        }),
{
    let n = rec.runtime.files.len();
    let mut i: usize = 0;
    while i < n
        invariant
            i <= n,
            n == old(rec)@.runtime.files.len(),
            rec@ == (RecordView {
                runtime: RuntimeView { files: rec@.runtime.files, ..old(rec)@.runtime },
                ..old(rec)@
            }),
            rec@.runtime.files.len() == n,
            forall|j: int|
                0 <= j < i ==> #[trigger] rec@.runtime.files[j] == files_prioritized(
                    old(rec)@.runtime.files,
                    paths@,
                    *priority,
                )[j],
            forall|j: int|
                i <= j < n ==> #[trigger] rec@.runtime.files[j] == old(rec)@.runtime.files[j],
        decreases n - i,
    {
        let listed = path_listed(paths, &rec.runtime.files[i].path);
        if listed {
            let f = &mut rec.runtime.files[i];
            f.priority = priority.clone();
        }
        i += 1;
    }
    assert(rec@.runtime.files =~= files_prioritized(
        old(rec)@.runtime.files,
        paths@,
        *priority,
    ));
}

/// Two byte sequences are equal once ASCII letters are lower-cased.
pub open spec fn same_ignoring_case(a: Seq<u8>, b: Seq<u8>) -> bool {
    a.len() == b.len() && forall|i: int|
        0 <= i < a.len() ==> ascii_lower(#[trigger] a[i]) == ascii_lower(b[i])
}

/// Compares two texts without regard to the case of ASCII letters.
pub fn eq_ignore_ascii_case(a: &str, b: &str) -> (r: bool)
    ensures
        r == same_ignoring_case(encode_utf8(a@), encode_utf8(b@)),
{
    let x = a.as_bytes();
    let y = b.as_bytes();
    if x.len() != y.len() {
        return false;
    }
    let mut i: usize = 0;
    while i < x.len()
        invariant
            i <= x.len(),
            x.len() == y.len(),
            x@ == encode_utf8(a@),
            y@ == encode_utf8(b@),
            forall|j: int| 0 <= j < i ==> ascii_lower(#[trigger] x@[j]) == ascii_lower(y@[j]),
        decreases x.len() - i,
    {
        if to_ascii_lower(x[i]) != to_ascii_lower(y[i]) {
            return false;
        }
        i += 1;
    }
    true
}

/// The record carries the given info-hash, in whatever case.
pub open spec fn has_info_hash(rec: RecordView, hash: Seq<char>) -> bool {
    rec.torrent.info_hash_hex is Some && same_ignoring_case(
        encode_utf8(rec.torrent.info_hash_hex->0@),
        encode_utf8(hash),
    )
}

/// Everything of the torrent is downloaded, and it is not empty.
pub open spec fn is_complete(rec: RecordView) -> bool {
    rec.runtime.downloaded_bytes >= rec.runtime.total_bytes && rec.runtime.total_bytes > 0
}

/// The progress of a torrent lies between nothing and everything,
/// whatever the engine reports of its bytes.
pub proof fn lemma_share_bounded(part: u64, whole: u64)
    ensures
        share_ppm(part, whole) <= 1_000_000,
        part >= whole && whole > 0 ==> share_ppm(part, whole) == 1_000_000,
        whole == 0 ==> share_ppm(part, whole) == 0,
{
    if whole > 0 && part < whole {
        assert(part * 1_000_000 / (whole as int) <= 1_000_000) by (nonlinear_arith)
            requires
                0 <= part < whole,
        ;
    }
}

} // verus!
