//! Turning what the engine confirms of a new torrent into a record.

use crate::magnet::{dedup_preserve, deduped, magnet_trackers, named_by_magnet};
use crate::metainfo::{parse_trackers_from_torrent_bytes, torrent_trackers};
use crate::model::{
    files_view, FileView, Torrent, TorrentFileEntry, TorrentMode, TorrentProfile, TorrentState,
};
use crate::record::{RecordView, TorrentRecord, TorrentRuntime, TrackerRuntimeState};
use crate::requests::{base64_decode, base64_decoded, AddTorrentRequest};
use crate::sanitize::{path_components, split_path_components};
use crate::text::{
    blank, chars_of, contains_text, is_blank, lowercased, string_of, text_contains, texts,
    to_lowercase, trim_chars, trimmed,
};
use crate::trackers::plus;
use vstd::prelude::*;
use vstd::string::*;
use vstd::utf8::*;

verus! {

/// A torrent larger than this counts as very large.
pub const VERY_LARGE_TORRENT_THRESHOLD: u64 = 4 * 1024 * 1024 * 1024;

/// A torrent larger than this counts as large.
pub const LARGE_TORRENT_THRESHOLD: u64 = 500 * 1024 * 1024;

/// A torrent larger than this counts as medium.
pub const MEDIUM_TORRENT_THRESHOLD: u64 = 50 * 1024 * 1024;

/// The piece size that is assumed for a very large torrent.
pub const VERY_LARGE_PIECE_SIZE: u64 = 4 * 1024 * 1024;

/// The piece size that is assumed for a large torrent.
pub const LARGE_PIECE_SIZE: u64 = 2 * 1024 * 1024;

/// The piece size that is assumed for a medium torrent.
pub const MEDIUM_PIECE_SIZE: u64 = 512 * 1024;

/// The piece size that is assumed for any other torrent.
pub const DEFAULT_PIECE_SIZE: u64 = 256 * 1024;

/// One file of a torrent as the engine names it.
#[derive(Debug)]
pub struct EngineFile {
    pub name: String,
    pub length: u64,
}

/// What the engine confirms of a torrent that it was asked to add.
#[derive(Debug)]
pub struct EngineAddResponse {
    pub id: Option<usize>,
    pub info_hash: String,
    pub name: Option<String>,
    pub output_folder: String,
    pub files: Option<Vec<EngineFile>>,
}

/// The piece size that is assumed for a torrent of the given size.
pub open spec fn assumed_piece_size(total: u64) -> u64 {
    if total > VERY_LARGE_TORRENT_THRESHOLD {
        VERY_LARGE_PIECE_SIZE
    } else if total > LARGE_TORRENT_THRESHOLD {
        LARGE_PIECE_SIZE
    } else if total > MEDIUM_TORRENT_THRESHOLD {
        MEDIUM_PIECE_SIZE
    } else {
        DEFAULT_PIECE_SIZE
    }
}

/// The number of pieces that a torrent of the given size is estimated to
/// have: its size over the assumed piece size, at least 1 and at most
/// `u32::MAX`.
pub open spec fn estimated_pieces(total: u64) -> u32 {
    let pieces = total / assumed_piece_size(total);
    if pieces < 1 {
        1
    } else if pieces > u32::MAX {
        u32::MAX
    } else {
        pieces as u32
    }
}

/// Estimates the number of pieces of a torrent from its size. The estimate
/// serves the piece map only; the engine knows the real piece size.
pub fn estimate_pieces(total: u64) -> (r: u32)
    ensures
        r == estimated_pieces(total),
        r >= 1,
{
    let piece_size = if total > VERY_LARGE_TORRENT_THRESHOLD {
        VERY_LARGE_PIECE_SIZE
    } else if total > LARGE_TORRENT_THRESHOLD {
        LARGE_PIECE_SIZE
    } else if total > MEDIUM_TORRENT_THRESHOLD {
        MEDIUM_PIECE_SIZE
    } else {
        DEFAULT_PIECE_SIZE
    };
    let pieces = total / piece_size;
    if pieces < 1 {
        1
    } else if pieces > u32::MAX as u64 {
        u32::MAX
    } else {
        pieces as u32
    }
}

/// The first `n` characters of a text, or all of it where it has fewer.
pub open spec fn first_chars(s: Seq<char>, n: nat) -> Seq<char> {
    if s.len() <= n {
        s
    } else {
        s.take(n as int)
    }
}

/// The name of a new torrent: the name hint of the request unless it is
/// blank, else the name that the engine reports unless that is blank, else
/// `torrent-` and the first 8 characters of the info-hash.
pub open spec fn resolved_name(
    hint: Option<String>,
    engine_name: Option<String>,
    info_hash: Seq<char>,
) -> Seq<char> {
    if hint is Some && !blank(hint->0@) {
        hint->0@
    } else if engine_name is Some && !blank(engine_name->0@) {
        engine_name->0@
    } else {
        "torrent-"@ + first_chars(info_hash, 8)
    }
}

/// Decides the name of a new torrent.
pub fn resolve_name(hint: &Option<String>, engine_name: &Option<String>, info_hash: &str) -> (name:
    String)
    ensures
        name@ == resolved_name(*hint, *engine_name, info_hash@),
{
    if let Some(h) = hint {
        if !is_blank(h.as_str()) {
            return h.clone();
        }
    }
    if let Some(n) = engine_name {
        if !is_blank(n.as_str()) {
            return n.clone();
        }
    }
    let chars = chars_of(info_hash);
    let mut name = "torrent-".to_owned();
    let mut i: usize = 0;
    while i < chars.len() && i < 8
        invariant
            i <= chars.len(),
            i <= 8,
            name@ == "torrent-"@ + chars@.take(i as int),
        decreases chars.len() - i,
    {
        name.push(chars[i]);
        i += 1;
    }
    name
}

/// The size of all files together, capped at `u64::MAX`.
pub open spec fn total_size(files: Seq<EngineFile>) -> u64
    decreases files.len(),
{
    if files.len() == 0 {
        0
    } else {
        plus(total_size(files.drop_last()), files.last().length)
    }
}

/// The entry of a file that the engine names: its path split into safe
/// components, with normal priority, not yet downloaded.
pub open spec fn fresh_file(f: EngineFile) -> FileView {
    FileView {
        path: path_components(f.name@),
        size: f.length,
        priority: "normal"@,
        downloaded: false,
    }
}

/// The files of what the engine confirms; none where it names none.
pub open spec fn confirmed_files(resp: EngineAddResponse) -> Seq<EngineFile> {
    match resp.files {
        Some(files) => files@,
        None => Seq::empty(),
    }
}

/// The trackers that a request names: those of its magnet link, then those
/// of its torrent file where that decodes.
pub open spec fn named_trackers(req: AddTorrentRequest) -> Seq<Seq<char>> {
    (match req.magnet {
        Some(m) => magnet_trackers(encode_utf8(m@)),
        None => Seq::empty(),
    }) + (match req.torrent_b64 {
        Some(b) => match base64_decoded(b@) {
            Some(bytes) => torrent_trackers(bytes),
            None => Seq::empty(),
        },
        None => Seq::empty(),
    })
}

/// The trackers of a torrent that is added for a request: those that the
/// request names, each only once.
pub open spec fn request_trackers(req: AddTorrentRequest) -> Seq<Seq<char>> {
    deduped(named_trackers(req))
}

/// Collects the trackers that a request names.
pub fn collect_trackers(req: &AddTorrentRequest) -> (out: Vec<String>)
    ensures
        texts(out@) == request_trackers(*req),
{
    let mut all: Vec<String> = Vec::new();
    if let Some(m) = &req.magnet {
        all = named_by_magnet(m.as_str());
    }
    let ghost first = texts(all@);
    if let Some(b) = &req.torrent_b64 {
        if let Some(bytes) = base64_decode(b.as_str()) {
            let mut more = parse_trackers_from_torrent_bytes(bytes.as_slice());
            all.append(&mut more);
        }
    }
    assert(texts(all@) =~= first + match req.torrent_b64 {
        Some(b) => match base64_decoded(b@) {
            Some(bytes) => torrent_trackers(bytes),
            None => Seq::empty(),
        },
        None => Seq::empty(),
    });
    dedup_preserve(all)
}

/// The state of a tracker that was never announced to.
pub open spec fn is_idle_tracker(t: TrackerRuntimeState) -> bool {
    t.last_announce_ms is None && t.next_announce_ms is None && t.announce_count == 0
        && t.scrape_count == 0 && t.last_error is None
}

/// Whether `rec` is the record of a torrent that was added at time `now`
/// under the id `id`, from the request `req` and from what the engine
/// confirmed. The torrent runs and shows as checking; nothing is
/// downloaded yet, no peer is known, and every counter of the piece map
/// is 0.
pub open spec fn is_fresh_record(
    rec: RecordView,
    id: String,
    now: u64,
    req: AddTorrentRequest,
    rqbit_id: usize,
    resp: EngineAddResponse,
) -> bool {
    let rt = rec.runtime;
    let total = total_size(confirmed_files(resp));
    &&& rec.torrent.id == id
    &&& rec.torrent.name@ == resolved_name(req.name_hint, resp.name, resp.info_hash@)
    &&& rec.torrent.added_at_ms == now
    &&& rec.torrent.running
    &&& rec.torrent.profile == TorrentProfile { mode: TorrentMode::Standard, hops: 0 }
    &&& rec.torrent.info_hash_hex == Some(resp.info_hash)
    &&& rec.torrent.save_path == Some(resp.output_folder)
    &&& rt.rqbit_id == rqbit_id
    &&& rt.total_bytes == total
    &&& rt.downloaded_bytes == 0
    &&& rt.uploaded_bytes == 0
    &&& rt.running
    &&& rt.state == TorrentState::Checking
    &&& rt.down_rate_bps == 0
    &&& rt.up_rate_bps == 0
    &&& rt.peers_seen == 0
    &&& files_view(rt.files) == confirmed_files(resp).map_values(|f: EngineFile| fresh_file(f))
    &&& rt.last_error is None
    &&& texts(rt.trackers) == request_trackers(req)
    &&& rt.tracker_state.len() == rt.trackers.len()
    &&& forall|i: int| 0 <= i < rt.tracker_state.len() ==> is_idle_tracker(
        #[trigger] rt.tracker_state[i],
    )
    &&& rt.peer_samples.len() == 0
    &&& rt.state_override is None
    &&& rt.last_sample_ms == now
    &&& rt.last_downloaded_bytes == 0
    &&& rt.last_uploaded_bytes == 0
    &&& rt.heartbeat_samples.len() == 0
    &&& rt.heartbeat_last_sample_ms == now
    &&& rt.heartbeat_last_bytes == 0
    &&& rt.total_pieces_estimate == estimated_pieces(total)
    &&& rt.piece_availability.len() == estimated_pieces(total)
    &&& forall|i: int| 0 <= i < rt.piece_availability.len() ==> #[trigger] rt.piece_availability[i]
        == 0
    &&& rt.peer_progress_cache.len() == 0
}

/// Builds the entries of the files that the engine names and adds up
/// their sizes.
fn build_files(files: &Option<Vec<EngineFile>>) -> (r: (Vec<TorrentFileEntry>, u64))
    ensures
        files_view(r.0@) == (match *files {
            Some(f) => f@,
            None => Seq::empty(),
        }).map_values(|f: EngineFile| fresh_file(f)),
        r.1 == total_size(
            match *files {
                Some(f) => f@,
                None => Seq::empty(),
            },
        ),
{
    let mut out: Vec<TorrentFileEntry> = Vec::new();
    let mut total: u64 = 0;
    match files {
        Some(list) => {
            let mut i: usize = 0;
            while i < list.len()
                invariant
                    i <= list.len(),
                    files_view(out@) == list@.take(i as int).map_values(
                        |f: EngineFile| fresh_file(f),
                    ),
                    total == total_size(list@.take(i as int)),
                decreases list.len() - i,
            {
                let f = &list[i];
                let entry = TorrentFileEntry {
                    path: split_path_components(f.name.as_str()),
                    size: f.length,
                    priority: "normal".to_owned(),
                    downloaded: false,
                };
                let ghost before = files_view(out@);
                let ghost made = entry@;
                out.push(entry);
                total = total.saturating_add(f.length);
                proof {
                    assert(files_view(out@) =~= before.push(made));
                    assert(list@.take(i + 1).drop_last() =~= list@.take(i as int));
                }
                i += 1;
            }
            assert(list@.take(list.len() as int) =~= list@);
        },
        None => {},
    }
    (out, total)
}

/// Builds the record of a torrent that the engine has added.
pub fn build_record(
    id: String,
    now: u64,
    req: &AddTorrentRequest,
    rqbit_id: usize,
    resp: EngineAddResponse,
) -> (rec: TorrentRecord)
    ensures
        is_fresh_record(rec@, id, now, *req, rqbit_id, resp),
        crate::record::runtime_wf(rec@.runtime),
{
    let name = resolve_name(&req.name_hint, &resp.name, resp.info_hash.as_str());
    let (files, total_bytes) = build_files(&resp.files);
    let trackers = collect_trackers(req);
    proof {
        crate::magnet::lemma_deduped(named_trackers(*req));
    }
    let mut tracker_state: Vec<TrackerRuntimeState> = Vec::new();
    let mut i: usize = 0;
    while i < trackers.len()
        invariant
            i <= trackers.len(),
            tracker_state.len() == i,
            forall|k: int| 0 <= k < i ==> is_idle_tracker(#[trigger] tracker_state@[k]),
        decreases trackers.len() - i,
    {
        tracker_state.push(
            TrackerRuntimeState {
                last_announce_ms: None,
                next_announce_ms: None,
                announce_count: 0,
                scrape_count: 0,
                last_error: None,
            },
        );
        i += 1;
    }
    let total_pieces_estimate = estimate_pieces(total_bytes);
    let mut piece_availability: Vec<u32> = Vec::new();
    let mut k: u32 = 0;
    while k < total_pieces_estimate
        invariant
            k <= total_pieces_estimate,
            piece_availability.len() == k,
            forall|j: int| 0 <= j < k ==> #[trigger] piece_availability@[j] == 0,
        decreases total_pieces_estimate - k,
    {
        piece_availability.push(0);
        k += 1;
    }
    let torrent = Torrent {
        id,
        name,
        added_at_ms: now,
        running: true,
        profile: TorrentProfile { mode: TorrentMode::Standard, hops: 0 },
        info_hash_hex: Some(resp.info_hash),
        save_path: Some(resp.output_folder),
    };
    let runtime = TorrentRuntime {
        rqbit_id,
        total_bytes,
        downloaded_bytes: 0,
        uploaded_bytes: 0,
        running: true,
        state: TorrentState::Checking,
        down_rate_bps: 0,
        up_rate_bps: 0,
        peers_seen: 0,
        files,
        last_error: None,
        trackers,
        tracker_state,
        peer_samples: Vec::new(),
        state_override: None,
        last_sample_ms: now,
        last_downloaded_bytes: 0,
        last_uploaded_bytes: 0,
        heartbeat_samples: Vec::new(),
        heartbeat_last_sample_ms: now,
        heartbeat_last_bytes: 0,
        total_pieces_estimate,
        piece_availability,
        peer_progress_cache: Vec::new(),
    };
    TorrentRecord { torrent, runtime }
}

/// Whether a failure of the engine to add a torrent says that the files
/// of the torrent are on disk already, in which case the torrent is added
/// once more over the files that are there: the message, in lower case,
/// holds `file exists`, `already exists` or `eexist`.
pub open spec fn names_existing_file(message: Seq<char>) -> bool {
    let m = lowercased(message);
    contains_text(m, "file exists"@) || contains_text(m, "already exists"@) || contains_text(
        m,
        "eexist"@,
    )
}

/// Tells whether a failure of the engine says that the files of the
/// torrent are on disk already.
pub fn is_file_exists_error(message: &str) -> (r: bool)
    ensures
        r == names_existing_file(message@),
{
    let lower = to_lowercase(message);
    let hay = chars_of(lower.as_str());
    let a = chars_of("file exists");
    let b = chars_of("already exists");
    let c = chars_of("eexist");
    text_contains(hay.as_slice(), a.as_slice()) || text_contains(hay.as_slice(), b.as_slice())
        || text_contains(hay.as_slice(), c.as_slice())
}

/// The folder that a request asks to save to: its save path without
/// surrounding whitespace, unless that is empty.
pub open spec fn requested_folder(req: AddTorrentRequest) -> Option<Seq<char>> {
    match req.save_path {
        Some(p) => if trimmed(p@).len() == 0 {
            None
        } else {
            Some(trimmed(p@))
        },
        None => None,
    }
}

/// Reads the folder that a request asks to save to. A request that names
/// none is saved below the default download directory.
pub fn requested_save_path(req: &AddTorrentRequest) -> (r: Option<String>)
    ensures
        crate::metainfo::text_of(r) == requested_folder(*req),
{
    match &req.save_path {
        Some(p) => {
            let chars = chars_of(p.as_str());
            let cut = trim_chars(&chars);
            if cut.len() == 0 {
                None
            } else {
                Some(string_of(cut.as_slice()))
            }
        },
        None => None,
    }
}

} // verus!
