//! What the transfer engine reports of a torrent, and what a report does
//! to the torrent's record.

use crate::heartbeat::{bytes_per_second, minus, rate_per_sec};
use crate::json::{as_unsigned, counts_of, get_member, member, pick_unsigned, picked, read_counts, JsonValue};
use crate::model::{Torrent, TorrentFileEntry, TorrentState};
use crate::record::{RecordView, RuntimeView, StateOverride, TorrentRecord, TorrentRuntime};
use crate::text::str_eq;
use vstd::prelude::*;
use vstd::string::*;

verus! {

/// The live statistics of one torrent.
#[derive(Debug)]
pub struct EngineStats {
    pub total_bytes: u64,
    pub progress_bytes: u64,
    pub uploaded_bytes: u64,
    pub finished: bool,
    pub state: String,
    pub error: Option<String>,
    pub file_progress: Option<Vec<u64>>,
}

/// What a query for the statistics of one torrent came to.
#[derive(Debug)]
pub enum EngineReport {
    /// The engine failed, with this message.
    Failed(String),
    /// The engine answered, and the answer could not be read.
    Unreadable,
    /// The engine answered with these statistics.
    Stats(EngineStats),
}

/// `found`, or `fallback` where nothing was found.
pub open spec fn or_default<T>(found: Option<T>, fallback: T) -> T {
    match found {
        Some(x) => x,
        None => fallback,
    }
}

/// Whether `stats` holds what the report `v` says: the byte totals (0 where
/// missing; the progress under `progress_bytes` or else `downloaded_bytes`),
/// the `finished` flag (`false` where missing), the state (`error` where
/// missing), the error text, and the progress of each file.
pub open spec fn stats_match(stats: EngineStats, v: JsonValue) -> bool {
    &&& stats.total_bytes == or_default(
        picked(v, seq!["total_bytes"], 0, |m: JsonValue| as_unsigned(m)),
        0,
    )
    &&& stats.progress_bytes == or_default(
        picked(v, seq!["progress_bytes", "downloaded_bytes"], 0, |m: JsonValue| as_unsigned(m)),
        0,
    )
    &&& stats.uploaded_bytes == or_default(
        picked(v, seq!["uploaded_bytes"], 0, |m: JsonValue| as_unsigned(m)),
        0,
    )
    &&& stats.finished == (match member(v, "finished"@) {
        Some(JsonValue::Bool(b)) => b,
        _ => false,
    })
    &&& stats.state@ == (match member(v, "state"@) {
        Some(JsonValue::Text(s)) => s@,
        _ => "error"@,
    })
    &&& (match member(v, "error"@) {
        Some(JsonValue::Text(s)) => stats.error is Some && stats.error->0@ == s@,
        _ => stats.error is None,
    })
    &&& (match member(v, "file_progress"@) {
        Some(JsonValue::Array(items)) => stats.file_progress is Some && stats.file_progress->0@
            == counts_of(items@),
        _ => stats.file_progress is None,
    })
}

/// Reads the statistics of a torrent out of a report of the engine.
pub fn stats_from_json(v: &JsonValue) -> (stats: EngineStats)
    ensures
        stats_match(stats, *v),
{
    let total_keys = ["total_bytes"];
    let progress_keys = ["progress_bytes", "downloaded_bytes"];
    let uploaded_keys = ["uploaded_bytes"];
    assert(total_keys@ =~= seq!["total_bytes"]);
    assert(uploaded_keys@ =~= seq!["uploaded_bytes"]);
    let total_bytes = match pick_unsigned(v, total_keys.as_slice()) {
        Some(n) => n,
        None => 0,
    };
    let progress_bytes = match pick_unsigned(v, progress_keys.as_slice()) {
        Some(n) => n,
        None => 0,
    };
    let uploaded_bytes = match pick_unsigned(v, uploaded_keys.as_slice()) {
        Some(n) => n,
        None => 0,
    };
    let finished = match get_member(v, "finished") {
        Some(JsonValue::Bool(b)) => *b,
        _ => false,
    };
    let state = match get_member(v, "state") {
        Some(JsonValue::Text(s)) => s.clone(),
        _ => "error".to_owned(),
    };
    let error = match get_member(v, "error") {
        Some(JsonValue::Text(s)) => Some(s.clone()),
        _ => None,
    };
    let file_progress = match get_member(v, "file_progress") {
        Some(JsonValue::Array(items)) => Some(read_counts(items)),
        _ => None,
    };
    EngineStats { total_bytes, progress_bytes, uploaded_bytes, finished, state, error, file_progress }
}

/// The state that a state name of the engine stands for: `paused` is
/// stopped, `initializing` is checking, `error` is an error, and every
/// other name is seeding for a finished torrent and downloading otherwise.
pub open spec fn mapped_state(name: Seq<char>, finished: bool) -> TorrentState {
    if name == "paused"@ {
        TorrentState::Stopped
    } else if name == "initializing"@ {
        TorrentState::Checking
    } else if name == "error"@ {
        TorrentState::Error
    } else if finished {
        TorrentState::Seeding
    } else {
        TorrentState::Downloading
    }
}

/// Maps a state name of the engine to a state; an unknown name is no error.
pub fn map_state(name: &str, finished: bool) -> (s: TorrentState)
    ensures
        s == mapped_state(name@, finished),
{
    if str_eq(name, "paused") {
        TorrentState::Stopped
    } else if str_eq(name, "initializing") {
        TorrentState::Checking
    } else if str_eq(name, "error") {
        TorrentState::Error
    } else if finished {
        TorrentState::Seeding
    } else {
        TorrentState::Downloading
    }
}

/// The state that is shown at time `now`: that of an override whose
/// deadline has not come, else the computed one.
pub open spec fn shown_state(
    computed: TorrentState,
    over: Option<StateOverride>,
    now: u64,
) -> TorrentState {
    match over {
        Some(o) => if now < o.until_ms {
            o.state
        } else {
            computed
        },
        None => computed,
    }
}

/// The override that is left at time `now`: one whose deadline has come is
/// cleared for good.
pub open spec fn kept_override(over: Option<StateOverride>, now: u64) -> Option<StateOverride> {
    match over {
        Some(o) => if now < o.until_ms {
            over
        } else {
            None
        },
        None => None,
    }
}

/// Whether a torrent in this state counts as running.
pub open spec fn state_runs(s: TorrentState) -> bool {
    s != TorrentState::Stopped && s != TorrentState::Error
}

/// A file that is not skipped.
pub open spec fn wanted(f: TorrentFileEntry) -> bool {
    f.priority@ != "skip"@
}

/// The files after a report: with a progress per file, a file counts as
/// downloaded where its progress has reached its size and it is wanted;
/// without one, every wanted file of a finished torrent counts as
/// downloaded.
pub open spec fn files_after(
    files: Seq<TorrentFileEntry>,
    progress: Option<Vec<u64>>,
    finished: bool,
) -> Seq<TorrentFileEntry> {
    match progress {
        Some(p) => Seq::new(
            files.len(),
            |i: int|
                if i < p@.len() {
                    TorrentFileEntry {
                        downloaded: p@[i] >= files[i].size && wanted(files[i]),
                        ..files[i]
                    }
                } else {
                    files[i]
                },
        ),
        None => if finished {
            Seq::new(
                files.len(),
                |i: int|
                    if wanted(files[i]) {
                        TorrentFileEntry { downloaded: true, ..files[i] }
                    } else {
                        files[i]
                    },
            )
        } else {
            files
        },
    }
}

/// The time over which a rate is taken: at least `floor` milliseconds.
pub open spec fn floored(elapsed: u64, floor: u64) -> u64 {
    if elapsed < floor {
        floor
    } else {
        elapsed
    }
}

/// A record after the engine's statistics were taken in at time `now`.
/// The rates are the growth of the byte totals since the last sample over
/// the time since then, which counts as at least one millisecond.
pub open spec fn stats_applied(rec: RecordView, s: EngineStats, now: u64) -> RecordView {
    let rt = rec.runtime;
    let dt = floored(minus(now, rt.last_sample_ms), 1);
    let state = shown_state(mapped_state(s.state@, s.finished), rt.state_override, now);
    RecordView {
        torrent: Torrent { running: state_runs(state), ..rec.torrent },
        runtime: RuntimeView {
            down_rate_bps: rate_per_sec(minus(s.progress_bytes, rt.last_downloaded_bytes), dt),
            up_rate_bps: rate_per_sec(minus(s.uploaded_bytes, rt.last_uploaded_bytes), dt),
            last_sample_ms: now,
            last_downloaded_bytes: s.progress_bytes,
            last_uploaded_bytes: s.uploaded_bytes,
            total_bytes: s.total_bytes,
            downloaded_bytes: s.progress_bytes,
            uploaded_bytes: s.uploaded_bytes,
            last_error: s.error,
            state: state,
            state_override: kept_override(rt.state_override, now),
            running: state_runs(state),
            files: files_after(rt.files, s.file_progress, s.finished),
            ..rt
        },
    }
}

/// A record after a failure of the engine: the failure is noted, the
/// torrent is in the error state and does not run, and both rates are 0.
pub open spec fn failure_applied(rec: RecordView, message: String) -> RecordView {
    RecordView {
        runtime: RuntimeView {
            last_error: Some(message),
            state: TorrentState::Error,
            running: false,
            down_rate_bps: 0,
            up_rate_bps: 0,
            ..rec.runtime
        },
        ..rec
    }
}

/// A record after a report of the engine was taken in at time `now`. A
/// report that could not be read changes nothing.
pub open spec fn report_applied(rec: RecordView, report: EngineReport, now: u64) -> RecordView {
    match report {
        EngineReport::Failed(message) => failure_applied(rec, message),
        EngineReport::Unreadable => rec,
        EngineReport::Stats(s) => stats_applied(rec, s, now),
    }
}

/// Marks the files that a report shows as downloaded.
fn update_files(rt: &mut TorrentRuntime, progress: &Option<Vec<u64>>, finished: bool)
    ensures
        final(rt)@ == (RuntimeView {
            files: files_after(old(rt)@.files, *progress, finished),
            ..old(rt)@
        }),
{
    let n = rt.files.len();
    match progress {
        Some(p) => {
            let mut i: usize = 0;
            while i < n
                invariant
                    i <= n,
                    n == old(rt)@.files.len(),
                    *progress == Some(*p),
                    rt@ == (RuntimeView { files: rt@.files, ..old(rt)@ }),
                    rt@.files.len() == n,
                    forall|j: int|
                        0 <= j < i ==> #[trigger] rt@.files[j] == files_after(
                            old(rt)@.files,
                            *progress,
                            finished,
                        )[j],
                    forall|j: int| i <= j < n ==> #[trigger] rt@.files[j] == old(rt)@.files[j],
                decreases n - i,
            {
                if i < p.len() {
                    let reached = p[i];
                    let f = &mut rt.files[i];
                    let done = reached >= f.size && !str_eq(f.priority.as_str(), "skip");
                    f.downloaded = done;
                }
                i += 1;
            }
            assert(rt@.files =~= files_after(old(rt)@.files, *progress, finished));
        },
        None => {
            if finished {
                let mut i: usize = 0;
                while i < n
                    invariant
                        i <= n,
                        n == old(rt)@.files.len(),
                        finished,
                        *progress is None,
                        rt@ == (RuntimeView { files: rt@.files, ..old(rt)@ }),
                        rt@.files.len() == n,
                        forall|j: int|
                            0 <= j < i ==> #[trigger] rt@.files[j] == files_after(
                                old(rt)@.files,
                                *progress,
                                finished,
                            )[j],
                        forall|j: int| i <= j < n ==> #[trigger] rt@.files[j] == old(rt)@.files[j],
                    decreases n - i,
                {
                    let f = &mut rt.files[i];
                    if !str_eq(f.priority.as_str(), "skip") {
                        f.downloaded = true;
                    }
                    i += 1;
                }
                assert(rt@.files =~= files_after(old(rt)@.files, *progress, finished));
            }
        },
    }
}

/// Takes a report of the engine into the record of a torrent. A failure
/// puts the torrent into the error state; statistics update its totals,
/// rates, state and files.
pub fn apply_report(rec: &mut TorrentRecord, report: EngineReport, now: u64)
    ensures
        final(rec)@ == report_applied(old(rec)@, report, now),
{
    match report {
        EngineReport::Failed(message) => {
            rec.runtime.last_error = Some(message);
            rec.runtime.state = TorrentState::Error;
            rec.runtime.running = false;
            rec.runtime.down_rate_bps = 0;
            rec.runtime.up_rate_bps = 0;
        },
        EngineReport::Unreadable => {},
        EngineReport::Stats(s) => {
            let elapsed = now.saturating_sub(rec.runtime.last_sample_ms);
            let dt = if elapsed < 1 {
                1
            } else {
                elapsed
            };
            let down = s.progress_bytes.saturating_sub(rec.runtime.last_downloaded_bytes);
            let up = s.uploaded_bytes.saturating_sub(rec.runtime.last_uploaded_bytes);
            rec.runtime.down_rate_bps = bytes_per_second(down, dt);
            rec.runtime.up_rate_bps = bytes_per_second(up, dt);
            rec.runtime.last_sample_ms = now;
            rec.runtime.last_downloaded_bytes = s.progress_bytes;
            rec.runtime.last_uploaded_bytes = s.uploaded_bytes;
            rec.runtime.total_bytes = s.total_bytes;
            rec.runtime.downloaded_bytes = s.progress_bytes;
            rec.runtime.uploaded_bytes = s.uploaded_bytes;
            let mut state = map_state(s.state.as_str(), s.finished);
            match rec.runtime.state_override {
                Some(o) => {
                    if now < o.until_ms {
                        state = o.state;
                    } else {
                        rec.runtime.state_override = None;
                    }
                },
                None => {},
            }
            rec.runtime.state = state;
            let running = match state {
                TorrentState::Stopped => false,
                TorrentState::Error => false,
                _ => true,
            };
            rec.runtime.running = running;
            rec.torrent.running = running;
            update_files(&mut rec.runtime, &s.file_progress, s.finished);
            rec.runtime.last_error = s.error;
        },
    }
}

/// An override whose deadline has come is cleared and shows no more: from
/// then on the state is the one that is computed, at whatever time.
pub proof fn lemma_expired_override_is_gone(
    over: StateOverride,
    computed: TorrentState,
    now: u64,
    later: u64,
)
    requires
        now >= over.until_ms,
    ensures
        kept_override(Some(over), now) is None,
        shown_state(computed, Some(over), now) == computed,
        shown_state(computed, kept_override(Some(over), now), later) == computed,
        kept_override(kept_override(Some(over), now), later) is None,
{
}

} // verus!
