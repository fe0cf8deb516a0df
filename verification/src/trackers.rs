//! The tracker table of a torrent.

use crate::engine::state_runs;
use crate::model::{clone_text, TorrentState, TrackerRow, TrackersResponse};
use crate::record::{
    RecordView, RuntimeView, StateOverride, TorrentRecord, TorrentRuntime, TrackerRuntimeState,
};
use vstd::prelude::*;
use vstd::string::*;

verus! {

/// The time until the next announce that is scheduled with each announce,
/// in milliseconds.
pub const ANNOUNCE_INTERVAL_MS: u64 = 30 * 60 * 1000;

/// How long a torrent shows as checking after a recheck was asked for, in
/// milliseconds.
pub const CHECKING_OVERRIDE_MS: u64 = 4000;

/// `a + b`, or `u64::MAX` where that does not fit.
pub open spec fn plus(a: u64, b: u64) -> u64 {
    if a + b > u64::MAX {
        u64::MAX
    } else {
        (a + b) as u64
    }
}

/// The state of a tracker after an announce at time `now`: the announce is
/// counted and the next one is scheduled [`ANNOUNCE_INTERVAL_MS`] later.
pub open spec fn announced(t: TrackerRuntimeState, now: u64) -> TrackerRuntimeState {
    TrackerRuntimeState {
        last_announce_ms: Some(now),
        next_announce_ms: Some(plus(now, ANNOUNCE_INTERVAL_MS)),
        announce_count: if t.announce_count == u32::MAX {
            u32::MAX
        } else {
            (t.announce_count + 1) as u32
        },
        ..t
    }
}

/// A record after an announce to every tracker at time `now`.
pub open spec fn with_announce(rec: RecordView, now: u64) -> RecordView {
    RecordView {
        runtime: RuntimeView {
            tracker_state: rec.runtime.tracker_state.map_values(
                |t: TrackerRuntimeState| announced(t, now),
            ),
            ..rec.runtime
        },
        ..rec
    }
}

/// Notes an announce to every tracker of a torrent. Nothing is sent: the
/// announce itself is the engine's work.
pub fn mark_record_announce(rec: &mut TorrentRecord, now: u64)
    ensures
        final(rec)@ == with_announce(old(rec)@, now),
{
    let n = rec.runtime.tracker_state.len();
    let mut i: usize = 0;
    while i < n
        invariant
            i <= n,
            n == old(rec)@.runtime.tracker_state.len(),
            rec@ == (RecordView {
                runtime: RuntimeView {
                    tracker_state: rec@.runtime.tracker_state,
                    ..old(rec)@.runtime
                },
                ..old(rec)@
            }),
            rec@.runtime.tracker_state.len() == n,
            forall|j: int|
                0 <= j < i ==> #[trigger] rec@.runtime.tracker_state[j] == announced(
                    old(rec)@.runtime.tracker_state[j],
                    now,
                ),
            forall|j: int|
                i <= j < n ==> #[trigger] rec@.runtime.tracker_state[j]
                    == old(rec)@.runtime.tracker_state[j],
        decreases n - i,
    {
        let t = &mut rec.runtime.tracker_state[i];
        t.last_announce_ms = Some(now);
        t.next_announce_ms = Some(now.saturating_add(ANNOUNCE_INTERVAL_MS));
        t.announce_count = t.announce_count.saturating_add(1);
        i += 1;
    }
    assert(rec@.runtime.tracker_state =~= old(rec)@.runtime.tracker_state.map_values(
        |t: TrackerRuntimeState| announced(t, now),
    ));
}

/// A record that shows as checking until [`CHECKING_OVERRIDE_MS`] after
/// `now`, whatever the engine reports meanwhile.
pub open spec fn with_checking(rec: RecordView, now: u64) -> RecordView {
    RecordView {
        runtime: RuntimeView {
            state_override: Some(
                StateOverride {
                    until_ms: plus(now, CHECKING_OVERRIDE_MS),
                    state: TorrentState::Checking,
                },
            ),
            ..rec.runtime
        },
        ..rec
    }
}

/// Makes a torrent show as checking for a few seconds.
pub fn force_record_checking(rec: &mut TorrentRecord, now: u64)
    ensures
        final(rec)@ == with_checking(old(rec)@, now),
{
    rec.runtime.state_override = Some(
        StateOverride {
            until_ms: now.saturating_add(CHECKING_OVERRIDE_MS),
            state: TorrentState::Checking,
        },
    );
}

/// Whether the trackers of a torrent are in use: the torrent runs, and its
/// state is neither stopped nor an error.
pub open spec fn trackers_active(rt: RuntimeView) -> bool {
    rt.running && state_runs(rt.state)
}

/// The row of one of the three peer sources that need no tracker.
pub open spec fn is_source_row(row: TrackerRow, name: Seq<char>, active: bool) -> bool {
    &&& row.url@ == name
    &&& row.tier == Some(0u32)
    &&& row.status@ == (if active {
        "working"@
    } else {
        "disabled"@
    })
    &&& row.seeders is None
    &&& row.leechers is None
    &&& row.last_announce_ms is None
    &&& row.next_announce_ms is None
    &&& row.error is None
    &&& row.announce_count is None
    &&& row.scrape_count is None
}

/// The tier that is shown for the tracker at index `i`.
pub open spec fn tier_of(i: int) -> u32 {
    if i > u32::MAX {
        u32::MAX
    } else {
        i as u32
    }
}

/// The row of the tracker at index `i`, with what is known of its
/// announces. A tracker with an error is not working; any other is
/// updating while the trackers are in use and disabled otherwise.
pub open spec fn is_tracker_row(
    row: TrackerRow,
    url: String,
    i: int,
    t: TrackerRuntimeState,
    active: bool,
) -> bool {
    &&& row.url == url
    &&& row.tier == Some(tier_of(i))
    &&& row.status@ == (if t.last_error is Some {
        "not_working"@
    } else if active {
        "updating"@
    } else {
        "disabled"@
    })
    &&& row.seeders is None
    &&& row.leechers is None
    &&& row.last_announce_ms == t.last_announce_ms
    &&& row.next_announce_ms == t.next_announce_ms
    &&& row.error == t.last_error
    &&& row.announce_count == Some(t.announce_count)
    &&& row.scrape_count == Some(t.scrape_count)
}

/// The state of a tracker that was never announced to.
pub open spec fn idle_tracker() -> TrackerRuntimeState {
    TrackerRuntimeState {
        last_announce_ms: None,
        next_announce_ms: None,
        announce_count: 0,
        scrape_count: 0,
        last_error: None,
    }
}

/// What is known of the announces to the tracker at index `i`; a tracker
/// of which nothing is kept counts as never announced to.
pub open spec fn tracker_state_at(rt: RuntimeView, i: int) -> TrackerRuntimeState {
    if 0 <= i < rt.tracker_state.len() {
        rt.tracker_state[i]
    } else {
        idle_tracker()
    }
}

/// The tracker table of a torrent: the rows of DHT, PeX and LSD, then one
/// row for each tracker, in order.
pub open spec fn is_tracker_table(rows: Seq<TrackerRow>, rt: RuntimeView) -> bool {
    &&& rows.len() == 3 + rt.trackers.len()
    &&& is_source_row(rows[0], "** DHT **"@, trackers_active(rt))
    &&& is_source_row(rows[1], "** PeX **"@, trackers_active(rt))
    &&& is_source_row(rows[2], "** LSD **"@, trackers_active(rt))
    &&& forall|i: int|
        0 <= i < rt.trackers.len() ==> is_tracker_row(
            #[trigger] rows[3 + i],
            rt.trackers[i],
            i,
            tracker_state_at(rt, i),
            trackers_active(rt),
        )
}

fn source_row(name: &str, active: bool) -> (row: TrackerRow)
    ensures
        is_source_row(row, name@, active),
{
    TrackerRow {
        url: name.to_owned(),
        tier: Some(0),
        status: if active {
            "working".to_owned()
        } else {
            "disabled".to_owned()
        },
        seeders: None,
        leechers: None,
        last_announce_ms: None,
        next_announce_ms: None,
        error: None,
        announce_count: None,
        scrape_count: None,
    }
}

/// Lists the trackers of a torrent.
pub fn record_trackers(rt: &TorrentRuntime) -> (resp: TrackersResponse)
    ensures
        is_tracker_table(resp.trackers@, rt@),
{
    let active = rt.running && match rt.state {
        TorrentState::Stopped => false,
        TorrentState::Error => false,
        _ => true,
    };
    let mut rows: Vec<TrackerRow> = Vec::new();
    rows.push(source_row("** DHT **", active));
    rows.push(source_row("** PeX **", active));
    rows.push(source_row("** LSD **", active));
    let mut i: usize = 0;
    while i < rt.trackers.len()
        invariant
            i <= rt.trackers.len(),
            active == trackers_active(rt@),
            rows.len() == 3 + i,
            is_source_row(rows@[0], "** DHT **"@, active),
            is_source_row(rows@[1], "** PeX **"@, active),
            is_source_row(rows@[2], "** LSD **"@, active),
            forall|j: int|
                0 <= j < i ==> is_tracker_row(
                    #[trigger] rows@[3 + j],
                    rt@.trackers[j],
                    j,
                    tracker_state_at(rt@, j),
                    active,
                ),
        decreases rt.trackers.len() - i,
    {
        let idle = TrackerRuntimeState {
            last_announce_ms: None,
            next_announce_ms: None,
            announce_count: 0,
            scrape_count: 0,
            last_error: None,
        };
        let t = if i < rt.tracker_state.len() {
            &rt.tracker_state[i]
        } else {
            &idle
        };
        let status = if t.last_error.is_some() {
            "not_working"
        } else if active {
            "updating"
        } else {
            "disabled"
        };
        let tier: u32 = if i > u32::MAX as usize {
            u32::MAX
        } else {
            i as u32
        };
        rows.push(
            TrackerRow {
                url: rt.trackers[i].clone(),
                tier: Some(tier),
                status: status.to_owned(),
                seeders: None,
                leechers: None,
                last_announce_ms: t.last_announce_ms,
                next_announce_ms: t.next_announce_ms,
                error: clone_text(&t.last_error),
                announce_count: Some(t.announce_count),
                scrape_count: Some(t.scrape_count),
            },
        );
        i += 1;
    }
    TrackersResponse { trackers: rows }
}

} // verus!
