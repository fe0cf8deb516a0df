//! The piece map of a torrent: how many peers seem to hold each piece, and
//! the bins that a table row shows.
//!
//! A peer reports only the share of the torrent that it holds, not which
//! pieces. It is counted as holding the first pieces up to that share, so
//! the counters are an estimate.

use crate::model::{PieceBin, TorrentRowSnapshot};
use crate::record::{
    compute_share_ppm, lemma_push_keeps_distinct, lemma_remove_keeps_distinct, remembered_peers,
    share_ppm, PeerProgress, RuntimeView, TorrentRuntime,
};
use crate::text::str_eq;
use vstd::prelude::*;
use vstd::string::*;

verus! {

/// The number of bins of a piece map.
pub const PIECE_BINS: usize = 200;

/// A progress in millionths, kept between 0 and 1 000 000.
pub open spec fn clamped_ppm(raw: i64) -> u32 {
    if raw < 0 {
        0
    } else if raw > 1_000_000 {
        1_000_000
    } else {
        raw as u32
    }
}

/// Keeps a progress in millionths between 0 and 1 000 000.
pub fn clamp_ppm(raw: i64) -> (r: u32)
    ensures
        r == clamped_ppm(raw),
        r <= 1_000_000,
{
    if raw < 0 {
        0
    } else if raw > 1_000_000 {
        1_000_000
    } else {
        raw as u32
    }
}

/// The number of pieces that a peer with the given progress is counted as
/// holding: its share of `total` pieces, rounded up, at most `total`.
pub open spec fn pieces_covered(ppm: u32, total: u32) -> nat {
    let up = (ppm * total + 999_999) / 1_000_000;
    if up > total {
        total as nat
    } else {
        up as nat
    }
}

/// Counts the pieces that a peer with the given progress holds.
pub fn covered_pieces(ppm: u32, total: u32) -> (r: u32)
    ensures
        r == pieces_covered(ppm, total),
        r <= total,
{
    assert(ppm * total <= 0xffff_ffff * 0xffff_ffff) by (nonlinear_arith)
        requires
            ppm <= 0xffff_ffff,
            total <= 0xffff_ffff,
    ;
    let up: u64 = (ppm as u64 * total as u64 + 999_999) / 1_000_000;
    if up > total as u64 {
        total
    } else {
        up as u32
    }
}

/// The counters with each of the first `count` lowered by one; a counter
/// at 0 stays.
pub open spec fn lowered(avail: Seq<u32>, count: nat) -> Seq<u32> {
    Seq::new(
        avail.len(),
        |i: int|
            if i < count && avail[i] > 0 {
                (avail[i] - 1) as u32
            } else {
                avail[i]
            },
    )
}

/// The counters with each of the first `count` raised by one; a counter at
/// `u32::MAX` stays.
pub open spec fn raised(avail: Seq<u32>, count: nat) -> Seq<u32> {
    Seq::new(
        avail.len(),
        |i: int|
            if i < count && avail[i] < u32::MAX {
                (avail[i] + 1) as u32
            } else {
                avail[i]
            },
    )
}

/// Lowers the first `count` counters by one, as far as there are counters.
pub fn lower_counters(avail: &mut Vec<u32>, count: u32)
    ensures
        final(avail)@ == lowered(old(avail)@, count as nat),
{
    let n: usize = if count as usize > avail.len() {
        avail.len()
    } else {
        count as usize
    };
    let mut i: usize = 0;
    while i < n
        invariant
            i <= n,
            n <= avail.len(),
            n <= count,
            n == count || n == avail.len(),
            avail.len() == old(avail).len(),
            forall|j: int| 0 <= j < i ==> #[trigger] avail@[j] == lowered(old(avail)@, count as nat)[j],
            forall|j: int| i <= j < avail.len() ==> #[trigger] avail@[j] == old(avail)@[j],
        decreases n - i,
    {
        let v = avail[i];
        avail.set(i, v.saturating_sub(1));
        i += 1;
    }
}

/// Raises the first `count` counters by one, as far as there are counters.
pub fn raise_counters(avail: &mut Vec<u32>, count: u32)
    ensures
        final(avail)@ == raised(old(avail)@, count as nat),
{
    let n: usize = if count as usize > avail.len() {
        avail.len()
    } else {
        count as usize
    };
    let mut i: usize = 0;
    while i < n
        invariant
            i <= n,
            n <= avail.len(),
            n <= count,
            n == count || n == avail.len(),
            avail.len() == old(avail).len(),
            forall|j: int| 0 <= j < i ==> #[trigger] avail@[j] == raised(old(avail)@, count as nat)[j],
            forall|j: int| i <= j < avail.len() ==> #[trigger] avail@[j] == old(avail)@[j],
        decreases n - i,
    {
        let v = avail[i];
        avail.set(i, v.saturating_add(1));
        i += 1;
    }
}

/// The index of the first entry from `from` on that is kept for the peer
/// `key`, or the number of entries where there is none.
pub open spec fn progress_index(cache: Seq<PeerProgress>, key: Seq<char>, from: int) -> int
    decreases cache.len() - from,
{
    if from < 0 || from >= cache.len() || cache[from].key@ == key {
        from
    } else {
        progress_index(cache, key, from + 1)
    }
}

/// Finds the entry that is kept for a peer.
pub fn find_progress(cache: &Vec<PeerProgress>, key: &str) -> (r: usize)
    ensures
        r == progress_index(cache@, key@, 0),
        r <= cache.len(),
{
    let mut i: usize = 0;
    while i < cache.len()
        invariant
            i <= cache.len(),
            progress_index(cache@, key@, 0) == progress_index(cache@, key@, i as int),
        decreases cache.len() - i,
    {
        if str_eq(cache[i].key.as_str(), key) {
            return i;
        }
        i += 1;
    }
    i
}

/// The counters brought to the given number: counters that are missing
/// start at 0, and counters beyond the number are dropped.
pub open spec fn resized(avail: Seq<u32>, len: nat) -> Seq<u32> {
    Seq::new(
        len,
        |i: int|
            if i < avail.len() {
                avail[i]
            } else {
                0
            },
    )
}

/// A runtime after a peer reported its progress: what the peer was counted
/// for before is taken back, what it holds now is counted, and its
/// progress is remembered. There is one counter for each estimated piece
/// afterwards. A torrent without pieces is left alone.
pub open spec fn progress_noted(rt: RuntimeView, key: String, ppm: u32) -> RuntimeView {
    let at = progress_index(rt.peer_progress_cache, key@, 0);
    let known = at < rt.peer_progress_cache.len();
    let total = rt.total_pieces_estimate;
    let counters = resized(rt.piece_availability, total as nat);
    if total == 0 {
        rt
    } else {
        RuntimeView {
            piece_availability: raised(
                if known {
                    lowered(
                        counters,
                        pieces_covered(rt.peer_progress_cache[at].progress_ppm, total),
                    )
                } else {
                    counters
                },
                pieces_covered(ppm, total),
            ),
            peer_progress_cache: if known {
                rt.peer_progress_cache.update(
                    at,
                    PeerProgress { progress_ppm: ppm, ..rt.peer_progress_cache[at] },
                )
            } else {
                rt.peer_progress_cache.push(PeerProgress { key: key, progress_ppm: ppm })
            },
            ..rt
        }
    }
}

/// The search for the remembered progress of a peer ends at an entry of
/// that peer, or behind the last entry where the peer has none.
pub proof fn lemma_progress_index(cache: Seq<PeerProgress>, key: Seq<char>, from: int)
    requires
        0 <= from <= cache.len(),
    ensures
        from <= progress_index(cache, key, from) <= cache.len(),
        progress_index(cache, key, from) < cache.len() ==> cache[progress_index(
            cache,
            key,
            from,
        )].key@ == key,
        forall|k: int|
            from <= k < progress_index(cache, key, from) ==> (#[trigger] cache[k]).key@ != key,
    decreases cache.len() - from,
{
    if from < cache.len() && cache[from].key@ != key {
        lemma_progress_index(cache, key, from + 1);
    }
}

/// Noting the progress of a peer changes only the piece map. It keeps one
/// counter for each estimated piece, and it remembers no peer twice where
/// none was remembered twice before.
pub proof fn lemma_progress_noted_frame(rt: RuntimeView, key: String, ppm: u32)
    ensures
        progress_noted(rt, key, ppm) == (RuntimeView {
            piece_availability: progress_noted(rt, key, ppm).piece_availability,
            peer_progress_cache: progress_noted(rt, key, ppm).peer_progress_cache,
            ..rt
        }),
        rt.piece_availability.len() == rt.total_pieces_estimate ==> progress_noted(
            rt,
            key,
            ppm,
        ).piece_availability.len() == rt.total_pieces_estimate,
        remembered_peers(rt.peer_progress_cache).no_duplicates() ==> remembered_peers(
            progress_noted(rt, key, ppm).peer_progress_cache,
        ).no_duplicates(),
{
    let cache = rt.peer_progress_cache;
    lemma_progress_index(cache, key@, 0);
    let at = progress_index(cache, key@, 0);
    if rt.total_pieces_estimate != 0 && remembered_peers(cache).no_duplicates() {
        if at < cache.len() {
            let entry = PeerProgress { progress_ppm: ppm, ..cache[at] };
            assert(remembered_peers(cache.update(at, entry)) =~= remembered_peers(cache));
        } else {
            let entry = PeerProgress { key: key, progress_ppm: ppm };
            assert(remembered_peers(cache.push(entry)) =~= remembered_peers(cache).push(key@));
            lemma_push_keeps_distinct(remembered_peers(cache), key@);
        }
    }
}

/// Forgetting the progress of a peer changes only the piece map. It keeps
/// one counter for each estimated piece, and it remembers no peer twice
/// where none was remembered twice before.
pub proof fn lemma_forgotten_at_frame(rt: RuntimeView, at: int)
    requires
        0 <= at < rt.peer_progress_cache.len(),
    ensures
        forgotten_at(rt, at) == (RuntimeView {
            piece_availability: forgotten_at(rt, at).piece_availability,
            peer_progress_cache: forgotten_at(rt, at).peer_progress_cache,
            ..rt
        }),
        forgotten_at(rt, at).piece_availability.len() == rt.piece_availability.len(),
        remembered_peers(rt.peer_progress_cache).no_duplicates() ==> remembered_peers(
            forgotten_at(rt, at).peer_progress_cache,
        ).no_duplicates(),
{
    let cache = rt.peer_progress_cache;
    if remembered_peers(cache).no_duplicates() {
        assert(remembered_peers(cache.remove(at)) =~= remembered_peers(cache).remove(at));
        lemma_remove_keeps_distinct(remembered_peers(cache), at);
    }
}

/// Takes the progress that a peer reports into the piece map.
pub fn update_piece_availability_from_peers(rt: &mut TorrentRuntime, ppm: u32, peer_id: &String)
    ensures
        final(rt)@ == progress_noted(old(rt)@, *peer_id, ppm),
        old(rt)@.piece_availability.len() == old(rt)@.total_pieces_estimate
            ==> final(rt)@.piece_availability.len() == final(rt)@.total_pieces_estimate,
{
    let total = rt.total_pieces_estimate;
    if total == 0 {
        return ;
    }
    if rt.piece_availability.len() != total as usize {
        rt.piece_availability.resize(total as usize, 0);
    }
    assert(rt@.piece_availability =~= resized(old(rt)@.piece_availability, total as nat));
    let at = find_progress(&rt.peer_progress_cache, peer_id.as_str());
    if at < rt.peer_progress_cache.len() {
        let had = covered_pieces(rt.peer_progress_cache[at].progress_ppm, total);
        lower_counters(&mut rt.piece_availability, had);
        let entry = &mut rt.peer_progress_cache[at];
        entry.progress_ppm = ppm;
    } else {
        rt.peer_progress_cache.push(PeerProgress { key: peer_id.clone(), progress_ppm: ppm });
    }
    raise_counters(&mut rt.piece_availability, covered_pieces(ppm, total));
}

/// A runtime without the remembered progress at index `at`: what the peer
/// was counted for is taken back, provided that there is one counter for
/// each estimated piece.
pub open spec fn forgotten_at(rt: RuntimeView, at: int) -> RuntimeView {
    RuntimeView {
        piece_availability: if rt.piece_availability.len() == rt.total_pieces_estimate {
            lowered(
                rt.piece_availability,
                pieces_covered(rt.peer_progress_cache[at].progress_ppm, rt.total_pieces_estimate),
            )
        } else {
            rt.piece_availability
        },
        peer_progress_cache: rt.peer_progress_cache.remove(at),
        ..rt
    }
}

/// A runtime after a peer left: what the peer was counted for is taken
/// back, and its progress is forgotten.
pub open spec fn peer_forgotten(rt: RuntimeView, key: Seq<char>) -> RuntimeView {
    let at = progress_index(rt.peer_progress_cache, key, 0);
    if at < rt.peer_progress_cache.len() {
        forgotten_at(rt, at)
    } else {
        rt
    }
}

/// Forgets the progress that is remembered at index `at`.
pub(crate) fn forget_progress_at(rt: &mut TorrentRuntime, at: usize)
    requires
        at < old(rt)@.peer_progress_cache.len(),
    ensures
        final(rt)@ == forgotten_at(old(rt)@, at as int),
{
    let gone = rt.peer_progress_cache.remove(at);
    if rt.piece_availability.len() == rt.total_pieces_estimate as usize {
        let had = covered_pieces(gone.progress_ppm, rt.total_pieces_estimate);
        lower_counters(&mut rt.piece_availability, had);
    }
}

/// Takes a peer that has left out of the piece map.
pub fn remove_peer_from_availability(rt: &mut TorrentRuntime, peer_id: &str)
    ensures
        final(rt)@ == peer_forgotten(old(rt)@, peer_id@),
{
    let at = find_progress(&rt.peer_progress_cache, peer_id);
    if at < rt.peer_progress_cache.len() {
        forget_progress_at(rt, at);
    }
}

/// The number of pieces that the bins are laid over: the estimate, and at
/// least one.
pub open spec fn binned_pieces(rt: RuntimeView) -> nat {
    if rt.total_pieces_estimate == 0 {
        1
    } else {
        rt.total_pieces_estimate as nat
    }
}

/// The number of pieces in each bin but the last ones.
pub open spec fn pieces_per_bin(pieces: nat) -> nat {
    ((pieces + PIECE_BINS - 1) / (PIECE_BINS as int)) as nat
}

/// The number of leading pieces that count as complete: the downloaded
/// share of the pieces, rounded down.
pub open spec fn completed_pieces(rt: RuntimeView) -> nat {
    if rt.total_bytes == 0 {
        0
    } else if rt.downloaded_bytes >= rt.total_bytes {
        binned_pieces(rt)
    } else {
        (rt.downloaded_bytes * binned_pieces(rt) / (rt.total_bytes as int)) as nat
    }
}

/// The lowest counter among the pieces from `lo` up to `hi` that have one;
/// `u32::MAX` where none has.
pub open spec fn lowest(avail: Seq<u32>, lo: int, hi: int) -> u32
    decreases hi - lo,
{
    if lo >= hi {
        u32::MAX
    } else if 0 <= hi - 1 < avail.len() && avail[hi - 1] < lowest(avail, lo, hi - 1) {
        avail[hi - 1]
    } else {
        lowest(avail, lo, hi - 1)
    }
}

/// The bin with index `bin`. A bin behind the last piece is empty. Of the
/// pieces of any other bin, those before `completed` count as held; the
/// availability of a bin is the lowest counter among the others, and 0
/// where all are held or no counter is known.
pub open spec fn bin_of(avail: Seq<u32>, pieces: nat, completed: nat, bin: int) -> PieceBin {
    let per_bin = pieces_per_bin(pieces);
    let start = bin * per_bin;
    let end = if (bin + 1) * per_bin < pieces {
        (bin + 1) * per_bin
    } else {
        pieces as int
    };
    if start >= pieces {
        PieceBin { have_pieces: 0, min_avail: 0, pieces_in_bin: 0 }
    } else {
        let have = if completed <= start {
            0
        } else if completed - start < end - start {
            completed - start
        } else {
            end - start
        };
        let low = lowest(
            avail,
            if completed > start {
                completed as int
            } else {
                start
            },
            end,
        );
        PieceBin {
            have_pieces: have as u32,
            min_avail: if have >= end - start || low == u32::MAX {
                0
            } else {
                low
            },
            pieces_in_bin: (end - start) as u32,
        }
    }
}

/// The bins of the piece map of a torrent.
pub open spec fn bins_of(rt: RuntimeView) -> Seq<PieceBin> {
    Seq::new(
        PIECE_BINS as nat,
        |b: int| bin_of(rt.piece_availability, binned_pieces(rt), completed_pieces(rt), b),
    )
}

/// Computes the lowest counter among the pieces from `lo` up to `hi`.
fn lowest_counter(avail: &Vec<u32>, lo: u64, hi: u64) -> (r: u32)
    ensures
        r == lowest(avail@, lo as int, hi as int),
{
    let mut low: u32 = u32::MAX;
    let mut i: u64 = lo;
    while i < hi
        invariant
            lo <= i <= hi || (lo > hi && i == lo),
            low == lowest(avail@, lo as int, i as int),
        decreases hi - i,
    {
        if i < avail.len() as u64 {
            let v = avail[i as usize];
            if v < low {
                low = v;
            }
        }
        i += 1;
    }
    low
}

/// Computes one bin of the piece map.
fn compute_bin(avail: &Vec<u32>, pieces: u64, completed: u64, bin: u64) -> (r: PieceBin)
    requires
        0 < pieces <= u32::MAX,
        completed <= pieces,
        bin < PIECE_BINS,
    ensures
        r == bin_of(avail@, pieces as nat, completed as nat, bin as int),
{
    let per_bin: u64 = (pieces + (PIECE_BINS as u64 - 1)) / (PIECE_BINS as u64);
    assert(bin * per_bin <= 200 * 21474837 && (bin + 1) * per_bin <= 200 * 21474837)
        by (nonlinear_arith)
        requires
            bin < 200,
            per_bin <= 21474837,
    ;
    let start: u64 = bin * per_bin;
    let next: u64 = (bin + 1) * per_bin;
    let end: u64 = if next < pieces {
        next
    } else {
        pieces
    };
    assert(bin * per_bin <= (bin + 1) * per_bin) by (nonlinear_arith);
    if start >= pieces {
        return PieceBin { have_pieces: 0, min_avail: 0, pieces_in_bin: 0 };
    }
    let in_bin: u64 = end - start;
    let have: u64 = if completed <= start {
        0
    } else if completed - start < in_bin {
        completed - start
    } else {
        in_bin
    };
    let from: u64 = if completed > start {
        completed
    } else {
        start
    };
    let low = lowest_counter(avail, from, end);
    let min_avail = if have >= in_bin || low == u32::MAX {
        0
    } else {
        low
    };
    PieceBin { have_pieces: have as u32, min_avail, pieces_in_bin: in_bin as u32 }
}

/// Computes the number of leading pieces that count as complete.
fn count_completed(rt: &TorrentRuntime) -> (r: u64)
    ensures
        r == completed_pieces(rt@),
        r <= binned_pieces(rt@),
{
    let pieces: u64 = if rt.total_pieces_estimate == 0 {
        1
    } else {
        rt.total_pieces_estimate as u64
    };
    if rt.total_bytes == 0 {
        return 0;
    }
    if rt.downloaded_bytes >= rt.total_bytes {
        return pieces;
    }
    assert(rt.downloaded_bytes * pieces <= 0xffff_ffff_ffff_ffff * 0xffff_ffff) by (nonlinear_arith)
        requires
            rt.downloaded_bytes <= 0xffff_ffff_ffff_ffff,
            pieces <= 0xffff_ffff,
    ;
    let scaled: u128 = rt.downloaded_bytes as u128 * pieces as u128;
    let done: u128 = scaled / (rt.total_bytes as u128);
    assert(done <= pieces) by (nonlinear_arith)
        requires
            done == scaled / (rt.total_bytes as u128),
            scaled == rt.downloaded_bytes * pieces,
            rt.downloaded_bytes < rt.total_bytes,
            rt.total_bytes > 0,
    ;
    done as u64
}

/// What a table row shows of a torrent: its progress, its state, the bins
/// of its piece map and its heartbeat samples.
pub open spec fn is_row_snapshot(row: TorrentRowSnapshot, rt: RuntimeView) -> bool {
    &&& row.progress_ppm == share_ppm(rt.downloaded_bytes, rt.total_bytes)
    &&& row.state == rt.state
    &&& row.pieces_bins@ == bins_of(rt)
    &&& row.heartbeat_samples@ == rt.heartbeat_samples
}

/// Computes what a table row shows of a torrent. The piece map always has
/// [`PIECE_BINS`] bins, however many pieces the torrent has.
pub fn record_row_snapshot(rt: &TorrentRuntime) -> (row: TorrentRowSnapshot)
    ensures
        is_row_snapshot(row, rt@),
        row.pieces_bins@.len() == PIECE_BINS,
{
    let pieces: u64 = if rt.total_pieces_estimate == 0 {
        1
    } else {
        rt.total_pieces_estimate as u64
    };
    let completed = count_completed(rt);
    let mut bins: Vec<PieceBin> = Vec::new();
    let mut b: usize = 0;
    while b < PIECE_BINS
        invariant
            b <= PIECE_BINS,
            pieces == binned_pieces(rt@),
            0 < pieces <= u32::MAX,
            completed == completed_pieces(rt@),
            completed <= pieces,
            bins.len() == b,
            forall|k: int| 0 <= k < b ==> #[trigger] bins@[k] == bins_of(rt@)[k],
        decreases PIECE_BINS - b,
    {
        bins.push(compute_bin(&rt.piece_availability, pieces, completed, b as u64));
        b += 1;
    }
    assert(bins@ =~= bins_of(rt@));
    let samples = rt.heartbeat_samples.clone();
    TorrentRowSnapshot {
        progress_ppm: compute_share_ppm(rt.downloaded_bytes, rt.total_bytes),
        state: rt.state,
        pieces_bins: bins,
        heartbeat_samples: samples,
    }
}

} // verus!
