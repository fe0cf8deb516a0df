//! The bounded table of peer samples.
//!
//! For each peer of the latest snapshot the table remembers the transfer
//! totals and when they were seen, so that the next snapshot yields a rate.
//! Peers that are gone are dropped, and the table never holds more than
//! [`MAX_PEER_SAMPLES_PER_TORRENT`](crate::record::MAX_PEER_SAMPLES_PER_TORRENT)
//! samples: the least recently seen go first.

use crate::model::PeerRow;
use crate::record::{
    lemma_push_keeps_distinct, lemma_remove_keeps_distinct, sampled_peers, PeerSample,
};
use crate::text::str_eq;
use vstd::prelude::*;
use vstd::string::*;

verus! {

/// The index of the first sample from `from` on that is kept for the peer
/// `key`, or the number of samples where there is none.
pub open spec fn sample_index(samples: Seq<PeerSample>, key: Seq<char>, from: int) -> int
    decreases samples.len() - from,
{
    if from < 0 || from >= samples.len() || samples[from].key@ == key {
        from
    } else {
        sample_index(samples, key, from + 1)
    }
}

/// Finds the sample that is kept for a peer.
pub fn find_sample(samples: &Vec<PeerSample>, key: &str) -> (r: usize)
    ensures
        r == sample_index(samples@, key@, 0),
        r <= samples.len(),
{
    let mut i: usize = 0;
    while i < samples.len()
        invariant
            i <= samples.len(),
            sample_index(samples@, key@, 0) == sample_index(samples@, key@, i as int),
        decreases samples.len() - i,
    {
        if str_eq(samples[i].key.as_str(), key) {
            return i;
        }
        i += 1;
    }
    i
}

/// The table with a sample put in: it takes the place of the sample that
/// was kept for the same peer, or comes last where there was none.
pub open spec fn upserted(samples: Seq<PeerSample>, s: PeerSample) -> Seq<PeerSample> {
    let at = sample_index(samples, s.key@, 0);
    if at < samples.len() {
        samples.update(at, s)
    } else {
        samples.push(s)
    }
}

/// The search for the sample of a peer ends at a sample of that peer, or
/// behind the last sample where the peer has none.
pub proof fn lemma_sample_index(samples: Seq<PeerSample>, key: Seq<char>, from: int)
    requires
        0 <= from <= samples.len(),
    ensures
        from <= sample_index(samples, key, from) <= samples.len(),
        sample_index(samples, key, from) < samples.len() ==> samples[sample_index(
            samples,
            key,
            from,
        )].key@ == key,
        forall|k: int|
            from <= k < sample_index(samples, key, from) ==> (#[trigger] samples[k]).key@ != key,
    decreases samples.len() - from,
{
    if from < samples.len() && samples[from].key@ != key {
        lemma_sample_index(samples, key, from + 1);
    }
}

/// A table in which no peer has two samples stays so when a sample is put
/// in.
pub proof fn lemma_upserted_distinct(samples: Seq<PeerSample>, s: PeerSample)
    requires
        sampled_peers(samples).no_duplicates(),
    ensures
        sampled_peers(upserted(samples, s)).no_duplicates(),
{
    lemma_sample_index(samples, s.key@, 0);
    let at = sample_index(samples, s.key@, 0);
    if at < samples.len() {
        assert(sampled_peers(samples.update(at, s)) =~= sampled_peers(samples));
    } else {
        assert(sampled_peers(samples.push(s)) =~= sampled_peers(samples).push(s.key@));
        lemma_push_keeps_distinct(sampled_peers(samples), s.key@);
    }
}

/// A table in which no peer has two samples stays so when the samples of
/// absent peers are dropped.
pub proof fn lemma_kept_samples_distinct(samples: Seq<PeerSample>, rows: Seq<PeerRow>, from: int)
    requires
        sampled_peers(samples).no_duplicates(),
    ensures
        sampled_peers(kept_samples_of(samples, rows, from)).no_duplicates(),
        kept_samples_of(samples, rows, from).len() <= samples.len(),
    decreases samples.len() - from,
{
    if 0 <= from < samples.len() {
        if lists_peer(rows, samples[from].key@) {
            lemma_kept_samples_distinct(samples, rows, from + 1);
        } else {
            assert(sampled_peers(samples.remove(from)) =~= sampled_peers(samples).remove(from));
            lemma_remove_keeps_distinct(sampled_peers(samples), from);
            lemma_kept_samples_distinct(samples.remove(from), rows, from);
        }
    }
}

/// A table in which no peer has two samples stays so when it is cut down.
pub proof fn lemma_evicted_distinct(samples: Seq<PeerSample>, cap: nat)
    requires
        sampled_peers(samples).no_duplicates(),
    ensures
        sampled_peers(evicted(samples, cap)).no_duplicates(),
    decreases samples.len(),
{
    if samples.len() > cap {
        let at = oldest_index(samples, samples.len() as int);
        lemma_oldest_index(samples, samples.len() as int);
        assert(sampled_peers(samples.remove(at)) =~= sampled_peers(samples).remove(at));
        lemma_remove_keeps_distinct(sampled_peers(samples), at);
        lemma_evicted_distinct(samples.remove(at), cap);
    }
}

/// Puts a sample into the table.
pub fn upsert_sample(samples: &mut Vec<PeerSample>, s: PeerSample)
    ensures
        final(samples)@ == upserted(old(samples)@, s),
{
    let at = find_sample(samples, s.key.as_str());
    if at < samples.len() {
        samples.set(at, s);
    } else {
        samples.push(s);
    }
}

/// Some row of `rows` is that of the peer `key`.
pub open spec fn lists_peer(rows: Seq<PeerRow>, key: Seq<char>) -> bool {
    exists|i: int| 0 <= i < rows.len() && (#[trigger] rows[i]).id@ == key
}

/// Tells whether some row is that of the given peer.
pub fn is_listed(rows: &Vec<PeerRow>, key: &str) -> (r: bool)
    ensures
        r == lists_peer(rows@, key@),
{
    let mut i: usize = 0;
    while i < rows.len()
        invariant
            i <= rows.len(),
            forall|j: int| 0 <= j < i ==> (#[trigger] rows@[j]).id@ != key@,
        decreases rows.len() - i,
    {
        if str_eq(rows[i].id.as_str(), key) {
            return true;
        }
        i += 1;
    }
    false
}

/// The table without the samples from index `from` on whose peer is not
/// among `rows`.
pub open spec fn kept_samples_of(samples: Seq<PeerSample>, rows: Seq<PeerRow>, from: int) -> Seq<
    PeerSample,
>
    decreases samples.len() - from,
{
    if from < 0 || from >= samples.len() {
        samples
    } else if lists_peer(rows, samples[from].key@) {
        kept_samples_of(samples, rows, from + 1)
    } else {
        kept_samples_of(samples.remove(from), rows, from)
    }
}

/// The samples that are kept are those whose peer is among `rows`, in
/// their order: the samples before `from` stay as they are, and the others
/// are filtered.
pub proof fn lemma_kept_samples_of(samples: Seq<PeerSample>, rows: Seq<PeerRow>, from: int)
    requires
        0 <= from <= samples.len(),
    ensures
        kept_samples_of(samples, rows, from) == samples.take(from) + samples.skip(from).filter(
            |s: PeerSample| lists_peer(rows, s.key@),
        ),
    decreases samples.len() - from,
{
    let p = |s: PeerSample| lists_peer(rows, s.key@);
    reveal_with_fuel(Seq::filter, 2);
    if from >= samples.len() {
    } else {
        let head = seq![samples[from]];
        assert(samples.skip(from) =~= head + samples.skip(from + 1));
        Seq::filter_distributes_over_add(head, samples.skip(from + 1), p);
        if lists_peer(rows, samples[from].key@) {
            lemma_kept_samples_of(samples, rows, from + 1);
        } else {
            let rest = samples.remove(from);
            lemma_kept_samples_of(rest, rows, from);
            assert(rest.skip(from) =~= samples.skip(from + 1));
        }
    }
}

/// The samples that are kept are exactly the samples of the peers that
/// are among `rows`.
pub proof fn lemma_kept_samples_listed(samples: Seq<PeerSample>, rows: Seq<PeerRow>)
    ensures
        forall|s: PeerSample| #[trigger]
            kept_samples_of(samples, rows, 0).contains(s) <==> samples.contains(s) && lists_peer(
                rows,
                s.key@,
            ),
{
    let p = |s: PeerSample| lists_peer(rows, s.key@);
    let kept = samples.filter(p);
    lemma_kept_samples_of(samples, rows, 0);
    assert(samples.skip(0) =~= samples);
    assert(samples.take(0) + kept =~= kept);
    assert forall|s: PeerSample| #[trigger] kept.contains(s) <==> samples.contains(s) && p(s) by {
        if kept.contains(s) {
            let k = choose|k: int| 0 <= k < kept.len() && kept[k] == s;
            samples.lemma_filter_pred(p, k);
            samples.lemma_filter_contains_rev(p, s);
        }
        if samples.contains(s) && p(s) {
            let j = choose|j: int| 0 <= j < samples.len() && samples[j] == s;
            samples.lemma_filter_contains(p, j);
        }
    }
}

/// Drops the samples of the peers that are not among `rows`.
pub fn retain_listed(samples: &mut Vec<PeerSample>, rows: &Vec<PeerRow>)
    ensures
        final(samples)@ == kept_samples_of(old(samples)@, rows@, 0),
        final(samples).len() <= old(samples).len(),
{
    let mut i: usize = 0;
    while i < samples.len()
        invariant
            i <= samples.len(),
            samples.len() <= old(samples).len(),
            kept_samples_of(samples@, rows@, i as int) == kept_samples_of(old(samples)@, rows@, 0),
        decreases samples.len() - i,
    {
        if is_listed(rows, samples[i].key.as_str()) {
            i += 1;
        } else {
            samples.remove(i);
        }
    }
}

/// The index of the first sample among the first `upto` that was seen
/// least recently.
pub open spec fn oldest_index(samples: Seq<PeerSample>, upto: int) -> int
    decreases upto,
{
    if upto <= 1 {
        0
    } else {
        let before = oldest_index(samples, upto - 1);
        if samples[upto - 1].last_seen_ms < samples[before].last_seen_ms {
            upto - 1
        } else {
            before
        }
    }
}

/// The table cut down to `cap` samples: as long as it holds more, the
/// sample that was seen least recently leaves.
pub open spec fn evicted(samples: Seq<PeerSample>, cap: nat) -> Seq<PeerSample>
    decreases samples.len(),
    via evicted_shrinks
{
    if samples.len() <= cap {
        samples
    } else {
        evicted(samples.remove(oldest_index(samples, samples.len() as int)), cap)
    }
}

#[via_fn]
proof fn evicted_shrinks(samples: Seq<PeerSample>, cap: nat) {
    if samples.len() > cap {
        lemma_oldest_index(samples, samples.len() as int);
    }
}

/// The oldest sample is one of the samples, and none was seen before it.
pub proof fn lemma_oldest_index(samples: Seq<PeerSample>, upto: int)
    requires
        1 <= upto <= samples.len(),
    ensures
        0 <= oldest_index(samples, upto) < upto,
        forall|j: int|
            0 <= j < upto ==> samples[oldest_index(samples, upto)].last_seen_ms <= (
            #[trigger] samples[j]).last_seen_ms,
    decreases upto,
{
    if upto > 1 {
        lemma_oldest_index(samples, upto - 1);
    }
}

/// Eviction keeps the table within its bound and takes the least recently
/// seen samples first: the table ends with at most `cap` samples, each of
/// them was in the table before, and whenever a sample stays, every sample
/// that was seen later stays as well.
pub proof fn lemma_evicted(samples: Seq<PeerSample>, cap: nat)
    ensures
        evicted(samples, cap).len() <= cap,
        samples.len() <= cap ==> evicted(samples, cap) == samples,
        samples.len() > cap ==> evicted(samples, cap).len() == cap,
        forall|k: int|
            0 <= k < evicted(samples, cap).len() ==> samples.contains(
                #[trigger] evicted(samples, cap)[k],
            ),
        forall|k: int, j: int|
            0 <= k < evicted(samples, cap).len() && 0 <= j < samples.len() && (
            #[trigger] samples[j]).last_seen_ms > (#[trigger] evicted(
                samples,
                cap,
            )[k]).last_seen_ms ==> evicted(samples, cap).contains(samples[j]),
    decreases samples.len(),
{
    if samples.len() > cap {
        let at = oldest_index(samples, samples.len() as int);
        lemma_oldest_index(samples, samples.len() as int);
        let rest = samples.remove(at);
        lemma_evicted(rest, cap);
        let out = evicted(samples, cap);
        assert forall|k: int| 0 <= k < out.len() implies samples.contains(#[trigger] out[k]) by {
        }
        assert forall|k: int, j: int|
            0 <= k < out.len() && 0 <= j < samples.len() && (#[trigger] samples[j]).last_seen_ms
                > (#[trigger] out[k]).last_seen_ms implies out.contains(samples[j]) by {
            if j < at {
                assert(rest[j] == samples[j]);
            } else {
                assert(rest[j - 1] == samples[j]);
            }
        }
    }
}

/// Finds the first of the samples that was seen least recently.
fn find_oldest(samples: &Vec<PeerSample>) -> (r: usize)
    requires
        samples.len() > 0,
    ensures
        r == oldest_index(samples@, samples@.len() as int),
        r < samples.len(),
{
    let mut best: usize = 0;
    let mut i: usize = 1;
    while i < samples.len()
        invariant
            1 <= i <= samples.len(),
            best < i,
            best == oldest_index(samples@, i as int),
        decreases samples.len() - i,
    {
        if samples[i].last_seen_ms < samples[best].last_seen_ms {
            best = i;
        }
        i += 1;
    }
    best
}

/// Cuts the table down to `cap` samples, least recently seen first.
pub fn evict_samples(samples: &mut Vec<PeerSample>, cap: usize)
    ensures
        final(samples)@ == evicted(old(samples)@, cap as nat),
        final(samples).len() <= cap,
{
    while samples.len() > cap
        invariant
            evicted(samples@, cap as nat) == evicted(old(samples)@, cap as nat),
        decreases samples.len(),
    {
        let at = find_oldest(samples);
        samples.remove(at);
    }
}

} // verus!
