//! The peer table of a torrent.
//!
//! The engine reports its peers in a snapshot whose layout and field names
//! vary. Each peer of a snapshot becomes one row; its rates are the growth
//! of its transfer totals since the previous snapshot.

use crate::availability::{
    clamp_ppm, clamped_ppm, forget_progress_at, forgotten_at, lemma_forgotten_at_frame,
    lemma_progress_noted_frame, progress_noted, update_piece_availability_from_peers,
};
use crate::engine::{floored, or_default};
use crate::heartbeat::{bytes_per_second, minus, rate_per_sec};
use crate::json::{
    as_count, as_flag, as_label, as_millionths, flag_set, get_member, has_flag, label_of,
    member, pick_bool, pick_millionths, pick_str, pick_u64, picked, JsonValue,
};
use crate::model::{clone_text, PeerRow, PeersResponse};
use crate::record::{
    remembered_peers, runtime_wf, sampled_peers, PeerSample, RecordView, RuntimeView, TorrentRecord,
    TorrentRuntime, MAX_PEER_SAMPLES_PER_TORRENT,
};
use crate::samples::{
    evict_samples, evicted, find_sample, kept_samples_of, sample_index, upsert_sample, upserted,
};
use crate::text::{chars_of, decimal, parse_decimal, string_of};
use vstd::prelude::*;
use vstd::string::*;

verus! {

/// Shortest time over which the rate of a peer is taken, in milliseconds.
pub const MIN_PEER_INTERVAL_MS: u64 = 250;

/// The decimal digit for a value below 10.
pub open spec fn digit_char(d: int) -> char {
    ((0x30 + d) as u8) as char
}

/// The decimal digits of a number.
pub open spec fn decimal_text(n: nat) -> Seq<char>
    decreases n,
{
    if n < 10 {
        seq![digit_char(n as int)]
    } else {
        decimal_text(n / 10).push(digit_char((n % 10) as int))
    }
}

/// Appends the decimal digits of a number to a text.
pub fn push_decimal(out: &mut String, n: usize)
    ensures
        final(out)@ == old(out)@ + decimal_text(n as nat),
    decreases n,
{
    if n >= 10 {
        push_decimal(out, n / 10);
    }
    let d = (n % 10) as u8;
    out.push((0x30 + d) as char);
}

/// The index of the last `:` among the first `upto` characters, or -1
/// where there is none.
pub open spec fn last_colon(s: Seq<char>, upto: int) -> int
    decreases upto,
{
    if upto <= 0 {
        -1
    } else if s[upto - 1] == ':' {
        upto - 1
    } else {
        last_colon(s, upto - 1)
    }
}

/// Every character is an ASCII decimal digit.
pub open spec fn digit_chars(s: Seq<char>) -> bool {
    forall|i: int| 0 <= i < s.len() ==> '0' <= #[trigger] s[i] <= '9'
}

/// The port that a text spells: decimal digits, with or without a `+` in
/// front, with a value of at most 65535.
pub open spec fn port_value(s: Seq<char>) -> Option<u16> {
    let digits = if s.len() > 0 && s[0] == '+' {
        s.skip(1)
    } else {
        s
    };
    if digit_chars(digits) {
        match decimal(digits.map_values(|c: char| c as u8), 65535) {
            Some(v) => Some(v as u16),
            None => None,
        }
    } else {
        None
    }
}

/// The host and the port of a peer address. Where the address was parsed
/// as a socket address, they are what it was parsed to. Otherwise the
/// address is split at its last `:` if a port follows it, and is a host
/// with port 0 if not.
pub open spec fn split_address(addr: Seq<char>, socket: Option<(String, u16)>) -> (Seq<char>, u16) {
    match socket {
        Some((ip, port)) => (ip@, port),
        None => {
            let colon = last_colon(addr, addr.len() as int);
            if colon >= 0 && port_value(addr.skip(colon + 1)) is Some {
                (addr.take(colon), port_value(addr.skip(colon + 1))->0)
            } else {
                (addr, 0)
            }
        },
    }
}

/// Reads a port.
pub fn parse_port(s: &[char]) -> (r: Option<u16>)
    ensures
        r == port_value(s@),
{
    let start: usize = if s.len() > 0 && s[0] == '+' {
        1
    } else {
        0
    };
    let ghost digits = s@.skip(start as int);
    let mut bytes: Vec<u8> = Vec::new();
    let mut i: usize = start;
    while i < s.len()
        invariant
            start <= i <= s.len(),
            digits == s@.skip(start as int),
            digits == (if s@.len() > 0 && s@[0] == '+' {
                s@.skip(1)
            } else {
                s@
            }),
            digit_chars(digits.take(i - start)),
            bytes@ == digits.take(i - start).map_values(|c: char| c as u8),
        decreases s.len() - i,
    {
        let c = s[i];
        assert(digits[i - start] == c);
        if !('0' <= c && c <= '9') {
            return None;
        }
        bytes.push(c as u8);
        i += 1;
    }
    proof {
        assert(digits.take(s.len() - start) =~= digits);
    }
    match parse_decimal(bytes.as_slice(), 65535) {
        Some(v) => Some(v as u16),
        None => None,
    }
}

/// Splits a peer address into host and port.
pub fn split_addr(addr: &str, socket: &Option<(String, u16)>) -> (r: (String, u16))
    ensures
        (r.0@, r.1) == split_address(addr@, *socket),
{
    match socket {
        Some((ip, port)) => (ip.clone(), *port),
        None => {
            let chars = chars_of(addr);
            let mut i: usize = chars.len();
            while i > 0 && chars[i - 1] != ':'
                invariant
                    i <= chars.len(),
                    last_colon(chars@, chars@.len() as int) == last_colon(chars@, i as int),
                decreases i,
            {
                i -= 1;
            }
            if i > 0 {
                let colon = i - 1;
                let tail = vstd::slice::slice_subrange(chars.as_slice(), i, chars.len());
                match parse_port(tail) {
                    Some(p) => {
                        let host = vstd::slice::slice_subrange(chars.as_slice(), 0, colon);
                        return (string_of(host), p);
                    },
                    None => {},
                }
            }
            (string_of(chars.as_slice()), 0)
        },
    }
}

/// The flags that are made up for a peer that reports none: `E` for an
/// encrypted connection, `S` for a seed, `C` for a choked and `I` for an
/// interested peer, in this order, or a dash where none applies.
pub open spec fn synth_flags(v: JsonValue) -> Seq<char> {
    let e: Seq<char> = if flag_set(v, "encrypted"@) || flag_set(v, "is_encrypted"@) {
        seq!['E']
    } else {
        seq![]
    };
    let s: Seq<char> = if flag_set(v, "is_seed"@) || flag_set(v, "seed"@) {
        seq!['S']
    } else {
        seq![]
    };
    let c: Seq<char> = if flag_set(v, "choked"@) || flag_set(v, "is_choked"@) {
        seq!['C']
    } else {
        seq![]
    };
    let i: Seq<char> = if flag_set(v, "interested"@) || flag_set(v, "is_interested"@) {
        seq!['I']
    } else {
        seq![]
    };
    if (e + s + c + i).len() == 0 {
        seq!['\u{2014}']
    } else {
        e + s + c + i
    }
}

/// Makes up the flags of a peer from what it reports of itself.
pub fn synth_peer_flags(v: &JsonValue) -> (flags: String)
    ensures
        flags@ == synth_flags(*v),
{
    let mut flags = String::new();
    if has_flag(v, "encrypted") || has_flag(v, "is_encrypted") {
        flags.push('E');
    }
    if has_flag(v, "is_seed") || has_flag(v, "seed") {
        flags.push('S');
    }
    if has_flag(v, "choked") || has_flag(v, "is_choked") {
        flags.push('C');
    }
    if has_flag(v, "interested") || has_flag(v, "is_interested") {
        flags.push('I');
    }
    if flags.as_str().unicode_len() == 0 {
        flags.push('\u{2014}');
    }
    flags
}

/// One peer of a snapshot: its address and what is reported of it.
#[derive(Debug)]
pub struct PeerEntry<'a> {
    pub addr: String,
    pub value: &'a JsonValue,
}

/// The names under which a snapshot may hold its peers.
pub open spec fn peer_list_keys() -> Seq<&'static str> {
    seq!["peers", "per_peer", "per_peer_stats", "peer_stats", "per_peer_stats_snapshot"]
}

/// The names under which a peer may hold its address.
pub open spec fn addr_keys() -> Seq<&'static str> {
    seq!["addr", "peer_addr", "peer", "socket"]
}

/// A value that can hold the peers of a snapshot: an object or a list.
pub open spec fn as_peer_list(v: JsonValue) -> Option<JsonValue> {
    match v {
        JsonValue::Object(_) => Some(v),
        JsonValue::Array(_) => Some(v),
        _ => None,
    }
}

/// Every member of an object is itself an object.
pub open spec fn all_objects(members: Seq<(String, JsonValue)>) -> bool {
    forall|i: int| 0 <= i < members.len() ==> (#[trigger] members[i]).1 is Object
}

/// The entries are the members of an object, by name.
pub open spec fn entries_of_members(
    entries: Seq<PeerEntry>,
    members: Seq<(String, JsonValue)>,
) -> bool {
    entries.len() == members.len() && forall|i: int|
        0 <= i < entries.len() ==> (#[trigger] entries[i]).addr == members[i].0
            && *entries[i].value == members[i].1
}

/// The address of the peer at index `i` of a list: what the peer reports as
/// its address, or `peer-` and the index where it reports none.
pub open spec fn listed_addr(item: JsonValue, i: int) -> Seq<char> {
    match picked(item, addr_keys(), 0, |m: JsonValue| as_label(m)) {
        Some(a) => a,
        None => "peer-"@ + decimal_text(i as nat),
    }
}

/// The entries are the items of a list, each under its address.
pub open spec fn entries_of_items(entries: Seq<PeerEntry>, items: Seq<JsonValue>) -> bool {
    entries.len() == items.len() && forall|i: int|
        0 <= i < entries.len() ==> (#[trigger] entries[i]).addr@ == listed_addr(items[i], i)
            && *entries[i].value == items[i]
}

/// The entries are the peers of a snapshot. The peers are looked for under
/// the first of [`peer_list_keys`] that holds an object or a list; an
/// object lists them by address, a list holds them one by one. A snapshot
/// without such a member is itself the object of its peers if all of its
/// members are objects. Anything else holds no peers.
pub open spec fn is_peer_entries(entries: Seq<PeerEntry>, v: JsonValue) -> bool {
    match v {
        JsonValue::Object(top) => match picked(
            v,
            peer_list_keys(),
            0,
            |m: JsonValue| as_peer_list(m),
        ) {
            Some(JsonValue::Object(members)) => entries_of_members(entries, members@),
            Some(JsonValue::Array(items)) => entries_of_items(entries, items@),
            _ => if all_objects(top@) {
                entries_of_members(entries, top@)
            } else {
                entries.len() == 0
            },
        },
        _ => entries.len() == 0,
    }
}

/// Lists the members of an object as peers.
fn entries_from_members<'a>(members: &'a Vec<(String, JsonValue)>) -> (out: Vec<PeerEntry<'a>>)
    ensures
        entries_of_members(out@, members@),
{
    let mut out: Vec<PeerEntry<'a>> = Vec::new();
    let mut i: usize = 0;
    while i < members.len()
        invariant
            i <= members.len(),
            out.len() == i,
            forall|j: int|
                0 <= j < i ==> (#[trigger] out@[j]).addr == members@[j].0 && *out@[j].value
                    == members@[j].1,
        decreases members.len() - i,
    {
        out.push(PeerEntry { addr: members[i].0.clone(), value: &members[i].1 });
        i += 1;
    }
    out
}

/// Lists the items of a list as peers.
fn entries_from_items<'a>(items: &'a Vec<JsonValue>) -> (out: Vec<PeerEntry<'a>>)
    ensures
        entries_of_items(out@, items@),
{
    let keys = ["addr", "peer_addr", "peer", "socket"];
    let mut out: Vec<PeerEntry<'a>> = Vec::new();
    let mut i: usize = 0;
    while i < items.len()
        invariant
            i <= items.len(),
            keys@ == addr_keys(),
            out.len() == i,
            forall|j: int|
                0 <= j < i ==> (#[trigger] out@[j]).addr@ == listed_addr(items@[j], j)
                    && *out@[j].value == items@[j],
        decreases items.len() - i,
    {
        let addr = match pick_str(&items[i], keys.as_slice()) {
            Some(a) => a,
            None => {
                let mut made = "peer-".to_owned();
                push_decimal(&mut made, i);
                made
            },
        };
        out.push(PeerEntry { addr, value: &items[i] });
        i += 1;
    }
    out
}

/// Tells whether every member of an object is itself an object.
fn members_all_objects(members: &Vec<(String, JsonValue)>) -> (r: bool)
    ensures
        r == all_objects(members@),
{
    let mut i: usize = 0;
    while i < members.len()
        invariant
            i <= members.len(),
            forall|j: int| 0 <= j < i ==> (#[trigger] members@[j]).1 is Object,
        decreases members.len() - i,
    {
        match &members[i].1 {
            JsonValue::Object(_) => {},
            _ => {
                return false;
            },
        }
        i += 1;
    }
    true
}

/// Lists the peers of a snapshot.
pub fn peer_entries_from_snapshot<'a>(v: &'a JsonValue) -> (out: Vec<PeerEntry<'a>>)
    ensures
        is_peer_entries(out@, *v),
{
    match v {
        JsonValue::Object(top) => {
            let keys = ["peers", "per_peer", "per_peer_stats", "peer_stats", "per_peer_stats_snapshot"];
            let mut i: usize = 0;
            while i < keys.len()
                invariant
                    i <= keys.len(),
                    keys@ == peer_list_keys(),
                    *v == JsonValue::Object(*top),
                    picked(*v, peer_list_keys(), 0, |m: JsonValue| as_peer_list(m)) == picked(
                        *v,
                        peer_list_keys(),
                        i as int,
                        |m: JsonValue| as_peer_list(m),
                    ),
                decreases keys.len() - i,
            {
                match get_member(v, keys[i]) {
                    Some(JsonValue::Object(members)) => {
                        return entries_from_members(members);
                    },
                    Some(JsonValue::Array(items)) => {
                        return entries_from_items(items);
                    },
                    _ => {},
                }
                i += 1;
            }
            if members_all_objects(top) {
                entries_from_members(top)
            } else {
                Vec::new()
            }
        },
        _ => Vec::new(),
    }
}

/// One peer as it goes into the peer table: its entry in the snapshot,
/// what its address was parsed to as a socket address, if it could be
/// parsed, and the country that was looked up for it, if any.
#[derive(Debug)]
pub struct PeerObservation<'a> {
    pub addr: String,
    pub socket: Option<(String, u16)>,
    pub geo_country: Option<String>,
    pub value: &'a JsonValue,
}

/// What a query for the peers of a torrent came to.
#[derive(Debug)]
pub enum PeerSnapshot<'a> {
    /// The engine failed, with this message.
    Failed(String),
    /// The engine reported these peers.
    Peers(Vec<PeerObservation<'a>>),
}

/// The names under which a peer may report the bytes downloaded from it.
pub open spec fn downloaded_keys() -> Seq<&'static str> {
    seq!["downloaded", "downloaded_bytes", "total_downloaded", "dl_bytes"]
}

/// The names under which a peer may report the bytes uploaded to it.
pub open spec fn uploaded_keys() -> Seq<&'static str> {
    seq!["uploaded", "uploaded_bytes", "total_uploaded", "ul_bytes"]
}

/// The names under which a peer may report its client.
pub open spec fn client_keys() -> Seq<&'static str> {
    seq!["client", "client_name", "user_agent", "client_id"]
}

/// The names under which a peer may report its flags.
pub open spec fn flags_keys() -> Seq<&'static str> {
    seq!["flags"]
}

/// The names under which a peer may report its country.
pub open spec fn country_keys() -> Seq<&'static str> {
    seq!["country", "country_code"]
}

/// The names under which a peer may report its progress.
pub open spec fn progress_keys() -> Seq<&'static str> {
    seq!["progress", "peer_progress"]
}

/// The names under which a peer may report that it is snubbed.
pub open spec fn snubbed_keys() -> Seq<&'static str> {
    seq!["snubbed", "is_snubbed"]
}

/// The names under which a peer may report that it is choked.
pub open spec fn choked_keys() -> Seq<&'static str> {
    seq!["choked", "is_choked"]
}

/// The names under which a peer may report that it is interested.
pub open spec fn interested_keys() -> Seq<&'static str> {
    seq!["interested", "is_interested"]
}

/// The names under which a peer may report an optimistic unchoke.
pub open spec fn optimistic_keys() -> Seq<&'static str> {
    seq!["optimistic", "optimistic_unchoke"]
}

/// The names under which a peer may report that it connected to us.
pub open spec fn incoming_keys() -> Seq<&'static str> {
    seq!["incoming", "is_incoming"]
}

/// The names under which a peer may report an encrypted connection.
pub open spec fn encrypted_keys() -> Seq<&'static str> {
    seq!["encrypted", "is_encrypted"]
}

/// The names under which a peer may report its round-trip time.
pub open spec fn rtt_keys() -> Seq<&'static str> {
    seq!["rtt_ms", "rtt", "ping_ms"]
}

/// The bytes that a peer reports as downloaded from it; 0 where it reports
/// none.
pub open spec fn reported_downloaded(v: JsonValue) -> u64 {
    or_default(picked(v, downloaded_keys(), 0, |m: JsonValue| as_count(m)), 0)
}

/// The bytes that a peer reports as uploaded to it; 0 where it reports
/// none.
pub open spec fn reported_uploaded(v: JsonValue) -> u64 {
    or_default(picked(v, uploaded_keys(), 0, |m: JsonValue| as_count(m)), 0)
}

/// A rate as a signed number, capped at `i64::MAX`.
pub open spec fn signed_rate(r: u64) -> i64 {
    if r > i64::MAX {
        i64::MAX
    } else {
        r as i64
    }
}

/// The rate at which a total grew from `before` at time `then` to `total`
/// at time `now`, over at least [`MIN_PEER_INTERVAL_MS`].
pub open spec fn peer_rate(total: u64, before: u64, then: u64, now: u64) -> i64 {
    signed_rate(rate_per_sec(minus(total, before), floored(minus(now, then), MIN_PEER_INTERVAL_MS)))
}

/// Computes the rate of a peer.
pub fn compute_peer_rate(total: u64, before: u64, then: u64, now: u64) -> (r: i64)
    ensures
        r == peer_rate(total, before, then, now),
{
    let elapsed = now.saturating_sub(then);
    let dt = if elapsed < MIN_PEER_INTERVAL_MS {
        MIN_PEER_INTERVAL_MS
    } else {
        elapsed
    };
    let rate = bytes_per_second(total.saturating_sub(before), dt);
    if rate > i64::MAX as u64 {
        i64::MAX
    } else {
        rate as i64
    }
}

/// The row of a peer of a snapshot that was taken at time `now`, where
/// `prev` is the sample that was kept for the peer. A peer without a
/// sample has rates of 0. The country is what the peer reports, or else
/// what was looked up.
pub open spec fn is_peer_row(
    row: PeerRow,
    obs: PeerObservation,
    prev: Option<PeerSample>,
    now: u64,
) -> bool {
    let v = *obs.value;
    &&& row.id == obs.addr
    &&& (row.ip@, row.port) == split_address(obs.addr@, obs.socket)
    &&& row.downloaded == reported_downloaded(v)
    &&& row.uploaded == reported_uploaded(v)
    &&& row.down_rate == (match prev {
        Some(p) => peer_rate(row.downloaded, p.downloaded, p.last_seen_ms, now),
        None => 0,
    })
    &&& row.up_rate == (match prev {
        Some(p) => peer_rate(row.uploaded, p.uploaded, p.last_seen_ms, now),
        None => 0,
    })
    &&& label_of(row.client) == picked(v, client_keys(), 0, |m: JsonValue| as_label(m))
    &&& label_of(row.flags) == Some(
        match picked(v, flags_keys(), 0, |m: JsonValue| as_label(m)) {
            Some(f) => f,
            None => synth_flags(v),
        },
    )
    &&& row.progress_ppm == picked(v, progress_keys(), 0, |m: JsonValue| as_millionths(m))
    &&& row.snubbed == or_default(picked(v, snubbed_keys(), 0, |m: JsonValue| as_flag(m)), false)
    &&& row.choked == or_default(picked(v, choked_keys(), 0, |m: JsonValue| as_flag(m)), false)
    &&& row.interested == picked(v, interested_keys(), 0, |m: JsonValue| as_flag(m))
    &&& row.optimistic == picked(v, optimistic_keys(), 0, |m: JsonValue| as_flag(m))
    &&& row.incoming == picked(v, incoming_keys(), 0, |m: JsonValue| as_flag(m))
    &&& row.encrypted == picked(v, encrypted_keys(), 0, |m: JsonValue| as_flag(m))
    &&& row.rtt_ms == (match picked(v, rtt_keys(), 0, |m: JsonValue| as_count(m)) {
        Some(x) => Some(
            if x > u32::MAX {
                u32::MAX
            } else {
                x as u32
            },
        ),
        None => None,
    })
    &&& label_of(row.country) == (match picked(v, country_keys(), 0, |m: JsonValue| as_label(m)) {
        Some(c) => Some(c),
        None => label_of(obs.geo_country),
    })
    &&& row.last_seen_ms == now
}

/// Builds the row of a peer.
pub fn peer_row(obs: &PeerObservation, prev: Option<&PeerSample>, now: u64) -> (row: PeerRow)
    ensures
        is_peer_row(
            row,
            *obs,
            match prev {
                Some(p) => Some(*p),
                None => None,
            },
            now,
        ),
{
    let v = obs.value;
    let dk = ["downloaded", "downloaded_bytes", "total_downloaded", "dl_bytes"];
    let uk = ["uploaded", "uploaded_bytes", "total_uploaded", "ul_bytes"];
    let ck = ["client", "client_name", "user_agent", "client_id"];
    let fk = ["flags"];
    let nk = ["country", "country_code"];
    let pk = ["progress", "peer_progress"];
    let sk = ["snubbed", "is_snubbed"];
    let hk = ["choked", "is_choked"];
    let ik = ["interested", "is_interested"];
    let ok = ["optimistic", "optimistic_unchoke"];
    let gk = ["incoming", "is_incoming"];
    let ek = ["encrypted", "is_encrypted"];
    let rk = ["rtt_ms", "rtt", "ping_ms"];
    proof {
        assert(fk@ =~= flags_keys());
    }
    let (ip, port) = split_addr(obs.addr.as_str(), &obs.socket);
    let downloaded = match pick_u64(v, dk.as_slice()) {
        Some(n) => n,
        None => 0,
    };
    let uploaded = match pick_u64(v, uk.as_slice()) {
        Some(n) => n,
        None => 0,
    };
    let client = pick_str(v, ck.as_slice());
    let flags = match pick_str(v, fk.as_slice()) {
        Some(f) => f,
        None => synth_peer_flags(v),
    };
    let (down_rate, up_rate) = match prev {
        Some(p) => (
            compute_peer_rate(downloaded, p.downloaded, p.last_seen_ms, now),
            compute_peer_rate(uploaded, p.uploaded, p.last_seen_ms, now),
        ),
        None => (0, 0),
    };
    let country = match pick_str(v, nk.as_slice()) {
        Some(c) => Some(c),
        None => clone_text(&obs.geo_country),
    };
    let rtt_ms = match pick_u64(v, rk.as_slice()) {
        Some(x) => Some(
            if x > u32::MAX as u64 {
                u32::MAX
            } else {
                x as u32
            },
        ),
        None => None,
    };
    let snubbed = match pick_bool(v, sk.as_slice()) {
        Some(b) => b,
        None => false,
    };
    let choked = match pick_bool(v, hk.as_slice()) {
        Some(b) => b,
        None => false,
    };
    PeerRow {
        id: obs.addr.clone(),
        ip,
        port,
        down_rate,
        up_rate,
        downloaded,
        uploaded,
        client,
        flags: Some(flags),
        progress_ppm: pick_millionths(v, pk.as_slice()),
        snubbed,
        choked,
        interested: pick_bool(v, ik.as_slice()),
        optimistic: pick_bool(v, ok.as_slice()),
        incoming: pick_bool(v, gk.as_slice()),
        encrypted: pick_bool(v, ek.as_slice()),
        rtt_ms,
        country,
        last_seen_ms: now,
    }
}

/// The sample that is kept of a peer of a snapshot taken at time `now`.
pub open spec fn sample_of(obs: PeerObservation, now: u64) -> PeerSample {
    PeerSample {
        key: obs.addr,
        downloaded: reported_downloaded(*obs.value),
        uploaded: reported_uploaded(*obs.value),
        last_seen_ms: now,
    }
}

/// The table after the peers of a snapshot were put in, one after the
/// other.
pub open spec fn samples_noted(
    samples: Seq<PeerSample>,
    obs: Seq<PeerObservation>,
    now: u64,
) -> Seq<PeerSample>
    decreases obs.len(),
{
    if obs.len() == 0 {
        samples
    } else {
        upserted(samples_noted(samples, obs.drop_last(), now), sample_of(obs.last(), now))
    }
}

/// The sample that is kept for a peer, if there is one.
pub open spec fn previous(samples: Seq<PeerSample>, key: Seq<char>) -> Option<PeerSample> {
    let at = sample_index(samples, key, 0);
    if at < samples.len() {
        Some(samples[at])
    } else {
        None
    }
}

/// The rows are those of the peers of a snapshot, in the order of the
/// snapshot: the rates of each peer go by the sample that was kept for it
/// when its turn came.
pub open spec fn rows_match(
    rows: Seq<PeerRow>,
    obs: Seq<PeerObservation>,
    samples: Seq<PeerSample>,
    now: u64,
) -> bool {
    rows.len() == obs.len() && forall|i: int|
        0 <= i < rows.len() ==> is_peer_row(
            #[trigger] rows[i],
            obs[i],
            previous(samples_noted(samples, obs.take(i), now), obs[i].addr@),
            now,
        )
}

/// Builds the rows of the peers of a snapshot and puts their samples into
/// the table.
pub fn note_peers(samples: &mut Vec<PeerSample>, obs: &Vec<PeerObservation>, now: u64) -> (rows:
    Vec<PeerRow>)
    ensures
        final(samples)@ == samples_noted(old(samples)@, obs@, now),
        rows_match(rows@, obs@, old(samples)@, now),
{
    let mut rows: Vec<PeerRow> = Vec::new();
    let mut i: usize = 0;
    while i < obs.len()
        invariant
            i <= obs.len(),
            rows.len() == i,
            samples@ == samples_noted(old(samples)@, obs@.take(i as int), now),
            forall|j: int|
                0 <= j < i ==> is_peer_row(
                    #[trigger] rows@[j],
                    obs@[j],
                    previous(samples_noted(old(samples)@, obs@.take(j), now), obs@[j].addr@),
                    now,
                ),
        decreases obs.len() - i,
    {
        let o = &obs[i];
        let at = find_sample(samples, o.addr.as_str());
        let row = if at < samples.len() {
            peer_row(o, Some(&samples[at]), now)
        } else {
            peer_row(o, None, now)
        };
        let sample = PeerSample {
            key: o.addr.clone(),
            downloaded: row.downloaded,
            uploaded: row.uploaded,
            last_seen_ms: now,
        };
        upsert_sample(samples, sample);
        rows.push(row);
        proof {
            assert(obs@.take(i + 1).drop_last() =~= obs@.take(i as int));
        }
        i += 1;
    }
    assert(obs@.take(obs.len() as int) =~= obs@);
    rows
}

/// A runtime after the progress of every peer that reports one was taken
/// into the piece map, one peer after the other.
pub open spec fn progress_all(rt: RuntimeView, rows: Seq<PeerRow>) -> RuntimeView
    decreases rows.len(),
{
    if rows.len() == 0 {
        rt
    } else {
        let before = progress_all(rt, rows.drop_last());
        match rows.last().progress_ppm {
            Some(p) => progress_noted(before, rows.last().id, clamped_ppm(p)),
            None => before,
        }
    }
}

/// Takes the progress of the peers of a snapshot into the piece map.
pub fn note_progress(rt: &mut TorrentRuntime, rows: &Vec<PeerRow>)
    ensures
        final(rt)@ == progress_all(old(rt)@, rows@),
{
    let mut i: usize = 0;
    while i < rows.len()
        invariant
            i <= rows.len(),
            rt@ == progress_all(old(rt)@, rows@.take(i as int)),
        decreases rows.len() - i,
    {
        proof {
            assert(rows@.take(i + 1).drop_last() =~= rows@.take(i as int));
        }
        match rows[i].progress_ppm {
            Some(p) => {
                update_piece_availability_from_peers(rt, clamp_ppm(p), &rows[i].id);
            },
            None => {},
        }
        i += 1;
    }
    assert(rows@.take(rows.len() as int) =~= rows@);
}

/// A runtime after every peer from index `from` of the remembered progress
/// on that is not among `rows` was taken out of the piece map.
pub open spec fn absent_forgotten(rt: RuntimeView, rows: Seq<PeerRow>, from: int) -> RuntimeView
    decreases rt.peer_progress_cache.len() - from,
{
    if from < 0 || from >= rt.peer_progress_cache.len() {
        rt
    } else if crate::samples::lists_peer(rows, rt.peer_progress_cache[from].key@) {
        absent_forgotten(rt, rows, from + 1)
    } else {
        absent_forgotten(forgotten_at(rt, from), rows, from)
    }
}

/// Takes the peers that are not in the snapshot out of the piece map.
pub fn forget_absent(rt: &mut TorrentRuntime, rows: &Vec<PeerRow>)
    ensures
        final(rt)@ == absent_forgotten(old(rt)@, rows@, 0),
{
    let mut i: usize = 0;
    while i < rt.peer_progress_cache.len()
        invariant
            i <= rt.peer_progress_cache.len(),
            absent_forgotten(rt@, rows@, i as int) == absent_forgotten(old(rt)@, rows@, 0),
        decreases rt.peer_progress_cache.len() - i,
    {
        if crate::samples::is_listed(rows, rt.peer_progress_cache[i].key.as_str()) {
            i += 1;
        } else {
            forget_progress_at(rt, i);
        }
    }
}

/// Whether the row `a` comes before the row `b`: it has the higher
/// download rate, or the same rate and more bytes uploaded.
pub open spec fn ranks_before(a: PeerRow, b: PeerRow) -> bool {
    a.down_rate > b.down_rate || (a.down_rate == b.down_rate && a.uploaded > b.uploaded)
}

/// No row comes behind a row that it ranks before.
pub open spec fn ranked(rows: Seq<PeerRow>) -> bool {
    forall|i: int, j: int|
        0 <= i < j < rows.len() ==> !ranks_before(#[trigger] rows[j], #[trigger] rows[i])
}

/// Tells whether a row ranks before another.
pub fn row_ranks_before(a: &PeerRow, b: &PeerRow) -> (r: bool)
    ensures
        r == ranks_before(*a, *b),
{
    a.down_rate > b.down_rate || (a.down_rate == b.down_rate && a.uploaded > b.uploaded)
}

/// Sorts rows by falling download rate and, among equal rates, by falling
/// number of bytes uploaded. The result holds the same rows.
pub fn sort_peer_rows(rows: Vec<PeerRow>) -> (out: Vec<PeerRow>)
    ensures
        ranked(out@),
        out@.to_multiset() == rows@.to_multiset(),
        out@.len() == rows@.len(),
{
    let mut rest = rows;
    let mut out: Vec<PeerRow> = Vec::new();
    proof {
        assert(out@.to_multiset().add(rest@.to_multiset()) =~= rows@.to_multiset()) by {
            broadcast use vstd::seq_lib::group_to_multiset_ensures;

        }
    }
    while rest.len() > 0
        invariant
            ranked(out@),
            out@.to_multiset().add(rest@.to_multiset()) == rows@.to_multiset(),
            out@.len() + rest@.len() == rows@.len(),
        decreases rest.len(),
    {
        let ghost rest_before = rest@;
        let ghost out_before = out@;
        let row = rest.pop().unwrap();
        let mut pos: usize = 0;
        while pos < out.len() && !row_ranks_before(&row, &out[pos])
            invariant
                pos <= out.len(),
                forall|k: int| 0 <= k < pos ==> !ranks_before(row, #[trigger] out@[k]),
            decreases out.len() - pos,
        {
            pos += 1;
        }
        out.insert(pos, row);
        proof {
            broadcast use vstd::seq_lib::group_to_multiset_ensures;

            assert(rest_before =~= rest@.push(row));
            vstd::seq_lib::to_multiset_insert(out_before, pos as int, row);
            assert forall|i: int, j: int| 0 <= i < j < out@.len() implies !ranks_before(
                #[trigger] out@[j],
                #[trigger] out@[i],
            ) by {
                lemma_rank_order(out_before, row, pos as int, i, j);
            }
        }
    }
    proof {
        broadcast use vstd::seq_lib::group_to_multiset_ensures;

    }
    out
}

/// Putting a row in front of the first row that it ranks before keeps the
/// rows ranked.
proof fn lemma_rank_order(before: Seq<PeerRow>, row: PeerRow, pos: int, i: int, j: int)
    requires
        ranked(before),
        0 <= pos <= before.len(),
        forall|k: int| 0 <= k < pos ==> !ranks_before(row, #[trigger] before[k]),
        pos < before.len() ==> ranks_before(row, before[pos]),
        0 <= i < j < before.len() + 1,
    ensures
        !ranks_before(before.insert(pos, row)[j], before.insert(pos, row)[i]),
{
}

/// The runtime after the peers of a snapshot were taken in at time `now`:
/// their samples are put into the table, their progress goes into the
/// piece map, peers that are gone leave the piece map and the table, and
/// the table is cut down to its bound.
pub open spec fn peers_noted(
    rt: RuntimeView,
    obs: Seq<PeerObservation>,
    rows: Seq<PeerRow>,
    now: u64,
) -> RuntimeView {
    let sampled = RuntimeView { peer_samples: samples_noted(rt.peer_samples, obs, now), ..rt };
    let mapped = absent_forgotten(progress_all(sampled, rows), rows, 0);
    RuntimeView {
        peer_samples: evicted(
            kept_samples_of(mapped.peer_samples, rows, 0),
            MAX_PEER_SAMPLES_PER_TORRENT as nat,
        ),
        ..mapped
    }
}

/// What a query for the peers of a torrent does to its record, and the
/// table that it yields. A failure of the engine is noted and yields an
/// empty table. Otherwise the table holds one row for each peer, ranked by
/// download rate and then by bytes uploaded.
pub open spec fn peers_taken(
    before: RecordView,
    after: RecordView,
    snapshot: PeerSnapshot,
    table: Seq<PeerRow>,
    now: u64,
) -> bool {
    match snapshot {
        PeerSnapshot::Failed(message) => table.len() == 0 && after == (RecordView {
            runtime: RuntimeView { last_error: Some(message), ..before.runtime },
            ..before
        }),
        PeerSnapshot::Peers(obs) => exists|rows: Seq<PeerRow>|
            {
                &&& #[trigger] rows_match(rows, obs@, before.runtime.peer_samples, now)
                &&& ranked(table)
                &&& table.to_multiset() == rows.to_multiset()
                &&& after == RecordView {
                    runtime: peers_noted(before.runtime, obs@, rows, now),
                    ..before
                }
            },
    }
}

/// Putting the peers of a snapshot into a table in which no peer has two
/// samples leaves a table in which no peer has two samples.
pub proof fn lemma_samples_noted_distinct(
    samples: Seq<PeerSample>,
    obs: Seq<PeerObservation>,
    now: u64,
)
    requires
        sampled_peers(samples).no_duplicates(),
    ensures
        sampled_peers(samples_noted(samples, obs, now)).no_duplicates(),
    decreases obs.len(),
{
    if obs.len() > 0 {
        lemma_samples_noted_distinct(samples, obs.drop_last(), now);
        crate::samples::lemma_upserted_distinct(
            samples_noted(samples, obs.drop_last(), now),
            sample_of(obs.last(), now),
        );
    }
}

/// Taking the progress of peers in changes only the piece map. It keeps
/// one counter for each estimated piece, and it remembers no peer twice
/// where none was remembered twice before.
pub proof fn lemma_progress_all_frame(rt: RuntimeView, rows: Seq<PeerRow>)
    ensures
        progress_all(rt, rows) == (RuntimeView {
            piece_availability: progress_all(rt, rows).piece_availability,
            peer_progress_cache: progress_all(rt, rows).peer_progress_cache,
            ..rt
        }),
        rt.piece_availability.len() == rt.total_pieces_estimate ==> progress_all(
            rt,
            rows,
        ).piece_availability.len() == rt.total_pieces_estimate,
        remembered_peers(rt.peer_progress_cache).no_duplicates() ==> remembered_peers(
            progress_all(rt, rows).peer_progress_cache,
        ).no_duplicates(),
    decreases rows.len(),
{
    if rows.len() > 0 {
        lemma_progress_all_frame(rt, rows.drop_last());
        let before = progress_all(rt, rows.drop_last());
        match rows.last().progress_ppm {
            Some(p) => {
                lemma_progress_noted_frame(before, rows.last().id, clamped_ppm(p));
            },
            None => {},
        }
    }
}

/// Taking absent peers out changes only the piece map. It keeps one
/// counter for each estimated piece, and it remembers no peer twice where
/// none was remembered twice before.
pub proof fn lemma_absent_forgotten_frame(rt: RuntimeView, rows: Seq<PeerRow>, from: int)
    ensures
        absent_forgotten(rt, rows, from) == (RuntimeView {
            piece_availability: absent_forgotten(rt, rows, from).piece_availability,
            peer_progress_cache: absent_forgotten(rt, rows, from).peer_progress_cache,
            ..rt
        }),
        absent_forgotten(rt, rows, from).piece_availability.len() == rt.piece_availability.len(),
        remembered_peers(rt.peer_progress_cache).no_duplicates() ==> remembered_peers(
            absent_forgotten(rt, rows, from).peer_progress_cache,
        ).no_duplicates(),
    decreases rt.peer_progress_cache.len() - from,
{
    if 0 <= from < rt.peer_progress_cache.len() {
        if crate::samples::lists_peer(rows, rt.peer_progress_cache[from].key@) {
            lemma_absent_forgotten_frame(rt, rows, from + 1);
        } else {
            lemma_forgotten_at_frame(rt, from);
            lemma_absent_forgotten_frame(forgotten_at(rt, from), rows, from);
        }
    }
}

/// Taking a snapshot of peers in keeps what every runtime keeps, and
/// leaves the table of samples within its bound in any case.
pub proof fn lemma_peers_noted_wf(
    rt: RuntimeView,
    obs: Seq<PeerObservation>,
    rows: Seq<PeerRow>,
    now: u64,
)
    ensures
        peers_noted(rt, obs, rows, now).peer_samples.len() <= MAX_PEER_SAMPLES_PER_TORRENT,
        runtime_wf(rt) ==> runtime_wf(peers_noted(rt, obs, rows, now)),
{
    let sampled = RuntimeView { peer_samples: samples_noted(rt.peer_samples, obs, now), ..rt };
    lemma_progress_all_frame(sampled, rows);
    lemma_absent_forgotten_frame(progress_all(sampled, rows), rows, 0);
    let mapped = absent_forgotten(progress_all(sampled, rows), rows, 0);
    let kept = kept_samples_of(mapped.peer_samples, rows, 0);
    crate::samples::lemma_evicted(kept, MAX_PEER_SAMPLES_PER_TORRENT as nat);
    if runtime_wf(rt) {
        lemma_samples_noted_distinct(rt.peer_samples, obs, now);
        crate::samples::lemma_kept_samples_distinct(mapped.peer_samples, rows, 0);
        crate::samples::lemma_evicted_distinct(kept, MAX_PEER_SAMPLES_PER_TORRENT as nat);
    }
}

/// The addresses of the peers of a snapshot, in order.
pub open spec fn peer_addresses(obs: Seq<PeerObservation>) -> Seq<Seq<char>> {
    obs.map_values(|o: PeerObservation| o.addr@)
}

/// After a snapshot was put in, the table holds for each peer of the
/// snapshot a sample that was seen at the time of the snapshot.
pub proof fn lemma_samples_noted_hold(
    samples: Seq<PeerSample>,
    obs: Seq<PeerObservation>,
    now: u64,
    i: int,
)
    requires
        0 <= i < obs.len(),
    ensures
        exists|j: int|
            0 <= j < samples_noted(samples, obs, now).len() && (#[trigger] samples_noted(
                samples,
                obs,
                now,
            )[j]).key@ == obs[i].addr@ && samples_noted(samples, obs, now)[j].last_seen_ms == now,
    decreases obs.len(),
{
    let before = samples_noted(samples, obs.drop_last(), now);
    let s = sample_of(obs.last(), now);
    let after = samples_noted(samples, obs, now);
    let at = sample_index(before, s.key@, 0);
    crate::samples::lemma_sample_index(before, s.key@, 0);
    if i == obs.len() - 1 {
        assert(after[at] == s);
    } else {
        lemma_samples_noted_hold(samples, obs.drop_last(), now, i);
        let j = choose|j: int|
            0 <= j < before.len() && (#[trigger] before[j]).key@ == obs.drop_last()[i].addr@
                && before[j].last_seen_ms == now;
        if j == at {
            assert(after[j] == s);
        } else {
            assert(after[j] == before[j]);
        }
    }
}

/// A snapshot of more peers than the table may hold fills the table: where
/// no peer had two samples and the snapshot names more distinct addresses
/// than the bound, exactly as many samples are left as the bound allows.
/// Each of them is that of a peer of the snapshot and was seen at the time
/// of the snapshot, and a sample of the snapshot that had to leave was
/// seen no later than any that stays.
pub proof fn lemma_crowded_snapshot_fills_table(
    rt: RuntimeView,
    obs: Seq<PeerObservation>,
    rows: Seq<PeerRow>,
    now: u64,
)
    requires
        sampled_peers(rt.peer_samples).no_duplicates(),
        rows_match(rows, obs, rt.peer_samples, now),
        peer_addresses(obs).to_set().len() > MAX_PEER_SAMPLES_PER_TORRENT,
    ensures
        peers_noted(rt, obs, rows, now).peer_samples.len() == MAX_PEER_SAMPLES_PER_TORRENT,
        forall|k: int|
            0 <= k < peers_noted(rt, obs, rows, now).peer_samples.len() ==> peer_addresses(
                obs,
            ).contains((#[trigger] peers_noted(rt, obs, rows, now).peer_samples[k]).key@)
                && peers_noted(rt, obs, rows, now).peer_samples[k].last_seen_ms == now,
        forall|k: int, j: int|
            0 <= k < peers_noted(rt, obs, rows, now).peer_samples.len() && 0 <= j
                < samples_noted(rt.peer_samples, obs, now).len() && peer_addresses(obs).contains(
                (#[trigger] samples_noted(rt.peer_samples, obs, now)[j]).key@,
            ) && !peers_noted(rt, obs, rows, now).peer_samples.contains(
                samples_noted(rt.peer_samples, obs, now)[j],
            ) ==> samples_noted(rt.peer_samples, obs, now)[j].last_seen_ms <= (
            #[trigger] peers_noted(rt, obs, rows, now).peer_samples[k]).last_seen_ms,
{
    let cap = MAX_PEER_SAMPLES_PER_TORRENT as nat;
    let noted = samples_noted(rt.peer_samples, obs, now);
    let sampled = RuntimeView { peer_samples: noted, ..rt };
    lemma_progress_all_frame(sampled, rows);
    lemma_absent_forgotten_frame(progress_all(sampled, rows), rows, 0);
    let kept = kept_samples_of(noted, rows, 0);
    let out = evicted(kept, cap);
    assert(peers_noted(rt, obs, rows, now).peer_samples == out);
    lemma_samples_noted_distinct(rt.peer_samples, obs, now);
    crate::samples::lemma_kept_samples_distinct(noted, rows, 0);
    crate::samples::lemma_kept_samples_listed(noted, rows);
    crate::samples::lemma_evicted(kept, cap);
    let addresses = peer_addresses(obs);
    let peers = sampled_peers(kept);
    // Every sample of a peer of the snapshot was seen now and is kept.
    assert forall|j: int|
        0 <= j < noted.len() && addresses.contains((#[trigger] noted[j]).key@) implies noted[j].last_seen_ms
        == now && kept.contains(noted[j]) by {
        let i = choose|i: int| 0 <= i < addresses.len() && addresses[i] == noted[j].key@;
        lemma_samples_noted_hold(rt.peer_samples, obs, now, i);
        let t = choose|t: int|
            0 <= t < noted.len() && (#[trigger] noted[t]).key@ == obs[i].addr@
                && noted[t].last_seen_ms == now;
        assert(sampled_peers(noted)[t] == sampled_peers(noted)[j]);
        assert(rows[i].id@ == noted[j].key@);
        assert(noted.contains(noted[j]));
    }
    // Every address of the snapshot is that of a kept sample.
    assert forall|a: Seq<char>| addresses.to_set().contains(a) implies peers.to_set().contains(
        a,
    ) by {
        let i = choose|i: int| 0 <= i < addresses.len() && addresses[i] == a;
        lemma_samples_noted_hold(rt.peer_samples, obs, now, i);
        let t = choose|t: int|
            0 <= t < noted.len() && (#[trigger] noted[t]).key@ == obs[i].addr@
                && noted[t].last_seen_ms == now;
        assert(addresses.contains(noted[t].key@));
        let k = choose|k: int| 0 <= k < kept.len() && kept[k] == noted[t];
        assert(peers[k] == a);
    }
    vstd::seq_lib::seq_to_set_is_finite(peers);
    vstd::set_lib::lemma_len_subset(addresses.to_set(), peers.to_set());
    peers.unique_seq_to_set();
    assert(kept.len() > cap);
    assert forall|k: int| 0 <= k < out.len() implies addresses.contains((#[trigger] out[k]).key@)
        && out[k].last_seen_ms == now by {
        assert(kept.contains(out[k]));
        let r = choose|r: int| 0 <= r < rows.len() && (#[trigger] rows[r]).id@ == out[k].key@;
        assert(addresses[r] == out[k].key@);
        let j = choose|j: int| 0 <= j < noted.len() && noted[j] == out[k];
        assert(addresses.contains(noted[j].key@));
    }
}

/// Takes the peers that the engine reports of a torrent into its record
/// and builds the peer table. The table of samples stays within its bound,
/// and a snapshot of more distinct peers than the bound leaves it full.
pub fn record_peers(rec: &mut TorrentRecord, snapshot: PeerSnapshot, now: u64) -> (resp:
    PeersResponse)
    ensures
        peers_taken(old(rec)@, final(rec)@, snapshot, resp.peers@, now),
        final(rec)@.torrent == old(rec)@.torrent,
        runtime_wf(old(rec)@.runtime) ==> runtime_wf(final(rec)@.runtime),
        snapshot is Peers ==> final(rec)@.runtime.peer_samples.len()
            <= MAX_PEER_SAMPLES_PER_TORRENT,
        snapshot matches PeerSnapshot::Peers(obs) && sampled_peers(
            old(rec)@.runtime.peer_samples,
        ).no_duplicates() && peer_addresses(obs@).to_set().len() > MAX_PEER_SAMPLES_PER_TORRENT
            ==> final(rec)@.runtime.peer_samples.len() == MAX_PEER_SAMPLES_PER_TORRENT,
{
    match snapshot {
        PeerSnapshot::Failed(message) => {
            rec.runtime.last_error = Some(message);
            PeersResponse { peers: Vec::new() }
        },
        PeerSnapshot::Peers(obs) => {
            let rows = note_peers(&mut rec.runtime.peer_samples, &obs, now);
            note_progress(&mut rec.runtime, &rows);
            forget_absent(&mut rec.runtime, &rows);
            crate::samples::retain_listed(&mut rec.runtime.peer_samples, &rows);
            evict_samples(&mut rec.runtime.peer_samples, MAX_PEER_SAMPLES_PER_TORRENT);
            let ghost unsorted = rows@;
            let table = sort_peer_rows(rows);
            proof {
                lemma_peers_noted_wf(old(rec)@.runtime, obs@, unsorted, now);
                if sampled_peers(old(rec)@.runtime.peer_samples).no_duplicates()
                    && peer_addresses(obs@).to_set().len() > MAX_PEER_SAMPLES_PER_TORRENT {
                    lemma_crowded_snapshot_fills_table(old(rec)@.runtime, obs@, unsorted, now);
                }
            }
            PeersResponse { peers: table }
        },
    }
}

} // verus!
