//! What is read out of a magnet link: its info-hash and its trackers.
//!
//! A link is looked at as its UTF-8 bytes; every delimiter is ASCII.

use crate::text::{
    ascii_lower, blank, decode_lossy, find_bytes, find_from, is_blank, is_hex_digit,
    lemma_find_from, occurs_at, starts_with, texts, to_ascii_lower, utf8_lossy,
};
use vstd::prelude::*;
use vstd::slice::*;
use vstd::string::*;

verus! {

/// Longest magnet link that is looked at, in bytes.
pub const MAX_MAGNET_LENGTH: usize = 8192;

/// Number of hexadecimal digits in an info-hash.
pub const INFO_HASH_DIGITS: usize = 40;

/// The characters that a sequence of ASCII bytes spells.
pub open spec fn ascii_text(bytes: Seq<u8>) -> Seq<char> {
    bytes.map_values(|b: u8| b as char)
}

/// Every byte is an ASCII hexadecimal digit.
pub open spec fn all_hex(bytes: Seq<u8>) -> bool {
    forall|i: int| 0 <= i < bytes.len() ==> is_hex_digit(#[trigger] bytes[i])
}

/// Where the value that starts at `start` ends: at the next `&`, or at the
/// end of the link.
pub open spec fn value_end(link: Seq<u8>, start: int) -> int {
    match find_from(link, seq![0x26u8], start) {
        Some(amp) => amp,
        None => link.len() as int,
    }
}

/// The info-hash named by a magnet link, in lower case: the value of the
/// first `xt=urn:btih:`, where it is 40 hexadecimal digits long. A text
/// that does not start with `magnet:?`, or is longer than
/// [`MAX_MAGNET_LENGTH`], names none.
pub open spec fn magnet_info_hash(link: Seq<u8>) -> Option<Seq<char>> {
    if !occurs_at(link, "magnet:?".spec_bytes(), 0) || link.len() > MAX_MAGNET_LENGTH {
        None
    } else {
        match find_from(link, "xt=urn:btih:".spec_bytes(), 0) {
            None => None,
            Some(at) => {
                let start = at + "xt=urn:btih:".spec_bytes().len();
                let hash = link.subrange(start, value_end(link, start));
                if hash.len() == INFO_HASH_DIGITS && all_hex(hash) {
                    Some(ascii_text(hash.map_values(|b: u8| ascii_lower(b))))
                } else {
                    None
                }
            },
        }
    }
}

/// Reads the info-hash out of a magnet link and lower-cases it.
pub fn extract_info_hash_from_magnet(magnet: &str) -> (r: Option<String>)
    ensures
        match r {
            Some(hash) => magnet_info_hash(magnet.spec_bytes()) == Some(hash@),
            None => magnet_info_hash(magnet.spec_bytes()) is None,
        },
{
    let link = magnet.as_bytes();
    if !starts_with(link, "magnet:?".as_bytes()) {
        return None;
    }
    if link.len() > MAX_MAGNET_LENGTH {
        return None;
    }
    let key = "xt=urn:btih:".as_bytes();
    let at = match find_bytes(link, key, 0) {
        Some(at) => at,
        None => { return None; },
    };
    proof {
        lemma_find_from(link@, key@, 0);
    }
    let width = key.len();
    let start = at + width;
    let amp: [u8; 1] = [0x26];
    assert(amp@ =~= seq![0x26u8]);
    let end = match find_bytes(link, amp.as_slice(), start) {
        Some(e) => e,
        None => link.len(),
    };
    proof {
        lemma_find_from(link@, amp@, start as int);
    }
    let ghost hash = link@.subrange(start as int, end as int);
    if end - start != INFO_HASH_DIGITS {
        return None;
    }
    let mut out = String::new();
    let mut i: usize = start;
    while i < end
        invariant
            start <= i <= end <= link.len(),
            hash == link@.subrange(start as int, end as int),
            link@ == magnet.spec_bytes(),
            magnet_info_hash(link@) == if all_hex(hash) {
                Some(ascii_text(hash.map_values(|b: u8| ascii_lower(b))))
            } else {
                None
            },
            all_hex(hash.take(i - start)),
            out@ == ascii_text(hash.take(i - start).map_values(|b: u8| ascii_lower(b))),
        decreases end - i,
    {
        let b = link[i];
        let ghost k = i - start;
        assert(hash[k] == b);
        let is_hex = (0x30 <= b && b <= 0x39) || (0x41 <= b && b <= 0x46) || (0x61 <= b && b
            <= 0x66);
        if !is_hex {
            return None;
        }
        let low = to_ascii_lower(b);
        out.push(low as char);
        i += 1;
    }
    proof {
        assert(hash.take(end - start) =~= hash);
    }
    Some(out)
}

/// The value of an ASCII hexadecimal digit.
pub open spec fn hex_value(b: u8) -> Option<u8> {
    if 0x30 <= b <= 0x39 {
        Some((b - 0x30) as u8)
    } else if 0x61 <= b <= 0x66 {
        Some((b - 0x61 + 10) as u8)
    } else if 0x41 <= b <= 0x46 {
        Some((b - 0x41 + 10) as u8)
    } else {
        None
    }
}

/// The value of an ASCII hexadecimal digit, if `b` is one.
pub fn from_hex(b: u8) -> (r: Option<u8>)
    ensures
        r == hex_value(b),
{
    if 0x30 <= b && b <= 0x39 {
        Some(b - 0x30)
    } else if 0x61 <= b && b <= 0x66 {
        Some(10 + (b - 0x61))
    } else if 0x41 <= b && b <= 0x46 {
        Some(10 + (b - 0x41))
    } else {
        None
    }
}

/// A `%` at index `i` that is followed by two hexadecimal digits.
pub open spec fn escape_at(s: Seq<u8>, i: int) -> bool {
    0 <= i && i + 2 < s.len() && s[i] == 0x25 && hex_value(s[i + 1]) is Some && hex_value(
        s[i + 2],
    ) is Some
}

/// The bytes from index `i` on with each escape `%XY` replaced by the byte
/// whose value is `XY`; a `%` that no two hexadecimal digits follow stays.
pub open spec fn percent_decoded(s: Seq<u8>, i: int) -> Seq<u8>
    decreases s.len() - i,
{
    if i < 0 || i >= s.len() {
        Seq::empty()
    } else if escape_at(s, i) {
        seq![(hex_value(s[i + 1])->0 * 16 + hex_value(s[i + 2])->0) as u8] + percent_decoded(
            s,
            i + 3,
        )
    } else {
        seq![s[i]] + percent_decoded(s, i + 1)
    }
}

/// Replaces every escape `%XY` by the byte that it stands for.
pub fn percent_decode_bytes(s: &[u8]) -> (out: Vec<u8>)
    ensures
        out@ == percent_decoded(s@, 0),
{
    let mut out: Vec<u8> = Vec::new();
    let mut i: usize = 0;
    while i < s.len()
        invariant
            i <= s.len(),
            out@ + percent_decoded(s@, i as int) == percent_decoded(s@, 0),
        decreases s.len() - i,
    {
        let mut step: usize = 1;
        let mut byte = s[i];
        if s[i] == 0x25 && s.len() - i > 2 {
            match (from_hex(s[i + 1]), from_hex(s[i + 2])) {
                (Some(a), Some(b)) => {
                    byte = a * 16 + b;
                    step = 3;
                },
                _ => {},
            }
        }
        out.push(byte);
        i += step;
    }
    out
}

/// The text that a percent-encoded text stands for.
pub open spec fn percent_decoded_text(s: Seq<u8>) -> Seq<char> {
    utf8_lossy(percent_decoded(s, 0))
}

/// Decodes a percent-encoded text. Bytes that do not form valid UTF-8
/// after decoding are replaced as `String::from_utf8_lossy` replaces them.
pub fn percent_decode(s: &str) -> (out: String)
    ensures
        out@ == percent_decoded_text(s.spec_bytes()),
{
    let bytes = percent_decode_bytes(s.as_bytes());
    decode_lossy(bytes.as_slice())
}

/// The tracker named by one `key=value` parameter of a magnet link: the
/// decoded value of a parameter whose key is `tr`, unless it is blank.
pub open spec fn param_tracker(part: Seq<u8>) -> Seq<Seq<char>> {
    let (key, value) = match find_from(part, seq![0x3du8], 0) {
        Some(eq) => (part.subrange(0, eq), part.subrange(eq + 1, part.len() as int)),
        None => (part, Seq::empty()),
    };
    if key == "tr".spec_bytes() && !blank(percent_decoded_text(value)) {
        seq![percent_decoded_text(value)]
    } else {
        Seq::empty()
    }
}

/// The trackers named by the parameters from index `from` on, where
/// parameters are separated by `&`.
pub open spec fn query_trackers(link: Seq<u8>, from: int) -> Seq<Seq<char>>
    decreases link.len() - from + 1,
{
    if from < 0 || from > link.len() {
        Seq::empty()
    } else {
        match find_from(link, seq![0x26u8], from) {
            Some(amp) => if from <= amp < link.len() {
                param_tracker(link.subrange(from, amp)) + query_trackers(link, amp + 1)
            } else {
                Seq::empty()
            },
            None => param_tracker(link.subrange(from, link.len() as int)),
        }
    }
}

/// The trackers named by a magnet link: every `tr` parameter behind the
/// first `?`, in order.
pub open spec fn magnet_trackers(link: Seq<u8>) -> Seq<Seq<char>> {
    match find_from(link, seq![0x3fu8], 0) {
        Some(q) => query_trackers(link, q + 1),
        None => Seq::empty(),
    }
}

/// Appends the tracker named by one parameter, if it names one.
fn push_param(out: &mut Vec<String>, part: &[u8])
    ensures
        texts(final(out)@) == texts(old(out)@) + param_tracker(part@),
{
    let eq_sign: [u8; 1] = [0x3d];
    assert(eq_sign@ =~= seq![0x3du8]);
    let (key, value) = match find_bytes(part, eq_sign.as_slice(), 0) {
        Some(eq) => {
            proof {
                lemma_find_from(part@, eq_sign@, 0);
                assert(eq + 1 <= part.len());
            }
            (slice_subrange(part, 0, eq), slice_subrange(part, eq + 1, part.len()))
        },
        None => (part, slice_subrange(part, 0, 0)),
    };
    if crate::text::bytes_eq(key, "tr".as_bytes()) {
        let decoded = percent_decode_bytes(value);
        let text = decode_lossy(decoded.as_slice());
        if !is_blank(text.as_str()) {
            out.push(text);
            return ;
        }
    }
}

/// Reads the trackers out of a magnet link: the percent-decoded value of
/// every `tr` parameter, in order, blank ones left out, each as often as
/// the link names it.
pub(crate) fn named_by_magnet(magnet: &str) -> (out: Vec<String>)
    ensures
        texts(out@) == magnet_trackers(magnet.spec_bytes()),
{
    let link = magnet.as_bytes();
    let mut out: Vec<String> = Vec::new();
    let question: [u8; 1] = [0x3f];
    assert(question@ =~= seq![0x3fu8]);
    let q = match find_bytes(link, question.as_slice(), 0) {
        Some(q) => q,
        None => { return out; },
    };
    proof {
        lemma_find_from(link@, question@, 0);
        assert(q + 1 <= link.len());
    }
    let amp: [u8; 1] = [0x26];
    let mut from: usize = q + 1;
    loop
        invariant_except_break
            from <= link.len(),
            amp@ == seq![0x26u8],
            texts(out@) + query_trackers(link@, from as int) == magnet_trackers(link@),
        ensures
            texts(out@) == magnet_trackers(link@),
        decreases link.len() - from,
    {
        proof {
            lemma_find_from(link@, amp@, from as int);
        }
        match find_bytes(link, amp.as_slice(), from) {
            Some(a) => {
                push_param(&mut out, slice_subrange(link, from, a));
                from = a + 1;
            },
            None => {
                push_param(&mut out, slice_subrange(link, from, link.len()));
                break ;
            },
        }
    }
    out
}

/// `items` with every text that occurred before left out.
pub open spec fn deduped(items: Seq<Seq<char>>) -> Seq<Seq<char>>
    decreases items.len(),
{
    if items.len() == 0 {
        Seq::empty()
    } else if deduped(items.drop_last()).contains(items.last()) {
        deduped(items.drop_last())
    } else {
        deduped(items.drop_last()).push(items.last())
    }
}

/// Removing repeats leaves no text twice, drops no text altogether and
/// adds none.
pub proof fn lemma_deduped(items: Seq<Seq<char>>)
    ensures
        deduped(items).no_duplicates(),
        forall|t: Seq<char>| deduped(items).contains(t) <==> items.contains(t),
        deduped(items).len() <= items.len(),
    decreases items.len(),
{
    if items.len() > 0 {
        let front = items.drop_last();
        let last = items.last();
        lemma_deduped(front);
        assert forall|t: Seq<char>| deduped(items).contains(t) <==> items.contains(t) by {
            if items.contains(t) {
                let k = choose|k: int| 0 <= k < items.len() && items[k] == t;
                if k < front.len() {
                    assert(front[k] == t);
                    assert(front.contains(t));
                    let j = choose|j: int| 0 <= j < deduped(front).len() && deduped(front)[j] == t;
                    assert(deduped(items)[j] == t);
                } else {
                    if !deduped(front).contains(last) {
                        assert(deduped(items)[deduped(front).len() as int] == last);
                    }
                }
            }
            if deduped(items).contains(t) {
                let j = choose|j: int| 0 <= j < deduped(items).len() && deduped(items)[j] == t;
                if j < deduped(front).len() {
                    assert(front.contains(t));
                }
            }
        }
    }
}

/// Some string in `v` holds the text of `s`.
fn holds_text(v: &Vec<String>, s: &String) -> (r: bool)
    ensures
        r == texts(v@).contains(s@),
{
    let mut i: usize = 0;
    while i < v.len()
        invariant
            i <= v.len(),
            forall|j: int| 0 <= j < i ==> texts(v@)[j] != s@,
        decreases v.len() - i,
    {
        if v[i] == *s {
            assert(texts(v@)[i as int] == s@);
            return true;
        }
        i += 1;
    }
    false
}

/// Keeps the first occurrence of every text and drops the later ones.
pub fn dedup_preserve(v: Vec<String>) -> (out: Vec<String>)
    ensures
        texts(out@) == deduped(texts(v@)),
{
    let mut out: Vec<String> = Vec::new();
    let mut i: usize = 0;
    while i < v.len()
        invariant
            i <= v.len(),
            texts(out@) == deduped(texts(v@).take(i as int)),
        decreases v.len() - i,
    {
        proof {
            assert(texts(v@).take(i + 1).drop_last() =~= texts(v@).take(i as int));
        }
        if !holds_text(&out, &v[i]) {
            out.push(v[i].clone());
        }
        i += 1;
    }
    assert(texts(v@).take(v.len() as int) =~= texts(v@));
    out
}

/// Reads the trackers out of a magnet link: the percent-decoded value of
/// every `tr` parameter that is not blank, each once, in the order in
/// which the link first names them.
pub fn parse_trackers_from_magnet(magnet: &str) -> (out: Vec<String>)
    ensures
        texts(out@) == deduped(magnet_trackers(magnet.spec_bytes())),
{
    dedup_preserve(named_by_magnet(magnet))
}

/// The trackers read out of a magnet link name no tracker twice, and name
/// exactly the trackers that the link names.
pub proof fn lemma_magnet_trackers_once(link: Seq<u8>)
    ensures
        deduped(magnet_trackers(link)).no_duplicates(),
        forall|t: Seq<char>|
            deduped(magnet_trackers(link)).contains(t) <==> magnet_trackers(link).contains(t),
{
    lemma_deduped(magnet_trackers(link));
}

} // verus!
