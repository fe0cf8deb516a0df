//! A defensive decoder for bencoded metadata.
//!
//! The grammar is given by the spec function [`decode`]; the executable
//! decoder [`parse_bencode_with_depth`] is proved to compute exactly that
//! function, error for error. Every limit below is checked while decoding,
//! so a value that was decoded is never larger than the limits allow.

use crate::text::{bytes_eq, decimal, is_digit, parse_decimal};
use vstd::prelude::*;
use vstd::slice::*;

verus! {

/// Deepest nesting level at which a value may start.
pub const MAX_BENCODE_DEPTH: usize = 100;

/// Largest input that is looked at.
pub const MAX_BENCODE_SIZE: usize = 100 * 1024 * 1024;

/// Longest integer token between `i` and `e`.
pub const MAX_INT_DIGITS: usize = 20;

/// Longest length prefix of a byte string.
pub const MAX_LENGTH_DIGITS: usize = 10;

/// Longest single byte string.
pub const MAX_BYTE_STRING_SIZE: usize = 10 * 1024 * 1024;

/// Most items in one list.
pub const MAX_LIST_ITEMS: usize = 100000;

/// Most entries in one dictionary.
pub const MAX_DICT_ITEMS: usize = 100000;

/// Why a piece of input is not accepted.
#[derive(Debug, Clone, Copy, PartialEq, Eq, Structural)]
pub enum BencodeError {
    /// A value starts deeper than [`MAX_BENCODE_DEPTH`].
    TooDeep,
    /// The input is longer than [`MAX_BENCODE_SIZE`].
    TooLarge,
    /// A value was expected at or after the end of the input.
    Eof,
    /// The input ends inside an integer.
    UnterminatedInt,
    /// An integer token is longer than [`MAX_INT_DIGITS`].
    IntTooLong,
    /// An integer token is not a decimal number that fits in 64 bits.
    InvalidInt,
    /// A list holds more than [`MAX_LIST_ITEMS`] items.
    ListTooLarge,
    /// The input ends inside a list.
    UnterminatedList,
    /// A dictionary holds more than [`MAX_DICT_ITEMS`] entries.
    DictTooLarge,
    /// A dictionary key is not a byte string.
    DictKeyNotBytes,
    /// The input ends inside a dictionary.
    UnterminatedDict,
    /// The input ends inside a length prefix.
    InvalidLength,
    /// A length prefix is longer than [`MAX_LENGTH_DIGITS`].
    LengthTooLong,
    /// A length prefix holds something other than decimal digits.
    InvalidLengthDigits,
    /// A byte string is longer than [`MAX_BYTE_STRING_SIZE`].
    BytesTooLarge,
    /// A byte string runs past the end of the input.
    BytesOutOfRange,
    /// The first byte of a value is none of `i`, `l`, `d` or a digit.
    InvalidPrefix,
}

/// A decoded value.
#[derive(Debug)]
pub enum BVal {
    Int(i64),
    Bytes(Vec<u8>),
    List(Vec<BVal>),
    Dict(Vec<(Vec<u8>, BVal)>),
}

/// The mathematical value that a [`BVal`] stands for.
pub ghost enum BValue {
    Int(int),
    Bytes(Seq<u8>),
    List(Seq<BValue>),
    Dict(Seq<(Seq<u8>, BValue)>),
}

/// The mathematical value that `v` stands for.
pub open spec fn value_of(v: BVal) -> BValue
    decreases v,
{
    match v {
        BVal::Int(n) => BValue::Int(n as int),
        BVal::Bytes(b) => BValue::Bytes(b@),
        BVal::List(items) => BValue::List(
            Seq::new(
                items.len() as nat,
                |i: int|
                    if 0 <= i < items.len() {
                        value_of(items[i])
                    } else {
                        BValue::Int(0)
                    },
            ),
        ),
        BVal::Dict(items) => BValue::Dict(
            Seq::new(
                items.len() as nat,
                |i: int|
                    if 0 <= i < items.len() {
                        (items[i].0@, value_of(items[i].1))
                    } else {
                        (Seq::empty(), BValue::Int(0))
                    },
            ),
        ),
    }
}

impl View for BVal {
    type V = BValue;

    open spec fn view(&self) -> BValue {
        value_of(*self)
    }
}

/// The values that a sequence of decoded items stands for.
pub open spec fn list_view(items: Seq<BVal>) -> Seq<BValue> {
    Seq::new(items.len(), |i: int| items[i]@)
}

/// The entries that a sequence of decoded dictionary entries stands for.
pub open spec fn dict_view(items: Seq<(Vec<u8>, BVal)>) -> Seq<(Seq<u8>, BValue)> {
    Seq::new(items.len(), |i: int| (items[i].0@, items[i].1@))
}

/// A list stands for the list of what its items stand for.
pub proof fn lemma_list_view(items: Vec<BVal>)
    ensures
        BVal::List(items)@ == BValue::List(list_view(items@)),
{
    assert(BVal::List(items)@->List_0 =~= list_view(items@));
}

/// A dictionary stands for the entries that its entries stand for.
pub proof fn lemma_dict_view(items: Vec<(Vec<u8>, BVal)>)
    ensures
        BVal::Dict(items)@ == BValue::Dict(dict_view(items@)),
{
    let w = BVal::Dict(items);
    assert(w@->Dict_0 =~= dict_view(items@));
}

/// Where a token that starts at `i` ends: at the first `stop` byte, at the
/// end of the input, or after `budget` bytes, whichever comes first.
pub open spec fn scan_end(input: Seq<u8>, i: int, stop: u8, budget: nat) -> int
    decreases budget,
{
    if i >= input.len() || input[i] == stop || budget == 0 {
        i
    } else {
        scan_end(input, i + 1, stop, (budget - 1) as nat)
    }
}

/// The integer written by a token: an optional sign, then decimal digits,
/// with a value that fits in 64 bits.
pub open spec fn signed_decimal(token: Seq<u8>) -> Option<int> {
    if token.len() > 0 && token[0] == 0x2d {
        match decimal(token.drop_first(), 0x8000_0000_0000_0000) {
            Some(v) => Some(-(v as int)),
            None => None,
        }
    } else if token.len() > 0 && token[0] == 0x2b {
        match decimal(token.drop_first(), 0x7fff_ffff_ffff_ffff) {
            Some(v) => Some(v as int),
            None => None,
        }
    } else {
        match decimal(token, 0x7fff_ffff_ffff_ffff) {
            Some(v) => Some(v as int),
            None => None,
        }
    }
}

/// An integer whose token starts at `start`, just behind the `i`.
pub open spec fn decode_int(input: Seq<u8>, start: int) -> Result<(BValue, int), BencodeError> {
    let end = scan_end(input, start, 0x65, MAX_INT_DIGITS as nat);
    if end >= input.len() {
        Err(BencodeError::UnterminatedInt)
    } else if input[end] != 0x65 {
        Err(BencodeError::IntTooLong)
    } else {
        match signed_decimal(input.subrange(start, end)) {
            Some(n) => Ok((BValue::Int(n), end + 1)),
            None => Err(BencodeError::InvalidInt),
        }
    }
}

/// A byte string whose length prefix starts at `start`.
pub open spec fn decode_bytes(input: Seq<u8>, start: int) -> Result<(BValue, int), BencodeError> {
    let colon = scan_end(input, start, 0x3a, MAX_LENGTH_DIGITS as nat);
    if colon >= input.len() {
        Err(BencodeError::InvalidLength)
    } else if input[colon] != 0x3a {
        Err(BencodeError::LengthTooLong)
    } else {
        match decimal(input.subrange(start, colon), u64::MAX as nat) {
            None => Err(BencodeError::InvalidLengthDigits),
            Some(n) => if n > MAX_BYTE_STRING_SIZE {
                Err(BencodeError::BytesTooLarge)
            } else if colon + 1 + n > input.len() {
                Err(BencodeError::BytesOutOfRange)
            } else {
                Ok((BValue::Bytes(input.subrange(colon + 1, colon + 1 + n)), colon + 1 + n))
            },
        }
    }
}

/// The value that starts at index `i` of `input` at nesting level `depth`,
/// with the index just behind it, or the reason why there is none.
pub open spec fn decode(input: Seq<u8>, i: int, depth: nat) -> Result<(BValue, int), BencodeError>
    decreases input.len() - i, 0int,
{
    if depth > MAX_BENCODE_DEPTH {
        Err(BencodeError::TooDeep)
    } else if input.len() > MAX_BENCODE_SIZE {
        Err(BencodeError::TooLarge)
    } else if i < 0 || i >= input.len() {
        Err(BencodeError::Eof)
    } else if input[i] == 0x69 {
        decode_int(input, i + 1)
    } else if input[i] == 0x6c {
        match decode_list(input, i + 1, depth + 1, 0) {
            Ok((items, end)) => Ok((BValue::List(items), end)),
            Err(e) => Err(e),
        }
    } else if input[i] == 0x64 {
        match decode_dict(input, i + 1, depth + 1, 0) {
            Ok((entries, end)) => Ok((BValue::Dict(entries), end)),
            Err(e) => Err(e),
        }
    } else if is_digit(input[i]) {
        decode_bytes(input, i)
    } else {
        Err(BencodeError::InvalidPrefix)
    }
}

/// The items of a list from index `i` up to its closing `e`, after `count`
/// items have been read. A decoded item always ends behind where it starts.
pub open spec fn decode_list(input: Seq<u8>, i: int, depth: nat, count: nat) -> Result<
    (Seq<BValue>, int),
    BencodeError,
>
    decreases input.len() - i, 1int,
{
    if i < 0 || i >= input.len() {
        Err(BencodeError::UnterminatedList)
    } else if input[i] == 0x65 {
        Ok((Seq::empty(), i + 1))
    } else if count >= MAX_LIST_ITEMS {
        Err(BencodeError::ListTooLarge)
    } else {
        match decode(input, i, depth) {
            Err(e) => Err(e),
            Ok((v, next)) => if !(i < next <= input.len()) {
                Err(BencodeError::Eof)
            } else {
                match decode_list(input, next, depth, count + 1) {
                    Err(e) => Err(e),
                    Ok((rest, end)) => Ok((seq![v] + rest, end)),
                }
            },
        }
    }
}

/// The entries of a dictionary from index `i` up to its closing `e`, after
/// `count` entries have been read.
pub open spec fn decode_dict(input: Seq<u8>, i: int, depth: nat, count: nat) -> Result<
    (Seq<(Seq<u8>, BValue)>, int),
    BencodeError,
>
    decreases input.len() - i, 1int,
{
    if i < 0 || i >= input.len() {
        Err(BencodeError::UnterminatedDict)
    } else if input[i] == 0x65 {
        Ok((Seq::empty(), i + 1))
    } else if count >= MAX_DICT_ITEMS {
        Err(BencodeError::DictTooLarge)
    } else {
        match decode(input, i, depth) {
            Err(e) => Err(e),
            Ok((k, mid)) => if !(i < mid <= input.len()) {
                Err(BencodeError::Eof)
            } else {
                match k {
                    BValue::Bytes(key) => match decode(input, mid, depth) {
                        Err(e) => Err(e),
                        Ok((v, next)) => if !(mid < next <= input.len()) {
                            Err(BencodeError::Eof)
                        } else {
                            match decode_dict(input, next, depth, count + 1) {
                                Err(e) => Err(e),
                                Ok((rest, end)) => Ok((seq![(key, v)] + rest, end)),
                            }
                        },
                    },
                    _ => Err(BencodeError::DictKeyNotBytes),
                }
            },
        }
    }
}

/// A token ends at or behind its start, within its budget and the input.
pub proof fn lemma_scan_end(input: Seq<u8>, i: int, stop: u8, budget: nat)
    requires
        0 <= i <= input.len(),
    ensures
        i <= scan_end(input, i, stop, budget) <= input.len(),
        scan_end(input, i, stop, budget) <= i + budget,
        forall|j: int| i <= j < scan_end(input, i, stop, budget) ==> input[j] != stop,
        scan_end(input, i, stop, budget) < input.len() && input[scan_end(
            input,
            i,
            stop,
            budget,
        )] != stop ==> scan_end(input, i, stop, budget) == i + budget,
    decreases budget,
{
    if i >= input.len() || input[i] == stop || budget == 0 {
    } else {
        lemma_scan_end(input, i + 1, stop, (budget - 1) as nat);
    }
}

/// Whatever is decoded ends behind where it starts and inside the input.
pub proof fn lemma_decode_advances(input: Seq<u8>, i: int, depth: nat)
    ensures
        decode(input, i, depth) matches Ok((_, end)) ==> 0 <= i < end <= input.len(),
    decreases input.len() - i, 0int,
{
    if depth > MAX_BENCODE_DEPTH || input.len() > MAX_BENCODE_SIZE || i < 0 || i >= input.len() {
    } else if input[i] == 0x69 {
        lemma_scan_end(input, i + 1, 0x65, MAX_INT_DIGITS as nat);
    } else if input[i] == 0x6c {
        lemma_decode_list_advances(input, i + 1, depth + 1, 0);
    } else if input[i] == 0x64 {
        lemma_decode_dict_advances(input, i + 1, depth + 1, 0);
    } else if is_digit(input[i]) {
        lemma_scan_end(input, i, 0x3a, MAX_LENGTH_DIGITS as nat);
    }
}

/// A decoded list body ends behind where it starts and inside the input.
pub proof fn lemma_decode_list_advances(input: Seq<u8>, i: int, depth: nat, count: nat)
    ensures
        decode_list(input, i, depth, count) matches Ok((_, end)) ==> 0 <= i < end <= input.len(),
    decreases input.len() - i, 1int,
{
    if i < 0 || i >= input.len() || input[i] == 0x65 || count >= MAX_LIST_ITEMS {
    } else {
        lemma_decode_advances(input, i, depth);
        if let Ok((v, next)) = decode(input, i, depth) {
            lemma_decode_list_advances(input, next, depth, count + 1);
        }
    }
}

/// A decoded dictionary body ends behind where it starts and inside the input.
pub proof fn lemma_decode_dict_advances(input: Seq<u8>, i: int, depth: nat, count: nat)
    ensures
        decode_dict(input, i, depth, count) matches Ok((_, end)) ==> 0 <= i < end <= input.len(),
    decreases input.len() - i, 1int,
{
    if i < 0 || i >= input.len() || input[i] == 0x65 || count >= MAX_DICT_ITEMS {
    } else {
        lemma_decode_advances(input, i, depth);
        if let Ok((k, mid)) = decode(input, i, depth) {
            lemma_decode_advances(input, mid, depth);
            if let Ok((v, next)) = decode(input, mid, depth) {
                lemma_decode_dict_advances(input, next, depth, count + 1);
            }
        }
    }
}

/// `v` respects every size limit and nests at most `room` levels deep.
pub open spec fn within_limits(v: BValue, room: nat) -> bool
    decreases v,
{
    match v {
        BValue::Int(n) => i64::MIN <= n <= i64::MAX,
        BValue::Bytes(b) => b.len() <= MAX_BYTE_STRING_SIZE,
        BValue::List(items) => items.len() <= MAX_LIST_ITEMS && (items.len() == 0 || room > 0)
            && forall|k: int|
            0 <= k < items.len() ==> within_limits(#[trigger] items[k], (room - 1) as nat),
        BValue::Dict(entries) => entries.len() <= MAX_DICT_ITEMS && (entries.len() == 0 || room
            > 0) && forall|k: int|
            0 <= k < entries.len() ==> (#[trigger] entries[k]).0.len() <= MAX_BYTE_STRING_SIZE
                && within_limits(entries[k].1, (room - 1) as nat),
    }
}

/// Input beyond a limit is never decoded: whatever the decoder accepts
/// comes from an input of at most [`MAX_BENCODE_SIZE`] bytes, starts at most
/// [`MAX_BENCODE_DEPTH`] levels deep, and holds no byte string, list,
/// dictionary or nesting beyond the limits.
pub proof fn lemma_decoded_within_limits(input: Seq<u8>, i: int, depth: nat)
    ensures
        decode(input, i, depth) matches Ok((v, _)) ==> depth <= MAX_BENCODE_DEPTH && input.len()
            <= MAX_BENCODE_SIZE && within_limits(v, (MAX_BENCODE_DEPTH - depth) as nat),
    decreases input.len() - i, 0int,
{
    if depth > MAX_BENCODE_DEPTH || input.len() > MAX_BENCODE_SIZE || i < 0 || i >= input.len() {
    } else if input[i] == 0x69 {
        lemma_scan_end(input, i + 1, 0x65, MAX_INT_DIGITS as nat);
    } else if input[i] == 0x6c {
        lemma_list_within_limits(input, i + 1, depth + 1, 0);
    } else if input[i] == 0x64 {
        lemma_dict_within_limits(input, i + 1, depth + 1, 0);
    } else if is_digit(input[i]) {
        lemma_scan_end(input, i, 0x3a, MAX_LENGTH_DIGITS as nat);
    }
}

/// The items of a decoded list body respect the limits, and `count` more
/// would still fit in one list.
pub proof fn lemma_list_within_limits(input: Seq<u8>, i: int, depth: nat, count: nat)
    requires
        count <= MAX_LIST_ITEMS,
    ensures
        decode_list(input, i, depth, count) matches Ok((items, _)) ==> count + items.len()
            <= MAX_LIST_ITEMS && (items.len() == 0 || depth <= MAX_BENCODE_DEPTH)
            && forall|k: int|
            0 <= k < items.len() ==> within_limits(
                #[trigger] items[k],
                (MAX_BENCODE_DEPTH - depth) as nat,
            ),
    decreases input.len() - i, 1int,
{
    if i < 0 || i >= input.len() || input[i] == 0x65 || count >= MAX_LIST_ITEMS {
    } else {
        lemma_decoded_within_limits(input, i, depth);
        if let Ok((v, next)) = decode(input, i, depth) {
            if i < next <= input.len() {
                lemma_list_within_limits(input, next, depth, count + 1);
            }
        }
    }
}

/// The entries of a decoded dictionary body respect the limits, and `count`
/// more would still fit in one dictionary.
pub proof fn lemma_dict_within_limits(input: Seq<u8>, i: int, depth: nat, count: nat)
    requires
        count <= MAX_DICT_ITEMS,
    ensures
        decode_dict(input, i, depth, count) matches Ok((entries, _)) ==> count + entries.len()
            <= MAX_DICT_ITEMS && (entries.len() == 0 || depth <= MAX_BENCODE_DEPTH)
            && forall|k: int|
            0 <= k < entries.len() ==> (#[trigger] entries[k]).0.len() <= MAX_BYTE_STRING_SIZE
                && within_limits(entries[k].1, (MAX_BENCODE_DEPTH - depth) as nat),
    decreases input.len() - i, 1int,
{
    if i < 0 || i >= input.len() || input[i] == 0x65 || count >= MAX_DICT_ITEMS {
    } else {
        lemma_decoded_within_limits(input, i, depth);
        if let Ok((k0, mid)) = decode(input, i, depth) {
            if i < mid <= input.len() {
                if let BValue::Bytes(key) = k0 {
                    lemma_decoded_within_limits(input, mid, depth);
                    if let Ok((v, next)) = decode(input, mid, depth) {
                        if mid < next <= input.len() {
                            lemma_dict_within_limits(input, next, depth, count + 1);
                        }
                    }
                }
            }
        }
    }
}

/// What a result of the executable decoder stands for.
pub open spec fn result_view(r: Result<(BVal, usize), BencodeError>) -> Result<
    (BValue, int),
    BencodeError,
> {
    match r {
        Ok((v, end)) => Ok((v@, end as int)),
        Err(e) => Err(e),
    }
}

/// `outcome` with the items in `prefix` put in front.
pub open spec fn with_items<T>(prefix: Seq<T>, outcome: Result<(Seq<T>, int), BencodeError>)
    -> Result<(Seq<T>, int), BencodeError> {
    match outcome {
        Ok((rest, end)) => Ok((prefix + rest, end)),
        Err(e) => Err(e),
    }
}

/// Finds the end of a token: scans from `start` until `stop`, the end of
/// the input or `budget` bytes, whichever comes first.
fn scan_token(input: &[u8], start: usize, stop: u8, budget: usize) -> (end: usize)
    requires
        start <= input.len(),
    ensures
        end == scan_end(input@, start as int, stop, budget as nat),
        start <= end <= input.len(),
        end - start <= budget,
{
    let mut i = start;
    let mut used: usize = 0;
    while i < input.len() && input[i] != stop && used < budget
        invariant
            start <= i <= input.len(),
            used <= budget,
            i - start == used,
            scan_end(input@, start as int, stop, budget as nat) == scan_end(
                input@,
                i as int,
                stop,
                (budget - used) as nat,
            ),
        decreases input.len() - i,
    {
        i += 1;
        used += 1;
    }
    i
}

/// Reads a signed decimal token.
fn parse_signed(token: &[u8]) -> (r: Option<i64>)
    ensures
        match r {
            Some(n) => signed_decimal(token@) == Some(n as int),
            None => signed_decimal(token@) is None,
        },
{
    if token.len() > 0 && token[0] == 0x2d {
        let digits = slice_subrange(token, 1, token.len());
        match parse_decimal(digits, 0x8000_0000_0000_0000) {
            Some(v) => {
                if v == 0x8000_0000_0000_0000 {
                    Some(i64::MIN)
                } else {
                    Some(-(v as i64))
                }
            },
            None => None,
        }
    } else if token.len() > 0 && token[0] == 0x2b {
        let digits = slice_subrange(token, 1, token.len());
        match parse_decimal(digits, 0x7fff_ffff_ffff_ffff) {
            Some(v) => Some(v as i64),
            None => None,
        }
    } else {
        match parse_decimal(token, 0x7fff_ffff_ffff_ffff) {
            Some(v) => Some(v as i64),
            None => None,
        }
    }
}

/// Decodes the value that starts at index `i`, from the outermost level.
/// Returns the value and the index just behind it.
pub fn parse_bencode(input: &[u8], i: usize) -> (r: Result<(BVal, usize), BencodeError>)
    ensures
        result_view(r) == decode(input@, i as int, 0),
{
    parse_bencode_with_depth(input, i, 0)
}

/// Decodes the value that starts at index `i` and lies `depth` levels deep.
/// Returns the value and the index just behind it, or the first violation
/// of the grammar or of a limit that is met.
pub fn parse_bencode_with_depth(input: &[u8], i: usize, depth: usize) -> (r: Result<
    (BVal, usize),
    BencodeError,
>)
    ensures
        result_view(r) == decode(input@, i as int, depth as nat),
    decreases input.len() - i,
{
    if depth > MAX_BENCODE_DEPTH {
        return Err(BencodeError::TooDeep);
    }
    if input.len() > MAX_BENCODE_SIZE {
        return Err(BencodeError::TooLarge);
    }
    if i >= input.len() {
        return Err(BencodeError::Eof);
    }
    let first = input[i];
    if first == 0x69 {
        let start = i + 1;
        let end = scan_token(input, start, 0x65, MAX_INT_DIGITS);
        if end >= input.len() {
            return Err(BencodeError::UnterminatedInt);
        }
        if input[end] != 0x65 {
            return Err(BencodeError::IntTooLong);
        }
        let token = slice_subrange(input, start, end);
        match parse_signed(token) {
            Some(n) => Ok((BVal::Int(n), end + 1)),
            None => Err(BencodeError::InvalidInt),
        }
    } else if first == 0x6c {
        let mut pos = i + 1;
        let mut items: Vec<BVal> = Vec::new();
        while pos < input.len() && input[pos] != 0x65
            invariant
                i < pos <= input.len(),
                depth <= MAX_BENCODE_DEPTH,
                input.len() <= MAX_BENCODE_SIZE,
                input@[i as int] == 0x6c,
                items.len() <= MAX_LIST_ITEMS,
                decode_list(input@, i + 1, (depth + 1) as nat, 0) == with_items(
                    list_view(items@),
                    decode_list(input@, pos as int, (depth + 1) as nat, items.len() as nat),
                ),
            decreases input.len() - pos,
        {
            if items.len() >= MAX_LIST_ITEMS {
                return Err(BencodeError::ListTooLarge);
            }
            let ghost before = items@;
            let (v, next) = match parse_bencode_with_depth(input, pos, depth + 1) {
                Ok(found) => found,
                Err(e) => { return Err(e); },
            };
            proof {
                lemma_decode_advances(input@, pos as int, (depth + 1) as nat);
            }
            items.push(v);
            proof {
                let tail = decode_list(input@, next as int, (depth + 1) as nat, items.len() as nat);
                if let Ok((rest, end)) = tail {
                    assert(list_view(before) + (seq![v@] + rest) =~= list_view(items@) + rest);
                }
            }
            pos = next;
        }
        if pos >= input.len() {
            return Err(BencodeError::UnterminatedList);
        }
        proof {
            lemma_list_view(items);
        }
        Ok((BVal::List(items), pos + 1))
    } else if first == 0x64 {
        let mut pos = i + 1;
        let mut items: Vec<(Vec<u8>, BVal)> = Vec::new();
        while pos < input.len() && input[pos] != 0x65
            invariant
                i < pos <= input.len(),
                depth <= MAX_BENCODE_DEPTH,
                input.len() <= MAX_BENCODE_SIZE,
                input@[i as int] == 0x64,
                items.len() <= MAX_DICT_ITEMS,
                decode_dict(input@, i + 1, (depth + 1) as nat, 0) == with_items(
                    dict_view(items@),
                    decode_dict(input@, pos as int, (depth + 1) as nat, items.len() as nat),
                ),
            decreases input.len() - pos,
        {
            if items.len() >= MAX_DICT_ITEMS {
                return Err(BencodeError::DictTooLarge);
            }
            let ghost before = items@;
            let (k, mid) = match parse_bencode_with_depth(input, pos, depth + 1) {
                Ok(found) => found,
                Err(e) => { return Err(e); },
            };
            proof {
                lemma_decode_advances(input@, pos as int, (depth + 1) as nat);
            }
            let key = match k {
                BVal::Bytes(b) => b,
                _ => { return Err(BencodeError::DictKeyNotBytes); },
            };
            let (v, next) = match parse_bencode_with_depth(input, mid, depth + 1) {
                Ok(found) => found,
                Err(e) => { return Err(e); },
            };
            proof {
                lemma_decode_advances(input@, mid as int, (depth + 1) as nat);
            }
            items.push((key, v));
            proof {
                let tail = decode_dict(input@, next as int, (depth + 1) as nat, items.len() as nat);
                if let Ok((rest, end)) = tail {
                    assert(dict_view(before) + (seq![(key@, v@)] + rest) =~= dict_view(items@)
                        + rest);
                }
            }
            pos = next;
        }
        if pos >= input.len() {
            return Err(BencodeError::UnterminatedDict);
        }
        proof {
            lemma_dict_view(items);
        }
        Ok((BVal::Dict(items), pos + 1))
    } else if 0x30 <= first && first <= 0x39 {
        let colon = scan_token(input, i, 0x3a, MAX_LENGTH_DIGITS);
        if colon >= input.len() {
            return Err(BencodeError::InvalidLength);
        }
        if input[colon] != 0x3a {
            return Err(BencodeError::LengthTooLong);
        }
        let token = slice_subrange(input, i, colon);
        let len = match parse_decimal(token, u64::MAX) {
            Some(n) => n,
            None => { return Err(BencodeError::InvalidLengthDigits); },
        };
        if len > MAX_BYTE_STRING_SIZE as u64 {
            return Err(BencodeError::BytesTooLarge);
        }
        let start = colon + 1;
        if len as usize > input.len() - start {
            return Err(BencodeError::BytesOutOfRange);
        }
        let end = start + len as usize;
        let bytes = slice_to_vec(slice_subrange(input, start, end));
        Ok((BVal::Bytes(bytes), end))
    } else {
        Err(BencodeError::InvalidPrefix)
    }
}

/// The value stored under the first entry of `entries` whose key is `key`.
pub open spec fn lookup(entries: Seq<(Seq<u8>, BValue)>, key: Seq<u8>) -> Option<BValue>
    decreases entries.len(),
{
    if entries.len() == 0 {
        None
    } else if entries[0].0 == key {
        Some(entries[0].1)
    } else {
        lookup(entries.drop_first(), key)
    }
}

/// The value of the first entry with the given key.
pub fn get_dict_value<'a>(dict: &'a [(Vec<u8>, BVal)], key: &[u8]) -> (r: Option<&'a BVal>)
    ensures
        match r {
            Some(v) => lookup(dict_view(dict@), key@) == Some(v@),
            None => lookup(dict_view(dict@), key@) is None,
        },
{
    let ghost entries = dict_view(dict@);
    let mut i: usize = 0;
    assert(entries.skip(0) =~= entries);
    while i < dict.len()
        invariant
            i <= dict.len(),
            entries == dict_view(dict@),
            lookup(entries, key@) == lookup(entries.skip(i as int), key@),
        decreases dict.len() - i,
    {
        proof {
            assert(entries.skip(i as int).drop_first() =~= entries.skip(i + 1));
        }
        if bytes_eq(dict[i].0.as_slice(), key) {
            return Some(&dict[i].1);
        }
        i += 1;
    }
    None
}

/// The integer stored under `key`, if the first entry with that key holds one.
pub fn get_int(dict: &[(Vec<u8>, BVal)], key: &[u8]) -> (r: Option<i64>)
    ensures
        match r {
            Some(n) => lookup(dict_view(dict@), key@) == Some(BValue::Int(n as int)),
            None => !(lookup(dict_view(dict@), key@) matches Some(BValue::Int(_))),
        },
{
    match get_dict_value(dict, key) {
        Some(BVal::Int(n)) => Some(*n),
        _ => None,
    }
}

/// A copy of the byte string stored under `key`, if the first entry with
/// that key holds one.
pub fn get_bytes(dict: &[(Vec<u8>, BVal)], key: &[u8]) -> (r: Option<Vec<u8>>)
    ensures
        match r {
            Some(b) => lookup(dict_view(dict@), key@) == Some(BValue::Bytes(b@)),
            None => !(lookup(dict_view(dict@), key@) matches Some(BValue::Bytes(_))),
        },
{
    match get_dict_value(dict, key) {
        Some(BVal::Bytes(b)) => Some(b.clone()),
        _ => None,
    }
}

} // verus!
