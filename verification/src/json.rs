//! The loosely typed reports of the transfer engine.
//!
//! The engine reports as JSON, and the names of its fields vary between
//! versions. A report is held as a [`JsonValue`]; each field is read under
//! the first of several accepted names that holds a usable value.

use crate::text::{blank, is_blank, str_eq};
use vstd::prelude::*;
use vstd::string::*;

verus! {

/// A JSON value. A number is an unsigned integer, a negative integer, or,
/// where it is no integer, its value in millionths.
#[derive(Debug)]
pub enum JsonValue {
    Null,
    Bool(bool),
    UInt(u64),
    NegInt(i64),
    Real(i64),
    Text(String),
    Array(Vec<JsonValue>),
    Object(Vec<(String, JsonValue)>),
}

/// The index of the first entry from `from` on whose name is `key`, or the
/// number of entries where there is none.
pub open spec fn member_index(entries: Seq<(String, JsonValue)>, key: Seq<char>, from: int) -> int
    decreases entries.len() - from,
{
    if from < 0 || from >= entries.len() || entries[from].0@ == key {
        from
    } else {
        member_index(entries, key, from + 1)
    }
}

/// The member of an object with the given name: the first one, where
/// several have it. Other values have no members.
pub open spec fn member(v: JsonValue, key: Seq<char>) -> Option<JsonValue> {
    match v {
        JsonValue::Object(entries) => {
            let i = member_index(entries@, key, 0);
            if 0 <= i < entries@.len() {
                Some(entries@[i].1)
            } else {
                None
            }
        },
        _ => None,
    }
}

/// Looks a member of an object up by its name.
pub fn get_member<'a>(v: &'a JsonValue, key: &str) -> (r: Option<&'a JsonValue>)
    ensures
        r == match member(*v, key@) {
            Some(m) => Some(&m),
            None => None,
        },
{
    match v {
        JsonValue::Object(entries) => {
            let mut i: usize = 0;
            while i < entries.len()
                invariant
                    i <= entries.len(),
                    *v == JsonValue::Object(*entries),
                    member_index(entries@, key@, 0) == member_index(entries@, key@, i as int),
                decreases entries.len() - i,
            {
                if str_eq(entries[i].0.as_str(), key) {
                    return Some(&entries[i].1);
                }
                i += 1;
            }
            None
        },
        _ => None,
    }
}

/// A count read from a value: an unsigned integer as it is, a negative
/// integer as 0.
pub open spec fn as_count(v: JsonValue) -> Option<u64> {
    match v {
        JsonValue::UInt(n) => Some(n),
        JsonValue::NegInt(_) => Some(0),
        _ => None,
    }
}

/// An unsigned integer read from a value; nothing else counts.
pub open spec fn as_unsigned(v: JsonValue) -> Option<u64> {
    match v {
        JsonValue::UInt(n) => Some(n),
        _ => None,
    }
}

/// A flag read from a value: a boolean as it is, an integer as whether it
/// is not 0.
pub open spec fn as_flag(v: JsonValue) -> Option<bool> {
    match v {
        JsonValue::Bool(b) => Some(b),
        JsonValue::UInt(n) => Some(n != 0),
        JsonValue::NegInt(n) => Some(n != 0),
        _ => None,
    }
}

/// A boolean read from a value; nothing else counts.
pub open spec fn as_boolean(v: JsonValue) -> Option<bool> {
    match v {
        JsonValue::Bool(b) => Some(b),
        _ => None,
    }
}

/// A text read from a value, unless it is blank.
pub open spec fn as_label(v: JsonValue) -> Option<Seq<char>> {
    match v {
        JsonValue::Text(s) => if blank(s@) {
            None
        } else {
            Some(s@)
        },
        _ => None,
    }
}

/// Any text read from a value.
pub open spec fn as_text(v: JsonValue) -> Option<Seq<char>> {
    match v {
        JsonValue::Text(s) => Some(s@),
        _ => None,
    }
}

/// `n` millionths-scaled, kept within 64 bits.
pub open spec fn scaled_millionths(n: int) -> i64 {
    if n * 1_000_000 > i64::MAX {
        i64::MAX
    } else if n * 1_000_000 < i64::MIN {
        i64::MIN
    } else {
        (n * 1_000_000) as i64
    }
}

/// A number read from a value, in millionths.
pub open spec fn as_millionths(v: JsonValue) -> Option<i64> {
    match v {
        JsonValue::UInt(n) => Some(scaled_millionths(n as int)),
        JsonValue::NegInt(n) => Some(scaled_millionths(n as int)),
        JsonValue::Real(m) => Some(m),
        _ => None,
    }
}

/// What is read under the first name from index `from` on that `v` has a
/// member for and for which `read` yields something.
pub open spec fn picked<T>(
    v: JsonValue,
    keys: Seq<&str>,
    from: int,
    read: spec_fn(JsonValue) -> Option<T>,
) -> Option<T>
    decreases keys.len() - from,
{
    if from < 0 || from >= keys.len() {
        None
    } else {
        match member(v, keys[from]@) {
            Some(m) => if read(m) is Some {
                read(m)
            } else {
                picked(v, keys, from + 1, read)
            },
            None => picked(v, keys, from + 1, read),
        }
    }
}

/// Reads a count under the first of `keys` that holds an integer.
pub fn pick_u64(v: &JsonValue, keys: &[&str]) -> (r: Option<u64>)
    ensures
        r == picked(*v, keys@, 0, |m: JsonValue| as_count(m)),
{
    let mut i: usize = 0;
    while i < keys.len()
        invariant
            i <= keys.len(),
            picked(*v, keys@, 0, |m: JsonValue| as_count(m)) == picked(
                *v,
                keys@,
                i as int,
                |m: JsonValue| as_count(m),
            ),
        decreases keys.len() - i,
    {
        match get_member(v, keys[i]) {
            Some(JsonValue::UInt(n)) => { return Some(*n); },
            Some(JsonValue::NegInt(_)) => { return Some(0); },
            _ => {},
        }
        i += 1;
    }
    None
}

/// Reads a number in millionths under the first of `keys` that holds a
/// number.
pub fn pick_millionths(v: &JsonValue, keys: &[&str]) -> (r: Option<i64>)
    ensures
        r == picked(*v, keys@, 0, |m: JsonValue| as_millionths(m)),
{
    let mut i: usize = 0;
    while i < keys.len()
        invariant
            i <= keys.len(),
            picked(*v, keys@, 0, |m: JsonValue| as_millionths(m)) == picked(
                *v,
                keys@,
                i as int,
                |m: JsonValue| as_millionths(m),
            ),
        decreases keys.len() - i,
    {
        match get_member(v, keys[i]) {
            Some(JsonValue::UInt(n)) => {
                let wide: u128 = *n as u128 * 1_000_000;
                if wide > i64::MAX as u128 {
                    return Some(i64::MAX);
                }
                return Some(wide as i64);
            },
            Some(JsonValue::NegInt(n)) => {
                let wide: i128 = *n as i128 * 1_000_000;
                if wide < i64::MIN as i128 {
                    return Some(i64::MIN);
                }
                if wide > i64::MAX as i128 {
                    return Some(i64::MAX);
                }
                return Some(wide as i64);
            },
            Some(JsonValue::Real(m)) => { return Some(*m); },
            _ => {},
        }
        i += 1;
    }
    None
}

/// The text of an optional string.
pub open spec fn label_of(s: Option<String>) -> Option<Seq<char>> {
    match s {
        Some(t) => Some(t@),
        None => None,
    }
}

/// Reads a text under the first of `keys` that holds a text that is not
/// blank.
pub fn pick_str(v: &JsonValue, keys: &[&str]) -> (r: Option<String>)
    ensures
        label_of(r) == picked(*v, keys@, 0, |m: JsonValue| as_label(m)),
{
    let mut i: usize = 0;
    while i < keys.len()
        invariant
            i <= keys.len(),
            picked(*v, keys@, 0, |m: JsonValue| as_label(m)) == picked(
                *v,
                keys@,
                i as int,
                |m: JsonValue| as_label(m),
            ),
        decreases keys.len() - i,
    {
        match get_member(v, keys[i]) {
            Some(JsonValue::Text(s)) => {
                if !is_blank(s.as_str()) {
                    return Some(s.clone());
                }
            },
            _ => {},
        }
        i += 1;
    }
    None
}

/// Reads a flag under the first of `keys` that holds a boolean or an
/// integer.
pub fn pick_bool(v: &JsonValue, keys: &[&str]) -> (r: Option<bool>)
    ensures
        r == picked(*v, keys@, 0, |m: JsonValue| as_flag(m)),
{
    let mut i: usize = 0;
    while i < keys.len()
        invariant
            i <= keys.len(),
            picked(*v, keys@, 0, |m: JsonValue| as_flag(m)) == picked(
                *v,
                keys@,
                i as int,
                |m: JsonValue| as_flag(m),
            ),
        decreases keys.len() - i,
    {
        match get_member(v, keys[i]) {
            Some(JsonValue::Bool(b)) => { return Some(*b); },
            Some(JsonValue::UInt(n)) => { return Some(*n != 0); },
            Some(JsonValue::NegInt(n)) => { return Some(*n != 0); },
            _ => {},
        }
        i += 1;
    }
    None
}

/// The boolean member of `v` with the given name; `false` where there is
/// none.
pub open spec fn flag_set(v: JsonValue, key: Seq<char>) -> bool {
    match member(v, key) {
        Some(JsonValue::Bool(b)) => b,
        _ => false,
    }
}

/// Whether `v` has a member of the given name that is `true`.
pub fn has_flag(v: &JsonValue, key: &str) -> (r: bool)
    ensures
        r == flag_set(*v, key@),
{
    match get_member(v, key) {
        Some(JsonValue::Bool(b)) => *b,
        _ => false,
    }
}

/// Reads an unsigned integer under the first of `keys` that holds one.
pub fn pick_unsigned(v: &JsonValue, keys: &[&str]) -> (r: Option<u64>)
    ensures
        r == picked(*v, keys@, 0, |m: JsonValue| as_unsigned(m)),
{
    let mut i: usize = 0;
    while i < keys.len()
        invariant
            i <= keys.len(),
            picked(*v, keys@, 0, |m: JsonValue| as_unsigned(m)) == picked(
                *v,
                keys@,
                i as int,
                |m: JsonValue| as_unsigned(m),
            ),
        decreases keys.len() - i,
    {
        match get_member(v, keys[i]) {
            Some(JsonValue::UInt(n)) => { return Some(*n); },
            _ => {},
        }
        i += 1;
    }
    None
}

/// The unsigned integers of a list of values, with 0 for every value that
/// is none.
pub open spec fn counts_of(items: Seq<JsonValue>) -> Seq<u64> {
    items.map_values(
        |m: JsonValue|
            match as_unsigned(m) {
                Some(n) => n,
                None => 0,
            },
    )
}

/// Reads the unsigned integers of a list of values.
pub fn read_counts(items: &Vec<JsonValue>) -> (out: Vec<u64>)
    ensures
        out@ == counts_of(items@),
{
    let mut out: Vec<u64> = Vec::new();
    let mut i: usize = 0;
    while i < items.len()
        invariant
            i <= items.len(),
            out@ == counts_of(items@.take(i as int)),
        decreases items.len() - i,
    {
        let n = match &items[i] {
            JsonValue::UInt(n) => *n,
            _ => 0,
        };
        out.push(n);
        i += 1;
    }
    out
}

} // verus!
