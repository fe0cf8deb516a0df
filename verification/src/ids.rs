//! The ids under which torrents are known.

use crate::text::chars_of;
use uuid::Uuid;
use vstd::prelude::*;
use vstd::string::*;

verus! {

/// The length of a torrent id in its hyphenated form.
pub const HYPHENATED_ID_LENGTH: usize = 36;

/// The length of a torrent id without hyphens.
pub const SIMPLE_ID_LENGTH: usize = 32;

/// Draws a random id with `uuid::Uuid::new_v4` and writes it as the crate
/// displays it: in the hyphenated form, which is 36 characters long, with
/// hyphens at the places 8, 13, 18 and 23 and hexadecimal digits
/// everywhere else. Which id comes out is left open: it differs from call
/// to call.
#[verifier::external_body]
pub(crate) fn new_torrent_id() -> (id: String)
    ensures
        id@.len() == HYPHENATED_ID_LENGTH,
        id_shaped(id@),
{
    Uuid::new_v4().to_string()
}

/// An ASCII hexadecimal digit.
pub open spec fn hex_char(c: char) -> bool {
    ('0' <= c <= '9') || ('a' <= c <= 'f') || ('A' <= c <= 'F')
}

/// A text of 36 characters with hyphens at the places 8, 13, 18 and 23 and
/// hexadecimal digits everywhere else, or a text of 32 hexadecimal digits.
pub open spec fn id_shaped(s: Seq<char>) -> bool {
    if s.len() == HYPHENATED_ID_LENGTH {
        forall|i: int|
            0 <= i < s.len() ==> if i == 8 || i == 13 || i == 18 || i == 23 {
                #[trigger] s[i] == '-'
            } else {
                hex_char(s[i])
            }
    } else if s.len() == SIMPLE_ID_LENGTH {
        forall|i: int| 0 <= i < s.len() ==> hex_char(#[trigger] s[i])
    } else {
        false
    }
}

/// Tells whether a character is an ASCII hexadecimal digit.
pub fn is_hex_char(c: char) -> (r: bool)
    ensures
        r == hex_char(c),
{
    ('0' <= c && c <= '9') || ('a' <= c && c <= 'f') || ('A' <= c && c <= 'F')
}

/// Tells whether a text has the shape of a torrent id.
pub fn validate_torrent_id(id: &str) -> (r: bool)
    ensures
        r == id_shaped(id@),
{
    let chars = chars_of(id);
    let n = chars.len();
    if n != HYPHENATED_ID_LENGTH && n != SIMPLE_ID_LENGTH {
        return false;
    }
    let hyphenated = n == HYPHENATED_ID_LENGTH;
    let mut i: usize = 0;
    while i < n
        invariant
            i <= n,
            n == chars.len(),
            chars@ == id@,
            hyphenated == (n == HYPHENATED_ID_LENGTH),
            n == HYPHENATED_ID_LENGTH || n == SIMPLE_ID_LENGTH,
            forall|k: int|
                0 <= k < i ==> if hyphenated && (k == 8 || k == 13 || k == 18 || k == 23) {
                    #[trigger] chars@[k] == '-'
                } else {
                    hex_char(chars@[k])
                },
        decreases n - i,
    {
        let c = chars[i];
        if hyphenated && (i == 8 || i == 13 || i == 18 || i == 23) {
            if c != '-' {
                return false;
            }
        } else if !is_hex_char(c) {
            return false;
        }
        i += 1;
    }
    true
}

} // verus!
