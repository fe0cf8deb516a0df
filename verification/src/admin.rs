//! The token that guards the administration of the daemon.

use subtle::ConstantTimeEq;
use vstd::prelude::*;
use vstd::string::*;
use vstd::utf8::*;

verus! {

/// Calls `ct_eq` of the `subtle` crate on two byte slices and turns the
/// choice into a `bool`: it is set exactly if the slices are equal. For
/// slices of one length the comparison takes the same time whatever they
/// hold.
#[verifier::external_body]
pub(crate) fn constant_time_eq(a: &[u8], b: &[u8]) -> (r: bool)
    ensures
        r == (a@ == b@),
{
    a.ct_eq(b).into()
}

/// Whether a token opens the administration: any token does where none is
/// configured, and only the configured one otherwise.
pub open spec fn token_accepted(configured: Seq<char>, provided: Seq<char>) -> bool {
    configured.len() == 0 || configured == provided
}

/// Checks the token of a request against the configured one, in constant
/// time.
pub fn admin_token_accepted(configured: &str, provided: &str) -> (r: bool)
    ensures
        r == token_accepted(configured@, provided@),
{
    let expected = configured.as_bytes();
    let given = provided.as_bytes();
    proof {
        encode_utf8_decode_utf8(configured@);
        encode_utf8_decode_utf8(provided@);
    }
    if expected.len() == 0 {
        return true;
    }
    if expected.len() != given.len() {
        return false;
    }
    constant_time_eq(expected, given)
}

} // verus!
