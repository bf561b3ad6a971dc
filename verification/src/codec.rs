//! Decoding of the external call's outcome payload.

use vstd::prelude::*;

verus! {

/// Whether a byte payload is a JSON boolean, and which one. The result
/// depends on the bytes alone.
pub uninterp spec fn json_bool_of(s: Seq<u8>) -> Option<bool>;

/// Relies on `near_sdk::serde_json::from_slice::<bool>` to decode the
/// payload the external call reported. Its documentation gives that the
/// byte strings `true` and `false` parse to the matching boolean.
#[verifier::external_body]
pub fn parse_bool_payload(value: &Vec<u8>) -> (r: Option<bool>)
    ensures
        r == json_bool_of(value@),
        value@ =~= seq![0x74u8, 0x72u8, 0x75u8, 0x65u8] ==> r == Option::Some(true),
        value@ =~= seq![0x66u8, 0x61u8, 0x6cu8, 0x73u8, 0x65u8] ==> r == Option::Some(false),
{
    match near_sdk::serde_json::from_slice::<bool>(value) {
        Ok(b) => Some(b),
        Err(_) => None,
    }
}

} // verus!
