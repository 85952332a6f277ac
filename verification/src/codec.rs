//! Transport decoding of attachment payloads and generation of attachment
//! identifiers.

use vstd::prelude::*;
use base64::Engine;

verus! {

/// What standard base64 decoding yields on a string: the byte payload when
/// the input is well-formed, nothing otherwise.
pub uninterp spec fn spec_base64_decoded(s: Seq<char>) -> Option<Seq<u8>>;

/// Relies on base64's `STANDARD` engine `decode`: whether it succeeds, and
/// what it yields, are functions of the input characters alone, and an empty
/// input decodes to an empty payload.
#[verifier::external_body]
pub fn decode_base64(data: &str) -> (r: Result<Vec<u8>, String>)
    ensures
        r is Ok <==> spec_base64_decoded(data@) is Some,
        r is Ok ==> (r->Ok_0)@ == spec_base64_decoded(data@)->Some_0,
        r is Err ==> "Failed to decode base64: "@.is_prefix_of((r->Err_0)@),
        data@.len() == 0 ==> r is Ok && (r->Ok_0)@.len() == 0,
{
    base64::engine::general_purpose::STANDARD.decode(data).map_err(
        |e| format!("Failed to decode base64: {}", e),
    )
}

/// Relies on `uuid::Uuid::new_v4` and its hyphenated rendering: a freshly
/// generated random identifier always renders as a 36-character string.
/// Nothing is assumed about which identifier comes back.
#[verifier::external_body]
pub fn new_uuid_string() -> (r: String)
    ensures
        r@.len() == 36,
{
    uuid::Uuid::new_v4().to_string()
}

} // verus!
