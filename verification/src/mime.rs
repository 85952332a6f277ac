//! Mapping from a mime type to the file extension used for blob files.

use vstd::prelude::*;

verus! {

/// Equality of two string slices.
///
/// Relies on `<str as PartialEq>::eq` from std: two `str` values compare
/// equal exactly when they hold the same characters.
#[verifier::external_body]
pub fn str_eq(a: &str, b: &str) -> (r: bool)
    ensures
        r == (a@ == b@),
{
    a == b
}

/// The file extension chosen for a mime type: a fixed lookup table, with
/// `jpg` as the documented default for unknown types.
pub open spec fn spec_extension_for_mime(m: Seq<char>) -> Seq<char> {
    if m == "image/jpeg"@ || m == "image/jpg"@ {
        "jpg"@
    } else if m == "image/png"@ {
        "png"@
    } else if m == "image/gif"@ {
        "gif"@
    } else if m == "image/webp"@ {
        "webp"@
    } else if m == "image/svg+xml"@ {
        "svg"@
    } else if m == "image/bmp"@ {
        "bmp"@
    } else if m == "image/tiff"@ {
        "tiff"@
    } else {
        "jpg"@
    }
}

/// Derive the blob file extension from a mime type.
pub fn get_extension_from_mime(mime_type: &str) -> (r: &str)
    ensures
        r@ == spec_extension_for_mime(mime_type@),
{
    if str_eq(mime_type, "image/jpeg") {
        "jpg"
    } else if str_eq(mime_type, "image/jpg") {
        "jpg"
    } else if str_eq(mime_type, "image/png") {
        "png"
    } else if str_eq(mime_type, "image/gif") {
        "gif"
    } else if str_eq(mime_type, "image/webp") {
        "webp"
    } else if str_eq(mime_type, "image/svg+xml") {
        "svg"
    } else if str_eq(mime_type, "image/bmp") {
        "bmp"
    } else if str_eq(mime_type, "image/tiff") {
        "tiff"
    } else {
        "jpg"
    }
}

} // verus!
