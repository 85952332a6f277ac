//! Validation and normalization of user-supplied URLs, and the decisions of
//! the bounded web-page fetch. The transport itself (HTTP, redirects,
//! timeouts) lives outside; this module decides what is sent and what is
//! accepted.

use vstd::prelude::*;
use vstd::string::StringExecFns;
use crate::mime::str_eq;

verus! {

pub const MAX_RESPONSE_BYTES: usize = 2 * 1024 * 1024;

pub const MSG_URL_REQUIRED: &'static str = "URL is required.";

pub const MSG_URL_INVALID: &'static str = "Invalid URL format.";

pub const MSG_URL_WEB_SCHEME: &'static str = "Only http:// and https:// URLs are supported.";

pub const MSG_URL_EXTERNAL_SCHEME: &'static str =
    "Only http(s), mailto, and tel URLs are supported.";

pub const MSG_HTTP_STATUS_FAILED: &'static str = "Website responded with a failing HTTP status.";

pub const MSG_RESPONSE_TOO_LARGE: &'static str = "Website is too large to import (max 2 MB).";

pub const MSG_EMPTY_CONTENT: &'static str = "Website returned empty content.";

/// What trimming leading and trailing whitespace yields: a function of the
/// characters alone.
pub uninterp spec fn spec_trimmed(s: Seq<char>) -> Seq<char>;

/// Relies on `str::trim`: the result depends on the characters alone, and
/// trimming an empty string yields an empty string.
#[verifier::external_body]
fn trim_str(s: &str) -> (r: &str)
    ensures
        r@ == spec_trimmed(s@),
        s@.len() == 0 ==> r@.len() == 0,
{
    s.trim()
}

/// Relies on `str::starts_with`: true exactly when the prefix's characters
/// open the string.
#[verifier::external_body]
fn str_starts_with(s: &str, prefix: &str) -> (r: bool)
    ensures
        r == prefix@.is_prefix_of(s@),
{
    s.starts_with(prefix)
}

/// Whether `url::Url::parse` accepts the string.
pub uninterp spec fn spec_url_parse_ok(s: Seq<char>) -> bool;

/// The scheme of the URL parsed from the string.
pub uninterp spec fn spec_url_scheme(s: Seq<char>) -> Seq<char>;

/// The URL parsed from the string, serialized back out.
pub uninterp spec fn spec_url_serialized(s: Seq<char>) -> Seq<char>;

/// Relies on `url::Url::parse`, with `Url::scheme` and `Url::as_str` reading
/// the parse result: whether parsing succeeds, the scheme, and the
/// serialized form are functions of the input string alone.
#[verifier::external_body]
fn parse_url_parts(s: &str) -> (r: Option<(String, String)>)
    ensures
        r is Some <==> spec_url_parse_ok(s@),
        r is Some ==> ((r->Some_0).0)@ == spec_url_scheme(s@),
        r is Some ==> ((r->Some_0).1)@ == spec_url_serialized(s@),
{
    match url::Url::parse(s) {
        Ok(u) => Some((u.scheme().to_owned(), u.as_str().to_owned())),
        Err(_) => None,
    }
}

/// The string actually parsed for a web URL: the trimmed input, prefixed
/// with `https://` when no explicit http(s) scheme opens it.
pub open spec fn spec_candidate_url(s: Seq<char>) -> Seq<char> {
    let t = spec_trimmed(s);
    if "http://"@.is_prefix_of(t) || "https://"@.is_prefix_of(t) {
        t
    } else {
        "https://"@ + t
    }
}

/// The string actually parsed for an external link: as for a web URL, but
/// `mailto:` and `tel:` prefixes are also taken as explicit schemes.
pub open spec fn spec_external_candidate_url(s: Seq<char>) -> Seq<char> {
    let t = spec_trimmed(s);
    if "http://"@.is_prefix_of(t) || "https://"@.is_prefix_of(t) || "mailto:"@.is_prefix_of(t)
        || "tel:"@.is_prefix_of(t) {
        t
    } else {
        "https://"@ + t
    }
}

/// A web URL is accepted exactly when its trimmed form is non-empty, its
/// candidate parses, and the scheme is http or https.
pub open spec fn spec_valid_web_url(s: Seq<char>) -> bool {
    &&& spec_trimmed(s).len() > 0
    &&& spec_url_parse_ok(spec_candidate_url(s))
    &&& (spec_url_scheme(spec_candidate_url(s)) == "http"@ || spec_url_scheme(
        spec_candidate_url(s),
    ) == "https"@)
}

/// An external link is accepted exactly when its trimmed form is non-empty,
/// its candidate parses, and the scheme is http, https, mailto or tel.
pub open spec fn spec_valid_external_url(s: Seq<char>) -> bool {
    &&& spec_trimmed(s).len() > 0
    &&& spec_url_parse_ok(spec_external_candidate_url(s))
    &&& {
        let sch = spec_url_scheme(spec_external_candidate_url(s));
        sch == "http"@ || sch == "https"@ || sch == "mailto"@ || sch == "tel"@
    }
}

/// Normalize a user-supplied web address and validate it: trim it, default
/// the scheme to https, parse, and accept only http(s). On success the
/// serialized parsed URL is returned.
pub fn normalize_and_validate_url(input: &str) -> (r: Result<String, String>)
    ensures
        r is Ok <==> spec_valid_web_url(input@),
        r is Ok ==> (r->Ok_0)@ == spec_url_serialized(spec_candidate_url(input@)),
        input@.len() == 0 ==> r is Err,
        r is Err ==> (r->Err_0)@ == (if spec_trimmed(input@).len() == 0 {
            MSG_URL_REQUIRED@
        } else if !spec_url_parse_ok(spec_candidate_url(input@)) {
            MSG_URL_INVALID@
        } else {
            MSG_URL_WEB_SCHEME@
        }),
{
    let trimmed = trim_str(input);
    if trimmed.is_empty() {
        return Err(String::from_str(MSG_URL_REQUIRED));
    }
    let candidate = if str_starts_with(trimmed, "http://") || str_starts_with(
        trimmed,
        "https://",
    ) {
        String::from_str(trimmed)
    } else {
        let mut c = String::from_str("https://");
        c.append(trimmed);
        c
    };
    match parse_url_parts(candidate.as_str()) {
        Some((scheme, serialized)) => {
            if str_eq(scheme.as_str(), "http") || str_eq(scheme.as_str(), "https") {
                Ok(serialized)
            } else {
                Err(String::from_str(MSG_URL_WEB_SCHEME))
            }
        },
        None => Err(String::from_str(MSG_URL_INVALID)),
    }
}

/// Normalize an external link and validate it: as for a web URL, but
/// `mailto:` and `tel:` are also accepted.
pub fn normalize_and_validate_external_url(input: &str) -> (r: Result<String, String>)
    ensures
        r is Ok <==> spec_valid_external_url(input@),
        r is Ok ==> (r->Ok_0)@ == spec_url_serialized(spec_external_candidate_url(input@)),
        input@.len() == 0 ==> r is Err,
        r is Err ==> (r->Err_0)@ == (if spec_trimmed(input@).len() == 0 {
            MSG_URL_REQUIRED@
        } else if !spec_url_parse_ok(spec_external_candidate_url(input@)) {
            MSG_URL_INVALID@
        } else {
            MSG_URL_EXTERNAL_SCHEME@
        }),
{
    let trimmed = trim_str(input);
    if trimmed.is_empty() {
        return Err(String::from_str(MSG_URL_REQUIRED));
    }
    let candidate = if str_starts_with(trimmed, "http://") || str_starts_with(trimmed, "https://")
        || str_starts_with(trimmed, "mailto:") || str_starts_with(trimmed, "tel:") {
        String::from_str(trimmed)
    } else {
        let mut c = String::from_str("https://");
        c.append(trimmed);
        c
    };
    match parse_url_parts(candidate.as_str()) {
        Some((scheme, serialized)) => {
            if str_eq(scheme.as_str(), "http") || str_eq(scheme.as_str(), "https") || str_eq(
                scheme.as_str(),
                "mailto",
            ) || str_eq(scheme.as_str(), "tel") {
                Ok(serialized)
            } else {
                Err(String::from_str(MSG_URL_EXTERNAL_SCHEME))
            }
        },
        None => Err(String::from_str(MSG_URL_INVALID)),
    }
}

/// The body and final address of a fetched page.
#[derive(Debug)]
pub struct WebsiteHtmlResponse {
    pub html: String,
    pub final_url: String,
}

/// The fetch decisions once the transport has answered: a non-success
/// status is rejected; a declared length over the cap is rejected; an actual
/// body over the cap is rejected; a body that is blank after trimming is
/// rejected; otherwise the body and the final address are returned as
/// received.
pub fn accept_website_response(
    status_success: bool,
    content_length: Option<u64>,
    body_len: usize,
    html: String,
    final_url: String,
) -> (r: Result<WebsiteHtmlResponse, String>)
    ensures
        r is Ok <==> status_success && (content_length is Some ==> content_length->Some_0
            <= MAX_RESPONSE_BYTES as u64) && body_len <= MAX_RESPONSE_BYTES && spec_trimmed(
            html@,
        ).len() > 0,
        r is Ok ==> (r->Ok_0).html == html && (r->Ok_0).final_url == final_url,
        r is Err ==> (r->Err_0)@ == (if !status_success {
            MSG_HTTP_STATUS_FAILED@
        } else if (content_length is Some && content_length->Some_0 > MAX_RESPONSE_BYTES as u64)
            || body_len > MAX_RESPONSE_BYTES {
            MSG_RESPONSE_TOO_LARGE@
        } else {
            MSG_EMPTY_CONTENT@
        }),
{
    if !status_success {
        return Err(String::from_str(MSG_HTTP_STATUS_FAILED));
    }
    match content_length {
        Some(n) => {
            if n > (MAX_RESPONSE_BYTES as u64) {
                return Err(String::from_str(MSG_RESPONSE_TOO_LARGE));
            }
        },
        None => {},
    }
    if body_len > MAX_RESPONSE_BYTES {
        return Err(String::from_str(MSG_RESPONSE_TOO_LARGE));
    }
    let t = trim_str(html.as_str());
    if t.is_empty() {
        return Err(String::from_str(MSG_EMPTY_CONTENT));
    }
    Ok(WebsiteHtmlResponse { html, final_url })
}

} // verus!
