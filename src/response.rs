//! Responses as plain values, and the standard error responses.

use vstd::prelude::*;
use crate::strmap::pair_view;

verus! {

/// A response: status code, headers in order, and body text.
pub struct Response {
    pub status: u16,
    pub headers: Vec<(String, String)>,
    pub body: String,
}

/// Status, headers and body of a response.
pub type ResponseView = (u16, Seq<(Seq<char>, Seq<char>)>, Seq<char>);

impl View for Response {
    type V = ResponseView;

    open spec fn view(&self) -> ResponseView {
        (self.status, self.headers@.map_values(|p: (String, String)| pair_view(p)), self.body@)
    }
}

/// Whether `code` can be the status of a response: three decimal digits,
/// from 100 to 999.
pub open spec fn status_ok(code: u16) -> bool {
    100 <= code <= 999
}

/// Relies on `http::StatusCode::from_u16` (re-exported by hyper), which
/// accepts exactly the codes from 100 to 999.
#[verifier::external_body]
pub(crate) fn status_is_valid(code: u16) -> (r: bool)
    ensures
        r == status_ok(code),
{
    hyper::StatusCode::from_u16(code).is_ok()
}

/// What `serde_json` writes for a string: the JSON string literal, quoted and
/// escaped.
pub uninterp spec fn json_string(s: Seq<char>) -> Seq<char>;

/// Relies on `serde_json::to_string` applied to a `str`: the text is the JSON
/// string literal for `s`, which depends on `s` alone. Serialising a `str`
/// into the in-memory buffer that `to_string` uses does not fail.
#[verifier::external_body]
fn quote_json(s: &str) -> (r: String)
    ensures
        r@ == json_string(s@),
{
    serde_json::to_string(s).unwrap_or_default()
}

/// The header that every error response carries.
pub open spec fn json_headers() -> Seq<(Seq<char>, Seq<char>)> {
    seq![("content-type"@, "application/json"@)]
}

/// The JSON object `{"error":<quoted>}` for an already quoted message.
pub open spec fn error_body_spec(quoted: Seq<char>) -> Seq<char> {
    "{\"error\":"@ + quoted + "}"@
}

/// The error response for `status` and a quoted message, or the fixed 500
/// response with body `fallback` when the status is not a valid code.
pub open spec fn error_view(status: u16, quoted: Seq<char>, fallback: Seq<char>) -> ResponseView {
    if status_ok(status) {
        (status, json_headers(), error_body_spec(quoted))
    } else {
        (500u16, json_headers(), fallback)
    }
}

/// The JSON error response `{"error":<message>}` with a valid `status`.
pub open spec fn error_response(status: u16, message: Seq<char>) -> ResponseView {
    (status, json_headers(), error_body_spec(json_string(message)))
}

/// Body of the fallback response of `create_error_response`.
pub const FALLBACK_BODY: &'static str = "{\"error\": \"Internal server error\"}";

/// Body of the fallback response of `create_error`.
pub const FALLBACK_BODY_PLAIN: &'static str = "{\"error\": \"Internal Server Error\"}";

/// Message of the timeout response of `timeout_error`.
pub const TIMED_OUT: &'static str = "Request timed out";

/// Message of `internal_server_error`.
pub const INTERNAL_ERROR: &'static str = "Internal server error";

fn json_header_list() -> (r: Vec<(String, String)>)
    ensures
        r@.map_values(|p: (String, String)| pair_view(p)) == json_headers(),
{
    let r = vec![(String::from_str("content-type"), String::from_str("application/json"))];
    assert(r@.map_values(|p: (String, String)| pair_view(p)) =~= json_headers());
    r
}

/// The body `{"error":<quoted>}`, where `quoted` is a JSON string literal.
pub fn error_body(quoted: &str) -> (r: String)
    ensures
        r@ == error_body_spec(quoted@),
{
    let mut body = String::from_str("{\"error\":");
    body.append(quoted);
    body.append("}");
    body
}

/// Builds the error response for `status` from the quoted message, falling
/// back to a 500 response with body `fallback` when the status is not valid.
pub fn json_error(status: u16, quoted: &str, fallback: &str) -> (r: Response)
    ensures
        r@ == error_view(status, quoted@, fallback@),
{
    let headers = json_header_list();
    if status_is_valid(status) {
        Response { status, headers, body: error_body(quoted) }
    } else {
        Response { status: 500, headers, body: String::from_str(fallback) }
    }
}

/// The response `{"error": message}` with `status`, as JSON; a fixed 500
/// response if `status` is not a valid code.
pub fn create_error_response(status: u16, message: &str) -> (r: Response)
    ensures
        r@ == error_view(status, json_string(message@), FALLBACK_BODY@),
        status_ok(status) ==> r@ == error_response(status, message@),
{
    json_error(status, quote_json(message).as_str(), FALLBACK_BODY)
}

/// As `create_error_response`, with its own fixed fallback body.
pub fn create_error(status: u16, message: &str) -> (r: Response)
    ensures
        r@ == error_view(status, json_string(message@), FALLBACK_BODY_PLAIN@),
        status_ok(status) ==> r@ == error_response(status, message@),
{
    json_error(status, quote_json(message).as_str(), FALLBACK_BODY_PLAIN)
}

/// A 400 response carrying `message`.
pub fn bad_request(message: &str) -> (r: Response)
    ensures
        r@ == error_response(400, message@),
{
    create_error(400, message)
}

/// A 404 response carrying `message`.
pub fn not_found(message: &str) -> (r: Response)
    ensures
        r@ == error_response(404, message@),
{
    create_error(404, message)
}

/// A 408 response for a request that took too long.
pub fn timeout_error() -> (r: Response)
    ensures
        r@ == error_response(408, TIMED_OUT@),
{
    create_error(408, TIMED_OUT)
}

/// A 500 response.
pub fn internal_server_error() -> (r: Response)
    ensures
        r@ == error_response(500, INTERNAL_ERROR@),
{
    create_error(500, INTERNAL_ERROR)
}

} // verus!
