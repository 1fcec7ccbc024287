//! The values that a handler written against a plain request/response
//! interface works with: the request it reads, the response object it fills
//! in, and the response that results.

use vstd::prelude::*;
use crate::strmap::{StrMap, pair_view, pairs_to_map};
use crate::response::{Response, ResponseView, status_ok, status_is_valid};

verus! {

/// What a handler sees of a request.
pub struct JsRequest {
    pub method: String,
    pub path: String,
    pub headers: StrMap,
    pub body: Option<String>,
    pub params: StrMap,
    pub query: StrMap,
}

/// What a handler produces: an optional status, headers, an optional body.
pub struct JsResponse {
    pub status_code: Option<u16>,
    pub headers: StrMap,
    pub body: Option<String>,
}

/// The text that decoding `b` as UTF-8 gives, with each invalid sequence
/// replaced by U+FFFD.
pub uninterp spec fn utf8_lossy(b: Seq<u8>) -> Seq<char>;

/// Relies on `String::from_utf8_lossy`: the decoded text depends on the bytes
/// alone.
#[verifier::external_body]
fn decode_lossy(b: &[u8]) -> (r: String)
    ensures
        r@ == utf8_lossy(b@),
{
    String::from_utf8_lossy(b).into_owned()
}

/// The (name, value) pairs of an `application/x-www-form-urlencoded` text,
/// decoded, in order.
pub uninterp spec fn form_pairs(q: Seq<char>) -> Seq<(Seq<char>, Seq<char>)>;

/// Relies on `url::form_urlencoded::parse` with `into_owned`: the decoded
/// pairs depend on the text alone, and an empty text has none.
#[verifier::external_body]
fn parse_form(q: &str) -> (r: Vec<(String, String)>)
    ensures
        r@.map_values(|p: (String, String)| pair_view(p)) == form_pairs(q@),
        q@.len() == 0 ==> r@.len() == 0,
{
    url::form_urlencoded::parse(q.as_bytes()).into_owned().collect()
}

/// The query parameters of a request with query text `q`: for a repeated
/// name the last value wins.
pub open spec fn query_map(q: Option<Seq<char>>) -> Map<Seq<char>, Seq<char>> {
    match q {
        Some(t) => pairs_to_map(form_pairs(t)),
        None => Map::empty(),
    }
}

impl JsRequest {
    /// Builds the handler's view of a request from its method name, path,
    /// header pairs, body bytes, route parameters and query text. An empty
    /// body is no body; other bytes are decoded as UTF-8, lossily.
    pub fn from_parts(
        method: String,
        path: String,
        headers: &Vec<(String, String)>,
        body: &[u8],
        params: StrMap,
        query: Option<&str>,
    ) -> (r: JsRequest)
        ensures
            r.method@ == method@,
            r.path@ == path@,
            r.headers.wf(),
            r.headers@ == pairs_to_map(headers@.map_values(|p: (String, String)| pair_view(p))),
            body@.len() == 0 ==> r.body is None,
            body@.len() > 0 ==> (r.body matches Some(t) && t@ == utf8_lossy(body@)),
            r.params == params,
            r.query.wf(),
            r.query@ == query_map(match query {
                Some(q) => Some(q@),
                None => None,
            }),
    {
        let body_str = if body.len() > 0 {
            Some(decode_lossy(body))
        } else {
            None
        };
        let query_pairs = match query {
            Some(q) => parse_form(q),
            None => Vec::new(),
        };
        proof {
            if query is None {
                assert(query_pairs@.map_values(|p: (String, String)| pair_view(p)) =~= Seq::<(Seq<char>, Seq<char>)>::empty());
            }
        }
        JsRequest {
            method,
            path,
            headers: StrMap::from_pairs(headers),
            body: body_str,
            params,
            query: StrMap::from_pairs(&query_pairs),
        }
    }
}

impl JsResponse {
    pub open spec fn wf(&self) -> bool {
        self.headers.wf()
    }
}

impl Default for JsResponse {
    /// Status 200, header `Content-Type: application/json`, no body.
    fn default() -> (r: JsResponse)
        ensures
            r.wf(),
            r.status_code == Some(200u16),
            r.headers@ == map![("Content-Type"@) => ("application/json"@)],
            r.body is None,
    {
        let mut headers = StrMap::new();
        headers.insert(String::from_str("Content-Type"), String::from_str("application/json"));
        assert(headers@ =~= map![("Content-Type"@) => ("application/json"@)]);
        JsResponse { status_code: Some(200), headers, body: None }
    }
}

/// Whether the text is a valid header name.
pub uninterp spec fn header_name_ok(name: Seq<char>) -> bool;

/// Relies on `http::header::HeaderName::from_str` (re-exported by hyper):
/// whether the name is accepted depends on the text alone, and the empty
/// text is refused.
#[verifier::external_body]
fn is_header_name(name: &str) -> (r: bool)
    ensures
        r == header_name_ok(name@),
        name@.len() == 0 ==> !r,
{
    name.parse::<hyper::header::HeaderName>().is_ok()
}

/// A header value may hold any character but the control characters other
/// than horizontal tab.
pub open spec fn header_value_ok(v: Seq<char>) -> bool {
    forall|i: int| 0 <= i < v.len() ==> ((v[i] as u32) >= 32 && (v[i] as u32) != 127) || (v[i] as u32) == 9
}

/// Whether `v` is a valid header value.
pub fn is_header_value(v: &str) -> (r: bool)
    ensures
        r == header_value_ok(v@),
{
    let n = v.unicode_len();
    let mut i: usize = 0;
    while i < n
        invariant
            n == v@.len(),
            i <= n,
            forall|j: int| 0 <= j < i ==> ((v@[j] as u32) >= 32 && (v@[j] as u32) != 127) || (v@[j] as u32) == 9,
        decreases n - i,
    {
        let c = v.get_char(i) as u32;
        if !((c >= 32 && c != 127) || c == 9) {
            return false;
        }
        i = i + 1;
    }
    true
}

/// The headers whose names are valid, in order.
pub open spec fn named_headers(hs: Seq<(Seq<char>, Seq<char>)>) -> Seq<(Seq<char>, Seq<char>)>
    decreases hs.len(),
{
    if hs.len() == 0 {
        Seq::empty()
    } else {
        let p = named_headers(hs.drop_last());
        if header_name_ok(hs.last().0) {
            p.push(hs.last())
        } else {
            p
        }
    }
}

/// Body of the response that stands in for one that cannot be built.
pub const BUILD_FAILED: &'static str = "Failed to build response";

/// The response for a handler's status, headers and body: an absent or
/// invalid status becomes 500, headers with invalid names are left out, an
/// absent body is empty. A header value that is not valid makes the response
/// unbuildable, and a bare 500 response with body `Failed to build response`
/// is sent instead.
pub open spec fn converted(status: Option<u16>, hs: Seq<(Seq<char>, Seq<char>)>, body: Option<Seq<char>>) -> ResponseView {
    let kept = named_headers(hs);
    if forall|i: int| 0 <= i < kept.len() ==> header_value_ok(#[trigger] kept[i].1) {
        (
            match status {
                Some(c) => if status_ok(c) { c } else { 500u16 },
                None => 500u16,
            },
            kept,
            match body {
                Some(b) => b,
                None => Seq::empty(),
            },
        )
    } else {
        (500u16, Seq::empty(), BUILD_FAILED@)
    }
}

/// Turns what a handler produced into the response to send.
pub fn convert_to_hyper_response(js_response: JsResponse) -> (r: Response)
    ensures
        r@ == converted(
            js_response.status_code,
            js_response.headers.pairs(),
            match js_response.body {
                Some(b) => Some(b@),
                None => None,
            },
        ),
{
    let status: u16 = match js_response.status_code {
        Some(c) => if status_is_valid(c) { c } else { 500 },
        None => 500,
    };
    let entries = js_response.headers.entries();
    let ghost hs = js_response.headers.pairs();
    let mut kept: Vec<(String, String)> = Vec::new();
    let mut all_valid = true;
    let mut i: usize = 0;
    while i < entries.len()
        invariant
            i <= entries@.len(),
            entries@.map_values(|p: (String, String)| pair_view(p)) == hs,
            kept@.map_values(|p: (String, String)| pair_view(p)) == named_headers(hs.subrange(0, i as int)),
            all_valid == forall|j: int| 0 <= j < kept@.len() ==> header_value_ok(#[trigger] kept@[j].1@),
        decreases entries@.len() - i,
    {
        let ghost before = kept@.map_values(|p: (String, String)| pair_view(p));
        proof {
            assert(hs.subrange(0, i + 1).drop_last() =~= hs.subrange(0, i as int));
            assert(hs.subrange(0, i + 1).last() == pair_view(entries@[i as int]));
        }
        if is_header_name(entries[i].0.as_str()) {
            let ok = is_header_value(entries[i].1.as_str());
            let ghost old_kept = kept@;
            kept.push((entries[i].0.clone(), entries[i].1.clone()));
            proof {
                assert(kept@.map_values(|p: (String, String)| pair_view(p)) =~= before.push(pair_view(entries@[i as int])));
                assert(kept@.last() == entries@[i as int]);
                if all_valid && ok {
                    assert forall|j: int| 0 <= j < kept@.len() implies header_value_ok(#[trigger] kept@[j].1@) by {
                        if j < old_kept.len() {
                            assert(kept@[j] == old_kept[j]);
                        }
                    }
                }
                if !(all_valid && ok) {
                    if !ok {
                        assert(!header_value_ok(kept@[kept@.len() - 1].1@));
                    } else {
                        let j = choose|j: int| 0 <= j < old_kept.len() && !header_value_ok(#[trigger] old_kept[j].1@);
                        assert(kept@[j] == old_kept[j]);
                    }
                }
            }
            all_valid = all_valid && ok;
        }
        i = i + 1;
    }
    proof {
        assert(hs.subrange(0, i as int) =~= hs);
        let kv = kept@.map_values(|p: (String, String)| pair_view(p));
        assert(all_valid == forall|j: int| 0 <= j < kv.len() ==> header_value_ok(#[trigger] kv[j].1)) by {
            if !all_valid {
                let j = choose|j: int| 0 <= j < kept@.len() && !header_value_ok(#[trigger] kept@[j].1@);
                assert(kv[j].1 == kept@[j].1@);
            } else {
                assert forall|j: int| 0 <= j < kv.len() implies header_value_ok(#[trigger] kv[j].1) by {
                    assert(kv[j].1 == kept@[j].1@);
                }
            }
        }
    }
    if all_valid {
        let body = match js_response.body {
            Some(b) => b,
            None => String::new(),
        };
        Response { status, headers: kept, body }
    } else {
        Response { status: 500, headers: Vec::new(), body: String::from_str(BUILD_FAILED) }
    }
}

/// Why a response could not be sent.
#[derive(Clone, Copy, Debug, PartialEq, Eq, Structural)]
pub enum SendError {
    /// The response was sent before.
    AlreadySent,
}

impl SendError {
    /// The error's message.
    pub fn message(&self) -> (r: &'static str)
        ensures
            r@ == "Response already sent"@,
    {
        match self {
            SendError::AlreadySent => "Response already sent",
        }
    }
}

/// The response object that a handler fills in and sends once. `S` is what
/// delivers the finished response to the server.
pub struct Res<S> {
    status_code: Option<u16>,
    headers: StrMap,
    sender: Option<S>,
}

impl<S> Res<S> {
    pub closed spec fn status_spec(&self) -> Option<u16> {
        self.status_code
    }

    pub closed spec fn headers_spec(&self) -> Map<Seq<char>, Seq<char>> {
        self.headers@
    }

    /// What delivers the response; `None` once it has been sent.
    pub closed spec fn sender_spec(&self) -> Option<S> {
        self.sender
    }

    pub closed spec fn wf(&self) -> bool {
        self.headers.wf()
    }

    /// A response object with no status and no headers that has not been sent.
    pub fn new_with_sender(sender: S) -> (r: Res<S>)
        ensures
            r.wf(),
            r.status_spec() is None,
            r.headers_spec() == Map::<Seq<char>, Seq<char>>::empty(),
            r.sender_spec() == Some(sender),
    {
        Res { status_code: None, headers: StrMap::new(), sender: Some(sender) }
    }

    /// Sets the status code.
    pub fn status(&mut self, code: u16)
        requires
            old(self).wf(),
        ensures
            final(self).wf(),
            final(self).status_spec() == Some(code),
            final(self).headers_spec() == old(self).headers_spec(),
            final(self).sender_spec() == old(self).sender_spec(),
    {
        self.status_code = Some(code);
    }

    /// Sets a header, replacing an earlier value for the same name.
    pub fn header(&mut self, key: String, value: String)
        requires
            old(self).wf(),
        ensures
            final(self).wf(),
            final(self).status_spec() == old(self).status_spec(),
            final(self).headers_spec() == old(self).headers_spec().insert(key@, value@),
            final(self).sender_spec() == old(self).sender_spec(),
    {
        self.headers.insert(key, value);
    }

    /// Finishes the response with `body`: hands back what delivers it and the
    /// response (status 200 unless set, the headers set so far), and clears
    /// the headers. A second call fails.
    pub fn send(&mut self, body: String) -> (r: Result<(S, JsResponse), SendError>)
        requires
            old(self).wf(),
        ensures
            final(self).wf(),
            final(self).status_spec() == old(self).status_spec(),
            final(self).sender_spec() is None,
            match old(self).sender_spec() {
                Some(s) => r matches Ok((s2, resp)) && s2 == s && resp.wf()
                    && resp.status_code == Some(match old(self).status_spec() {
                        Some(c) => c,
                        None => 200u16,
                    })
                    && resp.headers@ == old(self).headers_spec()
                    && resp.body == Some(body)
                    && final(self).headers_spec() == Map::<Seq<char>, Seq<char>>::empty(),
                None => r == Err::<(S, JsResponse), SendError>(SendError::AlreadySent)
                    && final(self).headers_spec() == old(self).headers_spec(),
            },
    {
        match self.sender.take() {
            Some(sender) => {
                let code: u16 = match self.status_code {
                    Some(c) => c,
                    None => 200,
                };
                let mut headers = StrMap::new();
                std::mem::swap(&mut headers, &mut self.headers);
                Ok((sender, JsResponse { status_code: Some(code), headers, body: Some(body) }))
            },
            None => Err(SendError::AlreadySent),
        }
    }
}

} // verus!
