//! The decisions of dispatching one request: which handler runs, with which
//! parameters, and what response each outcome of the handler leads to. The
//! caller runs the handler under the time budget and reports the outcome.

use vstd::prelude::*;
use crate::strmap::StrMap;
use crate::path::match_spec;
use crate::router::{Method, Router, lookup, method_name, lemma_method_name_injective};
use crate::response::{Response, create_error_response, error_response};

verus! {

/// Seconds that a handler may take before its request is answered with a
/// timeout response.
pub const HANDLER_TIMEOUT_SECS: u64 = 30;

/// Message of the response sent when a handler runs out of time.
pub const REQUEST_TIMEOUT: &'static str = "Request timeout";

/// Message of the response sent when a handler fails.
pub const HANDLER_FAILED: &'static str = "Internal server error";

/// What to do with a request once it has been routed.
pub enum Step<'a, H> {
    /// Run `handler` with the parameters bound by its route.
    Execute { handler: &'a H, params: StrMap },
    /// No route serves the request: send this response.
    Respond(Response),
}

/// How a handler's run ended.
pub enum Outcome<R> {
    /// It produced a response in time.
    Completed(R),
    /// The time budget ran out first.
    TimedOut,
    /// It failed without producing a response.
    Failed,
}

/// The response to send for a request.
pub enum Reply<R> {
    /// The handler's own response, unchanged.
    Handler(R),
    /// An error response.
    Error(Response),
}

/// The message of the response to a request that no route serves.
pub open spec fn not_found_text(method: Seq<char>, path: Seq<char>) -> Seq<char> {
    "Cannot "@ + method + " "@ + path
}

/// `Cannot <method> <path>`.
pub fn not_found_message(method: &str, path: &str) -> (r: String)
    ensures
        r@ == not_found_text(method@, path@),
{
    let mut s = String::from_str("Cannot ");
    s.append(method);
    s.append(" ");
    s.append(path);
    s
}

/// Routes a request given by its method name and path. When the name is one
/// of `Method`'s and a route serves it on the path, the first such route's
/// handler runs with the parameters that its pattern binds; otherwise the
/// answer is a 404 response with message `Cannot <method> <path>`.
pub fn route_request<'a, H>(router: &'a Router<H>, method: &str, path: &str) -> (r: Step<'a, H>)
    ensures
        match r {
            Step::Execute { handler, params } => exists|m: Method|
                method_name(m) == method@ && (#[trigger] lookup(router@, m, path@) matches Some(i)
                    && 0 <= i < router@.len() && *handler == router.handlers()[i] && params.wf()
                    && match_spec(router@[i].1, path@) == Some(params@)),
            Step::Respond(resp) => (forall|m: Method|
                method_name(m) == method@ ==> #[trigger] lookup(router@, m, path@) is None)
                && resp@ == error_response(404, not_found_text(method@, path@)),
        },
{
    let found = match Method::from_name(method) {
        Some(m) => {
            let f = router.find_handler(&m, path);
            proof {
                if f is None {
                    assert forall|m2: Method| method_name(m2) == method@ implies #[trigger] lookup(router@, m2, path@) is None by {
                        lemma_method_name_injective(m, m2);
                    }
                }
            }
            f
        },
        None => None,
    };
    match found {
        Some((handler, params)) => Step::Execute { handler, params },
        None => Step::Respond(create_error_response(404, not_found_message(method, path).as_str())),
    }
}

/// The response for a handler's outcome: its own response when it completed,
/// a 408 response when it ran out of time, a 500 response when it failed.
pub fn finish<R>(outcome: Outcome<R>) -> (r: Reply<R>)
    ensures
        match outcome {
            Outcome::Completed(x) => r == Reply::Handler(x),
            Outcome::TimedOut => r matches Reply::Error(e)
                && e@ == error_response(408, REQUEST_TIMEOUT@),
            Outcome::Failed => r matches Reply::Error(e)
                && e@ == error_response(500, HANDLER_FAILED@),
        },
{
    match outcome {
        Outcome::Completed(x) => Reply::Handler(x),
        Outcome::TimedOut => Reply::Error(create_error_response(408, REQUEST_TIMEOUT)),
        Outcome::Failed => Reply::Error(create_error_response(500, HANDLER_FAILED)),
    }
}

} // verus!
