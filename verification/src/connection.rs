//! The per-connection decision logic: from the bytes one read produced and
//! the route table to either "abandon the connection", a finished response
//! (decode failure, no route, or method not permitted), or the request and
//! the index of the route whose handler the caller must invoke. The caller
//! performs the read, the handler call, and the write.

use vstd::prelude::*;

use crate::request::{spec_decode, Request};
use crate::response::{spec_new_response, Response};
use crate::router::{first_match, Route};

verus! {

/// What a connection's bytes call for.
#[derive(Debug, PartialEq)]
pub enum Plan {
    /// The client closed before sending anything: abandon the connection
    /// without responding.
    Abandon,
    /// The response is already decided: send it and close.
    Respond(Response),
    /// Invoke the handler of the route at the given index with the request,
    /// then send what it returns.
    Invoke(Request, usize),
}

/// The fallback for a route that exists but does not permit the request's
/// method.
pub fn method_not_allowed_handler(_req: &Request) -> (r: Response)
    ensures
        r@ == spec_new_response(405, "method not allowed"@),
{
    Response::new(405, "method not allowed")
}

/// The fallback for a path no route matches.
pub fn not_found_handler(_req: &Request) -> (r: Response)
    ensures
        r@ == spec_new_response(404, "page not found"@),
{
    Response::new(404, "page not found")
}

/// Decides one connection, short of invoking the handler: an empty read means
/// the client closed, and the connection is abandoned; bytes that do not
/// decode draw a 400 response; a path no route matches draws a 404; a route
/// whose method list does not hold the request's method draws a 405; the
/// first matching route otherwise names the handler to invoke.
pub fn plan_request<H>(routes: &Vec<Route<H>>, buf: &[u8]) -> (p: Plan)
    ensures
        ({
            let d = spec_decode(buf@);
            if buf@.len() == 0 {
                p == Plan::Abandon
            } else if d is Err {
                p matches Plan::Respond(r) && r@ == spec_new_response(400, "bad request"@)
            } else {
                let req = d->Ok_0;
                let i = first_match(routes@, req.path);
                if i < 0 {
                    p matches Plan::Respond(r) && r@ == spec_new_response(404, "page not found"@)
                } else if routes@[i].methods.deep_view().contains(req.method) {
                    p matches Plan::Invoke(rq, idx) && rq@ == req && idx == i
                } else {
                    p matches Plan::Respond(r) && r@ == spec_new_response(
                        405,
                        "method not allowed"@,
                    )
                }
            }
        }),
{
    if buf.len() == 0 {
        return Plan::Abandon;
    }
    let req = match Request::from_utf8(buf) {
        Ok(r) => r,
        Err(_) => {
            return Plan::Respond(Response::new(400, "bad request"));
        },
    };
    match Route::match_index(routes, req.path.as_str()) {
        None => {
            let r = not_found_handler(&req);
            Plan::Respond(r)
        },
        Some(i) => {
            proof {
                crate::router::law_first_match(routes@, req.path@);
            }
            if routes[i].has_method(req.method.as_str()) {
                Plan::Invoke(req, i)
            } else {
                let r = method_not_allowed_handler(&req);
                Plan::Respond(r)
            }
        },
    }
}

} // verus!
