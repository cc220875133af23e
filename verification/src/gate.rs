//! Session gate and router. Every route except version-info and login is
//! protected; a request without the session cookie is rejected Unauthorized
//! before anything downstream runs: no path is decoded and no collaborator
//! is consulted. Presence of the cookie is all that is asked; its issuance
//! is trusted.

use vstd::prelude::*;
use vstd::utf8::valid_utf8;

use crate::decode::{decode_reply, decoded_request_path, views_of, VirtualPath};
use crate::error::{domain_failure, DomainError, Failure, Status};
use crate::response::{Body, Response};
use crate::version::{version_reply, CURRENT_MAJOR_VERSION, CURRENT_MINOR_VERSION};

verus! {

/// The routes the gateway exposes.
#[derive(Clone, Copy, Debug, PartialEq, Eq, Structural)]
pub enum Route {
    Version,
    Auth,
    Browse,
    Flatten,
    Serve,
}

/// The routes the session gate protects: all but version-info and login,
/// which are unauthenticated by design.
pub open spec fn spec_requires_session(r: Route) -> bool {
    !(r is Version || r is Auth)
}

/// Whether a route sits behind the session gate.
pub fn requires_session(r: Route) -> (b: bool)
    ensures
        b == spec_requires_session(r),
{
    match r {
        Route::Version | Route::Auth => false,
        Route::Browse | Route::Flatten | Route::Serve => true,
    }
}

/// Per request, authorized when the session cookie is present or the route
/// is open; rejected otherwise. A rejection is terminal and carries the
/// Unauthorized mapping.
pub fn session_gate(route: Route, has_session_cookie: bool) -> (r: Result<(), Failure>)
    ensures
        r is Ok <==> (has_session_cookie || !spec_requires_session(route)),
        r matches Err(f) ==> (f.kind == Some(DomainError::Unauthorized) && f.status
            == Status::Unauthorized),
{
    if requires_session(route) && !has_session_cookie {
        Err(domain_failure(DomainError::Unauthorized))
    } else {
        Ok(())
    }
}

/// What the router asks the host to do for a request: answer at once, run
/// the credential exchange, or hand a decoded virtual path to one of the
/// collection-backed handlers.
#[derive(Debug, PartialEq, Eq)]
pub enum Dispatch {
    Reply(Result<Response, Failure>),
    Authenticate,
    Browse(VirtualPath),
    Flatten(VirtualPath),
    Serve(VirtualPath),
}

/// The router. Version-info is answered on the spot; login is handed to the
/// credential exchange; every other route passes the session gate first --
/// a request without the session cookie is answered Unauthorized at once,
/// before its path is decoded and before any collaborator could be named --
/// and then has its path decoded, a decoding failure being Bad Request.
pub fn dispatch_request(route: Route, has_session_cookie: bool, segments: &Vec<Vec<u8>>) -> (d:
    Dispatch)
    ensures
        ({
            let dec = decoded_request_path(views_of(segments@));
            &&& (spec_requires_session(route) && !has_session_cookie) ==> (d matches
                Dispatch::Reply(rep) && rep matches Err(f) && f.kind == Some(
                DomainError::Unauthorized,
            ) && f.status == Status::Unauthorized)
            &&& route is Version ==> (d matches Dispatch::Reply(rep) && rep matches Ok(resp)
                && resp.body matches Body::VersionInfo(v) && resp.status == Status::Success
                && v.major == CURRENT_MAJOR_VERSION && v.minor == CURRENT_MINOR_VERSION)
            &&& route is Auth ==> d is Authenticate
            &&& (spec_requires_session(route) && has_session_cookie && !valid_utf8(dec)) ==> (
            d matches Dispatch::Reply(rep) && rep matches Err(f) && f.kind == Some(
                DomainError::PathDecoding,
            ) && f.status == Status::BadRequest)
            &&& (route is Browse && has_session_cookie && valid_utf8(dec)) ==> (d matches
                Dispatch::Browse(vp) && vp@ == dec)
            &&& (route is Flatten && has_session_cookie && valid_utf8(dec)) ==> (d matches
                Dispatch::Flatten(vp) && vp@ == dec)
            &&& (route is Serve && has_session_cookie && valid_utf8(dec)) ==> (d matches
                Dispatch::Serve(vp) && vp@ == dec)
        }),
{
    match route {
        Route::Version => Dispatch::Reply(Ok(version_reply())),
        Route::Auth => Dispatch::Authenticate,
        Route::Browse | Route::Flatten | Route::Serve => {
            match session_gate(route, has_session_cookie) {
                Err(f) => Dispatch::Reply(Err(f)),
                Ok(_) => match decode_reply(segments) {
                    Err(f) => Dispatch::Reply(Err(f)),
                    Ok(vp) => match route {
                        Route::Browse => Dispatch::Browse(vp),
                        Route::Flatten => Dispatch::Flatten(vp),
                        _ => Dispatch::Serve(vp),
                    },
                },
            }
        },
    }
}

} // verus!
