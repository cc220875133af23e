//! The transport-level reply the gateway hands back for a request: a status,
//! a body, and at most one cookie to set.

use vstd::prelude::*;

use crate::error::Status;
use crate::listing::Entry;
use crate::version::Version;

verus! {

/// A cookie the response asks the client to hold. The gateway issues exactly
/// one kind: the session cookie, named for the session identity, carrying
/// the authenticated username, scoped to the whole path namespace.
#[derive(Debug, PartialEq, Eq)]
pub struct SessionCookie {
    pub name: String,
    pub value: String,
    pub path: String,
}

/// What a successful reply carries. `FileContents` names the real filesystem
/// location whose bytes form the body: the transport streams that file; this
/// core only selects the byte source.
#[derive(Debug, PartialEq, Eq)]
pub enum Body {
    Empty,
    VersionInfo(Version),
    Listing(Vec<Entry>),
    FileContents(Vec<u8>),
}

/// A successful reply.
#[derive(Debug, PartialEq, Eq)]
pub struct Response {
    pub status: Status,
    pub body: Body,
    pub cookie: Option<SessionCookie>,
}

} // verus!
