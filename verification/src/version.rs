//! The version-info endpoint: an unauthenticated reply naming the protocol
//! version this gateway speaks.

use vstd::prelude::*;

use crate::error::Status;
use crate::response::{Body, Response};

verus! {

pub const CURRENT_MAJOR_VERSION: i32 = 1;

pub const CURRENT_MINOR_VERSION: i32 = 0;

/// A protocol version, major and minor.
#[derive(Clone, Copy, Debug, PartialEq, Eq, Structural)]
pub struct Version {
    pub major: i32,
    pub minor: i32,
}

impl Version {
    /// Build a version from its parts.
    pub fn new(major: i32, minor: i32) -> (v: Version)
        ensures
            v.major == major,
            v.minor == minor,
    {
        Version { major, minor }
    }
}

/// The version-info reply: success, the current version as the payload, no
/// cookie.
pub fn version_reply() -> (r: Response)
    ensures
        r.status == Status::Success,
        r.body matches Body::VersionInfo(v) && v.major == CURRENT_MAJOR_VERSION && v.minor
            == CURRENT_MINOR_VERSION,
        r.cookie is None,
{
    let current = Version::new(CURRENT_MAJOR_VERSION, CURRENT_MINOR_VERSION);
    Response { status: Status::Success, body: Body::VersionInfo(current), cookie: None }
}

} // verus!
