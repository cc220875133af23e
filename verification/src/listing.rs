//! The browse and flatten handlers: read-only pass-through queries. Each
//! hands the collection service a decoded virtual path and passes the answer
//! through unchanged -- a listing on success, the translated status on
//! failure.

use vstd::prelude::*;

use crate::error::{domain_failure, status_for, DomainError, Failure, Status};
use crate::response::{Body, Response};

verus! {

/// One entry of a listing: a subdirectory of the library, or a media file,
/// each at its virtual path.
#[derive(Debug, PartialEq, Eq)]
pub enum Entry {
    Directory(Vec<u8>),
    Song(Vec<u8>),
}

/// The browse reply: the immediate children the collection reported, as a
/// structured success body; a collection failure keeps its kind and is
/// translated through the status table.
pub fn browse_reply(listed: Result<Vec<Entry>, DomainError>) -> (r: Result<Response, Failure>)
    ensures
        listed matches Ok(entries) ==> (r matches Ok(resp) && resp.status == Status::Success
            && resp.body == Body::Listing(entries) && resp.cookie is None),
        listed matches Err(e) ==> (r matches Err(f) && f.kind == Some(e) && f.status
            == status_for(e)),
{
    match listed {
        Ok(entries) => Ok(
            Response { status: Status::Success, body: Body::Listing(entries), cookie: None },
        ),
        Err(e) => Err(domain_failure(e)),
    }
}

/// The flatten reply: the recursive listing of every leaf under the path,
/// passed through exactly as the browse reply is.
pub fn flatten_reply(listed: Result<Vec<Entry>, DomainError>) -> (r: Result<Response, Failure>)
    ensures
        listed matches Ok(entries) ==> (r matches Ok(resp) && resp.status == Status::Success
            && resp.body == Body::Listing(entries) && resp.cookie is None),
        listed matches Err(e) ==> (r matches Err(f) && f.kind == Some(e) && f.status
            == status_for(e)),
{
    match listed {
        Ok(entries) => Ok(
            Response { status: Status::Success, body: Body::Listing(entries), cookie: None },
        ),
        Err(e) => Err(domain_failure(e)),
    }
}

/// A path the collection reports as outside its managed namespace is always
/// answered with Not Found: the browse and flatten replies translate the
/// kind through the status table, where it maps to Not Found, and the serve
/// dispatcher's locate stage answers Not Found for every locate failure.
pub proof fn lemma_unmanaged_path_is_not_found()
    ensures
        status_for(DomainError::PathNotInVfs) == Status::NotFound,
{
}

} // verus!
