//! The serve dispatcher: a staged pipeline that resolves a virtual path to a
//! real file and selects how its bytes reach the client. The host performs
//! each collaborator call (locate, metadata read, thumbnail generation) and
//! hands the plain result to the next stage here, which makes the decision.

use vstd::prelude::*;

use crate::classify::{is_audio_name, is_image_name, is_image, is_song};
use crate::error::{
    domain_failure, metadata_status, status_for, status_of_metadata_error, DomainError, Failure,
    FsErrorKind, Status,
};
use crate::response::{Body, Response};

verus! {

/// The fixed maximum dimension every generated thumbnail is requested at.
pub const THUMBNAIL_MAX_DIMENSION: u32 = 400;

/// What the dispatcher asks for next: a terminal reply, or one thumbnail
/// generation before the final stage.
#[derive(Debug, PartialEq, Eq)]
pub enum ServeOutcome {
    Reply(Result<Response, Failure>),
    GenerateThumbnail { source: Vec<u8>, max_dimension: u32 },
}

/// Stage two of serve: the collection's answer to `locate`. The real path
/// passes through; every locate failure keeps its kind and is answered with
/// Not Found.
pub fn locate_reply(located: Result<Vec<u8>, DomainError>) -> (r: Result<Vec<u8>, Failure>)
    ensures
        located matches Ok(p) ==> (r matches Ok(q) && q == p),
        located matches Err(e) ==> (r matches Err(f) && f.kind == Some(e) && f.status
            == Status::NotFound),
{
    match located {
        Ok(p) => Ok(p),
        Err(e) => Err(Failure { kind: Some(e), status: Status::NotFound }),
    }
}

/// Stage three of serve: classify the resolved location once its metadata
/// was read. A failed read is mapped by its kind; a directory is Bad Request
/// and never a byte stream; a file on the audio allow-list is streamed raw;
/// one on the image allow-list asks for a thumbnail at the fixed maximum
/// dimension; anything else is an unsupported file type, Bad Request.
pub fn stat_reply(real_path: Vec<u8>, stat: Result<bool, FsErrorKind>) -> (r: ServeOutcome)
    ensures
        stat matches Err(k) ==> (r matches ServeOutcome::Reply(rep) && rep matches Err(f)
            && f.kind is None && f.status == metadata_status(k)),
        stat == Ok::<bool, FsErrorKind>(false) ==> (r matches ServeOutcome::Reply(rep)
            && rep matches Err(f) && f.kind == Some(DomainError::CannotServeDirectory) && f.status
            == Status::BadRequest),
        (stat == Ok::<bool, FsErrorKind>(true) && is_audio_name(real_path@)) ==> (r matches
            ServeOutcome::Reply(rep) && rep matches Ok(resp) && resp.status == Status::Success
            && resp.body == Body::FileContents(real_path) && resp.cookie is None),
        (stat == Ok::<bool, FsErrorKind>(true) && !is_audio_name(real_path@) && is_image_name(
            real_path@,
        )) ==> (r matches ServeOutcome::GenerateThumbnail { source, max_dimension } && source
            == real_path && max_dimension == THUMBNAIL_MAX_DIMENSION),
        (stat == Ok::<bool, FsErrorKind>(true) && !is_audio_name(real_path@) && !is_image_name(
            real_path@,
        )) ==> (r matches ServeOutcome::Reply(rep) && rep matches Err(f) && f.kind == Some(
            DomainError::UnsupportedFileType,
        ) && f.status == Status::BadRequest),
{
    match stat {
        Err(k) => ServeOutcome::Reply(
            Err(Failure { kind: None, status: status_of_metadata_error(k) }),
        ),
        Ok(false) => ServeOutcome::Reply(Err(domain_failure(DomainError::CannotServeDirectory))),
        Ok(true) => {
            if is_song(&real_path) {
                ServeOutcome::Reply(
                    Ok(
                        Response {
                            status: Status::Success,
                            body: Body::FileContents(real_path),
                            cookie: None,
                        },
                    ),
                )
            } else if is_image(&real_path) {
                ServeOutcome::GenerateThumbnail {
                    source: real_path,
                    max_dimension: THUMBNAIL_MAX_DIMENSION,
                }
            } else {
                ServeOutcome::Reply(Err(domain_failure(DomainError::UnsupportedFileType)))
            }
        },
    }
}

/// Stage four of serve, for image assets: the thumbnail collaborator's
/// answer. Its output location becomes the byte source of a success reply --
/// the raw image is never streamed; a failure keeps its kind and is
/// translated through the status table.
pub fn thumbnail_reply(generated: Result<Vec<u8>, DomainError>) -> (r: Result<Response, Failure>)
    ensures
        generated matches Ok(p) ==> (r matches Ok(resp) && resp.status == Status::Success
            && resp.body == Body::FileContents(p) && resp.cookie is None),
        generated matches Err(e) ==> (r matches Err(f) && f.kind == Some(e) && f.status
            == status_for(e)),
{
    match generated {
        Ok(p) => Ok(
            Response { status: Status::Success, body: Body::FileContents(p), cookie: None },
        ),
        Err(e) => Err(domain_failure(e)),
    }
}

} // verus!
