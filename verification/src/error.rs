//! The error translator: the closed set of domain failure kinds and the total
//! mapping from each kind to a transport status code.

use vstd::prelude::*;

verus! {

/// Transport-level status codes the gateway can answer with.
#[derive(Clone, Copy, Debug, PartialEq, Eq, Structural)]
pub enum Status {
    Success,
    BadRequest,
    Unauthorized,
    Forbidden,
    NotFound,
    InternalServerError,
}

/// The closed taxonomy of domain failures. Collaborators (collection index,
/// thumbnail generator) and the gateway's own stages produce these; the
/// translator consumes them. Any new kind must be given a status below.
#[derive(Clone, Copy, Debug, PartialEq, Eq, Structural)]
pub enum DomainError {
    Io,
    CannotClearExistingIndex,
    PathDecoding,
    ConfigDirectoryError,
    CacheDirectoryError,
    PathNotInVfs,
    CannotServeDirectory,
    UnsupportedFileType,
    AlbumArtSearchError,
    ImageProcessingError,
    UnsupportedMetadataFormat,
    MetadataDecodingError,
    Unauthorized,
    IncorrectCredentials,
}

/// The status assigned to each domain failure kind. Total over the taxonomy:
/// a kind reaching the transport always carries exactly this status.
pub open spec fn status_for(e: DomainError) -> Status {
    match e {
        DomainError::Io => Status::NotFound,
        DomainError::CannotClearExistingIndex => Status::InternalServerError,
        DomainError::PathDecoding => Status::InternalServerError,
        DomainError::ConfigDirectoryError => Status::InternalServerError,
        DomainError::CacheDirectoryError => Status::InternalServerError,
        DomainError::PathNotInVfs => Status::NotFound,
        DomainError::CannotServeDirectory => Status::BadRequest,
        DomainError::UnsupportedFileType => Status::BadRequest,
        DomainError::AlbumArtSearchError => Status::InternalServerError,
        DomainError::ImageProcessingError => Status::InternalServerError,
        DomainError::UnsupportedMetadataFormat => Status::InternalServerError,
        DomainError::MetadataDecodingError => Status::InternalServerError,
        DomainError::Unauthorized => Status::Unauthorized,
        DomainError::IncorrectCredentials => Status::BadRequest,
    }
}

/// Translate a domain failure kind to its transport status.
pub fn status_of(e: DomainError) -> (s: Status)
    ensures
        s == status_for(e),
{
    match e {
        DomainError::Io => Status::NotFound,
        DomainError::CannotClearExistingIndex => Status::InternalServerError,
        DomainError::PathDecoding => Status::InternalServerError,
        DomainError::ConfigDirectoryError => Status::InternalServerError,
        DomainError::CacheDirectoryError => Status::InternalServerError,
        DomainError::PathNotInVfs => Status::NotFound,
        DomainError::CannotServeDirectory => Status::BadRequest,
        DomainError::UnsupportedFileType => Status::BadRequest,
        DomainError::AlbumArtSearchError => Status::InternalServerError,
        DomainError::ImageProcessingError => Status::InternalServerError,
        DomainError::UnsupportedMetadataFormat => Status::InternalServerError,
        DomainError::MetadataDecodingError => Status::InternalServerError,
        DomainError::Unauthorized => Status::Unauthorized,
        DomainError::IncorrectCredentials => Status::BadRequest,
    }
}

/// The shape of a failed filesystem metadata read, as the serve dispatcher
/// distinguishes it: the backing file is missing, access to it was denied, or
/// anything else went wrong.
#[derive(Clone, Copy, Debug, PartialEq, Eq, Structural)]
pub enum FsErrorKind {
    NotFound,
    PermissionDenied,
    Other,
}

/// The status assigned to a failed metadata read, by its kind.
pub open spec fn metadata_status(k: FsErrorKind) -> Status {
    match k {
        FsErrorKind::NotFound => Status::NotFound,
        FsErrorKind::PermissionDenied => Status::Forbidden,
        FsErrorKind::Other => Status::InternalServerError,
    }
}

/// Translate a failed metadata read to its transport status.
pub fn status_of_metadata_error(k: FsErrorKind) -> (s: Status)
    ensures
        s == metadata_status(k),
{
    match k {
        FsErrorKind::NotFound => Status::NotFound,
        FsErrorKind::PermissionDenied => Status::Forbidden,
        FsErrorKind::Other => Status::InternalServerError,
    }
}

/// A terminal failed outcome for a request: the status sent to the client
/// plus, where the failure arose from the closed taxonomy, its kind.
#[derive(Clone, Copy, Debug, PartialEq, Eq)]
pub struct Failure {
    pub kind: Option<DomainError>,
    pub status: Status,
}

/// Build the failure a domain error kind is answered with: its translated
/// status, carrying the kind itself.
pub fn domain_failure(e: DomainError) -> (f: Failure)
    ensures
        f.kind == Some(e),
        f.status == status_for(e),
{
    Failure { kind: Some(e), status: status_of(e) }
}

} // verus!
