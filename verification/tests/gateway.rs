use media_gateway::credentials::{login_reply, parse_credentials, FormValue};
use media_gateway::error::{
    domain_failure, status_of, status_of_metadata_error, DomainError, FsErrorKind, Status,
};
use media_gateway::gate::{dispatch_request, requires_session, session_gate, Dispatch, Route};
use media_gateway::listing::{browse_reply, flatten_reply, Entry};
use media_gateway::response::Body;
use media_gateway::serve::{
    locate_reply, stat_reply, thumbnail_reply, ServeOutcome, THUMBNAIL_MAX_DIMENSION,
};
use media_gateway::version::{version_reply, CURRENT_MAJOR_VERSION, CURRENT_MINOR_VERSION};

#[test]
fn status_table_is_exhaustive_and_exact() {
    assert_eq!(status_of(DomainError::Io), Status::NotFound);
    assert_eq!(status_of(DomainError::CannotClearExistingIndex), Status::InternalServerError);
    assert_eq!(status_of(DomainError::PathDecoding), Status::InternalServerError);
    assert_eq!(status_of(DomainError::ConfigDirectoryError), Status::InternalServerError);
    assert_eq!(status_of(DomainError::CacheDirectoryError), Status::InternalServerError);
    assert_eq!(status_of(DomainError::PathNotInVfs), Status::NotFound);
    assert_eq!(status_of(DomainError::CannotServeDirectory), Status::BadRequest);
    assert_eq!(status_of(DomainError::UnsupportedFileType), Status::BadRequest);
    assert_eq!(status_of(DomainError::AlbumArtSearchError), Status::InternalServerError);
    assert_eq!(status_of(DomainError::ImageProcessingError), Status::InternalServerError);
    assert_eq!(status_of(DomainError::UnsupportedMetadataFormat), Status::InternalServerError);
    assert_eq!(status_of(DomainError::MetadataDecodingError), Status::InternalServerError);
    assert_eq!(status_of(DomainError::Unauthorized), Status::Unauthorized);
    assert_eq!(status_of(DomainError::IncorrectCredentials), Status::BadRequest);
}

#[test]
fn metadata_read_failures_map_by_kind() {
    assert_eq!(status_of_metadata_error(FsErrorKind::NotFound), Status::NotFound);
    assert_eq!(status_of_metadata_error(FsErrorKind::PermissionDenied), Status::Forbidden);
    assert_eq!(status_of_metadata_error(FsErrorKind::Other), Status::InternalServerError);
}

#[test]
fn domain_failure_carries_kind_and_status() {
    let f = domain_failure(DomainError::PathNotInVfs);
    assert_eq!(f.kind, Some(DomainError::PathNotInVfs));
    assert_eq!(f.status, Status::NotFound);
}

#[test]
fn only_version_and_auth_are_open_routes() {
    assert!(!requires_session(Route::Version));
    assert!(!requires_session(Route::Auth));
    assert!(requires_session(Route::Browse));
    assert!(requires_session(Route::Flatten));
    assert!(requires_session(Route::Serve));
}

#[test]
fn gate_rejects_protected_routes_without_cookie() {
    for route in [Route::Browse, Route::Flatten, Route::Serve] {
        let f = session_gate(route, false).unwrap_err();
        assert_eq!(f.status, Status::Unauthorized);
        assert_eq!(f.kind, Some(DomainError::Unauthorized));
    }
}

#[test]
fn gate_passes_with_cookie_or_open_route() {
    for route in [Route::Browse, Route::Flatten, Route::Serve] {
        assert!(session_gate(route, true).is_ok());
    }
    assert!(session_gate(Route::Version, false).is_ok());
    assert!(session_gate(Route::Auth, false).is_ok());
}

#[test]
fn dispatch_short_circuits_unauthorized_before_decoding() {
    // Even an undecodable path is never looked at without the session cookie.
    let segments = vec![b"%FF".to_vec()];
    match dispatch_request(Route::Serve, false, &segments) {
        Dispatch::Reply(Err(f)) => {
            assert_eq!(f.status, Status::Unauthorized);
            assert_eq!(f.kind, Some(DomainError::Unauthorized));
        }
        other => panic!("expected an immediate rejection, got {:?}", other),
    }
}

#[test]
fn dispatch_answers_version_without_cookie() {
    let segments: Vec<Vec<u8>> = vec![];
    match dispatch_request(Route::Version, false, &segments) {
        Dispatch::Reply(Ok(resp)) => {
            assert_eq!(resp.status, Status::Success);
            match resp.body {
                Body::VersionInfo(v) => {
                    assert_eq!(v.major, CURRENT_MAJOR_VERSION);
                    assert_eq!(v.minor, CURRENT_MINOR_VERSION);
                }
                other => panic!("expected a version payload, got {:?}", other),
            }
        }
        other => panic!("expected a version reply, got {:?}", other),
    }
}

#[test]
fn dispatch_hands_auth_to_the_credential_exchange() {
    let segments: Vec<Vec<u8>> = vec![];
    assert_eq!(dispatch_request(Route::Auth, false, &segments), Dispatch::Authenticate);
}

#[test]
fn dispatch_rejects_undecodable_path_as_bad_request() {
    let segments = vec![b"%FF".to_vec()];
    match dispatch_request(Route::Browse, true, &segments) {
        Dispatch::Reply(Err(f)) => {
            assert_eq!(f.status, Status::BadRequest);
            assert_eq!(f.kind, Some(DomainError::PathDecoding));
        }
        other => panic!("expected a decoding rejection, got {:?}", other),
    }
}

#[test]
fn dispatch_routes_decoded_paths_to_handlers() {
    let segments = vec![b"MusicLibrary".to_vec(), b"Artist".to_vec()];
    match dispatch_request(Route::Browse, true, &segments) {
        Dispatch::Browse(vp) => assert_eq!(vp.as_bytes().as_slice(), b"MusicLibrary\\Artist"),
        other => panic!("expected a browse dispatch, got {:?}", other),
    }
    match dispatch_request(Route::Flatten, true, &segments) {
        Dispatch::Flatten(vp) => assert_eq!(vp.as_bytes().as_slice(), b"MusicLibrary\\Artist"),
        other => panic!("expected a flatten dispatch, got {:?}", other),
    }
    match dispatch_request(Route::Serve, true, &segments) {
        Dispatch::Serve(vp) => assert_eq!(vp.as_bytes().as_slice(), b"MusicLibrary\\Artist"),
        other => panic!("expected a serve dispatch, got {:?}", other),
    }
}

#[test]
fn credentials_require_both_fields_as_strings() {
    let ok = parse_credentials(
        Some(FormValue::Text("alice".to_string())),
        Some(FormValue::Text("secret".to_string())),
    )
    .unwrap();
    assert_eq!(ok.username, "alice");
    assert_eq!(ok.password, "secret");

    let missing = parse_credentials(Some(FormValue::Text("alice".to_string())), None);
    let f = missing.unwrap_err();
    assert_eq!(f.status, Status::BadRequest);
    assert_eq!(f.kind, Some(DomainError::IncorrectCredentials));

    let wrong_shape =
        parse_credentials(Some(FormValue::Other), Some(FormValue::Text("secret".to_string())));
    assert_eq!(wrong_shape.unwrap_err().status, Status::BadRequest);
}

#[test]
fn successful_login_sets_the_session_cookie() {
    let resp = login_reply("alice".to_string(), true).unwrap();
    assert_eq!(resp.status, Status::Success);
    assert_eq!(resp.body, Body::Empty);
    let cookie = resp.cookie.expect("a session cookie must be set");
    assert_eq!(cookie.name, "username");
    assert_eq!(cookie.value, "alice");
    assert_eq!(cookie.path, "/");
}

#[test]
fn failed_login_sets_no_cookie_and_is_bad_request() {
    let f = login_reply("alice".to_string(), false).unwrap_err();
    assert_eq!(f.status, Status::BadRequest);
    assert_eq!(f.kind, Some(DomainError::IncorrectCredentials));
}

#[test]
fn browse_passes_the_listing_through() {
    let entries = vec![
        Entry::Directory(b"MusicLibrary\\Artist".to_vec()),
        Entry::Song(b"MusicLibrary\\Song.mp3".to_vec()),
    ];
    let expected = vec![
        Entry::Directory(b"MusicLibrary\\Artist".to_vec()),
        Entry::Song(b"MusicLibrary\\Song.mp3".to_vec()),
    ];
    let resp = browse_reply(Ok(entries)).unwrap();
    assert_eq!(resp.status, Status::Success);
    assert_eq!(resp.body, Body::Listing(expected));
    assert!(resp.cookie.is_none());
}

#[test]
fn flatten_passes_the_listing_through() {
    let entries = vec![Entry::Song(b"MusicLibrary\\a\\b.mp3".to_vec())];
    let expected = vec![Entry::Song(b"MusicLibrary\\a\\b.mp3".to_vec())];
    let resp = flatten_reply(Ok(entries)).unwrap();
    assert_eq!(resp.body, Body::Listing(expected));
}

#[test]
fn unmanaged_paths_are_not_found_everywhere() {
    let b = browse_reply(Err(DomainError::PathNotInVfs)).unwrap_err();
    assert_eq!(b.status, Status::NotFound);
    let fl = flatten_reply(Err(DomainError::PathNotInVfs)).unwrap_err();
    assert_eq!(fl.status, Status::NotFound);
    let s = locate_reply(Err(DomainError::PathNotInVfs)).unwrap_err();
    assert_eq!(s.status, Status::NotFound);
}

#[test]
fn locate_passes_the_real_path_through() {
    let real = locate_reply(Ok(b"/media/Artist/Song.flac".to_vec())).unwrap();
    assert_eq!(real.as_slice(), b"/media/Artist/Song.flac");
}

#[test]
fn every_locate_failure_is_not_found() {
    let f = locate_reply(Err(DomainError::Io)).unwrap_err();
    assert_eq!(f.status, Status::NotFound);
    assert_eq!(f.kind, Some(DomainError::Io));
}

#[test]
fn stat_failure_statuses_follow_the_kind() {
    for (kind, status) in [
        (FsErrorKind::NotFound, Status::NotFound),
        (FsErrorKind::PermissionDenied, Status::Forbidden),
        (FsErrorKind::Other, Status::InternalServerError),
    ] {
        match stat_reply(b"/media/Song.mp3".to_vec(), Err(kind)) {
            ServeOutcome::Reply(Err(f)) => {
                assert_eq!(f.status, status);
                assert_eq!(f.kind, None);
            }
            other => panic!("expected a failure reply, got {:?}", other),
        }
    }
}

#[test]
fn directories_are_never_served() {
    match stat_reply(b"/media/Artist".to_vec(), Ok(false)) {
        ServeOutcome::Reply(Err(f)) => {
            assert_eq!(f.status, Status::BadRequest);
            assert_eq!(f.kind, Some(DomainError::CannotServeDirectory));
        }
        other => panic!("expected a bad-request reply, got {:?}", other),
    }
}

#[test]
fn audio_files_are_streamed_raw() {
    match stat_reply(b"/media/Artist/Song.flac".to_vec(), Ok(true)) {
        ServeOutcome::Reply(Ok(resp)) => {
            assert_eq!(resp.status, Status::Success);
            assert_eq!(resp.body, Body::FileContents(b"/media/Artist/Song.flac".to_vec()));
            assert!(resp.cookie.is_none());
        }
        other => panic!("expected a raw byte stream, got {:?}", other),
    }
}

#[test]
fn image_files_ask_for_a_thumbnail_at_the_fixed_dimension() {
    match stat_reply(b"/media/Artist/Cover.jpg".to_vec(), Ok(true)) {
        ServeOutcome::GenerateThumbnail { source, max_dimension } => {
            assert_eq!(source.as_slice(), b"/media/Artist/Cover.jpg");
            assert_eq!(max_dimension, 400);
            assert_eq!(max_dimension, THUMBNAIL_MAX_DIMENSION);
        }
        other => panic!("expected a thumbnail request, got {:?}", other),
    }
}

#[test]
fn thumbnail_output_becomes_the_byte_source() {
    let resp = thumbnail_reply(Ok(b"/cache/thumbnails/Cover.jpg".to_vec())).unwrap();
    assert_eq!(resp.status, Status::Success);
    assert_eq!(resp.body, Body::FileContents(b"/cache/thumbnails/Cover.jpg".to_vec()));
}

#[test]
fn thumbnail_failures_are_translated() {
    let f = thumbnail_reply(Err(DomainError::ImageProcessingError)).unwrap_err();
    assert_eq!(f.status, Status::InternalServerError);
    let f = thumbnail_reply(Err(DomainError::AlbumArtSearchError)).unwrap_err();
    assert_eq!(f.status, Status::InternalServerError);
}

#[test]
fn unsupported_file_types_are_bad_requests() {
    match stat_reply(b"/media/notes.txt".to_vec(), Ok(true)) {
        ServeOutcome::Reply(Err(f)) => {
            assert_eq!(f.status, Status::BadRequest);
            assert_eq!(f.kind, Some(DomainError::UnsupportedFileType));
        }
        other => panic!("expected a bad-request reply, got {:?}", other),
    }
}

#[test]
fn version_reply_reports_the_current_version() {
    let resp = version_reply();
    assert_eq!(resp.status, Status::Success);
    match resp.body {
        Body::VersionInfo(v) => {
            assert_eq!(v.major, 1);
            assert_eq!(v.minor, 0);
        }
        other => panic!("expected a version payload, got {:?}", other),
    }
    assert!(resp.cookie.is_none());
}

#[test]
fn serving_an_encoded_flac_path_streams_the_file() {
    // A full serve pipeline: decode, locate, stat, classify, stream.
    let segments = vec![b"MusicLibrary%5CArtist%5CSong.flac".to_vec()];
    let vp = match dispatch_request(Route::Serve, true, &segments) {
        Dispatch::Serve(vp) => vp,
        other => panic!("expected a serve dispatch, got {:?}", other),
    };
    assert_eq!(vp.as_bytes().as_slice(), b"MusicLibrary\\Artist\\Song.flac");
    let real = locate_reply(Ok(b"/media/Artist/Song.flac".to_vec())).unwrap();
    match stat_reply(real, Ok(true)) {
        ServeOutcome::Reply(Ok(resp)) => {
            assert_eq!(resp.status, Status::Success);
            assert_eq!(resp.body, Body::FileContents(b"/media/Artist/Song.flac".to_vec()));
        }
        other => panic!("expected a raw byte stream, got {:?}", other),
    }
}

#[test]
fn serving_an_encoded_jpg_path_streams_the_thumbnail() {
    let segments = vec![b"MusicLibrary%5CArtist%5CCover.jpg".to_vec()];
    let vp = match dispatch_request(Route::Serve, true, &segments) {
        Dispatch::Serve(vp) => vp,
        other => panic!("expected a serve dispatch, got {:?}", other),
    };
    assert_eq!(vp.as_bytes().as_slice(), b"MusicLibrary\\Artist\\Cover.jpg");
    let real = locate_reply(Ok(b"/media/Artist/Cover.jpg".to_vec())).unwrap();
    let (source, dim) = match stat_reply(real, Ok(true)) {
        ServeOutcome::GenerateThumbnail { source, max_dimension } => (source, max_dimension),
        other => panic!("expected a thumbnail request, got {:?}", other),
    };
    assert_eq!(dim, 400);
    assert_eq!(source.as_slice(), b"/media/Artist/Cover.jpg");
    let resp = thumbnail_reply(Ok(b"/cache/Cover-400.jpg".to_vec())).unwrap();
    assert_eq!(resp.status, Status::Success);
    assert_eq!(resp.body, Body::FileContents(b"/cache/Cover-400.jpg".to_vec()));
}
