use imagequick::cache::{Event, PipelineError, Step, ThumbnailCache};
use imagequick::codec::DecodeError;
use imagequick::dispatch::{
    reject, respond, Handling, RequestDispatcher, STATUS_BAD_REQUEST, STATUS_OK,
    STATUS_SERVER_ERROR,
};
use imagequick::vpath::PathValidationError;

fn dispatcher() -> RequestDispatcher {
    let cache = ThumbnailCache::new("/Volumes/SD".to_string(), "/cache".to_string(), 400, 300);
    RequestDispatcher::new("/thumbnails".to_string(), cache)
}

fn rejected(virtual_path: &str) {
    match dispatcher().handle(virtual_path) {
        Handling::Rejected(response) => {
            assert_eq!(response.status, STATUS_BAD_REQUEST);
            assert!(response.body.is_empty());
        },
        other => panic!("expected a rejection of {virtual_path:?}, got {other:?}"),
    }
}

#[test]
fn route_takes_the_prefix_off() {
    let key = dispatcher().route("/thumbnails/DCIM/a.jpg").unwrap();
    assert_eq!(key.as_str(), "DCIM/a.jpg");
}

#[test]
fn route_normalises_what_remains() {
    let key = dispatcher().route("/thumbnails//DCIM/./x/../a.jpg").unwrap();
    assert_eq!(key.as_str(), "DCIM/a.jpg");
}

#[test]
fn route_refuses_other_prefixes() {
    let dispatcher = dispatcher();
    assert_eq!(dispatcher.route("/images/a.jpg").unwrap_err(), PathValidationError::UnknownRoute);
    assert_eq!(dispatcher.route("/thumbnailsX/a.jpg").unwrap_err(), PathValidationError::UnknownRoute);
    assert_eq!(dispatcher.route("/thumb").unwrap_err(), PathValidationError::UnknownRoute);
    assert_eq!(dispatcher.route("").unwrap_err(), PathValidationError::UnknownRoute);
}

#[test]
fn route_refuses_the_root() {
    let dispatcher = dispatcher();
    assert_eq!(dispatcher.route("/thumbnails").unwrap_err(), PathValidationError::NoFile);
    assert_eq!(dispatcher.route("/thumbnails/").unwrap_err(), PathValidationError::NoFile);
}

#[test]
fn route_refuses_paths_that_leave_the_volume() {
    let dispatcher = dispatcher();
    for path in ["/thumbnails/../etc/passwd", "/thumbnails/DCIM/../../x.jpg", "/thumbnails/../SD/a.jpg"] {
        assert_eq!(dispatcher.route(path).unwrap_err(), PathValidationError::EscapesRoot);
    }
}

#[test]
fn escaping_request_is_rejected_before_any_step() {
    rejected("/thumbnails/../../etc/passwd");
    rejected("/thumbnails/DCIM/../../secret.jpg");
    rejected("/elsewhere/a.jpg");
    rejected("/thumbnails/");
}

#[test]
fn accepted_request_begins_with_a_lookup_inside_the_cache() {
    match dispatcher().handle("/thumbnails/DCIM/x/../a.jpg") {
        Handling::Begun { key, mut generation, first } => {
            assert_eq!(key.as_str(), "DCIM/a.jpg");
            match first {
                Step::ReadCache { cache_path } => assert_eq!(cache_path, "/cache/DCIM/a.jpg"),
                other => panic!("expected a lookup, got {other:?}"),
            }
            match generation.advance(Event::CacheRead(None)) {
                Step::LoadSource { source_path, .. } => {
                    assert_eq!(source_path, "/Volumes/SD/DCIM/a.jpg")
                },
                other => panic!("expected a load, got {other:?}"),
            }
        },
        other => panic!("expected a fetch, got {other:?}"),
    }
}

#[test]
fn dispatcher_serves_from_its_cache() {
    assert_eq!(dispatcher().cache().cache_root(), "/cache");
}

#[test]
fn outcome_is_mapped_to_a_status() {
    let ok = respond(Ok(vec![9, 8, 7]));
    assert_eq!((ok.status, ok.body), (STATUS_OK, vec![9, 8, 7]));
    for error in [
        PipelineError::Decode(DecodeError::Unreadable),
        PipelineError::Store,
        PipelineError::OutOfTurn,
    ] {
        let failed = respond(Err(error));
        assert_eq!(failed.status, STATUS_SERVER_ERROR);
        assert!(failed.body.is_empty());
    }
    assert_eq!(reject().status, STATUS_BAD_REQUEST);
    assert_eq!((STATUS_OK, STATUS_BAD_REQUEST, STATUS_SERVER_ERROR), (200, 400, 500));
}

#[test]
fn virtual_path_leads_back_to_the_source() {
    let dispatcher = dispatcher();
    let path = dispatcher.virtual_path("/Volumes/SD/DCIM/a.jpg").unwrap();
    assert_eq!(path, "/thumbnails/DCIM/a.jpg");
    assert_eq!(dispatcher.route(&path).unwrap().as_str(), "DCIM/a.jpg");
    assert_eq!(dispatcher.virtual_path("/Volumes/Other/a.jpg"), None);
    assert_eq!(dispatcher.virtual_path("/Volumes/SD"), None);
    assert_eq!(dispatcher.virtual_path("/Volumes/SDX/a.jpg"), None);
}
