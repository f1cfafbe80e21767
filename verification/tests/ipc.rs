use std::path::Path;

use atomo_vfs::ipc::{
    error_response, home_uri, parse_single_range, plan_answer_as, plan_read, request_uri, respond,
    status_for_error, ReadPlan, Response, DEFAULT_MAX_READ,
};
use atomo_vfs::percent::encode_segment;
use atomo_vfs::request::{RequestAction, RequestReply, VfsRequest};
use atomo_vfs::types::{FileType, Stat};
use atomo_vfs::{VfsError, VfsUri};

fn uri(s: &str) -> VfsUri {
    VfsUri::parse(s).unwrap()
}

fn header<'a>(r: &'a Response, name: &str) -> Option<&'a str> {
    r.headers.iter().find(|h| h.0 == name).map(|h| h.1.as_str())
}

fn stat(size: u64) -> Stat {
    Stat {
        file_type: FileType::File,
        size,
        modified_ms: None,
        created_ms: None,
        readonly: false,
        symlink_target: None,
    }
}

#[test]
fn ranges_of_a_header() {
    assert_eq!(parse_single_range("bytes=0-4", 10), Some((0, 4)));
    assert_eq!(parse_single_range("bytes=5-", 10), Some((5, 9)));
    assert_eq!(parse_single_range("bytes=-3", 10), Some((7, 9)));
    assert_eq!(parse_single_range("bytes=-30", 10), Some((0, 9)));
    assert_eq!(parse_single_range("bytes=2-99", 10), Some((2, 9)));
    assert_eq!(parse_single_range("bytes= 1-2 , 5-6", 10), Some((1, 2)));
    assert_eq!(parse_single_range("bytes=+1-+2", 10), Some((1, 2)));
    assert_eq!(parse_single_range("bytes=9-9", 10), Some((9, 9)));
}

#[test]
fn ranges_that_are_none() {
    for h in [
        "", "bytes", "items=0-1", "Bytes=0-1", "bytes=", "bytes=5", "bytes=a-b", "bytes=10-11",
        "bytes=4-2", "bytes=-0", "bytes=-", "bytes=0-x", "bytes=0-99999999999999999999",
        "bytes=,0-1", "bytes=0- 1",
    ] {
        assert_eq!(parse_single_range(h, 10), None, "{h}");
    }
    assert_eq!(parse_single_range("bytes=0-0", 0), None);
    assert_eq!(parse_single_range("bytes=-1", 0), None);
}

#[test]
fn errors_have_a_status() {
    assert_eq!(status_for_error(&VfsError::NotFound(uri("mem:///"))), 404);
    assert_eq!(status_for_error(&VfsError::PermissionDenied(uri("mem:///"))), 403);
    assert_eq!(status_for_error(&VfsError::Cancelled), 500);
    let r = error_response(400, "é");
    assert_eq!(r.status, 400);
    assert_eq!(r.headers, vec![("content-type".to_string(), "text/plain; charset=utf-8".to_string())]);
    assert_eq!(r.body, "é".as_bytes().to_vec());
}

#[test]
fn a_path_names_its_uri() {
    let u = uri("mem://t/a b%2Fc");
    let path = format!("//{}", encode_segment(&u.to_string()));
    assert_eq!(request_uri(&path).unwrap(), u);
    let bad = request_uri("/%FF").unwrap_err();
    assert_eq!(bad.status, 400);
    assert_eq!(bad.body, b"invalid path encoding".to_vec());
    let bad = request_uri("/nothing").unwrap_err();
    assert_eq!(bad.status, 400);
    assert_eq!(bad.body, b"invalid uri: missing scheme separator: nothing".to_vec());
}

#[test]
fn answers_hold_their_headers() {
    let plan = plan_answer_as(Some("a/b".to_string()), 10, Some("bytes=2-4"));
    assert_eq!(plan.status, 206);
    assert_eq!(plan.range, Some((2, 5)));
    let r = respond(plan, vec![1, 2, 3]);
    assert_eq!(r.status, 206);
    assert_eq!(
        r.headers,
        vec![
            ("content-type".to_string(), "a/b".to_string()),
            ("accept-ranges".to_string(), "bytes".to_string()),
            ("content-length".to_string(), "3".to_string()),
            ("content-range".to_string(), "bytes 2-4/10".to_string()),
        ]
    );
    let plan = plan_answer_as(None, 10, Some("nonsense"));
    assert_eq!(plan.status, 200);
    assert_eq!(plan.range, None);
    let r = respond(plan, vec![]);
    assert_eq!(header(&r, "content-type"), Some("application/octet-stream"));
    assert_eq!(header(&r, "content-range"), None);
}

#[test]
fn a_request_is_answered_with_its_bytes() {
    let path = "/mem%3A%2F%2Ft%2Fa.txt";
    let (mut q, first) = VfsRequest::begin(path, Some("bytes=1-".to_string())).unwrap();
    assert!(matches!(first, RequestAction::Stat(u) if u == uri("mem://t/a.txt")));
    match q.step(RequestReply::Stat(Ok(stat(4)))) {
        RequestAction::Open(u, range) => {
            assert_eq!(u, uri("mem://t/a.txt"));
            assert_eq!(range, Some((1, 4)));
        }
        other => panic!("unexpected {other:?}"),
    }
    assert!(matches!(q.step(RequestReply::Opened(Ok(()))), RequestAction::NextChunk));
    let chunk = |b: &[u8]| RequestReply::Chunk(Some(Ok(b.to_vec())));
    assert!(matches!(q.step(chunk(b"b")), RequestAction::NextChunk));
    assert!(matches!(q.step(chunk(b"cd")), RequestAction::NextChunk));
    match q.step(RequestReply::Chunk(None)) {
        RequestAction::Respond(r) => {
            assert_eq!(r.status, 206);
            assert_eq!(header(&r, "content-type"), Some("text/plain"));
            assert_eq!(header(&r, "content-length"), Some("3"));
            assert_eq!(header(&r, "content-range"), Some("bytes 1-3/4"));
            assert_eq!(r.body, b"bcd".to_vec());
        }
        other => panic!("unexpected {other:?}"),
    }
}

#[test]
fn a_request_tells_its_faults() {
    assert_eq!(VfsRequest::begin("/x", None).unwrap_err().status, 400);
    let begin = || VfsRequest::begin("/mem%3A%2F%2Ft%2Fa", None).unwrap().0;
    let status = |a: RequestAction| match a {
        RequestAction::Respond(r) => (r.status, String::from_utf8(r.body).unwrap()),
        other => panic!("unexpected {other:?}"),
    };
    let gone = VfsError::NotFound(uri("mem://t/a"));
    let mut q = begin();
    assert_eq!(
        status(q.step(RequestReply::Stat(Err(gone)))),
        (404, "not found: mem://t/a".to_string())
    );
    let mut q = begin();
    q.step_as(RequestReply::Stat(Ok(stat(1))), Some("x/y".to_string()));
    let denied = VfsError::PermissionDenied(uri("mem://t/a"));
    assert_eq!(status(q.step(RequestReply::Opened(Err(denied)))).0, 403);
    let mut q = begin();
    q.step(RequestReply::Stat(Ok(stat(1))));
    q.step(RequestReply::Opened(Ok(())));
    assert_eq!(
        status(q.step(RequestReply::Chunk(Some(Err(VfsError::Cancelled))))),
        (500, "cancelled".to_string())
    );
}

#[test]
fn reads_through_a_command_are_limited() {
    assert_eq!(DEFAULT_MAX_READ, 16 * 1024 * 1024);
    assert_eq!(plan_read(None, None).unwrap(), ReadPlan::All(DEFAULT_MAX_READ));
    assert_eq!(plan_read(None, Some(5)).unwrap(), ReadPlan::All(5));
    assert_eq!(plan_read(Some((1, 6)), Some(5)).unwrap(), ReadPlan::Range(1, 6));
    assert!(matches!(plan_read(Some((1, 7)), Some(5)), Err(VfsError::TooLarge { limit: 5 })));
    assert_eq!(plan_read(Some((9, 1)), Some(0)).unwrap(), ReadPlan::Range(9, 1));
}

#[test]
fn the_home_directory_has_a_uri() {
    assert_eq!(home_uri(Some(Path::new("/home/x"))).unwrap(), uri("file:///home/x"));
    assert_eq!(
        home_uri(None).unwrap_err().to_string(),
        "io error: could not determine home directory"
    );
}
