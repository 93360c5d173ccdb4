use vidserve::media::{content_type_for, has_video_extension, is_listed_extension, PathStyle};
use vidserve::registry::PathRegistry;
use vidserve::responder::{not_found, plan_read, plan_request, respond, HttpResponse, ReadPlan};
use vidserve::range::ByteRange;

fn fixture() -> Vec<u8> {
    (0..100u8).collect()
}

fn header<'a>(r: &'a HttpResponse, name: &str) -> Option<&'a str> {
    r.headers.iter().find(|(n, _)| n == name).map(|(_, v)| v.as_str())
}

/// Serves `file` the way the server does: resolve, plan, read, answer.
fn serve(reg: &PathRegistry, id: &str, file: &[u8], range: Option<&str>) -> HttpResponse {
    let path = match reg.resolve(id) {
        Some(p) => p,
        None => return not_found(),
    };
    let plan = plan_request(file.len() as u64, range);
    let data = match plan {
        ReadPlan::Unsatisfiable { .. } => None,
        _ => {
            let start = plan.offset() as usize;
            let end = start + plan.length() as usize;
            file.get(start..end).map(|s| s.to_vec())
        }
    };
    respond(&path, PathStyle::Posix, &plan, data)
}

#[test]
fn unknown_id_is_not_found() {
    let mut reg = PathRegistry::new();
    reg.register("/videos/fixture.mp4");
    let r = serve(&reg, "0123456789abcdef", &fixture(), None);
    assert_eq!(r.status, 404);
}

#[test]
fn ranged_request_is_partial() {
    let mut reg = PathRegistry::new();
    let id = reg.register("/videos/fixture.mp4");
    let r = serve(&reg, &id, &fixture(), Some("bytes=0-9"));
    assert_eq!(r.status, 206);
    assert_eq!(r.body.len(), 10);
    assert_eq!(r.body, (0..10u8).collect::<Vec<u8>>());
    assert_eq!(header(&r, "Content-Range"), Some("bytes 0-9/100"));
    assert_eq!(header(&r, "Content-Length"), Some("10"));
    assert_eq!(header(&r, "Accept-Ranges"), Some("bytes"));
    assert_eq!(header(&r, "Content-Type"), Some("video/mp4"));
    assert!(header(&r, "Cache-Control").is_some());
}

#[test]
fn full_request_is_ok() {
    let mut reg = PathRegistry::new();
    let id = reg.register("/videos/fixture.mp4");
    let r = serve(&reg, &id, &fixture(), None);
    assert_eq!(r.status, 200);
    assert_eq!(r.body.len(), 100);
    assert_eq!(header(&r, "Accept-Ranges"), Some("bytes"));
    assert_eq!(header(&r, "Content-Length"), Some("100"));
    assert_eq!(header(&r, "Content-Range"), None);
}

#[test]
fn malformed_range_serves_whole_file() {
    let mut reg = PathRegistry::new();
    let id = reg.register("/videos/fixture.webm");
    let r = serve(&reg, &id, &fixture(), Some("bytes=abc-def"));
    assert_eq!(r.status, 200);
    assert_eq!(r.body.len(), 100);
    assert_eq!(header(&r, "Content-Type"), Some("video/webm"));
}

#[test]
fn tail_range_is_clamped() {
    let mut reg = PathRegistry::new();
    let id = reg.register("/videos/fixture.mp4");
    let r = serve(&reg, &id, &fixture(), Some("bytes=90-500"));
    assert_eq!(r.status, 206);
    assert_eq!(r.body, (90..100u8).collect::<Vec<u8>>());
    assert_eq!(header(&r, "Content-Range"), Some("bytes 90-99/100"));
}

#[test]
fn range_past_end_is_refused() {
    let plan = plan_request(100, Some("bytes=150-"));
    assert_eq!(plan, ReadPlan::Unsatisfiable { total_length: 100 });
    let r = respond("/v.mp4", PathStyle::Posix, &plan, None);
    assert_eq!(r.status, 416);
    assert_eq!(header(&r, "Content-Range"), Some("bytes */100"));
    assert!(r.body.is_empty());
}

#[test]
fn short_read_is_an_internal_error() {
    let plan = plan_read(100, Some(ByteRange { start: 50, end_inclusive: 99, total_length: 100 }));
    assert_eq!(plan.offset(), 50);
    assert_eq!(plan.length(), 50);
    let r = respond("/v.mp4", PathStyle::Posix, &plan, Some(vec![0u8; 20]));
    assert_eq!(r.status, 500);
    assert!(r.body.is_empty());
    let r = respond("/v.mp4", PathStyle::Posix, &plan, None);
    assert_eq!(r.status, 500);
}

#[test]
fn content_types_by_extension() {
    assert_eq!(content_type_for("/a/b.mp4", PathStyle::Posix), "video/mp4");
    assert_eq!(content_type_for("/a/b.webm", PathStyle::Posix), "video/webm");
    assert_eq!(content_type_for("/a/b.MKV", PathStyle::Posix), "video/x-matroska");
    assert_eq!(content_type_for("/a/b.avi", PathStyle::Posix), "video/x-msvideo");
    assert_eq!(content_type_for("/a/b.Mov", PathStyle::Posix), "video/quicktime");
    assert_eq!(content_type_for("/a/b.flv", PathStyle::Posix), "video/x-flv");
    assert_eq!(content_type_for("C:\\a\\b.wmv", PathStyle::Windows), "video/x-ms-wmv");
    assert_eq!(content_type_for("/a/b.m4v", PathStyle::Posix), "video/x-m4v");
    assert_eq!(content_type_for("/a/b.txt", PathStyle::Posix), "video/mp4");
    assert_eq!(content_type_for("/a.mkv/b", PathStyle::Posix), "video/mp4");
    assert_eq!(content_type_for("noext", PathStyle::Posix), "video/mp4");
    assert_eq!(content_type_for("/a/b.tar.webm", PathStyle::Posix), "video/webm");
}

#[test]
fn video_extensions() {
    assert!(has_video_extension("/a/clip.MP4", PathStyle::Posix));
    assert!(has_video_extension("clip.m4v", PathStyle::Posix));
    assert!(!has_video_extension("clip.json", PathStyle::Posix));
    assert!(!has_video_extension("mp4", PathStyle::Posix));
    assert!(!has_video_extension("dir.mp4/clip", PathStyle::Posix));
}

#[test]
fn error_answers_advertise_ranges() {
    let r = not_found();
    assert_eq!(r.status, 404);
    assert_eq!(header(&r, "Accept-Ranges"), Some("bytes"));
    let plan = plan_read(100, None);
    let r = respond("/v.mp4", PathStyle::Posix, &plan, None);
    assert_eq!(r.status, 500);
    assert_eq!(header(&r, "Accept-Ranges"), Some("bytes"));
}

#[test]
fn huge_range_end_is_partial() {
    let mut reg = PathRegistry::new();
    let id = reg.register("/videos/fixture.mp4");
    let r = serve(&reg, &id, &fixture(), Some("bytes=95-99999999999999999999"));
    assert_eq!(r.status, 206);
    assert_eq!(r.body, (95..100u8).collect::<Vec<u8>>());
    assert_eq!(header(&r, "Content-Range"), Some("bytes 95-99/100"));
}

#[test]
fn hidden_file_has_no_extension() {
    assert!(!has_video_extension("/a/.mp4", PathStyle::Posix));
    assert!(!has_video_extension(".webm", PathStyle::Posix));
    assert_eq!(content_type_for("/a/.webm", PathStyle::Posix), "video/mp4");
    assert_eq!(content_type_for("/a/..webm", PathStyle::Posix), "video/webm");
}

#[test]
fn extension_is_lowercased_by_unicode_rules() {
    assert!(has_video_extension("/a/clip.m\u{212A}v", PathStyle::Posix));
    assert!(has_video_extension("/a/clip.MKV", PathStyle::Posix));
    assert!(!has_video_extension("/a/clip.mk", PathStyle::Posix));
    assert!(is_listed_extension("webm"));
    assert!(!is_listed_extension("WEBM"));
    assert!(!is_listed_extension("mp"));
}

#[test]
fn backslash_separates_on_windows_only() {
    assert!(has_video_extension("a\\.mp4", PathStyle::Posix));
    assert!(!has_video_extension("a\\.mp4", PathStyle::Windows));
    assert!(!has_video_extension("a.mp4\\clip", PathStyle::Windows));
    assert_eq!(content_type_for("dir.mkv\\clip", PathStyle::Posix), "video/mp4");
    assert_eq!(content_type_for("C:\\v\\b.webm", PathStyle::Posix), "video/webm");
}
