use broll_rs::error::AppError;
use broll_rs::models::{CreateProjectRequest, DownloadRequest, LibraryVideo, SearchParams, VideoResult};
use broll_rs::routes::download::{plan_start, retry_outcome, retry_request, start_plan, status_outcome, StartPlan};
use broll_rs::routes::library::{delete_outcome, download_headers, file_missing, file_to_serve, tags_outcome};
use broll_rs::routes::projects::{delete_outcome as project_delete_outcome, insert_error, new_project, project_record};
use broll_rs::routes::search::{combine_results, plan_search};

fn record(id: &str, status: &str) -> LibraryVideo {
    LibraryVideo {
        id: id.into(),
        title: "Done".into(),
        source: "pexels".into(),
        filepath: Some("/d/done.mp4".into()),
        duration: None,
        tags: None,
        thumbnail: None,
        original_url: Some("https://example.com/done.mp4".into()),
        status: status.into(),
        project_id: None,
        project_name: None,
        created_at: "2024-01-01".into(),
    }
}

fn request(id: &str) -> DownloadRequest {
    DownloadRequest {
        id: id.into(),
        title: "Sample Video".into(),
        source: "pexels".into(),
        download_url: "https://example.com/video.mp4".into(),
        thumbnail: None,
        duration: Some(30.0f64.to_bits()),
        project_id: None,
    }
}

#[test]
fn start_existing_complete_returns_existing() {
    match plan_start(Some(record("done-vid", "complete")), request("done-vid"), "now".into()) {
        StartPlan::Existing(rec) => assert_eq!(rec.status, "complete"),
        other => panic!("unexpected {other:?}"),
    }
}

#[test]
fn start_existing_incomplete_resets() {
    let mut req = request("v");
    req.project_id = Some("p9".into());
    match plan_start(Some(record("v", "error")), req, "now".into()) {
        StartPlan::Reset { id, status, project_id } => {
            assert_eq!(id, "v");
            assert_eq!(status, "pending");
            assert_eq!(project_id.as_deref(), Some("p9"));
        }
        other => panic!("unexpected {other:?}"),
    }
}

#[test]
fn start_new_inserts_pending_row() {
    match plan_start(None, request("vid-abc-123"), "2024-05-05T00:00:00+00:00".into()) {
        StartPlan::Insert(v) => {
            assert_eq!(v.id, "vid-abc-123");
            assert_eq!(v.status, "pending");
            assert_eq!(v.original_url, "https://example.com/video.mp4");
            assert_eq!(v.duration.map(f64::from_bits), Some(30.0));
            assert_eq!(v.created_at, "2024-05-05T00:00:00+00:00");
        }
        other => panic!("unexpected {other:?}"),
    }
    match start_plan(None, request("x")) {
        StartPlan::Insert(v) => {
            assert!(v.created_at.ends_with("+00:00"));
            assert_eq!(&v.created_at[10..11], "T");
        }
        other => panic!("unexpected {other:?}"),
    }
}

#[test]
fn download_status_not_found_and_found() {
    match status_outcome("nonexistent-id", None) {
        Err(e) => {
            assert_eq!(e.status_code(), 404);
            assert_eq!(e.message(), "No download record for id=nonexistent-id");
        }
        Ok(_) => panic!("expected not found"),
    }
    let s = status_outcome("x", Some(("x".into(), "pending".into(), None))).unwrap();
    assert_eq!(s.status, "pending");
}

#[test]
fn retry_outcomes() {
    assert_eq!(retry_outcome("nonexistent-id", None).unwrap_err().status_code(), 404);
    assert_eq!(
        retry_outcome("ok-vid", Some(("complete".into(), Some("https://example.com/v.mp4".into())))).unwrap_err().status_code(),
        400
    );
    assert_eq!(retry_outcome("no-url-vid", Some(("error".into(), None))).unwrap_err().status_code(), 400);
    let plan = retry_outcome("fail-vid", Some(("error".into(), Some("https://example.com/v.mp4".into())))).unwrap();
    assert_eq!(plan.url, "https://example.com/v.mp4");
    assert_eq!(plan.status, "pending");
    let req = retry_request(record("fail-vid", "error"), "https://example.com/v.mp4".into());
    assert_eq!(req.id, "fail-vid");
    assert_eq!(req.download_url, "https://example.com/v.mp4");
}

#[test]
fn library_outcomes() {
    let e = delete_outcome("nonexistent-id", None).unwrap_err();
    assert_eq!(e.status_code(), 404);
    assert_eq!(e.message(), "id=nonexistent-id");
    assert_eq!(delete_outcome("v3", Some(None)).unwrap(), None);
    assert_eq!(tags_outcome("nonexistent-id", 0).unwrap_err().status_code(), 404);
    assert!(tags_outcome("v2", 1).is_ok());
    assert_eq!(file_to_serve(None).unwrap_err().message(), "File not found");
    assert_eq!(file_to_serve(Some(None)).unwrap_err().status_code(), 404);
    assert_eq!(file_to_serve(Some(Some("/a/b.mp4".into()))).unwrap(), "/a/b.mp4");
    assert_eq!(file_missing().message(), "File missing from disk");
}

#[test]
fn serve_headers() {
    let h = download_headers("/downloads/nature/clip.mp4");
    assert_eq!(h[0], ("content-type".to_string(), "video/mp4".to_string()));
    assert_eq!(h[1].1, "attachment; filename=\"clip.mp4\"");
    assert_eq!(download_headers("/downloads/..")[1].1, "attachment; filename=\"video.mp4\"");
}

#[test]
fn create_project_success() {
    let p = new_project(&CreateProjectRequest { name: "Nature Docs".into() }).unwrap();
    assert_eq!(p.slug, "nature-docs");
    assert_eq!(p.name, "Nature Docs");
    assert_eq!(p.id.len(), 36);
    assert!(p.created_at.ends_with("+00:00"));
}

#[test]
fn create_project_empty_name_returns_400() {
    let e = new_project(&CreateProjectRequest { name: "   ".into() }).unwrap_err();
    assert_eq!(e.status_code(), 400);
    assert_eq!(e.message(), "Project name cannot be empty");
}

#[test]
fn create_project_special_chars_only_returns_400() {
    let e = new_project(&CreateProjectRequest { name: "!!!".into() }).unwrap_err();
    assert_eq!(e.status_code(), 400);
    assert_eq!(e.message(), "Project name produces an empty slug");
}

#[test]
fn project_record_fields() {
    let p = project_record("  Temp Project ", "id-1".into(), "t".into()).unwrap();
    assert_eq!((p.id.as_str(), p.name.as_str(), p.slug.as_str(), p.created_at.as_str()), ("id-1", "Temp Project", "temp-project", "t"));
}

#[test]
fn create_duplicate_project_returns_400() {
    let e = insert_error("UNIQUE constraint failed: projects.name".into(), "Unique Project");
    assert_eq!(e.status_code(), 400);
    assert_eq!(e.message(), "Project 'Unique Project' already exists");
    assert!(matches!(insert_error("disk I/O error".into(), "x"), AppError::Sqlx(ref m) if m == "disk I/O error"));
}

#[test]
fn delete_project_not_found() {
    let e = project_delete_outcome("nonexistent-id", 0).unwrap_err();
    assert_eq!(e.status_code(), 404);
    assert_eq!(e.message(), "Project id=nonexistent-id");
    assert!(project_delete_outcome("p", 1).is_ok());
}

#[test]
fn search_plan_sources() {
    let p = plan_search(&SearchParams { q: "  nature ".into(), sources: Some("pexels,pixabay".into()) });
    assert_eq!(p.query, "nature");
    assert!(p.pexels && p.pixabay && !p.archive && !p.youtube);
    let all = plan_search(&SearchParams { q: "x".into(), sources: None });
    assert!(all.pexels && all.pixabay && all.archive && all.youtube);
}

fn result(id: &str) -> VideoResult {
    VideoResult {
        id: id.into(),
        title: String::new(),
        source: String::new(),
        duration: None,
        thumbnail: None,
        preview_url: None,
        download_url: None,
        license: None,
        width: None,
        height: None,
    }
}

#[test]
fn combine_keeps_source_order() {
    let all = vec![vec![result("a"), result("b")], vec![], vec![result("c")]];
    let ids: Vec<String> = combine_results(all).into_iter().map(|r| r.id).collect();
    assert_eq!(ids, vec!["a", "b", "c"]);
}
