use broll_rs::services::downloader::{direct_destination, ytdlp_template};
use broll_rs::services::downloader::project_dir;
use broll_rs::models::DownloadRequest;
use broll_rs::services::downloader::{
    direct_file_name, download_method, ext_from_url, find_with_prefix, safe_file_id,
    ytdlp_download_args, ytdlp_output_name, DownloadAction, DownloadEvent, DownloadJob,
    DownloadMethod, DownloadStage,
};

#[test]
fn ext_from_simple_url() {
    assert_eq!(ext_from_url("https://example.com/video.mp4"), "mp4");
}

#[test]
fn ext_from_url_with_query_string() {
    assert_eq!(ext_from_url("https://example.com/video.webm?token=abc"), "webm");
}

#[test]
fn ext_from_url_no_extension() {
    assert_eq!(ext_from_url("https://example.com/video"), "mp4");
}

#[test]
fn ext_from_url_long_extension_falls_back() {
    // ".download" is 8 chars, longer than 4 → fallback to "mp4"
    assert_eq!(ext_from_url("https://example.com/video.download"), "mp4");
}

#[test]
fn ext_from_url_mov() {
    assert_eq!(ext_from_url("https://cdn.example.com/clip.mov"), "mov");
}

#[test]
fn ext_from_url_counts_bytes() {
    // "éé" is 4 bytes, "ééé" is 6 bytes
    assert_eq!(ext_from_url("https://x.org/a.éé"), "éé");
    assert_eq!(ext_from_url("https://x.org/a.ééé"), "mp4");
    assert_eq!(ext_from_url("noext"), "mp4");
    assert_eq!(ext_from_url("abc"), "abc");
    assert_eq!(ext_from_url("a.mp4?x=1.verylong"), "mp4");
    assert_eq!(ext_from_url("clip."), "");
}

#[test]
fn file_names() {
    assert_eq!(safe_file_id("a/b/c"), "a_b_c");
    assert_eq!(direct_file_name("https://example.com/video.webm?t=1", "x/y"), "x_y.webm");
    assert_eq!(ytdlp_output_name("yt/1"), "yt_1.%(ext)s");
}

#[test]
fn download_args() {
    assert_eq!(
        ytdlp_download_args("http://u", "/d/x.%(ext)s", None),
        vec![
            "http://u",
            "-o",
            "/d/x.%(ext)s",
            "--no-playlist",
            "--quiet",
            "--merge-output-format",
            "mp4",
            "-f",
            "bestvideo[height<=1080]+bestaudio/best[height<=1080]/best",
        ]
    );
    let with = ytdlp_download_args("http://u", "t", Some("chrome"));
    assert_eq!(&with[9..], &["--cookies-from-browser", "chrome"]);
}

#[test]
fn find_with_prefix_first_match() {
    let names: Vec<String> = vec!["xyz999.mp4".into(), "abc123.mp4".into(), "abc123.webm".into()];
    assert_eq!(find_with_prefix(&names, "abc123"), Some(1));
    assert_eq!(find_with_prefix(&names, "nope"), None);
    assert_eq!(find_with_prefix(&Vec::new(), "abc"), None);
}

#[test]
fn methods_by_source() {
    assert_eq!(download_method("youtube"), DownloadMethod::YtDlp);
    assert_eq!(download_method("archive"), DownloadMethod::Archive);
    assert_eq!(download_method("pexels"), DownloadMethod::Direct);
    assert_eq!(download_method("YouTube"), DownloadMethod::Direct);
}

fn request(source: &str) -> DownloadRequest {
    DownloadRequest {
        id: "vid-1".into(),
        title: "T".into(),
        source: source.into(),
        download_url: "https://example.com/v.mp4".into(),
        thumbnail: None,
        duration: None,
        project_id: Some("p1".into()),
    }
}

#[test]
fn job_runs_to_complete() {
    let mut job = DownloadJob::new(request("archive"));
    assert!(matches!(job.step(DownloadEvent::Begin), DownloadAction::MarkDownloading(Some(ref p)) if p == "p1"));
    assert!(matches!(job.step(DownloadEvent::DirResolved("/d/p".into())), DownloadAction::CreateDir(ref d) if d == "/d/p"));
    match job.step(DownloadEvent::DirCreated) {
        DownloadAction::Fetch { method, url, dir, id } => {
            assert_eq!(method, DownloadMethod::Archive);
            assert_eq!(url, "https://example.com/v.mp4");
            assert_eq!(dir, "/d/p");
            assert_eq!(id, "vid-1");
        }
        other => panic!("unexpected {other:?}"),
    }
    assert!(matches!(job.step(DownloadEvent::Fetched("/d/p/vid-1.mp4".into())), DownloadAction::MarkComplete(ref p) if p == "/d/p/vid-1.mp4"));
    assert!(matches!(job.stage, DownloadStage::Complete(_)));
    assert!(matches!(job.step(DownloadEvent::Begin), DownloadAction::Nothing));
    assert!(matches!(job.stage, DownloadStage::Complete(_)));
}

#[test]
fn job_records_failure() {
    let mut job = DownloadJob::new(request("pexels"));
    job.step(DownloadEvent::Begin);
    job.step(DownloadEvent::DirResolved("/d".into()));
    job.step(DownloadEvent::DirCreated);
    match job.step(DownloadEvent::FetchFailed("HTTP 404".into())) {
        DownloadAction::RecordFailure(m) => assert_eq!(m, "Download failed for vid-1: HTTP 404"),
        other => panic!("unexpected {other:?}"),
    }
    assert!(matches!(job.stage, DownloadStage::Failed));
}

#[test]
fn job_fails_when_dir_cannot_be_made() {
    let mut job = DownloadJob::new(request("pexels"));
    job.step(DownloadEvent::Begin);
    job.step(DownloadEvent::DirResolved("/root-only".into()));
    assert!(matches!(job.step(DownloadEvent::DirFailed), DownloadAction::MarkError));
    assert!(matches!(job.stage, DownloadStage::Failed));
    // An event that does not fit the stage changes nothing.
    let mut fresh = DownloadJob::new(request("pexels"));
    assert!(matches!(fresh.step(DownloadEvent::DirCreated), DownloadAction::Nothing));
    assert!(matches!(fresh.stage, DownloadStage::Queued));
}

#[test]
fn project_directories() {
    assert_eq!(project_dir("/tmp/broll-test", None), "/tmp/broll-test");
    assert_eq!(project_dir("/tmp/broll-test", Some("nature-docs".into())), "/tmp/broll-test/nature-docs");
    assert_eq!(project_dir("downloads/", Some("ocean-b-roll".into())), "downloads/ocean-b-roll");
}

#[test]
fn joined_download_paths() {
    assert_eq!(ytdlp_template("/tmp/d", "yt/1"), "/tmp/d/yt_1.%(ext)s");
    assert_eq!(direct_destination("/tmp/d", "https://example.com/video.webm?t=1", "x"), "/tmp/d/x.webm");
}
