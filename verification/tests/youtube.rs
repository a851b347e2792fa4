use broll_rs::services::youtube::{output_lines, yt_result, ytdlp_search_args, YtInfo, YtThumb};

fn info(id: &str) -> YtInfo {
    YtInfo { id: id.into(), title: None, duration: None, thumbnail: None, webpage_url: None, thumbnails: None }
}

#[test]
fn yt_result_full_fields() {
    let r = yt_result(YtInfo {
        id: "123".into(),
        title: Some("Test Video".into()),
        duration: Some(120.5f64.to_bits()),
        thumbnail: Some("http://thumb".into()),
        webpage_url: Some("http://watch".into()),
        thumbnails: None,
    });
    assert_eq!(r.id, "youtube_123");
    assert_eq!(r.title, "Test Video");
    assert_eq!(r.duration.map(f64::from_bits), Some(120.5));
    assert_eq!(r.thumbnail.as_deref(), Some("http://thumb"));
    assert_eq!(r.download_url.as_deref(), Some("http://watch"));
    assert_eq!(r.preview_url.as_deref(), Some("https://www.youtube.com/embed/123"));
}

#[test]
fn yt_result_missing_optional_fields() {
    let r = yt_result(info("abc"));
    assert_eq!(r.id, "youtube_abc");
    assert_eq!(r.title, "Untitled");
    assert_eq!(r.duration, None);
    assert_eq!(r.thumbnail, None);
    assert_eq!(r.download_url.as_deref(), Some("https://www.youtube.com/watch?v=abc"));
}

#[test]
fn yt_result_middle_thumbnail() {
    let mut i = info("xyz");
    i.thumbnails = Some(vec![
        YtThumb { url: "t1".into() },
        YtThumb { url: "t2".into() },
        YtThumb { url: "t3".into() },
    ]);
    assert_eq!(yt_result(i).thumbnail.as_deref(), Some("t2"));
    let mut j = info("xyz");
    j.thumbnails = Some(vec![]);
    j.thumbnail = Some("single".into());
    assert_eq!(yt_result(j).thumbnail.as_deref(), Some("single"));
}

#[test]
fn output_lines_keeps_nonempty_lines() {
    assert_eq!(output_lines("invalid\n{\"id\":\"ok\"}\nnot_json"), vec!["invalid", "{\"id\":\"ok\"}", "not_json"]);
    assert_eq!(output_lines("a\r\n\nb\n"), vec!["a", "b"]);
    assert_eq!(output_lines("a\r"), vec!["a\r"]);
    assert!(output_lines("").is_empty());
    assert!(output_lines("\n\n").is_empty());
}

#[test]
fn search_args() {
    assert_eq!(
        ytdlp_search_args("cats", 8, None),
        vec!["ytsearch8:cats", "--dump-json", "--no-playlist", "--skip-download"]
    );
    assert_eq!(
        ytdlp_search_args("cats", 8, Some("firefox")),
        vec!["ytsearch8:cats", "--dump-json", "--no-playlist", "--skip-download", "--cookies-from-browser", "firefox"]
    );
}

#[test]
fn output_lines_of_joined_texts() {
    let a = "{\"id\":\"1\"}\r\n\nx";
    let b = "y\r\n{\"id\":\"2\"}";
    let mut joined = output_lines(a);
    joined.extend(output_lines(b));
    assert_eq!(output_lines(&format!("{a}\n{b}")), joined);
    // A trailing carriage return on the first text is taken by the line break.
    assert_eq!(output_lines("a\r\nb"), vec!["a", "b"]);
    assert_eq!(output_lines("a\r"), vec!["a\r"]);
}
