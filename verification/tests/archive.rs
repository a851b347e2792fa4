use broll_rs::services::archive::{
    archive_download_choice, archive_identifier, archive_metadata_url, archive_results,
    archive_search_params, runtime_parts, runtime_text, ArchiveDoc, ArchiveFileMeta, JsonField,
};

#[test]
fn parse_single_segment_is_none() {
    assert!(runtime_parts("120").is_none());
}

#[test]
fn parse_empty_is_none() {
    assert!(runtime_parts("").is_none());
}

#[test]
fn runtime_parts_of_hms_and_ms() {
    assert_eq!(runtime_parts("1:02:03").unwrap(), vec!["1", "02", "03"]);
    assert_eq!(runtime_parts("5:30").unwrap(), vec!["5", "30"]);
    assert_eq!(runtime_parts("abc:def").unwrap(), vec!["abc", "def"]);
    assert!(runtime_parts("1:2:3:4").is_none());
}

#[test]
fn runtime_text_only_from_strings() {
    assert_eq!(runtime_text(&Some(JsonField::Str("1:30".into()))).as_deref(), Some("1:30"));
    assert!(runtime_text(&Some(JsonField::Other)).is_none());
    assert!(runtime_text(&Some(JsonField::Array(vec![Some("1:30".into())]))).is_none());
    assert!(runtime_text(&None).is_none());
}

#[test]
fn do_search_parses_response() {
    let docs = vec![
        ArchiveDoc {
            identifier: "test-vid-1".into(),
            title: Some(JsonField::Str("Test Video 1".into())),
            runtime: Some(JsonField::Str("1:30".into())),
        },
        ArchiveDoc {
            identifier: "test-vid-2".into(),
            title: Some(JsonField::Array(vec![Some("Test Video 2 array".into())])),
            runtime: Some(JsonField::Str("0:30.5".into())),
        },
        ArchiveDoc { identifier: "bare".into(), title: Some(JsonField::Array(vec![None])), runtime: None },
    ];
    let durations = vec![Some(90.0f64.to_bits()), Some(30.5f64.to_bits()), None];
    let results = archive_results(docs, durations);
    assert_eq!(results.len(), 3);
    assert_eq!(results[0].title, "Test Video 1");
    assert_eq!(results[0].duration.map(f64::from_bits), Some(90.0));
    assert_eq!(results[1].title, "Test Video 2 array");
    assert_eq!(results[1].duration.map(f64::from_bits), Some(30.5));
    assert_eq!(results[2].title, "bare");
    assert_eq!(results[0].id, "archive_test-vid-1");
    assert_eq!(results[0].source, "archive");
    assert_eq!(results[0].thumbnail.as_deref(), Some("https://archive.org/services/img/test-vid-1"));
    assert_eq!(results[0].preview_url.as_deref(), Some("https://archive.org/embed/test-vid-1"));
    assert_eq!(results[0].download_url.as_deref(), Some("https://archive.org/download/test-vid-1"));
    assert_eq!(results[0].license.as_deref(), Some("Public Domain / Open License"));
}

#[test]
fn archive_params() {
    let p = archive_search_params("ocean", 6);
    let got: Vec<(&str, &str)> = p.iter().map(|(a, b)| (a.as_str(), b.as_str())).collect();
    assert_eq!(
        got,
        vec![
            ("q", "ocean AND mediatype:movies"),
            ("fl[]", "identifier,title,runtime"),
            ("rows", "6"),
            ("output", "json"),
            ("sort[]", "downloads desc"),
        ]
    );
}

#[test]
fn identifier_from_download_address() {
    assert_eq!(archive_identifier("https://archive.org/download/my-item"), "my-item");
    assert_eq!(archive_identifier("https://archive.org/download/my-item///"), "my-item");
    assert_eq!(archive_identifier("plain"), "plain");
    assert_eq!(archive_metadata_url("my-item"), "https://archive.org/metadata/my-item");
}

fn meta(name: Option<&str>, size: Option<&str>) -> ArchiveFileMeta {
    ArchiveFileMeta { name: name.map(str::to_string), size: size.map(str::to_string) }
}

#[test]
fn download_choice_takes_largest_mp4() {
    let files = vec![
        meta(Some("a.mp4"), Some("100")),
        meta(Some("b.ogv"), Some("999999")),
        meta(Some("c.mp4"), Some("300")),
        meta(Some("d.mp4"), Some("abc")),
        meta(None, Some("5000")),
    ];
    assert_eq!(
        archive_download_choice("item", &files).as_deref(),
        Some("https://archive.org/download/item/c.mp4")
    );
}

#[test]
fn download_choice_last_of_equal_sizes() {
    let files = vec![meta(Some("x.mp4"), Some("7")), meta(Some("y.mp4"), Some("7"))];
    assert_eq!(
        archive_download_choice("item", &files).as_deref(),
        Some("https://archive.org/download/item/y.mp4")
    );
    let unknown = vec![meta(Some("p.mp4"), None), meta(Some("q.mp4"), Some("-1"))];
    assert_eq!(
        archive_download_choice("item", &unknown).as_deref(),
        Some("https://archive.org/download/item/q.mp4")
    );
}

#[test]
fn download_choice_none_without_mp4() {
    let files = vec![meta(Some("a.ogv"), Some("1")), meta(None, None)];
    assert!(archive_download_choice("item", &files).is_none());
}
