use broll_rs::services::pexels::{
    best_file, pexels_results, pexels_search_params, PexelsFile, PexelsPicture, PexelsResponse,
    PexelsUser, PexelsVideo,
};

#[test]
fn pexels_file_fallback_no_files() {
    // If video_files is empty, nothing fits, so the fallback is used
    let files: Vec<PexelsFile> = vec![];
    let best = best_file(files).unwrap_or_else(|| PexelsFile {
        link: String::new(),
        width: None,
        height: None,
    });
    assert_eq!(best.link, "");
    assert!(best.width.is_none());
}

#[test]
fn pexels_file_best_picks_largest_under_1920() {
    let files = vec![
        PexelsFile { link: "4k.mp4".into(), width: Some(3840), height: Some(2160) },
        PexelsFile { link: "1080p.mp4".into(), width: Some(1920), height: Some(1080) },
        PexelsFile { link: "720p.mp4".into(), width: Some(1280), height: Some(720) },
    ];
    let best = best_file(files).unwrap();
    assert_eq!(best.link, "1080p.mp4");
}

#[test]
fn pexels_best_file_first_of_equal_widths_and_missing_width() {
    let files = vec![
        PexelsFile { link: "a.mp4".into(), width: Some(1280), height: None },
        PexelsFile { link: "b.mp4".into(), width: Some(1280), height: None },
        PexelsFile { link: "none.mp4".into(), width: None, height: None },
    ];
    assert_eq!(best_file(files).unwrap().link, "a.mp4");
    let only_unknown = vec![PexelsFile { link: "u.mp4".into(), width: None, height: None }];
    assert_eq!(best_file(only_unknown).unwrap().link, "u.mp4");
    let too_wide = vec![PexelsFile { link: "w.mp4".into(), width: Some(2560), height: None }];
    assert!(best_file(too_wide).is_none());
}

#[test]
fn pexels_search_parses_response_correctly() {
    let resp = PexelsResponse {
        videos: vec![PexelsVideo {
            id: 12345,
            duration: Some(15.5f64.to_bits()),
            user: Some(PexelsUser { name: "John Doe".into() }),
            video_files: vec![
                PexelsFile { link: "link_small".into(), width: Some(800), height: Some(600) },
                PexelsFile { link: "link_large".into(), width: Some(1920), height: Some(1080) },
            ],
            video_pictures: vec![PexelsPicture { picture: "thumb_url".into() }],
        }],
    };
    let results = pexels_results(resp, "nature");
    assert_eq!(results.len(), 1);
    assert_eq!(results[0].id, "pexels_12345");
    assert_eq!(results[0].title, "John Doe — nature");
    assert_eq!(results[0].source, "pexels");
    assert_eq!(results[0].duration.map(f64::from_bits), Some(15.5));
    assert_eq!(results[0].thumbnail.as_deref(), Some("thumb_url"));
    assert_eq!(results[0].download_url.as_deref(), Some("link_large"));
    assert_eq!(results[0].preview_url.as_deref(), Some("link_large"));
    assert_eq!(results[0].license.as_deref(), Some("CC0"));
    assert_eq!(results[0].width, Some(1920));
    assert_eq!(results[0].height, Some(1080));
}

#[test]
fn pexels_result_without_author_files_or_pictures() {
    let resp = PexelsResponse {
        videos: vec![PexelsVideo {
            id: 7,
            duration: None,
            user: None,
            video_files: vec![],
            video_pictures: vec![],
        }],
    };
    let results = pexels_results(resp, "sea");
    assert_eq!(results[0].id, "pexels_7");
    assert_eq!(results[0].title, " — sea");
    assert_eq!(results[0].download_url.as_deref(), Some(""));
    assert!(results[0].thumbnail.is_none());
    assert!(results[0].width.is_none());
}

#[test]
fn pexels_params() {
    let p = pexels_search_params("nature", 8);
    let expected = [("query", "nature"), ("per_page", "8"), ("size", "medium")];
    assert_eq!(p.len(), expected.len());
    for (got, want) in p.iter().zip(expected.iter()) {
        assert_eq!(got.0, want.0);
        assert_eq!(got.1, want.1);
    }
}
