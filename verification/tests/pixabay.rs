use broll_rs::services::pixabay::{
    pixabay_results, pixabay_search_params, titlecase, PixabayFile, PixabayHit, PixabayResponse,
    PixabayVideos,
};

#[test]
fn titlecase_basic() {
    assert_eq!(titlecase("hello world"), "Hello world");
}

#[test]
fn titlecase_already_upper() {
    assert_eq!(titlecase("Hello"), "Hello");
}

#[test]
fn titlecase_empty() {
    assert_eq!(titlecase(""), "");
}

#[test]
fn titlecase_single_char() {
    assert_eq!(titlecase("x"), "X");
}

#[test]
fn titlecase_expanding_first_char() {
    assert_eq!(titlecase("ßtraße"), "SStraße");
    assert_eq!(titlecase("élan"), "Élan");
}

#[test]
fn best_prefers_large() {
    let vids = PixabayVideos {
        large: Some(PixabayFile { url: "large.mp4".into(), width: Some(1920), height: Some(1080) }),
        medium: Some(PixabayFile { url: "medium.mp4".into(), width: Some(1280), height: Some(720) }),
        small: None,
        tiny: None,
    };
    assert_eq!(vids.best().unwrap().url, "large.mp4");
}

#[test]
fn best_falls_back_to_medium() {
    let vids = PixabayVideos {
        large: None,
        medium: Some(PixabayFile { url: "medium.mp4".into(), width: None, height: None }),
        small: None,
        tiny: None,
    };
    assert_eq!(vids.best().unwrap().url, "medium.mp4");
}

#[test]
fn best_falls_back_to_tiny() {
    let vids = PixabayVideos {
        large: None,
        medium: None,
        small: None,
        tiny: Some(PixabayFile { url: "tiny.mp4".into(), width: None, height: None }),
    };
    assert_eq!(vids.best().unwrap().url, "tiny.mp4");
}

#[test]
fn best_returns_none_when_all_none() {
    let vids = PixabayVideos { large: None, medium: None, small: None, tiny: None };
    assert!(vids.best().is_none());
}

#[test]
fn pixabay_search_parses_response_correctly() {
    let resp = PixabayResponse {
        hits: vec![
            PixabayHit {
                id: 12345,
                duration: Some(15.5f64.to_bits()),
                user_image_url: Some("thumb_url".into()),
                videos: PixabayVideos {
                    large: Some(PixabayFile { url: "link_large".into(), width: Some(1920), height: Some(1080) }),
                    medium: None,
                    small: None,
                    tiny: None,
                },
            },
            PixabayHit {
                id: 99,
                duration: None,
                user_image_url: None,
                videos: PixabayVideos { large: None, medium: None, small: None, tiny: None },
            },
        ],
    };
    let results = pixabay_results(resp, "nature");
    assert_eq!(results.len(), 1);
    assert_eq!(results[0].id, "pixabay_12345");
    assert_eq!(results[0].title, "Nature — Pixabay #12345");
    assert_eq!(results[0].source, "pixabay");
    assert_eq!(results[0].duration.map(f64::from_bits), Some(15.5));
    assert_eq!(results[0].thumbnail.as_deref(), Some("thumb_url"));
    assert_eq!(results[0].download_url.as_deref(), Some("link_large"));
    assert_eq!(results[0].license.as_deref(), Some("Pixabay License (free commercial use)"));
}

#[test]
fn pixabay_params() {
    let p = pixabay_search_params("k", "nature", 8);
    let got: Vec<(&str, &str)> = p.iter().map(|(a, b)| (a.as_str(), b.as_str())).collect();
    assert_eq!(got, vec![("key", "k"), ("q", "nature"), ("per_page", "8"), ("video_type", "film")]);
}
