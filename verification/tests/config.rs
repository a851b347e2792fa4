use broll_rs::config::should_query;
use broll_rs::config::Config;

fn config_with(vars: &[(&str, &str)]) -> Config {
    let get = |k: &str| vars.iter().find(|(n, _)| *n == k).map(|(_, v)| v.to_string());
    Config::from_vars(
        get("PEXELS_API_KEY"),
        get("PIXABAY_API_KEY"),
        get("DOWNLOADS_DIR"),
        get("DATABASE_URL"),
        get("PORT"),
        get("YOUTUBE_COOKIES_BROWSER"),
    )
}

#[test]
fn default_port_when_not_set() {
    let config = config_with(&[("PORT", "invalid_port_string")]);
    assert_eq!(config.port, 8000);
    assert_eq!(config_with(&[]).port, 8000);
}

#[test]
fn reads_port_from_env() {
    let config = config_with(&[("PORT", "9090")]);
    assert_eq!(config.port, 9090);
}

#[test]
fn invalid_port_falls_back_to_default() {
    let config = config_with(&[("PORT", "not_a_number")]);
    assert_eq!(config.port, 8000);
    assert_eq!(config_with(&[("PORT", "70000")]).port, 8000);
    assert_eq!(config_with(&[("PORT", "+8080")]).port, 8080);
    assert_eq!(config_with(&[("PORT", " 8080")]).port, 8000);
}

#[test]
fn reads_api_keys_from_env() {
    let config = config_with(&[
        ("PEXELS_API_KEY", "pexels-123"),
        ("PIXABAY_API_KEY", "pixabay-456"),
    ]);
    assert_eq!(config.pexels_api_key, "pexels-123");
    assert_eq!(config.pixabay_api_key, "pixabay-456");
}

#[test]
fn reads_downloads_dir_from_env() {
    let config = config_with(&[("DOWNLOADS_DIR", "/tmp/my-downloads")]);
    assert_eq!(config.downloads_dir, "/tmp/my-downloads");
}

#[test]
fn reads_database_url_from_env() {
    let config = config_with(&[("DATABASE_URL", "sqlite:///tmp/test.db")]);
    assert_eq!(config.database_url, "sqlite:///tmp/test.db");
}

#[test]
fn config_is_clone() {
    let config = config_with(&[]);
    let cloned = config.clone();
    assert_eq!(cloned.port, config.port);
}

#[test]
fn defaults_when_unset() {
    let config = config_with(&[]);
    assert_eq!(config.pexels_api_key, "");
    assert_eq!(config.pixabay_api_key, "");
    assert_eq!(config.downloads_dir, "downloads");
    assert_eq!(config.database_url, "sqlite://library.db");
    assert!(config.youtube_cookies_browser.is_none());
}

#[test]
fn empty_key_is_not_queried() {
    assert!(!should_query(""));
    assert!(should_query("pexels-123"));
}
