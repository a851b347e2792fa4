use broll_rs::models::{slug_from_lowercase, slugify, LibraryVideo, Project};

#[test]
fn slugify_basic() {
    assert_eq!(slugify("Hello World"), "hello-world");
}

#[test]
fn slugify_special_chars() {
    assert_eq!(slugify("B-Roll: Nature & Wildlife!"), "b-roll-nature-wildlife");
}

#[test]
fn slugify_leading_trailing_whitespace() {
    assert_eq!(slugify("  my project  "), "my-project");
}

#[test]
fn slugify_multiple_spaces() {
    assert_eq!(slugify("a   b"), "a-b");
}

#[test]
fn slugify_already_slug() {
    assert_eq!(slugify("already-slug"), "already-slug");
}

#[test]
fn slugify_empty() {
    assert_eq!(slugify(""), "");
}

#[test]
fn slugify_only_special_chars() {
    assert_eq!(slugify("!!!"), "");
}

#[test]
fn slugify_unicode() {
    // Non-ASCII alphanumeric chars are treated as alphanumeric by is_alphanumeric()
    let result = slugify("café");
    assert!(!result.is_empty());
}

#[test]
fn slugify_keeps_unicode_letters_lowercased() {
    assert_eq!(slugify("Café Ünïcode"), "café-ünïcode");
}

#[test]
fn slugify_result_is_well_formed() {
    for name in ["--a--b--", " -x- ", "Ocean B-Roll", "My Documentary", "a_b.c/d", "\t\n"] {
        let s = slugify(name);
        assert!(!s.starts_with('-'), "{s}");
        assert!(!s.ends_with('-'), "{s}");
        assert!(!s.contains("--"), "{s}");
        assert!(s.chars().all(|c| c.is_alphanumeric() || c == '-'), "{s}");
    }
    assert_eq!(slugify("--a--b--"), "a-b");
    assert_eq!(slugify("Ocean B-Roll"), "ocean-b-roll");
    assert_eq!(slugify("My Documentary"), "my-documentary");
}

#[test]
fn library_video_derives_clone() {
    let v = LibraryVideo {
        id: "1".into(),
        title: "T".into(),
        source: "s".into(),
        filepath: None,
        duration: None,
        tags: None,
        thumbnail: None,
        original_url: None,
        status: "pending".into(),
        project_id: None,
        project_name: None,
        created_at: "2024-01-01T00:00:00Z".into(),
    };
    let cloned = v.clone();
    assert_eq!(cloned.id, "1");
}

#[test]
fn project_derives_clone() {
    let p = Project {
        id: "p1".into(),
        name: "My Project".into(),
        slug: "my-project".into(),
        created_at: "2024-01-01T00:00:00Z".into(),
    };
    let cloned = p.clone();
    assert_eq!(cloned.slug, "my-project");
}

#[test]
fn slugify_leaves_a_slug_unchanged() {
    for name in ["already-slug", "hello-world", "b-roll-nature-wildlife", "x", ""] {
        assert_eq!(slugify(name), name);
        assert_eq!(slugify(&slugify(name)), slugify(name));
    }
}

#[test]
fn slug_from_lowercased_name() {
    assert_eq!(slug_from_lowercase("b-roll: nature & wildlife!"), "b-roll-nature-wildlife");
    assert_eq!(slug_from_lowercase("a   b"), "a-b");
    assert_eq!(slug_from_lowercase("!!!"), "");
}
