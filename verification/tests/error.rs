use broll_rs::error::AppError;

fn status_of(err: AppError) -> u16 {
    err.status_code()
}

#[test]
fn not_found_gives_404() {
    assert_eq!(status_of(AppError::NotFound("not here".into())), 404);
}

#[test]
fn bad_request_gives_400() {
    assert_eq!(status_of(AppError::BadRequest("bad".into())), 400);
}

#[test]
fn internal_gives_500() {
    assert_eq!(status_of(AppError::Internal("oops".into())), 500);
}

#[test]
fn sqlx_variant_gives_500() {
    let err = AppError::Sqlx(
        "no rows returned by a query that expected to return at least one row".into(),
    );
    assert_eq!(status_of(err), 500);
}

#[test]
fn app_error_debug() {
    let s = format!("{:?}", AppError::NotFound("x".into()));
    assert!(s.contains("NotFound"));
}

#[test]
fn message_is_carried() {
    assert_eq!(AppError::BadRequest("bad".into()).message(), "bad");
    assert_eq!(AppError::Sqlx("db down".into()).message(), "db down");
}
