//! Deleting, tagging and serving saved clips.
use vstd::prelude::*;

use crate::error::AppError;
use crate::models::opt_view;
use crate::text::{cat, cat3};

verus! {

/// The outcome of deleting clip `id`, given its stored file path (`None`:
/// no such clip): not found, or the file to remove if it has one.
pub fn delete_outcome(id: &str, row: Option<Option<String>>) -> (r: Result<Option<String>, AppError>)
    ensures
        match row {
            Some(fp) => r == Ok::<Option<String>, AppError>(fp),
            None => r matches Err(AppError::NotFound(m)) && m@ == "id="@ + id@,
        },
{
    match row {
        Some(fp) => Ok(fp),
        None => Err(AppError::NotFound(cat("id=", id))),
    }
}

/// The outcome of tagging clip `id`, given how many rows changed: not found
/// when none did.
pub fn tags_outcome(id: &str, affected: u64) -> (r: Result<(), AppError>)
    ensures
        affected == 0 ==> (r matches Err(AppError::NotFound(m)) && m@ == "id="@ + id@),
        affected != 0 ==> r is Ok,
{
    if affected == 0 {
        Err(AppError::NotFound(cat("id=", id)))
    } else {
        Ok(())
    }
}

/// The file to serve for a clip, given its stored file path (`None`: no such
/// clip): not found unless the clip has a file.
pub fn file_to_serve(row: Option<Option<String>>) -> (r: Result<String, AppError>)
    ensures
        match row {
            Some(Some(fp)) => r == Ok::<String, AppError>(fp),
            _ => r matches Err(AppError::NotFound(m)) && m@ == "File not found"@,
        },
{
    match row {
        Some(Some(fp)) => Ok(fp),
        _ => Err(AppError::NotFound("File not found".to_string())),
    }
}

/// The error when a clip's file is gone from the disk.
pub fn file_missing() -> (r: AppError)
    ensures
        r matches AppError::NotFound(m) && m@ == "File missing from disk"@,
{
    AppError::NotFound("File missing from disk".to_string())
}

/// The last component of path `p`, as `std::path::Path::file_name` gives it
/// (`None` when the path ends in `..` or has no component).
pub uninterp spec fn path_file_name(p: Seq<char>) -> Option<Seq<char>>;

/// Calls `std::path::Path::file_name` on `path` and turns the name into a
/// string; the result is the named last component of `path`.
#[verifier::external_body]
fn file_name_of(path: &str) -> (r: Option<String>)
    ensures
        opt_view(r) == path_file_name(path@),
{
    match std::path::Path::new(path).file_name() {
        Some(n) => match n.to_str() {
            Some(t) => Some(t.to_string()),
            None => None,
        },
        None => None,
    }
}

/// The name a served file is offered under: its own name, `video.mp4` when
/// its path has none.
pub open spec fn offered_name(path: Seq<char>) -> Seq<char> {
    match path_file_name(path) {
        Some(n) => n,
        None => "video.mp4"@,
    }
}

/// The headers that serve the file at `path`: `content-type: video/mp4` and
/// `content-disposition: attachment; filename="<name>"`.
pub fn download_headers(path: &str) -> (r: Vec<(String, String)>)
    ensures
        crate::text::pairs_view(r@) == seq![
            ("content-type"@, "video/mp4"@),
            ("content-disposition"@, "attachment; filename=\""@ + offered_name(path@) + "\""@),
        ],
{
    let name = match file_name_of(path) {
        Some(n) => n,
        None => "video.mp4".to_string(),
    };
    let mut r: Vec<(String, String)> = Vec::new();
    r.push(("content-type".to_string(), "video/mp4".to_string()));
    r.push(("content-disposition".to_string(), cat3("attachment; filename=\"", name.as_str(), "\"")));
    assert(crate::text::pairs_view(r@) =~= seq![
        ("content-type"@, "video/mp4"@),
        ("content-disposition"@, "attachment; filename=\""@ + offered_name(path@) + "\""@),
    ]);
    r
}

} // verus!
