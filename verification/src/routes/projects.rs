//! Creating and deleting projects.
use vstd::prelude::*;

use crate::error::AppError;
use crate::ids::{is_rfc3339_utc_text, is_uuid_v4_text, new_uuid_text, now_rfc3339};
use crate::models::{is_slug, slug_of, slugify, CreateProjectRequest, Project};
use crate::text::{cat, cat3, contains_seq, contains_text, trim, trimmed};

verus! {

/// The outcome of creating a project from `raw_name` with identifier `id`
/// at time `created_at`: refused when the name is blank, or when it has no
/// character to make a slug of; else the project with the trimmed name and
/// its slug.
pub open spec fn project_spec(raw_name: Seq<char>, id: Seq<char>, created_at: Seq<char>, r: Result<Project, AppError>) -> bool {
    let name = trimmed(raw_name);
    if name.len() == 0 {
        r matches Err(AppError::BadRequest(m)) && m@ == "Project name cannot be empty"@
    } else if slug_of(name).len() == 0 {
        r matches Err(AppError::BadRequest(m)) && m@ == "Project name produces an empty slug"@
    } else {
        r matches Ok(p) && p.id@ == id && p.name@ == name && p.slug@ == slug_of(name)
            && p.created_at@ == created_at
    }
}

/// The trimmed name and its slug, or why the name is refused.
fn checked_name(raw_name: &str) -> (r: Result<(String, String), AppError>)
    ensures
        match r {
            Ok((n, s)) => trimmed(raw_name@).len() > 0 && slug_of(trimmed(raw_name@)).len() > 0
                && n@ == trimmed(raw_name@) && s@ == slug_of(trimmed(raw_name@)),
            Err(e) => project_spec(raw_name@, Seq::<char>::empty(), Seq::<char>::empty(), Err(e)),
        },
{
    let name = trim(raw_name).to_string();
    if name.as_str().unicode_len() == 0 {
        return Err(AppError::BadRequest("Project name cannot be empty".to_string()));
    }
    let slug = slugify(name.as_str());
    if slug.as_str().unicode_len() == 0 {
        return Err(AppError::BadRequest("Project name produces an empty slug".to_string()));
    }
    Ok((name, slug))
}

/// The project that creating one named `raw_name` with identifier `id` at
/// time `created_at` gives, or why the name is refused.
pub fn project_record(raw_name: &str, id: String, created_at: String) -> (r: Result<Project, AppError>)
    ensures
        project_spec(raw_name@, id@, created_at@, r),
{
    match checked_name(raw_name) {
        Ok((name, slug)) => Ok(Project { id, name, slug, created_at }),
        Err(e) => Err(e),
    }
}

/// A new project named as `req` asks, with a fresh identifier and the
/// current time, or why the name is refused. The identifier and the time are
/// only taken when the name is accepted.
pub fn new_project(req: &CreateProjectRequest) -> (r: Result<Project, AppError>)
    ensures
        match r {
            Ok(p) => project_spec(req.name@, p.id@, p.created_at@, r) && is_uuid_v4_text(p.id@)
                && is_rfc3339_utc_text(p.created_at@) && is_slug(p.slug@),
            Err(_) => project_spec(req.name@, Seq::<char>::empty(), Seq::<char>::empty(), r),
        },
{
    match checked_name(req.name.as_str()) {
        Ok((name, slug)) => {
            proof {
                crate::models::lemma_slug_well_formed(trimmed(req.name@));
            }
            let id = new_uuid_text();
            let created_at = now_rfc3339();
            Ok(Project { id, name, slug, created_at })
        },
        Err(e) => Err(e),
    }
}

/// The error that answers a failed insert of project `name` whose database
/// error reads `err_text`: a bad request when a uniqueness constraint
/// refused it, the database error otherwise.
pub fn insert_error(err_text: String, name: &str) -> (r: AppError)
    ensures
        contains_seq(err_text@, "UNIQUE"@) ==> (r matches AppError::BadRequest(m)
            && m@ == "Project '"@ + name@ + "' already exists"@),
        !contains_seq(err_text@, "UNIQUE"@) ==> r == AppError::Sqlx(err_text),
{
    if contains_text(err_text.as_str(), "UNIQUE") {
        AppError::BadRequest(cat3("Project '", name, "' already exists"))
    } else {
        AppError::Sqlx(err_text)
    }
}

/// The outcome of deleting project `id`, given how many rows went: not found
/// when none did.
pub fn delete_outcome(id: &str, affected: u64) -> (r: Result<(), AppError>)
    ensures
        affected == 0 ==> (r matches Err(AppError::NotFound(m)) && m@ == "Project id="@ + id@),
        affected != 0 ==> r is Ok,
{
    if affected == 0 {
        Err(AppError::NotFound(cat("Project id=", id)))
    } else {
        Ok(())
    }
}

} // verus!
