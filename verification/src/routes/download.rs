//! Starting, following and retrying downloads.
use vstd::prelude::*;

use crate::error::AppError;
use crate::ids::{is_rfc3339_utc_text, now_rfc3339};
use crate::models::{DownloadRequest, LibraryVideo, StatusResponse};
use crate::text::{cat, same_text};

verus! {

/// The status of a clip whose download is waiting to run.
pub open spec fn pending() -> Seq<char> {
    "pending"@
}

/// The row stored for a clip that is saved for the first time.
#[derive(Debug)]
pub struct NewVideo {
    pub id: String,
    /// Always `pending`.
    pub status: String,
    pub title: String,
    pub source: String,
    pub thumbnail: Option<String>,
    pub original_url: String,
    /// Length in seconds, held as the bit pattern of an `f64` (`f64::to_bits`).
    pub duration: Option<u64>,
    pub project_id: Option<String>,
    pub created_at: String,
}

/// What a download request leads to.
#[derive(Debug)]
pub enum StartPlan {
    /// The clip is already saved: answer with its record, download nothing.
    Existing(LibraryVideo),
    /// The clip has a record that is not complete: set its status back to
    /// `status` (always `pending`) with this project, and download again.
    Reset { id: String, status: String, project_id: Option<String> },
    /// The clip is new: store this row and download it.
    Insert(NewVideo),
}

/// `r` is what a request `req` leads to, when the clip's record is
/// `existing` and the time is `now`.
pub open spec fn start_plan_spec(existing: Option<LibraryVideo>, req: DownloadRequest, now: Seq<char>, r: StartPlan) -> bool {
    match existing {
        Some(rec) => if rec.status@ == "complete"@ {
            r == StartPlan::Existing(rec)
        } else {
            r matches StartPlan::Reset { id, status, project_id } && id@ == req.id@ && status@ == pending()
                && project_id == req.project_id
        },
        None => r matches StartPlan::Insert(v) && {
            &&& v.id == req.id
            &&& v.status@ == pending()
            &&& v.title == req.title
            &&& v.source == req.source
            &&& v.thumbnail == req.thumbnail
            &&& v.original_url == req.download_url
            &&& v.duration == req.duration
            &&& v.project_id == req.project_id
            &&& v.created_at@ == now
        },
    }
}

/// What request `req` leads to, when the clip's record is `existing` and
/// the time is `now`.
pub fn plan_start(existing: Option<LibraryVideo>, req: DownloadRequest, now: String) -> (r: StartPlan)
    ensures
        start_plan_spec(existing, req, now@, r),
{
    match existing {
        Some(rec) => {
            if same_text(rec.status.as_str(), "complete") {
                StartPlan::Existing(rec)
            } else {
                StartPlan::Reset { id: req.id, status: "pending".to_string(), project_id: req.project_id }
            }
        },
        None => StartPlan::Insert(NewVideo {
            id: req.id,
            status: "pending".to_string(),
            title: req.title,
            source: req.source,
            thumbnail: req.thumbnail,
            original_url: req.download_url,
            duration: req.duration,
            project_id: req.project_id,
            created_at: now,
        }),
    }
}

/// What request `req` leads to, when the clip's record is `existing`; a new
/// row is stamped with the current time.
pub fn start_plan(existing: Option<LibraryVideo>, req: DownloadRequest) -> (r: StartPlan)
    ensures
        exists|now: Seq<char>| is_rfc3339_utc_text(now) && #[trigger] start_plan_spec(existing, req, now, r),
{
    let now = now_rfc3339();
    let r = plan_start(existing, req, now);
    assert(start_plan_spec(existing, req, now@, r));
    r
}

/// The answer to a status query for clip `id`, given its stored
/// `(id, status, filepath)`: not found when there is none.
pub fn status_outcome(id: &str, row: Option<(String, String, Option<String>)>) -> (r: Result<StatusResponse, AppError>)
    ensures
        match row {
            Some((rid, status, filepath)) => r matches Ok(s) && s.id == rid && s.status == status
                && s.filepath == filepath,
            None => r matches Err(AppError::NotFound(m)) && m@ == "No download record for id="@ + id@,
        },
{
    match row {
        Some((rid, status, filepath)) => Ok(StatusResponse { id: rid, status, filepath }),
        None => Err(AppError::NotFound(cat("No download record for id=", id))),
    }
}

/// What retrying a clip does: set its status to `status` (always `pending`)
/// and fetch `url` again.
#[derive(Debug)]
pub struct RetryPlan {
    pub status: String,
    pub url: String,
}

/// What retrying clip `id` does, given its stored `(status, original_url)`:
/// only a failed download with an address can be retried.
pub fn retry_outcome(id: &str, row: Option<(String, Option<String>)>) -> (r: Result<RetryPlan, AppError>)
    ensures
        match row {
            None => r matches Err(AppError::NotFound(m)) && m@ == "No download record for id="@ + id@,
            Some((status, url)) => if status@ != "error"@ {
                r matches Err(AppError::BadRequest(m)) && m@ == "Only failed downloads can be retried"@
            } else {
                match url {
                    Some(u) => r matches Ok(p) && p.url == u && p.status@ == pending(),
                    None => r matches Err(AppError::BadRequest(m)) && m@ == "No original URL to retry for id="@ + id@,
                }
            },
        },
{
    match row {
        None => Err(AppError::NotFound(cat("No download record for id=", id))),
        Some((status, url)) => {
            if !same_text(status.as_str(), "error") {
                Err(AppError::BadRequest("Only failed downloads can be retried".to_string()))
            } else {
                match url {
                    Some(u) => Ok(RetryPlan { status: "pending".to_string(), url: u }),
                    None => Err(AppError::BadRequest(cat("No original URL to retry for id=", id))),
                }
            }
        },
    }
}

/// The download request that retrying `rec` from `url` makes.
pub fn retry_request(rec: LibraryVideo, url: String) -> (r: DownloadRequest)
    ensures
        r.id == rec.id,
        r.title == rec.title,
        r.source == rec.source,
        r.download_url == url,
        r.thumbnail == rec.thumbnail,
        r.duration == rec.duration,
        r.project_id == rec.project_id,
{
    DownloadRequest {
        id: rec.id,
        title: rec.title,
        source: rec.source,
        download_url: url,
        thumbnail: rec.thumbnail,
        duration: rec.duration,
        project_id: rec.project_id,
    }
}

/// A new clip's row is the request's clip, filed under the requested
/// project, waiting to download; an incomplete record is set back to waiting
/// under the requested project; a complete one is answered as it is.
pub proof fn lemma_start_keeps_request(existing: Option<LibraryVideo>, req: DownloadRequest, now: Seq<char>, r: StartPlan)
    requires
        start_plan_spec(existing, req, now, r),
    ensures
        existing is None ==> r is Insert && r->Insert_0.project_id == req.project_id && r->Insert_0.id == req.id
            && r->Insert_0.original_url == req.download_url && r->Insert_0.title == req.title
            && r->Insert_0.source == req.source && r->Insert_0.status@ == "pending"@,
        existing is Some && existing->0.status@ != "complete"@ ==> r is Reset && r->project_id == req.project_id
            && r->id@ == req.id@ && r->status@ == "pending"@,
        existing is Some && existing->0.status@ == "complete"@ ==> r == StartPlan::Existing(existing->0),
{
}

} // verus!
