//! Saving a clip: the file names and command lines used, and the steps of a
//! download from request to finished file.
use vstd::prelude::*;

use crate::models::DownloadRequest;
use crate::text::{cat, cat3, chars_of, same_text, string_of, strings_view};

verus! {

/// The text of `s` before its first `c` (all of `s` when there is none).
pub open spec fn before_first(s: Seq<char>, c: char) -> Seq<char>
    decreases s.len(),
{
    if s.len() == 0 {
        s
    } else if s[0] == c {
        Seq::<char>::empty()
    } else {
        seq![s[0]] + before_first(s.drop_first(), c)
    }
}

/// The text of `s` after its last `c` (all of `s` when there is none).
pub open spec fn after_last(s: Seq<char>, c: char) -> Seq<char>
    decreases s.len(),
{
    if s.len() == 0 {
        s
    } else if s.last() == c {
        Seq::<char>::empty()
    } else {
        after_last(s.drop_last(), c).push(s.last())
    }
}

/// The number of bytes that `c` takes in UTF-8.
pub open spec fn utf8_width(c: char) -> nat {
    if (c as u32) < 0x80 {
        1
    } else if (c as u32) < 0x800 {
        2
    } else if (c as u32) < 0x10000 {
        3
    } else {
        4
    }
}

/// The number of bytes that `s` takes in UTF-8 (`str::len`).
pub open spec fn utf8_len(s: Seq<char>) -> nat
    decreases s.len(),
{
    if s.len() == 0 {
        0
    } else {
        utf8_len(s.drop_last()) + utf8_width(s.last())
    }
}

/// The extension of the file that `url` names: the text after the last `.`
/// of the part before any `?`, when that is at most four bytes long; else
/// `mp4`.
pub open spec fn ext_spec(url: Seq<char>) -> Seq<char> {
    let e = after_last(before_first(url, '?'), '.');
    if utf8_len(e) <= 4 {
        e
    } else {
        "mp4"@
    }
}

proof fn lemma_before_first_take(s: Seq<char>, c: char, q: int)
    requires
        0 <= q <= s.len(),
        forall|k: int| 0 <= k < q ==> s[k] != c,
        q == s.len() || s[q] == c,
    ensures
        before_first(s, c) == s.take(q),
    decreases s.len(),
{
    if s.len() > 0 && q > 0 {
        let t = s.drop_first();
        assert forall|k: int| 0 <= k < q - 1 implies t[k] != c by {
            assert(t[k] == s[k + 1]);
        }
        if q < s.len() {
            assert(t[q - 1] == s[q]);
        }
        lemma_before_first_take(t, c, q - 1);
        assert(seq![s[0]] + t.take(q - 1) =~= s.take(q));
    } else if s.len() > 0 {
        assert(s.take(q) =~= Seq::<char>::empty());
    }
}

proof fn lemma_after_last_skip(s: Seq<char>, c: char, d: int)
    requires
        0 <= d <= s.len(),
        forall|k: int| d <= k < s.len() ==> s[k] != c,
        d == 0 || s[d - 1] == c,
    ensures
        after_last(s, c) == s.skip(d),
    decreases s.len(),
{
    if s.len() > d {
        let t = s.drop_last();
        lemma_after_last_skip(t, c, d);
        assert(t.skip(d).push(s.last()) =~= s.skip(d));
    } else if s.len() > 0 {
        assert(s.skip(d) =~= Seq::<char>::empty());
    }
}

/// The extension of the file that `url` names, `mp4` when it has none of at
/// most four bytes.
pub fn ext_from_url(url: &str) -> (r: &str)
    ensures
        r@ == ext_spec(url@),
{
    let cs = chars_of(url);
    let n = cs.len();
    let mut q: usize = 0;
    while q < n && cs[q] != '?'
        invariant
            q <= n == url@.len(),
            cs@ == url@,
            forall|k: int| 0 <= k < q ==> url@[k] != '?',
        decreases n - q,
    {
        q = q + 1;
    }
    proof {
        lemma_before_first_take(url@, '?', q as int);
    }
    let ghost path = url@.take(q as int);
    let mut d: usize = q;
    while d > 0 && cs[d - 1] != '.'
        invariant
            d <= q <= n == url@.len(),
            cs@ == url@,
            path == url@.take(q as int),
            forall|k: int| d <= k < q ==> path[k] != '.',
        decreases d,
    {
        d = d - 1;
    }
    proof {
        lemma_after_last_skip(path, '.', d as int);
        assert(path.skip(d as int) =~= url@.subrange(d as int, q as int));
    }
    // The UTF-8 length of the extension, counted up to five bytes.
    let mut bytes: usize = 0;
    let mut i: usize = d;
    while i < q && bytes <= 4
        invariant
            d <= i <= q <= n == url@.len(),
            cs@ == url@,
            bytes as nat == utf8_len(url@.subrange(d as int, i as int)),
        decreases q - i,
    {
        let c = cs[i];
        let w: usize = if (c as u32) < 0x80 {
            1
        } else if (c as u32) < 0x800 {
            2
        } else if (c as u32) < 0x10000 {
            3
        } else {
            4
        };
        assert(url@.subrange(d as int, i + 1).drop_last() == url@.subrange(d as int, i as int));
        bytes = bytes + w;
        i = i + 1;
    }
    proof {
        if i < q {
            lemma_utf8_len_prefix(url@.subrange(d as int, q as int), (i - d) as int);
            assert(url@.subrange(d as int, q as int).take((i - d) as int) == url@.subrange(d as int, i as int));
        }
    }
    if bytes <= 4 {
        url.substring_char(d, q)
    } else {
        "mp4"
    }
}

/// A prefix takes no more UTF-8 bytes than the whole.
proof fn lemma_utf8_len_prefix(s: Seq<char>, k: int)
    requires
        0 <= k <= s.len(),
    ensures
        utf8_len(s.take(k)) <= utf8_len(s),
    decreases s.len(),
{
    if k < s.len() {
        lemma_utf8_len_prefix(s.drop_last(), k);
        assert(s.drop_last().take(k) == s.take(k));
    } else {
        assert(s.take(k) == s);
    }
}

/// `id` with every `/` made a `_`, fit to name a file.
pub open spec fn safe_id_spec(id: Seq<char>) -> Seq<char> {
    id.map_values(|c: char| if c == '/' { '_' } else { c })
}

/// `id` with every `/` made a `_` (`str::replace`).
pub fn safe_file_id(id: &str) -> (r: String)
    ensures
        r@ == safe_id_spec(id@),
{
    let cs = chars_of(id);
    let mut out: Vec<char> = Vec::new();
    for i in 0..cs.len()
        invariant
            cs@ == id@,
            out@ == id@.take(i as int).map_values(|c: char| if c == '/' { '_' } else { c }),
    {
        let c = cs[i];
        out.push(if c == '/' { '_' } else { c });
        assert(id@.take(i + 1).map_values(|c: char| if c == '/' { '_' } else { c })
            =~= id@.take(i as int).map_values(|c: char| if c == '/' { '_' } else { c }).push(
            if c == '/' { '_' } else { c },
        ));
    }
    assert(id@.take(id@.len() as int) == id@);
    string_of(&out)
}

/// The name of the file that a direct download of `url` for clip `id` is
/// saved as: `<safe id>.<extension>`.
pub fn direct_file_name(url: &str, id: &str) -> (r: String)
    ensures
        r@ == safe_id_spec(id@) + "."@ + ext_spec(url@),
{
    let safe = safe_file_id(id);
    let ext = ext_from_url(url);
    cat3(safe.as_str(), ".", ext)
}

/// The output name that `yt-dlp` is given for clip `id`: `<safe id>.%(ext)s`,
/// which it completes with the extension it picks.
pub fn ytdlp_output_name(id: &str) -> (r: String)
    ensures
        r@ == safe_id_spec(id@) + ".%(ext)s"@,
{
    let safe = safe_file_id(id);
    cat(safe.as_str(), ".%(ext)s")
}

/// The `yt-dlp` arguments that save `url` to `template`, at most 1080 lines
/// high, merged into MP4.
pub open spec fn download_args_spec(url: Seq<char>, template: Seq<char>, browser: Option<Seq<char>>) -> Seq<Seq<char>> {
    let base = seq![
        url,
        "-o"@,
        template,
        "--no-playlist"@,
        "--quiet"@,
        "--merge-output-format"@,
        "mp4"@,
        "-f"@,
        "bestvideo[height<=1080]+bestaudio/best[height<=1080]/best"@,
    ];
    match browser {
        Some(b) => base.push("--cookies-from-browser"@).push(b),
        None => base,
    }
}

/// The `yt-dlp` arguments that save `url` to `template`, reading cookies
/// from `browser` when one is named.
pub fn ytdlp_download_args(url: &str, template: &str, browser: Option<&str>) -> (r: Vec<String>)
    ensures
        strings_view(r@) == download_args_spec(url@, template@, match browser {
            Some(b) => Some(b@),
            None => None,
        }),
{
    let mut args: Vec<String> = Vec::new();
    args.push(url.to_string());
    args.push("-o".to_string());
    args.push(template.to_string());
    args.push("--no-playlist".to_string());
    args.push("--quiet".to_string());
    args.push("--merge-output-format".to_string());
    args.push("mp4".to_string());
    args.push("-f".to_string());
    args.push("bestvideo[height<=1080]+bestaudio/best[height<=1080]/best".to_string());
    match browser {
        Some(b) => {
            args.push("--cookies-from-browser".to_string());
            args.push(b.to_string());
        },
        None => {},
    }
    assert(strings_view(args@) =~= download_args_spec(url@, template@, match browser {
        Some(b) => Some(b@),
        None => None,
    }));
    args
}

/// `name` starts with `prefix`.
pub open spec fn starts_with_seq(name: Seq<char>, prefix: Seq<char>) -> bool {
    prefix.len() <= name.len() && name.take(prefix.len() as int) == prefix
}

/// Whether `name` starts with `prefix`.
fn starts_with_text(name: &str, prefix: &Vec<char>) -> (r: bool)
    ensures
        r == starts_with_seq(name@, prefix@),
{
    let cs = chars_of(name);
    if prefix.len() > cs.len() {
        return false;
    }
    for i in 0..prefix.len()
        invariant
            prefix@.len() <= cs@.len(),
            cs@ == name@,
            forall|k: int| 0 <= k < i ==> cs@[k] == prefix@[k],
    {
        if cs[i] != prefix[i] {
            assert(name@.take(prefix@.len() as int)[i as int] != prefix@[i as int]);
            return false;
        }
    }
    assert(name@.take(prefix@.len() as int) =~= prefix@);
    true
}

/// The position of the first of `names` that starts with `prefix`: the file
/// that `yt-dlp` wrote, among the names of the download directory.
pub fn find_with_prefix(names: &Vec<String>, prefix: &str) -> (r: Option<usize>)
    ensures
        match r {
            Some(i) => i < names@.len() && starts_with_seq(names@[i as int]@, prefix@)
                && forall|k: int| 0 <= k < i ==> !starts_with_seq(#[trigger] names@[k]@, prefix@),
            None => forall|k: int| 0 <= k < names@.len() ==> !starts_with_seq(#[trigger] names@[k]@, prefix@),
        },
{
    let p = chars_of(prefix);
    for i in 0..names.len()
        invariant
            p@ == prefix@,
            forall|k: int| 0 <= k < i ==> !starts_with_seq(#[trigger] names@[k]@, prefix@),
    {
        if starts_with_text(names[i].as_str(), &p) {
            return Some(i);
        }
    }
    None
}

/// How a clip is fetched.
#[derive(Debug, Clone, Copy, PartialEq, Eq)]
pub enum DownloadMethod {
    /// Through `yt-dlp`.
    YtDlp,
    /// From the archive item's largest MP4 file.
    Archive,
    /// By a plain HTTP download of the address.
    Direct,
}

/// How a clip of `source` is fetched: YouTube through `yt-dlp`, archive
/// items from their MP4 file, everything else directly.
pub open spec fn method_spec(source: Seq<char>) -> DownloadMethod {
    if source == "youtube"@ {
        DownloadMethod::YtDlp
    } else if source == "archive"@ {
        DownloadMethod::Archive
    } else {
        DownloadMethod::Direct
    }
}

/// How a clip of `source` is fetched.
pub fn download_method(source: &str) -> (r: DownloadMethod)
    ensures
        r == method_spec(source@),
{
    if same_text(source, "youtube") {
        DownloadMethod::YtDlp
    } else if same_text(source, "archive") {
        DownloadMethod::Archive
    } else {
        DownloadMethod::Direct
    }
}

/// Where a download stands.
#[derive(Debug, Clone)]
pub enum DownloadStage {
    /// Accepted, nothing done yet.
    Queued,
    /// Marked as downloading; the directory is being looked up.
    Resolving,
    /// The directory is known and being created.
    Preparing(String),
    /// The clip is being fetched.
    Fetching,
    /// The file is saved.
    Complete(String),
    /// The download failed.
    Failed,
}

/// What happened since the last step.
#[derive(Debug, Clone)]
pub enum DownloadEvent {
    /// The download may start.
    Begin,
    /// The directory for the clip is `dir`.
    DirResolved(String),
    /// The directory exists now.
    DirCreated,
    /// The directory could not be created.
    DirFailed,
    /// The clip was saved at this path.
    Fetched(String),
    /// The fetch failed, for this reason.
    FetchFailed(String),
}

/// What to do next.
#[derive(Debug, Clone)]
pub enum DownloadAction {
    /// Mark the clip as `downloading`, then look up the directory of its
    /// project (the downloads root when it has none).
    MarkDownloading(Option<String>),
    /// Create this directory.
    CreateDir(String),
    /// Fetch `url` into `dir` for clip `id`, by `method`.
    Fetch { method: DownloadMethod, url: String, dir: String, id: String },
    /// Mark the clip `complete`, saved at this path.
    MarkComplete(String),
    /// Mark the clip `error`.
    MarkError,
    /// Keep this message of why the download failed, and mark the clip `error`.
    RecordFailure(String),
    /// Nothing: the download is over, or the event does not fit its stage.
    Nothing,
}

/// A download in progress: the request and where it stands.
#[derive(Debug)]
pub struct DownloadJob {
    pub req: DownloadRequest,
    pub stage: DownloadStage,
}

/// The download is over, one way or the other.
pub open spec fn is_finished(stage: DownloadStage) -> bool {
    stage is Complete || stage is Failed
}

/// How far a download is from being over: the steps still to take.
pub open spec fn remaining_steps(stage: DownloadStage) -> nat {
    match stage {
        DownloadStage::Queued => 4,
        DownloadStage::Resolving => 3,
        DownloadStage::Preparing(_) => 2,
        DownloadStage::Fetching => 1,
        _ => 0,
    }
}

/// The stage that follows `stage` on `event`.
pub open spec fn next_stage(stage: DownloadStage, event: DownloadEvent) -> DownloadStage {
    match (stage, event) {
        (DownloadStage::Queued, DownloadEvent::Begin) => DownloadStage::Resolving,
        (DownloadStage::Resolving, DownloadEvent::DirResolved(dir)) => DownloadStage::Preparing(dir),
        (DownloadStage::Preparing(_), DownloadEvent::DirCreated) => DownloadStage::Fetching,
        (DownloadStage::Preparing(_), DownloadEvent::DirFailed) => DownloadStage::Failed,
        (DownloadStage::Fetching, DownloadEvent::Fetched(path)) => DownloadStage::Complete(path),
        (DownloadStage::Fetching, DownloadEvent::FetchFailed(_)) => DownloadStage::Failed,
        (s, _) => s,
    }
}

/// `action` is what is to be done when a download of `req` in `stage` meets
/// `event`.
pub open spec fn action_fits(req: DownloadRequest, stage: DownloadStage, event: DownloadEvent, action: DownloadAction) -> bool {
    match (stage, event) {
        (DownloadStage::Queued, DownloadEvent::Begin) =>
            action == DownloadAction::MarkDownloading(req.project_id),
        (DownloadStage::Resolving, DownloadEvent::DirResolved(dir)) =>
            action == DownloadAction::CreateDir(dir),
        (DownloadStage::Preparing(dir), DownloadEvent::DirCreated) =>
            action == (DownloadAction::Fetch {
                method: method_spec(req.source@),
                url: req.download_url,
                dir: dir,
                id: req.id,
            }),
        (DownloadStage::Preparing(_), DownloadEvent::DirFailed) =>
            action == DownloadAction::MarkError,
        (DownloadStage::Fetching, DownloadEvent::Fetched(path)) =>
            action == DownloadAction::MarkComplete(path),
        (DownloadStage::Fetching, DownloadEvent::FetchFailed(reason)) =>
            action matches DownloadAction::RecordFailure(m) && m@ == failure_message(req.id@, reason@),
        _ => action == DownloadAction::Nothing,
    }
}

/// The message kept when fetching clip `id` failed for `reason`.
pub open spec fn failure_message(id: Seq<char>, reason: Seq<char>) -> Seq<char> {
    "Download failed for "@ + id + ": "@ + reason
}

impl DownloadJob {
    /// A download of `req`, not started.
    pub fn new(req: DownloadRequest) -> (r: DownloadJob)
        ensures
            r.req == req,
            r.stage is Queued,
    {
        DownloadJob { req, stage: DownloadStage::Queued }
    }

    /// Moves the download on by `event` and says what to do next.
    pub fn step(&mut self, event: DownloadEvent) -> (r: DownloadAction)
        ensures
            final(self).req == old(self).req,
            final(self).stage == next_stage(old(self).stage, event),
            action_fits(old(self).req, old(self).stage, event, r),
    {
        let mut stage = DownloadStage::Failed;
        std::mem::swap(&mut stage, &mut self.stage);
        match (stage, event) {
            (DownloadStage::Queued, DownloadEvent::Begin) => {
                self.stage = DownloadStage::Resolving;
                DownloadAction::MarkDownloading(self.req.project_id.clone())
            },
            (DownloadStage::Resolving, DownloadEvent::DirResolved(dir)) => {
                self.stage = DownloadStage::Preparing(dir.clone());
                DownloadAction::CreateDir(dir)
            },
            (DownloadStage::Preparing(dir), DownloadEvent::DirCreated) => {
                self.stage = DownloadStage::Fetching;
                DownloadAction::Fetch {
                    method: download_method(self.req.source.as_str()),
                    url: self.req.download_url.clone(),
                    dir,
                    id: self.req.id.clone(),
                }
            },
            (DownloadStage::Preparing(_), DownloadEvent::DirFailed) => {
                self.stage = DownloadStage::Failed;
                DownloadAction::MarkError
            },
            (DownloadStage::Fetching, DownloadEvent::Fetched(path)) => {
                self.stage = DownloadStage::Complete(path.clone());
                DownloadAction::MarkComplete(path)
            },
            (DownloadStage::Fetching, DownloadEvent::FetchFailed(reason)) => {
                self.stage = DownloadStage::Failed;
                DownloadAction::RecordFailure(cat3(
                    cat("Download failed for ", self.req.id.as_str()).as_str(),
                    ": ",
                    reason.as_str(),
                ))
            },
            (s, _) => {
                self.stage = s;
                DownloadAction::Nothing
            },
        }
    }
}

/// Once a download is over it stays over, and nothing more is done for it.
pub proof fn lemma_finished_is_final(req: DownloadRequest, stage: DownloadStage, event: DownloadEvent, action: DownloadAction)
    requires
        is_finished(stage),
        action_fits(req, stage, event, action),
    ensures
        next_stage(stage, event) == stage,
        action == DownloadAction::Nothing,
{
}

/// Every step that moves a download brings it closer to its end: a download
/// is over after at most four moves.
pub proof fn lemma_steps_progress(stage: DownloadStage, event: DownloadEvent)
    ensures
        next_stage(stage, event) != stage ==> remaining_steps(next_stage(stage, event)) < remaining_steps(stage),
        remaining_steps(stage) == 0 <==> is_finished(stage),
{
}

/// A download becomes complete only when its fetch saved a file, and then
/// the clip is marked complete with that file's path.
pub proof fn lemma_complete_has_file(req: DownloadRequest, stage: DownloadStage, event: DownloadEvent, action: DownloadAction)
    requires
        !(stage is Complete),
        next_stage(stage, event) is Complete,
        action_fits(req, stage, event, action),
    ensures
        stage is Fetching,
        event matches DownloadEvent::Fetched(path) && next_stage(stage, event) == DownloadStage::Complete(path)
            && action == DownloadAction::MarkComplete(path),
{
}

/// The path that `std::path::Path::join` makes of `base` and `part`.
pub uninterp spec fn path_join(base: Seq<char>, part: Seq<char>) -> Seq<char>;

/// Calls `std::path::Path::join` on `base` with `part` and turns the path
/// into a string; the result is the named join of the two.
#[verifier::external_body]
fn join_path(base: &str, part: &str) -> (r: String)
    ensures
        r@ == path_join(base@, part@),
{
    std::path::Path::new(base).join(part).to_string_lossy().into_owned()
}

/// The directory a clip is saved in: the downloads directory itself, or its
/// subdirectory named by the slug of the clip's project.
pub fn project_dir(downloads_dir: &str, slug: Option<String>) -> (r: String)
    ensures
        r@ == match slug {
            Some(s) => path_join(downloads_dir@, s@),
            None => downloads_dir@,
        },
{
    match slug {
        Some(s) => join_path(downloads_dir, s.as_str()),
        None => downloads_dir.to_string(),
    }
}

/// The output template that `yt-dlp` is given for clip `id` in `dir`.
pub fn ytdlp_template(dir: &str, id: &str) -> (r: String)
    ensures
        r@ == path_join(dir@, safe_id_spec(id@) + ".%(ext)s"@),
{
    let name = ytdlp_output_name(id);
    join_path(dir, name.as_str())
}

/// The path that a direct download of `url` for clip `id` is saved at in `dir`.
pub fn direct_destination(dir: &str, url: &str, id: &str) -> (r: String)
    ensures
        r@ == path_join(dir@, safe_id_spec(id@) + "."@ + ext_spec(url@)),
{
    let name = direct_file_name(url, id);
    join_path(dir, name.as_str())
}

} // verus!
