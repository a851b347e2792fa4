//! Results of the Pexels video search.
use vstd::prelude::*;

use crate::models::{opt_view, VideoResult};
use crate::numbers::{decimal, decimal_string};
use crate::text::{cat, cat3, pairs_view};

verus! {

/// The body of a Pexels video search answer.
#[derive(Debug)]
pub struct PexelsResponse {
    pub videos: Vec<PexelsVideo>,
}

/// One video of a Pexels answer.
#[derive(Debug)]
pub struct PexelsVideo {
    pub id: u64,
    /// Length in seconds, held as the bit pattern of an `f64` (`f64::to_bits`).
    pub duration: Option<u64>,
    pub user: Option<PexelsUser>,
    pub video_files: Vec<PexelsFile>,
    pub video_pictures: Vec<PexelsPicture>,
}

/// The author of a Pexels video.
#[derive(Debug)]
pub struct PexelsUser {
    pub name: String,
}

/// One encoding of a Pexels video.
#[derive(Debug)]
pub struct PexelsFile {
    pub link: String,
    pub width: Option<u32>,
    pub height: Option<u32>,
}

/// A still picture of a Pexels video.
#[derive(Debug)]
pub struct PexelsPicture {
    pub picture: String,
}

/// The widest file that is taken: 1920 pixels.
pub const MAX_WIDTH: u32 = 1920;

/// The width of `f`, a missing width counting as 0.
pub open spec fn width_of(f: PexelsFile) -> nat {
    match f.width {
        Some(w) => w as nat,
        None => 0,
    }
}

/// `f` is no wider than `MAX_WIDTH`.
pub open spec fn eligible(f: PexelsFile) -> bool {
    width_of(f) <= MAX_WIDTH
}

/// `files[i]` is the file taken: among the files no wider than `MAX_WIDTH`
/// the widest, and of equally wide ones the first (what a stable sort by
/// width, widest first, followed by taking the first file that fits, gives).
pub open spec fn is_best_file(files: Seq<PexelsFile>, i: int) -> bool {
    &&& 0 <= i < files.len()
    &&& eligible(files[i])
    &&& forall|j: int| 0 <= j < files.len() && eligible(#[trigger] files[j]) ==> width_of(files[j]) <= width_of(files[i])
    &&& forall|j: int| 0 <= j < i && eligible(#[trigger] files[j]) ==> width_of(files[j]) < width_of(files[i])
}

/// Some file is no wider than `MAX_WIDTH`.
pub open spec fn has_eligible(files: Seq<PexelsFile>) -> bool {
    exists|j: int| 0 <= j < files.len() && eligible(#[trigger] files[j])
}

/// At most one file is the one taken.
pub proof fn lemma_best_file_unique(files: Seq<PexelsFile>, i: int, k: int)
    requires
        is_best_file(files, i),
        is_best_file(files, k),
    ensures
        i == k,
{
    if i < k {
        assert(eligible(files[i]));
    } else if k < i {
        assert(eligible(files[k]));
    }
}

/// The file taken from `files`, if any fits.
pub open spec fn best_file_spec(files: Seq<PexelsFile>) -> Option<PexelsFile> {
    if has_eligible(files) {
        Some(files[choose|i: int| is_best_file(files, i)])
    } else {
        None
    }
}

/// The index of the file taken from `files`, if any fits.
pub fn best_file_index(files: &Vec<PexelsFile>) -> (r: Option<usize>)
    ensures
        r is None <==> !has_eligible(files@),
        r matches Some(i) ==> is_best_file(files@, i as int),
{
    let mut best: Option<usize> = None;
    let mut best_w: u32 = 0;
    for j in 0..files.len()
        invariant
            best is None <==> (forall|k: int| 0 <= k < j ==> !eligible(#[trigger] files@[k])),
            best matches Some(i) ==> {
                &&& i < j
                &&& eligible(files@[i as int])
                &&& best_w as nat == width_of(files@[i as int])
                &&& forall|k: int| 0 <= k < j && eligible(#[trigger] files@[k]) ==> width_of(files@[k]) <= best_w
                &&& forall|k: int| 0 <= k < i && eligible(#[trigger] files@[k]) ==> width_of(files@[k]) < best_w
            },
    {
        let w: u32 = match files[j].width {
            Some(w) => w,
            None => 0,
        };
        assert(w as nat == width_of(files@[j as int]));
        if w <= MAX_WIDTH {
            match best {
                None => {
                    best = Some(j);
                    best_w = w;
                },
                Some(_) => {
                    if w > best_w {
                        best = Some(j);
                        best_w = w;
                    }
                },
            }
        }
    }
    proof {
        if best is None {
            assert forall|k: int| 0 <= k < files@.len() implies !eligible(#[trigger] files@[k]) by {}
        } else {
            assert(eligible(files@[best->0 as int]));
        }
    }
    best
}

/// The file taken from `files`: among those no wider than `MAX_WIDTH` the
/// widest, the first of equally wide ones; `None` when none fits.
pub fn best_file(files: Vec<PexelsFile>) -> (r: Option<PexelsFile>)
    ensures
        r == best_file_spec(files@),
{
    let mut files = files;
    let ghost all = files@;
    match best_file_index(&files) {
        Some(i) => {
            proof {
                let k = choose|k: int| is_best_file(all, k);
                lemma_best_file_unique(all, i as int, k);
            }
            Some(files.remove(i))
        },
        None => None,
    }
}

/// The first character sequence of a picture list, if there is one.
pub open spec fn first_picture(pics: Seq<PexelsPicture>) -> Option<Seq<char>> {
    if pics.len() > 0 {
        Some(pics[0].picture@)
    } else {
        None
    }
}

/// `r` is what the search answers for video `v` found for `query`: id
/// `pexels_<id>`, title `<author> — <query>` (no author: empty), the taken
/// file's link for preview and download and its size (no file fits: an empty
/// link and no size), the first picture as thumbnail, licence `CC0`.
pub open spec fn pexels_result_matches(v: PexelsVideo, query: Seq<char>, r: VideoResult) -> bool {
    let author = match v.user {
        Some(u) => u.name@,
        None => Seq::<char>::empty(),
    };
    let link = match best_file_spec(v.video_files@) {
        Some(f) => f.link@,
        None => Seq::<char>::empty(),
    };
    let (width, height) = match best_file_spec(v.video_files@) {
        Some(f) => (f.width, f.height),
        None => (None, None),
    };
    &&& r.id@ == "pexels_"@ + decimal(v.id as nat)
    &&& r.title@ == author + " — "@ + query
    &&& r.source@ == "pexels"@
    &&& r.duration == v.duration
    &&& opt_view(r.thumbnail) == first_picture(v.video_pictures@)
    &&& opt_view(r.preview_url) == Some(link)
    &&& opt_view(r.download_url) == Some(link)
    &&& opt_view(r.license) == Some("CC0"@)
    &&& r.width == width
    &&& r.height == height
}

/// What the search answers for one Pexels video found for `query`.
pub fn pexels_result(v: PexelsVideo, query: &str) -> (r: VideoResult)
    ensures
        pexels_result_matches(v, query@, r),
{
    let ghost v0 = v;
    let PexelsVideo { id, duration, user, video_files, mut video_pictures } = v;
    let best = best_file(video_files);
    let (link, width, height) = match best {
        Some(f) => (f.link, f.width, f.height),
        None => (String::new(), None, None),
    };
    let thumbnail = if video_pictures.len() > 0 {
        Some(video_pictures.remove(0).picture)
    } else {
        None
    };
    let author = match user {
        Some(u) => u.name,
        None => String::new(),
    };
    let num = decimal_string(id);
    VideoResult {
        id: cat("pexels_", num.as_str()),
        title: cat3(author.as_str(), " — ", query),
        source: "pexels".to_string(),
        duration,
        thumbnail,
        preview_url: Some(link.clone()),
        download_url: Some(link),
        license: Some("CC0".to_string()),
        width,
        height,
    }
}

/// What the search answers for a Pexels response to `query`: one result
/// per video, in order.
pub fn pexels_results(resp: PexelsResponse, query: &str) -> (r: Vec<VideoResult>)
    ensures
        r@.len() == resp.videos@.len(),
        forall|i: int| 0 <= i < r@.len() ==> pexels_result_matches(resp.videos@[i], query@, #[trigger] r@[i]),
{
    let ghost all = resp.videos@;
    let mut videos = resp.videos;
    let mut out: Vec<VideoResult> = Vec::new();
    while videos.len() > 0
        invariant
            out@.len() + videos@.len() == all.len(),
            videos@ == all.skip(out@.len() as int),
            forall|i: int| 0 <= i < out@.len() ==> pexels_result_matches(all[i], query@, #[trigger] out@[i]),
        decreases videos@.len(),
    {
        let ghost k = out@.len();
        let v = videos.remove(0);
        assert(v == all[k as int]);
        let res = pexels_result(v, query);
        out.push(res);
        assert(videos@ =~= all.skip(out@.len() as int));
    }
    out
}

/// The address of the Pexels video search.
pub const PEXELS_SEARCH_URL: &'static str = "https://api.pexels.com/videos/search";

/// The query parameters of a Pexels search for `per_page` videos matching
/// `query`, in medium size.
pub fn pexels_search_params(query: &str, per_page: usize) -> (r: Vec<(String, String)>)
    ensures
        pairs_view(r@) == seq![
            ("query"@, query@),
            ("per_page"@, decimal(per_page as nat)),
            ("size"@, "medium"@),
        ],
{
    let mut r: Vec<(String, String)> = Vec::new();
    r.push(("query".to_string(), query.to_string()));
    r.push(("per_page".to_string(), decimal_string(per_page as u64)));
    r.push(("size".to_string(), "medium".to_string()));
    assert(pairs_view(r@) =~= seq![
        ("query"@, query@),
        ("per_page"@, decimal(per_page as nat)),
        ("size"@, "medium"@),
    ]);
    r
}

} // verus!
