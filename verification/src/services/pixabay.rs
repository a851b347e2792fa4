//! Results of the Pixabay video search.
use vstd::prelude::*;

use crate::models::{opt_view, VideoResult};
use crate::numbers::{decimal, decimal_string};
use crate::text::{append_str, cat, cat3, pairs_view, chars_of, string_of, sub_chars};
use crate::unicode::{to_uppercase, uppercase_char};

verus! {

/// The body of a Pixabay video search answer.
#[derive(Debug)]
pub struct PixabayResponse {
    pub hits: Vec<PixabayHit>,
}

/// One video of a Pixabay answer.
#[derive(Debug)]
pub struct PixabayHit {
    pub id: u64,
    /// Length in seconds, held as the bit pattern of an `f64` (`f64::to_bits`).
    pub duration: Option<u64>,
    pub user_image_url: Option<String>,
    pub videos: PixabayVideos,
}

/// The encodings of a Pixabay video, by size.
#[derive(Debug)]
pub struct PixabayVideos {
    pub large: Option<PixabayFile>,
    pub medium: Option<PixabayFile>,
    pub small: Option<PixabayFile>,
    pub tiny: Option<PixabayFile>,
}

/// One encoding of a Pixabay video.
#[derive(Debug, Clone)]
pub struct PixabayFile {
    pub url: String,
    pub width: Option<u32>,
    pub height: Option<u32>,
}

/// The encoding taken: the largest that is present, in the order large,
/// medium, small, tiny.
pub open spec fn best_spec(v: PixabayVideos) -> Option<PixabayFile> {
    if v.large is Some {
        v.large
    } else if v.medium is Some {
        v.medium
    } else if v.small is Some {
        v.small
    } else {
        v.tiny
    }
}

impl PixabayVideos {
    /// The largest encoding present: large, else medium, else small, else tiny.
    pub fn best(self) -> (r: Option<PixabayFile>)
        ensures
            r == best_spec(self),
    {
        match self.large {
            Some(f) => Some(f),
            None => match self.medium {
                Some(f) => Some(f),
                None => match self.small {
                    Some(f) => Some(f),
                    None => self.tiny,
                },
            },
        }
    }
}

/// `s` with its first character in upper case (as `char::to_uppercase`
/// maps it) and the rest unchanged.
pub open spec fn titlecase_spec(s: Seq<char>) -> Seq<char> {
    if s.len() == 0 {
        Seq::<char>::empty()
    } else {
        uppercase_char(s[0]) + s.drop_first()
    }
}

/// `s` with its first character in upper case and the rest unchanged.
pub fn titlecase(s: &str) -> (r: String)
    ensures
        r@ == titlecase_spec(s@),
{
    let cs = chars_of(s);
    if cs.len() == 0 {
        return String::new();
    }
    let up = to_uppercase(cs[0]);
    let rest = sub_chars(&cs, 1, cs.len());
    let mut out = chars_of(up.as_str());
    let rest_s = string_of(&rest);
    append_str(&mut out, rest_s.as_str());
    assert(rest@ == s@.drop_first());
    string_of(&out)
}

/// `r` is what the search answers for hit `h` found for `query`, when `h`
/// has an encoding: id `pixabay_<id>`, title `<Query> — Pixabay #<id>`, the
/// taken encoding's url for preview and download and its size, the user's
/// image as thumbnail.
pub open spec fn pixabay_result_matches(h: PixabayHit, query: Seq<char>, r: VideoResult) -> bool {
    let f = best_spec(h.videos)->0;
    &&& r.id@ == "pixabay_"@ + decimal(h.id as nat)
    &&& r.title@ == titlecase_spec(query) + " — Pixabay #"@ + decimal(h.id as nat)
    &&& r.source@ == "pixabay"@
    &&& r.duration == h.duration
    &&& opt_view(r.thumbnail) == opt_view(h.user_image_url)
    &&& opt_view(r.preview_url) == Some(f.url@)
    &&& opt_view(r.download_url) == Some(f.url@)
    &&& opt_view(r.license) == Some("Pixabay License (free commercial use)"@)
    &&& r.width == f.width
    &&& r.height == f.height
}

/// What the search answers for one Pixabay hit found for `query`: nothing
/// when the hit has no encoding.
pub fn pixabay_result(h: PixabayHit, query: &str) -> (r: Option<VideoResult>)
    ensures
        r is None <==> best_spec(h.videos) is None,
        r matches Some(v) ==> pixabay_result_matches(h, query@, v),
{
    let PixabayHit { id, duration, user_image_url, videos } = h;
    let best = match videos.best() {
        Some(f) => f,
        None => return None,
    };
    let num = decimal_string(id);
    let tq = titlecase(query);
    Some(VideoResult {
        id: cat("pixabay_", num.as_str()),
        title: cat3(tq.as_str(), " — Pixabay #", num.as_str()),
        source: "pixabay".to_string(),
        duration,
        thumbnail: user_image_url,
        preview_url: Some(best.url.clone()),
        download_url: Some(best.url),
        license: Some("Pixabay License (free commercial use)".to_string()),
        width: best.width,
        height: best.height,
    })
}

/// The hits of `hits` that have an encoding, in order.
pub open spec fn kept_hits(hits: Seq<PixabayHit>) -> Seq<PixabayHit>
    decreases hits.len(),
{
    if hits.len() == 0 {
        Seq::<PixabayHit>::empty()
    } else if best_spec(hits.last().videos) is Some {
        kept_hits(hits.drop_last()).push(hits.last())
    } else {
        kept_hits(hits.drop_last())
    }
}

/// What the search answers for a Pixabay response to `query`: one result
/// per hit that has an encoding, in order.
pub fn pixabay_results(resp: PixabayResponse, query: &str) -> (r: Vec<VideoResult>)
    ensures
        r@.len() == kept_hits(resp.hits@).len(),
        forall|i: int| 0 <= i < r@.len() ==> pixabay_result_matches(kept_hits(resp.hits@)[i], query@, #[trigger] r@[i]),
{
    let ghost all = resp.hits@;
    let mut hits = resp.hits;
    let mut out: Vec<VideoResult> = Vec::new();
    let mut k: usize = 0;
    let n = hits.len();
    assert(all.take(0) =~= Seq::<PixabayHit>::empty());
    while hits.len() > 0
        invariant
            k + hits@.len() == all.len(),
            all.len() == n,
            hits@ == all.skip(k as int),
            out@.len() == kept_hits(all.take(k as int)).len(),
            forall|i: int| 0 <= i < out@.len() ==> pixabay_result_matches(kept_hits(all.take(k as int))[i], query@, #[trigger] out@[i]),
        decreases hits@.len(),
    {
        let h = hits.remove(0);
        assert(h == all[k as int]);
        assert(all.take(k + 1).drop_last() == all.take(k as int));
        assert(all.take(k + 1).last() == h);
        let ghost prev = kept_hits(all.take(k as int));
        match pixabay_result(h, query) {
            Some(res) => {
                out.push(res);
                assert(kept_hits(all.take(k + 1)) == prev.push(h));
                assert forall|i: int| 0 <= i < out@.len() implies pixabay_result_matches(kept_hits(all.take(k + 1))[i], query@, #[trigger] out@[i]) by {
                    if i < prev.len() {
                        assert(kept_hits(all.take(k + 1))[i] == prev[i]);
                    }
                }
            },
            None => {},
        }
        k = k + 1;
        assert(hits@ =~= all.skip(k as int));
    }
    assert(all.take(all.len() as int) == all);
    out
}

/// The address of the Pixabay video search.
pub const PIXABAY_SEARCH_URL: &'static str = "https://pixabay.com/api/videos/";

/// The query parameters of a Pixabay search with key `api_key` for
/// `per_page` films matching `query`.
pub fn pixabay_search_params(api_key: &str, query: &str, per_page: usize) -> (r: Vec<(String, String)>)
    ensures
        pairs_view(r@) == seq![
            ("key"@, api_key@),
            ("q"@, query@),
            ("per_page"@, decimal(per_page as nat)),
            ("video_type"@, "film"@),
        ],
{
    let mut r: Vec<(String, String)> = Vec::new();
    r.push(("key".to_string(), api_key.to_string()));
    r.push(("q".to_string(), query.to_string()));
    r.push(("per_page".to_string(), decimal_string(per_page as u64)));
    r.push(("video_type".to_string(), "film".to_string()));
    assert(pairs_view(r@) =~= seq![
        ("key"@, api_key@),
        ("q"@, query@),
        ("per_page"@, decimal(per_page as nat)),
        ("video_type"@, "film"@),
    ]);
    r
}

/// The encoding taken is the first present one in the order large, medium,
/// small, tiny: a present encoding is passed over only for a larger present
/// one, and nothing is taken only when none is present.
pub proof fn lemma_best_order(v: PixabayVideos)
    ensures
        v.large is Some ==> best_spec(v) == v.large,
        v.large is None && v.medium is Some ==> best_spec(v) == v.medium,
        v.large is None && v.medium is None && v.small is Some ==> best_spec(v) == v.small,
        v.large is None && v.medium is None && v.small is None ==> best_spec(v) == v.tiny,
        best_spec(v) is None <==> (v.large is None && v.medium is None && v.small is None && v.tiny is None),
{
}

/// A hit's result links to its largest present encoding: the large one when
/// there is one, else the medium one, whatever the smaller ones are.
pub proof fn lemma_result_uses_largest(h: PixabayHit, query: Seq<char>, r: VideoResult)
    requires
        best_spec(h.videos) is Some,
        pixabay_result_matches(h, query, r),
    ensures
        h.videos.large matches Some(f) ==> opt_view(r.download_url) == Some(f.url@) && r.width == f.width,
        h.videos.large is None && h.videos.medium is Some ==> opt_view(r.download_url) == Some(h.videos.medium->0.url@)
            && r.width == h.videos.medium->0.width,
{
}

} // verus!
