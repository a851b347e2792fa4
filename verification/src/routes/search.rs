//! Which sources a search asks, and how their answers are put together.
use vstd::prelude::*;

use crate::models::{SearchParams, VideoResult};
use crate::text::{contains_seq, contains_text, trim, trimmed};

verus! {

/// How many results each source is asked for.
pub const PEXELS_COUNT: usize = 8;
pub const PIXABAY_COUNT: usize = 8;
pub const ARCHIVE_COUNT: usize = 6;
pub const YOUTUBE_COUNT: usize = 8;

/// The sources asked when a search names none.
pub open spec fn default_sources() -> Seq<char> {
    "pexels,pixabay,archive,youtube"@
}

/// What a search does: the trimmed words, and which sources it asks.
#[derive(Debug)]
pub struct SearchPlan {
    pub query: String,
    pub pexels: bool,
    pub pixabay: bool,
    pub archive: bool,
    pub youtube: bool,
}

/// The sources that `params` names, or all of them when it names none.
pub open spec fn sources_spec(params: SearchParams) -> Seq<char> {
    match params.sources {
        Some(s) => s@,
        None => default_sources(),
    }
}

/// What a search for `params` does: a source is asked when its name occurs
/// in the list of sources.
pub fn plan_search(params: &SearchParams) -> (r: SearchPlan)
    ensures
        r.query@ == trimmed(params.q@),
        r.pexels == contains_seq(sources_spec(*params), "pexels"@),
        r.pixabay == contains_seq(sources_spec(*params), "pixabay"@),
        r.archive == contains_seq(sources_spec(*params), "archive"@),
        r.youtube == contains_seq(sources_spec(*params), "youtube"@),
{
    let query = trim(params.q.as_str()).to_string();
    let sources: &str = match &params.sources {
        Some(s) => s.as_str(),
        None => "pexels,pixabay,archive,youtube",
    };
    SearchPlan {
        query,
        pexels: contains_text(sources, "pexels"),
        pixabay: contains_text(sources, "pixabay"),
        archive: contains_text(sources, "archive"),
        youtube: contains_text(sources, "youtube"),
    }
}

/// The answers of the sources as one list: each source's results, in the
/// order the sources were asked.
pub fn combine_results(all: Vec<Vec<VideoResult>>) -> (r: Vec<VideoResult>)
    ensures
        r@ == all@.map_values(|v: Vec<VideoResult>| v@).flatten(),
{
    let ghost whole = all@.map_values(|v: Vec<VideoResult>| v@);
    let mut rest = all;
    let mut out: Vec<VideoResult> = Vec::new();
    let ghost mut k: int = 0;
    assert(whole.take(0) =~= Seq::<Seq<VideoResult>>::empty());
    while rest.len() > 0
        invariant
            0 <= k <= whole.len(),
            rest@.len() + k == whole.len(),
            rest@.map_values(|v: Vec<VideoResult>| v@) == whole.skip(k),
            out@ == whole.take(k).flatten(),
        decreases rest@.len(),
    {
        assert(rest@.map_values(|v: Vec<VideoResult>| v@)[0] == rest@[0]@);
        let ghost old_rest = rest@;
        let mut v = rest.remove(0);
        assert(v@ == whole[k]);
        assert(whole.take(k + 1).drop_last() == whole.take(k));
        assert(whole.take(k + 1).flatten() == whole.take(k).flatten() + whole[k]) by {
            whole.take(k + 1).lemma_flatten_and_flatten_alt_are_equivalent();
            whole.take(k).lemma_flatten_and_flatten_alt_are_equivalent();
        }
        out.append(&mut v);
        proof {
            k = k + 1;
        }
        assert forall|i: int| 0 <= i < rest@.len() implies rest@.map_values(|v: Vec<VideoResult>| v@)[i] == whole.skip(k)[i] by {
            assert(rest@[i] == old_rest[i + 1]);
            assert(old_rest.map_values(|v: Vec<VideoResult>| v@)[i + 1] == whole.skip(k - 1)[i + 1]);
        }
        assert(rest@.map_values(|v: Vec<VideoResult>| v@) =~= whole.skip(k));
    }
    assert(whole.take(k) == whole);
    out
}

} // verus!
