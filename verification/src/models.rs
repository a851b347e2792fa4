//! The records that the server reads, stores and answers with, and the
//! project-name slug.
use vstd::prelude::*;

use crate::pieces::{
    join_chars, join_parts, keep_nonempty, lemma_join_pieces, lemma_nonempty_pieces,
    lemma_nonempty_parts_len, lemma_split_has_content, lemma_split_pieces_filled,
    lemma_nonempty_parts_all, lemma_join_split, lemma_split_nonempty, lemma_split_pieces, nonempty_parts, split_chars, split_on, well_joined,
};
use crate::text::{chars_of, string_of, trim, trimmed};
use crate::unicode::{is_alphanumeric, is_alphanumeric_char, lowercase_text, to_lowercase};

verus! {

/// One clip found by a search, as shown to the user.
#[derive(Debug, Clone)]
pub struct VideoResult {
    pub id: String,
    pub title: String,
    pub source: String,
    /// Length in seconds, held as the bit pattern of an `f64` (`f64::to_bits`).
    pub duration: Option<u64>,
    pub thumbnail: Option<String>,
    pub preview_url: Option<String>,
    pub download_url: Option<String>,
    pub license: Option<String>,
    pub width: Option<u32>,
    pub height: Option<u32>,
}

/// A request to save a clip to the library.
#[derive(Debug, Clone)]
pub struct DownloadRequest {
    pub id: String,
    pub title: String,
    pub source: String,
    pub download_url: String,
    pub thumbnail: Option<String>,
    /// Length in seconds, held as the bit pattern of an `f64` (`f64::to_bits`).
    pub duration: Option<u64>,
    pub project_id: Option<String>,
}

/// A saved clip: one row of the `videos` table with its project's name.
#[derive(Debug, Clone)]
pub struct LibraryVideo {
    pub id: String,
    pub title: String,
    pub source: String,
    pub filepath: Option<String>,
    /// Length in seconds, held as the bit pattern of an `f64` (`f64::to_bits`).
    pub duration: Option<u64>,
    pub tags: Option<String>,
    pub thumbnail: Option<String>,
    pub original_url: Option<String>,
    pub status: String,
    pub project_id: Option<String>,
    pub project_name: Option<String>,
    pub created_at: String,
}

/// A named collection of clips; its files go to a directory named by `slug`.
#[derive(Debug, Clone)]
pub struct Project {
    pub id: String,
    pub name: String,
    pub slug: String,
    pub created_at: String,
}

/// A request to create a project.
#[derive(Debug, Clone)]
pub struct CreateProjectRequest {
    pub name: String,
}

/// The query of a search: the words and, optionally, which sources to ask.
#[derive(Debug, Clone)]
pub struct SearchParams {
    pub q: String,
    pub sources: Option<String>,
}

/// The filter of a library listing.
#[derive(Debug, Clone)]
pub struct LibraryParams {
    pub project_id: Option<String>,
}

/// New tags for a saved clip.
#[derive(Debug, Clone)]
pub struct TagUpdate {
    pub tags: String,
}

/// Where a download stands.
#[derive(Debug, Clone)]
pub struct StatusResponse {
    pub id: String,
    pub status: String,
    pub filepath: Option<String>,
}

/// The characters of an optional string.
pub open spec fn opt_view(o: Option<String>) -> Option<Seq<char>> {
    match o {
        Some(s) => Some(s@),
        None => None,
    }
}

/// A character that may stand in a slug.
pub open spec fn slug_char_ok(c: char) -> bool {
    is_alphanumeric_char(c) || c == '-'
}

/// `c` as it enters a slug: kept when alphanumeric or `-`, else a `-`.
pub open spec fn slug_char(c: char) -> char {
    if slug_char_ok(c) { c } else { '-' }
}

/// The slug made of an already trimmed and lowercased name `l`: every
/// character that is neither alphanumeric nor `-` made a `-`, then the runs
/// between dashes that are not empty joined with single dashes.
pub open spec fn slug_from(l: Seq<char>) -> Seq<char> {
    join_parts(nonempty_parts(split_on(l.map_values(|c: char| slug_char(c)), '-')), seq!['-'])
}

/// The slug of a project name: the slug of the name trimmed and lowercased.
pub open spec fn slug_of(name: Seq<char>) -> Seq<char> {
    slug_from(lowercase_text(trimmed(name)))
}

/// `s` is a slug: alphanumeric characters and dashes, with no dash at
/// either end and no two dashes in a row.
pub open spec fn is_slug(s: Seq<char>) -> bool {
    &&& forall|i: int| 0 <= i < s.len() ==> slug_char_ok(#[trigger] s[i])
    &&& well_joined(s, '-')
}

/// Whatever the name, its slug is a slug: every character is alphanumeric or
/// a dash, and the dashes only ever stand singly between alphanumeric runs.
pub proof fn lemma_slug_well_formed(name: Seq<char>)
    ensures
        is_slug(slug_of(name)),
{
    let mapped = lowercase_text(trimmed(name)).map_values(|c: char| slug_char(c));
    let p = |c: char| slug_char_ok(c);
    assert forall|i: int| 0 <= i < mapped.len() implies p(#[trigger] mapped[i]) by {}
    lemma_split_pieces(mapped, '-', p);
    lemma_nonempty_pieces(split_on(mapped, '-'), '-', p);
    lemma_join_pieces(nonempty_parts(split_on(mapped, '-')), '-', p);
}

/// A name has a non-empty slug exactly when, trimmed and lowercased, it has
/// an alphanumeric character other than `-`.
pub proof fn lemma_slug_empty_iff_no_alphanumeric(name: Seq<char>)
    ensures
        slug_of(name).len() == 0 <==> (forall|i: int| 0 <= i < lowercase_text(trimmed(name)).len()
            ==> !(is_alphanumeric_char(#[trigger] lowercase_text(trimmed(name))[i])
                && lowercase_text(trimmed(name))[i] != '-')),
{
    let l = lowercase_text(trimmed(name));
    let mapped = l.map_values(|c: char| slug_char(c));
    let p = |c: char| slug_char_ok(c);
    assert forall|i: int| 0 <= i < mapped.len() implies p(#[trigger] mapped[i]) by {}
    lemma_split_pieces(mapped, '-', p);
    lemma_nonempty_pieces(split_on(mapped, '-'), '-', p);
    lemma_join_pieces(nonempty_parts(split_on(mapped, '-')), '-', p);
    lemma_split_has_content(mapped, '-');
    lemma_nonempty_parts_len(split_on(mapped, '-'));
    if exists|i: int| 0 <= i < l.len() && is_alphanumeric_char(#[trigger] l[i]) && l[i] != '-' {
        let i = choose|i: int| 0 <= i < l.len() && is_alphanumeric_char(#[trigger] l[i]) && l[i] != '-';
        assert(mapped[i] != '-');
    }
    if exists|i: int| 0 <= i < mapped.len() && #[trigger] mapped[i] != '-' {
        let i = choose|i: int| 0 <= i < mapped.len() && #[trigger] mapped[i] != '-';
        assert(is_alphanumeric_char(l[i]) && l[i] != '-');
    }
}

/// A name that is already a slug, and that trimming and lowercasing leave as
/// it is, is its own slug.
pub proof fn lemma_slug_of_slug(s: Seq<char>)
    requires
        is_slug(s),
        trimmed(s) == s,
        lowercase_text(s) == s,
    ensures
        slug_of(s) == s,
{
    let mapped = lowercase_text(trimmed(s)).map_values(|c: char| slug_char(c));
    assert(mapped =~= s);
    let p = split_on(s, '-');
    if s.len() == 0 {
        assert(p =~= seq![Seq::<char>::empty()]);
        assert(p.last().len() == 0);
        assert(p.drop_last() =~= Seq::<Seq<char>>::empty());
        assert(nonempty_parts(p) == nonempty_parts(p.drop_last()));
        assert(nonempty_parts(p.drop_last()) =~= Seq::<Seq<char>>::empty());
        assert(slug_of(s) =~= s);
    } else {
        lemma_split_pieces_filled(s, '-');
        lemma_split_nonempty(s, '-');
        assert forall|k: int| 0 <= k < p.len() implies (#[trigger] p[k]).len() > 0 by {
            if k == p.len() - 1 {
                assert(p[k] == p.last());
            }
        }
        lemma_nonempty_parts_all(p);
        lemma_join_split(s, '-');
    }
}

/// The slug of a name that is already trimmed and lowercased.
pub fn slug_from_lowercase(lower: &str) -> (r: String)
    ensures
        r@ == slug_from(lower@),
{
    let cs = chars_of(lower);
    let mut mapped: Vec<char> = Vec::new();
    for i in 0..cs.len()
        invariant
            cs@ == lower@,
            mapped@ == cs@.take(i as int).map_values(|c: char| slug_char(c)),
    {
        let c = cs[i];
        let m = if is_alphanumeric(c) || c == '-' { c } else { '-' };
        mapped.push(m);
        assert(cs@.take(i + 1).map_values(|c: char| slug_char(c))
            =~= cs@.take(i as int).map_values(|c: char| slug_char(c)).push(m));
    }
    assert(cs@.take(cs@.len() as int) == cs@);
    let parts = split_chars(&mapped, '-');
    let kept = keep_nonempty(&parts);
    let mut dash: Vec<char> = Vec::new();
    dash.push('-');
    assert(dash@ =~= seq!['-']);
    let joined = join_chars(&kept, &dash);
    string_of(&joined)
}

/// Slugify a project name to a filesystem-safe directory name.
pub fn slugify(s: &str) -> (r: String)
    ensures
        r@ == slug_of(s@),
        is_slug(r@),
{
    proof {
        lemma_slug_well_formed(s@);
    }
    let t = trim(s);
    let lower = to_lowercase(t);
    slug_from_lowercase(lower.as_str())
}

/// Slugifying a slug again changes nothing, when trimming and lowercasing
/// leave the slug as it is.
pub proof fn lemma_slugify_idempotent(name: Seq<char>)
    requires
        trimmed(slug_of(name)) == slug_of(name),
        lowercase_text(slug_of(name)) == slug_of(name),
    ensures
        slug_of(slug_of(name)) == slug_of(name),
{
    lemma_slug_well_formed(name);
    lemma_slug_of_slug(slug_of(name));
}

} // verus!
