//! Internet Archive: search request, search results, and the choice of the
//! file to download for an item.
use vstd::prelude::*;

use crate::models::{opt_view, VideoResult};
use crate::numbers::{decimal, decimal_string, parse_unsigned, parse_unsigned_spec};
use crate::pieces::{split_chars, split_on, views};
use crate::text::{
    cat, cat3, chars_of, ends_with_chars, ends_with_seq, pairs_view, string_of, strings_view, trim_end_char,
    trim_end_chars,
};

verus! {

/// A JSON value as the archive answers it, reduced to what is read of it:
/// a string, an array (each element kept as its text when it is a string),
/// or anything else.
#[derive(Debug)]
pub enum JsonField {
    Str(String),
    Array(Vec<Option<String>>),
    Other,
}

/// The body of an archive search answer.
#[derive(Debug)]
pub struct ArchiveResponse {
    pub response: ArchiveInner,
}

/// The documents of an archive search answer.
#[derive(Debug)]
pub struct ArchiveInner {
    pub docs: Vec<ArchiveDoc>,
}

/// One item of an archive search answer.
#[derive(Debug)]
pub struct ArchiveDoc {
    pub identifier: String,
    pub title: Option<JsonField>,
    pub runtime: Option<JsonField>,
}

/// The address of the archive search.
pub const ARCHIVE_SEARCH_URL: &'static str = "https://archive.org/advancedsearch.php";

/// The query parameters of an archive search for `rows` items matching `query`.
pub open spec fn search_params_spec(query: Seq<char>, rows: nat) -> Seq<(Seq<char>, Seq<char>)> {
    seq![
        ("q"@, query + " AND mediatype:movies"@),
        ("fl[]"@, "identifier,title,runtime"@),
        ("rows"@, decimal(rows)),
        ("output"@, "json"@),
        ("sort[]"@, "downloads desc"@),
    ]
}

/// The query parameters of an archive search for `rows` movies matching
/// `query`, most downloaded first.
pub fn archive_search_params(query: &str, rows: usize) -> (r: Vec<(String, String)>)
    ensures
        pairs_view(r@) == search_params_spec(query@, rows as nat),
{
    let mut r: Vec<(String, String)> = Vec::new();
    r.push(("q".to_string(), cat(query, " AND mediatype:movies")));
    r.push(("fl[]".to_string(), "identifier,title,runtime".to_string()));
    r.push(("rows".to_string(), decimal_string(rows as u64)));
    r.push(("output".to_string(), "json".to_string()));
    r.push(("sort[]".to_string(), "downloads desc".to_string()));
    assert(pairs_view(r@) =~= search_params_spec(query@, rows as nat));
    r
}

/// The title shown for an item: its title when that is a string, the first
/// element of its title when that is an array whose first element is a
/// string, else its identifier.
pub open spec fn title_spec(title: Option<JsonField>, identifier: Seq<char>) -> Seq<char> {
    match title {
        Some(JsonField::Str(s)) => s@,
        Some(JsonField::Array(a)) => if a@.len() > 0 && a@[0] is Some {
            a@[0]->0@
        } else {
            identifier
        },
        _ => identifier,
    }
}

/// The runtime text of an item: its runtime when that is a string.
pub open spec fn runtime_text_spec(runtime: Option<JsonField>) -> Option<Seq<char>> {
    match runtime {
        Some(JsonField::Str(s)) => Some(s@),
        _ => None,
    }
}

/// The runtime text of an item: its runtime when that is a string.
pub fn runtime_text(runtime: &Option<JsonField>) -> (r: Option<String>)
    ensures
        opt_view(r) == runtime_text_spec(*runtime),
{
    match runtime {
        Some(JsonField::Str(s)) => Some(s.clone()),
        _ => None,
    }
}

/// The fields of a runtime text `h:m:s` or `m:s`: its pieces between colons
/// when there are two or three of them.
pub open spec fn runtime_parts_spec(s: Seq<char>) -> Option<Seq<Seq<char>>> {
    let p = split_on(s, ':');
    if p.len() == 2 || p.len() == 3 {
        Some(p)
    } else {
        None
    }
}

/// The fields of a runtime text `h:m:s` or `m:s`, each of which is then read
/// as a number of hours, minutes or seconds.
pub fn runtime_parts(s: &str) -> (r: Option<Vec<String>>)
    ensures
        match r {
            Some(v) => runtime_parts_spec(s@) == Some(strings_view(v@)),
            None => runtime_parts_spec(s@) is None,
        },
{
    let cs = chars_of(s);
    let parts = split_chars(&cs, ':');
    if parts.len() != 2 && parts.len() != 3 {
        return None;
    }
    let mut out: Vec<String> = Vec::new();
    for i in 0..parts.len()
        invariant
            strings_view(out@) == views(parts@).take(i as int),
    {
        let piece = string_of(&parts[i]);
        assert(strings_view(out@.push(piece)) =~= strings_view(out@).push(piece@));
        out.push(piece);
        assert(views(parts@).take(i + 1) =~= views(parts@).take(i as int).push(parts@[i as int]@));
    }
    assert(views(parts@).take(parts@.len() as int) == views(parts@));
    Some(out)
}

/// `r` is what the search answers for item `doc` whose runtime came to
/// `duration`: id `archive_<identifier>`, the title, the item's image, embed
/// and download pages on archive.org.
pub open spec fn archive_result_matches(doc: ArchiveDoc, duration: Option<u64>, r: VideoResult) -> bool {
    let id = doc.identifier@;
    &&& r.id@ == "archive_"@ + id
    &&& r.title@ == title_spec(doc.title, id)
    &&& r.source@ == "archive"@
    &&& r.duration == duration
    &&& opt_view(r.thumbnail) == Some("https://archive.org/services/img/"@ + id)
    &&& opt_view(r.preview_url) == Some("https://archive.org/embed/"@ + id)
    &&& opt_view(r.download_url) == Some("https://archive.org/download/"@ + id)
    &&& opt_view(r.license) == Some("Public Domain / Open License"@)
    &&& r.width is None
    &&& r.height is None
}

/// What the search answers for one archive item whose runtime came to
/// `duration` seconds (as `f64` bits).
pub fn archive_result(doc: ArchiveDoc, duration: Option<u64>) -> (r: VideoResult)
    ensures
        archive_result_matches(doc, duration, r),
{
    let ArchiveDoc { identifier, title, runtime } = doc;
    let id = identifier.as_str();
    let shown = match title {
        Some(JsonField::Str(s)) => s,
        Some(JsonField::Array(mut a)) => {
            if a.len() > 0 {
                match a.remove(0) {
                    Some(s) => s,
                    None => identifier.clone(),
                }
            } else {
                identifier.clone()
            }
        },
        _ => identifier.clone(),
    };
    VideoResult {
        id: cat("archive_", id),
        title: shown,
        source: "archive".to_string(),
        duration,
        thumbnail: Some(cat("https://archive.org/services/img/", id)),
        preview_url: Some(cat("https://archive.org/embed/", id)),
        download_url: Some(cat("https://archive.org/download/", id)),
        license: Some("Public Domain / Open License".to_string()),
        width: None,
        height: None,
    }
}

/// What the search answers for archive items, one result per item in order;
/// `durations[i]` is what the runtime of `docs[i]` came to.
pub fn archive_results(docs: Vec<ArchiveDoc>, durations: Vec<Option<u64>>) -> (r: Vec<VideoResult>)
    requires
        docs@.len() == durations@.len(),
    ensures
        r@.len() == docs@.len(),
        forall|i: int| 0 <= i < r@.len() ==> archive_result_matches(docs@[i], durations@[i], #[trigger] r@[i]),
{
    let ghost all = docs@;
    let mut docs = docs;
    let mut out: Vec<VideoResult> = Vec::new();
    while docs.len() > 0
        invariant
            out@.len() + docs@.len() == all.len(),
            all.len() == durations@.len(),
            docs@ == all.skip(out@.len() as int),
            forall|i: int| 0 <= i < out@.len() ==> archive_result_matches(all[i], durations@[i], #[trigger] out@[i]),
        decreases docs@.len(),
    {
        let k = out.len();
        let d = docs.remove(0);
        assert(d == all[k as int]);
        let res = archive_result(d, durations[k]);
        out.push(res);
        assert(docs@ =~= all.skip(out@.len() as int));
    }
    out
}

/// The identifier of the item that a download address names: its last
/// path piece, trailing slashes ignored.
pub open spec fn identifier_spec(base_url: Seq<char>) -> Seq<char> {
    split_on(trim_end_char(base_url, '/'), '/').last()
}

/// The identifier of the item that a download address names.
pub fn archive_identifier(base_url: &str) -> (r: String)
    ensures
        r@ == identifier_spec(base_url@),
{
    let cs = chars_of(base_url);
    let t = trim_end_chars(&cs, '/');
    let mut parts = split_chars(&t, '/');
    proof {
        crate::pieces::lemma_split_nonempty(t@, '/');
    }
    let last = parts.len() - 1;
    let piece = parts.remove(last);
    assert(piece@ == views(parts@.push(piece))[last as int]);
    string_of(&piece)
}

/// The address of the metadata of item `identifier`.
pub fn archive_metadata_url(identifier: &str) -> (r: String)
    ensures
        r@ == "https://archive.org/metadata/"@ + identifier@,
{
    cat("https://archive.org/metadata/", identifier)
}

/// One file of an item's metadata, reduced to what is read of it: its
/// name and its size, each when it is a string.
#[derive(Debug)]
pub struct ArchiveFileMeta {
    pub name: Option<String>,
    pub size: Option<String>,
}

/// `f` is an MP4 file: its name ends with `.mp4`.
pub open spec fn is_mp4(f: ArchiveFileMeta) -> bool {
    match f.name {
        Some(n) => ends_with_seq(n@, ".mp4"@),
        None => false,
    }
}

/// The size by which files are compared: the size read as a `u64`, 0 when
/// missing or unreadable.
pub open spec fn size_key(f: ArchiveFileMeta) -> nat {
    match f.size {
        Some(s) => match parse_unsigned_spec(s@, u64::MAX as nat) {
            Some(v) => v,
            None => 0,
        },
        None => 0,
    }
}

/// `files[i]` is the file chosen: an MP4 file of the greatest size key among
/// MP4 files, the last of equally large ones (as `Iterator::max_by_key`).
pub open spec fn is_chosen_mp4(files: Seq<ArchiveFileMeta>, i: int) -> bool {
    &&& 0 <= i < files.len()
    &&& is_mp4(files[i])
    &&& forall|j: int| 0 <= j < files.len() && is_mp4(#[trigger] files[j]) ==> size_key(files[j]) <= size_key(files[i])
    &&& forall|j: int| i < j < files.len() && is_mp4(#[trigger] files[j]) ==> size_key(files[j]) < size_key(files[i])
}

/// Some file is an MP4 file.
pub open spec fn has_mp4(files: Seq<ArchiveFileMeta>) -> bool {
    exists|j: int| 0 <= j < files.len() && is_mp4(#[trigger] files[j])
}

/// At most one file is the one chosen.
pub proof fn lemma_chosen_mp4_unique(files: Seq<ArchiveFileMeta>, i: int, k: int)
    requires
        is_chosen_mp4(files, i),
        is_chosen_mp4(files, k),
    ensures
        i == k,
{
    if i < k {
        assert(is_mp4(files[k]));
    } else if k < i {
        assert(is_mp4(files[i]));
    }
}

/// Whether `f` is an MP4 file, and its size key.
fn mp4_key(f: &ArchiveFileMeta) -> (r: (bool, u64))
    ensures
        r.0 == is_mp4(*f),
        r.0 ==> r.1 as nat == size_key(*f),
{
    let is = match &f.name {
        Some(n) => {
            let cs = chars_of(n.as_str());
            ends_with_chars(&cs, ".mp4")
        },
        None => false,
    };
    let key: u64 = match &f.size {
        Some(s) => match parse_unsigned(s.as_str(), u64::MAX) {
            Some(v) => v,
            None => 0,
        },
        None => 0,
    };
    (is, key)
}

/// The index of the file to download among an item's files, if any is an
/// MP4 file.
pub fn chosen_mp4(files: &Vec<ArchiveFileMeta>) -> (r: Option<usize>)
    ensures
        r is None <==> !has_mp4(files@),
        r matches Some(i) ==> is_chosen_mp4(files@, i as int),
{
    let mut best: Option<usize> = None;
    let mut best_key: u64 = 0;
    for j in 0..files.len()
        invariant
            best is None <==> (forall|k: int| 0 <= k < j ==> !is_mp4(#[trigger] files@[k])),
            best matches Some(i) ==> {
                &&& i < j
                &&& is_mp4(files@[i as int])
                &&& best_key as nat == size_key(files@[i as int])
                &&& forall|k: int| 0 <= k < j && is_mp4(#[trigger] files@[k]) ==> size_key(files@[k]) <= best_key
                &&& forall|k: int| i < k < j && is_mp4(#[trigger] files@[k]) ==> size_key(files@[k]) < best_key
            },
    {
        let (is, key) = mp4_key(&files[j]);
        if is {
            match best {
                None => {
                    best = Some(j);
                    best_key = key;
                },
                Some(_) => {
                    if key >= best_key {
                        best = Some(j);
                        best_key = key;
                    }
                },
            }
        }
    }
    proof {
        if best is None {
            assert forall|k: int| 0 <= k < files@.len() implies !is_mp4(#[trigger] files@[k]) by {}
        } else {
            assert(is_mp4(files@[best->0 as int]));
        }
    }
    best
}

/// The address to download item `identifier` from, given its files: the
/// chosen MP4 file's address, or nothing when it has no MP4 file.
pub open spec fn download_choice_spec(identifier: Seq<char>, files: Seq<ArchiveFileMeta>) -> Option<Seq<char>> {
    if has_mp4(files) {
        let i = choose|i: int| is_chosen_mp4(files, i);
        Some("https://archive.org/download/"@ + identifier + "/"@ + files[i].name->0@)
    } else {
        None
    }
}

/// The address to download item `identifier` from, given its files.
pub fn archive_download_choice(identifier: &str, files: &Vec<ArchiveFileMeta>) -> (r: Option<String>)
    ensures
        opt_view(r) == download_choice_spec(identifier@, files@),
{
    match chosen_mp4(files) {
        Some(i) => {
            proof {
                let k = choose|k: int| is_chosen_mp4(files@, k);
                lemma_chosen_mp4_unique(files@, i as int, k);
            }
            match &files[i].name {
                Some(name) => Some(cat3(cat("https://archive.org/download/", identifier).as_str(), "/", name.as_str())),
                None => None,
            }
        },
        None => None,
    }
}

/// The name of `f` ends with `.mp4`.
pub open spec fn named_mp4(f: ArchiveFileMeta) -> bool {
    f.name is Some && ends_with_seq(f.name->0@, ".mp4"@)
}

/// A file whose name does not end with `.mp4` is never the one chosen: the
/// chosen file has a name, and it ends with `.mp4`.
pub proof fn lemma_chosen_is_mp4(files: Seq<ArchiveFileMeta>, i: int)
    requires
        is_chosen_mp4(files, i),
    ensures
        files[i].name is Some,
        ends_with_seq(files[i].name->0@, ".mp4"@),
{
}

/// When some file is an MP4 file, one of them is the one chosen.
pub proof fn lemma_chosen_exists(files: Seq<ArchiveFileMeta>)
    requires
        has_mp4(files),
    ensures
        exists|i: int| is_chosen_mp4(files, i),
    decreases files.len(),
{
    let init = files.drop_last();
    let n = files.len() - 1;
    if has_mp4(init) {
        lemma_chosen_exists(init);
        let k = choose|k: int| is_chosen_mp4(init, k);
        assert forall|j: int| 0 <= j < init.len() implies #[trigger] files[j] == init[j] by {}
        if is_mp4(files[n]) && size_key(files[n]) >= size_key(files[k]) {
            assert(is_chosen_mp4(files, n));
        } else {
            assert(is_chosen_mp4(files, k));
        }
    } else {
        let j = choose|j: int| 0 <= j < files.len() && is_mp4(#[trigger] files[j]);
        if j < n {
            assert(init[j] == files[j]);
        }
        assert forall|m: int| 0 <= m < n implies !is_mp4(#[trigger] files[m]) by {
            assert(init[m] == files[m]);
        }
        assert(is_chosen_mp4(files, n));
    }
}

/// The address chosen for an item is that of one of its files whose name
/// ends with `.mp4`, no other file being larger; with no such file, there is
/// no address.
pub proof fn lemma_download_choice_is_mp4(identifier: Seq<char>, files: Seq<ArchiveFileMeta>)
    ensures
        download_choice_spec(identifier, files) is Some ==> exists|i: int|
            0 <= i < files.len() && named_mp4(#[trigger] files[i])
                && download_choice_spec(identifier, files)->0
                    == "https://archive.org/download/"@ + identifier + "/"@ + files[i].name->0@
                && forall|j: int| 0 <= j < files.len() && named_mp4(#[trigger] files[j])
                    ==> size_key(files[j]) <= size_key(files[i]),
        (forall|i: int| 0 <= i < files.len() ==> !named_mp4(#[trigger] files[i]))
            ==> download_choice_spec(identifier, files) is None,
{
    if has_mp4(files) {
        lemma_chosen_exists(files);
        let i = choose|i: int| is_chosen_mp4(files, i);
        lemma_chosen_is_mp4(files, i);
        assert(named_mp4(files[i]));
        assert forall|j: int| 0 <= j < files.len() && named_mp4(#[trigger] files[j])
            implies size_key(files[j]) <= size_key(files[i]) by {
            assert(is_mp4(files[j]));
        }
    } else {
        assert forall|i: int| 0 <= i < files.len() && named_mp4(#[trigger] files[i]) implies false by {
            assert(is_mp4(files[i]));
        }
    }
}

/// When an item's title is an array whose first element is a string, the
/// result's title is that first element; when the title is a string, it is
/// that string; with no usable title, it is the identifier.
pub proof fn lemma_archive_title(doc: ArchiveDoc, duration: Option<u64>, r: VideoResult)
    requires
        archive_result_matches(doc, duration, r),
    ensures
        match doc.title {
            Some(JsonField::Array(a)) => if a@.len() > 0 && a@[0] is Some {
                r.title@ == a@[0]->0@
            } else {
                r.title@ == doc.identifier@
            },
            Some(JsonField::Str(t)) => r.title@ == t@,
            _ => r.title@ == doc.identifier@,
        },
{
}

} // verus!
