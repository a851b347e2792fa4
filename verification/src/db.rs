//! The database schema and where the database file lies.
use vstd::prelude::*;

use crate::pieces::{keep_nonempty, nonempty_parts, split_chars, split_on, views};
use crate::text::{chars_of, string_of, strings_view, trim, trimmed};

verus! {

/// The tables and indexes of the library database.
pub const SCHEMA: &'static str = "
CREATE TABLE IF NOT EXISTS projects (
    id         TEXT PRIMARY KEY,
    name       TEXT NOT NULL UNIQUE,
    slug       TEXT NOT NULL UNIQUE,
    created_at TEXT NOT NULL
);

CREATE TABLE IF NOT EXISTS videos (
    id           TEXT PRIMARY KEY,
    title        TEXT NOT NULL,
    source       TEXT NOT NULL,
    filepath     TEXT,
    duration     REAL,
    tags         TEXT DEFAULT '',
    thumbnail    TEXT,
    original_url TEXT,
    status       TEXT NOT NULL DEFAULT 'pending',
    project_id   TEXT REFERENCES projects(id) ON DELETE SET NULL,
    created_at   TEXT NOT NULL
);

CREATE INDEX IF NOT EXISTS idx_videos_project ON videos(project_id);
CREATE INDEX IF NOT EXISTS idx_videos_status  ON videos(status);
";

/// The statements of `sql`: its pieces between semicolons, trimmed, the
/// empty ones left out.
pub open spec fn statements_spec(sql: Seq<char>) -> Seq<Seq<char>> {
    nonempty_parts(split_on(sql, ';').map_values(|p: Seq<char>| trimmed(p)))
}

/// The statements of `sql`, each to be run on its own.
pub fn statements_of(sql: &str) -> (r: Vec<String>)
    ensures
        strings_view(r@) == statements_spec(sql@),
{
    let cs = chars_of(sql);
    let parts = split_chars(&cs, ';');
    let ghost pieces = split_on(sql@, ';');
    let mut trimmed_parts: Vec<Vec<char>> = Vec::new();
    for i in 0..parts.len()
        invariant
            views(parts@) == pieces,
            pieces == split_on(sql@, ';'),
            views(trimmed_parts@) == pieces.map_values(|p: Seq<char>| trimmed(p)).take(i as int),
    {
        let text = string_of(&parts[i]);
        let t = trim(text.as_str());
        let tc = chars_of(t);
        assert(views(trimmed_parts@.push(tc)) =~= views(trimmed_parts@).push(tc@));
        trimmed_parts.push(tc);
        assert(pieces.map_values(|p: Seq<char>| trimmed(p)).take(i + 1)
            =~= pieces.map_values(|p: Seq<char>| trimmed(p)).take(i as int).push(trimmed(pieces[i as int])));
    }
    assert(pieces.map_values(|p: Seq<char>| trimmed(p)).take(parts@.len() as int)
        == pieces.map_values(|p: Seq<char>| trimmed(p)));
    let kept = keep_nonempty(&trimmed_parts);
    let mut out: Vec<String> = Vec::new();
    for i in 0..kept.len()
        invariant
            strings_view(out@) == views(kept@).take(i as int),
    {
        let s = string_of(&kept[i]);
        assert(strings_view(out@.push(s)) =~= strings_view(out@).push(s@));
        out.push(s);
        assert(views(kept@).take(i + 1) =~= views(kept@).take(i as int).push(kept@[i as int]@));
    }
    assert(views(kept@).take(kept@.len() as int) == views(kept@));
    out
}

/// The statements that set up the library database.
pub fn schema_statements() -> (r: Vec<String>)
    ensures
        strings_view(r@) == statements_spec(SCHEMA@),
{
    statements_of(SCHEMA)
}

/// `s` with `p` taken off its front as many times as it stands there
/// (`str::trim_start_matches`).
pub open spec fn trim_start_text(s: Seq<char>, p: Seq<char>) -> Seq<char>
    decreases s.len(),
{
    if p.len() > 0 && p.len() <= s.len() && s.take(p.len() as int) == p {
        trim_start_text(s.skip(p.len() as int), p)
    } else {
        s
    }
}

/// The file that database `url` lies in, to be created when missing: the
/// address without its `sqlite://` prefixes, unless that is `:memory:`.
pub open spec fn db_file_spec(url: Seq<char>) -> Option<Seq<char>> {
    let path = trim_start_text(url, "sqlite://"@);
    if path == ":memory:"@ {
        None
    } else {
        Some(path)
    }
}

/// The file that database `url` lies in, when it is not held in memory.
pub fn db_file_path(url: &str) -> (r: Option<String>)
    ensures
        crate::models::opt_view(r) == db_file_spec(url@),
{
    let cs = chars_of(url);
    let p = chars_of("sqlite://");
    let mut start: usize = 0;
    let n = cs.len();
    let plen = p.len();
    assert(url@.skip(0) == url@);
    while plen > 0 && plen <= n - start && prefix_at(&cs, &p, start)
        invariant
            start <= n == url@.len(),
            cs@ == url@,
            p@ == "sqlite://"@,
            plen == p@.len(),
            trim_start_text(url@, p@) == trim_start_text(url@.skip(start as int), p@),
        decreases n - start,
    {
        assert(url@.skip(start as int).take(plen as int) == p@);
        assert(url@.skip(start as int).skip(plen as int) == url@.skip(start + plen));
        start = start + plen;
    }
    proof {
        let rest = url@.skip(start as int);
        if plen > 0 && plen <= n - start {
            assert(rest.take(plen as int) != p@);
        }
        assert(trim_start_text(rest, p@) == rest);
    }
    let rest = crate::text::sub_chars(&cs, start, n);
    assert(rest@ == url@.skip(start as int));
    let memory = chars_of(":memory:");
    if crate::text::same_chars(&rest, &memory) {
        None
    } else {
        Some(string_of(&rest))
    }
}

/// Whether `p` stands in `v` at `start`.
fn prefix_at(v: &Vec<char>, p: &Vec<char>, start: usize) -> (r: bool)
    requires
        start + p@.len() <= v@.len(),
    ensures
        r == (v@.skip(start as int).take(p@.len() as int) == p@),
{
    for j in 0..p.len()
        invariant
            start + p@.len() <= v@.len(),
            v@.len() == v.len(),
            forall|k: int| 0 <= k < j ==> v@[start + k] == p@[k],
    {
        if v[start + j] != p[j] {
            assert(v@.skip(start as int).take(p@.len() as int)[j as int] != p@[j as int]);
            return false;
        }
    }
    assert(v@.skip(start as int).take(p@.len() as int) =~= p@);
    true
}

} // verus!
