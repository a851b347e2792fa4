//! YouTube search through `yt-dlp`: the command line and the reading of its
//! output.
use vstd::prelude::*;

use crate::models::{opt_view, VideoResult};
use crate::numbers::{decimal, decimal_string};
use crate::pieces::{
    keep_nonempty, lemma_nonempty_parts_concat, lemma_nonempty_pieces, lemma_split_concat,
    lemma_split_nonempty, lemma_split_pieces, nonempty_parts, piece_ok, split_chars,
    split_on, views,
};
use crate::text::{cat, cat3, chars_of, copy_chars, string_of, strings_view, sub_chars};

verus! {

/// What `yt-dlp --dump-json` tells of one video.
#[derive(Debug)]
pub struct YtInfo {
    pub id: String,
    pub title: Option<String>,
    /// Length in seconds, held as the bit pattern of an `f64` (`f64::to_bits`).
    pub duration: Option<u64>,
    pub thumbnail: Option<String>,
    pub webpage_url: Option<String>,
    pub thumbnails: Option<Vec<YtThumb>>,
}

/// One thumbnail of a video.
#[derive(Debug)]
pub struct YtThumb {
    pub url: String,
}

/// The thumbnail shown: the middle one of the list when the list has any,
/// else the single thumbnail.
pub open spec fn yt_thumbnail(info: YtInfo) -> Option<Seq<char>> {
    match info.thumbnails {
        Some(ts) if ts@.len() > 0 => Some(ts@[(ts@.len() / 2) as int].url@),
        _ => opt_view(info.thumbnail),
    }
}

/// `r` is what the search answers for video `info`: id `youtube_<id>`,
/// title (default `Untitled`), the middle thumbnail, the embed page as
/// preview, the watch page (default built from the id) as download.
pub open spec fn yt_result_matches(info: YtInfo, r: VideoResult) -> bool {
    let url = match info.webpage_url {
        Some(u) => u@,
        None => "https://www.youtube.com/watch?v="@ + info.id@,
    };
    let title = match info.title {
        Some(t) => t@,
        None => "Untitled"@,
    };
    &&& r.id@ == "youtube_"@ + info.id@
    &&& r.title@ == title
    &&& r.source@ == "youtube"@
    &&& r.duration == info.duration
    &&& opt_view(r.thumbnail) == yt_thumbnail(info)
    &&& opt_view(r.preview_url) == Some("https://www.youtube.com/embed/"@ + info.id@)
    &&& opt_view(r.download_url) == Some(url)
    &&& opt_view(r.license) == Some("YouTube (check individual video license)"@)
    &&& r.width is None
    &&& r.height is None
}

/// What the search answers for one video that `yt-dlp` described.
pub fn yt_result(info: YtInfo) -> (r: VideoResult)
    ensures
        yt_result_matches(info, r),
{
    let ghost info0 = info;
    let YtInfo { id, title, duration, thumbnail, webpage_url, thumbnails } = info;
    let thumb = match thumbnails {
        Some(mut ts) => {
            if ts.len() > 0 {
                let mid = ts.len() / 2;
                Some(ts.remove(mid).url)
            } else {
                thumbnail
            }
        },
        None => thumbnail,
    };
    let url = match webpage_url {
        Some(u) => u,
        None => cat("https://www.youtube.com/watch?v=", id.as_str()),
    };
    let title = match title {
        Some(t) => t,
        None => "Untitled".to_string(),
    };
    VideoResult {
        id: cat("youtube_", id.as_str()),
        title,
        source: "youtube".to_string(),
        duration,
        thumbnail: thumb,
        preview_url: Some(cat("https://www.youtube.com/embed/", id.as_str())),
        download_url: Some(url),
        license: Some("YouTube (check individual video license)".to_string()),
        width: None,
        height: None,
    }
}

/// `l` without one trailing carriage return.
pub open spec fn strip_cr(l: Seq<char>) -> Seq<char> {
    if l.len() > 0 && l.last() == '\r' {
        l.drop_last()
    } else {
        l
    }
}

/// The lines of `s` (`str::lines`): cut at each `\n`, a `\r` before a `\n`
/// dropped with it; the text after the last `\n` is a line of its own.
pub open spec fn line_pieces(s: Seq<char>) -> Seq<Seq<char>> {
    let p = split_on(s, '\n');
    Seq::new(p.len(), |i: int| if i < p.len() - 1 { strip_cr(p[i]) } else { p[i] })
}

/// The non-empty lines of `s`, in order.
pub open spec fn output_lines_spec(s: Seq<char>) -> Seq<Seq<char>> {
    nonempty_parts(line_pieces(s))
}

/// The non-empty lines of `stdout`, in order; each is one video's JSON.
pub fn output_lines(stdout: &str) -> (r: Vec<String>)
    ensures
        strings_view(r@) == output_lines_spec(stdout@),
{
    let cs = chars_of(stdout);
    let parts = split_chars(&cs, '\n');
    let ghost p = split_on(stdout@, '\n');
    let mut stripped: Vec<Vec<char>> = Vec::new();
    let n = parts.len();
    for i in 0..n
        invariant
            n == parts@.len(),
            views(parts@) == p,
            p == split_on(stdout@, '\n'),
            views(stripped@) == line_pieces(stdout@).take(i as int),
    {
        let piece = &parts[i];
        let cut = if i + 1 < n && piece.len() > 0 && piece[piece.len() - 1] == '\r' {
            sub_chars(piece, 0, piece.len() - 1)
        } else {
            copy_chars(piece)
        };
        assert(p[i as int] == piece@);
        proof {
            assert(line_pieces(stdout@).len() == n);
            if i + 1 < n {
                assert(line_pieces(stdout@)[i as int] == strip_cr(piece@));
                if piece@.len() > 0 && piece@.last() == '\r' {
                    assert(cut@ =~= piece@.drop_last());
                }
            } else {
                assert(line_pieces(stdout@)[i as int] == piece@);
            }
        }
        assert(line_pieces(stdout@)[i as int] == cut@);
        assert(views(stripped@.push(cut)) =~= views(stripped@).push(cut@));
        stripped.push(cut);
        assert(line_pieces(stdout@).take(i + 1) =~= line_pieces(stdout@).take(i as int).push(cut@));
    }
    assert(line_pieces(stdout@).take(n as int) =~= line_pieces(stdout@));
    let kept = keep_nonempty(&stripped);
    let mut out: Vec<String> = Vec::new();
    for i in 0..kept.len()
        invariant
            strings_view(out@) == views(kept@).take(i as int),
    {
        let line = string_of(&kept[i]);
        assert(strings_view(out@.push(line)) =~= strings_view(out@).push(line@));
        out.push(line);
        assert(views(kept@).take(i + 1) =~= views(kept@).take(i as int).push(kept@[i as int]@));
    }
    assert(views(kept@).take(kept@.len() as int) == views(kept@));
    out
}

/// The `yt-dlp` arguments of a search for `count` videos matching `query`.
pub open spec fn search_args_spec(query: Seq<char>, count: nat, browser: Option<Seq<char>>) -> Seq<Seq<char>> {
    let base = seq![
        "ytsearch"@ + decimal(count) + ":"@ + query,
        "--dump-json"@,
        "--no-playlist"@,
        "--skip-download"@,
    ];
    match browser {
        Some(b) => base.push("--cookies-from-browser"@).push(b),
        None => base,
    }
}

/// The `yt-dlp` arguments of a search for `count` videos matching `query`,
/// reading cookies from `browser` when one is named.
pub fn ytdlp_search_args(query: &str, count: usize, browser: Option<&str>) -> (r: Vec<String>)
    ensures
        strings_view(r@) == search_args_spec(query@, count as nat, match browser {
            Some(b) => Some(b@),
            None => None,
        }),
{
    let num = decimal_string(count as u64);
    let mut args: Vec<String> = Vec::new();
    args.push(cat3(cat("ytsearch", num.as_str()).as_str(), ":", query));
    args.push("--dump-json".to_string());
    args.push("--no-playlist".to_string());
    args.push("--skip-download".to_string());
    match browser {
        Some(b) => {
            args.push("--cookies-from-browser".to_string());
            args.push(b.to_string());
        },
        None => {},
    }
    assert(strings_view(args@) =~= search_args_spec(query@, count as nat, match browser {
        Some(b) => Some(b@),
        None => None,
    }));
    args
}

/// Every line handed on is a whole line: not empty, and without a line
/// break in it.
pub proof fn lemma_output_lines_are_lines(s: Seq<char>)
    ensures
        forall|k: int| 0 <= k < output_lines_spec(s).len() ==> (#[trigger] output_lines_spec(s)[k]).len() > 0
            && !output_lines_spec(s)[k].contains('\n'),
{
    let any = |c: char| true;
    let p = split_on(s, '\n');
    let lp = line_pieces(s);
    assert forall|i: int| 0 <= i < s.len() implies any(#[trigger] s[i]) by {}
    lemma_split_pieces(s, '\n', any);
    assert forall|k: int| 0 <= k < lp.len() implies piece_ok(#[trigger] lp[k], '\n', any) by {
        assert(piece_ok(p[k], '\n', any));
        if k < p.len() - 1 && p[k].len() > 0 && p[k].last() == '\r' {
            assert(lp[k] == p[k].drop_last());
            assert forall|i: int| 0 <= i < lp[k].len() implies any(#[trigger] lp[k][i]) && lp[k][i] != '\n' by {
                assert(lp[k][i] == p[k][i]);
            }
        }
    }
    lemma_nonempty_pieces(lp, '\n', any);
    let out = output_lines_spec(s);
    assert forall|k: int| 0 <= k < out.len() implies (#[trigger] out[k]).len() > 0 && !out[k].contains('\n') by {
        assert(piece_ok(out[k], '\n', any));
        if out[k].contains('\n') {
            let i = choose|i: int| 0 <= i < out[k].len() && out[k][i] == '\n';
            assert(out[k][i] != '\n');
        }
    }
}

/// The last piece of splitting `s` at `sep` is empty when `s` is empty or
/// ends with `sep`, and otherwise ends with the last character of `s`.
proof fn lemma_split_last(s: Seq<char>, sep: char)
    ensures
        s.len() == 0 || s.last() == sep ==> split_on(s, sep).last().len() == 0,
        s.len() > 0 && s.last() != sep ==> split_on(s, sep).last().len() > 0
            && split_on(s, sep).last().last() == s.last(),
{
    if s.len() > 0 {
        lemma_split_nonempty(s.drop_last(), sep);
    }
}

/// The lines of two texts joined by a line break are the lines of the first
/// followed by the lines of the second, unless the first ends with a
/// carriage return (which the line break then takes away).
pub proof fn lemma_output_lines_concat(a: Seq<char>, b: Seq<char>)
    requires
        !(a.len() > 0 && a.last() == '\r'),
    ensures
        output_lines_spec(a + seq!['\n'] + b) == output_lines_spec(a) + output_lines_spec(b),
{
    let s = a + seq!['\n'] + b;
    lemma_split_concat(a, b, '\n');
    lemma_split_nonempty(a, '\n');
    lemma_split_nonempty(b, '\n');
    lemma_split_last(a, '\n');
    let pa = split_on(a, '\n');
    let pb = split_on(b, '\n');
    let p = split_on(s, '\n');
    assert(strip_cr(pa.last()) == pa.last());
    assert forall|i: int| 0 <= i < line_pieces(s).len() implies #[trigger] line_pieces(s)[i] == (line_pieces(a) + line_pieces(b))[i] by {
        if i < pa.len() {
            assert(p[i] == pa[i]);
            if i == pa.len() - 1 {
                assert(pa[i] == pa.last());
            }
        } else {
            assert(p[i] == pb[i - pa.len()]);
        }
    }
    assert(line_pieces(s) =~= line_pieces(a) + line_pieces(b));
    lemma_nonempty_parts_concat(line_pieces(a), line_pieces(b));
}

/// The thumbnail shown is the middle element (index `len / 2`) of the
/// thumbnail list whenever that list is present and not empty, whatever the
/// single thumbnail is; the single thumbnail is shown only otherwise.
pub proof fn lemma_thumbnail_prefers_list(info: YtInfo, r: VideoResult)
    requires
        yt_result_matches(info, r),
    ensures
        info.thumbnails is Some && info.thumbnails->0@.len() > 0 ==> opt_view(r.thumbnail) == Some(
            info.thumbnails->0@[(info.thumbnails->0@.len() / 2) as int].url@,
        ),
        (info.thumbnails is None || info.thumbnails->0@.len() == 0) ==> opt_view(r.thumbnail) == opt_view(info.thumbnail),
{
}

} // verus!
