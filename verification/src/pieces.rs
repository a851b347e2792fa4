//! Splitting a text at a separator, dropping empty pieces and joining pieces
//! back with a separator.
use vstd::prelude::*;

use crate::text::{append_chars, copy_chars};

verus! {

/// The character sequences held by a sequence of vectors.
pub open spec fn views(vs: Seq<Vec<char>>) -> Seq<Seq<char>> {
    vs.map_values(|p: Vec<char>| p@)
}

/// The pieces of `s` between occurrences of `sep` (`str::split` with a
/// character): one more piece than there are separators, empty ones included.
pub open spec fn split_on(s: Seq<char>, sep: char) -> Seq<Seq<char>>
    decreases s.len(),
{
    if s.len() == 0 {
        seq![Seq::<char>::empty()]
    } else {
        let prev = split_on(s.drop_last(), sep);
        if s.last() == sep {
            prev.push(Seq::<char>::empty())
        } else {
            prev.update(prev.len() - 1, prev.last().push(s.last()))
        }
    }
}

/// The pieces of `p` that are not empty, in order.
pub open spec fn nonempty_parts(p: Seq<Seq<char>>) -> Seq<Seq<char>>
    decreases p.len(),
{
    if p.len() == 0 {
        Seq::<Seq<char>>::empty()
    } else if p.last().len() > 0 {
        nonempty_parts(p.drop_last()).push(p.last())
    } else {
        nonempty_parts(p.drop_last())
    }
}

/// The pieces of `p` joined with `sep` between neighbours (`[T]::join`).
pub open spec fn join_parts(p: Seq<Seq<char>>, sep: Seq<char>) -> Seq<char>
    decreases p.len(),
{
    if p.len() == 0 {
        Seq::<char>::empty()
    } else if p.len() == 1 {
        p[0]
    } else {
        join_parts(p.drop_last(), sep) + sep + p.last()
    }
}

/// Splitting always yields at least one piece.
pub proof fn lemma_split_nonempty(s: Seq<char>, sep: char)
    ensures
        split_on(s, sep).len() >= 1,
    decreases s.len(),
{
    if s.len() > 0 {
        lemma_split_nonempty(s.drop_last(), sep);
    }
}

proof fn lemma_views_push(vs: Seq<Vec<char>>, v: Vec<char>)
    ensures
        views(vs.push(v)) == views(vs).push(v@),
{
    assert(views(vs.push(v)) =~= views(vs).push(v@));
}

/// `v` cut at every `sep` (`str::split` with a character).
pub fn split_chars(v: &Vec<char>, sep: char) -> (parts: Vec<Vec<char>>)
    ensures
        views(parts@) == split_on(v@, sep),
{
    let mut parts: Vec<Vec<char>> = Vec::new();
    let mut cur: Vec<char> = Vec::new();
    assert(v@.take(0) =~= Seq::<char>::empty());
    assert(views(parts@).push(cur@) =~= seq![Seq::<char>::empty()]);
    for i in 0..v.len()
        invariant
            views(parts@).push(cur@) == split_on(v@.take(i as int), sep),
    {
        let ghost before = v@.take(i as int);
        assert(v@.take(i + 1).drop_last() == before);
        proof {
            lemma_split_nonempty(before, sep);
        }
        if v[i] == sep {
            proof {
                lemma_views_push(parts@, cur);
            }
            parts.push(cur);
            cur = Vec::new();
            assert(views(parts@).push(cur@) =~= split_on(v@.take(i + 1), sep));
        } else {
            cur.push(v[i]);
            assert(views(parts@).push(cur@) =~= split_on(v@.take(i + 1), sep));
        }
    }
    assert(v@.take(v@.len() as int) == v@);
    proof {
        lemma_views_push(parts@, cur);
    }
    parts.push(cur);
    parts
}

/// The pieces of `parts` that are not empty, in order.
pub fn keep_nonempty(parts: &Vec<Vec<char>>) -> (r: Vec<Vec<char>>)
    ensures
        views(r@) == nonempty_parts(views(parts@)),
{
    let mut r: Vec<Vec<char>> = Vec::new();
    assert(views(parts@).take(0) =~= Seq::<Seq<char>>::empty());
    assert(views(r@) =~= Seq::<Seq<char>>::empty());
    for i in 0..parts.len()
        invariant
            views(r@) == nonempty_parts(views(parts@).take(i as int)),
    {
        assert(views(parts@).take(i + 1).drop_last() == views(parts@).take(i as int));
        assert(views(parts@).take(i + 1).last() == parts@[i as int]@);
        if parts[i].len() > 0 {
            let piece = copy_chars(&parts[i]);
            proof {
                lemma_views_push(r@, piece);
            }
            r.push(piece);
        }
    }
    assert(views(parts@).take(parts@.len() as int) == views(parts@));
    r
}

/// The pieces of `parts` joined with `sep` between neighbours.
pub fn join_chars(parts: &Vec<Vec<char>>, sep: &Vec<char>) -> (r: Vec<char>)
    ensures
        r@ == join_parts(views(parts@), sep@),
{
    let mut r: Vec<char> = Vec::new();
    assert(views(parts@).take(0) =~= Seq::<Seq<char>>::empty());
    for i in 0..parts.len()
        invariant
            r@ == join_parts(views(parts@).take(i as int), sep@),
    {
        let ghost prefix = views(parts@).take(i + 1);
        assert(prefix.drop_last() == views(parts@).take(i as int));
        assert(prefix.last() == parts@[i as int]@);
        if i > 0 {
            append_chars(&mut r, sep);
        } else {
            assert(prefix.len() == 1);
        }
        append_chars(&mut r, &parts[i]);
        if i == 0 {
            assert(r@ =~= prefix[0]);
        }
    }
    assert(views(parts@).take(parts@.len() as int) == views(parts@));
    r
}


/// Every character of `piece` satisfies `p`, and none is `sep`.
pub open spec fn piece_ok(piece: Seq<char>, sep: char, p: spec_fn(char) -> bool) -> bool {
    forall|i: int| 0 <= i < piece.len() ==> p(#[trigger] piece[i]) && piece[i] != sep
}

/// No piece of splitting `s` at `sep` holds `sep`, and when every character
/// of `s` satisfies `p`, so does every character of every piece.
pub proof fn lemma_split_pieces(s: Seq<char>, sep: char, p: spec_fn(char) -> bool)
    requires
        forall|i: int| 0 <= i < s.len() ==> p(#[trigger] s[i]),
    ensures
        forall|k: int| 0 <= k < split_on(s, sep).len() ==> piece_ok(#[trigger] split_on(s, sep)[k], sep, p),
    decreases s.len(),
{
    if s.len() > 0 {
        let init = s.drop_last();
        assert forall|i: int| 0 <= i < init.len() implies p(#[trigger] init[i]) by {
            assert(init[i] == s[i]);
        }
        lemma_split_pieces(init, sep, p);
        lemma_split_nonempty(init, sep);
        let prev = split_on(init, sep);
        let cur = split_on(s, sep);
        assert(p(s[s.len() - 1]));
        if s.last() != sep {
            let last = prev.last().push(s.last());
            assert(piece_ok(prev[prev.len() - 1], sep, p));
            assert forall|i: int| 0 <= i < last.len() implies p(#[trigger] last[i]) && last[i] != sep by {
                if i < last.len() - 1 {
                    assert(last[i] == prev.last()[i]);
                }
            }
            assert forall|k: int| 0 <= k < cur.len() implies piece_ok(#[trigger] cur[k], sep, p) by {
                if k < cur.len() - 1 {
                    assert(cur[k] == prev[k]);
                } else {
                    assert(cur[k] == last);
                }
            }
        } else {
            assert forall|k: int| 0 <= k < cur.len() implies piece_ok(#[trigger] cur[k], sep, p) by {
                if k < cur.len() - 1 {
                    assert(cur[k] == prev[k]);
                }
            }
        }
    } else {
        assert forall|k: int| 0 <= k < split_on(s, sep).len() implies piece_ok(#[trigger] split_on(s, sep)[k], sep, p) by {
            assert(split_on(s, sep)[k].len() == 0);
        }
    }
}

/// Dropping empty pieces keeps only pieces of `parts`, none of them empty.
pub proof fn lemma_nonempty_pieces(parts: Seq<Seq<char>>, sep: char, p: spec_fn(char) -> bool)
    requires
        forall|k: int| 0 <= k < parts.len() ==> piece_ok(#[trigger] parts[k], sep, p),
    ensures
        forall|k: int| 0 <= k < nonempty_parts(parts).len() ==> piece_ok(#[trigger] nonempty_parts(parts)[k], sep, p)
            && nonempty_parts(parts)[k].len() > 0,
    decreases parts.len(),
{
    if parts.len() > 0 {
        let init = parts.drop_last();
        assert forall|k: int| 0 <= k < init.len() implies piece_ok(#[trigger] init[k], sep, p) by {
            assert(init[k] == parts[k]);
        }
        lemma_nonempty_pieces(init, sep, p);
        let r = nonempty_parts(parts);
        let q = nonempty_parts(init);
        if parts.last().len() > 0 {
            assert(piece_ok(parts[parts.len() - 1], sep, p));
            assert forall|k: int| 0 <= k < r.len() implies piece_ok(#[trigger] r[k], sep, p) && r[k].len() > 0 by {
                if k < q.len() {
                    assert(r[k] == q[k]);
                }
            }
        }
    }
}

/// `j` neither starts nor ends with `c` and never holds `c` twice in a row.
pub open spec fn well_joined(j: Seq<char>, c: char) -> bool {
    &&& j.len() > 0 ==> j[0] != c && j.last() != c
    &&& forall|i: int| 0 <= i < j.len() - 1 && #[trigger] j[i] == c ==> j[i + 1] != c
}

/// Joining non-empty pieces free of `c` with `c` gives a well-joined text
/// whose characters are those of the pieces and `c`.
pub proof fn lemma_join_pieces(parts: Seq<Seq<char>>, c: char, p: spec_fn(char) -> bool)
    requires
        forall|k: int| 0 <= k < parts.len() ==> piece_ok(#[trigger] parts[k], c, p) && parts[k].len() > 0,
    ensures
        well_joined(join_parts(parts, seq![c]), c),
        forall|i: int| 0 <= i < join_parts(parts, seq![c]).len() ==>
            p(#[trigger] join_parts(parts, seq![c])[i]) || join_parts(parts, seq![c])[i] == c,
        parts.len() > 0 ==> join_parts(parts, seq![c]).len() > 0,
    decreases parts.len(),
{
    let j = join_parts(parts, seq![c]);
    if parts.len() == 1 {
        assert(piece_ok(parts[0], c, p));
        assert(j == parts[0]);
    } else if parts.len() > 1 {
        let init = parts.drop_last();
        assert forall|k: int| 0 <= k < init.len() implies piece_ok(#[trigger] init[k], c, p) && init[k].len() > 0 by {
            assert(init[k] == parts[k]);
        }
        lemma_join_pieces(init, c, p);
        let a = join_parts(init, seq![c]);
        let b = parts.last();
        assert(piece_ok(parts[parts.len() - 1], c, p));
        assert(j == a + seq![c] + b);
        assert forall|i: int| 0 <= i < j.len() implies p(#[trigger] j[i]) || j[i] == c by {
            if i < a.len() {
                assert(j[i] == a[i]);
            } else if i > a.len() {
                assert(j[i] == b[i - a.len() - 1]);
            }
        }
        assert forall|i: int| 0 <= i < j.len() - 1 && #[trigger] j[i] == c implies j[i + 1] != c by {
            if i < a.len() - 1 {
                assert(j[i] == a[i]);
                assert(j[i + 1] == a[i + 1]);
            } else if i == a.len() - 1 {
                assert(j[i] == a.last());
            } else if i == a.len() {
                assert(j[i + 1] == b[0]);
            } else {
                assert(j[i] == b[i - a.len() - 1]);
            }
        }
        assert(j[0] == a[0]);
        assert(j.last() == b.last());
    }
}

/// Some piece of splitting `s` at `sep` is not empty exactly when `s` has a
/// character other than `sep`.
pub proof fn lemma_split_has_content(s: Seq<char>, sep: char)
    ensures
        (exists|k: int| 0 <= k < split_on(s, sep).len() && #[trigger] split_on(s, sep)[k].len() > 0)
            <==> (exists|i: int| 0 <= i < s.len() && #[trigger] s[i] != sep),
    decreases s.len(),
{
    let cur = split_on(s, sep);
    if s.len() == 0 {
        assert(cur =~= seq![Seq::<char>::empty()]);
        if exists|k: int| 0 <= k < cur.len() && #[trigger] cur[k].len() > 0 {
            let k = choose|k: int| 0 <= k < cur.len() && #[trigger] cur[k].len() > 0;
            assert(cur[k].len() == 0);
        }
    } else {
        let init = s.drop_last();
        lemma_split_has_content(init, sep);
        lemma_split_nonempty(init, sep);
        let prev = split_on(init, sep);
        if s.last() == sep {
            assert(cur == prev.push(Seq::<char>::empty()));
            if exists|k: int| 0 <= k < cur.len() && #[trigger] cur[k].len() > 0 {
                let k = choose|k: int| 0 <= k < cur.len() && #[trigger] cur[k].len() > 0;
                assert(k < prev.len());
                assert(prev[k] == cur[k]);
                let i = choose|i: int| 0 <= i < init.len() && #[trigger] init[i] != sep;
                assert(s[i] == init[i]);
            }
            if exists|i: int| 0 <= i < s.len() && #[trigger] s[i] != sep {
                let i = choose|i: int| 0 <= i < s.len() && #[trigger] s[i] != sep;
                assert(i < init.len());
                assert(init[i] == s[i]);
                let k = choose|k: int| 0 <= k < prev.len() && #[trigger] prev[k].len() > 0;
                assert(cur[k] == prev[k]);
            }
        } else {
            let k = prev.len() - 1;
            assert(cur[k] == prev.last().push(s.last()));
            assert(cur[k].len() > 0);
            assert(s[s.len() - 1] != sep);
        }
    }
}

/// Dropping empty pieces leaves some piece exactly when some piece was not
/// empty.
pub proof fn lemma_nonempty_parts_len(p: Seq<Seq<char>>)
    ensures
        nonempty_parts(p).len() > 0 <==> (exists|k: int| 0 <= k < p.len() && #[trigger] p[k].len() > 0),
    decreases p.len(),
{
    if p.len() > 0 {
        let init = p.drop_last();
        lemma_nonempty_parts_len(init);
        if p.last().len() > 0 {
            assert(p[p.len() - 1].len() > 0);
        } else {
            if exists|k: int| 0 <= k < p.len() && #[trigger] p[k].len() > 0 {
                let k = choose|k: int| 0 <= k < p.len() && #[trigger] p[k].len() > 0;
                assert(k < init.len());
                assert(init[k] == p[k]);
            }
            if exists|k: int| 0 <= k < init.len() && #[trigger] init[k].len() > 0 {
                let k = choose|k: int| 0 <= k < init.len() && #[trigger] init[k].len() > 0;
                assert(p[k] == init[k]);
            }
        }
    }
}

/// Splitting two texts joined by the separator gives the pieces of the first
/// followed by the pieces of the second.
pub proof fn lemma_split_concat(a: Seq<char>, b: Seq<char>, sep: char)
    ensures
        split_on(a + seq![sep] + b, sep) == split_on(a, sep) + split_on(b, sep),
    decreases b.len(),
{
    let s = a + seq![sep] + b;
    lemma_split_nonempty(a, sep);
    if b.len() == 0 {
        assert(s.drop_last() =~= a);
        assert(split_on(b, sep) =~= seq![Seq::<char>::empty()]);
        assert(split_on(s, sep) =~= split_on(a, sep) + split_on(b, sep));
    } else {
        let b0 = b.drop_last();
        lemma_split_concat(a, b0, sep);
        lemma_split_nonempty(b0, sep);
        assert(s.drop_last() =~= a + seq![sep] + b0);
        assert(s.last() == b.last());
        let pa = split_on(a, sep);
        let pb0 = split_on(b0, sep);
        if b.last() == sep {
            assert(split_on(s, sep) =~= pa + pb0.push(Seq::<char>::empty()));
        } else {
            let q = pa + pb0;
            assert(q.last() == pb0.last());
            assert(split_on(s, sep) == q.update(q.len() - 1, q.last().push(b.last())));
            assert(split_on(s, sep) =~= pa + pb0.update(pb0.len() - 1, pb0.last().push(b.last())));
        }
    }
}

/// Dropping empty pieces commutes with putting piece lists one after the
/// other.
pub proof fn lemma_nonempty_parts_concat(x: Seq<Seq<char>>, y: Seq<Seq<char>>)
    ensures
        nonempty_parts(x + y) == nonempty_parts(x) + nonempty_parts(y),
    decreases y.len(),
{
    if y.len() == 0 {
        assert(x + y =~= x);
        assert(nonempty_parts(x) + nonempty_parts(y) =~= nonempty_parts(x));
    } else {
        let y0 = y.drop_last();
        lemma_nonempty_parts_concat(x, y0);
        assert((x + y).drop_last() =~= x + y0);
        assert((x + y).last() == y.last());
        if y.last().len() > 0 {
            assert(nonempty_parts(x) + nonempty_parts(y0).push(y.last())
                =~= (nonempty_parts(x) + nonempty_parts(y0)).push(y.last()));
        }
    }
}

/// Joining the pieces of `s` with the separator gives `s` back.
pub proof fn lemma_join_split(s: Seq<char>, c: char)
    ensures
        join_parts(split_on(s, c), seq![c]) == s,
    decreases s.len(),
{
    if s.len() == 0 {
        assert(split_on(s, c) =~= seq![Seq::<char>::empty()]);
        assert(s =~= Seq::<char>::empty());
    } else {
        let s0 = s.drop_last();
        lemma_join_split(s0, c);
        lemma_split_nonempty(s0, c);
        let prev = split_on(s0, c);
        let cur = split_on(s, c);
        if s.last() == c {
            assert(cur.drop_last() == prev);
            assert(join_parts(cur, seq![c]) == join_parts(prev, seq![c]) + seq![c] + Seq::<char>::empty());
            assert(s =~= s0 + seq![c] + Seq::<char>::empty());
        } else if prev.len() == 1 {
            assert(cur[0] == prev[0].push(s.last()));
            assert(s =~= s0.push(s.last()));
        } else {
            assert(cur.drop_last() =~= prev.drop_last());
            assert(cur.last() == prev.last().push(s.last()));
            assert(join_parts(cur, seq![c]) =~= join_parts(prev, seq![c]).push(s.last()));
            assert(s =~= s0.push(s.last()));
        }
    }
}

/// When `s` does not start with `c` and never holds `c` twice in a row,
/// every piece of splitting it at `c` but the last is non-empty, and the last
/// one too unless `s` ends with `c`.
pub proof fn lemma_split_pieces_filled(s: Seq<char>, c: char)
    requires
        s.len() > 0 ==> s[0] != c,
        forall|i: int| 0 <= i < s.len() - 1 && #[trigger] s[i] == c ==> s[i + 1] != c,
    ensures
        forall|k: int| 0 <= k < split_on(s, c).len() - 1 ==> (#[trigger] split_on(s, c)[k]).len() > 0,
        s.len() > 0 && s.last() != c ==> split_on(s, c).last().len() > 0,
    decreases s.len(),
{
    if s.len() > 0 {
        let s0 = s.drop_last();
        assert forall|i: int| 0 <= i < s0.len() - 1 && #[trigger] s0[i] == c implies s0[i + 1] != c by {
            assert(s0[i] == s[i] && s0[i + 1] == s[i + 1]);
        }
        if s0.len() > 0 {
            assert(s0[0] == s[0]);
        }
        lemma_split_pieces_filled(s0, c);
        lemma_split_nonempty(s0, c);
        let prev = split_on(s0, c);
        let cur = split_on(s, c);
        if s.last() == c {
            assert(s0.len() > 0);
            assert(s[s0.len() - 1] == s0.last());
            assert(s0.last() != c);
            assert forall|k: int| 0 <= k < cur.len() - 1 implies (#[trigger] cur[k]).len() > 0 by {
                assert(cur[k] == prev[k]);
            }
        } else {
            assert forall|k: int| 0 <= k < cur.len() - 1 implies (#[trigger] cur[k]).len() > 0 by {
                assert(cur[k] == prev[k]);
            }
            assert(cur.last() == prev.last().push(s.last()));
        }
    }
}

/// Dropping empty pieces changes nothing when no piece is empty.
pub proof fn lemma_nonempty_parts_all(p: Seq<Seq<char>>)
    requires
        forall|k: int| 0 <= k < p.len() ==> (#[trigger] p[k]).len() > 0,
    ensures
        nonempty_parts(p) == p,
    decreases p.len(),
{
    if p.len() > 0 {
        let p0 = p.drop_last();
        assert forall|k: int| 0 <= k < p0.len() implies (#[trigger] p0[k]).len() > 0 by {
            assert(p0[k] == p[k]);
        }
        lemma_nonempty_parts_all(p0);
        assert(p[p.len() - 1].len() > 0);
        assert(p0.push(p.last()) =~= p);
    }
}

} // verus!
