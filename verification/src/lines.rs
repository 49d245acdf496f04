//! Line-oriented text: Unicode whitespace trimming, splitting at newlines
//! and the one-identifier-per-line format of marker files.

use vstd::prelude::*;
use crate::text::{chars_of, string_of_chars, string_push};

verus! {

/// The characters with the Unicode `White_Space` property, which
/// `char::is_whitespace` and `str::trim` use.
pub open spec fn is_unicode_whitespace(c: char) -> bool {
    ||| ('\t' <= c && c <= '\r')
    ||| c == ' '
    ||| c == '\u{85}'
    ||| c == '\u{a0}'
    ||| c == '\u{1680}'
    ||| ('\u{2000}' <= c && c <= '\u{200a}')
    ||| c == '\u{2028}'
    ||| c == '\u{2029}'
    ||| c == '\u{202f}'
    ||| c == '\u{205f}'
    ||| c == '\u{3000}'
}

/// `s` without its leading whitespace.
pub open spec fn trim_start_seq(s: Seq<char>) -> Seq<char>
    decreases s.len(),
{
    if s.len() > 0 && is_unicode_whitespace(s[0]) {
        trim_start_seq(s.drop_first())
    } else {
        s
    }
}

/// `s` without its trailing whitespace.
pub open spec fn trim_end_seq(s: Seq<char>) -> Seq<char>
    decreases s.len(),
{
    if s.len() > 0 && is_unicode_whitespace(s.last()) {
        trim_end_seq(s.drop_last())
    } else {
        s
    }
}

/// `s` without leading and trailing whitespace (`str::trim`).
pub open spec fn trim_seq(s: Seq<char>) -> Seq<char> {
    trim_end_seq(trim_start_seq(s))
}

/// The pieces of `s` between newline characters, in order; a text with `n`
/// newlines has `n + 1` pieces.
pub open spec fn split_at_newlines(s: Seq<char>) -> Seq<Seq<char>>
    decreases s.len(),
{
    if s.len() == 0 {
        seq![Seq::<char>::empty()]
    } else {
        let before = split_at_newlines(s.drop_last());
        if s.last() == '\n' {
            before.push(Seq::<char>::empty())
        } else {
            before.update(before.len() - 1, before.last().push(s.last()))
        }
    }
}

/// The trimmed, non-empty pieces among `pieces`, in order.
pub open spec fn nonblank_trimmed(pieces: Seq<Seq<char>>) -> Seq<Seq<char>>
    decreases pieces.len(),
{
    if pieces.len() == 0 {
        Seq::empty()
    } else {
        let before = nonblank_trimmed(pieces.drop_last());
        if trim_seq(pieces.last()).len() > 0 {
            before.push(trim_seq(pieces.last()))
        } else {
            before
        }
    }
}

/// The identifiers listed in a marker file: every line, trimmed, that is
/// not blank (`str::lines`, `str::trim`, non-empty).
pub open spec fn marker_ids(contents: Seq<char>) -> Seq<Seq<char>> {
    nonblank_trimmed(split_at_newlines(contents))
}

/// The marker file for `ids`: each identifier followed by a newline.
pub open spec fn marker_text(ids: Seq<Seq<char>>) -> Seq<char>
    decreases ids.len(),
{
    if ids.len() == 0 {
        Seq::empty()
    } else {
        marker_text(ids.drop_last()) + ids.last() + seq!['\n']
    }
}

/// An identifier that a marker file holds as written: not empty, on one
/// line, without surrounding whitespace.
pub open spec fn is_marker_safe(id: Seq<char>) -> bool {
    &&& id.len() > 0
    &&& !id.contains('\n')
    &&& !is_unicode_whitespace(id[0])
    &&& !is_unicode_whitespace(id.last())
}

/// Whether `c` is Unicode whitespace (`char::is_whitespace`).
pub fn is_whitespace_char(c: char) -> (r: bool)
    ensures
        r == is_unicode_whitespace(c),
{
    ('\t' <= c && c <= '\r') || c == ' ' || c == '\u{85}' || c == '\u{a0}' || c == '\u{1680}'
        || ('\u{2000}' <= c && c <= '\u{200a}') || c == '\u{2028}' || c == '\u{2029}'
        || c == '\u{202f}' || c == '\u{205f}' || c == '\u{3000}'
}

/// The bounds of `v[from..to]` once whitespace is trimmed from both ends.
pub fn trimmed_bounds(v: &Vec<char>, from: usize, to: usize) -> (r: (usize, usize))
    requires
        from <= to <= v@.len(),
    ensures
        from <= r.0 <= r.1 <= to,
        v@.subrange(r.0 as int, r.1 as int) == trim_seq(v@.subrange(from as int, to as int)),
{
    let mut start: usize = from;
    while start < to && is_whitespace_char(v[start])
        invariant
            from <= start <= to <= v@.len(),
            trim_start_seq(v@.subrange(from as int, to as int)) == trim_start_seq(v@.subrange(start as int, to as int)),
        decreases to - start,
    {
        proof {
            assert(v@.subrange(start as int, to as int).drop_first() =~= v@.subrange(start + 1, to as int));
        }
        start = start + 1;
    }
    proof {
        assert(trim_start_seq(v@.subrange(start as int, to as int)) == v@.subrange(start as int, to as int));
    }
    let mut end: usize = to;
    while end > start && is_whitespace_char(v[end - 1])
        invariant
            from <= start <= end <= to <= v@.len(),
            trim_end_seq(v@.subrange(start as int, to as int)) == trim_end_seq(v@.subrange(start as int, end as int)),
        decreases end - start,
    {
        proof {
            assert(v@.subrange(start as int, end as int).drop_last() =~= v@.subrange(start as int, end - 1));
        }
        end = end - 1;
    }
    (start, end)
}

/// The identifiers of a marker file, in file order.
pub fn parse_marker_ids(contents: &str) -> (ids: Vec<String>)
    ensures
        ids@.map_values(|s: String| s@) == marker_ids(contents@),
{
    let v = chars_of(contents);
    let n = v.len();
    let mut ids: Vec<String> = Vec::new();
    let mut line_start: usize = 0;
    let mut i: usize = 0;
    while i < n
        invariant
            v@ == contents@,
            n == v@.len(),
            line_start <= i <= n,
            split_at_newlines(v@.subrange(0, i as int)).last() == v@.subrange(line_start as int, i as int),
            ids@.map_values(|s: String| s@) == nonblank_trimmed(split_at_newlines(v@.subrange(0, i as int)).drop_last()),
        decreases n - i,
    {
        proof {
            assert(v@.subrange(0, i + 1).drop_last() =~= v@.subrange(0, i as int));
            assert(v@.subrange(0, i + 1).last() == v@[i as int]);
            lemma_split_nonempty(v@.subrange(0, i as int));
        }
        if v[i] == '\n' {
            let (a, b) = trimmed_bounds(&v, line_start, i);
            let ghost before = ids@.map_values(|s: String| s@);
            if a < b {
                let piece = string_of_chars(v.as_slice(), a, b);
                ids.push(piece);
                proof {
                    assert(ids@.map_values(|s: String| s@) =~= before.push(v@.subrange(a as int, b as int)));
                }
            } else {
                proof {
                    assert(ids@.map_values(|s: String| s@) =~= before);
                }
            }
            proof {
                let pieces = split_at_newlines(v@.subrange(0, i as int));
                assert(split_at_newlines(v@.subrange(0, i + 1)).drop_last() =~= pieces);
                assert(pieces.drop_last() =~= pieces.subrange(0, pieces.len() - 1));
                assert(ids@.map_values(|s: String| s@) =~= nonblank_trimmed(pieces));
                assert(split_at_newlines(v@.subrange(0, i + 1)).last() =~= v@.subrange(i + 1, i + 1));
            }
            line_start = i + 1;
        } else {
            proof {
                let pieces = split_at_newlines(v@.subrange(0, i as int));
                let next = split_at_newlines(v@.subrange(0, i + 1));
                assert(next.drop_last() =~= pieces.drop_last());
                assert(next.last() =~= v@.subrange(line_start as int, i + 1));
            }
        }
        i = i + 1;
    }
    let (a, b) = trimmed_bounds(&v, line_start, n);
    let ghost before = ids@.map_values(|s: String| s@);
    if a < b {
        let piece = string_of_chars(v.as_slice(), a, b);
        ids.push(piece);
        proof {
            assert(ids@.map_values(|s: String| s@) =~= before.push(v@.subrange(a as int, b as int)));
        }
    } else {
        proof {
            assert(ids@.map_values(|s: String| s@) =~= before);
        }
    }
    proof {
        assert(v@.subrange(0, n as int) =~= contents@);
        let pieces = split_at_newlines(contents@);
        lemma_split_nonempty(contents@);
        assert(pieces.drop_last().push(pieces.last()) =~= pieces);
        assert(ids@.map_values(|s: String| s@) =~= nonblank_trimmed(pieces));
    }
    ids
}

/// The marker file for `ids`, one identifier per line.
pub fn render_marker_ids(ids: &Vec<String>) -> (text: String)
    ensures
        text@ == marker_text(ids@.map_values(|s: String| s@)),
{
    let mut text = String::new();
    let mut i: usize = 0;
    while i < ids.len()
        invariant
            i <= ids@.len(),
            text@ == marker_text(ids@.map_values(|s: String| s@).subrange(0, i as int)),
        decreases ids@.len() - i,
    {
        text.append(ids[i].as_str());
        string_push(&mut text, '\n');
        proof {
            let all = ids@.map_values(|s: String| s@);
            assert(all.subrange(0, i + 1).drop_last() =~= all.subrange(0, i as int));
            assert(text@ =~= marker_text(all.subrange(0, i + 1)));
        }
        i = i + 1;
    }
    proof {
        assert(ids@.map_values(|s: String| s@).subrange(0, ids@.len() as int) =~= ids@.map_values(|s: String| s@));
    }
    text
}

pub proof fn lemma_split_nonempty(s: Seq<char>)
    ensures
        split_at_newlines(s).len() >= 1,
    decreases s.len(),
{
    if s.len() > 0 {
        lemma_split_nonempty(s.drop_last());
    }
}

proof fn lemma_split_append_line(s: Seq<char>, t: Seq<char>)
    requires
        !t.contains('\n'),
    ensures
        split_at_newlines(s + t) == split_at_newlines(s).update(
            split_at_newlines(s).len() - 1,
            split_at_newlines(s).last() + t,
        ),
    decreases t.len(),
{
    lemma_split_nonempty(s);
    if t.len() == 0 {
        assert(s + t =~= s);
        assert(split_at_newlines(s).last() + t =~= split_at_newlines(s).last());
        assert(split_at_newlines(s).update(split_at_newlines(s).len() - 1, split_at_newlines(s).last())
            =~= split_at_newlines(s));
    } else {
        let t0 = t.drop_last();
        assert(!t0.contains('\n')) by {
            if t0.contains('\n') {
                let k = choose|k: int| 0 <= k < t0.len() && t0[k] == '\n';
                assert(t[k] == '\n');
            }
        }
        lemma_split_append_line(s, t0);
        assert((s + t).drop_last() =~= s + t0);
        assert((s + t).last() == t.last());
        assert(t.last() != '\n') by {
            assert(t[t.len() - 1] == t.last());
        }
        assert(split_at_newlines(s).last() + t0 + seq![t.last()] =~= split_at_newlines(s).last() + t);
        assert((split_at_newlines(s).last() + t0).push(t.last()) =~= split_at_newlines(s).last() + t0 + seq![t.last()]);
        assert(split_at_newlines(s + t) =~= split_at_newlines(s).update(
            split_at_newlines(s).len() - 1,
            split_at_newlines(s).last() + t,
        ));
    }
}

proof fn lemma_split_marker_text(ids: Seq<Seq<char>>)
    requires
        forall|i: int| 0 <= i < ids.len() ==> is_marker_safe(#[trigger] ids[i]),
    ensures
        split_at_newlines(marker_text(ids)) == ids.push(Seq::<char>::empty()),
    decreases ids.len(),
{
    if ids.len() == 0 {
        assert(split_at_newlines(Seq::<char>::empty()) =~= ids.push(Seq::<char>::empty()));
    } else {
        let prev = ids.drop_last();
        assert forall|i: int| 0 <= i < prev.len() implies is_marker_safe(#[trigger] prev[i]) by {
            assert(prev[i] == ids[i]);
        }
        lemma_split_marker_text(prev);
        let id = ids.last();
        assert(is_marker_safe(ids[ids.len() - 1]));
        lemma_split_append_line(marker_text(prev), id);
        let body = marker_text(prev) + id;
        assert(split_at_newlines(body) =~= prev.push(id)) by {
            assert(prev.push(Seq::<char>::empty()).last() + id =~= id);
        }
        assert(marker_text(ids) =~= body.push('\n'));
        assert(body.push('\n').drop_last() =~= body);
        assert(split_at_newlines(marker_text(ids)) =~= prev.push(id).push(Seq::<char>::empty()));
        assert(prev.push(id) =~= ids);
    }
}

proof fn lemma_trim_safe(id: Seq<char>)
    requires
        is_marker_safe(id),
    ensures
        trim_seq(id) == id,
{
    assert(trim_start_seq(id) == id);
    assert(trim_end_seq(id) == id);
}

proof fn lemma_nonblank_trimmed_safe(ids: Seq<Seq<char>>)
    requires
        forall|i: int| 0 <= i < ids.len() ==> is_marker_safe(#[trigger] ids[i]),
    ensures
        nonblank_trimmed(ids) == ids,
    decreases ids.len(),
{
    if ids.len() > 0 {
        let prev = ids.drop_last();
        assert forall|i: int| 0 <= i < prev.len() implies is_marker_safe(#[trigger] prev[i]) by {
            assert(prev[i] == ids[i]);
        }
        lemma_nonblank_trimmed_safe(prev);
        assert(is_marker_safe(ids[ids.len() - 1]));
        lemma_trim_safe(ids.last());
        assert(prev.push(ids.last()) =~= ids);
    }
}

/// Reading a marker file gives back the identifiers it was written from,
/// for identifiers that are non-empty, on one line and without surrounding
/// whitespace.
pub proof fn lemma_marker_file_round_trip(ids: Seq<Seq<char>>)
    requires
        forall|i: int| 0 <= i < ids.len() ==> is_marker_safe(#[trigger] ids[i]),
    ensures
        marker_ids(marker_text(ids)) == ids,
{
    lemma_split_marker_text(ids);
    let pieces = ids.push(Seq::<char>::empty());
    assert(pieces.drop_last() =~= ids);
    assert(trim_seq(pieces.last()) =~= Seq::<char>::empty());
    lemma_nonblank_trimmed_safe(ids);
}

} // verus!
