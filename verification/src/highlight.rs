//! Marking where a search query occurs in a line of a note, letter case
//! aside.
use vstd::prelude::*;
use vstd::utf8::{
    encode_utf8, encode_utf8_valid_utf8, is_char_boundary, is_char_boundary_iff_not_is_continuation_byte,
    is_char_boundary_start_end_of_seq,
};
use crate::text::{lowercase, string_from, to_chars, to_lowercase};

verus! {

/// The starts of the occurrences of `n` in `h` from `from` on, each search
/// going on after the end of the previous occurrence.
pub open spec fn occurrences(h: Seq<u8>, n: Seq<u8>, from: int) -> Seq<int>
    decreases h.len() - from,
{
    if n.len() == 0 || from < 0 || from + n.len() > h.len() {
        Seq::empty()
    } else if h.subrange(from, from + n.len()) == n {
        seq![from] + occurrences(h, n, from + n.len())
    } else {
        occurrences(h, n, from + 1)
    }
}

/// The bytes `b[from..to]`, when both ends fall between characters.
pub open spec fn piece(b: Seq<u8>, from: int, to: int) -> Option<Seq<u8>> {
    if 0 <= from <= to <= b.len() && is_char_boundary(b, from) && is_char_boundary(b, to) {
        Some(b.subrange(from, to))
    } else {
        None
    }
}

/// A plain piece `b[from..to]`, as a list of at most one piece.
pub open spec fn plain_piece(b: Seq<u8>, from: int, to: int) -> Option<Seq<(Seq<u8>, bool)>> {
    match piece(b, from, to) {
        Some(p) => Some(seq![(p, false)]),
        None => None,
    }
}

/// The pieces of the text `b` cut at the occurrences `occ`, each `qn` bytes
/// long, after position `last`: the text before an occurrence (when there
/// is any), the occurrence marked, and after the last one the rest of the
/// text. `None` when a cut falls inside a character.
pub open spec fn segments(b: Seq<u8>, occ: Seq<int>, qn: int, last: int) -> Option<Seq<(Seq<u8>, bool)>>
    decreases occ.len(),
{
    if occ.len() == 0 {
        if last < b.len() {
            plain_piece(b, last, b.len() as int)
        } else {
            Some(Seq::empty())
        }
    } else {
        let s = occ[0];
        let before = if s > last {
            plain_piece(b, last, s)
        } else {
            Some(Seq::empty())
        };
        match (before, piece(b, s, s + qn), segments(b, occ.drop_first(), qn, s + qn)) {
            (Some(x), Some(m), Some(rest)) => Some(x + seq![(m, true)] + rest),
            _ => None,
        }
    }
}

/// The line cut into pieces, those where the query occurs marked: the
/// occurrences are found in the lower-cased line, and the line itself is cut
/// at their positions, each as long as the query. An empty query marks
/// nothing. `None` when a cut falls inside a character.
pub open spec fn highlighted(line: Seq<char>, query: Seq<char>) -> Option<Seq<(Seq<u8>, bool)>> {
    if query.len() == 0 {
        Some(seq![(encode_utf8(line), false)])
    } else {
        segments(
            encode_utf8(line),
            occurrences(encode_utf8(lowercase(line)), encode_utf8(lowercase(query)), 0),
            encode_utf8(query).len() as int,
            0,
        )
    }
}

/// Pieces as bytes with their marks.
pub open spec fn piece_views(v: Seq<(String, bool)>) -> Seq<(Seq<u8>, bool)> {
    v.map_values(|p: (String, bool)| (encode_utf8(p.0@), p.1))
}

/// `acc` followed by the pieces of `o`, if there are any.
pub open spec fn prepend(acc: Seq<(Seq<u8>, bool)>, o: Option<Seq<(Seq<u8>, bool)>>) -> Option<
    Seq<(Seq<u8>, bool)>,
> {
    match o {
        Some(r) => Some(acc + r),
        None => None,
    }
}

/// Whether `n` occurs in `h` at `i`.
fn occurs_at(h: &[u8], n: &[u8], i: usize) -> (r: bool)
    requires
        i + n@.len() <= h@.len(),
    ensures
        r == (h@.subrange(i as int, i + n@.len()) == n@),
{
    let h_len = h.len();
    let mut k: usize = 0;
    while k < n.len()
        invariant
            k <= n@.len(),
            h_len == h@.len(),
            i + n@.len() <= h@.len(),
            forall|j: int| 0 <= j < k ==> h@[i + j] == n@[j],
        decreases n.len() - k,
    {
        if h[i + k] != n[k] {
            assert(h@.subrange(i as int, i + n@.len())[k as int] != n@[k as int]);
            return false;
        }
        k = k + 1;
    }
    assert(h@.subrange(i as int, i + n@.len()) =~= n@);
    true
}

/// The text `line[from..to]`, when both ends fall between characters.
fn piece_of(line: &str, from: usize, to: usize) -> (r: Option<String>)
    ensures
        match piece(encode_utf8(line@), from as int, to as int) {
            Some(p) => r matches Some(s) && encode_utf8(s@) == p,
            None => r is None,
        },
{
    let ghost b = encode_utf8(line@);
    let len = line.as_bytes().len();
    if !(from <= to && to <= len && line.is_char_boundary(from) && line.is_char_boundary(to)) {
        return None;
    }
    let (_, tail) = line.split_at(from);
    let ghost t = encode_utf8(tail@);
    proof {
        encode_utf8_valid_utf8(line@);
        encode_utf8_valid_utf8(tail@);
        assert(t =~= b.subrange(from as int, b.len() as int));
        if to < len {
            is_char_boundary_iff_not_is_continuation_byte(b, to as int);
            is_char_boundary_iff_not_is_continuation_byte(t, to - from);
            assert(t[to - from] == b[to as int]);
        } else {
            is_char_boundary_start_end_of_seq(t);
        }
    }
    let (p, _) = tail.split_at(to - from);
    proof {
        assert(encode_utf8(p@) =~= b.subrange(from as int, to as int));
    }
    let chars = to_chars(p);
    let s = string_from(chars.as_slice());
    Some(s)
}

/// The pieces of `line` with the occurrences of `query` marked (see
/// `highlighted`).
pub fn highlight_segments(line: &str, query: &str) -> (r: Option<Vec<(String, bool)>>)
    ensures
        match highlighted(line@, query@) {
            Some(segs) => r matches Some(v) && piece_views(v@) == segs,
            None => r is None,
        },
{
    let mut out: Vec<(String, bool)> = Vec::new();
    if query.is_empty() {
        let whole = string_from(to_chars(line).as_slice());
        out.push((whole, false));
        assert(piece_views(out@) =~= seq![(encode_utf8(line@), false)]);
        return Some(out);
    }
    let lower = to_lowercase(line);
    let lower_query = to_lowercase(query);
    let h = lower.as_str().as_bytes();
    let n = lower_query.as_str().as_bytes();
    let qn = query.as_bytes().len();
    let line_len = line.as_bytes().len();
    let ghost b = encode_utf8(line@);
    let ghost all = occurrences(h@, n@, 0);
    let mut i: usize = 0;
    let mut last: usize = 0;
    proof {
        assert(piece_views(out@) =~= Seq::<(Seq<u8>, bool)>::empty());
        match segments(b, all, qn as int, 0) {
            Some(r) => {
                assert(Seq::<(Seq<u8>, bool)>::empty() + r =~= r);
            },
            None => {},
        }
    }
    if n.len() > 0 {
        while n.len() <= h.len() - i
            invariant
                i <= h@.len(),
                n@.len() > 0,
                query@.len() > 0,
                h@ == encode_utf8(lowercase(line@)),
                n@ == encode_utf8(lowercase(query@)),
                qn == encode_utf8(query@).len(),
                line_len == encode_utf8(line@).len(),
                b == encode_utf8(line@),
                all == occurrences(h@, n@, 0),
                segments(b, all, qn as int, 0) == prepend(
                    piece_views(out@),
                    segments(b, occurrences(h@, n@, i as int), qn as int, last as int),
                ),
            decreases h.len() - i,
        {
            let ghost occ = occurrences(h@, n@, i as int);
            if occurs_at(h, n, i) {
                let ghost rest = occurrences(h@, n@, i + n@.len());
                assert(occ == seq![i as int] + rest);
                assert(occ.len() > 0 && occ[0] == i);
                assert(occ.drop_first() =~= rest);
                let ghost before_out = piece_views(out@);
                if i > last {
                    match piece_of(line, last, i) {
                        Some(p) => {
                            out.push((p, false));
                        },
                        None => {
                            assert(segments(b, occ, qn as int, last as int) is None);
                            return None;
                        },
                    }
                }
                let ghost mid_out = piece_views(out@);
                let end = match i.checked_add(qn) {
                    Some(e) => e,
                    None => {
                        assert(piece(b, i as int, i + qn) is None);
                        assert(segments(b, occ, qn as int, last as int) is None);
                        return None;
                    },
                };
                match piece_of(line, i, end) {
                    Some(p) => {
                        out.push((p, true));
                    },
                    None => {
                        assert(segments(b, occ, qn as int, last as int) is None);
                        return None;
                    },
                }
                proof {
                    let x = if i > last {
                        plain_piece(b, last as int, i as int)->0
                    } else {
                        Seq::empty()
                    };
                    assert(mid_out =~= before_out + x);
                    let m = piece(b, i as int, end as int)->0;
                    assert(piece_views(out@) =~= before_out + x + seq![(m, true)]);
                    match segments(b, rest, qn as int, end as int) {
                        Some(r) => {
                            assert(before_out + (x + seq![(m, true)] + r) =~= piece_views(out@) + r);
                        },
                        None => {},
                    }
                }
                last = end;
                i = i + n.len();
            } else {
                i = i + 1;
            }
        }
    }
    if last < line_len {
        match piece_of(line, last, line_len) {
            Some(p) => {
                let ghost before_out = piece_views(out@);
                out.push((p, false));
                assert(piece_views(out@) =~= before_out + plain_piece(b, last as int, b.len() as int)->0);
            },
            None => {
                return None;
            },
        }
    } else {
        assert(piece_views(out@) + Seq::<(Seq<u8>, bool)>::empty() =~= piece_views(out@));
    }
    Some(out)
}

} // verus!
