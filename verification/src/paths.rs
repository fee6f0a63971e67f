//! Unix path strings: joining a relative name onto a directory, and the
//! final component of a path.
use vstd::prelude::*;
use crate::text::{concat, copy_range, find_char, index_of, string_from, to_chars};

verus! {

/// `PathBuf::push` of `name` onto `base` (Unix separators): an absolute
/// `name` replaces `base`; otherwise a `'/'` is inserted unless `base` is
/// empty or already ends with one.
pub open spec fn join_path(base: Seq<char>, name: Seq<char>) -> Seq<char> {
    if name.len() > 0 && name[0] == '/' {
        name
    } else if base.len() == 0 || base.last() == '/' {
        base + name
    } else {
        base + seq!['/'] + name
    }
}

/// The path components of `p` that `Path::file_name` can return: the
/// pieces between `'/'`, without empty pieces and without `"."`.
pub open spec fn normal_pieces(p: Seq<char>) -> Seq<Seq<char>>
    decreases p.len(),
{
    if p.len() == 0 {
        Seq::empty()
    } else {
        let i = index_of(p, '/');
        let piece = p.take(i as int);
        let rest = if i < p.len() {
            normal_pieces(p.skip(i as int + 1))
        } else {
            Seq::empty()
        };
        if piece.len() == 0 || piece == seq!['.'] {
            rest
        } else {
            seq![piece] + rest
        }
    }
}

/// `Path::file_name` for a Unix path: the last component, unless there is
/// none or it is `".."`.
pub open spec fn file_name(p: Seq<char>) -> Option<Seq<char>> {
    let pieces = normal_pieces(p);
    if pieces.len() == 0 || pieces.last() == seq!['.', '.'] {
        None
    } else {
        Some(pieces.last())
    }
}

/// `base.join(name)` as a string.
pub fn join(base: &str, name: &str) -> (r: String)
    ensures
        r@ == join_path(base@, name@),
{
    let b = to_chars(base);
    let n = to_chars(name);
    if n.len() > 0 && n[0] == '/' {
        string_from(n.as_slice())
    } else if b.len() == 0 || b[b.len() - 1] == '/' {
        let v = concat(b.as_slice(), n.as_slice());
        string_from(v.as_slice())
    } else {
        let mut v = copy_range(b.as_slice(), 0, b.len());
        v.push('/');
        let w = concat(v.as_slice(), n.as_slice());
        proof {
            assert(b@.subrange(0, b@.len() as int) =~= b@);
            assert(v@ =~= b@ + seq!['/']);
        }
        string_from(w.as_slice())
    }
}

/// The pieces of `p` as `normal_pieces` defines them.
fn pieces_of(p: &[char]) -> (r: Vec<Vec<char>>)
    ensures
        r@.len() == normal_pieces(p@).len(),
        forall|k: int| 0 <= k < r@.len() ==> (#[trigger] r@[k])@ == normal_pieces(p@)[k],
{
    let mut out: Vec<Vec<char>> = Vec::new();
    let mut start: usize = 0;
    let ghost done: Seq<Seq<char>> = Seq::empty();
    assert(p@.skip(0) =~= p@);
    while start < p.len()
        invariant
            start <= p.len(),
            out@.len() == done.len(),
            forall|k: int| 0 <= k < out@.len() ==> (#[trigger] out@[k])@ == done[k],
            done + normal_pieces(p@.skip(start as int)) == normal_pieces(p@),
        decreases p.len() - start,
    {
        let rest = copy_range(p, start, p.len());
        assert(rest@ =~= p@.skip(start as int));
        let i = find_char(rest.as_slice(), '/');
        let piece = copy_range(rest.as_slice(), 0, i);
        assert(piece@ =~= rest@.take(i as int));
        let is_dot = piece.len() == 1 && piece[0] == '.';
        proof {
            if piece@.len() == 1 {
                assert(is_dot == (piece@ =~= seq!['.']));
            } else {
                assert(piece@ != seq!['.']);
            }
        }
        let next: usize = if i < rest.len() {
            start + i + 1
        } else {
            p.len()
        };
        proof {
            if i < rest.len() {
                assert(rest@.skip(i as int + 1) =~= p@.skip(next as int));
            } else {
                assert(p@.skip(next as int) =~= Seq::<char>::empty());
            }
        }
        if piece.len() == 0 || is_dot {
            proof {
                assert(done + normal_pieces(p@.skip(next as int)) =~= normal_pieces(p@));
            }
        } else {
            proof {
                done = done.push(piece@);
                assert(done + normal_pieces(p@.skip(next as int)) =~= normal_pieces(p@));
            }
            out.push(piece);
        }
        start = next;
    }
    assert(p@.skip(start as int) =~= Seq::<char>::empty());
    assert(done =~= normal_pieces(p@));
    out
}

/// `Path::file_name` as a string.
pub fn path_file_name(path: &str) -> (r: Option<String>)
    ensures
        match r {
            Some(n) => file_name(path@) == Some(n@),
            None => file_name(path@) is None,
        },
{
    let p = to_chars(path);
    let pieces = pieces_of(p.as_slice());
    if pieces.len() == 0 {
        return None;
    }
    let last = &pieces[pieces.len() - 1];
    let is_parent = last.len() == 2 && last[0] == '.' && last[1] == '.';
    proof {
        if last@.len() == 2 {
            assert(is_parent == (last@ =~= seq!['.', '.']));
        } else {
            assert(last@ != seq!['.', '.']);
        }
    }
    if is_parent {
        None
    } else {
        Some(string_from(last.as_slice()))
    }
}

} // verus!
