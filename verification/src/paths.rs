//! Unix path handling over the characters of a path (`std::path::Path`).
use vstd::prelude::*;
use crate::text::{split, split_exec, chars_of, push_chars};

verus! {

/// The last piece of `pieces` that names something: neither empty nor `.`.
pub open spec fn last_named(pieces: Seq<Seq<char>>) -> Option<Seq<char>>
    decreases pieces.len(),
{
    if pieces.len() == 0 {
        None
    } else if pieces.last().len() == 0 || pieces.last() == seq!['.'] {
        last_named(pieces.drop_last())
    } else {
        Some(pieces.last())
    }
}

/// `Path::file_name` on Unix: the last component of `p` when it is a normal
/// name, `None` when the path ends in `..`, is a root or is only `.`.
pub open spec fn file_name(p: Seq<char>) -> Option<Seq<char>> {
    match last_named(split(p, '/')) {
        Some(name) => if name == seq!['.', '.'] {
            None
        } else {
            Some(name)
        },
        None => None,
    }
}

/// `Path::join` on Unix: an absolute `rel` replaces `base`; otherwise `rel` is
/// appended, with a `/` between them when `base` is not empty and does not
/// already end in one.
pub open spec fn join(base: Seq<char>, rel: Seq<char>) -> Seq<char> {
    if rel.len() > 0 && rel[0] == '/' {
        rel
    } else if base.len() > 0 && base.last() != '/' {
        base + seq!['/'] + rel
    } else {
        base + rel
    }
}

/// `Path::file_name` on Unix.
pub fn file_name_of(p: &str) -> (r: Option<String>)
    ensures
        match r {
            Some(s) => file_name(p@) == Some(s@),
            None => file_name(p@) is None,
        },
{
    let pv = chars_of(p);
    let pieces = split_exec(pv.as_slice(), '/');
    let mut i: usize = pieces.len();
    assert(pieces@.len() == split(p@, '/').len());
    let ghost all = split(p@, '/');
    assert(all.take(all.len() as int) =~= all);
    while i > 0
        invariant
            i <= pieces@.len(),
            pieces@.len() == all.len(),
            all == split(p@, '/'),
            forall|k: int| 0 <= k < pieces@.len() ==> #[trigger] pieces@[k]@ == all[k],
            last_named(all) == last_named(all.take(i as int)),
        decreases i,
    {
        let piece = &pieces[i - 1];
        assert(piece@ == all[i - 1]);
        assert(all.take(i as int).last() == all[i - 1]);
        assert(all.take(i as int).drop_last() =~= all.take(i - 1));
        let is_dot = piece.len() == 1 && piece[0] == '.';
        assert(is_dot == (piece@ == seq!['.'])) by {
            if piece@.len() == 1 && piece@[0] == '.' {
                assert(piece@ =~= seq!['.']);
            }
        }
        if piece.len() == 0 || is_dot {
            i -= 1;
        } else {
            let is_parent = piece.len() == 2 && piece[0] == '.' && piece[1] == '.';
            assert(is_parent == (piece@ == seq!['.', '.'])) by {
                if piece@.len() == 2 && piece@[0] == '.' && piece@[1] == '.' {
                    assert(piece@ =~= seq!['.', '.']);
                }
            }
            if is_parent {
                return None;
            }
            return Some(crate::text::string_of(piece.as_slice()));
        }
    }
    None
}

/// Appends `join(base, rel)` to `out`.
pub fn push_join(out: &mut Vec<char>, base: &str, rel: &str)
    ensures
        final(out)@ == old(out)@ + join(base@, rel@),
{
    let bv = chars_of(base);
    let rv = chars_of(rel);
    if rv.len() > 0 && rv[0] == '/' {
        push_chars(out, rv.as_slice());
    } else if bv.len() > 0 && bv[bv.len() - 1] != '/' {
        push_chars(out, bv.as_slice());
        out.push('/');
        push_chars(out, rv.as_slice());
        assert(out@ =~= old(out)@ + join(base@, rel@));
    } else {
        push_chars(out, bv.as_slice());
        push_chars(out, rv.as_slice());
        assert(out@ =~= old(out)@ + join(base@, rel@));
    }
}

} // verus!
