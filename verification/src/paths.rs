//! Comparison of file paths in the form that Unix gives them.
//!
//! Two paths are the same path when they have the same components, which is
//! how Rust's `Path` compares them. A path is cut into pieces at every `/`.
//! Empty pieces do not count, so that repeated and trailing separators make
//! no difference, and neither do pieces that are a single `.`, except that a
//! path that begins with such a piece begins at the current directory. No
//! other piece is interpreted: `a/b/../c` and `a/c` are different paths.

use vstd::prelude::*;
use crate::text::{find, first_at, lemma_first_at_lower_bound, same_stretch, Mark};

verus! {

/// Whether `path` begins at the root directory.
pub open spec fn is_rooted(path: Seq<char>) -> bool {
    path.len() > 0 && path[0] == '/'
}

/// Whether `path` begins with a piece `.`, which stands for the current
/// directory.
pub open spec fn begins_here(path: Seq<char>) -> bool {
    path.len() > 0 && path[0] == '.' && (path.len() == 1 || path[1] == '/')
}

/// Whether `piece` is a component: it is neither empty nor a single `.`.
pub open spec fn counts(piece: Seq<char>) -> bool {
    piece.len() > 0 && !(piece.len() == 1 && piece[0] == '.')
}

/// The components among the pieces of `path` that begin at `from` or later.
pub open spec fn components_from(path: Seq<char>, from: int) -> Seq<Seq<char>>
    decreases path.len() - from,
{
    if from < 0 || from > path.len() {
        Seq::empty()
    } else {
        let to = first_at(path, from, Mark::Slash);
        let piece = path.subrange(from, to);
        let rest = if to < path.len() {
            proof {
                lemma_first_at_lower_bound(path, from, Mark::Slash);
            }
            components_from(path, to + 1)
        } else {
            Seq::empty()
        };
        if counts(piece) {
            seq![piece] + rest
        } else {
            rest
        }
    }
}

/// The components of `path`.
pub open spec fn components(path: Seq<char>) -> Seq<Seq<char>> {
    components_from(path, 0)
}

/// Whether `a` and `b` are the same path.
pub open spec fn same_path(a: Seq<char>, b: Seq<char>) -> bool {
    &&& is_rooted(a) == is_rooted(b)
    &&& begins_here(a) == begins_here(b)
    &&& components(a) == components(b)
}

/// The components that are still to come when the next piece begins at
/// `cursor`, and none when there is no next piece.
pub open spec fn pending(path: Seq<char>, cursor: Option<usize>) -> Seq<Seq<char>> {
    match cursor {
        Some(from) => components_from(path, from as int),
        None => Seq::empty(),
    }
}

/// Where the piece after the one that ends at `to` begins.
pub open spec fn after(path: Seq<char>, to: usize) -> Option<usize> {
    if to < path.len() {
        Some((to + 1) as usize)
    } else {
        None
    }
}

/// How far a cursor is from the end of the path.
pub open spec fn distance(path: Seq<char>, cursor: Option<usize>) -> nat {
    match cursor {
        Some(from) => (path.len() - from + 1) as nat,
        None => 0,
    }
}

/// The bounds of the first component of `path` at or after `start`.
fn next_component(path: &Vec<char>, start: Option<usize>) -> (found: Option<(usize, usize)>)
    requires
        start matches Some(from) ==> from <= path.len(),
    ensures
        match found {
            Some((from, to)) => {
                &&& from <= to <= path.len()
                &&& pending(path@, start) == seq![path@.subrange(from as int, to as int)]
                    + pending(path@, after(path@, to))
                &&& distance(path@, after(path@, to)) < distance(path@, start)
            },
            None => pending(path@, start) == Seq::<Seq<char>>::empty(),
        },
{
    let mut cursor = start;
    loop
        invariant
            cursor matches Some(from) ==> from <= path.len(),
            pending(path@, cursor) == pending(path@, start),
            distance(path@, cursor) <= distance(path@, start),
        decreases distance(path@, cursor),
    {
        match cursor {
            None => {
                return None;
            },
            Some(from) => {
                let to = find(path, from, Mark::Slash);
                let is_component = to > from && !(to == from + 1 && path[from] == '.');
                proof {
                    let piece = path@.subrange(from as int, to as int);
                    if to == from + 1 {
                        assert(piece[0] == path@[from as int]);
                    }
                    assert(is_component == counts(piece));
                }
                if is_component {
                    return Some((from, to));
                }
                cursor =
                if to < path.len() {
                    Some(to + 1)
                } else {
                    None
                };
            },
        }
    }
}

/// Whether `a` and `b` are the same path.
pub fn same_path_of(a: &Vec<char>, b: &Vec<char>) -> (same: bool)
    ensures
        same == same_path(a@, b@),
{
    let a_rooted = a.len() > 0 && a[0] == '/';
    let b_rooted = b.len() > 0 && b[0] == '/';
    let a_here = a.len() > 0 && a[0] == '.' && (a.len() == 1 || a[1] == '/');
    let b_here = b.len() > 0 && b[0] == '.' && (b.len() == 1 || b[1] == '/');
    if a_rooted != b_rooted || a_here != b_here {
        return false;
    }
    let mut at_a: Option<usize> = Some(0);
    let mut at_b: Option<usize> = Some(0);
    loop
        invariant
            at_a matches Some(i) ==> i <= a.len(),
            at_b matches Some(j) ==> j <= b.len(),
            (components(a@) == components(b@)) <==> (pending(a@, at_a) == pending(b@, at_b)),
            is_rooted(a@) == is_rooted(b@),
            begins_here(a@) == begins_here(b@),
        decreases distance(a@, at_a),
    {
        let ghost left = pending(a@, at_a);
        let ghost right = pending(b@, at_b);
        match (next_component(a, at_a), next_component(b, at_b)) {
            (None, None) => {
                return true;
            },
            (Some((a_from, a_to)), Some((b_from, b_to))) => {
                let ghost left_rest = pending(a@, after(a@, a_to));
                let ghost right_rest = pending(b@, after(b@, b_to));
                let ghost left_first = a@.subrange(a_from as int, a_to as int);
                let ghost right_first = b@.subrange(b_from as int, b_to as int);
                proof {
                    assert(left[0] == left_first && right[0] == right_first);
                    assert(left.skip(1) =~= left_rest && right.skip(1) =~= right_rest);
                }
                if !same_stretch(a, a_from, a_to, b, b_from, b_to) {
                    return false;
                }
                at_a =
                if a_to < a.len() {
                    Some(a_to + 1)
                } else {
                    None
                };
                at_b =
                if b_to < b.len() {
                    Some(b_to + 1)
                } else {
                    None
                };
            },
            (Some((a_from, a_to)), None) => {
                assert(left.len() > 0 && right.len() == 0);
                return false;
            },
            (None, Some((b_from, b_to))) => {
                assert(left.len() == 0 && right.len() > 0);
                return false;
            },
        }
    }
}

/// The empty path is no other path: a path that is not empty is rooted,
/// begins at the current directory or has a component.
pub proof fn lemma_only_the_empty_path_is_empty(path: Seq<char>)
    ensures
        same_path(path, Seq::empty()) <==> path.len() == 0,
{
    let none = Seq::<char>::empty();
    assert(components(none) == Seq::<Seq<char>>::empty());
    if path.len() > 0 {
        let to = first_at(path, 0, Mark::Slash);
        lemma_first_at_lower_bound(path, 0, Mark::Slash);
        let piece = path.subrange(0, to);
        if to == 0 {
            assert(is_rooted(path));
        } else if counts(piece) {
            assert(components(path)[0] == piece);
        } else {
            assert(piece[0] == path[0]);
            assert(begins_here(path));
        }
    }
}

} // verus!
