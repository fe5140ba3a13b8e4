//! File names of Unix paths (`std::path::Path::file_name` on `/`-separated
//! paths).

use vstd::prelude::*;
use crate::text::{lemma_split_len, lemma_split_pieces_free, split_char, str_eq};

verus! {

/// A path piece that names something: not empty (doubled or trailing
/// separators) and not `.` (the current directory).
pub open spec fn meaningful(p: Seq<char>) -> bool {
    p.len() > 0 && p != "."@
}

/// The last meaningful piece among `pieces`.
pub open spec fn last_meaningful(pieces: Seq<Seq<char>>) -> Option<Seq<char>>
    decreases pieces.len(),
{
    if pieces.len() == 0 {
        None
    } else if meaningful(pieces.last()) {
        Some(pieces.last())
    } else {
        last_meaningful(pieces.drop_last())
    }
}

/// The final component of a path, if it is a normal one: `None` for the
/// root, an empty path, `.` and paths ending in `..`.
pub open spec fn file_name_spec(path: Seq<char>) -> Option<Seq<char>> {
    match last_meaningful(split_char(path, '/')) {
        Some(p) => if p == ".."@ {
            None
        } else {
            Some(p)
        },
        None => None,
    }
}

/// The final component of `path` (`Path::new(path).file_name()`).
pub fn file_name(path: &str) -> (r: Option<&str>)
    ensures
        match file_name_spec(path@) {
            Some(p) => r matches Some(x) && x@ == p,
            None => r is None,
        },
{
    let n = path.unicode_len();
    let mut start: usize = 0;
    let mut i: usize = 0;
    let mut last: Option<(usize, usize)> = None;
    let ghost mut done: Seq<Seq<char>> = seq![];
    proof {
        assert(path@.subrange(0, 0) =~= seq![]);
    }
    while i < n
        invariant
            n == path@.len(),
            start <= i <= n,
            split_char(path@.subrange(0, i as int), '/') == done.push(
                path@.subrange(start as int, i as int),
            ),
            match last {
                Some((a, b)) => a <= b <= n && last_meaningful(done) == Some(
                    path@.subrange(a as int, b as int),
                ),
                None => last_meaningful(done) is None,
            },
        decreases n - i,
    {
        let c = path.get_char(i);
        let ghost pre = path@.subrange(0, i as int);
        let ghost nxt = path@.subrange(0, i + 1);
        assert(nxt.drop_last() =~= pre);
        assert(nxt.last() == c);
        if c == '/' {
            let piece = path.substring_char(start, i);
            if piece.unicode_len() > 0 && !str_eq(piece, ".") {
                last = Some((start, i));
            }
            proof {
                let d2 = done.push(path@.subrange(start as int, i as int));
                assert(d2.drop_last() =~= done);
                done = d2;
                assert(path@.subrange(i + 1, i + 1) =~= seq![]);
            }
            start = i + 1;
        } else {
            proof {
                lemma_split_len(pre, '/');
                let r = split_char(pre, '/');
                assert(path@.subrange(start as int, i + 1) =~= path@.subrange(
                    start as int,
                    i as int,
                ).push(c));
                assert(r.update(r.len() - 1, r.last().push(c)) =~= done.push(
                    path@.subrange(start as int, i + 1),
                ));
            }
        }
        i = i + 1;
    }
    assert(path@.subrange(0, n as int) =~= path@);
    let piece = path.substring_char(start, n);
    proof {
        let d2 = done.push(path@.subrange(start as int, n as int));
        assert(d2.drop_last() =~= done);
    }
    if piece.unicode_len() > 0 && !str_eq(piece, ".") {
        last = Some((start, n));
    }
    match last {
        Some((a, b)) => {
            let name = path.substring_char(a, b);
            if str_eq(name, "..") {
                None
            } else {
                Some(name)
            }
        },
        None => None,
    }
}


/// What `last_meaningful` picks is a meaningful member of the pieces.
proof fn lemma_last_meaningful_member(pieces: Seq<Seq<char>>)
    ensures
        last_meaningful(pieces) matches Some(p) ==> meaningful(p) && exists|i: int|
            0 <= i < pieces.len() && #[trigger] pieces[i] == p,
    decreases pieces.len(),
{
    if pieces.len() > 0 {
        if meaningful(pieces.last()) {
            assert(pieces[pieces.len() - 1] == pieces.last());
        } else {
            lemma_last_meaningful_member(pieces.drop_last());
            if let Some(p) = last_meaningful(pieces.drop_last()) {
                let i = choose|i: int| 0 <= i < pieces.drop_last().len() && #[trigger] pieces.drop_last()[i] == p;
                assert(pieces[i] == p);
            }
        }
    }
}

/// Law: a file name is a single plain component: not empty, not `.` or
/// `..`, and free of `/`.
pub proof fn file_name_is_plain(path: Seq<char>)
    ensures
        file_name_spec(path) matches Some(p) ==> {
            &&& p.len() > 0
            &&& p != "."@
            &&& p != ".."@
            &&& forall|j: int| 0 <= j < p.len() ==> p[j] != '/'
        },
{
    let pieces = split_char(path, '/');
    lemma_last_meaningful_member(pieces);
    lemma_split_pieces_free(path, '/');
    if let Some(p) = file_name_spec(path) {
        let i = choose|i: int| 0 <= i < pieces.len() && #[trigger] pieces[i] == p;
        assert forall|j: int| 0 <= j < p.len() implies p[j] != '/' by {
            assert(pieces[i][j] != '/');
        }
    }
}

} // verus!
