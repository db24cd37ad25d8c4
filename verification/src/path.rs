//! Paths as text, with `/` between their pieces: joining, and finding the
//! final piece and what stands before it.
//!
//! Pieces that are empty or a single dot do not count, wherever they stand
//! behind the first: `a//b/./` is `a/b`.

use crate::name::{find_last, last_index_of, lemma_last_index_is, lemma_last_index_of};
use crate::text::{from_chars, to_chars};
use vstd::prelude::*;
use vstd::string::StringExecFns;

verus! {

/// Whether a path begins at the root.
pub open spec fn is_rooted(p: Seq<char>) -> bool {
    p.len() >= 1 && p[0] == '/'
}

/// Whether a path begins with a piece that is a single dot.
pub open spec fn starts_with_dot_piece(p: Seq<char>) -> bool {
    p.len() >= 1 && p[0] == '.' && (p.len() == 1 || p[1] == '/')
}

/// Where the pieces that can be taken off a path begin: behind the root, or
/// behind a single dot that the path begins with.
pub open spec fn body_start(p: Seq<char>) -> int {
    if is_rooted(p) || starts_with_dot_piece(p) {
        1
    } else {
        0
    }
}

/// Where the last piece of `p` begins, when the pieces begin at `lo`.
pub open spec fn last_piece_start(p: Seq<char>, lo: int) -> int {
    let i = last_index_of(p, '/');
    if i >= lo {
        i + 1
    } else {
        lo
    }
}

/// The last piece of `p`.
pub open spec fn last_piece(p: Seq<char>, lo: int) -> Seq<char> {
    p.skip(last_piece_start(p, lo))
}

/// `p` without its last piece and the separator before it.
pub open spec fn without_last_piece(p: Seq<char>, lo: int) -> Seq<char> {
    let i = last_index_of(p, '/');
    if i >= lo {
        p.take(i)
    } else {
        p.take(lo)
    }
}

/// Whether a piece does not count: it is empty or a single dot.
pub open spec fn is_skipped(piece: Seq<char>) -> bool {
    piece.len() == 0 || (piece.len() == 1 && piece[0] == '.')
}

/// `p` without the pieces at its end that do not count.
pub open spec fn trimmed(p: Seq<char>, lo: int) -> Seq<char>
    decreases p.len(),
{
    if 0 <= lo < p.len() && is_skipped(last_piece(p, lo)) {
        proof {
            lemma_last_index_of(p, '/');
        }
        trimmed(without_last_piece(p, lo), lo)
    } else {
        p
    }
}

/// The final piece of a path: its last piece that counts, unless that is
/// `..` or there is none.
pub open spec fn file_name_of(p: Seq<char>) -> Option<Seq<char>> {
    let lo = body_start(p);
    let t = trimmed(p, lo);
    if t.len() <= lo || last_piece(t, lo) == seq!['.', '.'] {
        None
    } else {
        Some(last_piece(t, lo))
    }
}

/// What stands before the final piece of a path. A path that is only a root,
/// or empty, has no parent; a path of one piece has the empty parent.
pub open spec fn parent_of(p: Seq<char>) -> Option<Seq<char>> {
    let lo = body_start(p);
    let t = trimmed(p, lo);
    if t.len() > lo {
        Some(trimmed(without_last_piece(t, lo), lo))
    } else if is_rooted(p) || p.len() == 0 {
        None
    } else {
        Some(Seq::<char>::empty())
    }
}

/// `base` with `piece` added behind it: a rooted `piece` stands alone, and a
/// separator comes between the two unless `base` is empty or ends in one.
pub open spec fn joined(base: Seq<char>, piece: Seq<char>) -> Seq<char> {
    if is_rooted(piece) {
        piece
    } else if base.len() > 0 && base.last() != '/' {
        base + seq!['/'] + piece
    } else {
        base + piece
    }
}

/// What each of a list of strings holds.
pub open spec fn texts(pieces: Seq<&str>) -> Seq<Seq<char>> {
    pieces.map_values(|piece: &str| piece@)
}

/// `base` with each of `pieces` added behind it, in order.
pub open spec fn joined_all(base: Seq<char>, pieces: Seq<Seq<char>>) -> Seq<char>
    decreases pieces.len(),
{
    if pieces.len() == 0 {
        base
    } else {
        joined(joined_all(base, pieces.drop_last()), pieces.last())
    }
}

/// Whether `name` can be the final piece of a path: it is not empty, holds
/// no separator, and is neither `.` nor `..`.
pub open spec fn is_plain_name(name: Seq<char>) -> bool {
    &&& name.len() > 0
    &&& forall|i: int| 0 <= i < name.len() ==> name[i] != '/'
    &&& name != seq!['.']
    &&& name != seq!['.', '.']
}

/// What is trimmed has no piece at its end that does not count.
pub proof fn lemma_trimmed(p: Seq<char>, lo: int)
    requires
        0 <= lo,
    ensures
        trimmed(p, lo).len() <= lo || !is_skipped(last_piece(trimmed(p, lo), lo)),
        trimmed(p, lo).len() <= p.len(),
    decreases p.len(),
{
    if lo < p.len() && is_skipped(last_piece(p, lo)) {
        lemma_last_index_of(p, '/');
        lemma_trimmed(without_last_piece(p, lo), lo);
    }
}

/// The final piece of a path is a plain name.
pub proof fn law_file_name_is_plain(p: Seq<char>)
    requires
        file_name_of(p) is Some,
    ensures
        is_plain_name(file_name_of(p)->0),
{
    let lo = body_start(p);
    let t = trimmed(p, lo);
    lemma_trimmed(p, lo);
    lemma_last_index_of(t, '/');
    let name = last_piece(t, lo);
    if name =~= seq!['.'] {
        assert(is_skipped(name));
    }
}

/// The final piece of a path that was made by adding a plain name to a
/// folder is that name.
pub proof fn law_file_name_of_joined(dir: Seq<char>, name: Seq<char>)
    requires
        is_plain_name(name),
    ensures
        file_name_of(joined(dir, name)) == Some(name),
{
    let p = joined(dir, name);
    let lo = body_start(p);
    let j = p.len() - name.len() - 1;
    assert(name[0] != '/');
    assert forall|k: int| j < k < p.len() implies p[k] != '/' by {
        assert(p[k] == name[k - j - 1]);
    }
    lemma_last_index_is(p, '/', j);
    if dir.len() == 0 {
        assert(p =~= name);
        if name[0] == '.' {
            if name.len() == 1 {
                assert(name =~= seq!['.']);
            } else {
                assert(name[1] != '/');
            }
        }
        assert(lo == 0);
    }
    assert(last_piece_start(p, lo) == j + 1);
    assert(last_piece(p, lo) =~= name);
    if is_skipped(name) {
        assert(name =~= seq!['.']);
    }
    assert(trimmed(p, lo) == p);
}

/// Where the pieces of a path begin.
fn body_start_in(v: &Vec<char>) -> (lo: usize)
    ensures
        lo == body_start(v@),
        lo <= v.len(),
{
    if v.len() >= 1 && v[0] == '/' {
        1
    } else if v.len() >= 1 && v[0] == '.' && (v.len() == 1 || v[1] == '/') {
        1
    } else {
        0
    }
}

/// Where the last piece of the first `end` characters begins, and how many
/// characters are left without it.
fn split_last_piece(v: &Vec<char>, lo: usize, end: usize) -> (r: (usize, usize))
    requires
        lo <= end <= v.len(),
    ensures
        r.0 == last_piece_start(v@.take(end as int), lo as int),
        v@.take(r.1 as int) == without_last_piece(v@.take(end as int), lo as int),
        lo <= r.1 <= r.0 <= end,
        end > lo ==> r.1 < end,
{
    let ghost p = v@.take(end as int);
    proof {
        lemma_last_index_of(p, '/');
    }
    match find_last(v, end, '/') {
        Some(i) => {
            if i >= lo {
                assert(p.take(i as int) =~= v@.take(i as int));
                return (i + 1, i);
            }
        },
        None => {},
    }
    assert(p.take(lo as int) =~= v@.take(lo as int));
    (lo, lo)
}

/// How many of the first `end` characters are left without the pieces at
/// their end that do not count.
fn trim_end(v: &Vec<char>, lo: usize, end: usize) -> (r: usize)
    requires
        lo <= end <= v.len(),
    ensures
        lo <= r <= end,
        v@.take(r as int) == trimmed(v@.take(end as int), lo as int),
{
    let mut r: usize = end;
    while r > lo
        invariant
            lo <= r <= end <= v.len(),
            trimmed(v@.take(r as int), lo as int) == trimmed(v@.take(end as int), lo as int),
        decreases r,
    {
        let (start, rest) = split_last_piece(v, lo, r);
        let ghost p = v@.take(r as int);
        assert(last_piece(p, lo as int) =~= v@.subrange(start as int, r as int));
        if start == r || (r - start == 1 && v[start] == '.') {
            r = rest;
        } else {
            return r;
        }
    }
    r
}

/// The final piece of a path.
pub fn file_name(path: &str) -> (name: Option<String>)
    ensures
        match name {
            Some(n) => file_name_of(path@) == Some(n@),
            None => file_name_of(path@) is None,
        },
{
    let v = to_chars(path);
    let lo = body_start_in(&v);
    proof {
        assert(v@.take(v.len() as int) =~= v@);
    }
    let end = trim_end(&v, lo, v.len());
    if end <= lo {
        return None;
    }
    let (start, _) = split_last_piece(&v, lo, end);
    let ghost t = v@.take(end as int);
    assert(last_piece(t, lo as int) =~= v@.subrange(start as int, end as int));
    if end - start == 2 && v[start] == '.' && v[start + 1] == '.' {
        assert(last_piece(t, lo as int) =~= seq!['.', '.']);
        return None;
    }
    Some(from_chars(&v, start, end))
}

/// What stands before the final piece of a path.
pub fn parent(path: &str) -> (dir: Option<String>)
    ensures
        match dir {
            Some(d) => parent_of(path@) == Some(d@),
            None => parent_of(path@) is None,
        },
{
    let v = to_chars(path);
    let lo = body_start_in(&v);
    proof {
        assert(v@.take(v.len() as int) =~= v@);
    }
    let end = trim_end(&v, lo, v.len());
    if end > lo {
        let (_, rest) = split_last_piece(&v, lo, end);
        let cut = trim_end(&v, lo, rest);
        assert(v@.take(cut as int) =~= v@.subrange(0, cut as int));
        Some(from_chars(&v, 0, cut))
    } else if v.len() == 0 || v[0] == '/' {
        None
    } else {
        Some(String::new())
    }
}

/// `base` with `piece` added behind it.
pub fn join(base: &str, piece: &str) -> (path: String)
    ensures
        path@ == joined(base@, piece@),
{
    let p = to_chars(piece);
    if p.len() >= 1 && p[0] == '/' {
        return String::from_str(piece);
    }
    let b = to_chars(base);
    let mut path = String::from_str(base);
    if b.len() > 0 && b[b.len() - 1] != '/' {
        path.push('/');
    }
    path.append(piece);
    path
}

/// `path` with each of `subdirs` added behind it, in order.
pub fn join_all(path: &str, subdirs: &[&str]) -> (joined: String)
    ensures
        joined@ == joined_all(path@, texts(subdirs@)),
{
    let mut joined = String::from_str(path);
    let mut i: usize = 0;
    while i < subdirs.len()
        invariant
            i <= subdirs.len(),
            joined@ == joined_all(path@, texts(subdirs@.take(i as int))),
        decreases subdirs.len() - i,
    {
        proof {
            let before = texts(subdirs@.take(i as int));
            let after = texts(subdirs@.take(i + 1));
            assert(after.drop_last() =~= before);
            assert(after.last() == subdirs@[i as int]@);
        }
        joined = join(joined.as_str(), subdirs[i]);
        i += 1;
    }
    proof {
        assert(subdirs@.take(subdirs.len() as int) =~= subdirs@);
    }
    joined
}

} // verus!
