//! Paths as text: components are separated by `/`, and a path that starts with `/` is
//! absolute.

use vstd::prelude::*;
use vstd::string::*;

use crate::text::{chars_of, same_text, split, split_at, text_of, views};

verus! {

/// Pieces of a path that name nothing.
pub open spec fn is_filler(piece: Seq<char>) -> bool {
    piece.len() == 0 || piece == "."@
}

/// The last of `pieces` that names something.
pub open spec fn last_named(pieces: Seq<Seq<char>>) -> Option<Seq<char>>
    decreases pieces.len(),
{
    if pieces.len() == 0 {
        None
    } else if is_filler(pieces.last()) {
        last_named(pieces.drop_last())
    } else {
        Some(pieces.last())
    }
}

/// The name of the file that a path leads to. A path that ends in `..` or names nothing has
/// none.
pub open spec fn file_name(path: Seq<char>) -> Option<Seq<char>> {
    match last_named(split(path, '/')) {
        Some(name) => if name == ".."@ {
            None
        } else {
            Some(name)
        },
        None => None,
    }
}

/// The name of the file that `path` leads to.
pub fn file_name_of(path: &str) -> (r: Option<String>)
    ensures
        crate::text::opt_view(r) == file_name(path@),
{
    let v = chars_of(path);
    let pieces = split_at(&v, '/');
    let ghost all = split(path@, '/');
    let mut n: usize = pieces.len();
    assert(all.take(n as int) =~= all);
    while n > 0
        invariant
            n <= pieces.len(),
            views(pieces@) == all,
            last_named(all.take(n as int)) == last_named(all),
            all == split(path@, '/'),
        decreases n,
    {
        let piece = &pieces[n - 1];
        assert(all[n - 1] == piece@);
        assert(all.take(n as int).drop_last() =~= all.take(n - 1));
        assert(all.take(n as int).last() == piece@);
        if piece.as_str().is_empty() || same_text(piece.as_str(), ".") {
            n -= 1;
        } else if same_text(piece.as_str(), "..") {
            return None;
        } else {
            return Some(piece.clone());
        }
    }
    None
}

/// Position of the last `c`, or -1.
pub open spec fn last_index(s: Seq<char>, c: char) -> int
    decreases s.len(),
{
    if s.len() == 0 {
        -1
    } else if s.last() == c {
        s.len() - 1
    } else {
        last_index(s.drop_last(), c)
    }
}

/// What follows the last dot of a name, unless that dot is its first character.
pub open spec fn extension(name: Seq<char>) -> Option<Seq<char>> {
    let dot = last_index(name, '.');
    if dot > 0 {
        Some(name.skip(dot + 1))
    } else {
        None
    }
}

/// What follows the last dot of a file name.
pub fn extension_of(name: &str) -> (r: Option<String>)
    ensures
        crate::text::opt_view(r) == extension(name@),
{
    let v = chars_of(name);
    let mut n: usize = v.len();
    assert(v@.take(n as int) =~= v@);
    while n > 0 && v[n - 1] != '.'
        invariant
            n <= v.len(),
            last_index(v@.take(n as int), '.') == last_index(v@, '.'),
        decreases n,
    {
        assert(v@.take(n as int).drop_last() =~= v@.take(n - 1));
        n -= 1;
    }
    if n > 1 {
        let r = text_of(&v, n, v.len());
        assert(r@ =~= name@.skip(n as int));
        Some(r)
    } else {
        None
    }
}

/// The path that `file` has when it is looked up from `dir`.
pub open spec fn joined_path(dir: Seq<char>, file: Seq<char>) -> Seq<char> {
    if file.len() > 0 && file[0] == '/' {
        file
    } else if dir.len() == 0 || dir.last() == '/' {
        dir + file
    } else {
        dir + "/"@ + file
    }
}

/// The path that `file` has when it is looked up from `dir`.
pub fn path_join(dir: &str, file: &str) -> (r: String)
    ensures
        r@ == joined_path(dir@, file@),
{
    let f = chars_of(file);
    if f.len() > 0 && f[0] == '/' {
        return file.to_owned();
    }
    let d = chars_of(dir);
    let mut r = dir.to_owned();
    if d.len() > 0 && d[d.len() - 1] != '/' {
        r.append("/");
    }
    r.append(file);
    r
}

} // verus!
