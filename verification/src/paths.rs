//! Slash-separated paths.

use vstd::prelude::*;

use crate::text;
use crate::text::{concat, find_last_slash, same, starts_with, strip_prefix};

verus! {

/// `base`, a slash and `rest`.
pub open spec fn joined(base: Seq<char>, rest: Seq<char>) -> Seq<char> {
    base.push('/') + rest
}

/// Joins two parts of a path with a slash.
pub fn join(base: &str, rest: &str) -> (path: String)
    ensures
        path@ == joined(base@, rest@),
{
    let mut path = with_slash(base);
    path.append(rest);
    path
}

/// `base` with a slash behind it.
pub fn with_slash(base: &str) -> (path: String)
    ensures
        path@ == base@.push('/'),
{
    proof {
        reveal_strlit("/");
    }
    let path = concat(base, "/");
    assert(path@ =~= base@.push('/'));
    path
}

/// `path` is `top`, or lies below it.
pub open spec fn within(path: Seq<char>, top: Seq<char>) -> bool {
    path == top || top.push('/').is_prefix_of(path)
}

/// Is `path` the path `top`, or one below it?
pub fn is_within(path: &str, top: &str) -> (inside: bool)
    ensures
        inside == within(path@, top@),
{
    same(path, top) || starts_with(path, with_slash(top).as_str())
}

/// What stands behind `top` and a slash, where `path` lies below `top`.
pub open spec fn below(path: Seq<char>, top: Seq<char>) -> Option<Seq<char>> {
    text::after_prefix(path, top.push('/'))
}

/// The part of `path` below `top`.
pub fn relative_to(path: &str, top: &str) -> (rest: Option<String>)
    ensures
        text::opt_view(rest) == below(path@, top@),
{
    strip_prefix(path, with_slash(top).as_str())
}

/// The part of a path before its last slash; the empty text where it has
/// none.
pub open spec fn parent(path: Seq<char>) -> Seq<char> {
    if text::last_slash(path) >= 0 {
        path.take(text::last_slash(path))
    } else {
        Seq::empty()
    }
}

/// The part of a path behind its last slash; the whole path where it has
/// none.
pub open spec fn last_part(path: Seq<char>) -> Seq<char> {
    path.skip(text::last_slash(path) + 1)
}

/// The parent of `path`.
pub fn parent_of(path: &str) -> (dir: String)
    ensures
        dir@ == parent(path@),
{
    match find_last_slash(path) {
        Some(place) => path.substring_char(0, place).to_owned(),
        None => {
            proof {
                reveal_strlit("");
            }
            let dir = "".to_owned();
            assert(dir@ =~= Seq::<char>::empty());
            dir
        },
    }
}

/// The name at the end of `path`.
pub fn name_of(path: &str) -> (name: String)
    ensures
        name@ == last_part(path@),
{
    let total: usize = path.unicode_len();
    let from: usize = match find_last_slash(path) {
        Some(place) => place + 1,
        None => 0,
    };
    path.substring_char(from, total).to_owned()
}

/// A parent is shorter than the path, but for the empty path.
pub proof fn lemma_parent_shorter(path: Seq<char>)
    ensures
        path.len() > 0 ==> parent(path).len() < path.len(),
        path.len() == 0 ==> parent(path) == path,
{
    text::lemma_last_slash(path);
    if path.len() == 0 {
        assert(parent(path) =~= path);
    }
}

/// A path is its parent, a slash and its name, where it holds a slash.
pub proof fn law_parent_and_name_make_the_path(path: Seq<char>)
    ensures
        text::last_slash(path) >= 0 ==> path == joined(parent(path), last_part(path)),
        text::last_slash(path) < 0 ==> path == last_part(path),
{
    text::lemma_last_slash(path);
    if text::last_slash(path) >= 0 {
        assert(path =~= joined(parent(path), last_part(path)));
    } else {
        assert(path =~= last_part(path));
    }
}

/// What lies below a directory is that directory, a slash and the rest.
pub proof fn lemma_below(path: Seq<char>, top: Seq<char>)
    ensures
        match below(path, top) {
            Some(rest) => path == joined(top, rest),
            None => !top.push('/').is_prefix_of(path),
        },
        forall|rest: Seq<char>| #[trigger] below(joined(top, rest), top) == Some(rest),
{
    match below(path, top) {
        Some(rest) => {
            assert(path =~= joined(top, rest)) by {
                assert(path.subrange(0, top.push('/').len() as int) =~= top.push('/'));
                assert(path =~= path.take(top.len() as int + 1) + path.skip(top.len() as int + 1));
            }
        },
        None => {},
    }
    assert forall|rest: Seq<char>| #[trigger] below(joined(top, rest), top) == Some(rest) by {
        let whole = joined(top, rest);
        assert(whole.subrange(0, top.push('/').len() as int) =~= top.push('/'));
        assert(whole.skip(top.push('/').len() as int) =~= rest);
    }
}

} // verus!
