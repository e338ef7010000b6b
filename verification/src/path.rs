//! The parts of a request target that the guard looks at.
//!
//! A target is a path, optionally followed by `?` and a query string. The first
//! segment of the path is where a language prefix stands.

use vstd::prelude::*;
use vstd::slice::slice_subrange;
use crate::text::{before, first_index, head, lemma_first_index, position};

verus! {

/// `s` without one leading `/`, if it has one.
pub open spec fn strip_slash(s: Seq<char>) -> Seq<char> {
    if s.len() > 0 && s[0] == '/' {
        s.skip(1)
    } else {
        s
    }
}

/// The first segment of a path: what stands between one leading `/`, if any,
/// and the next `/` or the end.
pub open spec fn first_segment(path: Seq<char>) -> Seq<char> {
    before(strip_slash(path), '/')
}

/// What is left of a path once its first segment is consumed: empty, or a path
/// that starts with `/`.
pub open spec fn remainder(path: Seq<char>) -> Seq<char> {
    strip_slash(path).skip(first_index(strip_slash(path), '/'))
}

/// The path of a request target: what stands in front of the first `?`.
pub open spec fn path_of(target: Seq<char>) -> Seq<char> {
    before(target, '?')
}

/// A path is one leading `/`, if it has one, then its first segment, then its
/// remainder.
pub proof fn lemma_path_parts(path: Seq<char>)
    ensures
        strip_slash(path) == first_segment(path) + remainder(path),
        path.len() > 0 && path[0] == '/' ==> path == seq!['/'] + first_segment(path) + remainder(
            path,
        ),
        !first_segment(path).contains('/'),
        remainder(path).len() > 0 ==> remainder(path)[0] == '/',
{
    let rest = strip_slash(path);
    lemma_first_index(rest, '/');
    assert(rest =~= first_segment(path) + remainder(path));
    if path.len() > 0 && path[0] == '/' {
        assert(path =~= seq!['/'] + first_segment(path) + remainder(path));
    }
}

/// `s` without one leading `/`.
pub fn without_slash<'a>(s: &'a [char]) -> (r: &'a [char])
    ensures
        r@ == strip_slash(s@),
{
    if s.len() > 0 && s[0] == '/' {
        slice_subrange(s, 1, s.len())
    } else {
        s
    }
}

/// The first segment of a path.
pub fn segment<'a>(path: &'a [char]) -> (r: &'a [char])
    ensures
        r@ == first_segment(path@),
{
    head(without_slash(path), '/')
}

/// The path behind its first segment.
pub fn rest_of<'a>(path: &'a [char]) -> (r: &'a [char])
    ensures
        r@ == remainder(path@),
{
    let stripped = without_slash(path);
    let k = position(stripped, '/');
    slice_subrange(stripped, k, stripped.len())
}

/// The path of a request target.
pub fn path_part<'a>(target: &'a [char]) -> (r: &'a [char])
    ensures
        r@ == path_of(target@),
{
    head(target, '?')
}

} // verus!
