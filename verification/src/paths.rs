//! Unix path strings: joining, and the component-wise comparisons of
//! `std::path::Path`.
use vstd::prelude::*;
use crate::text::{append_str, chars_of, string_from};

verus! {

/// `p` is an absolute Unix path (`Path::is_absolute`): it starts at the root.
pub open spec fn is_absolute(p: Seq<char>) -> bool {
    p.len() > 0 && p[0] == '/'
}

/// `base` joined with `p` (`Path::join` on Unix): an absolute `p`
/// replaces `base`; otherwise a separator is put between them unless
/// `base` is empty or already ends with one.
pub open spec fn path_join(base: Seq<char>, p: Seq<char>) -> Seq<char> {
    if is_absolute(p) {
        p
    } else if base.len() == 0 || base.last() == '/' {
        base + p
    } else {
        base + seq!['/'] + p
    }
}

/// Whether `p` is an absolute path.
pub fn path_is_absolute(p: &str) -> (r: bool)
    ensures
        r == is_absolute(p@),
{
    let v = chars_of(p);
    v.len() > 0 && v[0] == '/'
}

/// `base` joined with `p`.
pub fn join_path(base: &str, p: &str) -> (r: String)
    ensures
        r@ == path_join(base@, p@),
{
    if path_is_absolute(p) {
        return string_from(p);
    }
    let b = chars_of(base);
    let mut r = string_from(base);
    if b.len() > 0 && b[b.len() - 1] != '/' {
        append_str(&mut r, "/");
        proof {
            reveal_strlit("/");
        }
    }
    append_str(&mut r, p);
    r
}

/// The result of `Path::starts_with`: whether the components of `base`
/// are the leading components of `path`.
pub uninterp spec fn path_starts_with(path: Seq<char>, base: Seq<char>) -> bool;

/// The result of `Path::strip_prefix`, as a string: the rest of `path`
/// after the components of `base`, when `path` starts with them.
pub uninterp spec fn path_strip_prefix(path: Seq<char>, base: Seq<char>) -> Option<Seq<char>>;

/// Calls `std::path::Path::starts_with`; claims that the result is the
/// named result of the two paths.
#[verifier::external_body]
pub(crate) fn path_starts_with_call(path: &str, base: &str) -> (r: bool)
    ensures
        r == path_starts_with(path@, base@),
{
    std::path::Path::new(path).starts_with(base)
}

/// Calls `std::path::Path::strip_prefix` and converts the rest to a string
/// (the input is text, so no character is replaced); claims that the
/// result is the named result of the two paths.
#[verifier::external_body]
pub(crate) fn path_strip_prefix_call(path: &str, base: &str) -> (r: Option<String>)
    ensures
        match r {
            Some(s) => path_strip_prefix(path@, base@) == Some(s@),
            None => path_strip_prefix(path@, base@) is None,
        },
{
    std::path::Path::new(path).strip_prefix(base).ok().map(|p| p.to_string_lossy().to_string())
}

} // verus!
