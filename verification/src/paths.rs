//! File paths, held as text (the library works with paths that are valid
//! Unicode). The path grammar is `std::path`'s for the platform the library
//! is built for (which characters separate components differs between
//! platforms); these functions name what it gives there.
use vstd::prelude::*;
use crate::assignments::names_view;

verus! {

/// What `Path::file_stem` gives for a path.
pub uninterp spec fn path_file_stem(p: Seq<char>) -> Option<Seq<char>>;

/// What `Path::strip_prefix(base)` gives for a path.
pub uninterp spec fn path_strip_prefix(p: Seq<char>, base: Seq<char>) -> Option<Seq<char>>;

/// The order in which sorting `PathBuf`s puts a list of paths.
pub uninterp spec fn paths_in_order(v: Seq<Seq<char>>) -> Seq<Seq<char>>;

/// Whether `Path::new(a) == Path::new(b)`: the two paths have the same
/// components.
pub uninterp spec fn paths_equal(a: Seq<char>, b: Seq<char>) -> bool;

/// Compares two paths as `Path`s (component by component, so `a//b` and
/// `a/b` are the same path); the result is named `paths_equal`. The same
/// text is always the same path (`Path` is `Eq`).
#[verifier::external_body]
pub(crate) fn same_path(a: &str, b: &str) -> (r: bool)
    ensures
        r == paths_equal(a@, b@),
        a@ == b@ ==> r,
{
    std::path::Path::new(a) == std::path::Path::new(b)
}

/// The first of `list` that is the same path as `p` (see `same_path`).
pub fn find_path(list: &Vec<String>, p: &str) -> (r: Option<usize>)
    ensures
        match r {
            Some(i) => i < list@.len() && paths_equal(list@[i as int]@, p@) && forall|k: int|
                0 <= k < i ==> !paths_equal(#[trigger] list@[k]@, p@),
            None => forall|k: int| 0 <= k < list@.len() ==> !paths_equal(#[trigger] list@[k]@, p@),
        },
{
    let n = list.len();
    let mut i: usize = 0;
    while i < n
        invariant
            n == list@.len(),
            i <= n,
            forall|k: int| 0 <= k < i ==> !paths_equal(#[trigger] list@[k]@, p@),
        decreases n - i,
    {
        if same_path(list[i].as_str(), p) {
            return Some(i);
        }
        i = i + 1;
    }
    None
}

/// The stem of the file name of `p` (the name without its extension), by
/// `Path::file_stem`; named `path_file_stem`.
#[verifier::external_body]
pub(crate) fn file_stem(p: &str) -> (r: Option<String>)
    ensures
        match r {
            Some(s) => path_file_stem(p@) == Some(s@),
            None => path_file_stem(p@) is None,
        },
{
    std::path::Path::new(p).file_stem().map(|s| s.to_string_lossy().into_owned())
}

/// `p` relative to `base`, by `Path::strip_prefix`; `None` where `base` is
/// not a prefix of `p`. Named `path_strip_prefix`.
#[verifier::external_body]
pub(crate) fn strip_prefix(p: &str, base: &str) -> (r: Option<String>)
    ensures
        match r {
            Some(s) => path_strip_prefix(p@, base@) == Some(s@),
            None => path_strip_prefix(p@, base@) is None,
        },
{
    std::path::Path::new(p).strip_prefix(base).ok().map(|s| s.to_string_lossy().into_owned())
}

/// The paths sorted as `[PathBuf]::sort` sorts them; the order is named
/// `paths_in_order`, and the result holds the same paths.
#[verifier::external_body]
pub(crate) fn sort_paths(v: Vec<String>) -> (r: Vec<String>)
    ensures
        names_view(r@) == paths_in_order(names_view(v@)),
        names_view(r@).to_multiset() == names_view(v@).to_multiset(),
{
    let mut p: Vec<std::path::PathBuf> = v.into_iter().map(std::path::PathBuf::from).collect();
    p.sort();
    p.into_iter().map(|x| x.to_string_lossy().into_owned()).collect()
}

/// `s` with every backslash turned into a slash.
pub open spec fn forward_slashes(s: Seq<char>) -> Seq<char> {
    s.map_values(|c: char| if c == '\\' { '/' } else { c })
}

/// `s` with every backslash turned into a slash, as
/// `str::replace('\\', "/")`.
pub fn to_forward_slashes(s: &str) -> (r: String)
    ensures
        r@ == forward_slashes(s@),
{
    let n = s.unicode_len();
    let mut out = String::new();
    let mut i: usize = 0;
    while i < n
        invariant
            n == s@.len(),
            i <= n,
            out@ == forward_slashes(s@.take(i as int)),
        decreases n - i,
    {
        proof {
            reveal_strlit("/");
            assert(s@.take(i + 1) =~= s@.take(i as int).push(s@[i as int]));
        }
        let c = s.get_char(i);
        if c == '\\' {
            out.append("/");
        } else {
            out.append(s.substring_char(i, i + 1));
        }
        i = i + 1;
        assert(out@ =~= forward_slashes(s@.take(i as int)));
    }
    assert(s@.take(n as int) =~= s@);
    out
}

} // verus!
