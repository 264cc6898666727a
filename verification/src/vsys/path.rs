//! Paths as text, taken apart and put together by `std::path` for the
//! platform the crate is built for.

use vstd::prelude::*;

verus! {

/// The extension of the path's file name, as `Path::extension` gives it.
pub uninterp spec fn path_extension(path: Seq<char>) -> Option<Seq<char>>;

/// The path without its final component, as `Path::parent` gives it.
pub uninterp spec fn path_parent(path: Seq<char>) -> Option<Seq<char>>;

/// The path `rest` below the path `base`, as `Path::join` gives it.
pub uninterp spec fn path_joined(base: Seq<char>, rest: Seq<char>) -> Seq<char>;

/// Whether the components of `base` are the first components of `path`, as
/// `Path::starts_with` tells.
pub uninterp spec fn path_has_prefix(path: Seq<char>, base: Seq<char>) -> bool;

/// Whether the two paths have the same components, as `==` on `Path` tells.
pub uninterp spec fn path_same(a: Seq<char>, b: Seq<char>) -> bool;

/// The file name of the path without its extension, as `Path::file_stem`
/// gives it.
pub uninterp spec fn path_stem(path: Seq<char>) -> Option<Seq<char>>;

/// `Path::file_stem` on a path given as text; the result is a function of
/// the text alone.
#[verifier::external_body]
pub(crate) fn file_stem(path: &str) -> (r: Option<String>)
    ensures
        r.deep_view() == path_stem(path@),
{
    std::path::Path::new(path).file_stem().map(|s| s.to_string_lossy().into_owned())
}

/// `Path::extension` on a path given as text; the result is a function of
/// the text alone.
#[verifier::external_body]
pub(crate) fn extension(path: &str) -> (r: Option<String>)
    ensures
        r.deep_view() == path_extension(path@),
{
    std::path::Path::new(path).extension().map(|e| e.to_string_lossy().into_owned())
}

/// `Path::parent` on a path given as text; the result is a function of the
/// text alone. The parent is the path without its final component, so it is
/// shorter than the path.
#[verifier::external_body]
pub(crate) fn parent(path: &str) -> (r: Option<String>)
    ensures
        r.deep_view() == path_parent(path@),
        r matches Some(p) ==> p@.len() < path@.len(),
{
    std::path::Path::new(path).parent().map(|p| p.to_string_lossy().into_owned())
}

/// `Path::join` on paths given as text; the result is a function of the
/// two texts alone.
#[verifier::external_body]
pub(crate) fn join(base: &str, rest: &str) -> (r: String)
    ensures
        r@ == path_joined(base@, rest@),
{
    std::path::Path::new(base).join(rest).to_string_lossy().into_owned()
}

/// `Path::starts_with` on paths given as text; the result is a function of
/// the two texts alone.
#[verifier::external_body]
pub(crate) fn has_prefix(path: &str, base: &str) -> (r: bool)
    ensures
        r == path_has_prefix(path@, base@),
{
    std::path::Path::new(path).starts_with(base)
}

/// `==` on `Path`, for paths given as text; the result is a function of the
/// two texts alone.
#[verifier::external_body]
pub(crate) fn same(a: &str, b: &str) -> (r: bool)
    ensures
        r == path_same(a@, b@),
{
    std::path::Path::new(a) == std::path::Path::new(b)
}

/// The directories above `path`, the nearest first, as far as `steps`
/// parents reach.
pub open spec fn ancestor_chain(path: Seq<char>, steps: nat) -> Seq<Seq<char>>
    decreases steps,
{
    if steps == 0 {
        Seq::empty()
    } else {
        match path_parent(path) {
            None => Seq::empty(),
            Some(up) => seq![up] + ancestor_chain(up, (steps - 1) as nat),
        }
    }
}

/// Every directory above `path`, the nearest first.
pub fn ancestors(path: &str) -> (r: Vec<String>)
    ensures
        r.deep_view() == ancestor_chain(path@, path@.len()),
{
    let mut out: Vec<String> = Vec::new();
    let mut current = String::from_str(path);
    let ghost mut steps: nat = path@.len();
    assert(out.deep_view() =~= Seq::<Seq<char>>::empty());
    loop
        invariant
            current@.len() <= steps,
            out.deep_view() + ancestor_chain(current@, steps) == ancestor_chain(
                path@,
                path@.len(),
            ),
        decreases current@.len(),
    {
        match parent(current.as_str()) {
            None => {
                assert(ancestor_chain(current@, steps) =~= Seq::<Seq<char>>::empty());
                assert(out.deep_view() + Seq::<Seq<char>>::empty() =~= out.deep_view());
                return out;
            },
            Some(up) => {
                let ghost before = out.deep_view();
                out.push(up.clone());
                proof {
                    assert(steps > 0);
                    assert(out.deep_view() =~= before.push(up@));
                    assert(before + (seq![up@] + ancestor_chain(up@, (steps - 1) as nat))
                        =~= before.push(up@) + ancestor_chain(up@, (steps - 1) as nat));
                    steps = (steps - 1) as nat;
                }
                current = up;
            },
        }
    }
}

} // verus!
