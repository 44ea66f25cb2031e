//! File paths, held as text. What `std::path` makes of a path's components is
//! named here; the extension rule is stated.

use vstd::prelude::*;

use crate::metadata::opt_view;

verus! {

/// The final component of a path, as `Path::file_name` gives it.
pub uninterp spec fn path_file_name(p: Seq<char>) -> Option<Seq<char>>;

/// The path without its final component, as `Path::parent` gives it.
pub uninterp spec fn path_parent(p: Seq<char>) -> Option<Seq<char>>;

/// The position of the last `.` in `n`.
pub open spec fn last_dot(n: Seq<char>) -> Option<int>
    decreases n.len(),
{
    if n.len() == 0 {
        None
    } else if n.last() == '.' {
        Some(n.len() - 1)
    } else {
        last_dot(n.drop_last())
    }
}

/// The extension of a file name: the part after the final `.`, when the name
/// has a `.` that is not its first character (and is not `..`).
pub open spec fn extension_of_name(n: Seq<char>) -> Option<Seq<char>> {
    if n == seq!['.', '.'] {
        None
    } else {
        match last_dot(n) {
            Some(i) => if i == 0 {
                None
            } else {
                Some(n.subrange(i + 1, n.len() as int))
            },
            None => None,
        }
    }
}

/// The extension of a path: that of its file name.
pub open spec fn path_extension(p: Seq<char>) -> Option<Seq<char>> {
    match path_file_name(p) {
        Some(n) => extension_of_name(n),
        None => None,
    }
}

/// Calls `Path::file_name` and renders the component as text. The component
/// rules (separators, `.` and `..`) are those of `std::path`; the result is
/// named, not stated.
#[verifier::external_body]
pub(crate) fn file_name_of(p: &str) -> (r: Option<String>)
    ensures
        opt_view(r) == path_file_name(p@),
{
    std::path::Path::new(p).file_name().map(|n| n.to_string_lossy().to_string())
}

/// Calls `Path::parent` and renders it as text. The result is named, not
/// stated.
#[verifier::external_body]
pub(crate) fn parent_of(p: &str) -> (r: Option<String>)
    ensures
        opt_view(r) == path_parent(p@),
{
    std::path::Path::new(p).parent().map(|d| d.to_string_lossy().to_string())
}

/// Calls `Path::extension`. As its documentation states, the extension is
/// the part of the file name after its final `.`, and there is none when the
/// name has no `.` or its only `.` is the first character.
#[verifier::external_body]
pub(crate) fn extension_of(p: &str) -> (r: Option<String>)
    ensures
        opt_view(r) == path_extension(p@),
{
    std::path::Path::new(p).extension().map(|e| e.to_string_lossy().to_string())
}

/// The path `base` joined with `part`, as `Path::join` gives it.
pub uninterp spec fn path_join(base: Seq<char>, part: Seq<char>) -> Seq<char>;

/// Calls `Path::join` and renders the result as text. The separator rules
/// are those of `std::path` on a Unix target, and the result is named; of
/// it the contract states only what the documentation of `PathBuf::push`
/// gives: a relative `part` (one that does not begin with `/`) extends
/// `base`.
#[verifier::external_body]
pub(crate) fn join_path(base: &str, part: &str) -> (r: String)
    ensures
        r@ == path_join(base@, part@),
        part@.len() == 0 || part@[0] != '/' ==> base@.is_prefix_of(r@),
{
    std::path::Path::new(base).join(part).to_string_lossy().to_string()
}

/// The path `p` with its extension set to `ext`, as `Path::with_extension`
/// gives it.
pub uninterp spec fn path_with_extension(p: Seq<char>, ext: Seq<char>) -> Seq<char>;

/// Calls `Path::with_extension` and renders the result as text; the result
/// is named, not stated. The call panics on an extension that holds a path
/// separator, which `requires` excludes.
#[verifier::external_body]
pub(crate) fn with_extension(p: &str, ext: &str) -> (r: String)
    requires
        forall|i: int| 0 <= i < ext@.len() ==> ext@[i] != '/',
    ensures
        r@ == path_with_extension(p@, ext@),
{
    std::path::Path::new(p).with_extension(ext).to_string_lossy().to_string()
}

} // verus!
