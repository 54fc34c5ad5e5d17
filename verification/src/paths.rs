use vstd::prelude::*;

verus! {

/// The extension of a path as `std::path::Path::extension` defines it for the
/// platform's path syntax, where it is valid Unicode; `None` where the path
/// has no extension.
pub uninterp spec fn extension_of(path: Seq<char>) -> Option<Seq<char>>;

/// What is left of `path` once the components of `base` are taken from its
/// front, as `std::path::Path::strip_prefix` defines it; `None` where `base`
/// is not a prefix of `path`.
pub uninterp spec fn relative_to(path: Seq<char>, base: Seq<char>) -> Option<Seq<char>>;

/// Whether `std::path::Path::parent` finds a parent for the path.
pub uninterp spec fn has_parent(path: Seq<char>) -> bool;

/// Calls `std::path::Path::extension` on `path` and hands the extension back
/// as a string. Trusted: the result is what `extension_of` names.
#[verifier::external_body]
pub(crate) fn path_extension(path: &str) -> (ext: Option<String>)
    ensures
        match ext {
            Some(e) => extension_of(path@) == Some(e@),
            None => extension_of(path@).is_none(),
        },
{
    match std::path::Path::new(path).extension() {
        Some(e) => Some(e.to_string_lossy().into_owned()),
        None => None,
    }
}

/// Calls `std::path::Path::strip_prefix` on `path` with `base` and hands the
/// remainder back as a string. Trusted: the result is what `relative_to` names.
#[verifier::external_body]
pub(crate) fn path_strip_prefix(path: &str, base: &str) -> (rest: Option<String>)
    ensures
        match rest {
            Some(r) => relative_to(path@, base@) == Some(r@),
            None => relative_to(path@, base@).is_none(),
        },
{
    match std::path::Path::new(path).strip_prefix(base) {
        Ok(r) => Some(r.to_string_lossy().into_owned()),
        Err(_) => None,
    }
}

/// Calls `std::path::Path::parent` on `path` and says whether it found one.
/// Trusted: the result is what `has_parent` names.
#[verifier::external_body]
pub(crate) fn path_has_parent(path: &str) -> (found: bool)
    ensures
        found == has_parent(path@),
{
    std::path::Path::new(path).parent().is_some()
}

} // verus!
