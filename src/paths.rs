//! Path decomposition and case folding, as std computes them.

use vstd::prelude::*;

verus! {

/// The extension of a path (`Path::extension`), when it has one in UTF-8.
pub uninterp spec fn path_extension(p: Seq<char>) -> Option<Seq<char>>;

/// The final component of a path (`Path::file_name`), when it has one in UTF-8.
pub uninterp spec fn path_file_name(p: Seq<char>) -> Option<Seq<char>>;

/// The final component without its extension (`Path::file_stem`).
pub uninterp spec fn path_file_stem(p: Seq<char>) -> Option<Seq<char>>;

/// The path without its final component (`Path::parent`).
pub uninterp spec fn path_parent(p: Seq<char>) -> Option<Seq<char>>;

/// `base` with `name` adjoined (`Path::join`).
pub uninterp spec fn path_join(base: Seq<char>, name: Seq<char>) -> Seq<char>;

/// The lowercase form of a string (`str::to_lowercase`).
pub uninterp spec fn lower_of(s: Seq<char>) -> Seq<char>;

/// Relies on `Path::extension`: the text after the last `.` of the file name.
#[verifier::external_body]
pub fn extension(p: &str) -> (r: Option<String>)
    ensures
        r matches Some(e) ==> path_extension(p@) == Some(e@),
        r is None ==> path_extension(p@) is None,
{
    std::path::Path::new(p).extension().and_then(|e| e.to_str()).map(|e| e.to_owned())
}

/// Relies on `Path::file_name`: the final component of the path.
#[verifier::external_body]
pub fn file_name(p: &str) -> (r: Option<String>)
    ensures
        r matches Some(e) ==> path_file_name(p@) == Some(e@),
        r is None ==> path_file_name(p@) is None,
{
    std::path::Path::new(p).file_name().and_then(|e| e.to_str()).map(|e| e.to_owned())
}

/// Relies on `Path::file_stem`: the file name without its extension.
#[verifier::external_body]
pub fn file_stem(p: &str) -> (r: Option<String>)
    ensures
        r matches Some(e) ==> path_file_stem(p@) == Some(e@),
        r is None ==> path_file_stem(p@) is None,
{
    std::path::Path::new(p).file_stem().and_then(|e| e.to_str()).map(|e| e.to_owned())
}

/// Relies on `Path::parent`: the path without its final component.
#[verifier::external_body]
pub fn parent(p: &str) -> (r: Option<String>)
    ensures
        r matches Some(e) ==> path_parent(p@) == Some(e@),
        r is None ==> path_parent(p@) is None,
{
    std::path::Path::new(p).parent().and_then(|e| e.to_str()).map(|e| e.to_owned())
}

/// Relies on `Path::join`: `name` adjoined to `base`.
#[verifier::external_body]
pub fn join(base: &str, name: &str) -> (r: String)
    ensures
        r@ == path_join(base@, name@),
{
    std::path::Path::new(base).join(name).to_string_lossy().into_owned()
}

/// Relies on `str::to_lowercase`: the result depends on the characters alone.
#[verifier::external_body]
pub fn lowercase(s: &str) -> (r: String)
    ensures
        r@ == lower_of(s@),
{
    s.to_lowercase()
}

} // verus!
