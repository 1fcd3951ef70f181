//! Turning a path given on the command line into an absolute one.
use vstd::prelude::*;
use crate::domain::service::opt_text;
use crate::text::owned;

verus! {

/// A Unix path is absolute when it starts with the root `/`.
pub open spec fn is_absolute_path(p: Seq<char>) -> bool {
    p.len() > 0 && p[0] == '/'
}

/// What `std::path::Path::join` makes of `base` and `rel`.
pub uninterp spec fn joined_path(base: Seq<char>, rel: Seq<char>) -> Seq<char>;

/// `std::path::Path::is_absolute`. Its documentation says that on Unix a path
/// is absolute when it has a root, that is, when it begins with `/`.
#[verifier::external_body]
fn path_is_absolute(path: &str) -> (r: bool)
    ensures
        r == is_absolute_path(path@),
{
    std::path::Path::new(path).is_absolute()
}

/// `std::path::Path::join`, with both paths and the result as UTF-8 text.
/// The result is named; of it the contract claims only what the
/// documentation says plainly: an absolute `rel` replaces `base`.
#[verifier::external_body]
fn path_join(base: &str, rel: &str) -> (r: String)
    ensures
        r@ == joined_path(base@, rel@),
        is_absolute_path(rel@) ==> r@ == rel@,
{
    std::path::Path::new(base).join(rel).to_string_lossy().into_owned()
}

/// The absolute form of `input`: itself when absolute, else joined to the
/// current directory, or itself where the current directory is unknown.
pub open spec fn absolute_form(input: Seq<char>, current_dir: Option<Seq<char>>) -> Seq<char> {
    if is_absolute_path(input) {
        input
    } else {
        match current_dir {
            Some(dir) => joined_path(dir, input),
            None => input,
        }
    }
}

/// The absolute form of a path given on the command line, before it is
/// canonicalized.
pub fn absolute_path(input: &str, current_dir: Option<&str>) -> (r: String)
    ensures
        r@ == absolute_form(input@, opt_text(current_dir)),
{
    if path_is_absolute(input) {
        owned(input)
    } else {
        match current_dir {
            Some(dir) => path_join(dir, input),
            None => owned(input),
        }
    }
}

} // verus!
