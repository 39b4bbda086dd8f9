//! Path handling in the WASI sandbox, where paths use Unix syntax.
use vstd::prelude::*;

verus! {

/// A path is absolute when it starts at the root, `/`.
pub open spec fn is_absolute_text(p: Seq<char>) -> bool {
    p.len() > 0 && p[0] == '/'
}

/// Whether `p` is absolute (`std::path::Path::is_absolute` on Unix: the path
/// starts with the root).
pub fn is_absolute(p: &str) -> (r: bool)
    ensures
        r == is_absolute_text(p@),
{
    let mut chars = p.chars();
    match chars.next() {
        Some(c) => c == '/',
        None => false,
    }
}

/// Names the result of `std::path::Path::parent`: the path without its final
/// component, if it has one.
pub uninterp spec fn parent_of(p: Seq<char>) -> Option<Seq<char>>;

/// Names the result of `std::path::Path::file_name`: the final component of
/// the path, unless the path ends in `..` or is a root.
pub uninterp spec fn file_name_of(p: Seq<char>) -> Option<Seq<char>>;

/// `i` is the position of the last `.` in `name`.
pub open spec fn is_last_dot(name: Seq<char>, i: int) -> bool {
    &&& 0 <= i < name.len()
    &&& name[i] == '.'
    &&& forall|j: int| i < j < name.len() ==> name[j] != '.'
}

/// The extension of a file name: the part after its last `.`, except where
/// the name holds no `.`, or its only `.` is its first character.
pub open spec fn name_extension(name: Seq<char>) -> Option<Seq<char>> {
    if exists|i: int| 0 < i && #[trigger] is_last_dot(name, i) {
        let i = choose|i: int| 0 < i && #[trigger] is_last_dot(name, i);
        Some(name.subrange(i + 1, name.len() as int))
    } else {
        None
    }
}

/// The result of `std::path::Path::extension`, as its documentation states
/// it: none where the path has no file name, and otherwise the extension of
/// the file name (`name_extension`).
pub open spec fn extension_of(p: Seq<char>) -> Option<Seq<char>> {
    match file_name_of(p) {
        Some(name) => name_extension(name),
        None => None,
    }
}

/// `std::path::Path::parent` on the path `p`; claims only that the result is
/// the function `parent_of` of the path's characters.
#[verifier::external_body]
pub(crate) fn parent(p: &str) -> (r: Option<String>)
    ensures
        r matches Some(s) ==> parent_of(p@) == Some(s@),
        r is None ==> parent_of(p@) is None,
{
    std::path::Path::new(p).parent().map(|q| q.to_string_lossy().into_owned())
}

/// `std::path::Path::file_name` on the path `p`; claims only that the result
/// is the function `file_name_of` of the path's characters. (Every component
/// of a path given as `&str` is UTF-8, so the conversion back loses nothing.)
#[verifier::external_body]
pub(crate) fn file_name(p: &str) -> (r: Option<String>)
    ensures
        r matches Some(s) ==> file_name_of(p@) == Some(s@),
        r is None ==> file_name_of(p@) is None,
{
    std::path::Path::new(p).file_name().map(|q| q.to_string_lossy().into_owned())
}

/// `std::path::Path::extension` on the path `p`; claims that the result is
/// what `extension_of` states of the path's characters: derived from the
/// file name (`file_name_of`) as the method's documentation says.
#[verifier::external_body]
pub(crate) fn extension(p: &str) -> (r: Option<String>)
    ensures
        r matches Some(s) ==> extension_of(p@) == Some(s@),
        r is None ==> extension_of(p@) is None,
{
    std::path::Path::new(p).extension().map(|q| q.to_string_lossy().into_owned())
}

} // verus!
