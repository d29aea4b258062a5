//! Paths as texts, in the syntax of the platform.

use crate::text;
use std::path::Path;
use vstd::prelude::*;
use vstd::string::*;

verus! {

/// The path without its last component, as `std::path::Path::parent` has it.
pub uninterp spec fn path_parent(path: Seq<char>) -> Option<Seq<char>>;

/// `std::path::Path::parent`: the path without its last component. The empty
/// path has none. It depends on the path alone, in the platform's syntax.
#[verifier::external_body]
fn std_parent(path: &str) -> (res: Option<String>)
    ensures
        crate::input::text_view(res) == path_parent(path@),
        path@.len() == 0 ==> res is None,
{
    Path::new(path).parent().map(|parent| parent.to_string_lossy().into_owned())
}

/// The last component of a path, as `std::path::Path::file_name` has it.
pub uninterp spec fn path_file_name(path: Seq<char>) -> Option<Seq<char>>;

/// `std::path::Path::file_name`: the last component of the path, where that is
/// a name. It depends on the path alone, in the platform's syntax.
#[verifier::external_body]
fn std_file_name(path: &str) -> (res: Option<String>)
    ensures
        crate::input::text_view(res) == path_file_name(path@),
        path@.len() == 0 ==> res is None,
{
    Path::new(path).file_name().map(|name| name.to_string_lossy().into_owned())
}

/// Two paths joined, as `std::path::Path::join` has it.
pub uninterp spec fn path_joined(path: Seq<char>, name: Seq<char>) -> Seq<char>;

/// `std::path::Path::join`: the second path within the first. It depends on
/// the two alone, in the platform's syntax.
#[verifier::external_body]
fn std_join(path: &str, name: &str) -> (res: String)
    ensures
        res@ == path_joined(path@, name@),
{
    Path::new(path).join(name).to_string_lossy().into_owned()
}

/// Whether a path lies in a directory, as `std::path::Path::starts_with` has
/// it.
pub uninterp spec fn path_within(path: Seq<char>, directory: Seq<char>) -> bool;

/// `std::path::Path::starts_with`: whether the first components of the path
/// are those of the directory. It depends on the two alone, in the platform's
/// syntax.
#[verifier::external_body]
fn std_starts_with(path: &str, directory: &str) -> (res: bool)
    ensures
        res == path_within(path@, directory@),
{
    Path::new(path).starts_with(directory)
}

/// The place of the last dot before `end`, or -1.
pub open spec fn last_dot(name: Seq<char>, end: int) -> int
    decreases end,
{
    if end <= 0 {
        -1
    } else if name[end - 1] == '.' {
        end - 1
    } else {
        last_dot(name, end - 1)
    }
}

/// A file name has an extension: it has a dot that is not its first
/// character, and is not the name of the parent directory.
pub open spec fn has_extension(name: Seq<char>) -> bool {
    last_dot(name, name.len() as int) > 0 && name != ".."@
}

/// What follows the last dot of a file name.
pub open spec fn name_extension(name: Seq<char>) -> Option<Seq<char>> {
    if has_extension(name) {
        Some(name.skip(last_dot(name, name.len() as int) + 1))
    } else {
        None
    }
}

/// A file name without its extension.
pub open spec fn name_stem(name: Seq<char>) -> Seq<char> {
    if has_extension(name) {
        name.take(last_dot(name, name.len() as int))
    } else {
        name
    }
}

/// The extension of a path, where it has a file name with one.
pub open spec fn path_extension(path: Seq<char>) -> Option<Seq<char>> {
    match path_file_name(path) {
        Some(name) => name_extension(name),
        None => None,
    }
}

/// Takes a file name apart into its stem and its extension.
pub fn split_name(name: &str) -> (res: (String, Option<String>))
    ensures
        res.0@ == name_stem(name@),
        crate::input::text_view(res.1) == name_extension(name@),
{
    let chars = text::chars_of(name);
    let len: usize = chars.len();
    if text::same(name, "..") {
        return (name.to_owned(), None);
    }
    let mut at: usize = len;
    while at > 0 && chars[at - 1] != '.'
        invariant
            at <= len,
            len == chars.len(),
            chars@ == name@,
            last_dot(name@, at as int) == last_dot(name@, len as int),
        decreases at,
    {
        at -= 1;
    }
    if at <= 1 {
        return (name.to_owned(), None);
    }
    let stem = name.substring_char(0, at - 1).to_owned();
    let ext = name.substring_char(at, len).to_owned();
    assert(stem@ =~= name_stem(name@));
    assert(ext@ =~= name@.skip(at as int));
    (stem, Some(ext))
}

/// The extension of a path.
pub fn extension(path: &str) -> (res: Option<String>)
    ensures
        crate::input::text_view(res) == path_extension(path@),
{
    match std_file_name(path) {
        Some(name) => split_name(name.as_str()).1,
        None => None,
    }
}

/// The directory of a path.
pub fn parent(path: &str) -> (res: Option<String>)
    ensures
        crate::input::text_view(res) == path_parent(path@),
{
    std_parent(path)
}

/// The file name of a path.
pub fn file_name(path: &str) -> (res: Option<String>)
    ensures
        crate::input::text_view(res) == path_file_name(path@),
{
    std_file_name(path)
}

/// `name` within the directory `path`.
pub fn join(path: &str, name: &str) -> (res: String)
    ensures
        res@ == path_joined(path@, name@),
{
    std_join(path, name)
}

/// Whether `path` lies in `directory`.
pub fn is_within(path: &str, directory: &str) -> (res: bool)
    ensures
        res == path_within(path@, directory@),
{
    std_starts_with(path, directory)
}

} // verus!
