//! The address that relative addresses in a document are resolved against.

use crate::error::{InstanceError, InstanceErrorModel};
use vstd::prelude::*;
use vstd::string::*;

verus! {

/// What `url::Url::parse` makes of a text: the address in its canonical form,
/// or else the message of the parse error.
pub uninterp spec fn url_parsed(text: Seq<char>) -> Result<Seq<char>, Seq<char>>;

pub open spec fn parsed_view(parsed: Result<String, String>) -> Result<Seq<char>, Seq<char>> {
    match parsed {
        Ok(url) => Ok(url@),
        Err(error) => Err(error@),
    }
}

/// `url::Url::parse`: the canonical form of an absolute address, or the
/// message of the error. Both depend on the text alone.
#[verifier::external_body]
fn parse_url(text: &str) -> (res: Result<String, String>)
    ensures
        parsed_view(res) == url_parsed(text@),
{
    match url::Url::parse(text) {
        Ok(url) => Ok(url.to_string()),
        Err(error) => Err(error.to_string()),
    }
}

/// The address of a directory, as `url::Url::from_directory_path` has it.
pub uninterp spec fn directory_address(path: Seq<char>) -> Option<Seq<char>>;

/// `url::Url::from_directory_path`: the address of a directory, in the `file`
/// scheme and with a slash at the end, so that what is resolved against it
/// lies inside. There is none where the path is not absolute. It depends on
/// the path alone, in the platform's syntax.
#[verifier::external_body]
fn directory_url(path: &str) -> (res: Option<String>)
    ensures
        crate::input::text_view(res) == directory_address(path@),
        res matches Some(url) ==> url@.len() > 7 && url@.take(7) == "file://"@ && url@.last()
            == '/',
{
    url::Url::from_directory_path(path).ok().map(|url| url.to_string())
}

/// The canonical form of a base address, or the error that an instance
/// reports, given what became of parsing it.
pub open spec fn canonical_outcome(
    value: Seq<char>,
    parsed: Result<Seq<char>, Seq<char>>,
) -> Result<Seq<char>, InstanceErrorModel> {
    match parsed {
        Ok(url) => Ok(url),
        Err(message) => Err(InstanceErrorModel::BaseUrl { value, error: message }),
    }
}

/// The canonical form of a base address, or the error that an instance
/// reports.
pub open spec fn canonical(value: Seq<char>) -> Result<Seq<char>, InstanceErrorModel> {
    canonical_outcome(value, url_parsed(value))
}

/// Turns the outcome of parsing `base_url` into what an instance reports.
pub fn check_base_url(base_url: &str, parsed: Result<String, String>) -> (res: Result<
    String,
    InstanceError,
>)
    ensures
        match canonical_outcome(base_url@, parsed_view(parsed)) {
            Ok(url) => res matches Ok(text) && text@ == url,
            Err(error) => res matches Err(e) && e@ == error,
        },
{
    match parsed {
        Ok(url) => Ok(url),
        Err(error) => Err(InstanceError::BaseUrl { value: base_url.to_owned(), error }),
    }
}

/// The canonical form of a base address.
pub fn parse_base_url(base_url: &str) -> (res: Result<String, InstanceError>)
    ensures
        match canonical(base_url@) {
            Ok(url) => res matches Ok(text) && text@ == url,
            Err(error) => res matches Err(e) && e@ == error,
        },
{
    check_base_url(base_url, parse_url(base_url))
}

/// The address to set as the base, where `url` is an absolute address.
pub fn checked_base_url(url: &str) -> (res: Option<String>)
    ensures
        match url_parsed(url@) {
            Ok(canonical) => res matches Some(text) && text@ == canonical,
            Err(_) => res is None,
        },
{
    match parse_url(url) {
        Ok(canonical) => Some(canonical),
        Err(_) => None,
    }
}

/// The base address of an instance: the configured one, or else that of the
/// directory that the component was loaded from, or else the default.
pub open spec fn chosen(
    configured: Option<Seq<char>>,
    directory: Option<Seq<char>>,
    default: Seq<char>,
) -> Seq<char> {
    match configured {
        Some(url) => url,
        None => match directory {
            Some(url) => url,
            None => default,
        },
    }
}

/// The address of the directory that a component was loaded from, where there
/// is one.
pub open spec fn parent_address(parent: Option<Seq<char>>) -> Option<Seq<char>> {
    match parent {
        Some(path) => directory_address(path),
        None => None,
    }
}

/// The default base address: that of the working directory, where that is
/// known and has one, or else the root of the file system.
pub fn default_base_url(cwd: Option<&str>) -> (res: String)
    ensures
        res@ == chosen(parent_address(crate::input::str_view(cwd)), None, "file:///"@),
{
    let directory = match cwd {
        Some(path) => directory_url(path),
        None => None,
    };
    choose_base_url(directory, None, "file:///".to_owned())
}

/// The base address of an instance: the configured one, or else that of the
/// directory that the component was loaded from, or else the default.
pub fn choose_base_url(
    configured: Option<String>,
    directory: Option<String>,
    default: String,
) -> (res: String)
    ensures
        res@ == chosen(
            crate::input::text_view(configured),
            crate::input::text_view(directory),
            default@,
        ),
{
    match configured {
        Some(url) => url,
        None => match directory {
            Some(url) => url,
            None => default,
        },
    }
}

/// The base address of an instance whose component lies in `parent`, where it
/// was loaded from a file.
pub fn base_url_for(
    configured: Option<String>,
    parent: Option<&str>,
    default: String,
) -> (res: String)
    ensures
        res@ == chosen(
            crate::input::text_view(configured),
            parent_address(crate::input::str_view(parent)),
            default@,
        ),
{
    let directory = match parent {
        Some(path) => directory_url(path),
        None => None,
    };
    choose_base_url(configured, directory, default)
}

} // verus!
