//! The errors of an instance and their messages.

use vstd::prelude::*;
use vstd::string::*;

verus! {

/// Why an instance could not be made. Errors of the script engine, of the
/// compiler and of reading files come with their messages.
#[derive(Debug)]
pub enum InstanceError {
    JsContext(String),
    CompileComponent(String),
    Io(String),
    BaseUrl { value: String, error: String },
    UnsupportedJsxModule { path: String },
    MissingVirtualEntrypoint { path: String },
}

/// Why an instance could not be made, in terms of the texts.
pub enum InstanceErrorModel {
    JsContext { message: Seq<char> },
    CompileComponent { message: Seq<char> },
    Io { message: Seq<char> },
    BaseUrl { value: Seq<char>, error: Seq<char> },
    UnsupportedJsxModule { path: Seq<char> },
    MissingVirtualEntrypoint { path: Seq<char> },
}

impl View for InstanceError {
    type V = InstanceErrorModel;

    open spec fn view(&self) -> InstanceErrorModel {
        match self {
            InstanceError::JsContext(error) => InstanceErrorModel::JsContext { message: error@ },
            InstanceError::CompileComponent(error) => InstanceErrorModel::CompileComponent {
                message: error@,
            },
            InstanceError::Io(error) => InstanceErrorModel::Io { message: error@ },
            InstanceError::BaseUrl { value, error } => InstanceErrorModel::BaseUrl {
                value: value@,
                error: error@,
            },
            InstanceError::UnsupportedJsxModule { path } =>
            InstanceErrorModel::UnsupportedJsxModule { path: path@ },
            InstanceError::MissingVirtualEntrypoint { path } =>
            InstanceErrorModel::MissingVirtualEntrypoint { path: path@ },
        }
    }
}

/// `first`, `middle` and `last` in one.
fn joined(first: &str, middle: &str, last: &str) -> (res: String)
    ensures
        res@ == first@ + middle@ + last@,
{
    let mut res = first.to_owned();
    res.append(middle);
    res.append(last);
    res
}

/// `first` and `last` in one.
fn prefixed(first: &str, last: &str) -> (res: String)
    ensures
        res@ == first@ + last@,
{
    let mut res = first.to_owned();
    res.append(last);
    res
}

impl InstanceError {
    pub open spec fn text(self) -> Seq<char> {
        match self {
            InstanceError::JsContext(error) => error@,
            InstanceError::CompileComponent(error) => error@,
            InstanceError::Io(error) => "failed to read component source: "@ + error@,
            InstanceError::BaseUrl { value, error } => "invalid base URL `"@ + value@ + "`: "@
                + error@,
            InstanceError::UnsupportedJsxModule { path } =>
            "JSX/TSX/TS component loading requires the `jsx-compiler` feature: "@ + path@,
            InstanceError::MissingVirtualEntrypoint { path } =>
            "missing virtual entrypoint source for `"@ + path@ + "`"@,
        }
    }

    /// The message that tells a person what went wrong.
    pub fn message(&self) -> (res: String)
        ensures
            res@ == self.text(),
    {
        match self {
            InstanceError::JsContext(error) => error.clone(),
            InstanceError::CompileComponent(error) => error.clone(),
            InstanceError::Io(error) => prefixed(
                "failed to read component source: ",
                error.as_str(),
            ),
            InstanceError::BaseUrl { value, error } => {
                let mut res = joined("invalid base URL `", value.as_str(), "`: ");
                res.append(error.as_str());
                res
            },
            InstanceError::UnsupportedJsxModule { path } => prefixed(
                "JSX/TSX/TS component loading requires the `jsx-compiler` feature: ",
                path.as_str(),
            ),
            InstanceError::MissingVirtualEntrypoint { path } => joined(
                "missing virtual entrypoint source for `",
                path.as_str(),
                "`",
            ),
        }
    }
}

/// Why a font could not be registered from a file.
#[derive(Debug)]
pub enum RegisterFontError {
    /// The file extension is not one of `.ttf`, `.otf`, `.woff`, `.woff2`.
    UnknownFormat,
    /// Reading the file failed, with this message.
    Io(String),
}

impl RegisterFontError {
    pub open spec fn text(self) -> Seq<char> {
        match self {
            RegisterFontError::UnknownFormat =>
            "unknown font format: expected file extension `.ttf`, `.otf`, `.woff`, or `.woff2`"@,
            RegisterFontError::Io(error) => "failed to read font file: "@ + error@,
        }
    }

    /// The message that tells a person what went wrong.
    pub fn message(&self) -> (res: String)
        ensures
            res@ == self.text(),
    {
        match self {
            RegisterFontError::UnknownFormat =>
            "unknown font format: expected file extension `.ttf`, `.otf`, `.woff`, or `.woff2`".to_owned(),
            RegisterFontError::Io(error) => prefixed("failed to read font file: ", error.as_str()),
        }
    }
}

/// Why an image could not be registered from a file.
#[derive(Debug)]
pub enum RegisterImageError {
    /// Reading the file failed, with this message.
    Io(String),
}

/// Why the graphics device could not be had.
#[derive(Debug)]
pub enum GpuError {
    Surface(String),
    Adapter(String),
    Device(String),
}

impl GpuError {
    pub open spec fn text(self) -> Seq<char> {
        match self {
            GpuError::Surface(error) => "creating surface: "@ + error@,
            GpuError::Adapter(error) => "requesting adapter: "@ + error@,
            GpuError::Device(error) => "requesting device: "@ + error@,
        }
    }

    /// The message that tells a person what went wrong.
    pub fn message(&self) -> (res: String)
        ensures
            res@ == self.text(),
    {
        match self {
            GpuError::Surface(error) => prefixed("creating surface: ", error.as_str()),
            GpuError::Adapter(error) => prefixed("requesting adapter: ", error.as_str()),
            GpuError::Device(error) => prefixed("requesting device: ", error.as_str()),
        }
    }
}

} // verus!
