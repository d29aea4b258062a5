//! Where the sources of a component come from, and what their changes call
//! for.

use crate::error::{InstanceError, InstanceErrorModel, RegisterFontError};
use crate::paths;
use crate::text;
use vstd::prelude::*;
use vstd::string::*;

verus! {

/// A path names a module that has to be compiled.
pub open spec fn compiled_module(path: Seq<char>) -> bool {
    paths::path_extension(path) matches Some(ext) && (ext == "jsx"@ || ext == "tsx"@ || ext
        == "ts"@)
}

/// Whether `path` names a module that has to be compiled: one with the
/// extension `jsx`, `tsx` or `ts`.
pub fn is_jsx_or_ts_module(path: &str) -> (res: bool)
    ensures
        res == compiled_module(path@),
{
    match paths::extension(path) {
        Some(ext) => {
            text::same(ext.as_str(), "jsx") || text::same(ext.as_str(), "tsx") || text::same(
                ext.as_str(),
                "ts",
            )
        },
        None => false,
    }
}

/// A file of a component that is kept in memory.
#[derive(Debug)]
pub struct VirtualSourceFile {
    pub path: String,
    pub source: String,
}

/// The names by which an entry point is found, in the order in which they are
/// looked for.
pub open spec fn entry_names() -> Seq<Seq<char>> {
    seq![
        "index.tsx"@,
        "index.jsx"@,
        "index.ts"@,
        "index.js"@,
        "index.mjs"@,
        "app.tsx"@,
        "app.jsx"@,
        "app.ts"@,
        "app.js"@,
        "app.mjs"@,
    ]
}

/// The names by which the entry point of a directory is found, in the order in
/// which they are looked for.
pub fn directory_entrypoints() -> (res: Vec<String>)
    ensures
        res.len() == entry_names().len(),
        forall|i: int| 0 <= i < res.len() ==> (#[trigger] res@[i])@ == entry_names()[i],
{
    vec![
        "index.tsx".to_owned(),
        "index.jsx".to_owned(),
        "index.ts".to_owned(),
        "index.js".to_owned(),
        "index.mjs".to_owned(),
        "app.tsx".to_owned(),
        "app.jsx".to_owned(),
        "app.ts".to_owned(),
        "app.js".to_owned(),
        "app.mjs".to_owned(),
    ]
}

/// The place of the first entry point that a directory holds among the names
/// of [`directory_entrypoints`], given which of them it holds.
pub fn first_entrypoint(present: &Vec<bool>) -> (res: Option<usize>)
    ensures
        match res {
            Some(at) => at < present.len() && present@[at as int] && forall|i: int|
                0 <= i < at ==> !(#[trigger] present@[i]),
            None => !present@.contains(true),
        },
{
    let mut i: usize = 0;
    while i < present.len()
        invariant
            i <= present.len(),
            forall|j: int| 0 <= j < i ==> !(#[trigger] present@[j]),
        decreases present.len() - i,
    {
        if present[i] {
            return Some(i);
        }
        i += 1;
    }
    None
}

/// A file is the entry point among files: the first that has one of the names
/// of entry points, in the root of the project.
pub open spec fn first_entry(files: Seq<VirtualSourceFile>, at: int) -> bool {
    &&& 0 <= at < files.len()
    &&& entry_names().contains(files[at].path@)
    &&& forall|i: int| 0 <= i < at ==> !entry_names().contains((#[trigger] files[i]).path@)
}

/// The path of the entry point among files. Where there is none, the path that
/// is then reported as missing.
pub fn virtual_entrypoint(files: &Vec<VirtualSourceFile>) -> (res: String)
    ensures
        forall|at: int| #[trigger] first_entry(files@, at) ==> res@ == files@[at].path@,
        (forall|i: int|
            0 <= i < files.len() ==> !entry_names().contains((#[trigger] files@[i]).path@))
            ==> res@ == entry_names()[0],
{
    match find_virtual_entrypoint(files) {
        Some(at) => {
            assert forall|other: int| #[trigger] first_entry(files@, other) implies other == at by {
                assert(other < at ==> !entry_names().contains(files@[other].path@));
                assert(at < other ==> !entry_names().contains(files@[at as int].path@));
            }
            files[at].path.clone()
        },
        None => "index.tsx".to_owned(),
    }
}

/// The place of the entry point among files: the first that has one of the
/// names of entry points, in the root of the project. `None` where none has.
pub fn find_virtual_entrypoint(files: &Vec<VirtualSourceFile>) -> (res: Option<usize>)
    ensures
        match res {
            Some(at) => first_entry(files@, at as int),
            None => forall|i: int|
                0 <= i < files.len() ==> !entry_names().contains((#[trigger] files@[i]).path@),
        },
{
    let names = directory_entrypoints();
    let mut i: usize = 0;
    while i < files.len()
        invariant
            i <= files.len(),
            names.len() == entry_names().len(),
            forall|k: int| 0 <= k < names.len() ==> (#[trigger] names@[k])@ == entry_names()[k],
            forall|j: int|
                0 <= j < i ==> !entry_names().contains((#[trigger] files@[j]).path@),
        decreases files.len() - i,
    {
        let path = files[i].path.as_str();
        let mut k: usize = 0;
        while k < names.len()
            invariant
                i < files.len(),
                path@ == files@[i as int].path@,
                k <= names.len(),
                names.len() == entry_names().len(),
                forall|n: int|
                    0 <= n < names.len() ==> (#[trigger] names@[n])@ == entry_names()[n],
                forall|n: int| 0 <= n < k ==> (#[trigger] entry_names()[n]) != path@,
                forall|j: int|
                    0 <= j < i ==> !entry_names().contains((#[trigger] files@[j]).path@),
            decreases names.len() - k,
        {
            assert(names@[k as int]@ == entry_names()[k as int]);
            if text::same(names[k].as_str(), path) {
                return Some(i);
            }
            k += 1;
        }
        i += 1;
    }
    None
}

/// The place of the first file with the given path.
pub open spec fn first_with_path(files: Seq<VirtualSourceFile>, path: Seq<char>, i: int) -> bool {
    &&& 0 <= i < files.len()
    &&& files[i].path@ == path
    &&& forall|j: int| 0 <= j < i ==> (#[trigger] files[j]).path@ != path
}

/// The source of the entry point at `path`: that of the first file there.
pub fn virtual_entrypoint_source(files: &Vec<VirtualSourceFile>, path: &str) -> (res: Result<
    String,
    InstanceError,
>)
    ensures
        match res {
            Ok(source) => exists|i: int| #[trigger]
                first_with_path(files@, path@, i) && files@[i].source@ == source@,
            Err(error) => error matches InstanceError::MissingVirtualEntrypoint { path: missing }
                && missing@ == path@ && forall|i: int|
                0 <= i < files.len() ==> (#[trigger] files@[i]).path@ != path@,
        },
{
    let mut i: usize = 0;
    while i < files.len()
        invariant
            i <= files.len(),
            forall|j: int| 0 <= j < i ==> (#[trigger] files@[j]).path@ != path@,
        decreases files.len() - i,
    {
        if text::same(files[i].path.as_str(), path) {
            assert(first_with_path(files@, path@, i as int));
            return Ok(files[i].source.clone());
        }
        i += 1;
    }
    Err(InstanceError::MissingVirtualEntrypoint { path: path.to_owned() })
}

/// What is mounted of a component: what a compiler made of its source, or
/// else, without one, the source itself, unless it has to be compiled. `Err`
/// with the error that an instance reports.
pub open spec fn module_outcome(
    path: Seq<char>,
    source: Seq<char>,
    compiled: Option<Result<String, String>>,
) -> Result<Seq<char>, InstanceErrorModel> {
    match compiled {
        Some(Ok(module)) => Ok(module@),
        Some(Err(message)) => Err(InstanceErrorModel::CompileComponent { message: message@ }),
        None => if compiled_module(path) {
            Err(InstanceErrorModel::UnsupportedJsxModule { path })
        } else {
            Ok(source)
        },
    }
}

/// What is mounted of the component at `path`. `compiled`: what the compiler
/// made of it, where there is one.
pub fn component_module(
    path: &str,
    source: String,
    compiled: Option<Result<String, String>>,
) -> (res: Result<String, InstanceError>)
    ensures
        match module_outcome(path@, source@, compiled) {
            Ok(module) => res matches Ok(text) && text@ == module,
            Err(error) => res matches Err(e) && e@ == error,
        },
{
    match compiled {
        Some(Ok(module)) => Ok(module),
        Some(Err(message)) => Err(InstanceError::CompileComponent(message)),
        None => if is_jsx_or_ts_module(path) {
            Err(InstanceError::UnsupportedJsxModule { path: path.to_owned() })
        } else {
            Ok(source)
        },
    }
}

/// The directory to watch for changes of a component: its own path where that
/// is one, or else the directory it lies in.
pub open spec fn watched(path: Seq<char>, is_dir: bool) -> Seq<char> {
    if is_dir {
        path
    } else {
        match paths::path_parent(path) {
            Some(parent) => parent,
            None => "."@,
        }
    }
}

/// The directory to watch for changes of the component at `path`.
pub fn watch_root(path: &str, is_dir: bool) -> (res: String)
    ensures
        res@ == watched(path@, is_dir),
{
    if is_dir {
        path.to_owned()
    } else {
        match paths::parent(path) {
            Some(parent) => parent,
            None => ".".to_owned(),
        }
    }
}

/// What changes of source files call for.
#[derive(Debug, Clone, Copy, PartialEq, Eq, Structural)]
pub struct SourceChangeSummary {
    /// The bundle is to be compiled again.
    pub bundle_rebuild: bool,
    /// A stylesheet can be loaded again without mounting anew.
    pub css_reload: bool,
}

impl Default for SourceChangeSummary {
    fn default() -> (res: Self)
        ensures
            !res.bundle_rebuild,
            !res.css_reload,
    {
        SourceChangeSummary { bundle_rebuild: false, css_reload: false }
    }
}

/// A changed file in the source directory whose extension is, whatever its
/// case, the given one.
pub open spec fn changed_as(path: Seq<char>, source_dir: Seq<char>, extension: Seq<char>) -> bool {
    &&& paths::path_within(path, source_dir)
    &&& paths::path_extension(path) matches Some(ext) && text::same_ignoring_case(ext, extension)
}

/// A change that calls for another bundle.
pub open spec fn rebuilds(path: Seq<char>, source_dir: Seq<char>) -> bool {
    changed_as(path, source_dir, "jsx"@) || changed_as(path, source_dir, "tsx"@) || changed_as(
        path,
        source_dir,
        "ts"@,
    )
}

/// What the change of one file calls for.
fn classify(path: &str, source_dir: &str) -> (res: SourceChangeSummary)
    ensures
        res.bundle_rebuild == rebuilds(path@, source_dir@),
        res.css_reload == changed_as(path@, source_dir@, "css"@),
{
    if !paths::is_within(path, source_dir) {
        return SourceChangeSummary { bundle_rebuild: false, css_reload: false };
    }
    match paths::extension(path) {
        Some(ext) => {
            let e = ext.as_str();
            SourceChangeSummary {
                bundle_rebuild: text::eq_ignore_ascii_case(e, "jsx") || text::eq_ignore_ascii_case(
                    e,
                    "tsx",
                ) || text::eq_ignore_ascii_case(e, "ts"),
                css_reload: text::eq_ignore_ascii_case(e, "css"),
            }
        },
        None => SourceChangeSummary { bundle_rebuild: false, css_reload: false },
    }
}

/// What the changes of the given files call for. Files outside the source
/// directory and files of other kinds call for nothing.
pub fn poll_source_changes(changed: &Vec<String>, source_dir: &str) -> (res: SourceChangeSummary)
    ensures
        res.bundle_rebuild == exists|i: int|
            0 <= i < changed.len() && rebuilds((#[trigger] changed@[i])@, source_dir@),
        res.css_reload == exists|i: int|
            0 <= i < changed.len() && changed_as(
                (#[trigger] changed@[i])@,
                source_dir@,
                "css"@,
            ),
{
    let mut bundle_rebuild = false;
    let mut css_reload = false;
    let mut i: usize = 0;
    while i < changed.len()
        invariant
            i <= changed.len(),
            bundle_rebuild == exists|j: int|
                0 <= j < i && rebuilds((#[trigger] changed@[j])@, source_dir@),
            css_reload == exists|j: int|
                0 <= j < i && changed_as((#[trigger] changed@[j])@, source_dir@, "css"@),
        decreases changed.len() - i,
    {
        let one = classify(changed[i].as_str(), source_dir);
        bundle_rebuild = bundle_rebuild || one.bundle_rebuild;
        css_reload = css_reload || one.css_reload;
        i += 1;
    }
    SourceChangeSummary { bundle_rebuild, css_reload }
}

/// The formats in which fonts come.
#[derive(Debug, Clone, Copy, PartialEq, Eq, Structural)]
pub enum FontFormat {
    Truetype,
    Opentype,
    Woff,
    Woff2,
}

impl FontFormat {
    pub open spec fn extension(self) -> Seq<char> {
        match self {
            FontFormat::Truetype => "ttf"@,
            FontFormat::Opentype => "otf"@,
            FontFormat::Woff => "woff"@,
            FontFormat::Woff2 => "woff2"@,
        }
    }

    /// A path has, whatever its case, the extension of this format.
    pub open spec fn of_path(self, path: Seq<char>) -> bool {
        paths::path_extension(path) matches Some(ext) && text::same_ignoring_case(
            ext,
            self.extension(),
        )
    }

    /// The format of the font at `path`, by its extension.
    pub fn from_path(path: &str) -> (res: Result<FontFormat, RegisterFontError>)
        ensures
            match res {
                Ok(format) => format.of_path(path@),
                Err(error) => error is UnknownFormat && forall|f: FontFormat| !f.of_path(path@),
            },
    {
        match paths::extension(path) {
            Some(ext) => {
                let e = ext.as_str();
                if text::eq_ignore_ascii_case(e, "ttf") {
                    Ok(FontFormat::Truetype)
                } else if text::eq_ignore_ascii_case(e, "otf") {
                    Ok(FontFormat::Opentype)
                } else if text::eq_ignore_ascii_case(e, "woff") {
                    Ok(FontFormat::Woff)
                } else if text::eq_ignore_ascii_case(e, "woff2") {
                    Ok(FontFormat::Woff2)
                } else {
                    Err(RegisterFontError::UnknownFormat)
                }
            },
            None => Err(RegisterFontError::UnknownFormat),
        }
    }
}

} // verus!
