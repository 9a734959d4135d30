//! The errors the library reports.
//!
//! `PipelineError` names what can stop a run. `ArgumentError` and
//! `ValidationError` say which value was refused and why. `AppError` is the one
//! shape every other error can be turned into for display: a kind and a
//! description.

use vstd::prelude::*;

verus! {

/// `std::io::Error`, carried through without looking inside.
#[verifier::external_type_specification]
#[verifier::external_body]
pub struct ExIoError(std::io::Error);

/// `std::num::ParseIntError`, carried through without looking inside.
#[verifier::external_type_specification]
#[verifier::external_body]
pub struct ExParseIntError(std::num::ParseIntError);

/// `serde_yaml::Error`, carried through without looking inside.
#[verifier::external_type_specification]
#[verifier::external_body]
pub struct ExYamlError(serde_yaml::Error);

/// `tera::Error`, carried through without looking inside.
#[verifier::external_type_specification]
#[verifier::external_body]
pub struct ExTeraError(tera::Error);

/// Calls `to_string` of `std::io::Error`. Nothing is claimed of the text.
#[verifier::external_body]
fn io_error_text(err: &std::io::Error) -> (text: String) {
    err.to_string()
}

/// Calls `to_string` of `std::num::ParseIntError`. Nothing is claimed of the
/// text.
#[verifier::external_body]
fn parse_int_error_text(err: &std::num::ParseIntError) -> (text: String) {
    err.to_string()
}

/// Calls `to_string` of `serde_yaml::Error`. Nothing is claimed of the text.
#[verifier::external_body]
fn yaml_error_text(err: &serde_yaml::Error) -> (text: String) {
    err.to_string()
}

/// Calls `to_string` of `tera::Error`. Nothing is claimed of the text.
#[verifier::external_body]
fn tera_error_text(err: &tera::Error) -> (text: String) {
    err.to_string()
}

/// An argument that was given a value the program cannot work with.
#[derive(Debug)]
pub struct ArgumentError {
    /// Name of the argument.
    pub arg: String,
    /// The value it was given.
    pub value: String,
    /// Why the value is refused.
    pub reason: String,
}

/// What an `ArgumentError` holds, as sequences of characters.
pub ghost struct ArgumentErrorView {
    pub arg: Seq<char>,
    pub value: Seq<char>,
    pub reason: Seq<char>,
}

impl View for ArgumentError {
    type V = ArgumentErrorView;

    open spec fn view(&self) -> ArgumentErrorView {
        ArgumentErrorView { arg: self.arg@, value: self.value@, reason: self.reason@ }
    }
}

impl ArgumentErrorView {
    /// The text an argument error is shown as.
    pub open spec fn message(self) -> Seq<char> {
        "ArgError ["@ + self.arg + "=>"@ + self.value + "]: "@ + self.reason
    }
}

impl ArgumentError {
    pub fn new(arg: String, value: &str, reason: String) -> (e: Self)
        ensures
            e@ == (ArgumentErrorView { arg: arg@, value: value@, reason: reason@ }),
    {
        ArgumentError { arg, value: value.to_owned(), reason }
    }

    /// The error as one line of text.
    pub fn to_string(&self) -> (text: String)
        ensures
            text@ == self@.message(),
    {
        let mut text = "ArgError [".to_owned();
        text.append(self.arg.as_str());
        text.append("=>");
        text.append(self.value.as_str());
        text.append("]: ");
        text.append(self.reason.as_str());
        text
    }
}

/// A value that failed a check.
#[derive(Debug)]
pub struct ValidationError {
    /// The value that was checked.
    pub value: String,
    /// Why it failed.
    pub reason: String,
}

/// What a `ValidationError` holds, as sequences of characters.
pub ghost struct ValidationErrorView {
    pub value: Seq<char>,
    pub reason: Seq<char>,
}

impl View for ValidationError {
    type V = ValidationErrorView;

    open spec fn view(&self) -> ValidationErrorView {
        ValidationErrorView { value: self.value@, reason: self.reason@ }
    }
}

impl ValidationErrorView {
    /// The text a validation error is shown as.
    pub open spec fn message(self) -> Seq<char> {
        "ValidationError ["@ + self.value + "]: "@ + self.reason
    }
}

impl ValidationError {
    pub fn new(value: &str, reason: String) -> (e: Self)
        ensures
            e@ == (ValidationErrorView { value: value@, reason: reason@ }),
    {
        ValidationError { value: value.to_owned(), reason }
    }

    /// The error as one line of text.
    pub fn to_string(&self) -> (text: String)
        ensures
            text@ == self@.message(),
    {
        let mut text = "ValidationError [".to_owned();
        text.append(self.value.as_str());
        text.append("]: ");
        text.append(self.reason.as_str());
        text
    }
}

/// What stops a run. Every variant is fatal: nothing is packaged after it.
#[derive(Debug)]
pub enum PipelineError {
    /// The slide directory cannot be listed. Holds the directory.
    DirectoryAccess(String),
    /// The type of an entry of the slide directory cannot be read. Holds the
    /// entry's path.
    FileType(String),
    /// Under strict numeric keys, the key of a slide is no integer. Holds the
    /// key.
    IndexParse(String),
    /// A local image that a slide refers to cannot be resolved on disk. Holds
    /// the reference as the slide writes it.
    AssetNotFound(String),
    /// The template engine failed. Holds its message, unchanged.
    TemplateRender(String),
    /// Writing the document or copying an image failed. Holds the path that
    /// could not be written.
    IoWrite(String),
    /// A slide file was refused before it was read.
    InvalidSlide(ValidationError),
}

/// What a `PipelineError` holds, as sequences of characters.
pub ghost enum PipelineErrorView {
    DirectoryAccess(Seq<char>),
    FileType(Seq<char>),
    IndexParse(Seq<char>),
    AssetNotFound(Seq<char>),
    TemplateRender(Seq<char>),
    IoWrite(Seq<char>),
    InvalidSlide(ValidationErrorView),
}

impl View for PipelineError {
    type V = PipelineErrorView;

    open spec fn view(&self) -> PipelineErrorView {
        match self {
            PipelineError::DirectoryAccess(s) => PipelineErrorView::DirectoryAccess(s@),
            PipelineError::FileType(s) => PipelineErrorView::FileType(s@),
            PipelineError::IndexParse(s) => PipelineErrorView::IndexParse(s@),
            PipelineError::AssetNotFound(s) => PipelineErrorView::AssetNotFound(s@),
            PipelineError::TemplateRender(s) => PipelineErrorView::TemplateRender(s@),
            PipelineError::IoWrite(s) => PipelineErrorView::IoWrite(s@),
            PipelineError::InvalidSlide(e) => PipelineErrorView::InvalidSlide(e@),
        }
    }
}

impl PipelineErrorView {
    /// The name of the error's kind.
    pub open spec fn kind(self) -> Seq<char> {
        match self {
            PipelineErrorView::DirectoryAccess(_) => "DirectoryAccessError"@,
            PipelineErrorView::FileType(_) => "FileTypeError"@,
            PipelineErrorView::IndexParse(_) => "IndexParseError"@,
            PipelineErrorView::AssetNotFound(_) => "AssetNotFoundError"@,
            PipelineErrorView::TemplateRender(_) => "TemplateRenderError"@,
            PipelineErrorView::IoWrite(_) => "IOWriteError"@,
            PipelineErrorView::InvalidSlide(e) => "Validation error [=>"@ + e.value + "]"@,
        }
    }

    /// What the error is about: the path, key, reference or message it holds.
    pub open spec fn detail(self) -> Seq<char> {
        match self {
            PipelineErrorView::DirectoryAccess(s) => s,
            PipelineErrorView::FileType(s) => s,
            PipelineErrorView::IndexParse(s) => s,
            PipelineErrorView::AssetNotFound(s) => s,
            PipelineErrorView::TemplateRender(s) => s,
            PipelineErrorView::IoWrite(s) => s,
            PipelineErrorView::InvalidSlide(e) => e.reason,
        }
    }
}

/// Any error of the program, reduced to a kind and a description.
#[derive(Debug)]
pub struct AppError {
    pub error_kind: String,
    pub description: String,
}

/// What an `AppError` holds, as sequences of characters.
pub ghost struct AppErrorView {
    pub error_kind: Seq<char>,
    pub description: Seq<char>,
}

impl View for AppError {
    type V = AppErrorView;

    open spec fn view(&self) -> AppErrorView {
        AppErrorView { error_kind: self.error_kind@, description: self.description@ }
    }
}

impl AppErrorView {
    /// The text an error is shown as: its kind, a colon, its description.
    pub open spec fn message(self) -> Seq<char> {
        self.error_kind + ": "@ + self.description
    }
}

impl AppError {
    /// An error of the general kind, with `message` as its description.
    pub fn new(message: &str) -> (e: AppError)
        ensures
            e@ == (AppErrorView { error_kind: "App Error"@, description: message@ }),
    {
        AppError { error_kind: "App Error".to_owned(), description: message.to_owned() }
    }

    /// The error as one line of text.
    pub fn to_string(&self) -> (text: String)
        ensures
            text@ == self@.message(),
    {
        let mut text = self.error_kind.clone();
        text.append(": ");
        text.append(self.description.as_str());
        text
    }

    /// The description alone.
    pub fn description(&self) -> (text: &str)
        ensures
            text@ == self.description@,
    {
        self.description.as_str()
    }
}

impl vstd::std_specs::convert::FromSpecImpl<std::io::Error> for AppError {
    open spec fn obeys_from_spec() -> bool {
        false
    }

    open spec fn from_spec(err: std::io::Error) -> Self {
        arbitrary()
    }
}

impl From<std::io::Error> for AppError {
    /// An I/O error keeps the text the system gave it as its description.
    fn from(err: std::io::Error) -> (e: Self)
        ensures
            e.error_kind@ == "IO Error"@,
    {
        AppError { error_kind: "IO Error".to_owned(), description: io_error_text(&err) }
    }
}

impl vstd::std_specs::convert::FromSpecImpl<std::num::ParseIntError> for AppError {
    open spec fn obeys_from_spec() -> bool {
        false
    }

    open spec fn from_spec(err: std::num::ParseIntError) -> Self {
        arbitrary()
    }
}

impl From<std::num::ParseIntError> for AppError {
    fn from(err: std::num::ParseIntError) -> (e: Self)
        ensures
            e.error_kind@ == "Parse Error (int)"@,
    {
        AppError {
            error_kind: "Parse Error (int)".to_owned(),
            description: parse_int_error_text(&err),
        }
    }
}

impl vstd::std_specs::convert::FromSpecImpl<serde_yaml::Error> for AppError {
    open spec fn obeys_from_spec() -> bool {
        false
    }

    open spec fn from_spec(err: serde_yaml::Error) -> Self {
        arbitrary()
    }
}

impl From<serde_yaml::Error> for AppError {
    fn from(err: serde_yaml::Error) -> (e: Self)
        ensures
            e.error_kind@ == "Parse Error (yaml)"@,
    {
        AppError { error_kind: "Parse Error (yaml)".to_owned(), description: yaml_error_text(&err) }
    }
}

impl vstd::std_specs::convert::FromSpecImpl<tera::Error> for AppError {
    open spec fn obeys_from_spec() -> bool {
        false
    }

    open spec fn from_spec(err: tera::Error) -> Self {
        arbitrary()
    }
}

impl From<tera::Error> for AppError {
    fn from(err: tera::Error) -> (e: Self)
        ensures
            e.error_kind@ == "Template Engine Error"@,
    {
        AppError {
            error_kind: "Template Engine Error".to_owned(),
            description: tera_error_text(&err),
        }
    }
}

impl vstd::std_specs::convert::FromSpecImpl<ArgumentError> for AppError {
    open spec fn obeys_from_spec() -> bool {
        false
    }

    open spec fn from_spec(err: ArgumentError) -> Self {
        arbitrary()
    }
}

impl From<ArgumentError> for AppError {
    fn from(err: ArgumentError) -> (e: Self)
        ensures
            e@ == (AppErrorView {
                error_kind: "Arg error ["@ + err.arg@ + "=>"@ + err.value@ + "]"@,
                description: err.reason@,
            }),
    {
        let mut kind = "Arg error [".to_owned();
        kind.append(err.arg.as_str());
        kind.append("=>");
        kind.append(err.value.as_str());
        kind.append("]");
        AppError { error_kind: kind, description: err.reason }
    }
}

impl vstd::std_specs::convert::FromSpecImpl<ValidationError> for AppError {
    open spec fn obeys_from_spec() -> bool {
        false
    }

    open spec fn from_spec(err: ValidationError) -> Self {
        arbitrary()
    }
}

impl From<ValidationError> for AppError {
    fn from(err: ValidationError) -> (e: Self)
        ensures
            e@ == (AppErrorView {
                error_kind: "Validation error [=>"@ + err.value@ + "]"@,
                description: err.reason@,
            }),
    {
        let mut kind = "Validation error [=>".to_owned();
        kind.append(err.value.as_str());
        kind.append("]");
        AppError { error_kind: kind, description: err.reason }
    }
}

impl vstd::std_specs::convert::FromSpecImpl<PipelineError> for AppError {
    open spec fn obeys_from_spec() -> bool {
        false
    }

    open spec fn from_spec(err: PipelineError) -> Self {
        arbitrary()
    }
}

impl From<PipelineError> for AppError {
    /// The error's kind by name, and what it holds as the description.
    fn from(err: PipelineError) -> (e: Self)
        ensures
            e@ == (AppErrorView { error_kind: err@.kind(), description: err@.detail() }),
    {
        match err {
            PipelineError::DirectoryAccess(s) => AppError {
                error_kind: "DirectoryAccessError".to_owned(),
                description: s,
            },
            PipelineError::FileType(s) => AppError {
                error_kind: "FileTypeError".to_owned(),
                description: s,
            },
            PipelineError::IndexParse(s) => AppError {
                error_kind: "IndexParseError".to_owned(),
                description: s,
            },
            PipelineError::AssetNotFound(s) => AppError {
                error_kind: "AssetNotFoundError".to_owned(),
                description: s,
            },
            PipelineError::TemplateRender(s) => AppError {
                error_kind: "TemplateRenderError".to_owned(),
                description: s,
            },
            PipelineError::IoWrite(s) => AppError {
                error_kind: "IOWriteError".to_owned(),
                description: s,
            },
            PipelineError::InvalidSlide(e) => AppError::from(e),
        }
    }
}

} // verus!
