//! The failures of a run.

use vstd::prelude::*;
use vstd::std_specs::convert::FromSpecImpl;

verus! {

/// `std::io::Error`, carried as it is: why the system could not read or
/// write.
#[verifier::external_type_specification]
#[verifier::external_body]
pub struct ExIoError(std::io::Error);

/// `serde_json::Error`, carried as it is: why a text is no JSON.
#[verifier::external_type_specification]
#[verifier::external_body]
pub struct ExJsonError(serde_json::Error);

/// `tera::Error`, carried as it is: why the engine refused a template or
/// could not render it.
#[verifier::external_type_specification]
#[verifier::external_body]
pub struct ExEngineError(tera::Error);

/// Why a run ended early.
#[derive(Debug)]
pub enum TemplateError {
    /// A path could not be read or written.
    Io(std::io::Error),
    /// Text that should be JSON is malformed.
    JsonParse(serde_json::Error),
    /// The template engine rejected a template or could not render it.
    TeraError(tera::Error),
    /// Well-formed input that breaks a rule; the text says which.
    InvalidArgument(String),
}

/// The `Display` form of a `std::io::Error`: the system's description of the
/// failure, in the words of the system and its locale. Nothing is stated of
/// it.
#[verifier::external_body]
pub(crate) fn describe_io(cause: &std::io::Error) -> (text: String) {
    format!("{}", cause)
}

/// The `Display` form of a `serde_json::Error`: the reason, and where in the
/// text it struck. Nothing is stated of it: the reason may be the system's
/// description of an I/O failure.
#[verifier::external_body]
fn describe_json(cause: &serde_json::Error) -> (text: String) {
    format!("{}", cause)
}

/// The `Display` form of a `tera::Error`. Nothing is stated of it: it may
/// hold what a `serde_json::Error` says.
#[verifier::external_body]
fn describe_engine(cause: &tera::Error) -> (text: String) {
    format!("{}", cause)
}

impl TemplateError {
    /// What every message of this kind of failure begins with.
    pub open spec fn heading(&self) -> Seq<char> {
        match self {
            TemplateError::Io(_) => "IO error: "@,
            TemplateError::JsonParse(_) => "JSON parsing error: "@,
            TemplateError::TeraError(_) => "Template error: "@,
            TemplateError::InvalidArgument(_) => "Invalid argument: "@,
        }
    }

    /// The failure in a line for the user: the heading of its kind, then the
    /// cause. For an invalid argument the cause is the text it carries; for
    /// the other kinds it is what the error it carries says of itself.
    pub fn message(&self) -> (line: String)
        ensures
            self.heading().is_prefix_of(line@),
            self matches TemplateError::InvalidArgument(text) ==> line@ == self.heading() + text@,
    {
        let (heading, cause) = match self {
            TemplateError::Io(cause) => (String::from_str("IO error: "), describe_io(cause)),
            TemplateError::JsonParse(cause) => (
                String::from_str("JSON parsing error: "),
                describe_json(cause),
            ),
            TemplateError::TeraError(cause) => (
                String::from_str("Template error: "),
                describe_engine(cause),
            ),
            TemplateError::InvalidArgument(text) => (
                String::from_str("Invalid argument: "),
                text.clone(),
            ),
        };
        let line = heading.concat(cause.as_str());
        assert(line@.subrange(0, self.heading().len() as int) =~= self.heading());
        line
    }
}

impl From<std::io::Error> for TemplateError {
    fn from(err: std::io::Error) -> (e: TemplateError) {
        TemplateError::Io(err)
    }
}

impl FromSpecImpl<std::io::Error> for TemplateError {
    open spec fn obeys_from_spec() -> bool {
        true
    }

    open spec fn from_spec(err: std::io::Error) -> TemplateError {
        TemplateError::Io(err)
    }
}

impl From<serde_json::Error> for TemplateError {
    fn from(err: serde_json::Error) -> (e: TemplateError) {
        TemplateError::JsonParse(err)
    }
}

impl FromSpecImpl<serde_json::Error> for TemplateError {
    open spec fn obeys_from_spec() -> bool {
        true
    }

    open spec fn from_spec(err: serde_json::Error) -> TemplateError {
        TemplateError::JsonParse(err)
    }
}

impl From<tera::Error> for TemplateError {
    fn from(err: tera::Error) -> (e: TemplateError) {
        TemplateError::TeraError(err)
    }
}

impl FromSpecImpl<tera::Error> for TemplateError {
    open spec fn obeys_from_spec() -> bool {
        true
    }

    open spec fn from_spec(err: tera::Error) -> TemplateError {
        TemplateError::TeraError(err)
    }
}

} // verus!
