//! The failures that abort a run, each carrying the message of its cause.

use vstd::prelude::*;
use vstd::string::StringExecFns;

verus! {

/// A fatal failure of initialization or generation. Every variant holds the
/// cause in the words of whoever reported it.
#[derive(Debug, PartialEq, Eq)]
pub enum Error {
    /// A file that was discovered could not be read, or the output sink failed.
    Io(String),
    /// The version-control system reported a failure.
    Git(String),
    /// The XML serializer reported a failure.
    Xml(String),
    /// A path argument is not a well-formed glob.
    GlobPattern(String),
    /// An exclusion pattern is malformed.
    FNMatchPattern(String),
    /// The produced document is not text.
    Path(String),
}

impl Error {
    /// The category prefix of the human-readable message.
    pub open spec fn label(&self) -> Seq<char> {
        match self {
            Error::Io(_) => "IO error: "@,
            Error::Git(_) => "Git error: "@,
            Error::Xml(_) => "XML error: "@,
            Error::GlobPattern(_) => "Pattern error: "@,
            Error::FNMatchPattern(_) => "fnmatch error: "@,
            Error::Path(_) => "Path error: "@,
        }
    }

    /// The cause, as reported.
    pub open spec fn detail(&self) -> Seq<char> {
        match self {
            Error::Io(cause) => cause@,
            Error::Git(cause) => cause@,
            Error::Xml(cause) => cause@,
            Error::GlobPattern(cause) => cause@,
            Error::FNMatchPattern(cause) => cause@,
            Error::Path(cause) => cause@,
        }
    }

    /// The human-readable message: the category, then the cause.
    pub fn message(&self) -> (text: String)
        ensures
            text@ == self.label() + self.detail(),
    {
        match self {
            Error::Io(cause) => String::from_str("IO error: ").concat(cause.as_str()),
            Error::Git(cause) => String::from_str("Git error: ").concat(cause.as_str()),
            Error::Xml(cause) => String::from_str("XML error: ").concat(cause.as_str()),
            Error::GlobPattern(cause) => String::from_str("Pattern error: ").concat(
                cause.as_str(),
            ),
            Error::FNMatchPattern(cause) => String::from_str("fnmatch error: ").concat(
                cause.as_str(),
            ),
            Error::Path(cause) => String::from_str("Path error: ").concat(cause.as_str()),
        }
    }
}

} // verus!
