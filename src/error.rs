//! The error kinds of the library.

use vstd::prelude::*;

verus! {

/// What went wrong; each kind carries its message.
#[derive(Debug, Clone, PartialEq, Eq)]
pub enum Error {
    Io(String),
    Utf8(String),
    Regex(String),
    GlobPattern(String),
    Glob(String),
    Toml(String),
    DataFusion(String),
    Arrow(String),
    Readline(String),
    MacroParse(String),
    Macro(String),
    Config(String),
    NoFiles(String),
    FieldNotFound(String),
    Other(String),
}

/// The text that an error reads as.
pub open spec fn error_text(e: Error) -> Seq<char> {
    match e {
        Error::Io(s) => "I/O error: "@ + s@,
        Error::Utf8(s) => "UTF-8 error: "@ + s@,
        Error::Regex(s) => "Regex error: "@ + s@,
        Error::GlobPattern(s) => "Glob pattern error: "@ + s@,
        Error::Glob(s) => "Glob error: "@ + s@,
        Error::Toml(s) => "TOML parse error: "@ + s@,
        Error::DataFusion(s) => "DataFusion error: "@ + s@,
        Error::Arrow(s) => "Arrow error: "@ + s@,
        Error::Readline(s) => "Rustyline error: "@ + s@,
        Error::MacroParse(s) => "Macro parse error: "@ + s@,
        Error::Macro(s) => "Macro expansion error: "@ + s@,
        Error::Config(s) => "Configuration error: "@ + s@,
        Error::NoFiles(s) => "No files found for path: "@ + s@,
        Error::FieldNotFound(s) => "Field name not found: "@ + s@,
        Error::Other(s) => s@,
    }
}

fn prefixed(prefix: &str, s: &String) -> (r: String)
    ensures
        r@ == prefix@ + s@,
{
    let mut r = String::from_str(prefix);
    r.append(s.as_str());
    r
}

impl Error {
    /// An error of the catch-all kind.
    pub fn other(s: String) -> (r: Error)
        ensures
            r == Error::Other(s),
    {
        Error::Other(s)
    }

    /// The text of this error.
    pub fn message(&self) -> (r: String)
        ensures
            r@ == error_text(*self),
    {
        match self {
            Error::Io(s) => prefixed("I/O error: ", s),
            Error::Utf8(s) => prefixed("UTF-8 error: ", s),
            Error::Regex(s) => prefixed("Regex error: ", s),
            Error::GlobPattern(s) => prefixed("Glob pattern error: ", s),
            Error::Glob(s) => prefixed("Glob error: ", s),
            Error::Toml(s) => prefixed("TOML parse error: ", s),
            Error::DataFusion(s) => prefixed("DataFusion error: ", s),
            Error::Arrow(s) => prefixed("Arrow error: ", s),
            Error::Readline(s) => prefixed("Rustyline error: ", s),
            Error::MacroParse(s) => prefixed("Macro parse error: ", s),
            Error::Macro(s) => prefixed("Macro expansion error: ", s),
            Error::Config(s) => prefixed("Configuration error: ", s),
            Error::NoFiles(s) => prefixed("No files found for path: ", s),
            Error::FieldNotFound(s) => prefixed("Field name not found: ", s),
            Error::Other(s) => s.clone(),
        }
    }
}

} // verus!
