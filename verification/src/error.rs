//! Error types for the Flocker application.

use vstd::prelude::*;
use vstd::string::StringExecFns;

verus! {

#[verifier::external_type_specification]
#[verifier::external_body]
pub struct ExIoError(std::io::Error);

/// Custom error type for Flocker operations
#[derive(Debug)]
pub enum FlockerError {
    /// Docker-related errors
    Docker(String),
    /// Configuration errors
    Config(String),
    /// Configuration file errors
    ConfigFile {
        /// Error message
        message: String,
        /// Path to the configuration file
        path: String,
        /// Description of the underlying cause
        source: String,
    },
    /// IO operation errors
    Io(std::io::Error),
    /// User interaction errors
    UserInput(String),
}

impl From<std::io::Error> for FlockerError {
    fn from(err: std::io::Error) -> (r: Self)
        ensures
            r == FlockerError::Io(err),
    {
        FlockerError::Io(err)
    }
}

impl vstd::std_specs::convert::FromSpecImpl<std::io::Error> for FlockerError {
    open spec fn obeys_from_spec() -> bool {
        true
    }

    open spec fn from_spec(err: std::io::Error) -> Self {
        FlockerError::Io(err)
    }
}

/// Relies on std::io::Error's Display implementation for the description of
/// the underlying error; nothing is assumed about its content.
#[verifier::external_body]
fn io_error_text(err: &std::io::Error) -> String {
    err.to_string()
}

impl FlockerError {
    /// The message shown to the user for this error.
    pub fn message(&self) -> (r: String)
        ensures
            match self {
                FlockerError::Docker(m) => r@ == "Docker error: "@ + m@,
                FlockerError::Config(m) => r@ == "Configuration error: "@ + m@,
                FlockerError::ConfigFile { message, path, source } => r@ == message@
                    + " (configuration file path: "@ + path@ + "): "@ + source@,
                FlockerError::Io(_) => r@.len() >= "IO error: "@.len() && r@.subrange(
                    0,
                    "IO error: "@.len() as int,
                ) == "IO error: "@,
                FlockerError::UserInput(m) => r@ == "User input error: "@ + m@,
            },
    {
        match self {
            FlockerError::Docker(m) => {
                let mut r = "Docker error: ".to_owned();
                r.append(m.as_str());
                r
            },
            FlockerError::Config(m) => {
                let mut r = "Configuration error: ".to_owned();
                r.append(m.as_str());
                r
            },
            FlockerError::ConfigFile { message, path, source } => {
                let mut r = message.clone();
                r.append(" (configuration file path: ");
                r.append(path.as_str());
                r.append("): ");
                r.append(source.as_str());
                r
            },
            FlockerError::Io(e) => {
                let mut r = "IO error: ".to_owned();
                r.append(io_error_text(e).as_str());
                assert(r@.subrange(0, "IO error: "@.len() as int) =~= "IO error: "@);
                r
            },
            FlockerError::UserInput(m) => {
                let mut r = "User input error: ".to_owned();
                r.append(m.as_str());
                r
            },
        }
    }
}

} // verus!
