//! Errors of the library, sorted by where the failure came from.
use vstd::prelude::*;
use crate::strings::to_owned_string;

verus! {

#[verifier::external_type_specification]
#[verifier::external_body]
pub struct ExIoError(std::io::Error);

/// The failure kinds: the mihomo API, the mihomo process, the configuration, or I/O.
#[derive(Debug)]
pub enum Error {
    Api(String),
    Process(String),
    Config(String),
    Io(std::io::Error),
}

/// `<std::io::Error as Display>::fmt`: the operating system's text for the error.
/// Nothing is stated of the text, which depends on the platform.
#[verifier::external_body]
fn io_error_text(e: &std::io::Error) -> String {
    format!("{e}")
}

impl Error {
    /// The message shown to the user: the carried text, or the I/O error's own text.
    pub fn to_string(&self) -> (r: String)
        ensures
            match self {
                Error::Api(m) => r@ == m@,
                Error::Process(m) => r@ == m@,
                Error::Config(m) => r@ == m@,
                Error::Io(_) => true,
            },
    {
        match self {
            Error::Api(m) => m.clone(),
            Error::Process(m) => m.clone(),
            Error::Config(m) => m.clone(),
            Error::Io(e) => io_error_text(e),
        }
    }
}

/// A process error with the given message.
pub fn process_error(msg: &str) -> (e: Error)
    ensures
        e matches Error::Process(m) && m@ == msg@,
{
    Error::Process(to_owned_string(msg))
}

/// A configuration error with the given message.
pub fn config_error(msg: &str) -> (e: Error)
    ensures
        e matches Error::Config(m) && m@ == msg@,
{
    Error::Config(to_owned_string(msg))
}

} // verus!
