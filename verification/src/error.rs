//! Unified error type.

use crate::text::{decimal, push_decimal};
use vstd::prelude::*;
use vstd::string::*;

verus! {

/// `std::io::Error`, carried through unread.
#[verifier::external_type_specification]
#[verifier::external_body]
pub struct ExIoError(std::io::Error);

/// Every failure mode the window manager can encounter.
#[derive(Debug)]
pub enum Error {
    WindowNotFound { id: u64 },
    Layout(String),
    /// Config parse failures: input from untrusted files is validated here
    /// before it enters the rest of the system.
    Config(String),
    Backend(String),
    Io(std::io::Error),
}

/// `e` is a configuration error with the message `text`.
pub open spec fn is_config_error(e: Error, text: Seq<char>) -> bool {
    e matches Error::Config(m) && m@ == text
}

/// `e` is a backend error with the message `text`.
pub open spec fn is_backend_error(e: Error, text: Seq<char>) -> bool {
    e matches Error::Backend(m) && m@ == text
}

/// What a user is shown for `e`, where that is not up to the operating system.
pub open spec fn error_text(e: Error) -> Option<Seq<char>> {
    match e {
        Error::WindowNotFound { id } => Some("window not found: "@ + decimal(id as nat)),
        Error::Layout(m) => Some("layout error: "@ + m@),
        Error::Config(m) => Some("config error: "@ + m@),
        Error::Backend(m) => Some("backend error: "@ + m@),
        Error::Io(_) => None,
    }
}

/// Calls `ToString::to_string` of `std::io::Error`.  The text is the operating
/// system's own, so nothing is claimed of it.
#[verifier::external_body]
fn io_error_text(e: &std::io::Error) -> String {
    e.to_string()
}

/// `first` followed by `second`.
pub fn joined(first: &str, second: &str) -> (r: String)
    ensures
        r@ == first@ + second@,
{
    let mut out = first.to_owned();
    out.append(second);
    out
}

impl Error {
    /// The message shown to a user.
    pub fn to_string(&self) -> (r: String)
        ensures
            error_text(*self) matches Some(text) ==> r@ == text,
            self is Io ==> exists|tail: Seq<char>| r@ == #[trigger] ("io error: "@ + tail),
    {
        match self {
            Error::WindowNotFound { id } => {
                let mut out = "window not found: ".to_owned();
                push_decimal(&mut out, *id);
                out
            },
            Error::Layout(m) => joined("layout error: ", m.as_str()),
            Error::Config(m) => joined("config error: ", m.as_str()),
            Error::Backend(m) => joined("backend error: ", m.as_str()),
            Error::Io(e) => {
                let tail = io_error_text(e);
                joined("io error: ", tail.as_str())
            },
        }
    }
}

} // verus!
