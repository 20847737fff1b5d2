//! The failures a command can end in. Denied confirmations are deliberately
//! not here: declining to overwrite or delete is a successful no-op.

use vstd::prelude::*;
use vstd::string::*;

verus! {

#[derive(Debug)]
pub enum Error {
    /// No stored name matches the given fragment.
    NotFound { fragment: String },
    /// Several names matched and the answer picked none of them.
    InvalidSelection { answer: String },
    /// A decrypted payload has no password and username lines.
    MalformedEntry,
    /// The external encrypt/decrypt command failed.
    CipherFailure,
    /// The external clipboard command failed.
    ClipboardFailure,
    /// A file could not be listed, read, written or removed.
    IoFailure,
}

/// The message text for an error, one line per kind.
pub open spec fn describe_spec(e: Error) -> Seq<char> {
    match e {
        Error::NotFound { fragment } => "No match for: "@ + fragment@,
        Error::InvalidSelection { answer } => "Invalid selection: "@ + answer@,
        Error::MalformedEntry => "Malformed entry"@,
        Error::CipherFailure => "Cipher command failed"@,
        Error::ClipboardFailure => "Clipboard command failed"@,
        Error::IoFailure => "File error"@,
    }
}

impl Error {
    /// Renders the user-facing message for this failure.
    pub fn describe(&self) -> (r: String)
        ensures
            r@ == describe_spec(*self),
    {
        match self {
            Error::NotFound { fragment } => crate::strutil::concat2(
                "No match for: ",
                fragment.as_str(),
            ),
            Error::InvalidSelection { answer } => crate::strutil::concat2(
                "Invalid selection: ",
                answer.as_str(),
            ),
            Error::MalformedEntry => String::from_str("Malformed entry"),
            Error::CipherFailure => String::from_str("Cipher command failed"),
            Error::ClipboardFailure => String::from_str("Clipboard command failed"),
            Error::IoFailure => String::from_str("File error"),
        }
    }
}

} // verus!
