//! What can go wrong in the engine.

use vstd::prelude::*;
use vstd::string::*;

verus! {

/// A decrypted entry that lacks the field asked for.
#[derive(Debug, Clone, Copy, PartialEq, Eq, Structural)]
pub enum ExtractionError {
    /// The entry is empty: it has no first line.
    NoPassword,
    /// The entry has fewer than two lines.
    NoLogin,
    /// No line of the entry is a one-time-password provisioning URL.
    NoOtpUrl,
    /// The provisioning URL of the entry cannot be used.
    InvalidOtpUrl,
}

/// A failure of one operation. It never touches another operation.
#[derive(Debug, Clone, PartialEq, Eq)]
pub enum Error {
    /// The `pass` collaborator failed, with what it said.
    Pass(String),
    /// The entry could not be decrypted.
    Decrypt(String),
    /// The decrypted entry is not UTF-8 text.
    InvalidUtf8,
    /// The decrypted entry lacks the field asked for.
    Extraction(ExtractionError),
    /// The clipboard refused the text.
    Clipboard(String),
    /// No clipboard could be opened.
    ClipboardUnavailable,
    /// The store could not be read.
    Io(String),
}

impl ExtractionError {
    /// What `message` says of this error.
    pub open spec fn text(self) -> Seq<char> {
        match self {
            ExtractionError::NoPassword => "no password found"@,
            ExtractionError::NoLogin => "no login found"@,
            ExtractionError::NoOtpUrl => "no OTP URL found"@,
            ExtractionError::InvalidOtpUrl => "invalid OTP URL"@,
        }
    }

    /// A line for the user.
    pub fn message(&self) -> (line: String)
        ensures
            line@ == self.text(),
    {
        match self {
            ExtractionError::NoPassword => "no password found".to_owned(),
            ExtractionError::NoLogin => "no login found".to_owned(),
            ExtractionError::NoOtpUrl => "no OTP URL found".to_owned(),
            ExtractionError::InvalidOtpUrl => "invalid OTP URL".to_owned(),
        }
    }
}

impl Error {
    /// What `message` says of this error.
    pub open spec fn text(self) -> Seq<char> {
        match self {
            Error::Pass(said) => "pass error: "@ + said@,
            Error::Decrypt(said) => "decryption error: "@ + said@,
            Error::InvalidUtf8 => "InvalidUtf8 error: entry is not UTF-8 text"@,
            Error::Extraction(lack) => "pass error: "@ + lack.text(),
            Error::Clipboard(said) => "Clipboard error: "@ + said@,
            Error::ClipboardUnavailable => "Clipboard error: clipboard unavailable"@,
            Error::Io(said) => "IO error: "@ + said@,
        }
    }

    /// A line for the user.
    pub fn message(&self) -> (line: String)
        ensures
            line@ == self.text(),
    {
        match self {
            Error::Pass(said) => "pass error: ".to_owned().concat(said.as_str()),
            Error::Decrypt(said) => "decryption error: ".to_owned().concat(said.as_str()),
            Error::InvalidUtf8 => "InvalidUtf8 error: entry is not UTF-8 text".to_owned(),
            Error::Extraction(lack) => {
                let detail = lack.message();
                "pass error: ".to_owned().concat(detail.as_str())
            },
            Error::Clipboard(said) => "Clipboard error: ".to_owned().concat(said.as_str()),
            Error::ClipboardUnavailable => "Clipboard error: clipboard unavailable".to_owned(),
            Error::Io(said) => "IO error: ".to_owned().concat(said.as_str()),
        }
    }
}

} // verus!
