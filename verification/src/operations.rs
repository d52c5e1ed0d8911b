//! The work of each operation, between what the host reads and what the
//! host does: from a decrypted entry to the text for the clipboard or the
//! secret to show.

use vstd::prelude::*;
use vstd::string::*;
use vstd::utf8::{decode_utf8, valid_utf8};

use crate::clipboard::{copy_to_clipboard, window, ClipboardCopy, EXPIRATION_INTERVAL};
use crate::dispatcher::OperationKind;
use crate::error::{Error, ExtractionError};
use crate::extract::{login, login_line, otp_line, otp_seed, password, password_line};
use crate::otp::{code_at, is_digit, parse_seed, usable_seed};

verus! {

/// The window of what an operation of this kind puts on the clipboard: the
/// one there is for a secret, and none for an id or where nothing is
/// copied.
pub open spec fn expiry_of(kind: OperationKind) -> Option<u64> {
    match kind {
        OperationKind::CopyPassword | OperationKind::CopyLogin | OperationKind::CopyOtp => window(
            true,
        ),
        _ => window(false),
    }
}

/// The copy of an id never expires; the copies of the three secrets always
/// do, after the same `EXPIRATION_INTERVAL` seconds.
pub proof fn lemma_secrets_share_one_window(kind: OperationKind)
    ensures
        expiry_of(OperationKind::CopyId) is None,
        kind == OperationKind::CopyPassword || kind == OperationKind::CopyLogin || kind
            == OperationKind::CopyOtp ==> expiry_of(kind) == Some(EXPIRATION_INTERVAL),
{
}

/// Calls `String::from_utf8`, which gives the text that the bytes encode
/// where they are valid UTF-8, and fails where they are not.
#[verifier::external_body]
fn text_from_utf8(bytes: Vec<u8>) -> (text: Option<String>)
    ensures
        text is Some <==> valid_utf8(bytes@),
        text matches Some(decoded) ==> decoded@ == decode_utf8(bytes@),
{
    String::from_utf8(bytes).ok()
}

/// The text of an entry from what the decryption engine made of its file:
/// the bytes as UTF-8 text, or the failure of the engine.
pub fn decrypt(decrypted: Result<Vec<u8>, String>) -> (text: Result<String, Error>)
    ensures
        match decrypted {
            Ok(bytes) => if valid_utf8(bytes@) {
                text matches Ok(decoded) && decoded@ == decode_utf8(bytes@)
            } else {
                text == Err::<String, Error>(Error::InvalidUtf8)
            },
            Err(said) => text matches Err(Error::Decrypt(reason)) && reason@ == said@,
        },
{
    match decrypted {
        Ok(bytes) => match text_from_utf8(bytes) {
            Some(decoded) => Ok(decoded),
            None => Err(Error::InvalidUtf8),
        },
        Err(said) => Err(Error::Decrypt(said)),
    }
}

/// The copy of an entry's id to the clipboard. An id is no secret: it is
/// never scrubbed.
pub fn copy_id(pass_id: String) -> (copy: ClipboardCopy)
    ensures
        copy.text@ == pass_id@,
        copy.expiry == expiry_of(OperationKind::CopyId),
{
    copy_to_clipboard(pass_id.as_str(), false)
}

/// The copy of an entry's password, its first line, to the clipboard, from
/// which it is scrubbed after `EXPIRATION_INTERVAL` seconds.
pub fn copy_password(file_contents: &str) -> (copy: Result<ClipboardCopy, Error>)
    ensures
        match password_line(file_contents@) {
            Some(line) => {
                &&& copy matches Ok(made)
                &&& made.text@ == line
                &&& made.expiry == expiry_of(OperationKind::CopyPassword)
            },
            None => copy == Err::<ClipboardCopy, Error>(
                Error::Extraction(ExtractionError::NoPassword),
            ),
        },
{
    match password(file_contents) {
        Ok(line) => Ok(copy_to_clipboard(line, true)),
        Err(lack) => Err(Error::Extraction(lack)),
    }
}

/// The copy of an entry's login, its second line, to the clipboard, from
/// which it is scrubbed after `EXPIRATION_INTERVAL` seconds.
pub fn copy_login(file_contents: &str) -> (copy: Result<ClipboardCopy, Error>)
    ensures
        match login_line(file_contents@) {
            Some(line) => {
                &&& copy matches Ok(made)
                &&& made.text@ == line
                &&& made.expiry == expiry_of(OperationKind::CopyLogin)
            },
            None => copy == Err::<ClipboardCopy, Error>(Error::Extraction(ExtractionError::NoLogin)),
        },
{
    match login(file_contents) {
        Ok(line) => Ok(copy_to_clipboard(line, true)),
        Err(lack) => Err(Error::Extraction(lack)),
    }
}

/// What `generate_otp` says where the clock failed with `said`.
pub open spec fn clock_failure(said: Seq<char>) -> Seq<char> {
    "failed to generate OTP: "@ + said
}

/// The one-time password of an entry at the time the host's clock gave, in
/// seconds since the Unix epoch, or its failure.
///
/// The entry's first line that begins with `otpauth://` is read as a
/// provisioning URL. An entry without such a line is `NoOtpUrl`; a URL that
/// gives no usable parameters is `InvalidOtpUrl`; only then a failed clock
/// counts.
pub fn generate_otp(file_contents: &str, clock: Result<u64, String>) -> (code: Result<
    String,
    Error,
>)
    ensures
        match otp_line(file_contents@) {
            None => code == Err::<String, Error>(Error::Extraction(ExtractionError::NoOtpUrl)),
            Some(url) => match usable_seed(url) {
                None => code == Err::<String, Error>(
                    Error::Extraction(ExtractionError::InvalidOtpUrl),
                ),
                Some(params) => match clock {
                    Ok(time) => {
                        &&& code matches Ok(digits)
                        &&& digits@ == code_at(params, time as nat)
                        &&& digits@.len() == params.digits
                        &&& forall|i: int| 0 <= i < digits@.len() ==> is_digit(#[trigger] digits@[i])
                    },
                    Err(said) => code matches Err(Error::Pass(reason)) && reason@ == clock_failure(
                        said@,
                    ),
                },
            },
        },
{
    let url = match otp_seed(file_contents) {
        Ok(line) => line,
        Err(lack) => {
            return Err(Error::Extraction(lack));
        },
    };
    let params = match parse_seed(url) {
        Ok(params) => params,
        Err(lack) => {
            return Err(Error::Extraction(lack));
        },
    };
    match clock {
        Ok(time) => match params.code(time) {
            Ok(digits) => Ok(digits),
            Err(lack) => Err(Error::Extraction(lack)),
        },
        Err(said) => Err(Error::Pass("failed to generate OTP: ".to_owned().concat(said.as_str()))),
    }
}

/// The copy of an entry's current one-time password to the clipboard, from
/// which it is scrubbed after `EXPIRATION_INTERVAL` seconds.
pub fn copy_otp(file_contents: &str, clock: Result<u64, String>) -> (copy: Result<
    ClipboardCopy,
    Error,
>)
    ensures
        match otp_line(file_contents@) {
            None => copy == Err::<ClipboardCopy, Error>(
                Error::Extraction(ExtractionError::NoOtpUrl),
            ),
            Some(url) => match usable_seed(url) {
                None => copy == Err::<ClipboardCopy, Error>(
                    Error::Extraction(ExtractionError::InvalidOtpUrl),
                ),
                Some(params) => match clock {
                    Ok(time) => {
                        &&& copy matches Ok(made)
                        &&& made.text@ == code_at(params, time as nat)
                        &&& made.expiry == expiry_of(OperationKind::CopyOtp)
                    },
                    Err(said) => copy matches Err(Error::Pass(reason)) && reason@ == clock_failure(
                        said@,
                    ),
                },
            },
        },
{
    match generate_otp(file_contents, clock) {
        Ok(digits) => Ok(copy_to_clipboard(digits.as_str(), true)),
        Err(error) => Err(error),
    }
}

} // verus!
