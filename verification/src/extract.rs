//! The fields of a decrypted entry: password, login and one-time-password URL.

use vstd::prelude::*;

use crate::error::ExtractionError;
use crate::text::{has_prefix, lines, split_lines, starts_with};

verus! {

/// What a one-time-password provisioning URL begins with.
pub open spec fn otp_prefix() -> Seq<char> {
    "otpauth://"@
}

/// Line `i` of `text` is its first that begins with `otp_prefix()`.
pub open spec fn is_first_otp_line(text: Seq<char>, i: int) -> bool {
    &&& 0 <= i < lines(text).len()
    &&& has_prefix(lines(text)[i], otp_prefix())
    &&& forall|j: int| 0 <= j < i ==> !has_prefix(#[trigger] lines(text)[j], otp_prefix())
}

/// No line of `text` begins with `otp_prefix()`.
pub open spec fn has_no_otp_line(text: Seq<char>) -> bool {
    forall|i: int| 0 <= i < lines(text).len() ==> !has_prefix(#[trigger] lines(text)[i], otp_prefix())
}

/// The first line of `text` that begins with `otp_prefix()`, if it has one.
pub open spec fn otp_line(text: Seq<char>) -> Option<Seq<char>> {
    if exists|i: int| is_first_otp_line(text, i) {
        Some(lines(text)[choose|i: int| is_first_otp_line(text, i)])
    } else {
        None
    }
}

/// The first line of `text`, if it has one.
pub open spec fn password_line(text: Seq<char>) -> Option<Seq<char>> {
    if lines(text).len() >= 1 {
        Some(lines(text)[0])
    } else {
        None
    }
}

/// The second line of `text`, if it has one.
pub open spec fn login_line(text: Seq<char>) -> Option<Seq<char>> {
    if lines(text).len() >= 2 {
        Some(lines(text)[1])
    } else {
        None
    }
}

/// Only one line is the first that begins with `otp_prefix()`.
pub proof fn lemma_first_otp_line_unique(text: Seq<char>, i: int, j: int)
    requires
        is_first_otp_line(text, i),
        is_first_otp_line(text, j),
    ensures
        i == j,
{
}

/// The password of an entry: its first line, as it stands.
pub fn password<'a>(text: &'a str) -> (found: Result<&'a str, ExtractionError>)
    ensures
        text@.len() > 0 ==> found is Ok,
        match found {
            Ok(line) => password_line(text@) == Some(line@),
            Err(lack) => lack == ExtractionError::NoPassword && text@.len() == 0,
        },
{
    let found = split_lines(text);
    if found.len() >= 1 {
        Ok(found[0])
    } else {
        Err(ExtractionError::NoPassword)
    }
}

/// The login of an entry: its second line.
pub fn login<'a>(text: &'a str) -> (found: Result<&'a str, ExtractionError>)
    ensures
        match found {
            Ok(line) => login_line(text@) == Some(line@),
            Err(lack) => lack == ExtractionError::NoLogin && lines(text@).len() < 2,
        },
{
    let found = split_lines(text);
    if found.len() >= 2 {
        Ok(found[1])
    } else {
        Err(ExtractionError::NoLogin)
    }
}

/// The one-time-password URL of an entry: its first line that begins with
/// `otpauth://`, wherever it stands.
pub fn otp_seed<'a>(text: &'a str) -> (found: Result<&'a str, ExtractionError>)
    ensures
        match found {
            Ok(line) => {
                &&& exists|i: int| is_first_otp_line(text@, i) && line@ == lines(text@)[i]
                &&& otp_line(text@) == Some(line@)
            },
            Err(lack) => {
                &&& lack == ExtractionError::NoOtpUrl
                &&& has_no_otp_line(text@)
                &&& otp_line(text@) is None
            },
        },
{
    let found = split_lines(text);
    let mut i: usize = 0;
    while i < found.len()
        invariant
            i <= found@.len(),
            found@.len() == lines(text@).len(),
            forall|k: int| 0 <= k < found@.len() ==> (#[trigger] found@[k])@ == lines(text@)[k],
            forall|j: int| 0 <= j < i ==> !has_prefix(#[trigger] lines(text@)[j], otp_prefix()),
        decreases found.len() - i,
    {
        let line = found[i];
        if starts_with(line, "otpauth://") {
            assert(is_first_otp_line(text@, i as int));
            proof {
                lemma_first_otp_line_unique(
                    text@,
                    i as int,
                    choose|k: int| is_first_otp_line(text@, k),
                );
            }
            return Ok(line);
        }
        i += 1;
    }
    Err(ExtractionError::NoOtpUrl)
}

} // verus!
