//! Operations that the `pass` program carries out: which arguments it is
//! run with, and which event its outcome makes.

use vstd::prelude::*;

use crate::dispatcher::OperationKind;
use crate::error::Error;
use crate::events::{FieldKind, PasswordEvent};

verus! {

/// How a run of `pass` ended.
#[derive(Debug, Clone, PartialEq, Eq)]
pub struct CommandOutput {
    /// Whether the program reported success.
    pub success: bool,
    /// Its exit status, in words.
    pub status: String,
    /// What it wrote to its standard output.
    pub stdout: String,
    /// What it wrote to its standard error.
    pub stderr: String,
}

/// The arguments of `pass` for an operation on `pass_id`. Copying an id
/// needs no run, and has none.
pub open spec fn arguments_of(kind: OperationKind, pass_id: Seq<char>) -> Seq<Seq<char>> {
    match kind {
        OperationKind::CopyId => seq![],
        OperationKind::CopyPassword => seq![pass_id, "--clip"@],
        OperationKind::CopyLogin => seq![pass_id, "--clip=2"@],
        OperationKind::CopyOtp => seq!["otp"@, "code"@, pass_id, "--clip"@],
        OperationKind::FetchOtp => seq!["otp"@, "code"@, pass_id],
        OperationKind::FetchEntry => seq![pass_id],
    }
}

/// Whether the host keeps what `pass` writes: only where a secret is
/// fetched. Where `pass` copies, its output is thrown away.
pub open spec fn captures_output(kind: OperationKind) -> bool {
    kind == OperationKind::FetchOtp || kind == OperationKind::FetchEntry
}

/// The line for the user after `pass` has copied, for the kinds that it
/// copies for.
pub open spec fn copied_line(kind: OperationKind) -> Option<Seq<char>> {
    match kind {
        OperationKind::CopyPassword => Some(
            "Password copied to clipboard, clears after 45 seconds"@,
        ),
        OperationKind::CopyLogin => Some("Login copied to clipboard, clears after 45 seconds"@),
        OperationKind::CopyOtp => Some("One-time password copied to clipboard"@),
        _ => None,
    }
}

/// `event` is what a run of `pass` to copy, which ended as `output`, makes:
/// the line for the user where it succeeded, and a failure with its exit
/// status where not.
pub open spec fn is_copied_event(
    kind: OperationKind,
    output: CommandOutput,
    event: Result<PasswordEvent, Error>,
) -> bool {
    if output.success {
        event matches Ok(PasswordEvent::Status(Ok(Some(line)))) && Some(line@) == copied_line(kind)
    } else {
        event matches Err(Error::Pass(said)) && said@ == output.status@
    }
}

/// `event` is what a run of `pass` to fetch, which ended as `output`, makes:
/// the secret it wrote where it succeeded, and a failure with what it wrote
/// to its standard error where not.
pub open spec fn is_fetched_event(
    pass_id: Seq<char>,
    field_kind: FieldKind,
    output: CommandOutput,
    event: Result<PasswordEvent, Error>,
) -> bool {
    if output.success {
        event matches Ok(PasswordEvent::SecretReady { credential_id, field_kind: kind, value })
            && credential_id@ == pass_id && kind == field_kind && value@ == output.stdout@
    } else {
        event matches Err(Error::Pass(said)) && said@ == output.stderr@
    }
}

/// The views of `arguments`, in their order.
pub open spec fn texts(arguments: Seq<String>) -> Seq<Seq<char>> {
    arguments.map_values(|argument: String| argument@)
}

/// The arguments that `pass` is run with for an operation on `pass_id`.
pub fn arguments(kind: OperationKind, pass_id: &str) -> (list: Vec<String>)
    ensures
        texts(list@) == arguments_of(kind, pass_id@),
{
    let mut list: Vec<String> = Vec::new();
    match kind {
        OperationKind::CopyId => {},
        OperationKind::CopyPassword => {
            list.push(pass_id.to_owned());
            list.push("--clip".to_owned());
        },
        OperationKind::CopyLogin => {
            list.push(pass_id.to_owned());
            list.push("--clip=2".to_owned());
        },
        OperationKind::CopyOtp => {
            list.push("otp".to_owned());
            list.push("code".to_owned());
            list.push(pass_id.to_owned());
            list.push("--clip".to_owned());
        },
        OperationKind::FetchOtp => {
            list.push("otp".to_owned());
            list.push("code".to_owned());
            list.push(pass_id.to_owned());
        },
        OperationKind::FetchEntry => {
            list.push(pass_id.to_owned());
        },
    }
    assert(texts(list@) =~= arguments_of(kind, pass_id@));
    list
}

/// Whether the host keeps what `pass` writes for this kind.
pub fn keeps_output(kind: OperationKind) -> (kept: bool)
    ensures
        kept == captures_output(kind),
{
    match kind {
        OperationKind::FetchOtp => true,
        OperationKind::FetchEntry => true,
        _ => false,
    }
}

/// The event after `pass` was run to copy: the line for the user where it
/// succeeded, and a failure with its exit status where not.
fn copied(kind: OperationKind, output: CommandOutput) -> (event: Result<PasswordEvent, Error>)
    requires
        kind == OperationKind::CopyPassword || kind == OperationKind::CopyLogin || kind
            == OperationKind::CopyOtp,
    ensures
        is_copied_event(kind, output, event),
{
    if output.success {
        let line = match kind {
            OperationKind::CopyPassword => "Password copied to clipboard, clears after 45 seconds",
            OperationKind::CopyLogin => "Login copied to clipboard, clears after 45 seconds",
            _ => "One-time password copied to clipboard",
        };
        Ok(PasswordEvent::Status(Ok(Some(line.to_owned()))))
    } else {
        Err(Error::Pass(output.status))
    }
}

/// The event after `pass` was run to fetch: the secret it wrote where it
/// succeeded, and a failure with what it wrote to its standard error where
/// not.
fn fetched(pass_id: String, field_kind: FieldKind, output: CommandOutput) -> (event: Result<
    PasswordEvent,
    Error,
>)
    ensures
        is_fetched_event(pass_id@, field_kind, output, event),
{
    if output.success {
        Ok(PasswordEvent::SecretReady { credential_id: pass_id, field_kind, value: output.stdout })
    } else {
        Err(Error::Pass(output.stderr))
    }
}

/// The event after `pass` was run to copy a password.
pub fn copy_password(output: CommandOutput) -> (event: Result<PasswordEvent, Error>)
    ensures
        is_copied_event(OperationKind::CopyPassword, output, event),
{
    copied(OperationKind::CopyPassword, output)
}

/// The event after `pass` was run to copy a login.
pub fn copy_login(output: CommandOutput) -> (event: Result<PasswordEvent, Error>)
    ensures
        is_copied_event(OperationKind::CopyLogin, output, event),
{
    copied(OperationKind::CopyLogin, output)
}

/// The event after `pass` was run to copy a one-time password.
pub fn copy_otp(output: CommandOutput) -> (event: Result<PasswordEvent, Error>)
    ensures
        is_copied_event(OperationKind::CopyOtp, output, event),
{
    copied(OperationKind::CopyOtp, output)
}

/// The event after `pass` was run to fetch the one-time password of
/// `pass_id`.
pub fn fetch_otp(pass_id: String, output: CommandOutput) -> (event: Result<PasswordEvent, Error>)
    ensures
        is_fetched_event(pass_id@, FieldKind::Otp, output, event),
{
    fetched(pass_id, FieldKind::Otp, output)
}

/// The event after `pass` was run to fetch the entry `pass_id`.
pub fn fetch_entry(pass_id: String, output: CommandOutput) -> (event: Result<PasswordEvent, Error>)
    ensures
        is_fetched_event(pass_id@, FieldKind::Entry, output, event),
{
    fetched(pass_id, FieldKind::Entry, output)
}

/// The outcome of putting a text on the clipboard, from what the host met:
/// no clipboard at all (`None`), a clipboard that refused the text, or one
/// that took it.
pub fn clipboard_outcome(set: Option<Result<(), String>>) -> (outcome: Result<(), Error>)
    ensures
        match set {
            None => outcome == Err::<(), Error>(Error::ClipboardUnavailable),
            Some(Ok(_)) => outcome is Ok,
            Some(Err(said)) => outcome matches Err(Error::Clipboard(reason)) && reason@ == said@,
        },
{
    match set {
        None => Err(Error::ClipboardUnavailable),
        Some(Ok(_)) => Ok(()),
        Some(Err(said)) => Err(Error::Clipboard(said)),
    }
}

} // verus!
