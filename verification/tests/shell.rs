use passepartout::dispatcher::OperationKind;
use passepartout::error::Error;
use passepartout::events::{FieldKind, PasswordEvent};
use passepartout::shell::{
    arguments, clipboard_outcome, copy_login, copy_otp, copy_password, fetch_entry, fetch_otp,
    keeps_output, CommandOutput,
};

fn ended(success: bool) -> CommandOutput {
    CommandOutput {
        success,
        status: if success { "exit status: 0".to_string() } else { "exit status: 1".to_string() },
        stdout: "written out\n".to_string(),
        stderr: "written to err\n".to_string(),
    }
}

#[test]
fn pass_is_run_with_the_arguments_of_the_kind() {
    assert_eq!(arguments(OperationKind::CopyPassword, "web/x"), vec!["web/x", "--clip"]);
    assert_eq!(arguments(OperationKind::CopyLogin, "web/x"), vec!["web/x", "--clip=2"]);
    assert_eq!(arguments(OperationKind::CopyOtp, "web/x"), vec!["otp", "code", "web/x", "--clip"]);
    assert_eq!(arguments(OperationKind::FetchOtp, "web/x"), vec!["otp", "code", "web/x"]);
    assert_eq!(arguments(OperationKind::FetchEntry, "web/x"), vec!["web/x"]);
    assert!(arguments(OperationKind::CopyId, "web/x").is_empty());
}

#[test]
fn output_is_kept_where_a_secret_is_fetched() {
    assert!(keeps_output(OperationKind::FetchOtp));
    assert!(keeps_output(OperationKind::FetchEntry));
    assert!(!keeps_output(OperationKind::CopyId));
    assert!(!keeps_output(OperationKind::CopyPassword));
    assert!(!keeps_output(OperationKind::CopyLogin));
    assert!(!keeps_output(OperationKind::CopyOtp));
}

#[test]
fn a_copy_by_pass_has_a_line_for_the_user() {
    assert_eq!(
        copy_password(ended(true)),
        Ok(PasswordEvent::Status(Ok(Some(
            "Password copied to clipboard, clears after 45 seconds".to_string()
        ))))
    );
    assert_eq!(
        copy_login(ended(true)),
        Ok(PasswordEvent::Status(Ok(Some(
            "Login copied to clipboard, clears after 45 seconds".to_string()
        ))))
    );
    assert_eq!(
        copy_otp(ended(true)),
        Ok(PasswordEvent::Status(Ok(Some("One-time password copied to clipboard".to_string()))))
    );
}

#[test]
fn a_failed_copy_by_pass_reports_the_exit_status() {
    assert_eq!(copy_password(ended(false)), Err(Error::Pass("exit status: 1".to_string())));
    assert_eq!(copy_login(ended(false)), Err(Error::Pass("exit status: 1".to_string())));
    assert_eq!(copy_otp(ended(false)), Err(Error::Pass("exit status: 1".to_string())));
}

#[test]
fn a_fetch_by_pass_hands_out_the_secret() {
    assert_eq!(
        fetch_otp("web/x".to_string(), ended(true)),
        Ok(PasswordEvent::SecretReady {
            credential_id: "web/x".to_string(),
            field_kind: FieldKind::Otp,
            value: "written out\n".to_string(),
        })
    );
    assert_eq!(
        fetch_entry("web/x".to_string(), ended(true)),
        Ok(PasswordEvent::SecretReady {
            credential_id: "web/x".to_string(),
            field_kind: FieldKind::Entry,
            value: "written out\n".to_string(),
        })
    );
}

#[test]
fn a_failed_fetch_by_pass_reports_what_it_wrote() {
    assert_eq!(
        fetch_otp("web/x".to_string(), ended(false)),
        Err(Error::Pass("written to err\n".to_string()))
    );
    assert_eq!(
        fetch_entry("web/x".to_string(), ended(false)),
        Err(Error::Pass("written to err\n".to_string()))
    );
}

#[test]
fn the_clipboard_may_be_missing_or_refuse() {
    assert_eq!(clipboard_outcome(None), Err(Error::ClipboardUnavailable));
    assert_eq!(clipboard_outcome(Some(Ok(()))), Ok(()));
    assert_eq!(
        clipboard_outcome(Some(Err("selection is busy".to_string()))),
        Err(Error::Clipboard("selection is busy".to_string()))
    );
}
