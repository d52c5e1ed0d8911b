use passepartout::error::ExtractionError;
use passepartout::extract::{login, otp_seed, password};
use passepartout::text::{split_lines, starts_with};

#[test]
fn password_is_the_first_line() {
    assert_eq!(password("hunter2\nalice\n"), Ok("hunter2"));
    assert_eq!(password("hunter2"), Ok("hunter2"));
}

#[test]
fn password_is_kept_verbatim() {
    assert_eq!(password("  p w\t \nnext"), Ok("  p w\t "));
    assert_eq!(password("pässwörd€\nx"), Ok("pässwörd€"));
}

#[test]
fn password_of_an_empty_entry_is_missing() {
    assert_eq!(password(""), Err(ExtractionError::NoPassword));
}

#[test]
fn an_empty_first_line_is_still_a_password() {
    assert_eq!(password("\nalice"), Ok(""));
    assert_eq!(password("\n"), Ok(""));
}

#[test]
fn password_loses_its_line_ending_only() {
    assert_eq!(password("pw\r\nalice"), Ok("pw"));
    assert_eq!(password("pw\r"), Ok("pw\r"));
    assert_eq!(password("pw\r\r\n"), Ok("pw\r"));
}

#[test]
fn login_is_the_second_line() {
    assert_eq!(login("hunter2\nalice\nmore"), Ok("alice"));
    assert_eq!(login("hunter2\nalice"), Ok("alice"));
    assert_eq!(login("hunter2\n\nmore"), Ok(""));
}

#[test]
fn login_needs_two_lines() {
    assert_eq!(login(""), Err(ExtractionError::NoLogin));
    assert_eq!(login("hunter2"), Err(ExtractionError::NoLogin));
    assert_eq!(login("hunter2\n"), Err(ExtractionError::NoLogin));
}

#[test]
fn otp_seed_is_found_at_any_position() {
    let url = "otpauth://totp/x?secret=GEZDGNBVGY3TQOJQGEZDGNBVGY3TQOJQ";
    assert_eq!(otp_seed(&format!("{url}\npw\n")), Ok(url));
    assert_eq!(otp_seed(&format!("pw\n{url}\n")), Ok(url));
    assert_eq!(otp_seed(&format!("pw\nuser\nnote\n{url}")), Ok(url));
}

#[test]
fn otp_seed_is_the_first_of_several() {
    let text = "pw\notpauth://totp/first\nnote\notpauth://totp/second\n";
    assert_eq!(otp_seed(text), Ok("otpauth://totp/first"));
}

#[test]
fn otp_seed_must_begin_its_line() {
    assert_eq!(otp_seed("pw\n otpauth://totp/x\n"), Err(ExtractionError::NoOtpUrl));
    assert_eq!(otp_seed("pw\nurl: otpauth://totp/x\n"), Err(ExtractionError::NoOtpUrl));
    assert_eq!(otp_seed("pw\nOTPAUTH://totp/x\n"), Err(ExtractionError::NoOtpUrl));
    assert_eq!(otp_seed("pw\notpauth:/totp/x\n"), Err(ExtractionError::NoOtpUrl));
}

#[test]
fn otp_seed_may_be_missing() {
    assert_eq!(otp_seed(""), Err(ExtractionError::NoOtpUrl));
    assert_eq!(otp_seed("pw\nalice\n"), Err(ExtractionError::NoOtpUrl));
}

#[test]
fn otp_seed_may_be_the_bare_prefix() {
    assert_eq!(otp_seed("pw\notpauth://\n"), Ok("otpauth://"));
}

#[test]
fn lines_are_those_of_std() {
    let samples = [
        "",
        "\n",
        "\n\n",
        "a",
        "a\n",
        "a\nb",
        "a\n\nb\n",
        "a\r\nb\r\n",
        "a\rb\n",
        "a\r",
        "\r\n",
        "\r",
        "\r\r\n\r",
        "ü\n€\r\n𝄞",
        "one\ntwo\nthree\n\n\n",
    ];
    for text in samples {
        let expected: Vec<&str> = text.lines().collect();
        assert_eq!(split_lines(text), expected, "lines of {text:?}");
    }
}

#[test]
fn starts_with_compares_characters() {
    assert!(starts_with("otpauth://totp", "otpauth://"));
    assert!(starts_with("abc", ""));
    assert!(starts_with("", ""));
    assert!(starts_with("abc", "abc"));
    assert!(!starts_with("ab", "abc"));
    assert!(!starts_with("xbc", "abc"));
    assert!(!starts_with("", "a"));
    assert!(starts_with("üb", "ü"));
}
