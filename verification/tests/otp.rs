use passepartout::clipboard::EXPIRATION_INTERVAL;
use passepartout::error::{Error, ExtractionError};
use passepartout::operations::{copy_otp, generate_otp};
use passepartout::otp::{parse_seed, url_names_host, Algorithm, OtpParams};

const SHA1_URL: &str =
    "otpauth://totp/Example:alice?secret=GEZDGNBVGY3TQOJQGEZDGNBVGY3TQOJQ&digits=8&issuer=Example";

fn entry(url: &str) -> String {
    format!("hunter2\nalice\n{url}\nnotes\n")
}

#[test]
fn seed_is_read_from_the_url() {
    let params = parse_seed(SHA1_URL).unwrap();
    assert_eq!(params.algorithm, Algorithm::Sha1);
    assert_eq!(params.digits, 8);
    assert_eq!(params.step, 30);
    assert_eq!(params.skew, 1);
    assert_eq!(params.secret, b"12345678901234567890".to_vec());
    assert!(params.is_usable());
}

#[test]
fn seed_has_defaults() {
    let params = parse_seed("otpauth://totp/alice?secret=GEZDGNBVGY3TQOJQGEZDGNBVGY3TQOJQ").unwrap();
    assert_eq!(params.algorithm, Algorithm::Sha1);
    assert_eq!(params.digits, 6);
    assert_eq!(params.step, 30);
}

#[test]
fn seed_names_algorithm_and_period() {
    let url = "otpauth://totp/alice?secret=GEZDGNBVGY3TQOJQGEZDGNBVGY3TQOJQGEZDGNBVGY3TQOJQGEZA&algorithm=SHA256&period=60&digits=7";
    let params = parse_seed(url).unwrap();
    assert_eq!(params.algorithm, Algorithm::Sha256);
    assert_eq!(params.digits, 7);
    assert_eq!(params.step, 60);
    assert_eq!(params.secret, b"12345678901234567890123456789012".to_vec());
}

#[test]
fn codes_are_those_of_rfc_6238_for_sha1() {
    let params = parse_seed(SHA1_URL).unwrap();
    assert_eq!(params.code(59), Ok("94287082".to_string()));
    assert_eq!(params.code(1111111109), Ok("07081804".to_string()));
    assert_eq!(params.code(1234567890), Ok("89005924".to_string()));
    assert_eq!(params.code(20000000000), Ok("65353130".to_string()));
}

#[test]
fn codes_are_those_of_rfc_6238_for_sha256() {
    let params = OtpParams {
        algorithm: Algorithm::Sha256,
        digits: 8,
        skew: 1,
        step: 30,
        secret: b"12345678901234567890123456789012".to_vec(),
    };
    assert_eq!(params.code(59), Ok("46119246".to_string()));
    assert_eq!(params.code(1111111109), Ok("68084774".to_string()));
    assert_eq!(params.code(20000000000), Ok("77737706".to_string()));
}

#[test]
fn codes_are_those_of_rfc_6238_for_sha512() {
    let params = OtpParams {
        algorithm: Algorithm::Sha512,
        digits: 8,
        skew: 1,
        step: 30,
        secret: b"1234567890123456789012345678901234567890123456789012345678901234".to_vec(),
    };
    assert_eq!(params.code(59), Ok("90693936".to_string()));
    assert_eq!(params.code(1234567890), Ok("93441116".to_string()));
}

#[test]
fn code_is_padded_to_its_digits() {
    let params = OtpParams {
        algorithm: Algorithm::Sha1,
        digits: 6,
        skew: 1,
        step: 30,
        secret: b"12345678901234567890".to_vec(),
    };
    assert_eq!(params.code(1111111109), Ok("081804".to_string()));
    assert_eq!(params.code(1234567890), Ok("005924".to_string()));
    for time in [0u64, 1, 29, 30, 59, 86400, u64::MAX] {
        let code = params.code(time).unwrap();
        assert_eq!(code.chars().count(), 6);
        assert!(code.chars().all(|c| c.is_ascii_digit()));
    }
}

#[test]
fn code_stays_within_its_step() {
    let params = parse_seed(SHA1_URL).unwrap();
    assert_eq!(params.code(30), params.code(59));
    assert_eq!(params.code(30), Ok("94287082".to_string()));
    assert_eq!(params.code(60), Ok("37359152".to_string()));
    assert_eq!(params.code(0), Ok("84755224".to_string()));
    let slow = OtpParams { step: 60, ..params };
    assert_eq!(slow.code(0), slow.code(59));
    assert_eq!(slow.code(59), Ok("84755224".to_string()));
    assert_eq!(slow.code(60), Ok("94287082".to_string()));
    assert_eq!(slow.code(119), Ok("94287082".to_string()));
    assert_eq!(slow.code(120), Ok("37359152".to_string()));
}

#[test]
fn code_needs_usable_parameters() {
    let good = OtpParams {
        algorithm: Algorithm::Sha1,
        digits: 6,
        skew: 1,
        step: 30,
        secret: b"12345678901234567890".to_vec(),
    };
    assert!(good.is_usable());
    let no_step = OtpParams { step: 0, ..good.clone() };
    assert!(!no_step.is_usable());
    assert_eq!(no_step.code(59), Err(ExtractionError::InvalidOtpUrl));
    let few_digits = OtpParams { digits: 5, ..good.clone() };
    assert_eq!(few_digits.code(59), Err(ExtractionError::InvalidOtpUrl));
    let many_digits = OtpParams { digits: 9, ..good.clone() };
    assert_eq!(many_digits.code(59), Err(ExtractionError::InvalidOtpUrl));
    let short_secret = OtpParams { secret: b"123456789012345".to_vec(), ..good };
    assert_eq!(short_secret.code(59), Err(ExtractionError::InvalidOtpUrl));
}

#[test]
fn malformed_urls_are_refused() {
    let refused = [
        "otpauth://totp/alice",
        "otpauth://totp/alice?secret=",
        "otpauth://totp/alice?secret=not base32!",
        "otpauth://totp/alice?secret=GEZDGNBVGY3TQOJQ",
        "otpauth://totp/alice?secret=GEZDGNBVGY3TQOJQGEZDGNBVGY3TQOJQ&digits=5",
        "otpauth://totp/alice?secret=GEZDGNBVGY3TQOJQGEZDGNBVGY3TQOJQ&digits=nine",
        "otpauth://totp/alice?secret=GEZDGNBVGY3TQOJQGEZDGNBVGY3TQOJQ&algorithm=MD5",
        "otpauth://totp/alice?secret=GEZDGNBVGY3TQOJQGEZDGNBVGY3TQOJQ&period=x",
        "otpauth://hotp/alice?secret=GEZDGNBVGY3TQOJQGEZDGNBVGY3TQOJQ",
        "otpauth://TOTP/alice?secret=GEZDGNBVGY3TQOJQGEZDGNBVGY3TQOJQ",
        "https://totp/alice?secret=GEZDGNBVGY3TQOJQGEZDGNBVGY3TQOJQ",
        "",
    ];
    for url in refused {
        assert_eq!(parse_seed(url), Err(ExtractionError::InvalidOtpUrl), "{url:?}");
    }
}

#[test]
fn a_period_of_zero_is_refused() {
    let url = "otpauth://totp/alice?secret=GEZDGNBVGY3TQOJQGEZDGNBVGY3TQOJQ&period=0";
    assert_eq!(parse_seed(url), Err(ExtractionError::InvalidOtpUrl));
    assert_eq!(
        generate_otp(&entry(url), Ok(59)),
        Err(Error::Extraction(ExtractionError::InvalidOtpUrl))
    );
}

#[test]
fn a_url_without_a_host_is_refused() {
    let refused = [
        "otpauth://",
        "otpauth:///alice?secret=GEZDGNBVGY3TQOJQGEZDGNBVGY3TQOJQ",
        "otpauth://?secret=GEZDGNBVGY3TQOJQGEZDGNBVGY3TQOJQ",
        "otpauth://#x",
        "otpauth://:80/alice",
        "otpauth:// ",
        "otpauth://\t",
        "otpauth://\ttotp/alice?secret=GEZDGNBVGY3TQOJQGEZDGNBVGY3TQOJQ",
        "otpauth://@totp/alice?secret=GEZDGNBVGY3TQOJQGEZDGNBVGY3TQOJQ",
    ];
    for url in refused {
        assert!(!url_names_host(url), "{url:?}");
        assert_eq!(parse_seed(url), Err(ExtractionError::InvalidOtpUrl), "{url:?}");
    }
}

#[test]
fn a_host_is_named_right_after_the_scheme() {
    assert!(url_names_host("otpauth://totp/alice"));
    assert!(url_names_host("otpauth://t"));
    assert!(url_names_host("otpauth://[::1]/x"));
    assert!(!url_names_host("otpauth:/totp/alice"));
    assert!(!url_names_host("otpauth"));
    assert!(!url_names_host("xotpauth://totp/alice"));
}

#[test]
fn odd_hosts_are_refused_without_harm() {
    let refused = [
        "otpauth://user@/alice?secret=GEZDGNBVGY3TQOJQGEZDGNBVGY3TQOJQ",
        "otpauth://a@\t/alice",
        "otpauth://[::1]/alice?secret=GEZDGNBVGY3TQOJQGEZDGNBVGY3TQOJQ",
        "otpauth://[/alice",
        "otpauth://to tp/alice",
        "otpauth://%zz/alice",
        "otpauth://totp:99999/alice",
    ];
    for url in refused {
        assert_eq!(parse_seed(url), Err(ExtractionError::InvalidOtpUrl), "{url:?}");
    }
}

#[test]
fn a_host_with_credentials_or_port_is_read() {
    let url = "otpauth://user:pw@totp:80/alice?secret=GEZDGNBVGY3TQOJQGEZDGNBVGY3TQOJQ";
    assert_eq!(parse_seed(url).unwrap().code(59), Ok("287082".to_string()));
}

#[test]
fn otp_is_generated_from_the_entry() {
    assert_eq!(generate_otp(&entry(SHA1_URL), Ok(59)), Ok("94287082".to_string()));
    assert_eq!(generate_otp(&format!("{SHA1_URL}\npw"), Ok(1111111109)), Ok("07081804".to_string()));
}

#[test]
fn otp_needs_a_url_line() {
    assert_eq!(
        generate_otp("hunter2\nalice\n", Ok(59)),
        Err(Error::Extraction(ExtractionError::NoOtpUrl))
    );
    assert_eq!(generate_otp("", Ok(59)), Err(Error::Extraction(ExtractionError::NoOtpUrl)));
}

#[test]
fn otp_uses_the_first_url_line_only() {
    let text = format!("pw\notpauth://totp/broken\n{SHA1_URL}\n");
    assert_eq!(
        generate_otp(&text, Ok(59)),
        Err(Error::Extraction(ExtractionError::InvalidOtpUrl))
    );
}

#[test]
fn a_failed_clock_counts_last() {
    assert_eq!(
        generate_otp(&entry(SHA1_URL), Err("clock went backwards".to_string())),
        Err(Error::Pass("failed to generate OTP: clock went backwards".to_string()))
    );
    assert_eq!(
        generate_otp("pw\n", Err("clock went backwards".to_string())),
        Err(Error::Extraction(ExtractionError::NoOtpUrl))
    );
    assert_eq!(
        generate_otp(&entry("otpauth://totp/x"), Err("clock went backwards".to_string())),
        Err(Error::Extraction(ExtractionError::InvalidOtpUrl))
    );
}

#[test]
fn copied_otp_expires() {
    let copy = copy_otp(&entry(SHA1_URL), Ok(59)).unwrap();
    assert_eq!(copy.text, "94287082");
    assert_eq!(copy.expiry, Some(EXPIRATION_INTERVAL));
    assert_eq!(
        copy_otp("pw\n", Ok(59)),
        Err(Error::Extraction(ExtractionError::NoOtpUrl))
    );
    assert_eq!(
        copy_otp(&entry(SHA1_URL), Err("no clock".to_string())),
        Err(Error::Pass("failed to generate OTP: no clock".to_string()))
    );
}
