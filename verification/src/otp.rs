//! Time-based one-time passwords from a provisioning URL.

use vstd::prelude::*;

use crate::error::ExtractionError;
use crate::extract::otp_prefix;
use crate::text::{chars_of, has_prefix, starts_with};

verus! {

/// The hash under the one-time password.
#[derive(Debug, Clone, Copy, PartialEq, Eq, Structural)]
pub enum Algorithm {
    Sha1,
    Sha256,
    Sha512,
}

/// What a provisioning URL says of a one-time password.
#[derive(Debug, Clone, PartialEq, Eq)]
pub struct OtpParams {
    pub algorithm: Algorithm,
    /// How many digits a code has.
    pub digits: usize,
    /// How many steps before and after the current one a verifier lets pass.
    pub skew: u8,
    /// How many seconds a code stays the same.
    pub step: u64,
    /// The shared secret, decoded.
    pub secret: Vec<u8>,
}

/// `OtpParams` as plain values.
pub struct OtpSpec {
    pub algorithm: Algorithm,
    pub digits: nat,
    pub skew: nat,
    pub step: nat,
    pub secret: Seq<u8>,
}

impl View for OtpParams {
    type V = OtpSpec;

    open spec fn view(&self) -> OtpSpec {
        OtpSpec {
            algorithm: self.algorithm,
            digits: self.digits as nat,
            skew: self.skew as nat,
            step: self.step as nat,
            secret: self.secret@,
        }
    }
}

impl OtpSpec {
    /// A code can be computed: 6 to 8 digits, a secret of 128 bits or more,
    /// and a step that is not zero.
    pub open spec fn usable(self) -> bool {
        &&& 6 <= self.digits <= 8
        &&& self.secret.len() >= 16
        &&& self.step > 0
    }
}

/// The error that `totp_rs` parses a URL with.
#[verifier::external_type_specification]
#[verifier::external_body]
pub struct ExTotpUrlError(totp_rs::TotpUrlError);

/// What `totp_rs::TOTP::from_url` makes of `url`: the parameters, or nothing
/// where it refuses the URL.
pub uninterp spec fn parsed_otp_url(url: Seq<char>) -> Option<OtpSpec>;

/// The code that `totp_rs::TOTP::generate` computes for the `counter`-th time
/// step: the HMAC-based one-time password of the secret and the counter,
/// cut to `digits` decimal digits.
pub uninterp spec fn hotp_code(algorithm: Algorithm, digits: nat, secret: Seq<u8>, counter: nat) -> Seq<char>;

/// A decimal digit.
pub open spec fn is_digit(c: char) -> bool {
    '0' <= c <= '9'
}

/// `url` names a host right after `otpauth://`: a character stands there that
/// is no blank or control character and neither ends nor splits the
/// authority.
pub open spec fn names_host(url: Seq<char>) -> bool {
    &&& has_prefix(url, otp_prefix())
    &&& url.len() > 10
    &&& url[10] > ' '
    &&& url[10] != '/'
    &&& url[10] != '?'
    &&& url[10] != '#'
    &&& url[10] != ':'
    &&& url[10] != '@'
}

/// The parameters that `url` gives, where a code can be computed from them.
pub open spec fn usable_seed(url: Seq<char>) -> Option<OtpSpec> {
    if names_host(url) {
        match parsed_otp_url(url) {
            Some(params) => if params.usable() {
                Some(params)
            } else {
                None
            },
            None => None,
        }
    } else {
        None
    }
}

/// The code of `params` at `time`, in seconds since the Unix epoch: that of
/// the time step `time` falls in.
pub open spec fn code_at(params: OtpSpec, time: nat) -> Seq<char> {
    hotp_code(params.algorithm, params.digits, params.secret, time / params.step)
}

/// Calls `totp_rs::TOTP::from_url`, which parses the URL and checks it as
/// RFC 6238 asks: on success the digits are 6 to 8, the secret has 16 bytes
/// or more, and the skew is 1. It fails on a URL without a host by a panic,
/// which `names_host` rules out.
#[verifier::external_body]
fn parse_url(url: &str) -> (parsed: Result<OtpParams, totp_rs::TotpUrlError>)
    requires
        names_host(url@),
    ensures
        parsed is Ok <==> parsed_otp_url(url@) is Some,
        parsed matches Ok(params) ==> {
            &&& Some(params@) == parsed_otp_url(url@)
            &&& 6 <= params.digits <= 8
            &&& params.secret@.len() >= 16
            &&& params.skew == 1
        },
{
    let totp = totp_rs::TOTP::from_url(url)?;
    Ok(
        OtpParams {
            algorithm: match totp.algorithm {
                totp_rs::Algorithm::SHA1 => Algorithm::Sha1,
                totp_rs::Algorithm::SHA256 => Algorithm::Sha256,
                totp_rs::Algorithm::SHA512 => Algorithm::Sha512,
            },
            digits: totp.digits,
            skew: totp.skew,
            step: totp.step,
            secret: totp.secret,
        },
    )
}

/// Calls `totp_rs::TOTP::generate`, which signs the number of the time step,
/// `time / step`, and prints the truncated result in exactly `digits`
/// decimal digits, padded with zeros. It divides by `step` and raises 10 to
/// `digits` in 32 bits, which the `requires` keeps from failing.
#[verifier::external_body]
fn generate(params: &OtpParams, time: u64) -> (code: String)
    requires
        params.step > 0,
        1 <= params.digits <= 9,
    ensures
        code@ == hotp_code(
            params.algorithm,
            params.digits as nat,
            params.secret@,
            (time / params.step) as nat,
        ),
        code@.len() == params.digits,
        forall|i: int| 0 <= i < code@.len() ==> is_digit(#[trigger] code@[i]),
{
    let totp = totp_rs::TOTP {
        algorithm: match params.algorithm {
            Algorithm::Sha1 => totp_rs::Algorithm::SHA1,
            Algorithm::Sha256 => totp_rs::Algorithm::SHA256,
            Algorithm::Sha512 => totp_rs::Algorithm::SHA512,
        },
        digits: params.digits,
        skew: params.skew,
        step: params.step,
        secret: params.secret.clone(),
        issuer: None,
        account_name: String::new(),
    };
    totp.generate(time)
}

/// Whether `url` names a host right after `otpauth://`.
pub fn url_names_host(url: &str) -> (named: bool)
    ensures
        named == names_host(url@),
{
    if !starts_with(url, "otpauth://") {
        return false;
    }
    proof {
        reveal_strlit("otpauth://");
    }
    let chars = chars_of(url);
    if chars.len() <= 10 {
        return false;
    }
    let c = chars[10];
    c > ' ' && c != '/' && c != '?' && c != '#' && c != ':' && c != '@'
}

impl OtpParams {
    /// Whether a code can be computed from these parameters.
    pub fn is_usable(&self) -> (usable: bool)
        ensures
            usable == self@.usable(),
    {
        6 <= self.digits && self.digits <= 8 && self.secret.len() >= 16 && self.step > 0
    }

    /// The one-time password at `time`, in seconds since the Unix epoch, or
    /// `InvalidOtpUrl` where the parameters are not usable. The code has
    /// `digits` decimal digits and stays the same within a time step.
    pub fn code(&self, time: u64) -> (code: Result<String, ExtractionError>)
        ensures
            code is Ok <==> self@.usable(),
            match code {
                Ok(digits) => {
                    &&& digits@ == code_at(self@, time as nat)
                    &&& digits@.len() == self.digits
                    &&& forall|i: int| 0 <= i < digits@.len() ==> is_digit(#[trigger] digits@[i])
                },
                Err(lack) => lack == ExtractionError::InvalidOtpUrl,
            },
    {
        if self.is_usable() {
            Ok(generate(self, time))
        } else {
            Err(ExtractionError::InvalidOtpUrl)
        }
    }
}

/// Reads a provisioning URL. It is accepted where it names its host right
/// after `otpauth://`, parses, and gives usable parameters; every other URL
/// is `InvalidOtpUrl`.
pub fn parse_seed(url: &str) -> (seed: Result<OtpParams, ExtractionError>)
    ensures
        match seed {
            Ok(params) => usable_seed(url@) == Some(params@) && params@.usable(),
            Err(lack) => lack == ExtractionError::InvalidOtpUrl && usable_seed(url@) is None,
        },
{
    if !url_names_host(url) {
        return Err(ExtractionError::InvalidOtpUrl);
    }
    match parse_url(url) {
        Ok(params) => {
            if params.is_usable() {
                Ok(params)
            } else {
                Err(ExtractionError::InvalidOtpUrl)
            }
        },
        Err(_) => Err(ExtractionError::InvalidOtpUrl),
    }
}

/// Within one time step the code does not change.
pub proof fn lemma_code_constant_within_step(params: OtpSpec, earlier: nat, later: nat)
    requires
        params.step > 0,
        earlier / params.step == later / params.step,
    ensures
        code_at(params, earlier) == code_at(params, later),
{
}

} // verus!
