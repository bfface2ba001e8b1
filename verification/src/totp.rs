//! Time-based one-time passwords, computed by the `totp-rs` crate.

use vstd::prelude::*;
use crate::db::TotpAlgorithm;

verus! {

/// The number of digits of a code.
pub const TOTP_DIGITS: usize = 6;

/// How many steps before and after the current one are accepted.
pub const TOTP_SKEW: u8 = 1;

/// The length of a step in seconds.
pub const TOTP_STEP: u64 = 30;

/// The algorithm that new secrets are used with.
pub const TOTP_ALGORITHM: TotpAlgorithm = TotpAlgorithm::SHA256;

/// The number of bytes in a freshly drawn secret.
pub const TOTP_SECRET_LEN: usize = 20;

/// Why a TOTP computation gave no answer.
#[derive(Clone, Copy, Debug, PartialEq, Eq, Structural)]
pub enum TotpFailure {
    /// The parameters are not acceptable: see [`totp_parameters_valid`].
    Parameters,
    /// The system clock could not be read as a time after 1970.
    Clock,
    /// No picture could be drawn.
    Drawing,
}

/// The parameters that `totp-rs` accepts: six to eight digits, a secret of
/// at least 128 bits, and no colon in the issuer or in the account name.
pub open spec fn totp_parameters_valid(
    digits: usize,
    secret: Seq<u8>,
    issuer: Seq<char>,
    account_name: Seq<char>,
) -> bool {
    6 <= digits <= 8 && secret.len() >= 16 && !issuer.contains(':') && !account_name.contains(':')
}

/// The base32 text (RFC 4648, no padding) of a secret.
pub uninterp spec fn base32_text(secret: Seq<u8>) -> Seq<char>;

/// The secret that a base32 text (RFC 4648, no padding) stands for, if it
/// stands for one.
pub uninterp spec fn base32_secret(text: Seq<char>) -> Option<Seq<u8>>;

/// The picture of the QR code that enrolls a secret in an authenticator
/// app: a PNG in base64, or `None` where it cannot be drawn.
pub uninterp spec fn qr_picture(
    algorithm: TotpAlgorithm,
    digits: usize,
    step: u64,
    secret: Seq<u8>,
    issuer: Seq<char>,
    account_name: Seq<char>,
) -> Option<Seq<char>>;

/// Draws a secret with `Secret::generate_secret`, which fills 20 bytes from
/// the thread's random number generator.
#[verifier::external_body]
pub(crate) fn generate_secret() -> (secret: Vec<u8>)
    ensures
        secret@.len() == 20,
{
    totp_rs::Secret::generate_secret().to_bytes().unwrap()
}

/// Writes a secret in base32 with `Secret::to_encoded`.
#[verifier::external_body]
pub(crate) fn encode_secret(secret: &[u8]) -> (text: String)
    ensures
        text@ == base32_text(secret@),
{
    totp_rs::Secret::Raw(secret.to_vec()).to_encoded().to_string()
}

/// Reads a secret from base32 with `Secret::to_bytes`, which fails where the
/// text is no base32.
#[verifier::external_body]
pub(crate) fn decode_secret(text: &str) -> (secret: Option<Vec<u8>>)
    ensures
        match secret {
            Some(s) => base32_secret(text@) == Some(s@),
            None => base32_secret(text@) is None,
        },
{
    totp_rs::Secret::Encoded(text.to_string()).to_bytes().ok()
}

/// All that a check of a code reads: the parameters of the secret, whose
/// code it is, and the code to check.
pub struct TotpCheck {
    pub algorithm: TotpAlgorithm,
    pub digits: usize,
    pub skew: u8,
    pub step: u64,
    pub secret: Vec<u8>,
    pub issuer: String,
    pub account_name: String,
    pub code: String,
}

/// Builds a `TOTP` with `TOTP::new` from what `check` holds and asks
/// `check_current` whether its code is the code of the current step or of
/// one within the skew. `TOTP::new` refuses exactly the parameters that are
/// not valid; what `check_current` answers depends on the clock. The step
/// must not be zero, and skew times step must stay below the clock's reading,
/// for which any time after 2001 is taken.
#[verifier::external_body]
pub(crate) fn check_current(check: TotpCheck) -> (outcome: Result<bool, TotpFailure>)
    requires
        0 < check.step,
        check.skew * check.step <= 1_000_000_000,
    ensures
        (outcome matches Err(TotpFailure::Parameters)) <==> !totp_parameters_valid(
            check.digits,
            check.secret@,
            check.issuer@,
            check.account_name@,
        ),
{
    let algorithm = match check.algorithm {
        TotpAlgorithm::SHA1 => totp_rs::Algorithm::SHA1,
        TotpAlgorithm::SHA256 => totp_rs::Algorithm::SHA256,
        TotpAlgorithm::SHA512 => totp_rs::Algorithm::SHA512,
    };
    let TotpCheck { digits, skew, step, secret, issuer, account_name, code, .. } = check;
    match totp_rs::TOTP::new(algorithm, digits, skew, step, secret, Some(issuer), account_name) {
        Err(_) => Err(TotpFailure::Parameters),
        Ok(totp) => totp.check_current(&code).map_err(|_| TotpFailure::Clock),
    }
}

/// Builds a `TOTP` with `TOTP::new` and draws its QR code with
/// `get_qr_base64`. `TOTP::new` refuses exactly the parameters that are not
/// valid; the picture depends on the parameters alone.
#[verifier::external_body]
pub(crate) fn draw_qr(
    algorithm: TotpAlgorithm,
    digits: usize,
    skew: u8,
    step: u64,
    secret: Vec<u8>,
    issuer: String,
    account_name: String,
) -> (picture: Result<String, TotpFailure>)
    ensures
        match picture {
            Ok(p) => totp_parameters_valid(digits, secret@, issuer@, account_name@) && qr_picture(
                algorithm,
                digits,
                step,
                secret@,
                issuer@,
                account_name@,
            ) == Some(p@),
            Err(TotpFailure::Parameters) => !totp_parameters_valid(
                digits,
                secret@,
                issuer@,
                account_name@,
            ),
            Err(TotpFailure::Drawing) => totp_parameters_valid(
                digits,
                secret@,
                issuer@,
                account_name@,
            ) && qr_picture(algorithm, digits, step, secret@, issuer@, account_name@) is None,
            Err(TotpFailure::Clock) => false,
        },
{
    let algorithm = match algorithm {
        TotpAlgorithm::SHA1 => totp_rs::Algorithm::SHA1,
        TotpAlgorithm::SHA256 => totp_rs::Algorithm::SHA256,
        TotpAlgorithm::SHA512 => totp_rs::Algorithm::SHA512,
    };
    match totp_rs::TOTP::new(algorithm, digits, skew, step, secret, Some(issuer), account_name) {
        Err(_) => Err(TotpFailure::Parameters),
        Ok(totp) => totp.get_qr_base64().map_err(|_| TotpFailure::Drawing),
    }
}

} // verus!
