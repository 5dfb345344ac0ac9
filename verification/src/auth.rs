//! Signing in, passwords, one-time codes sent by email, and the setup of an
//! authenticator app.
use vstd::prelude::*;
use vstd::string::*;
use vstd::utf8::encode_utf8;

use crate::config::{JWT_EXPRIED_TIME, OTP_ISSUER};
use crate::repositories::UserUpdate;
use crate::roles::{role_name, role_str, RoleEnum};
use crate::text::{concat, concat3, refusal_of, result_view, str_eq};

verus! {

// ---------------------------------------------------------------------------
// Requests and answers
// ---------------------------------------------------------------------------

/// Credentials of a sign-in, with the authenticator code when MFA is on.
pub struct LoginRequest {
    pub email: String,
    pub password: String,
    pub authenticator_code: Option<String>,
}

/// A granted sign-in.
pub struct LoginResponse {
    pub access_token: String,
    pub token_type: String,
    pub expires_in: i64,
    pub user_id: String,
    pub email: String,
    pub role: String,
}

/// A refresh of an access token.
pub struct RefreshTokenRequest {
    pub refresh_token: String,
}

/// The answer to a sign-out.
pub struct LogoutResponse {
    pub message: String,
}

/// A request for a password-reset code.
pub struct ForgotPasswordRequest {
    pub email: String,
}

/// The answer to a request for a password-reset code.
pub struct ForgotPasswordResponse {
    pub message: String,
}

/// A password reset with the code that was mailed.
pub struct ResetPasswordRequest {
    pub email: String,
    pub otp_code: String,
    pub new_password: String,
}

/// The answer to a password reset.
pub struct ResetPasswordResponse {
    pub message: String,
}

/// A password change by a signed-in user.
pub struct ChangePasswordRequest {
    pub old_password: String,
    pub new_password: String,
}

/// The answer to a password change.
pub struct ChangePasswordResponse {
    pub message: String,
}

/// The answer granted to a sign-in: a bearer token valid for `JWT_EXPRIED_TIME`
/// seconds, with the account's id, email and role name.
pub fn login_response(access_token: String, user_id: String, email: String, role: RoleEnum) -> (r:
    LoginResponse)
    ensures
        r.access_token == access_token,
        r.token_type@ == "Bearer"@,
        r.expires_in == JWT_EXPRIED_TIME,
        r.user_id == user_id,
        r.email == email,
        r.role@ == role_name(role),
{
    LoginResponse {
        access_token,
        token_type: String::from_str("Bearer"),
        expires_in: JWT_EXPRIED_TIME,
        user_id,
        email,
        role: String::from_str(role_str(role)),
    }
}

impl LogoutResponse {
    /// The answer to a completed sign-out.
    pub fn done() -> (r: Self)
        ensures
            r.message@ == "Logout successful"@,
    {
        LogoutResponse { message: String::from_str("Logout successful") }
    }
}

impl ForgotPasswordResponse {
    /// The answer once the reset code has been queued for mailing.
    pub fn sent() -> (r: Self)
        ensures
            r.message@ == "OTP code has been sent to your email"@,
    {
        ForgotPasswordResponse { message: String::from_str("OTP code has been sent to your email") }
    }
}

impl ResetPasswordResponse {
    /// The answer to a completed password reset.
    pub fn done() -> (r: Self)
        ensures
            r.message@ == "Password has been reset successfully"@,
    {
        ResetPasswordResponse { message: String::from_str("Password has been reset successfully") }
    }
}

impl ChangePasswordResponse {
    /// The answer to a completed password change.
    pub fn done() -> (r: Self)
        ensures
            r.message@ == "Password has been changed successfully"@,
    {
        ChangePasswordResponse { message: String::from_str("Password has been changed successfully") }
    }
}

/// The refusal of a sign-in whose email matches no live account.
pub fn unknown_login_refusal() -> (e: (u16, String))
    ensures
        e.0 == 401,
        e.1@ == "Invalid email or password, or account has been deleted"@,
{
    (401, String::from_str("Invalid email or password, or account has been deleted"))
}

/// The refusal of a password-reset step whose email matches no account.
pub fn unknown_email_refusal() -> (e: (u16, String))
    ensures
        e.0 == 404,
        e.1@ == "User not found with this email"@,
{
    (404, String::from_str("User not found with this email"))
}

// ---------------------------------------------------------------------------
// Passwords
// ---------------------------------------------------------------------------

/// What `bcrypt::verify` gives for a password and a stored hash: whether they match,
/// or the text of its error (a malformed hash).
pub uninterp spec fn bcrypt_verify_outcome(password: Seq<char>, hash: Seq<char>) -> Result<
    bool,
    Seq<char>,
>;

/// Calls `bcrypt::verify`, taking its error by its `Display` text. The outcome is a
/// function of the password and the hash alone (the salt and cost are read from the
/// hash), named `bcrypt_verify_outcome`; which pairs match is not stated here.
#[verifier::external_body]
fn bcrypt_verify(password: &str, hash: &str) -> (r: Result<bool, String>)
    ensures
        result_view(r) == bcrypt_verify_outcome(password@, hash@),
{
    match bcrypt::verify(password, hash) {
        Ok(b) => Ok(b),
        Err(e) => Err(e.to_string()),
    }
}

/// Calls `bcrypt::hash` with `bcrypt::DEFAULT_COST` (12), taking its error by its
/// `Display` text. The salt is drawn from the operating system, so which hash comes
/// back is not claimed, nor that the call succeeds (it fails only when no randomness
/// can be had). A hash that comes back is the 60-character `$2b$` form, and
/// `bcrypt::verify` accepts the same password against it: it re-hashes the password
/// with the salt and cost read from the hash and compares.
#[verifier::external_body]
fn bcrypt_hash(password: &str) -> (r: Result<String, String>)
    ensures
        match r {
            Ok(h) => h@.len() == 60 && bcrypt_verify_outcome(password@, h@) == Ok::<bool, Seq<char>>(
                true,
            ),
            Err(_) => true,
        },
{
    match bcrypt::hash(password, bcrypt::DEFAULT_COST) {
        Ok(h) => Ok(h),
        Err(e) => Err(e.to_string()),
    }
}

/// How a password check is answered: a verification error is a 500, a mismatch is
/// refused with 401 and `wrong`, a match lets the request go on.
pub open spec fn password_refusal(outcome: Result<bool, Seq<char>>, wrong: Seq<char>) -> Option<
    (u16, Seq<char>),
> {
    match outcome {
        Err(e) => Some((500u16, "Password verification error: "@ + e)),
        Ok(true) => None,
        Ok(false) => Some((401u16, wrong)),
    }
}

/// Answers the outcome of a password check.
pub fn password_decision(outcome: Result<bool, String>, wrong: &str) -> (r: Result<(), (u16, String)>)
    ensures
        refusal_of(r) == password_refusal(result_view(outcome), wrong@),
{
    match outcome {
        Err(e) => Err((500, concat("Password verification error: ", e.as_str()))),
        Ok(true) => Ok(()),
        Ok(false) => Err((401, String::from_str(wrong))),
    }
}

/// Checks the password of a sign-in against the stored hash.
pub fn check_login_password(password: &str, hash: &str) -> (r: Result<(), (u16, String)>)
    ensures
        refusal_of(r) == password_refusal(
            bcrypt_verify_outcome(password@, hash@),
            "Invalid email or password"@,
        ),
{
    let outcome = bcrypt_verify(password, hash);
    password_decision(outcome, "Invalid email or password")
}

/// Checks the old password of a password change against the stored hash.
pub fn check_old_password(old_password: &str, hash: &str) -> (r: Result<(), (u16, String)>)
    ensures
        refusal_of(r) == password_refusal(
            bcrypt_verify_outcome(old_password@, hash@),
            "Old password is incorrect"@,
        ),
{
    let outcome = bcrypt_verify(old_password, hash);
    password_decision(outcome, "Old password is incorrect")
}

/// Hashes a password to be stored. When hashing fails the refusal is a 500
/// `Failed to hash password: <error>`.
pub fn hashed_password(password: &str) -> (r: Result<String, (u16, String)>)
    ensures
        match r {
            Ok(h) => h@.len() == 60 && bcrypt_verify_outcome(password@, h@) == Ok::<bool, Seq<char>>(
                true,
            ),
            Err((code, msg)) => code == 500 && exists|e: Seq<char>|
                msg@ == "Failed to hash password: "@ + e,
        },
{
    match bcrypt_hash(password) {
        Ok(h) => Ok(h),
        Err(e) => {
            let msg = concat("Failed to hash password: ", e.as_str());
            assert(msg@ == "Failed to hash password: "@ + e@);
            Err((500, msg))
        },
    }
}

/// The first steps of a sign-in, in order: the account must exist (`hash` is its
/// stored hash), the password must match, then, when MFA is on, a code must be
/// given. `Ok(None)` lets the sign-in through; `Ok(Some(code))` asks for the code to
/// be checked next.
pub open spec fn sign_in_step(
    hash: Option<Seq<char>>,
    password: Seq<char>,
    mfa_enabled: bool,
    code: Option<Seq<char>>,
) -> Result<Option<Seq<char>>, (u16, Seq<char>)> {
    match hash {
        None => Err((401u16, "Invalid email or password, or account has been deleted"@)),
        Some(h) => match password_refusal(bcrypt_verify_outcome(password, h), "Invalid email or password"@) {
            Some(e) => Err(e),
            None => if !mfa_enabled {
                Ok(None)
            } else {
                match code {
                    None => Err((400u16, "MFA is enabled. Please provide authenticator_code"@)),
                    Some(c) => Ok(Some(c)),
                }
            },
        },
    }
}

/// Takes a sign-in through its first steps.
pub fn sign_in_checks(hash: Option<&str>, password: &str, mfa_enabled: bool, code: Option<&str>) -> (r:
    Result<Option<String>, (u16, String)>)
    ensures
        match (
            r,
            sign_in_step(
                match hash {
                    Some(h) => Some(h@),
                    None => None,
                },
                password@,
                mfa_enabled,
                match code {
                    Some(c) => Some(c@),
                    None => None,
                },
            ),
        ) {
            (Ok(None), Ok(None)) => true,
            (Ok(Some(a)), Ok(Some(b))) => a@ == b,
            (Err((c, m)), Err((c2, m2))) => c == c2 && m@ == m2,
            _ => false,
        },
{
    let h = match hash {
        None => {
            return Err(unknown_login_refusal());
        },
        Some(h) => h,
    };
    match check_login_password(password, h) {
        Err(e) => {
            return Err(e);
        },
        Ok(()) => {},
    }
    if !mfa_enabled {
        return Ok(None);
    }
    match code {
        None => Err(
            (400, String::from_str("MFA is enabled. Please provide authenticator_code")),
        ),
        Some(c) => Ok(Some(String::from_str(c))),
    }
}

/// A wrong password is refused before MFA is looked at: the refusal is the same
/// whether MFA is on and whatever code is given.
pub proof fn lemma_password_before_mfa(
    h: Seq<char>,
    password: Seq<char>,
    m1: bool,
    c1: Option<Seq<char>>,
    m2: bool,
    c2: Option<Seq<char>>,
)
    requires
        bcrypt_verify_outcome(password, h) != Ok::<bool, Seq<char>>(true),
    ensures
        sign_in_step(Some(h), password, m1, c1) is Err,
        sign_in_step(Some(h), password, m1, c1) == sign_in_step(Some(h), password, m2, c2),
{
}

/// The account update that stores a new password, hashed. When hashing fails the
/// refusal is a 500 `Failed to hash password: <error>`.
pub fn password_update(new_password: &str) -> (r: Result<UserUpdate, (u16, String)>)
    ensures
        match r {
            Ok(u) => {
                &&& u.password matches Some(h) && h@.len() == 60 && bcrypt_verify_outcome(
                    new_password@,
                    h@,
                ) == Ok::<bool, Seq<char>>(true)
                &&& u.first_name is None && u.last_name is None && u.address is None
                &&& u.email is None && u.cccd is None && u.phone_number is None
                &&& u.role is None && u.is_priority is None && u.is_first_login is None
            },
            Err((code, msg)) => code == 500 && exists|e: Seq<char>|
                msg@ == "Failed to hash password: "@ + e,
        },
{
    match hashed_password(new_password) {
        Ok(h) => Ok(UserUpdate::password_only(h)),
        Err(e) => Err(e),
    }
}

/// A password that has just been stored is accepted at the next sign-in: when the
/// stored hash verifies the password, the sign-in check lets it through, and so
/// does the old-password check of a later change.
pub proof fn lemma_new_password_signs_in(password: Seq<char>, hash: Seq<char>)
    requires
        bcrypt_verify_outcome(password, hash) == Ok::<bool, Seq<char>>(true),
    ensures
        password_refusal(bcrypt_verify_outcome(password, hash), "Invalid email or password"@)
            is None,
        password_refusal(bcrypt_verify_outcome(password, hash), "Old password is incorrect"@)
            is None,
{
}

// ---------------------------------------------------------------------------
// One-time codes sent by email
// ---------------------------------------------------------------------------

/// The latest one-time code issued to an account for one purpose. Instants are
/// microseconds since the Unix epoch.
pub struct OtpRecord {
    pub otp_code: String,
    pub is_verified: bool,
    pub expires_at: i64,
}

/// Whether a code is accepted: it is the one issued, it has not been used, and it
/// has not expired at `now`.
pub open spec fn otp_accepts(rec: OtpRecord, code: Seq<char>, now: int) -> bool {
    &&& rec.otp_code@ == code
    &&& !rec.is_verified
    &&& !(rec.expires_at < now)
}

/// How a password reset answers its code: no code issued is a 404; then a used
/// code, an expired one and a wrong one are refused with 400, in that order.
pub open spec fn reset_otp_refusal(rec: Option<OtpRecord>, code: Seq<char>, now: int) -> Option<
    (u16, Seq<char>),
> {
    match rec {
        None => Some((404u16, "OTP not found. Please request a new OTP"@)),
        Some(r) => if r.is_verified {
            Some((400u16, "OTP has already been used"@))
        } else if r.expires_at < now {
            Some((400u16, "OTP has expired. Please request a new OTP"@))
        } else if r.otp_code@ != code {
            Some((400u16, "Invalid OTP code"@))
        } else {
            None
        },
    }
}

/// How enabling MFA answers its code: no code issued is a 404; then a wrong code, a
/// used one and an expired one are refused with 400, in that order.
pub open spec fn enable_mfa_otp_refusal(rec: Option<OtpRecord>, code: Seq<char>, now: int) -> Option<
    (u16, Seq<char>),
> {
    match rec {
        None => Some((404u16, "OTP verification not found"@)),
        Some(r) => if r.otp_code@ != code {
            Some((400u16, "Invalid OTP code"@))
        } else if r.is_verified {
            Some((400u16, "OTP code already verified"@))
        } else if r.expires_at < now {
            Some((400u16, "OTP code has expired"@))
        } else {
            None
        },
    }
}

/// Checks the code of a password reset against the latest code issued for it.
pub fn check_reset_otp(rec: &Option<OtpRecord>, code: &str, now: i64) -> (r: Result<(), (u16, String)>)
    ensures
        refusal_of(r) == reset_otp_refusal(*rec, code@, now as int),
{
    match rec {
        None => Err((404, String::from_str("OTP not found. Please request a new OTP"))),
        Some(record) => {
            if record.is_verified {
                Err((400, String::from_str("OTP has already been used")))
            } else if record.expires_at < now {
                Err((400, String::from_str("OTP has expired. Please request a new OTP")))
            } else if !str_eq(record.otp_code.as_str(), code) {
                Err((400, String::from_str("Invalid OTP code")))
            } else {
                Ok(())
            }
        },
    }
}

/// Checks the code that enables MFA against the latest code issued for it.
pub fn check_enable_mfa_otp(rec: &Option<OtpRecord>, code: &str, now: i64) -> (r: Result<
    (),
    (u16, String),
>)
    ensures
        refusal_of(r) == enable_mfa_otp_refusal(*rec, code@, now as int),
{
    match rec {
        None => Err((404, String::from_str("OTP verification not found"))),
        Some(record) => {
            if !str_eq(record.otp_code.as_str(), code) {
                Err((400, String::from_str("Invalid OTP code")))
            } else if record.is_verified {
                Err((400, String::from_str("OTP code already verified")))
            } else if record.expires_at < now {
                Err((400, String::from_str("OTP code has expired")))
            } else {
                Ok(())
            }
        },
    }
}

/// Marks a code as used.
pub fn mark_verified(rec: &mut OtpRecord)
    ensures
        final(rec).is_verified,
        final(rec).otp_code == old(rec).otp_code,
        final(rec).expires_at == old(rec).expires_at,
{
    rec.is_verified = true;
}

/// Both checks accept exactly the codes that are the one issued, unused and not
/// expired; they differ only in which refusal comes first.
pub proof fn lemma_otp_checks_agree(rec: OtpRecord, code: Seq<char>, now: int)
    ensures
        reset_otp_refusal(Some(rec), code, now) is None <==> otp_accepts(rec, code, now),
        enable_mfa_otp_refusal(Some(rec), code, now) is None <==> otp_accepts(rec, code, now),
{
}

/// A code is good for one use: once marked as used, a password reset refuses it as
/// used and enabling MFA refuses it, whatever the time.
pub proof fn lemma_otp_single_use(rec: OtpRecord, code: Seq<char>, now: int)
    requires
        rec.is_verified,
    ensures
        reset_otp_refusal(Some(rec), code, now) == Some((400u16, "OTP has already been used"@)),
        enable_mfa_otp_refusal(Some(rec), code, now) is Some,
{
}

/// Lifetime of the code that enables MFA, in microseconds (five minutes). The mail that
/// carries the code (`enable_mfa_otp_email`) tells the user ten minutes; the service
/// keeps both as they are, so a code is refused as expired after five minutes.
pub const ENABLE_MFA_OTP_LIFETIME_MICROS: i64 = 300_000_000i64;

/// When a code that enables MFA, issued at `now`, expires.
pub fn enable_mfa_otp_expiry(now: i64) -> (t: i64)
    requires
        now + ENABLE_MFA_OTP_LIFETIME_MICROS <= i64::MAX,
    ensures
        t == now + ENABLE_MFA_OTP_LIFETIME_MICROS,
{
    now + ENABLE_MFA_OTP_LIFETIME_MICROS
}

/// The mail that carries a password-reset code: its subject and body.
pub fn reset_otp_email(otp_code: &str) -> (m: (String, String))
    ensures
        m.0@ == "Reset Password OTP"@,
        m.1@ == "Your OTP code for password reset is: "@ + otp_code@
            + ". This code will expire in 10 minutes."@,
{
    let body = concat3(
        "Your OTP code for password reset is: ",
        otp_code,
        ". This code will expire in 10 minutes.",
    );
    (String::from_str("Reset Password OTP"), body)
}

/// A character that `{:?}` writes unchanged inside a quoted string: printable ASCII
/// other than `"` and `\`.
pub open spec fn debug_plain(c: char) -> bool {
    ' ' <= c && c <= '~' && c != '"' && c != '\\'
}

/// What `format!("{:?}", s)` writes for a string: the string in double quotes, with
/// the characters that need it escaped.
pub uninterp spec fn debug_quoted(s: Seq<char>) -> Seq<char>;

/// Calls `format!("{:?}", s)` on a `&str`. The text is a function of the string
/// alone, named `debug_quoted`; of it, only what `str`'s `Debug` documentation
/// plainly gives is claimed: a string of printable ASCII without `"` or `\` is
/// written between double quotes, unchanged.
#[verifier::external_body]
fn debug_str(s: &str) -> (r: String)
    ensures
        r@ == debug_quoted(s@),
        (forall|i: int| 0 <= i < s@.len() ==> debug_plain(#[trigger] s@[i])) ==> r@ == "\""@ + s@
            + "\""@,
{
    format!("{:?}", s)
}

/// The mail that carries the code enabling MFA: its subject and body, the code
/// quoted as `{:?}` writes it. The body announces ten minutes, while the code expires
/// after `ENABLE_MFA_OTP_LIFETIME_MICROS` (five minutes).
pub fn enable_mfa_otp_email(otp_code: &str) -> (m: (String, String))
    ensures
        m.0@ == "Enable MFA - Verification Code"@,
        m.1@ == "Your OTP code to enable MFA is: "@ + debug_quoted(otp_code@)
            + ". This code will expire in 10 minutes."@,
        (forall|i: int| 0 <= i < otp_code@.len() ==> debug_plain(#[trigger] otp_code@[i])) ==> m.1@
            == "Your OTP code to enable MFA is: \""@ + otp_code@
            + "\". This code will expire in 10 minutes."@,
{
    let quoted = debug_str(otp_code);
    let body = concat3(
        "Your OTP code to enable MFA is: ",
        quoted.as_str(),
        ". This code will expire in 10 minutes.",
    );
    proof {
        if forall|i: int| 0 <= i < otp_code@.len() ==> debug_plain(#[trigger] otp_code@[i]) {
            reveal_strlit("Your OTP code to enable MFA is: ");
            reveal_strlit("Your OTP code to enable MFA is: \"");
            reveal_strlit(". This code will expire in 10 minutes.");
            reveal_strlit("\". This code will expire in 10 minutes.");
            reveal_strlit("\"");
            assert(body@ =~= "Your OTP code to enable MFA is: \""@ + otp_code@
                + "\". This code will expire in 10 minutes."@);
        }
    }
    (String::from_str("Enable MFA - Verification Code"), body)
}

// ---------------------------------------------------------------------------
// Authenticator app setup
// ---------------------------------------------------------------------------

/// Bytes that URL-encoding keeps: ASCII letters and digits, `-`, `.`, `_`, `~`.
pub open spec fn url_unreserved(b: u8) -> bool {
    ||| 48 <= b <= 57
    ||| 65 <= b <= 90
    ||| 97 <= b <= 122
    ||| b == 45 || b == 46 || b == 95 || b == 126
}

/// The upper-case hexadecimal digit of a value below 16.
pub open spec fn hex_upper(v: nat) -> char {
    if v < 10 {
        ((v + 48) as u32) as char
    } else {
        ((v + 55) as u32) as char
    }
}

/// How one byte is written: itself when kept, otherwise `%` and two upper-case
/// hexadecimal digits.
pub open spec fn url_piece(b: u8) -> Seq<char> {
    if url_unreserved(b) {
        seq![(b as u32) as char]
    } else {
        seq!['%', hex_upper((b / 16) as nat), hex_upper((b % 16) as nat)]
    }
}

/// Percent-encoding of a byte string, byte by byte.
pub open spec fn url_encoded(bytes: Seq<u8>) -> Seq<char>
    decreases bytes.len(),
{
    if bytes.len() == 0 {
        Seq::empty()
    } else {
        url_encoded(bytes.drop_last()) + url_piece(bytes.last())
    }
}

/// Calls `urlencoding::encode`, which percent-encodes every byte of the UTF-8 form
/// except ASCII letters, digits, `-`, `.`, `_` and `~`, with upper-case hexadecimal
/// digits (its source and documentation say so).
#[verifier::external_body]
fn url_encode(s: &str) -> (r: String)
    ensures
        r@ == url_encoded(encode_utf8(s@)),
{
    urlencoding::encode(s).into_owned()
}

/// Characters of the base-32 alphabet of authenticator secrets.
pub open spec fn is_base32_char(c: char) -> bool {
    ('A' <= c && c <= 'Z') || ('2' <= c && c <= '7')
}

/// Calls `GoogleAuthenticator::create_secret(16)`. The characters are drawn at random,
/// so which secret comes back is not claimed; it has 16 characters, each one of the
/// first 32 of the crate's alphabet (`A`-`Z`, `2`-`7`), since each index is a random
/// byte masked with `0x1F`.
#[verifier::external_body]
fn create_totp_secret() -> (s: String)
    ensures
        s@.len() == 16,
        forall|i: int| 0 <= i < s@.len() ==> is_base32_char(#[trigger] s@[i]),
{
    google_authenticator::GoogleAuthenticator::new().create_secret(16)
}

/// The `otpauth://` URI that an authenticator app scans.
pub open spec fn otp_uri_text(user_name: Seq<char>, secret: Seq<char>) -> Seq<char> {
    "otpauth://totp/"@ + url_encoded(encode_utf8(user_name)) + "?secret="@ + secret + "&issuer="@
        + OTP_ISSUER@
}

/// Writes the URI of a secret for an account name.
pub fn otp_auth_uri(user_name: &str, secret: &str) -> (uri: String)
    ensures
        uri@ == otp_uri_text(user_name@, secret@),
{
    let name = url_encode(user_name);
    let mut uri = concat3("otpauth://totp/", name.as_str(), "?secret=");
    uri.append(secret);
    uri.append("&issuer=");
    uri.append(OTP_ISSUER);
    uri
}

/// A fresh authenticator secret and the URI that carries it.
pub fn new_mfa_setup(user_name: &str) -> (r: (String, String))
    ensures
        r.0@.len() == 16,
        forall|i: int| 0 <= i < r.0@.len() ==> is_base32_char(#[trigger] r.0@[i]),
        r.1@ == otp_uri_text(user_name@, r.0@),
{
    let secret = create_totp_secret();
    let uri = otp_auth_uri(user_name, secret.as_str());
    (secret, uri)
}

/// URL-encoding writes only kept characters, `%` and upper-case hexadecimal digits:
/// never a `?`, `&`, `/` or `=` that would end the account name in the URI.
pub proof fn lemma_url_encoded_is_plain(bytes: Seq<u8>)
    ensures
        forall|i: int| 0 <= i < url_encoded(bytes).len() ==> {
            let c = #[trigger] url_encoded(bytes)[i];
            c != '?' && c != '&' && c != '/' && c != '='
        },
    decreases bytes.len(),
{
    if bytes.len() > 0 {
        lemma_url_encoded_is_plain(bytes.drop_last());
        let prev = url_encoded(bytes.drop_last());
        let piece = url_piece(bytes.last());
        let b = bytes.last();
        assert forall|i: int| 0 <= i < piece.len() implies {
            let c = #[trigger] piece[i];
            c != '?' && c != '&' && c != '/' && c != '='
        } by {
            if !url_unreserved(b) {
                lemma_hex_upper_plain((b / 16) as nat);
                lemma_hex_upper_plain((b % 16) as nat);
            }
        }
        assert forall|i: int| 0 <= i < url_encoded(bytes).len() implies {
            let c = #[trigger] url_encoded(bytes)[i];
            c != '?' && c != '&' && c != '/' && c != '='
        } by {
            if i < prev.len() {
                assert(url_encoded(bytes)[i] == prev[i]);
            } else {
                assert(url_encoded(bytes)[i] == piece[i - prev.len()]);
            }
        }
    }
}

proof fn lemma_hex_upper_plain(v: nat)
    requires
        v < 16,
    ensures
        ('0' <= hex_upper(v) && hex_upper(v) <= '9') || ('A' <= hex_upper(v) && hex_upper(v) <= 'F'),
{
}

// ---------------------------------------------------------------------------
// Turning MFA on
// ---------------------------------------------------------------------------

/// The answer to a request for the code that turns MFA on.
pub struct ReqEnableMfaResponse {
    pub message: String,
}

/// The answer once MFA is on: the URI for the authenticator app.
pub struct EnableMfaResponse {
    pub message: String,
    pub qr_code: String,
}

/// A code to turn MFA on is refused with 400 when MFA is already on; `existing` is
/// whether a stored MFA record is enabled, if there is one.
pub open spec fn enable_request_refusal(existing: Option<bool>) -> Option<(u16, Seq<char>)> {
    if existing == Some(true) {
        Some((400u16, "MFA is already enabled"@))
    } else {
        None
    }
}

/// Checks that MFA is not already on.
pub fn check_enable_request(existing: Option<bool>) -> (r: Result<(), (u16, String)>)
    ensures
        refusal_of(r) == enable_request_refusal(existing),
{
    match existing {
        Some(true) => Err((400, String::from_str("MFA is already enabled"))),
        _ => Ok(()),
    }
}

impl ReqEnableMfaResponse {
    /// The answer once the code was mailed (sent with 201).
    pub fn sent() -> (r: Self)
        ensures
            r.message@ == "Check your email to enable mfa"@,
    {
        ReqEnableMfaResponse { message: String::from_str("Check your email to enable mfa") }
    }
}

impl EnableMfaResponse {
    /// The answer once MFA is on.
    pub fn enabled(qr_code: String) -> (r: Self)
        ensures
            r.message@ == "Enable MFA successfully"@,
            r.qr_code == qr_code,
    {
        EnableMfaResponse { message: String::from_str("Enable MFA successfully"), qr_code }
    }
}

/// A one-time code is accepted exactly when it is the code issued, has not been used
/// and its expiry is not before `now` (a code is still good at its expiry instant).
/// A password reset refuses, in this order: no code issued (404), a used code, an
/// expired one, a wrong one (400 each). Enabling MFA refuses, in this order: no code
/// issued (404), a wrong code, a used one, an expired one (400 each). A request to
/// enable MFA is refused with 400 exactly when an enabled MFA record exists.
pub proof fn lemma_otp_rules(rec: OtpRecord, code: Seq<char>, now: int, existing: Option<bool>)
    ensures
        otp_accepts(rec, code, now) <==> (rec.otp_code@ == code && !rec.is_verified && now
            <= rec.expires_at),
        reset_otp_refusal(None, code, now) == Some((404u16, "OTP not found. Please request a new OTP"@)),
        rec.is_verified ==> reset_otp_refusal(Some(rec), code, now) == Some(
            (400u16, "OTP has already been used"@),
        ),
        !rec.is_verified && rec.expires_at < now ==> reset_otp_refusal(Some(rec), code, now) == Some(
            (400u16, "OTP has expired. Please request a new OTP"@),
        ),
        !rec.is_verified && now <= rec.expires_at && rec.otp_code@ != code ==> reset_otp_refusal(
            Some(rec),
            code,
            now,
        ) == Some((400u16, "Invalid OTP code"@)),
        !rec.is_verified && now <= rec.expires_at && rec.otp_code@ == code ==> reset_otp_refusal(
            Some(rec),
            code,
            now,
        ) is None,
        enable_mfa_otp_refusal(None, code, now) == Some((404u16, "OTP verification not found"@)),
        rec.otp_code@ != code ==> enable_mfa_otp_refusal(Some(rec), code, now) == Some(
            (400u16, "Invalid OTP code"@),
        ),
        rec.otp_code@ == code && rec.is_verified ==> enable_mfa_otp_refusal(Some(rec), code, now)
            == Some((400u16, "OTP code already verified"@)),
        rec.otp_code@ == code && !rec.is_verified && rec.expires_at < now ==> enable_mfa_otp_refusal(
            Some(rec),
            code,
            now,
        ) == Some((400u16, "OTP code has expired"@)),
        rec.otp_code@ == code && !rec.is_verified && now <= rec.expires_at ==> enable_mfa_otp_refusal(
            Some(rec),
            code,
            now,
        ) is None,
        existing == Some(true) ==> enable_request_refusal(existing) == Some(
            (400u16, "MFA is already enabled"@),
        ),
        existing != Some(true) ==> enable_request_refusal(existing) is None,
{
}

/// A password check lets the request on exactly when the password matches; a
/// mismatch is refused with 401 and the given message, a verification error with 500
/// and `Password verification error: ` followed by the error. A sign-in without an
/// account is refused with 401 first; with a matching password it goes through when
/// MFA is off, and with MFA on it needs a code (400 without one).
pub proof fn lemma_password_and_sign_in(
    outcome: Result<bool, Seq<char>>,
    wrong: Seq<char>,
    h: Seq<char>,
    password: Seq<char>,
    mfa_enabled: bool,
    code: Option<Seq<char>>,
)
    ensures
        outcome == Ok::<bool, Seq<char>>(true) ==> password_refusal(outcome, wrong) is None,
        outcome == Ok::<bool, Seq<char>>(false) ==> password_refusal(outcome, wrong) == Some(
            (401u16, wrong),
        ),
        outcome matches Err(e) ==> password_refusal(outcome, wrong) == Some(
            (500u16, "Password verification error: "@ + e),
        ),
        sign_in_step(None, password, mfa_enabled, code) == Err::<Option<Seq<char>>, (u16, Seq<char>)>(
            (401u16, "Invalid email or password, or account has been deleted"@),
        ),
        bcrypt_verify_outcome(password, h) == Ok::<bool, Seq<char>>(true) && !mfa_enabled
            ==> sign_in_step(Some(h), password, mfa_enabled, code) == Ok::<
            Option<Seq<char>>,
            (u16, Seq<char>),
        >(None),
        bcrypt_verify_outcome(password, h) == Ok::<bool, Seq<char>>(true) && mfa_enabled
            && code is None ==> sign_in_step(Some(h), password, mfa_enabled, code) == Err::<
            Option<Seq<char>>,
            (u16, Seq<char>),
        >((400u16, "MFA is enabled. Please provide authenticator_code"@)),
        bcrypt_verify_outcome(password, h) == Ok::<bool, Seq<char>>(true) && mfa_enabled
            ==> (code matches Some(c) ==> sign_in_step(Some(h), password, mfa_enabled, code) == Ok::<
            Option<Seq<char>>,
            (u16, Seq<char>),
        >(Some(c))),
        bcrypt_verify_outcome(password, h) == Ok::<bool, Seq<char>>(false) ==> sign_in_step(
            Some(h),
            password,
            mfa_enabled,
            code,
        ) == Err::<Option<Seq<char>>, (u16, Seq<char>)>((401u16, "Invalid email or password"@)),
{
}

/// URL-encoding keeps exactly the ASCII letters and digits and `-`, `.`, `_`, `~`,
/// each as itself; any other byte is written as `%` and its value in two upper-case
/// hexadecimal digits, high digit first.
pub proof fn lemma_url_pieces(b: u8)
    ensures
        url_unreserved(b) <==> (('0' as u8) <= b <= ('9' as u8) || ('A' as u8) <= b <= ('Z' as u8)
            || ('a' as u8) <= b <= ('z' as u8) || b == ('-' as u8) || b == ('.' as u8) || b == (
        '_' as u8) || b == ('~' as u8)),
        url_unreserved(b) ==> url_piece(b) == seq![(b as u32) as char],
        !url_unreserved(b) ==> url_piece(b) == seq![
            '%',
            "0123456789ABCDEF"@[(b / 16) as int],
            "0123456789ABCDEF"@[(b % 16) as int],
        ],
{
    reveal_strlit("0123456789ABCDEF");
}

} // verus!
