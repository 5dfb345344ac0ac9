use auth_service::auth::{check_enable_request, EnableMfaResponse, ReqEnableMfaResponse};
use auth_service::auth::{
    check_enable_mfa_otp, check_login_password, check_old_password, check_reset_otp,
    enable_mfa_otp_email, enable_mfa_otp_expiry, hashed_password, login_response, mark_verified,
    new_mfa_setup, otp_auth_uri, password_decision, password_update, reset_otp_email,
    unknown_email_refusal, unknown_login_refusal, ChangePasswordResponse, ForgotPasswordResponse,
    LogoutResponse, OtpRecord, ResetPasswordResponse,
};
use auth_service::auth::sign_in_checks;
use auth_service::roles::RoleEnum;

fn otp(code: &str, used: bool, expires_at: i64) -> Option<OtpRecord> {
    Some(OtpRecord { otp_code: code.into(), is_verified: used, expires_at })
}

#[test]
fn a_new_password_signs_in() {
    let h = hashed_password("correct horse").expect("hashing works");
    assert_eq!(h.len(), 60);
    assert!(h.starts_with("$2b$12$"));
    assert_eq!(check_login_password("correct horse", &h), Ok(()));
    assert_eq!(check_old_password("correct horse", &h), Ok(()));
    assert_eq!(
        check_login_password("wrong", &h),
        Err((401, "Invalid email or password".to_string()))
    );
    assert_eq!(
        check_old_password("wrong", &h),
        Err((401, "Old password is incorrect".to_string()))
    );
}

#[test]
fn password_update_only_sets_the_password() {
    let u = password_update("n3w-pass").expect("hashing works");
    let h = u.password.clone().expect("password set");
    assert_ne!(h, "n3w-pass");
    assert!(u.first_name.is_none() && u.email.is_none() && u.role.is_none());
    assert_eq!(check_login_password("n3w-pass", &h), Ok(()));
}

#[test]
fn a_malformed_hash_is_a_server_error() {
    let r = check_login_password("x", "not-a-hash");
    let (code, msg) = r.unwrap_err();
    assert_eq!(code, 500);
    assert!(msg.starts_with("Password verification error: "));
    assert_eq!(
        password_decision(Err("boom".into()), "wrong"),
        Err((500, "Password verification error: boom".to_string()))
    );
    assert_eq!(password_decision(Ok(false), "wrong"), Err((401, "wrong".to_string())));
    assert_eq!(password_decision(Ok(true), "wrong"), Ok(()));
}

#[test]
fn reset_codes_are_checked_in_order() {
    let now = 1_000;
    assert_eq!(
        check_reset_otp(&None, "1", now),
        Err((404, "OTP not found. Please request a new OTP".to_string()))
    );
    assert_eq!(
        check_reset_otp(&otp("123456", true, 0), "999999", now),
        Err((400, "OTP has already been used".to_string()))
    );
    assert_eq!(
        check_reset_otp(&otp("123456", false, now - 1), "999999", now),
        Err((400, "OTP has expired. Please request a new OTP".to_string()))
    );
    assert_eq!(
        check_reset_otp(&otp("123456", false, now), "999999", now),
        Err((400, "Invalid OTP code".to_string()))
    );
    assert_eq!(check_reset_otp(&otp("123456", false, now), "123456", now), Ok(()));
}

#[test]
fn enable_mfa_codes_are_checked_in_order() {
    let now = 1_000;
    assert_eq!(
        check_enable_mfa_otp(&None, "1", now),
        Err((404, "OTP verification not found".to_string()))
    );
    assert_eq!(
        check_enable_mfa_otp(&otp("123456", true, 0), "999999", now),
        Err((400, "Invalid OTP code".to_string()))
    );
    assert_eq!(
        check_enable_mfa_otp(&otp("123456", true, 0), "123456", now),
        Err((400, "OTP code already verified".to_string()))
    );
    assert_eq!(
        check_enable_mfa_otp(&otp("123456", false, 0), "123456", now),
        Err((400, "OTP code has expired".to_string()))
    );
    assert_eq!(check_enable_mfa_otp(&otp("123456", false, now + 5), "123456", now), Ok(()));
}

#[test]
fn a_code_is_good_for_one_use() {
    let mut rec = OtpRecord { otp_code: "424242".into(), is_verified: false, expires_at: 10_000 };
    assert_eq!(check_reset_otp(&Some(OtpRecord { ..rec_clone(&rec) }), "424242", 5), Ok(()));
    mark_verified(&mut rec);
    assert!(rec.is_verified);
    assert_eq!(
        check_reset_otp(&Some(rec_clone(&rec)), "424242", 5),
        Err((400, "OTP has already been used".to_string()))
    );
    assert!(check_enable_mfa_otp(&Some(rec), "424242", 5).is_err());
}

fn rec_clone(r: &OtpRecord) -> OtpRecord {
    OtpRecord { otp_code: r.otp_code.clone(), is_verified: r.is_verified, expires_at: r.expires_at }
}

#[test]
fn mails_carry_the_code() {
    let (subject, body) = reset_otp_email("123456");
    assert_eq!(subject, "Reset Password OTP");
    assert_eq!(
        body,
        "Your OTP code for password reset is: 123456. This code will expire in 10 minutes."
    );
    let code = "654321".to_string();
    let (subject, body) = enable_mfa_otp_email(&code);
    assert_eq!(subject, "Enable MFA - Verification Code");
    assert_eq!(
        body,
        format!("Your OTP code to enable MFA is: {:?}. This code will expire in 10 minutes.", code)
    );
    assert_eq!(enable_mfa_otp_expiry(1_000_000), 301_000_000);
}

#[test]
fn otp_uri_encodes_the_account_name() {
    assert_eq!(
        otp_auth_uri("Nguyễn Văn A", "JBSWY3DPEHPK3PXP"),
        "otpauth://totp/Nguy%E1%BB%85n%20V%C4%83n%20A?secret=JBSWY3DPEHPK3PXP&issuer=NGON"
    );
    assert_eq!(otp_auth_uri("a-b_c.d~e", "S"), "otpauth://totp/a-b_c.d~e?secret=S&issuer=NGON");
    assert_eq!(otp_auth_uri("a&b?c", "S"), "otpauth://totp/a%26b%3Fc?secret=S&issuer=NGON");
}

#[test]
fn new_mfa_secrets_are_base32() {
    let (secret, uri) = new_mfa_setup("user one");
    assert_eq!(secret.len(), 16);
    assert!(secret.chars().all(|c| c.is_ascii_uppercase() || ('2'..='7').contains(&c)));
    assert_eq!(uri, format!("otpauth://totp/user%20one?secret={}&issuer=NGON", secret));
}

#[test]
fn sign_in_answers() {
    let r = login_response("tok".into(), "id-1".into(), "a@x".into(), RoleEnum::Manager);
    assert_eq!(r.token_type, "Bearer");
    assert_eq!(r.expires_in, 86400);
    assert_eq!(r.role, "manager");
    assert_eq!(r.access_token, "tok");
    assert_eq!(
        unknown_login_refusal(),
        (401, "Invalid email or password, or account has been deleted".to_string())
    );
    assert_eq!(unknown_email_refusal(), (404, "User not found with this email".to_string()));
    assert_eq!(LogoutResponse::done().message, "Logout successful");
    assert_eq!(ForgotPasswordResponse::sent().message, "OTP code has been sent to your email");
    assert_eq!(ResetPasswordResponse::done().message, "Password has been reset successfully");
    assert_eq!(ChangePasswordResponse::done().message, "Password has been changed successfully");
}

#[test]
fn turning_mfa_on() {
    assert_eq!(check_enable_request(Some(true)), Err((400, "MFA is already enabled".to_string())));
    assert_eq!(check_enable_request(Some(false)), Ok(()));
    assert_eq!(check_enable_request(None), Ok(()));
    assert_eq!(ReqEnableMfaResponse::sent().message, "Check your email to enable mfa");
    let r = EnableMfaResponse::enabled("otpauth://x".into());
    assert_eq!(r.message, "Enable MFA successfully");
    assert_eq!(r.qr_code, "otpauth://x");
}

#[test]
fn enable_mail_quotes_codes_like_debug() {
    for code in ["a\"b", "tab\there", "plain"] {
        let (_, body) = enable_mfa_otp_email(code);
        assert_eq!(
            body,
            format!("Your OTP code to enable MFA is: {:?}. This code will expire in 10 minutes.", code)
        );
    }
}

#[test]
fn sign_in_refuses_an_unknown_account_first() {
    assert_eq!(
        sign_in_checks(None, "pw", true, None),
        Err((401, "Invalid email or password, or account has been deleted".to_string()))
    );
}

#[test]
fn sign_in_refuses_a_wrong_password_before_looking_at_mfa() {
    let h = bcrypt::hash("right", 4).unwrap();
    assert_eq!(
        sign_in_checks(Some(&h), "wrong", true, None),
        Err((401, "Invalid email or password".to_string()))
    );
}

#[test]
fn sign_in_with_mfa_needs_a_code() {
    let h = bcrypt::hash("right", 4).unwrap();
    assert_eq!(
        sign_in_checks(Some(&h), "right", true, None),
        Err((400, "MFA is enabled. Please provide authenticator_code".to_string()))
    );
    assert_eq!(sign_in_checks(Some(&h), "right", true, Some("123456")), Ok(Some("123456".to_string())));
    assert_eq!(sign_in_checks(Some(&h), "right", false, Some("123456")), Ok(None));
}

#[test]
fn sign_in_with_a_malformed_hash_is_a_server_error() {
    match sign_in_checks(Some("not-a-hash"), "right", false, None) {
        Err((500, m)) => assert!(m.starts_with("Password verification error: ")),
        other => panic!("unexpected {other:?}"),
    }
}
