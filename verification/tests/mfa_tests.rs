use auth_service::mfa::{check_code_reuse, check_enabled, write_back};
use auth_service::config::{MFA_LOCK_DURATION_SECONDS, MFA_MAX_FAIL_ATTEMPTS};
use auth_service::mfa::{
    check_code, check_lock, check_reply, gate_rejection, missing_code_rejection, record_code_check,
    rpc_locked_until, rpc_request_error, verify_mfa_flow, MfaAttempts, MfaVerifyResult,
};
use auth_service::mfa::{check_stored_code, MfaCodeState};
use google_authenticator::GoogleAuthenticator;

#[test]
fn three_failures_lock_mfa_for_the_lock_duration() {
    let mut a = MfaAttempts::new("u1");
    let now = 1_000_000i64;
    assert!(matches!(record_code_check(&mut a, false, now), MfaVerifyResult::InvalidCode));
    assert!(matches!(record_code_check(&mut a, false, now), MfaVerifyResult::InvalidCode));
    let third = record_code_check(&mut a, false, now);
    let until = now + MFA_LOCK_DURATION_SECONDS as i64;
    match third {
        MfaVerifyResult::Locked { locked_until } => assert_eq!(locked_until, Some(until)),
        _ => panic!("third failure must lock"),
    }
    assert_eq!(a.invalid_mfa_count, MFA_MAX_FAIL_ATTEMPTS);
    assert!(a.is_locked_at(now));
    assert!(a.is_locked_at(until - 1));
    assert!(!a.is_locked_at(until));
    match check_lock(&a, now + 10) {
        Some(MfaVerifyResult::Locked { locked_until }) => assert_eq!(locked_until, Some(until)),
        _ => panic!("locked attempts answer Locked first"),
    }
    assert!(check_lock(&a, until).is_none());
}

#[test]
fn reset_clears_count_and_lock() {
    let mut a = MfaAttempts::new("u2");
    for _ in 0..3 {
        record_code_check(&mut a, false, 50);
    }
    assert!(a.is_locked_at(60));
    a.reset();
    assert_eq!(a.invalid_mfa_count, 0);
    assert_eq!(a.locked_until, None);
    assert!(!a.is_locked_at(60));
    assert!(!a.is_locked());
}

#[test]
fn valid_code_succeeds_and_keeps_attempts() {
    let mut a = MfaAttempts::new("u3");
    record_code_check(&mut a, false, 10);
    let r = record_code_check(&mut a, true, 11);
    assert!(r.is_success());
    assert_eq!(a.invalid_mfa_count, 1);
}

#[test]
fn a_code_of_wrong_length_is_a_failure() {
    let mut a = MfaAttempts::new("u4");
    let r = check_code(&mut a, "JBSWY3DPEHPK3PXP", "123", 100);
    assert!(matches!(r, MfaVerifyResult::InvalidCode));
    assert_eq!(a.invalid_mfa_count, 1);
}

#[test]
fn outcomes_have_reasons_and_messages() {
    let locked = MfaVerifyResult::Locked { locked_until: Some(1900) };
    assert_eq!(locked.reason(), "MFA is locked due to too many failed attempts");
    assert_eq!(locked.message(), "MFA is locked until 1900 (too many failed attempts)");
    let open = MfaVerifyResult::Locked { locked_until: None };
    assert_eq!(open.message(), "MFA is locked due to too many failed attempts");
    assert_eq!(MfaVerifyResult::Success.message(), "MFA code verified successfully");
    assert_eq!(MfaVerifyResult::InvalidCode.reason(), "Invalid MFA code");
    assert!(!MfaVerifyResult::CodeAlreadyUsed.is_success());
}

#[test]
fn guarded_requests_are_refused_per_outcome() {
    assert!(gate_rejection(&MfaVerifyResult::Success).is_none());
    let (code, msg) = gate_rejection(&MfaVerifyResult::Locked { locked_until: Some(-5) }).unwrap();
    assert_eq!(code, 403);
    assert_eq!(msg, "MFA is locked until -5 (too many failed attempts)");
    assert_eq!(
        gate_rejection(&MfaVerifyResult::CodeAlreadyUsed).unwrap(),
        (401, "MFA code has already been used".to_string())
    );
    assert_eq!(
        gate_rejection(&MfaVerifyResult::InvalidCode).unwrap(),
        (401, "Invalid authenticator code".to_string())
    );
    assert_eq!(
        gate_rejection(&MfaVerifyResult::MfaNotEnabled).unwrap(),
        (400, "MFA is not enabled for this user".to_string())
    );
    assert_eq!(
        missing_code_rejection(),
        (400, "MFA is enabled. Please provide authenticator_code".to_string())
    );
}

#[test]
fn check_replies_carry_reason_and_lock() {
    let r = check_reply(&MfaVerifyResult::Locked { locked_until: Some(77) });
    assert!(!r.is_valid);
    assert_eq!(r.reason, "locked");
    assert_eq!(r.message, "MFA is locked until 77");
    assert_eq!(r.locked_until, Some(77));
    assert_eq!(rpc_locked_until(&r), 77);
    let neg = check_reply(&MfaVerifyResult::Locked { locked_until: Some(-3) });
    assert_eq!(rpc_locked_until(&neg), 0);
    let ok = check_reply(&MfaVerifyResult::Success);
    assert!(ok.is_valid);
    assert_eq!(ok.reason, "success");
    assert_eq!(rpc_locked_until(&ok), 0);
    assert_eq!(check_reply(&MfaVerifyResult::MfaNotEnabled).reason, "mfa_not_enabled");
}

#[test]
fn rpc_requests_need_user_and_code() {
    assert_eq!(rpc_request_error("", "1"), Some("user_id is required".to_string()));
    assert_eq!(rpc_request_error("u", ""), Some("authenticator_code is required".to_string()));
    assert_eq!(rpc_request_error("u", "123456"), None);
}

#[test]
fn checking_a_code_step_by_step() {
    assert!(matches!(check_code_reuse(true), Some(MfaVerifyResult::CodeAlreadyUsed)));
    assert!(check_code_reuse(false).is_none());
    assert!(matches!(check_enabled(false), Some(MfaVerifyResult::MfaNotEnabled)));
    assert!(check_enabled(true).is_none());
    let ok = write_back(true);
    assert!(ok.mark_code_used && ok.clear_attempts && !ok.store_attempts);
    let bad = write_back(false);
    assert!(!bad.mark_code_used && !bad.clear_attempts && bad.store_attempts);
}

const SECRET: &str = "JBSWY3DPEHPK3PXP";

#[test]
fn check_code_accepts_the_code_of_the_current_window() {
    let now = 1_700_000_000i64;
    let code = GoogleAuthenticator::new().get_code(SECRET, (now / 30) as u64).unwrap();
    let mut a = MfaAttempts::new("u1");
    a.invalid_mfa_count = 2;
    assert!(matches!(check_code(&mut a, SECRET, &code, now), MfaVerifyResult::Success));
    assert_eq!(a.invalid_mfa_count, 2);
    assert_eq!(a.locked_until, None);
}

#[test]
fn check_code_accepts_the_neighbouring_windows_only() {
    let now = 1_700_000_000i64;
    let ga = GoogleAuthenticator::new();
    let slice = (now / 30) as u64;
    let previous = ga.get_code(SECRET, slice - 1).unwrap();
    let mut a = MfaAttempts::new("u1");
    assert!(matches!(check_code(&mut a, SECRET, &previous, now), MfaVerifyResult::Success));
    let far = ga.get_code(SECRET, slice - 10).unwrap();
    let near: Vec<String> = (slice - 1..=slice + 1).map(|s| ga.get_code(SECRET, s).unwrap()).collect();
    if !near.contains(&far) {
        let mut b = MfaAttempts::new("u1");
        assert!(matches!(check_code(&mut b, SECRET, &far, now), MfaVerifyResult::InvalidCode));
        assert_eq!(b.invalid_mfa_count, 1);
    }
}

#[test]
fn check_code_with_another_secret_is_refused() {
    let now = 1_700_000_000i64;
    let ga = GoogleAuthenticator::new();
    let slice = (now / 30) as u64;
    let other = "KRSXG5CTMVRXEZLUKN2XAZLSKNSWG4TF";
    let code = ga.get_code(other, slice).unwrap();
    let mine: Vec<String> = (slice - 1..=slice + 1).map(|s| ga.get_code(SECRET, s).unwrap()).collect();
    if !mine.contains(&code) {
        let mut a = MfaAttempts::new("u1");
        assert!(matches!(check_code(&mut a, SECRET, &code, now), MfaVerifyResult::InvalidCode));
    }
}

#[test]
fn flow_refuses_a_locked_user_before_anything_else() {
    let now = 1_700_000_000i64;
    let mut a = MfaAttempts::new("u1");
    a.invalid_mfa_count = 3;
    a.locked_until = Some(now + 60);
    let (r, w) = verify_mfa_flow(&mut a, true, None, "12", now);
    match r {
        MfaVerifyResult::Locked { locked_until } => assert_eq!(locked_until, Some(now + 60)),
        _ => panic!("a locked user is answered Locked"),
    }
    assert!(!w.mark_code_used && !w.clear_attempts && !w.store_attempts);
    assert_eq!(a.invalid_mfa_count, 3);
}

#[test]
fn flow_refuses_a_used_code_without_counting_it() {
    let now = 1_700_000_000i64;
    let code = GoogleAuthenticator::new().get_code(SECRET, (now / 30) as u64).unwrap();
    let mut a = MfaAttempts::new("u1");
    a.invalid_mfa_count = 1;
    let (r, w) = verify_mfa_flow(&mut a, true, Some(SECRET), &code, now);
    assert!(matches!(r, MfaVerifyResult::CodeAlreadyUsed));
    assert!(!w.mark_code_used && !w.clear_attempts && !w.store_attempts);
    assert_eq!(a.invalid_mfa_count, 1);
}

#[test]
fn flow_answers_not_enabled_without_a_secret() {
    let mut a = MfaAttempts::new("u1");
    let (r, w) = verify_mfa_flow(&mut a, false, None, "123456", 1_700_000_000);
    assert!(matches!(r, MfaVerifyResult::MfaNotEnabled));
    assert!(!w.store_attempts);
    assert_eq!(a.invalid_mfa_count, 0);
}

#[test]
fn flow_counts_a_wrong_length_code() {
    let mut a = MfaAttempts::new("u1");
    let (r, w) = verify_mfa_flow(&mut a, false, Some(SECRET), "12345", 1_700_000_000);
    assert!(matches!(r, MfaVerifyResult::InvalidCode));
    assert!(w.store_attempts && !w.mark_code_used && !w.clear_attempts);
    assert_eq!(a.invalid_mfa_count, 1);
}

#[test]
fn flow_accepts_a_fresh_valid_code_and_asks_to_clear_attempts() {
    let now = 1_700_000_000i64;
    let code = GoogleAuthenticator::new().get_code(SECRET, (now / 30) as u64).unwrap();
    let mut a = MfaAttempts::new("u1");
    a.invalid_mfa_count = 2;
    let (r, w) = verify_mfa_flow(&mut a, false, Some(SECRET), &code, now);
    assert!(matches!(r, MfaVerifyResult::Success));
    assert!(w.mark_code_used && w.clear_attempts && !w.store_attempts);
    assert_eq!(a.invalid_mfa_count, 2);
}

#[test]
fn an_accepted_code_is_refused_when_replayed_within_its_window() {
    let now = 1_700_000_000i64;
    let code = GoogleAuthenticator::new().get_code(SECRET, (now / 30) as u64).unwrap();
    let mut a = MfaAttempts::new("u1");
    a.invalid_mfa_count = 2;
    let mut state = MfaCodeState { attempts: a, used_at: None };
    assert!(matches!(check_stored_code(&mut state, Some(SECRET), &code, now), MfaVerifyResult::Success));
    assert_eq!(state.used_at, Some(now));
    assert_eq!(state.attempts.invalid_mfa_count, 0);
    let r = check_stored_code(&mut state, Some(SECRET), &code, now + 10);
    assert!(matches!(r, MfaVerifyResult::CodeAlreadyUsed));
    assert_eq!(state.used_at, Some(now));
    assert_eq!(state.attempts.invalid_mfa_count, 0);
    let r = check_stored_code(&mut state, Some(SECRET), &code, now + 119);
    assert!(matches!(r, MfaVerifyResult::CodeAlreadyUsed));
}

#[test]
fn a_refused_stored_code_is_counted_and_not_marked() {
    let mut state = MfaCodeState { attempts: MfaAttempts::new("u1"), used_at: None };
    let r = check_stored_code(&mut state, Some(SECRET), "12", 1_700_000_000);
    assert!(matches!(r, MfaVerifyResult::InvalidCode));
    assert_eq!(state.attempts.invalid_mfa_count, 1);
    assert_eq!(state.used_at, None);
}
