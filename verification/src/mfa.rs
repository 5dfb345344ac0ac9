//! Multi-factor authentication: the failed-attempt counter with its lock, the
//! outcome of checking a code, and how each outcome is answered.
use vstd::prelude::*;
use vstd::string::*;

use crate::clock::{now_timestamp, TIMESTAMP_BOUND};
use crate::config::{MFA_CODE_REUSE_TTL_SECONDS, MFA_LOCK_DURATION_SECONDS, MFA_MAX_FAIL_ATTEMPTS};
use crate::text::{concat3, i64_to_decimal, signed_decimal};

verus! {

/// Failed MFA attempts of one user, with the instant until which MFA is locked
/// (seconds since the Unix epoch).
pub struct MfaAttempts {
    pub user_id: String,
    pub invalid_mfa_count: u32,
    pub locked_until: Option<i64>,
}

impl MfaAttempts {
    /// MFA is locked at instant `now`.
    pub open spec fn locked_at(&self, now: int) -> bool {
        match self.locked_until {
            Some(until) => now < until,
            None => false,
        }
    }

    /// The attempts after one more failed code at instant `now`: the count grows by
    /// one, and reaching the maximum locks MFA for the lock duration from `now`.
    pub open spec fn after_failure(self, now: int) -> MfaAttempts {
        let count = (self.invalid_mfa_count + 1) as u32;
        MfaAttempts {
            user_id: self.user_id,
            invalid_mfa_count: count,
            locked_until: if count >= MFA_MAX_FAIL_ATTEMPTS {
                Some((now + MFA_LOCK_DURATION_SECONDS) as i64)
            } else {
                self.locked_until
            },
        }
    }

    /// The attempts with the count and the lock cleared.
    pub open spec fn cleared(self) -> MfaAttempts {
        MfaAttempts { user_id: self.user_id, invalid_mfa_count: 0, locked_until: None }
    }

    /// Fresh attempts of a user: no failure, no lock (what is used when none are stored).
    pub fn new(user_id: &str) -> (a: MfaAttempts)
        ensures
            a.user_id@ == user_id@,
            a.invalid_mfa_count == 0,
            a.locked_until is None,
    {
        MfaAttempts { user_id: String::from_str(user_id), invalid_mfa_count: 0, locked_until: None }
    }

    /// Whether MFA is locked at instant `now`.
    pub fn is_locked_at(&self, now: i64) -> (b: bool)
        ensures
            b == self.locked_at(now as int),
    {
        match self.locked_until {
            Some(until) => now < until,
            None => false,
        }
    }

    /// Whether MFA is locked now, by the wall clock.
    pub fn is_locked(&self) -> (b: bool)
        ensures
            self.locked_until is None ==> !b,
            exists|now: int| -TIMESTAMP_BOUND < now < TIMESTAMP_BOUND && b == self.locked_at(now),
    {
        let now = now_timestamp();
        self.is_locked_at(now)
    }

    /// Records one more failed code at instant `now`.
    pub fn increment_fail_at(&mut self, now: i64)
        requires
            old(self).invalid_mfa_count < u32::MAX,
            now <= i64::MAX - MFA_LOCK_DURATION_SECONDS,
        ensures
            *final(self) == old(self).after_failure(now as int),
    {
        self.invalid_mfa_count = self.invalid_mfa_count + 1;
        if self.invalid_mfa_count >= MFA_MAX_FAIL_ATTEMPTS {
            self.locked_until = Some(now + MFA_LOCK_DURATION_SECONDS as i64);
        }
    }

    /// Records one more failed code, by the wall clock.
    pub fn increment_fail(&mut self)
        requires
            old(self).invalid_mfa_count < u32::MAX,
        ensures
            exists|now: int|
                -TIMESTAMP_BOUND < now < TIMESTAMP_BOUND && *final(self) == old(self).after_failure(
                    now,
                ),
    {
        let now = now_timestamp();
        self.increment_fail_at(now);
    }

    /// Clears the count and the lock.
    pub fn reset(&mut self)
        ensures
            *final(self) == old(self).cleared(),
    {
        self.invalid_mfa_count = 0;
        self.locked_until = None;
    }
}

/// The outcome of checking an MFA code.
pub enum MfaVerifyResult {
    Success,
    Locked { locked_until: Option<i64> },
    CodeAlreadyUsed,
    InvalidCode,
    MfaNotEnabled,
}

/// The sentence that reports a lock, with its end when known.
pub open spec fn locked_message(locked_until: Option<i64>) -> Seq<char> {
    match locked_until {
        Some(until) => "MFA is locked until "@ + signed_decimal(until as int)
            + " (too many failed attempts)"@,
        None => "MFA is locked due to too many failed attempts"@,
    }
}

fn locked_message_exec(locked_until: Option<i64>) -> (s: String)
    ensures
        s@ == locked_message(locked_until),
{
    match locked_until {
        Some(until) => {
            let d = i64_to_decimal(until);
            concat3("MFA is locked until ", d.as_str(), " (too many failed attempts)")
        },
        None => String::from_str("MFA is locked due to too many failed attempts"),
    }
}

impl MfaVerifyResult {
    /// The fixed reason of each outcome.
    pub open spec fn reason_text(&self) -> Seq<char> {
        match self {
            MfaVerifyResult::Success => "MFA code verified successfully"@,
            MfaVerifyResult::Locked { .. } => "MFA is locked due to too many failed attempts"@,
            MfaVerifyResult::CodeAlreadyUsed => "MFA code has already been used"@,
            MfaVerifyResult::InvalidCode => "Invalid MFA code"@,
            MfaVerifyResult::MfaNotEnabled => "MFA is not enabled for this user"@,
        }
    }

    /// The message of each outcome; a lock names its end when known.
    pub open spec fn message_text(&self) -> Seq<char> {
        match self {
            MfaVerifyResult::Locked { locked_until } => locked_message(*locked_until),
            _ => self.reason_text(),
        }
    }

    /// Whether the code was accepted.
    pub fn is_success(&self) -> (b: bool)
        ensures
            b == (*self is Success),
    {
        match self {
            MfaVerifyResult::Success => true,
            _ => false,
        }
    }

    /// The fixed reason of the outcome.
    pub fn reason(&self) -> (s: &'static str)
        ensures
            s@ == self.reason_text(),
    {
        match self {
            MfaVerifyResult::Success => "MFA code verified successfully",
            MfaVerifyResult::Locked { .. } => "MFA is locked due to too many failed attempts",
            MfaVerifyResult::CodeAlreadyUsed => "MFA code has already been used",
            MfaVerifyResult::InvalidCode => "Invalid MFA code",
            MfaVerifyResult::MfaNotEnabled => "MFA is not enabled for this user",
        }
    }

    /// The message of the outcome.
    pub fn message(&self) -> (s: String)
        ensures
            s@ == self.message_text(),
    {
        match self {
            MfaVerifyResult::Locked { locked_until } => locked_message_exec(*locked_until),
            MfaVerifyResult::Success => String::from_str("MFA code verified successfully"),
            MfaVerifyResult::CodeAlreadyUsed => String::from_str("MFA code has already been used"),
            MfaVerifyResult::InvalidCode => String::from_str("Invalid MFA code"),
            MfaVerifyResult::MfaNotEnabled => String::from_str(
                "MFA is not enabled for this user",
            ),
        }
    }
}

/// First step of checking a code: a user whose MFA is locked at `now` is answered
/// `Locked` with the stored end of the lock, before anything else is looked at.
pub fn check_lock(attempts: &MfaAttempts, now: i64) -> (r: Option<MfaVerifyResult>)
    ensures
        attempts.locked_at(now as int) ==> r == Some(
            MfaVerifyResult::Locked { locked_until: attempts.locked_until },
        ),
        !attempts.locked_at(now as int) ==> r is None,
{
    if attempts.is_locked_at(now) {
        Some(MfaVerifyResult::Locked { locked_until: attempts.locked_until })
    } else {
        None
    }
}

/// The outcome once the code was compared with the user's secret.
pub open spec fn code_check_outcome(attempts: MfaAttempts, code_valid: bool, now: int) -> MfaVerifyResult {
    if code_valid {
        MfaVerifyResult::Success
    } else {
        let after = attempts.after_failure(now);
        if after.invalid_mfa_count >= MFA_MAX_FAIL_ATTEMPTS {
            MfaVerifyResult::Locked { locked_until: after.locked_until }
        } else {
            MfaVerifyResult::InvalidCode
        }
    }
}

/// Last step of checking a code. A valid code succeeds, and the caller then clears
/// the stored attempts and marks the code used; an invalid one is counted as a
/// failure at `now` (the caller stores the new attempts), and reaching the maximum
/// answers `Locked` with the new end of the lock.
pub fn record_code_check(attempts: &mut MfaAttempts, code_valid: bool, now: i64) -> (r:
    MfaVerifyResult)
    requires
        code_valid || old(attempts).invalid_mfa_count < u32::MAX,
        now <= i64::MAX - MFA_LOCK_DURATION_SECONDS,
    ensures
        r == code_check_outcome(*old(attempts), code_valid, now as int),
        code_valid ==> *final(attempts) == *old(attempts),
        !code_valid ==> *final(attempts) == old(attempts).after_failure(now as int),
{
    if code_valid {
        MfaVerifyResult::Success
    } else {
        attempts.increment_fail_at(now);
        if attempts.invalid_mfa_count >= MFA_MAX_FAIL_ATTEMPTS {
            MfaVerifyResult::Locked { locked_until: attempts.locked_until }
        } else {
            MfaVerifyResult::InvalidCode
        }
    }
}

/// Whether `code` is the six-digit code of `secret` in 30-second window `slice` or in
/// one of the two windows next to it, as the authenticator app computes it.
pub uninterp spec fn totp_accepts(secret: Seq<char>, code: Seq<char>, slice: u64) -> bool;

/// The 30-second window of an instant, when it is one that the authenticator
/// crate takes as given (a window of at least 2, so that the windows next to it are
/// not 0, which the crate reads as "now").
pub open spec fn window_of(now: int) -> Option<u64> {
    if 60 <= now {
        Some((now / 30) as u64)
    } else {
        None
    }
}

/// Calls `GoogleAuthenticator::new().verify_code(secret, code, 1, slice)`: whether
/// `code` is the code of `secret` in window `slice` or the window before or after.
/// From a window of 2 on, the crate reads no clock, so the answer is a function of
/// the three arguments, named `totp_accepts`; for windows 0 and 1 it reads the
/// clock for some window, and nothing is claimed but that a code whose UTF-8 length
/// is not 6 is refused.
#[verifier::external_body]
fn verify_totp(secret: &str, code: &str, slice: u64) -> (ok: bool)
    ensures
        code.spec_bytes().len() != 6 ==> !ok,
        slice >= 2 ==> ok == totp_accepts(secret@, code@, slice),
{
    google_authenticator::GoogleAuthenticator::new().verify_code(secret, code, 1, slice)
}

/// Checks `code` against the user's decrypted secret in the window of `now`, and
/// records the outcome in the attempts. From 1970-01-01T00:01:00 on, the outcome is
/// exactly the one of `totp_accepts` for that window; before that (a window the
/// authenticator crate would replace by the clock's), it is some outcome.
pub fn check_code(attempts: &mut MfaAttempts, secret: &str, code: &str, now: i64) -> (r:
    MfaVerifyResult)
    requires
        old(attempts).invalid_mfa_count < u32::MAX,
        now <= i64::MAX - MFA_LOCK_DURATION_SECONDS,
    ensures
        window_of(now as int) matches Some(w) ==> r == code_check_outcome(
            *old(attempts),
            totp_accepts(secret@, code@, w),
            now as int,
        ),
        exists|valid: bool|
            {
                &&& (code.spec_bytes().len() != 6 ==> !valid)
                &&& (window_of(now as int) matches Some(w) ==> valid == totp_accepts(
                    secret@,
                    code@,
                    w,
                ))
                &&& r == code_check_outcome(*old(attempts), valid, now as int)
                &&& (valid ==> *final(attempts) == *old(attempts))
                &&& (!valid ==> *final(attempts) == old(attempts).after_failure(now as int))
            },
{
    let slice: u64 = if now >= 60 {
        (now / 30) as u64
    } else {
        0
    };
    let valid = verify_totp(secret, code, slice);
    record_code_check(attempts, valid, now)
}

/// The second step of checking a code: a code already used within its reuse window
/// is answered `CodeAlreadyUsed`, before the secret is looked up.
pub fn check_code_reuse(used: bool) -> (r: Option<MfaVerifyResult>)
    ensures
        used ==> r == Some(MfaVerifyResult::CodeAlreadyUsed),
        !used ==> r is None,
{
    if used {
        Some(MfaVerifyResult::CodeAlreadyUsed)
    } else {
        None
    }
}

/// The third step: a user without an enabled MFA record is answered
/// `MfaNotEnabled`.
pub fn check_enabled(has_enabled_record: bool) -> (r: Option<MfaVerifyResult>)
    ensures
        !has_enabled_record ==> r == Some(MfaVerifyResult::MfaNotEnabled),
        has_enabled_record ==> r is None,
{
    if has_enabled_record {
        None
    } else {
        Some(MfaVerifyResult::MfaNotEnabled)
    }
}

/// What is written back after the code was compared with the secret.
#[derive(Clone, Copy, Debug, PartialEq, Eq, Structural)]
pub struct MfaWriteBack {
    pub mark_code_used: bool,
    pub clear_attempts: bool,
    pub store_attempts: bool,
}

/// A valid code is marked used and the attempts cleared; an invalid one has the
/// counted attempts stored.
pub fn write_back(code_valid: bool) -> (w: MfaWriteBack)
    ensures
        w.mark_code_used == code_valid,
        w.clear_attempts == code_valid,
        w.store_attempts == !code_valid,
{
    MfaWriteBack { mark_code_used: code_valid, clear_attempts: code_valid, store_attempts: !code_valid }
}

/// The outcome of a whole check, given what the stores hold: a lock answers first,
/// then a code used within its reuse window, then a missing MFA record; only then is
/// the code compared (`valid`).
pub open spec fn flow_outcome(a: MfaAttempts, used: bool, enabled: bool, valid: bool, now: int) -> MfaVerifyResult {
    if a.locked_at(now) {
        MfaVerifyResult::Locked { locked_until: a.locked_until }
    } else if used {
        MfaVerifyResult::CodeAlreadyUsed
    } else if !enabled {
        MfaVerifyResult::MfaNotEnabled
    } else {
        code_check_outcome(a, valid, now)
    }
}

/// Whether the code gets compared with the secret at all.
pub open spec fn code_compared(a: MfaAttempts, used: bool, enabled: bool, now: int) -> bool {
    !a.locked_at(now) && !used && enabled
}

/// Checks a code the whole way, at instant `now`: `used` is whether the code is
/// marked used for the user, `secret` the decrypted secret of the user's enabled MFA
/// record, if there is one. Returns the outcome and what to write back; the attempts
/// change only when the code was compared.
pub fn verify_mfa_flow(attempts: &mut MfaAttempts, used: bool, secret: Option<&str>, code: &str, now: i64) -> (r:
    (MfaVerifyResult, MfaWriteBack))
    requires
        old(attempts).invalid_mfa_count < u32::MAX,
        now <= i64::MAX - MFA_LOCK_DURATION_SECONDS,
    ensures
        !code_compared(*old(attempts), used, secret is Some, now as int) ==> {
            &&& r.0 == flow_outcome(*old(attempts), used, secret is Some, false, now as int)
            &&& *final(attempts) == *old(attempts)
            &&& !r.1.mark_code_used && !r.1.clear_attempts && !r.1.store_attempts
        },
        code_compared(*old(attempts), used, secret is Some, now as int) ==> exists|valid: bool|
            {
                &&& (code.spec_bytes().len() != 6 ==> !valid)
                &&& (window_of(now as int) matches Some(w) ==> valid == totp_accepts(
                    secret->0@,
                    code@,
                    w,
                ))
                &&& r.0 == flow_outcome(*old(attempts), used, true, valid, now as int)
                &&& (valid ==> *final(attempts) == *old(attempts))
                &&& (!valid ==> *final(attempts) == old(attempts).after_failure(now as int))
                &&& r.1 == (MfaWriteBack {
                    mark_code_used: valid,
                    clear_attempts: valid,
                    store_attempts: !valid,
                })
            },
{
    let none = MfaWriteBack { mark_code_used: false, clear_attempts: false, store_attempts: false };
    match check_lock(attempts, now) {
        Some(locked) => return (locked, none),
        None => {},
    }
    match check_code_reuse(used) {
        Some(refused) => return (refused, none),
        None => {},
    }
    match secret {
        None => (MfaVerifyResult::MfaNotEnabled, none),
        Some(sec) => {
            let ghost before = *attempts;
            let r = check_code(attempts, sec, code, now);
            let valid = match r {
                MfaVerifyResult::Success => true,
                _ => false,
            };
            proof {
                let v = choose|v: bool|
                    {
                        &&& (code.spec_bytes().len() != 6 ==> !v)
                        &&& (window_of(now as int) matches Some(w) ==> v == totp_accepts(
                            sec@,
                            code@,
                            w,
                        ))
                        &&& r == code_check_outcome(before, v, now as int)
                        &&& (v ==> *attempts == before)
                        &&& (!v ==> *attempts == before.after_failure(now as int))
                    };
                assert(valid == v);
            }
            (r, write_back(valid))
        },
    }
}

/// A code used within its reuse window is refused, and the failed-attempt count is
/// not touched, whatever the code is.
pub proof fn lemma_used_code_refused(a: MfaAttempts, enabled: bool, valid: bool, now: int)
    requires
        !a.locked_at(now),
    ensures
        flow_outcome(a, true, enabled, valid, now) == MfaVerifyResult::CodeAlreadyUsed,
        !code_compared(a, true, enabled, now),
{
}

/// What is stored for a user and one code between checks: the attempts, and when the
/// code was last accepted (the mark lasts for the reuse window).
pub struct MfaCodeState {
    pub attempts: MfaAttempts,
    pub used_at: Option<i64>,
}

/// The code is still marked used at instant `now`: it was accepted less than the
/// reuse window before.
pub open spec fn code_in_use(s: MfaCodeState, now: int) -> bool {
    match s.used_at {
        Some(t) => now < t + MFA_CODE_REUSE_TTL_SECONDS,
        None => false,
    }
}

/// What is stored once the code was accepted at `now`: the attempts cleared and the
/// code marked used.
pub open spec fn accepted_state(s: MfaCodeState, now: i64) -> MfaCodeState {
    MfaCodeState { attempts: s.attempts.cleared(), used_at: Some(now) }
}

/// Checks a code against what is stored for the user and that code, and stores the
/// outcome: an accepted code is marked used and the attempts cleared, a refused code
/// that was compared is counted as a failure; when the code is not compared (a lock,
/// the code still marked used, no enabled MFA) nothing stored changes.
pub fn check_stored_code(state: &mut MfaCodeState, secret: Option<&str>, code: &str, now: i64) -> (r:
    MfaVerifyResult)
    requires
        old(state).attempts.invalid_mfa_count < u32::MAX,
        now <= i64::MAX - MFA_LOCK_DURATION_SECONDS,
    ensures
        !code_compared(
            old(state).attempts,
            code_in_use(*old(state), now as int),
            secret is Some,
            now as int,
        ) ==> {
            &&& r == flow_outcome(
                old(state).attempts,
                code_in_use(*old(state), now as int),
                secret is Some,
                false,
                now as int,
            )
            &&& *final(state) == *old(state)
        },
        code_compared(
            old(state).attempts,
            code_in_use(*old(state), now as int),
            secret is Some,
            now as int,
        ) ==> exists|valid: bool|
            {
                &&& (code.spec_bytes().len() != 6 ==> !valid)
                &&& (window_of(now as int) matches Some(w) ==> valid == totp_accepts(
                    secret->0@,
                    code@,
                    w,
                ))
                &&& r == flow_outcome(old(state).attempts, false, true, valid, now as int)
                &&& (valid ==> *final(state) == accepted_state(*old(state), now))
                &&& (!valid ==> *final(state) == (MfaCodeState {
                    attempts: old(state).attempts.after_failure(now as int),
                    used_at: old(state).used_at,
                }))
            },
        r == MfaVerifyResult::Success ==> *final(state) == accepted_state(*old(state), now),
{
    let used = match state.used_at {
        Some(t) => (now as i128) < (t as i128) + (MFA_CODE_REUSE_TTL_SECONDS as i128),
        None => false,
    };
    let (r, w) = verify_mfa_flow(&mut state.attempts, used, secret, code, now);
    if w.clear_attempts {
        state.attempts.reset();
    }
    if w.mark_code_used {
        state.used_at = Some(now);
    }
    r
}

/// A code accepted at `t0` is refused as already used by any later check before its
/// reuse window ends: it is not compared again, and nothing stored changes.
pub proof fn lemma_replayed_code_refused(
    before: MfaCodeState,
    t0: i64,
    t1: int,
    enabled: bool,
    valid: bool,
)
    requires
        t0 <= t1 < t0 + MFA_CODE_REUSE_TTL_SECONDS,
    ensures
        code_in_use(accepted_state(before, t0), t1),
        !code_compared(accepted_state(before, t0).attempts, true, enabled, t1),
        flow_outcome(accepted_state(before, t0).attempts, true, enabled, valid, t1)
            == MfaVerifyResult::CodeAlreadyUsed,
{
}

/// Three failures in a row from a clean state lock MFA: the third one answers
/// `Locked`, and MFA stays locked for the whole lock duration from that instant.
pub proof fn lemma_lock_after_max_failures(a: MfaAttempts, now: int, later: int)
    requires
        a.invalid_mfa_count == 0,
        a.locked_until is None,
        -TIMESTAMP_BOUND < now < TIMESTAMP_BOUND,
        now <= later < now + MFA_LOCK_DURATION_SECONDS,
    ensures
        !a.after_failure(now).locked_at(later),
        !a.after_failure(now).after_failure(now).locked_at(later),
        a.after_failure(now).after_failure(now).after_failure(now).locked_at(later),
        code_check_outcome(a, false, now) == MfaVerifyResult::InvalidCode,
        code_check_outcome(a.after_failure(now), false, now) == MfaVerifyResult::InvalidCode,
        code_check_outcome(a.after_failure(now).after_failure(now), false, now)
            == (MfaVerifyResult::Locked { locked_until: Some((now + MFA_LOCK_DURATION_SECONDS) as i64) }),
{
}

/// A failure adds one to the count and keeps the user; the failure that brings the
/// count to 3 or more locks MFA for 900 seconds from its instant, any other leaves the
/// lock as it was. MFA is locked at an instant exactly when a lock end is stored and
/// the instant is before it. Clearing sets the count to 0 and removes the lock.
pub proof fn lemma_failure_and_lock(a: MfaAttempts, now: int, t: int)
    requires
        a.invalid_mfa_count < u32::MAX,
        i64::MIN <= now + 900 <= i64::MAX,
    ensures
        a.after_failure(now).invalid_mfa_count == a.invalid_mfa_count + 1,
        a.after_failure(now).user_id == a.user_id,
        a.invalid_mfa_count + 1 >= 3 ==> a.after_failure(now).locked_until == Some((now + 900) as i64),
        a.invalid_mfa_count + 1 < 3 ==> a.after_failure(now).locked_until == a.locked_until,
        a.locked_at(t) <==> (a.locked_until matches Some(u) && t < u),
        a.cleared().invalid_mfa_count == 0 && a.cleared().locked_until is None && a.cleared().user_id
            == a.user_id,
{
}

/// A compared code is answered `Success` when valid; an invalid one is answered
/// `Locked`, with the new lock end 900 seconds on, when it is the third failure or
/// later, and `InvalidCode` otherwise.
pub proof fn lemma_code_outcome(a: MfaAttempts, valid: bool, now: int)
    requires
        a.invalid_mfa_count < u32::MAX,
        i64::MIN <= now + 900 <= i64::MAX,
    ensures
        valid ==> code_check_outcome(a, valid, now) == MfaVerifyResult::Success,
        !valid && a.invalid_mfa_count + 1 >= 3 ==> code_check_outcome(a, valid, now)
            == (MfaVerifyResult::Locked { locked_until: Some((now + 900) as i64) }),
        !valid && a.invalid_mfa_count + 1 < 3 ==> code_check_outcome(a, valid, now)
            == MfaVerifyResult::InvalidCode,
{
}

/// The order of a whole check: a lock in force answers `Locked` with its end; else a
/// code still marked used answers `CodeAlreadyUsed`; else a user without enabled MFA
/// is answered `MfaNotEnabled`; only otherwise is the code compared.
pub proof fn lemma_flow_order(a: MfaAttempts, used: bool, enabled: bool, valid: bool, now: int)
    ensures
        (a.locked_until matches Some(u) && now < u) ==> flow_outcome(a, used, enabled, valid, now)
            == (MfaVerifyResult::Locked { locked_until: a.locked_until }),
        !(a.locked_until matches Some(u) && now < u) && used ==> flow_outcome(
            a,
            used,
            enabled,
            valid,
            now,
        ) == MfaVerifyResult::CodeAlreadyUsed,
        !(a.locked_until matches Some(u) && now < u) && !used && !enabled ==> flow_outcome(
            a,
            used,
            enabled,
            valid,
            now,
        ) == MfaVerifyResult::MfaNotEnabled,
        code_compared(a, used, enabled, now) <==> (!(a.locked_until matches Some(u) && now < u)
            && !used && enabled),
        code_compared(a, used, enabled, now) ==> flow_outcome(a, used, enabled, valid, now)
            == code_check_outcome(a, valid, now),
{
}

/// A code stays marked used for 120 seconds from its acceptance; a code never
/// accepted is not marked.
pub proof fn lemma_code_in_use(s: MfaCodeState, now: int)
    ensures
        code_in_use(s, now) <==> (s.used_at matches Some(t) && now < t + 120),
{
}

/// Below the maximum, a failure leaves the lock as it was.
pub proof fn lemma_failure_below_max_keeps_lock(a: MfaAttempts, now: int)
    requires
        a.invalid_mfa_count + 1 < MFA_MAX_FAIL_ATTEMPTS,
    ensures
        a.after_failure(now).locked_until == a.locked_until,
        a.after_failure(now).invalid_mfa_count == a.invalid_mfa_count + 1,
{
}

/// Clearing the attempts unlocks MFA at every instant, and the next failure starts
/// counting from one.
pub proof fn lemma_reset_unlocks(a: MfaAttempts, t: int, now: int)
    ensures
        !a.cleared().locked_at(t),
        a.cleared().after_failure(now).invalid_mfa_count == 1,
        !a.cleared().after_failure(now).locked_at(t),
{
}

/// A valid code always succeeds once the lock check has passed, whatever the count.
pub proof fn lemma_valid_code_succeeds(a: MfaAttempts, now: int)
    ensures
        code_check_outcome(a, true, now) == MfaVerifyResult::Success,
{
}

// ---------------------------------------------------------------------------
// How outcomes are answered
// ---------------------------------------------------------------------------

/// The HTTP refusal of a request guarded by MFA, when the outcome is not a success:
/// 403 for a lock, 401 for a reused or wrong code, 400 when MFA is not enabled.
pub open spec fn gate_refusal(r: MfaVerifyResult) -> Option<(u16, Seq<char>)> {
    match r {
        MfaVerifyResult::Success => None,
        MfaVerifyResult::Locked { locked_until } => Some((403u16, locked_message(locked_until))),
        MfaVerifyResult::CodeAlreadyUsed => Some((401u16, "MFA code has already been used"@)),
        MfaVerifyResult::InvalidCode => Some((401u16, "Invalid authenticator code"@)),
        MfaVerifyResult::MfaNotEnabled => Some((400u16, "MFA is not enabled for this user"@)),
    }
}

/// Answers an MFA-guarded request (login, creating or scheduling a request): `None`
/// lets it go on, otherwise the status and message it is refused with.
pub fn gate_rejection(r: &MfaVerifyResult) -> (e: Option<(u16, String)>)
    ensures
        match gate_refusal(*r) {
            None => e is None,
            Some((code, msg)) => match e {
                Some(pair) => pair.0 == code && pair.1@ == msg,
                None => false,
            },
        },
{
    match r {
        MfaVerifyResult::Success => None,
        MfaVerifyResult::Locked { locked_until } => Some((403, locked_message_exec(*locked_until))),
        MfaVerifyResult::CodeAlreadyUsed => Some(
            (401, String::from_str("MFA code has already been used")),
        ),
        MfaVerifyResult::InvalidCode => Some((401, String::from_str("Invalid authenticator code"))),
        MfaVerifyResult::MfaNotEnabled => Some(
            (400, String::from_str("MFA is not enabled for this user")),
        ),
    }
}

/// The refusal when MFA is enabled but the request carries no code.
pub fn missing_code_rejection() -> (e: (u16, String))
    ensures
        e.0 == 400,
        e.1@ == "MFA is enabled. Please provide authenticator_code"@,
{
    (400, String::from_str("MFA is enabled. Please provide authenticator_code"))
}

/// The report of a code check to a remote caller or a test client.
pub struct MfaCheckReply {
    pub is_valid: bool,
    pub reason: String,
    pub message: String,
    pub locked_until: Option<i64>,
}

/// The reason code, message and lock end reported for each outcome.
pub open spec fn reply_of(r: MfaVerifyResult) -> (bool, Seq<char>, Seq<char>, Option<i64>) {
    match r {
        MfaVerifyResult::Success => (true, "success"@, "MFA code verified successfully"@, None),
        MfaVerifyResult::Locked { locked_until } => (
            false,
            "locked"@,
            "MFA is locked"@ + match locked_until {
                Some(u) => " until "@ + signed_decimal(u as int),
                None => Seq::<char>::empty(),
            },
            locked_until,
        ),
        MfaVerifyResult::CodeAlreadyUsed => (
            false,
            "code_already_used"@,
            "MFA code has already been used"@,
            None,
        ),
        MfaVerifyResult::InvalidCode => (false, "invalid_code"@, "Invalid MFA code"@, None),
        MfaVerifyResult::MfaNotEnabled => (
            false,
            "mfa_not_enabled"@,
            "MFA is not enabled for this user"@,
            None,
        ),
    }
}

/// Reports the outcome of a code check.
pub fn check_reply(r: &MfaVerifyResult) -> (out: MfaCheckReply)
    ensures
        (out.is_valid, out.reason@, out.message@, out.locked_until) == reply_of(*r),
{
    match r {
        MfaVerifyResult::Success => MfaCheckReply {
            is_valid: true,
            reason: String::from_str("success"),
            message: String::from_str("MFA code verified successfully"),
            locked_until: None,
        },
        MfaVerifyResult::Locked { locked_until } => {
            let message = match locked_until {
                Some(u) => {
                    let d = i64_to_decimal(*u);
                    concat3("MFA is locked", " until ", d.as_str())
                },
                None => String::from_str("MFA is locked"),
            };
            proof {
                match locked_until {
                    Some(u) => {
                        assert(message@ =~= "MFA is locked"@ + (" until "@ + signed_decimal(
                            *u as int,
                        )));
                    },
                    None => {
                        assert(message@ =~= "MFA is locked"@ + Seq::<char>::empty());
                    },
                }
            }
            MfaCheckReply {
                is_valid: false,
                reason: String::from_str("locked"),
                message,
                locked_until: *locked_until,
            }
        },
        MfaVerifyResult::CodeAlreadyUsed => MfaCheckReply {
            is_valid: false,
            reason: String::from_str("code_already_used"),
            message: String::from_str("MFA code has already been used"),
            locked_until: None,
        },
        MfaVerifyResult::InvalidCode => MfaCheckReply {
            is_valid: false,
            reason: String::from_str("invalid_code"),
            message: String::from_str("Invalid MFA code"),
            locked_until: None,
        },
        MfaVerifyResult::MfaNotEnabled => MfaCheckReply {
            is_valid: false,
            reason: String::from_str("mfa_not_enabled"),
            message: String::from_str("MFA is not enabled for this user"),
            locked_until: None,
        },
    }
}

/// The lock end sent over RPC: the end when it is positive, 0 otherwise.
pub fn rpc_locked_until(reply: &MfaCheckReply) -> (t: i64)
    ensures
        t == match reply.locked_until {
            Some(u) => if u > 0 { u } else { 0 },
            None => 0,
        },
{
    let u = match reply.locked_until {
        Some(u) => u,
        None => 0,
    };
    if u > 0 {
        u
    } else {
        0
    }
}

/// Refusal of a malformed RPC check request: both the user and the code are required.
pub fn rpc_request_error(user_id: &str, code: &str) -> (e: Option<String>)
    ensures
        user_id@.len() == 0 ==> e is Some && e->0@ == "user_id is required"@,
        user_id@.len() != 0 && code@.len() == 0 ==> e is Some && e->0@
            == "authenticator_code is required"@,
        user_id@.len() != 0 && code@.len() != 0 ==> e is None,
{
    if user_id.is_empty() {
        Some(String::from_str("user_id is required"))
    } else if code.is_empty() {
        Some(String::from_str("authenticator_code is required"))
    } else {
        None
    }
}

/// How each outcome is answered. An MFA-guarded request goes on after a success and
/// is otherwise refused: 403 with the lock message for a lock, 401 for a reused or a
/// wrong code, 400 when MFA is not enabled. A sibling service is told whether the
/// code was valid, a reason word (`success`, `locked`, `code_already_used`,
/// `invalid_code`, `mfa_not_enabled`), a message, and the lock end for a lock.
pub proof fn lemma_outcome_answers(r: MfaVerifyResult)
    ensures
        r is Success ==> gate_refusal(r) is None && reply_of(r) == (
            true,
            "success"@,
            "MFA code verified successfully"@,
            None::<i64>,
        ),
        r matches MfaVerifyResult::Locked { locked_until } ==> gate_refusal(r) == Some(
            (403u16, locked_message(locked_until)),
        ) && reply_of(r).0 == false && reply_of(r).1 == "locked"@ && reply_of(r).3 == locked_until,
        r is CodeAlreadyUsed ==> gate_refusal(r) == Some((401u16, "MFA code has already been used"@))
            && reply_of(r) == (false, "code_already_used"@, "MFA code has already been used"@, None::<i64>),
        r is InvalidCode ==> gate_refusal(r) == Some((401u16, "Invalid authenticator code"@))
            && reply_of(r) == (false, "invalid_code"@, "Invalid MFA code"@, None::<i64>),
        r is MfaNotEnabled ==> gate_refusal(r) == Some((400u16, "MFA is not enabled for this user"@))
            && reply_of(r) == (false, "mfa_not_enabled"@, "MFA is not enabled for this user"@, None::<i64>),
        locked_message(None) == "MFA is locked due to too many failed attempts"@,
        r matches MfaVerifyResult::Locked { locked_until } ==> (locked_until matches Some(u) ==> locked_message(locked_until)
            == "MFA is locked until "@ + signed_decimal(u as int) + " (too many failed attempts)"@),
{
}

/// The 30-second window of an instant from one minute after the epoch on: the window
/// holding the instant, and at least 2.
pub proof fn lemma_window(now: int)
    requires
        now <= u64::MAX,
    ensures
        now < 60 ==> window_of(now) is None,
        60 <= now ==> (window_of(now) matches Some(w) && 30 * w <= now < 30 * w + 30 && w >= 2),
{
}

} // verus!
