use auth_service::ids::parse_id_list;
use auth_service::access::{check_access, GuardedAction};
use auth_service::datetime::{at_time, DateTimeParts};
use auth_service::http_log::{
    body_read_refusal, fields_to_redact, headers_to_redact, is_file_upload, redacted,
    should_ignore_path, should_log_body, should_log_request,
};
use auth_service::http_log::{redact_body, redact_headers, redact_object, JsonBody, RedactedBody};
use auth_service::ids::{id_decision, parse_id};
use auth_service::messages::{
    mail_message, plan_batch_result, plan_chain_result, plan_row_result, ChainOperation,
    ProgressCounter,
};
use auth_service::mfa::MfaVerifyResult;
use auth_service::profile::{department_ids, profile_is_active, wallet_missing};
use auth_service::repositories::{apply_update, AccountFields, UserUpdate};
use auth_service::roles::{RoleEnum, UserRole, UserStatus};
use auth_service::rpc::{MfaServiceImpl, RpcCode, WalletServiceImpl};
use auth_service::upload::{chunk_progress_response, history_paging};

fn strings(v: &[&str]) -> Vec<String> {
    v.iter().map(|s| s.to_string()).collect()
}

#[test]
fn identifiers_are_read_as_uuids() {
    let id = "67e55044-10b1-426f-9247-bb680e5fe0c8";
    assert_eq!(parse_id(id, "user_id", 500), Ok(0x67e5504410b1426f9247bb680e5fe0c8));
    let (code, msg) = parse_id("nope", "request_id", 400).unwrap_err();
    assert_eq!(code, 400);
    assert!(msg.starts_with("Invalid request_id: "));
    assert!(msg.len() > "Invalid request_id: ".len());
    assert_eq!(
        id_decision(Err("bad".into()), "user_id", 500),
        Err((500, "Invalid user_id: bad".to_string()))
    );
}

#[test]
fn request_log_rules() {
    assert!(should_ignore_path("/health"));
    assert!(should_ignore_path("/health/"));
    assert!(!should_ignore_path("/healthz"));
    assert!(is_file_upload(Some("multipart/form-data; boundary=x")));
    assert!(!is_file_upload(Some("application/json")));
    assert!(!is_file_upload(None));
    assert!(should_log_body("POST") && should_log_body("PUT") && should_log_body("PATCH"));
    assert!(!should_log_body("GET"));
    assert!(!should_log_request("OPTIONS"));
    assert!(should_log_request("GET"));
    assert_eq!(redacted(), "[REDACTED]");
    assert_eq!(
        body_read_refusal("request", "eof"),
        (400, "failed to read request body: eof".to_string())
    );
}

#[test]
fn sensitive_fields_and_headers_are_hidden() {
    let keys = strings(&["email", "secret", "password", "name", "private_key"]);
    assert_eq!(fields_to_redact(&keys), strings(&["password", "secret", "private_key"]));
    assert!(fields_to_redact(&strings(&["email"])).is_empty());
    let headers = strings(&["content-type", "cookie", "authorization", "x-request-id"]);
    assert_eq!(headers_to_redact(&headers), strings(&["authorization", "cookie"]));
}

#[test]
fn chain_results_are_followed_up() {
    let ok = plan_chain_result(ChainOperation::RegisterStudent, Ok(()), "a@x", "000001", Some("f1".into()));
    assert_eq!(ok.new_status, UserStatus::Sync);
    assert_eq!(ok.progress, Some(("f1".to_string(), ProgressCounter::Success)));
    assert_eq!(ok.notice.status, "success");
    assert_eq!(ok.notice.message, "Register student on blockchain successfully.");
    assert_eq!(ok.notice.student_code.as_deref(), Some("000001"));
    assert!(ok.notice.reason.is_none());
    let bad = plan_chain_result(ChainOperation::RemoveManager, Err("gas".into()), "m@x", "", Some("f1".into()));
    assert_eq!(bad.new_status, UserStatus::Failed);
    assert!(bad.progress.is_none());
    assert_eq!(bad.notice.reason.as_deref(), Some("gas"));
    assert_eq!(
        bad.notice.message,
        "Failed to remove manager from blockchain. Please try again or contact with admin"
    );
    assert!(bad.notice.student_code.is_none());
    let failed_student = plan_chain_result(ChainOperation::RegisterStudent, Err("x".into()), "a@x", "7", None);
    assert!(failed_student.progress.is_none());
    let (status, notice) = plan_batch_result(Ok(()), 12);
    assert_eq!(status, UserStatus::Sync);
    assert_eq!(notice.total_students, Some(12));
    assert_eq!(notice.message, "Batch register students on blockchain successfully.");
    let (status, notice) = plan_batch_result(Err("down".into()), 3);
    assert_eq!(status, UserStatus::Failed);
    assert_eq!(notice.status, "failed");
}

#[test]
fn bulk_rows_move_the_file_progress() {
    let f = Some("f.csv".to_string());
    assert_eq!(
        plan_row_result(true, &f, Some(4)),
        (Some(("f.csv".to_string(), 4)), Some(("f.csv".to_string(), ProgressCounter::Success)))
    );
    assert_eq!(
        plan_row_result(true, &f, None),
        (None, Some(("f.csv".to_string(), ProgressCounter::Success)))
    );
    assert_eq!(
        plan_row_result(false, &f, Some(4)),
        (None, Some(("f.csv".to_string(), ProgressCounter::Failed)))
    );
    assert_eq!(plan_row_result(true, &None, Some(4)), (None, None));
    let m = mail_message("a@x", "Hi", "Body");
    assert_eq!((m.pattern.as_str(), m.to.as_str(), m.subject.as_str(), m.text.as_str()), ("send-email", "a@x", "Hi", "Body"));
}

#[test]
fn guarded_actions_by_role() {
    assert_eq!(check_access(UserRole::ADMIN, GuardedAction::DeleteMajor), Ok(()));
    assert_eq!(check_access(UserRole::MANAGER, GuardedAction::CreateMajor), Ok(()));
    assert_eq!(
        check_access(UserRole::MANAGER, GuardedAction::DeleteDepartment),
        Err((403, "Only admin can delete departments".to_string()))
    );
    assert_eq!(
        check_access(UserRole::STUDENT, GuardedAction::UpdateDepartment),
        Err((403, "Only admin or manager can update departments".to_string()))
    );
    assert_eq!(
        check_access(UserRole::MANAGER, GuardedAction::AddManager),
        Err((403, "Only admin can add managers".to_string()))
    );
    assert_eq!(
        check_access(UserRole::TEACHER, GuardedAction::ActivateRegistration),
        Err((403, "Only admin or manager can activate blockchain registration".to_string()))
    );
}

#[test]
fn profile_departments_are_distinct_and_sorted() {
    assert_eq!(department_ids(&vec![Some(5), None, Some(2), Some(5), Some(9), Some(2)]), vec![2, 5, 9]);
    assert!(department_ids(&vec![None, None]).is_empty());
    assert!(profile_is_active(RoleEnum::Teacher, None));
    assert!(!profile_is_active(RoleEnum::Student, None));
    assert!(profile_is_active(RoleEnum::Student, Some(true)));
    assert_eq!(wallet_missing(), (404, "Wallet not found".to_string()));
}

#[test]
fn remote_answers() {
    let ok = MfaServiceImpl::answer(Ok(MfaVerifyResult::Locked { locked_until: Some(99) })).unwrap();
    assert!(!ok.is_valid);
    assert_eq!(ok.reason, "locked");
    assert_eq!(ok.locked_until, 99);
    let err = MfaServiceImpl::answer(Err("redis down".into())).err().unwrap();
    assert_eq!(err, (RpcCode::Internal, "Failed to verify MFA code: redis down".to_string()));
    let key = WalletServiceImpl::answer(Ok("0xkey".into())).ok().unwrap();
    assert!(key.success);
    assert_eq!(key.private_key, "0xkey");
    assert_eq!(key.message, "Private key exported successfully");
    let missing = WalletServiceImpl::answer(Err("no wallet".into())).err().unwrap();
    assert_eq!(missing, (RpcCode::NotFound, "Failed to export private key: no wallet".to_string()));
    let (code, msg) = WalletServiceImpl::request_user("xyz").unwrap_err();
    assert_eq!(code, RpcCode::InvalidArgument);
    assert!(msg.starts_with("Invalid user_id: "));
}

#[test]
fn upload_answers() {
    let r = chunk_progress_response("a.xlsx".into(), 10, 10, 100);
    assert!(r.complete);
    assert!(!chunk_progress_response("a".into(), 0, 0, 0).complete);
    assert_eq!(history_paging(None, None), (1, 20));
    assert_eq!(history_paging(Some(0), Some(500)), (1, 20));
    assert_eq!(history_paging(Some(4), Some(50)), (4, 50));
}

#[test]
fn account_updates_keep_what_is_not_given() {
    let mut a = AccountFields {
        first_name: "An".into(),
        last_name: "Le".into(),
        address: "HN".into(),
        email: "a@x".into(),
        password: "h1".into(),
        cccd: "1".into(),
        phone_number: "0".into(),
        role: RoleEnum::Student,
        is_priority: false,
        is_first_login: true,
        updated_at: 1,
    };
    apply_update(&mut a, UserUpdate::default(), 5);
    assert_eq!(a.first_name, "An");
    assert_eq!(a.updated_at, 5);
    let u = UserUpdate { email: Some("b@x".into()), role: Some(RoleEnum::Teacher), ..UserUpdate::default() };
    apply_update(&mut a, u, 6);
    assert_eq!(a.email, "b@x");
    assert_eq!(a.role, RoleEnum::Teacher);
    assert_eq!(a.password, "h1");
    let u2 = UserUpdate::password_only("h2".into());
    apply_update(&mut a, u2, 7);
    assert_eq!(a.password, "h2");
    assert_eq!(a.email, "b@x");
}

#[test]
fn times_of_day() {
    assert_eq!(
        at_time(2024, 2, 29, 23, 59, 59),
        DateTimeParts { year: 2024, month: 2, day: 29, hour: 23, minute: 59, second: 59, nanosecond: 0 }
    );
}

#[test]
fn id_lists_parse_all_or_nothing() {
    let ids = strings(&["67e55044-10b1-426f-9247-bb680e5fe0c8", "00000000-0000-0000-0000-000000000001"]);
    assert_eq!(parse_id_list(&ids), Some(vec![0x67e5504410b1426f9247bb680e5fe0c8, 1]));
    let bad = strings(&["00000000-0000-0000-0000-000000000001", "nope"]);
    assert_eq!(parse_id_list(&bad), None);
    assert_eq!(parse_id_list(&vec![]), Some(vec![]));
}

fn pairs(items: &[(&str, i32)]) -> Vec<(String, i32)> {
    items.iter().map(|(k, v)| (k.to_string(), *v)).collect()
}

#[test]
fn redacting_an_object_hides_only_sensitive_fields_in_place() {
    let out = redact_object(pairs(&[("email", 1), ("password", 2), ("token", 3), ("name", 4)]));
    assert_eq!(
        out,
        vec![
            ("email".to_string(), Some(1)),
            ("password".to_string(), None),
            ("token".to_string(), None),
            ("name".to_string(), Some(4)),
        ]
    );
    assert!(redact_object(Vec::<(String, i32)>::new()).is_empty());
}

#[test]
fn redacting_headers_keeps_every_name_once_hidden() {
    let out = redact_headers(pairs(&[
        ("authorization", 1),
        ("accept", 2),
        ("cookie", 3),
        ("cookie", 4),
        ("accept", 5),
    ]));
    assert_eq!(
        out,
        vec![
            ("accept".to_string(), Some(2)),
            ("accept".to_string(), Some(5)),
            ("authorization".to_string(), None),
            ("cookie".to_string(), None),
        ]
    );
}

#[test]
fn redacting_a_body_leaves_non_objects_alone() {
    match redact_body(JsonBody::Other(5)) {
        RedactedBody::Other(v) => assert_eq!(v, 5),
        RedactedBody::Object(_) => panic!("a non-object stays a non-object"),
    }
    match redact_body(JsonBody::Object(pairs(&[("jwt", 1), ("page", 2)]))) {
        RedactedBody::Object(out) => {
            assert_eq!(out, vec![("jwt".to_string(), None), ("page".to_string(), Some(2))])
        }
        RedactedBody::Other(_) => panic!("an object stays an object"),
    }
}
