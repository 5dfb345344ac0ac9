use auth_service::roles::{RoleEnum, UserRole};
use auth_service::users::{
    activation_summary, check_activation, check_manager_view, check_role_change, check_view,
    creation_chain_request, csv_needs_student_code, csv_role, csv_student_code, default_page,
    default_page_size, deletion_chain_request, full_name, join_major_ids, next_student_code,
    number_bulk_rows, registration_messages, select_student_emails, split_major_ids,
    student_code_shown, CreationChainRequest, DeletionChainRequest, ExcelUserRow, StoredStudent,
    UserCsvColumn,
};
use auth_service::users::{
    account_update, bulk_answer, majors_after_update, new_account, stored_latest_code,
    NewAccount, UpdateUserRequest,
};

fn row(role: &str) -> ExcelUserRow {
    ExcelUserRow {
        first_name: "An".into(),
        last_name: "Nguyen".into(),
        address: "Ha Noi".into(),
        email: "an@example.com".into(),
        password: "secret1".into(),
        cccd: "001".into(),
        phone_number: "0900".into(),
        role: role.into(),
        student_code: None,
    }
}

fn csv(role: &str, email: &str) -> UserCsvColumn {
    UserCsvColumn {
        address: "a".into(),
        cccd: "c".into(),
        email: email.into(),
        first_name: "f".into(),
        last_name: "l".into(),
        major_ids: vec![],
        password: "p".into(),
        phone_number: "0".into(),
        role: role.into(),
        file_name: None,
        row_number: None,
    }
}

#[test]
fn import_rows_are_validated_in_order() {
    assert_eq!(row("Student").validate(), Ok(()));
    assert_eq!(row("MANAGER").validate(), Ok(()));
    let mut r = row("student");
    r.first_name = String::new();
    assert_eq!(r.validate(), Err("First name is required".to_string()));
    let mut r = row("student");
    r.last_name = String::new();
    assert_eq!(r.validate(), Err("Last name is required".to_string()));
    let mut r = row("student");
    r.email = "no-at-sign".into();
    assert_eq!(r.validate(), Err("Valid email is required".to_string()));
    let mut r = row("student");
    r.password = "12345".into();
    assert_eq!(r.validate(), Err("Password must be at least 6 characters".to_string()));
    let mut r = row("student");
    r.password = "ệệ".into();
    assert_eq!(r.validate(), Ok(()), "six bytes of UTF-8 are enough");
    assert_eq!(row("guest").validate(), Err("Invalid role: guest".to_string()));
}

#[test]
fn import_roles_are_case_insensitive() {
    assert_eq!(row("Teacher").parse_role(), Ok(RoleEnum::Teacher));
    assert_eq!(row("ADMIN").parse_role(), Ok(RoleEnum::Admin));
    assert_eq!(row("Boss").parse_role(), Err("Invalid role: Boss".to_string()));
}

#[test]
fn bulk_roles_are_exact() {
    assert_eq!(csv_role("Student"), Ok(RoleEnum::Student));
    assert_eq!(csv_role("Manager"), Ok(RoleEnum::Manager));
    assert_eq!(csv_role("Admin"), Ok(RoleEnum::Admin));
    assert_eq!(csv_role("student"), Err("Invalid role".to_string()));
    assert_eq!(csv_role("Teacher"), Err("Invalid role".to_string()));
    assert!(csv_needs_student_code("Student"));
    assert!(!csv_needs_student_code("student"));
}

#[test]
fn student_codes_count_up() {
    assert_eq!(next_student_code("000041"), "000042");
    assert_eq!(next_student_code("999999"), "1000000");
    assert_eq!(next_student_code("garbage"), "000001");
    assert_eq!(next_student_code("-10"), "-00009");
    let mut code = "000000".to_string();
    for n in 1..=25 {
        code = next_student_code(&code);
        assert_eq!(code, format!("{:06}", n));
    }
    assert_eq!(csv_student_code("Student", "000009"), Some("000010".to_string()));
    assert_eq!(csv_student_code("Manager", "000009"), None);
}

#[test]
fn major_cells_round_trip() {
    assert_eq!(split_major_ids(""), Vec::<String>::new());
    assert_eq!(split_major_ids(" a ; b;c "), vec!["a", "b", "c"]);
    assert_eq!(split_major_ids("a;;b"), vec!["a", "", "b"]);
    assert_eq!(split_major_ids(";"), vec!["", ""]);
    let ids = vec!["m1".to_string(), "m2".to_string(), "m3".to_string()];
    let cell = join_major_ids(&ids);
    assert_eq!(cell, "m1;m2;m3");
    assert_eq!(split_major_ids(&cell), ids);
    assert_eq!(join_major_ids(&vec![]), "");
}

#[test]
fn activation_reports() {
    assert_eq!(
        activation_summary(5, 0),
        (200, "Blockchain registration activated for 5 students".to_string())
    );
    assert_eq!(
        activation_summary(3, 2),
        (206, "Blockchain registration activated for 3 students, 2 failed".to_string())
    );
    assert_eq!(full_name("An", "Nguyen"), "An Nguyen");
}

#[test]
fn student_emails_of_a_file() {
    let rows = vec![csv("Student", "a@x"), csv("Manager", "b@x"), csv("STUDENT", "c@x")];
    assert_eq!(select_student_emails(&rows), vec!["a@x", "c@x"]);
    assert_eq!(select_student_emails(&vec![]), Vec::<String>::new());
}

#[test]
fn bulk_rows_are_numbered_from_one() {
    let mut rows = vec![csv("Student", "a@x"), csv("Admin", "b@x")];
    number_bulk_rows(&mut rows, "f.csv");
    assert_eq!(rows[0].row_number, Some(1));
    assert_eq!(rows[1].row_number, Some(2));
    assert_eq!(rows[1].file_name.as_deref(), Some("f.csv"));
    assert_eq!(rows[1].email, "b@x");
}

#[test]
fn chain_requests_per_role() {
    assert_eq!(creation_chain_request(RoleEnum::Student), CreationChainRequest::RegisterStudent);
    assert_eq!(creation_chain_request(RoleEnum::Manager), CreationChainRequest::RegisterManager);
    assert_eq!(creation_chain_request(RoleEnum::Admin), CreationChainRequest::AssignRole(3));
    assert_eq!(creation_chain_request(RoleEnum::Teacher), CreationChainRequest::AssignRole(2));
    assert_eq!(deletion_chain_request(RoleEnum::Manager, 0), DeletionChainRequest::RemoveManager);
    assert_eq!(
        deletion_chain_request(RoleEnum::Student, 9),
        DeletionChainRequest::DeactivateStudent(9)
    );
    assert_eq!(deletion_chain_request(RoleEnum::Student, 0), DeletionChainRequest::Nothing);
    assert_eq!(deletion_chain_request(RoleEnum::Admin, 9), DeletionChainRequest::Nothing);
}

#[test]
fn who_may_view_and_change_accounts() {
    assert_eq!(check_view(UserRole::ADMIN, "a", "b"), Ok(()));
    assert_eq!(check_view(UserRole::MANAGER, "a", "b"), Ok(()));
    assert_eq!(check_view(UserRole::STUDENT, "a", "a"), Ok(()));
    assert_eq!(
        check_view(UserRole::STUDENT, "a", "b"),
        Err((403, "You can only view your own profile".to_string()))
    );
    assert_eq!(
        check_manager_view(UserRole::MANAGER, "m1", "t1", RoleEnum::Teacher),
        Err((403, "Managers can only view student accounts".to_string()))
    );
    assert_eq!(check_manager_view(UserRole::MANAGER, "m1", "s1", RoleEnum::Student), Ok(()));
    assert_eq!(check_manager_view(UserRole::MANAGER, "m1", "m1", RoleEnum::Manager), Ok(()));
    assert_eq!(check_manager_view(UserRole::ADMIN, "a1", "t1", RoleEnum::Teacher), Ok(()));
    assert_eq!(
        check_role_change(UserRole::MANAGER, true),
        Err((403, "Only admin can change user roles".to_string()))
    );
    assert_eq!(check_role_change(UserRole::MANAGER, false), Ok(()));
    assert_eq!(check_role_change(UserRole::ADMIN, true), Ok(()));
    assert_eq!(student_code_shown(None), "Not Student");
    assert_eq!(student_code_shown(Some("000001".into())), "000001");
}

#[test]
fn activation_needs_students() {
    assert_eq!(check_activation(0, 1, 1), Err((400, "No students found in CSV file".to_string())));
    assert_eq!(
        check_activation(2, 0, 0),
        Err((
            400,
            "No students found for this file upload. Make sure students were created successfully first."
                .to_string()
        ))
    );
    assert_eq!(
        check_activation(2, 1, 0),
        Err((400, "No students found for blockchain registration".to_string()))
    );
    assert_eq!(check_activation(2, 2, 2), Ok(()));
}

#[test]
fn registration_messages_for_students_only() {
    let found = vec![
        StoredStudent {
            first_name: "An".into(),
            last_name: "Le".into(),
            email: "an@x".into(),
            student_code: Some("000007".into()),
            role: RoleEnum::Student,
            wallet_address: "0xa".into(),
        },
        StoredStudent {
            first_name: "Bo".into(),
            last_name: "Tran".into(),
            email: "bo@x".into(),
            student_code: None,
            role: RoleEnum::Manager,
            wallet_address: "0xb".into(),
        },
        StoredStudent {
            first_name: "Cu".into(),
            last_name: "Vo".into(),
            email: "cu@x".into(),
            student_code: None,
            role: RoleEnum::Student,
            wallet_address: "0xc".into(),
        },
    ];
    let msgs = registration_messages(&found, "key", "file-1");
    assert_eq!(msgs.len(), 2);
    assert_eq!(msgs[0].wallet_address, "0xa");
    assert_eq!(msgs[0].student_code, "000007");
    assert_eq!(msgs[0].full_name, "An Le");
    assert_eq!(msgs[1].email, "cu@x");
    assert_eq!(msgs[1].student_code, "");
    assert_eq!(msgs[1].private_key, "key");
    assert_eq!(msgs[1].file_upload_history_id.as_deref(), Some("file-1"));
}

#[test]
fn list_defaults() {
    assert_eq!(default_page(), 1);
    assert_eq!(default_page_size(), 20);
}

fn account_for(role: RoleEnum, latest: &str) -> NewAccount {
    new_account(
        "An".into(),
        "Nguyen".into(),
        "Ha Noi".into(),
        "an@example.com".into(),
        "hashed".into(),
        "001".into(),
        "0900".into(),
        role,
        latest,
        1_700_000_000,
    )
}

#[test]
fn a_new_student_gets_the_next_code_and_must_change_password() {
    let a = account_for(RoleEnum::Student, "000041");
    assert_eq!(a.student_code, Some("000042".to_string()));
    assert!(a.is_first_login);
    assert!(!a.is_priority);
    assert_eq!(a.role, RoleEnum::Student);
    assert_eq!(a.password, "hashed");
    assert_eq!(a.created_at, 1_700_000_000);
    assert_eq!(a.updated_at, 1_700_000_000);
}

#[test]
fn other_new_accounts_get_no_student_code() {
    for role in [RoleEnum::Manager, RoleEnum::Teacher, RoleEnum::Admin] {
        let a = account_for(role, "000041");
        assert_eq!(a.student_code, None);
        assert!(a.is_first_login);
    }
}

#[test]
fn the_first_student_code_follows_the_default() {
    let latest = stored_latest_code(None);
    assert_eq!(latest, "000000");
    assert_eq!(account_for(RoleEnum::Student, &latest).student_code, Some("000001".to_string()));
    assert_eq!(stored_latest_code(Some("000123".into())), "000123");
}

#[test]
fn bulk_registration_is_answered_created_with_its_counts() {
    let (status, r) = bulk_answer(3);
    assert_eq!(status, 201);
    assert_eq!(r.total_records, 3);
    assert_eq!(r.successful, 3);
    assert_eq!(r.failed, 0);
    assert!(r.errors.is_empty());
}

fn empty_update() -> UpdateUserRequest {
    UpdateUserRequest {
        first_name: None,
        last_name: None,
        address: None,
        email: None,
        password: None,
        cccd: None,
        phone_number: None,
        role: None,
        major_ids: None,
    }
}

#[test]
fn an_update_sets_given_fields_and_keeps_the_rest() {
    let mut req = empty_update();
    req.first_name = Some("Binh".into());
    req.role = Some(RoleEnum::Teacher);
    req.major_ids = Some(vec![7, 9]);
    let (u, majors) = account_update(req).ok().unwrap();
    assert_eq!(u.first_name, Some("Binh".to_string()));
    assert_eq!(u.last_name, None);
    assert_eq!(u.password, None);
    assert_eq!(u.role, Some(RoleEnum::Teacher));
    assert_eq!(u.is_priority, None);
    assert_eq!(u.is_first_login, None);
    assert_eq!(majors, Some(vec![7, 9]));
    assert_eq!(majors_after_update(vec![1, 2], majors), vec![7, 9]);
    assert_eq!(majors_after_update(vec![1, 2], None), vec![1, 2]);
}

#[test]
fn an_update_stores_a_new_password_hashed() {
    let mut req = empty_update();
    req.password = Some("n3w-secret".into());
    let (u, majors) = account_update(req).ok().unwrap();
    let h = u.password.unwrap();
    assert_eq!(h.len(), 60);
    assert!(h.starts_with("$2b$"));
    assert_ne!(h, "n3w-secret");
    assert!(bcrypt::verify("n3w-secret", &h).unwrap());
    assert_eq!(majors, None);
}
