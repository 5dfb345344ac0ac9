use auth_service::datetime::DateTimeParts;
use auth_service::requests::{
    check_content, default_page, default_page_size, manager_access, normalize_paging,
    own_requests_paging, page_offset, parse_schedule_time, request_not_found, schedule_mail,
    schedule_success_message, total_pages, ManagerAction,
};
use auth_service::roles::UserRole;

#[test]
fn empty_content_is_refused() {
    assert_eq!(check_content("  \n"), Err((400, "Content cannot be empty".to_string())));
    assert_eq!(check_content(""), Err((400, "Content cannot be empty".to_string())));
    assert_eq!(check_content(" please "), Ok(()));
}

#[test]
fn managers_and_admins_schedule_and_list() {
    assert_eq!(manager_access(UserRole::MANAGER, ManagerAction::Schedule), Ok(()));
    assert_eq!(manager_access(UserRole::ADMIN, ManagerAction::ViewAll), Ok(()));
    assert_eq!(
        manager_access(UserRole::STUDENT, ManagerAction::Schedule),
        Err((403, "Only managers and admins can schedule requests".to_string()))
    );
    assert_eq!(
        manager_access(UserRole::TEACHER, ManagerAction::ViewAll),
        Err((403, "Only managers and admins can view all requests".to_string()))
    );
}

#[test]
fn paging_is_normalised() {
    assert_eq!(default_page(), 1);
    assert_eq!(default_page_size(), 20);
    assert_eq!(normalize_paging(0, 0), (1, 20));
    assert_eq!(normalize_paging(3, 101), (3, 20));
    assert_eq!(normalize_paging(2, 100), (2, 100));
    assert_eq!(page_offset(3, 20), 40);
    assert_eq!(page_offset(1, 20), 0);
    assert_eq!(own_requests_paging(7), (1, 7, 1));
    assert_eq!(own_requests_paging((1u64 << 32) + 5), (1, 5, 1));
}

#[test]
fn page_counts_round_up() {
    assert_eq!(total_pages(0, 20), 0);
    assert_eq!(total_pages(1, 20), 1);
    assert_eq!(total_pages(20, 20), 1);
    assert_eq!(total_pages(21, 20), 2);
    assert_eq!(total_pages(u64::MAX, 1), u64::MAX);
    for total in 0..300u64 {
        for size in [1u32, 7, 20, 100] {
            let expected = (total as f64 / size as f64).ceil() as u64;
            assert_eq!(total_pages(total, size), expected, "total {total} size {size}");
        }
    }
}

#[test]
fn schedule_times_in_both_forms() {
    let t = parse_schedule_time("2024-05-06T07:08:09").unwrap();
    assert_eq!(t, DateTimeParts { year: 2024, month: 5, day: 6, hour: 7, minute: 8, second: 9, nanosecond: 0 });
    let s = parse_schedule_time("2024-05-06 07:08:09").unwrap();
    assert_eq!(s, t);
    let (code, msg) = parse_schedule_time("06/05/2024").unwrap_err();
    assert_eq!(code, 400);
    assert!(msg.starts_with(
        "Invalid scheduled_at format. Expected YYYY-MM-DDTHH:MM:SS or YYYY-MM-DD HH:MM:SS: "
    ));
}

#[test]
fn schedule_mail_text() {
    let at = DateTimeParts { year: 2024, month: 5, day: 6, hour: 7, minute: 8, second: 9, nanosecond: 0 };
    let (subject, body) = schedule_mail("An", &at, "Cấp bảng điểm", &Some("Mang CCCD".into()));
    assert_eq!(subject, "Lịch hẹn xử lý yêu cầu");
    assert_eq!(
        body,
        "Xin chào An,\n\nYêu cầu của bạn đã được lên lịch xử lý vào thời gian: 06/05/2024 07:08\n\nNội dung yêu cầu: Cấp bảng điểm\n\nMang CCCD\n\nTrân trọng,\nHệ thống quản lý"
    );
    let (_, plain) = schedule_mail("An", &at, "x", &None);
    assert!(plain.contains("x\n\n\n\nTrân trọng"));
    assert_eq!(schedule_success_message(), "Request scheduled and email sent successfully");
    assert_eq!(request_not_found(), (404, "Request not found".to_string()));
}
