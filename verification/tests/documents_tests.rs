use auth_service::documents::{
    certificate_dates, certificate_type_name, classify_document_type, document_data_answer,
    fetch_plan, has_document_data, mock_transcript_response, unknown_user_email, DocumentKinds,
};

#[test]
fn document_types_are_recognised() {
    assert_eq!(
        classify_document_type("  transcript "),
        DocumentKinds { transcript: true, diploma: false, certificate: false }
    );
    assert_eq!(
        classify_document_type("Bảng điểm học kỳ"),
        DocumentKinds { transcript: true, diploma: false, certificate: false }
    );
    assert_eq!(
        classify_document_type("BANG TOT NGHIEP"),
        DocumentKinds { transcript: false, diploma: true, certificate: false }
    );
    assert_eq!(
        classify_document_type("Chứng chỉ IELTS"),
        DocumentKinds { transcript: false, diploma: false, certificate: true }
    );
    assert_eq!(
        classify_document_type("Diploma certificate"),
        DocumentKinds { transcript: false, diploma: true, certificate: true }
    );
    assert_eq!(
        classify_document_type("Passport"),
        DocumentKinds { transcript: false, diploma: false, certificate: false }
    );
}

#[test]
fn what_is_read_for_each_kind() {
    let diploma = fetch_plan(DocumentKinds { transcript: false, diploma: true, certificate: false });
    assert!(diploma.scores && diploma.certificates);
    assert_eq!(diploma.certificate_type.as_deref(), Some("Bằng tốt nghiệp"));
    let cert = fetch_plan(DocumentKinds { transcript: false, diploma: false, certificate: true });
    assert!(!cert.scores && cert.certificates && cert.certificate_type.is_none());
    let none = fetch_plan(DocumentKinds { transcript: false, diploma: false, certificate: false });
    assert!(!none.scores && !none.certificates);
    assert!(!has_document_data(&cert, 5, 5, 0));
    assert!(has_document_data(&cert, 0, 0, 1));
    assert!(has_document_data(&diploma, 0, 1, 0));
}

#[test]
fn document_messages() {
    assert_eq!(document_data_answer(true), (200, "Dữ liệu đã được lấy thành công".to_string()));
    assert_eq!(document_data_answer(false), (404, "No data found for this document type".to_string()));
    assert_eq!(certificate_type_name(None), "Unknown");
    assert_eq!(certificate_type_name(Some("TOEIC".into())), "TOEIC");
    assert_eq!(unknown_user_email("a@x"), (404, "User with email a@x not found".to_string()));
}

#[test]
fn certificate_dates_are_parsed() {
    assert_eq!(certificate_dates("2024-01-31", None), Ok(((2024, 1, 31), None)));
    assert_eq!(
        certificate_dates("2024-01-31", Some("2026-02-28")),
        Ok(((2024, 1, 31), Some((2026, 2, 28))))
    );
    let (code, msg) = certificate_dates("31/01/2024", None).unwrap_err();
    assert_eq!(code, 400);
    assert!(msg.starts_with("Invalid issued_date format. Expected YYYY-MM-DD: "));
    let (code, msg) = certificate_dates("2024-01-31", Some("2025-02-29")).unwrap_err();
    assert_eq!(code, 400);
    assert!(msg.starts_with("Invalid expiry_date format. Expected YYYY-MM-DD: "));
}

#[test]
fn transcript_answer_counts() {
    let r = mock_transcript_response(30, 4);
    assert!(r.success);
    assert_eq!(r.message, "Transcript data created successfully with 4 semesters");
    assert_eq!((r.scoreboard_count, r.semester_summaries_count), (30, 4));
}
