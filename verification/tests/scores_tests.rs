use auth_service::scores::{
    classify_gpa, letter_for_score, mock_certificate_plan, mock_transcript,
    mock_transcript_4_semesters, pass_status, LetterGrade,
};

#[test]
fn letters_follow_score_bands() {
    let cases = [
        (100, "A"), (90, "A"), (89, "B+"), (85, "B+"), (84, "B"), (80, "B"), (79, "C+"),
        (75, "C+"), (74, "C"), (70, "C"), (69, "D+"), (65, "D+"), (64, "D"), (60, "D"),
        (59, "F"), (0, "F"),
    ];
    for (score, label) in cases {
        assert_eq!(letter_for_score(score).label(), label, "score {score}");
    }
}

#[test]
fn higher_scores_never_get_fewer_points() {
    let mut last = 0;
    for s in 0..=100u32 {
        let p = letter_for_score(s).grade_points_tenths();
        assert!(p >= last);
        last = p;
    }
    assert_eq!(LetterGrade::A.grade_points_tenths(), 40);
    assert_eq!(LetterGrade::F.grade_points_tenths(), 0);
}

#[test]
fn pass_mark_is_fifty() {
    assert_eq!(pass_status(50), "Đạt");
    assert_eq!(pass_status(49), "Không đạt");
}

#[test]
fn gpa_classification_bands() {
    assert_eq!(classify_gpa(36 * 10, 10), "Xuất sắc");
    assert_eq!(classify_gpa(36 * 10 - 1, 10), "Giỏi");
    assert_eq!(classify_gpa(32 * 10, 10), "Giỏi");
    assert_eq!(classify_gpa(25 * 10, 10), "Khá");
    assert_eq!(classify_gpa(20 * 10, 10), "Trung bình");
    assert_eq!(classify_gpa(20 * 10 - 1, 10), "Yếu");
    assert_eq!(classify_gpa(0, 0), "Yếu");
}

#[test]
fn four_semester_transcript_is_consistent() {
    let t = mock_transcript_4_semesters();
    assert_eq!(t.len(), 4);
    let names = ["HK1", "HK2", "HK1", "HK2"];
    let years = ["2020-2021", "2021-2022", "2022-2023", "2023-2024"];
    for (i, s) in t.iter().enumerate() {
        assert_eq!(s.semester, names[i]);
        assert_eq!(s.academic_year, years[i]);
        assert!((5..=8).contains(&s.courses.len()));
        let credits: i32 = s.courses.iter().map(|c| c.credits).sum();
        let passed: i32 = s.courses.iter().filter(|c| c.passed).map(|c| c.credits).sum();
        assert_eq!(s.total_credits, credits);
        assert_eq!(s.total_passed_credits, passed);
        assert!(s.gpa_points <= 40 * s.total_credits as u64);
        for (j, c) in s.courses.iter().enumerate() {
            assert_eq!(c.course_id, format!("COURSE-{}-{}", i, j));
            assert!(c.course_code.starts_with("CS") && c.course_code.len() == 5);
            assert_eq!(c.scores.len(), 6);
            assert!(c.scores[0] >= 50 && c.scores[0] <= 100);
            assert_eq!(c.passed, c.scores[0] >= 50);
            assert_eq!(c.letter.label(), letter_for_score(c.scores[0]).label());
        }
        assert_eq!(
            s.classification,
            classify_gpa(s.gpa_points, s.total_credits as u64)
        );
    }
}

#[test]
fn longer_transcript_cycles_names() {
    let t = mock_transcript();
    assert!((4..=8).contains(&t.len()));
    let names = ["HK1", "HK2", "HK3"];
    for (i, s) in t.iter().enumerate() {
        assert_eq!(s.semester, names[i % 3]);
        for c in &s.courses {
            assert_eq!(c.scores.len(), 3);
        }
    }
}

#[test]
fn certificate_plan_ranges() {
    for _ in 0..20 {
        let p = mock_certificate_plan("IELTS");
        assert!(p.issued_days_ago < 365);
        assert!((365..1825).contains(&p.expires_in_days));
        assert_eq!(p.description, "Mock IELTS certificate");
    }
}
