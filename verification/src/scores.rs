//! Grades: letter grades and their grade points, semester GPA and its
//! classification, and the generation of sample transcripts and certificates.
use vstd::prelude::*;
use vstd::string::*;

use crate::text::{concat, decimal, pad_zeros, u64_to_decimal, zero_padded};

use rand::Rng;

verus! {

/// A letter grade.
#[derive(Clone, Copy, Debug, PartialEq, Eq, Structural)]
pub enum LetterGrade {
    A,
    BPlus,
    B,
    CPlus,
    C,
    DPlus,
    D,
    F,
}

impl LetterGrade {
    /// How the grade is written.
    pub open spec fn text(self) -> Seq<char> {
        match self {
            LetterGrade::A => "A"@,
            LetterGrade::BPlus => "B+"@,
            LetterGrade::B => "B"@,
            LetterGrade::CPlus => "C+"@,
            LetterGrade::C => "C"@,
            LetterGrade::DPlus => "D+"@,
            LetterGrade::D => "D"@,
            LetterGrade::F => "F"@,
        }
    }

    /// Grade points in tenths: A is 4.0, B+ 3.5, down to D at 1.0 and F at 0.
    pub open spec fn points_tenths(self) -> u64 {
        match self {
            LetterGrade::A => 40,
            LetterGrade::BPlus => 35,
            LetterGrade::B => 30,
            LetterGrade::CPlus => 25,
            LetterGrade::C => 20,
            LetterGrade::DPlus => 15,
            LetterGrade::D => 10,
            LetterGrade::F => 0,
        }
    }

    /// How the grade is written.
    pub fn label(&self) -> (s: &'static str)
        ensures
            s@ == self.text(),
    {
        match self {
            LetterGrade::A => "A",
            LetterGrade::BPlus => "B+",
            LetterGrade::B => "B",
            LetterGrade::CPlus => "C+",
            LetterGrade::C => "C",
            LetterGrade::DPlus => "D+",
            LetterGrade::D => "D",
            LetterGrade::F => "F",
        }
    }

    /// Grade points in tenths.
    pub fn grade_points_tenths(&self) -> (p: u64)
        ensures
            p == self.points_tenths(),
            p <= 40,
    {
        match self {
            LetterGrade::A => 40,
            LetterGrade::BPlus => 35,
            LetterGrade::B => 30,
            LetterGrade::CPlus => 25,
            LetterGrade::C => 20,
            LetterGrade::DPlus => 15,
            LetterGrade::D => 10,
            LetterGrade::F => 0,
        }
    }

    /// The grade at position `i` of A, B+, B, C+, C, D+, D, F.
    pub open spec fn nth(i: int) -> LetterGrade {
        if i == 0 {
            LetterGrade::A
        } else if i == 1 {
            LetterGrade::BPlus
        } else if i == 2 {
            LetterGrade::B
        } else if i == 3 {
            LetterGrade::CPlus
        } else if i == 4 {
            LetterGrade::C
        } else if i == 5 {
            LetterGrade::DPlus
        } else if i == 6 {
            LetterGrade::D
        } else {
            LetterGrade::F
        }
    }

    /// The grade at position `i` of A, B+, B, C+, C, D+, D, F.
    pub fn from_index(i: u32) -> (g: LetterGrade)
        ensures
            g == LetterGrade::nth(i as int),
    {
        if i == 0 {
            LetterGrade::A
        } else if i == 1 {
            LetterGrade::BPlus
        } else if i == 2 {
            LetterGrade::B
        } else if i == 3 {
            LetterGrade::CPlus
        } else if i == 4 {
            LetterGrade::C
        } else if i == 5 {
            LetterGrade::DPlus
        } else if i == 6 {
            LetterGrade::D
        } else {
            LetterGrade::F
        }
    }
}

/// The letter grade of a score out of 100: 90 for A, then every 5 points down to
/// 60 for D; below that F.
pub open spec fn letter_of_score(score: u32) -> LetterGrade {
    if score >= 90 {
        LetterGrade::A
    } else if score >= 85 {
        LetterGrade::BPlus
    } else if score >= 80 {
        LetterGrade::B
    } else if score >= 75 {
        LetterGrade::CPlus
    } else if score >= 70 {
        LetterGrade::C
    } else if score >= 65 {
        LetterGrade::DPlus
    } else if score >= 60 {
        LetterGrade::D
    } else {
        LetterGrade::F
    }
}

/// The letter grade of a score out of 100.
pub fn letter_for_score(score: u32) -> (g: LetterGrade)
    ensures
        g == letter_of_score(score),
{
    if score >= 90 {
        LetterGrade::A
    } else if score >= 85 {
        LetterGrade::BPlus
    } else if score >= 80 {
        LetterGrade::B
    } else if score >= 75 {
        LetterGrade::CPlus
    } else if score >= 70 {
        LetterGrade::C
    } else if score >= 65 {
        LetterGrade::DPlus
    } else if score >= 60 {
        LetterGrade::D
    } else {
        LetterGrade::F
    }
}

/// A higher score never gets fewer grade points.
pub proof fn lemma_letter_monotone(s1: u32, s2: u32)
    requires
        s1 <= s2,
    ensures
        letter_of_score(s1).points_tenths() <= letter_of_score(s2).points_tenths(),
{
}

/// A course is passed with a score of at least 50.
pub open spec fn passes(score: u32) -> bool {
    score >= 50
}

/// The status written for a course: passed ("Đạt") or not ("Không đạt").
pub fn pass_status(score: u32) -> (s: &'static str)
    ensures
        passes(score) ==> s@ == "Đạt"@,
        !passes(score) ==> s@ == "Không đạt"@,
{
    if score >= 50 {
        "Đạt"
    } else {
        "Không đạt"
    }
}

/// The classification of a semester whose GPA is `points / (10 * credits)`: at
/// least 3.6 is excellent, 3.2 good, 2.5 fairly good, 2.0 average, below that weak
/// (a semester without credits has GPA 0).
pub open spec fn classification_of(points: u64, credits: u64) -> Seq<char> {
    if credits > 0 && points >= 36 * credits {
        "Xuất sắc"@
    } else if credits > 0 && points >= 32 * credits {
        "Giỏi"@
    } else if credits > 0 && points >= 25 * credits {
        "Khá"@
    } else if credits > 0 && points >= 20 * credits {
        "Trung bình"@
    } else {
        "Yếu"@
    }
}

/// Classifies a semester by its GPA `points / (10 * credits)`.
pub fn classify_gpa(points: u64, credits: u64) -> (s: &'static str)
    requires
        points <= 40 * credits,
        credits <= u64::MAX / 40,
    ensures
        s@ == classification_of(points, credits),
{
    if credits > 0 && points >= 36 * credits {
        "Xuất sắc"
    } else if credits > 0 && points >= 32 * credits {
        "Giỏi"
    } else if credits > 0 && points >= 25 * credits {
        "Khá"
    } else if credits > 0 && points >= 20 * credits {
        "Trung bình"
    } else {
        "Yếu"
    }
}

/// The grading scale of a score out of 100: from 90 an A (4.0), from 85 a B+ (3.5),
/// from 80 a B (3.0), from 75 a C+ (2.5), from 70 a C (2.0), from 65 a D+ (1.5), from
/// 60 a D (1.0), below 60 an F (0); a course is passed from 50 on.
pub proof fn lemma_grade_scale(score: u32)
    ensures
        90 <= score ==> letter_of_score(score) == LetterGrade::A && letter_of_score(score).text() == "A"@
            && letter_of_score(score).points_tenths() == 40,
        85 <= score < 90 ==> letter_of_score(score) == LetterGrade::BPlus && letter_of_score(score).text() == "B+"@
            && letter_of_score(score).points_tenths() == 35,
        80 <= score < 85 ==> letter_of_score(score) == LetterGrade::B && letter_of_score(score).text() == "B"@
            && letter_of_score(score).points_tenths() == 30,
        75 <= score < 80 ==> letter_of_score(score) == LetterGrade::CPlus && letter_of_score(score).text() == "C+"@
            && letter_of_score(score).points_tenths() == 25,
        70 <= score < 75 ==> letter_of_score(score) == LetterGrade::C && letter_of_score(score).text() == "C"@
            && letter_of_score(score).points_tenths() == 20,
        65 <= score < 70 ==> letter_of_score(score) == LetterGrade::DPlus && letter_of_score(score).text() == "D+"@
            && letter_of_score(score).points_tenths() == 15,
        60 <= score < 65 ==> letter_of_score(score) == LetterGrade::D && letter_of_score(score).text() == "D"@
            && letter_of_score(score).points_tenths() == 10,
        score < 60 ==> letter_of_score(score) == LetterGrade::F && letter_of_score(score).text() == "F"@
            && letter_of_score(score).points_tenths() == 0,
        passes(score) <==> score >= 50,
{
}

/// The grades in their listed order: A, B+, B, C+, C, D+, D, then F for every later
/// position.
pub proof fn lemma_grade_order(i: int)
    ensures
        i == 0 ==> LetterGrade::nth(i) == LetterGrade::A,
        i == 1 ==> LetterGrade::nth(i) == LetterGrade::BPlus,
        i == 2 ==> LetterGrade::nth(i) == LetterGrade::B,
        i == 3 ==> LetterGrade::nth(i) == LetterGrade::CPlus,
        i == 4 ==> LetterGrade::nth(i) == LetterGrade::C,
        i == 5 ==> LetterGrade::nth(i) == LetterGrade::DPlus,
        i == 6 ==> LetterGrade::nth(i) == LetterGrade::D,
        i >= 7 ==> LetterGrade::nth(i) == LetterGrade::F,
{
}

/// The classification follows the GPA `points / (10 * credits)` band by band: from
/// 3.6 excellent, from 3.2 below 3.6 good, from 2.5 below 3.2 fairly good, from 2.0
/// below 2.5 average, below 2.0 weak; a semester without credits is weak.
pub proof fn lemma_gpa_bands(points: u64, credits: u64)
    ensures
        credits > 0 && 36 * credits <= points ==> classification_of(points, credits)
            == "Xuất sắc"@,
        credits > 0 && 32 * credits <= points < 36 * credits ==> classification_of(points, credits)
            == "Giỏi"@,
        credits > 0 && 25 * credits <= points < 32 * credits ==> classification_of(points, credits)
            == "Khá"@,
        credits > 0 && 20 * credits <= points < 25 * credits ==> classification_of(points, credits)
            == "Trung bình"@,
        credits > 0 && points < 20 * credits ==> classification_of(points, credits) == "Yếu"@,
        credits == 0 ==> classification_of(points, credits) == "Yếu"@,
{
}

// ---------------------------------------------------------------------------
// Sample data
// ---------------------------------------------------------------------------

/// Calls `rand::rng().random_range(low..high)`: a number drawn uniformly from
/// `low..high`. Which number is not claimed; only that it lies in the range (the
/// call panics on an empty range, which `requires` excludes).
#[verifier::external_body]
pub(crate) fn random_in(low: u32, high: u32) -> (r: u32)
    requires
        low < high,
    ensures
        low <= r < high,
{
    rand::rng().random_range(low..high)
}

/// One course of a sample transcript.
pub struct MockCourse {
    pub course_id: String,
    pub course_name: String,
    pub course_code: String,
    pub credits: i32,
    pub scores: Vec<u32>,
    pub letter: LetterGrade,
    pub passed: bool,
}

/// One semester of a sample transcript with its courses.
pub struct MockSemester {
    pub semester: String,
    pub academic_year: String,
    pub courses: Vec<MockCourse>,
    pub total_credits: i32,
    pub total_passed_credits: i32,
    /// Sum of grade points (in tenths) times credits over the passed courses;
    /// the GPA is this divided by ten times the total credits.
    pub gpa_points: u64,
    pub classification: String,
}

/// Credits over all courses.
pub open spec fn credits_sum(c: Seq<MockCourse>) -> int
    decreases c.len(),
{
    if c.len() == 0 {
        0
    } else {
        credits_sum(c.drop_last()) + c.last().credits
    }
}

/// Credits over the passed courses.
pub open spec fn passed_credits_sum(c: Seq<MockCourse>) -> int
    decreases c.len(),
{
    if c.len() == 0 {
        0
    } else {
        passed_credits_sum(c.drop_last()) + if c.last().passed {
            c.last().credits as int
        } else {
            0
        }
    }
}

/// Grade points (in tenths) times credits over the passed courses.
pub open spec fn points_sum(c: Seq<MockCourse>) -> int
    decreases c.len(),
{
    if c.len() == 0 {
        0
    } else {
        points_sum(c.drop_last()) + if c.last().passed {
            c.last().letter.points_tenths() * c.last().credits
        } else {
            0
        }
    }
}

/// The courses that sample transcripts draw from.
pub open spec fn course_name_pool() -> Seq<Seq<char>> {
    seq![
        "Toán học đại cương"@,
        "Vật lý đại cương"@,
        "Hóa học đại cương"@,
        "Lập trình C++"@,
        "Cấu trúc dữ liệu"@,
        "Giải tích"@,
        "Đại số tuyến tính"@,
        "Xác suất thống kê"@,
        "Cơ sở dữ liệu"@,
        "Mạng máy tính"@,
        "Hệ điều hành"@,
        "Công nghệ phần mềm"@,
        "Trí tuệ nhân tạo"@,
        "Đồ họa máy tính"@,
        "Lập trình Java"@,
        "Lập trình Python"@,
        "Hệ thống thông tin"@,
        "An toàn thông tin"@,
    ]
}

fn course_name_at(i: u32) -> (s: String)
    requires
        i < 18,
    ensures
        s@ == course_name_pool()[i as int],
{
    let name = if i == 0 {
        "Toán học đại cương"
    } else if i == 1 {
        "Vật lý đại cương"
    } else if i == 2 {
        "Hóa học đại cương"
    } else if i == 3 {
        "Lập trình C++"
    } else if i == 4 {
        "Cấu trúc dữ liệu"
    } else if i == 5 {
        "Giải tích"
    } else if i == 6 {
        "Đại số tuyến tính"
    } else if i == 7 {
        "Xác suất thống kê"
    } else if i == 8 {
        "Cơ sở dữ liệu"
    } else if i == 9 {
        "Mạng máy tính"
    } else if i == 10 {
        "Hệ điều hành"
    } else if i == 11 {
        "Công nghệ phần mềm"
    } else if i == 12 {
        "Trí tuệ nhân tạo"
    } else if i == 13 {
        "Đồ họa máy tính"
    } else if i == 14 {
        "Lập trình Java"
    } else if i == 15 {
        "Lập trình Python"
    } else if i == 16 {
        "Hệ thống thông tin"
    } else {
        "An toàn thông tin"
    };
    String::from_str(name)
}

/// The id of course `j` in semester `i`: `COURSE-{i}-{j}`.
pub open spec fn course_id_text(i: nat, j: nat) -> Seq<char> {
    "COURSE-"@ + decimal(i) + "-"@ + decimal(j)
}

fn course_id(i: u64, j: u64) -> (s: String)
    ensures
        s@ == course_id_text(i as nat, j as nat),
{
    let a = u64_to_decimal(i);
    let b = u64_to_decimal(j);
    let mut s = concat("COURSE-", a.as_str());
    s.append("-");
    s.append(b.as_str());
    s
}

/// A course code: `CS` and a number written with at least three digits.
pub open spec fn course_code_text(n: nat) -> Seq<char> {
    "CS"@ + zero_padded(decimal(n), 3)
}

fn course_code(n: u64) -> (s: String)
    ensures
        s@ == course_code_text(n as nat),
{
    let d = u64_to_decimal(n);
    let p = pad_zeros(d.as_str(), 3);
    concat("CS", p.as_str())
}

/// What every course of a sample semester satisfies, the random choices aside.
pub open spec fn well_formed_course(c: MockCourse, i: nat, j: nat, score_count: nat) -> bool {
    &&& c.course_id@ == course_id_text(i, j)
    &&& course_name_pool().contains(c.course_name@)
    &&& exists|n: nat| 100 <= n < 999 && c.course_code@ == course_code_text(n)
    &&& 2 <= c.credits <= 4
    &&& c.scores@.len() == score_count
    &&& 50 <= c.scores@[0] <= 100
    &&& forall|k: int| 1 <= k < score_count ==> 40 <= #[trigger] c.scores@[k] <= 100
    &&& c.passed == passes(c.scores@[0])
}

/// What a sample semester satisfies: its totals and GPA agree with its courses.
pub open spec fn well_formed_semester(s: MockSemester, i: nat, score_count: nat) -> bool {
    &&& 5 <= s.courses@.len() <= 8
    &&& forall|j: int|
        0 <= j < s.courses@.len() ==> well_formed_course(#[trigger] s.courses@[j], i, j as nat, score_count)
    &&& s.total_credits == credits_sum(s.courses@)
    &&& s.total_passed_credits == passed_credits_sum(s.courses@)
    &&& s.gpa_points == points_sum(s.courses@)
    &&& s.classification@ == classification_of(s.gpa_points, s.total_credits as u64)
}

proof fn lemma_sums_bounded(c: Seq<MockCourse>)
    requires
        forall|j: int| 0 <= j < c.len() ==> 2 <= #[trigger] c[j].credits <= 4,
    ensures
        2 * c.len() <= credits_sum(c) <= 4 * c.len(),
        0 <= passed_credits_sum(c) <= credits_sum(c),
        0 <= points_sum(c) <= 40 * credits_sum(c),
        points_sum(c) <= 40 * passed_credits_sum(c),
    decreases c.len(),
{
    if c.len() > 0 {
        let t = c.drop_last();
        assert forall|j: int| 0 <= j < t.len() implies 2 <= #[trigger] t[j].credits <= 4 by {
            assert(t[j] == c[j]);
        }
        lemma_sums_bounded(t);
        let last = c.last();
        assert(last == c[c.len() - 1]);
        assert(last.letter.points_tenths() * last.credits <= 40 * last.credits) by (nonlinear_arith)
            requires
                last.letter.points_tenths() <= 40,
                last.credits >= 2,
        ;
        assert(last.letter.points_tenths() * last.credits >= 0) by (nonlinear_arith)
            requires
                last.letter.points_tenths() >= 0,
                last.credits >= 2,
        ;
    }
}

/// Draws one course of semester `i` (position `j`). With `random_letter` the letter
/// grade is drawn too and two extra scores are drawn; otherwise the letter follows
/// the first score and five extra scores are drawn.
fn draw_course(i: u64, j: u64, random_letter: bool) -> (c: MockCourse)
    ensures
        well_formed_course(c, i as nat, j as nat, if random_letter { 3 } else { 6 }),
        !random_letter ==> c.letter == letter_of_score(c.scores@[0]),
{
    let name_index = random_in(0, 18);
    let course_name = course_name_at(name_index);
    let credits = random_in(2, 5) as i32;
    let score = random_in(50, 101);
    let mut scores: Vec<u32> = Vec::new();
    scores.push(score);
    let letter;
    let code_number;
    if random_letter {
        letter = LetterGrade::from_index(random_in(0, 8));
        code_number = random_in(100, 999);
        scores.push(random_in(40, 101));
        scores.push(random_in(40, 101));
    } else {
        letter = letter_for_score(score);
        let mut k: usize = 0;
        while k < 5
            invariant
                k <= 5,
                scores@.len() == k + 1,
                scores@[0] == score,
                forall|q: int| 1 <= q < scores@.len() ==> 40 <= #[trigger] scores@[q] <= 100,
            decreases 5 - k,
        {
            scores.push(random_in(40, 101));
            k = k + 1;
        }
        code_number = random_in(100, 999);
    }
    let code = course_code(code_number as u64);
    proof {
        assert(course_name_pool()[name_index as int] == course_name@);
        assert(course_name_pool().contains(course_name@));
        assert(code@ == course_code_text(code_number as nat));
    }
    MockCourse {
        course_id: course_id(i, j),
        course_name,
        course_code: code,
        credits,
        scores,
        letter,
        passed: score >= 50,
    }
}

/// Draws the courses of semester `i` and computes its totals, GPA and classification.
fn draw_semester(i: u64, semester: String, academic_year: String, random_letter: bool) -> (s:
    MockSemester)
    ensures
        well_formed_semester(s, i as nat, if random_letter { 3 } else { 6 }),
        s.semester == semester,
        s.academic_year == academic_year,
        !random_letter ==> forall|j: int|
            0 <= j < s.courses@.len() ==> #[trigger] s.courses@[j].letter == letter_of_score(
                s.courses@[j].scores@[0],
            ),
{
    let ghost score_count: nat = if random_letter {
        3
    } else {
        6
    };
    let num_courses = random_in(5, 9) as u64;
    let mut courses: Vec<MockCourse> = Vec::new();
    let mut total_credits: i32 = 0;
    let mut total_passed: i32 = 0;
    let mut points: u64 = 0;
    let mut j: u64 = 0;
    while j < num_courses
        invariant
            5 <= num_courses <= 8,
            j <= num_courses,
            courses@.len() == j,
            forall|q: int|
                0 <= q < courses@.len() ==> well_formed_course(
                    #[trigger] courses@[q],
                    i as nat,
                    q as nat,
                    score_count,
                ),
            !random_letter ==> forall|q: int|
                0 <= q < courses@.len() ==> #[trigger] courses@[q].letter == letter_of_score(
                    courses@[q].scores@[0],
                ),
            score_count == (if random_letter { 3nat } else { 6nat }),
            total_credits == credits_sum(courses@),
            total_passed == passed_credits_sum(courses@),
            points == points_sum(courses@),
            total_credits <= 4 * j,
        decreases num_courses - j,
    {
        let c = draw_course(i, j, random_letter);
        let ghost before = courses@;
        proof {
            assert forall|q: int| 0 <= q < before.len() implies 2 <= #[trigger] before[q].credits
                <= 4 by {
                assert(well_formed_course(before[q], i as nat, q as nat, score_count));
            }
            lemma_sums_bounded(before);
        }
        total_credits = total_credits + c.credits;
        if c.passed {
            total_passed = total_passed + c.credits;
            let gp = c.letter.grade_points_tenths();
            assert(gp * (c.credits as u64) <= 160) by (nonlinear_arith)
                requires
                    gp <= 40,
                    c.credits <= 4,
                    c.credits >= 2,
            ;
            points = points + gp * (c.credits as u64);
        }
        courses.push(c);
        proof {
            assert(courses@.drop_last() =~= before);
        }
        j = j + 1;
    }
    proof {
        assert forall|q: int| 0 <= q < courses@.len() implies 2 <= #[trigger] courses@[q].credits
            <= 4 by {
            assert(well_formed_course(courses@[q], i as nat, q as nat, score_count));
        }
        lemma_sums_bounded(courses@);
    }
    let classification = String::from_str(classify_gpa(points, total_credits as u64));
    MockSemester {
        semester,
        academic_year,
        courses,
        total_credits,
        total_passed_credits: total_passed,
        gpa_points: points,
        classification,
    }
}

/// The semester names of the four-semester sample: HK1, HK2, HK1, HK2.
pub open spec fn four_semester_name(i: int) -> Seq<char> {
    if i % 2 == 0 {
        "HK1"@
    } else {
        "HK2"@
    }
}

/// The academic years of the four-semester sample, one per semester from 2020-2021.
pub open spec fn four_semester_year(i: int) -> Seq<char> {
    if i == 0 {
        "2020-2021"@
    } else if i == 1 {
        "2021-2022"@
    } else if i == 2 {
        "2022-2023"@
    } else {
        "2023-2024"@
    }
}

/// Generates a sample transcript of exactly four semesters whose letter grades
/// follow the scores.
pub fn mock_transcript_4_semesters() -> (t: Vec<MockSemester>)
    ensures
        t@.len() == 4,
        forall|i: int|
            0 <= i < 4 ==> {
                &&& well_formed_semester(#[trigger] t@[i], i as nat, 6)
                &&& t@[i].semester@ == four_semester_name(i)
                &&& t@[i].academic_year@ == four_semester_year(i)
                &&& forall|j: int|
                    0 <= j < t@[i].courses@.len() ==> #[trigger] t@[i].courses@[j].letter
                        == letter_of_score(t@[i].courses@[j].scores@[0])
            },
{
    let mut t: Vec<MockSemester> = Vec::new();
    let mut i: u64 = 0;
    while i < 4
        invariant
            i <= 4,
            t@.len() == i,
            forall|q: int|
                0 <= q < i ==> {
                    &&& well_formed_semester(#[trigger] t@[q], q as nat, 6)
                    &&& t@[q].semester@ == four_semester_name(q)
                    &&& t@[q].academic_year@ == four_semester_year(q)
                    &&& forall|j: int|
                        0 <= j < t@[q].courses@.len() ==> #[trigger] t@[q].courses@[j].letter
                            == letter_of_score(t@[q].courses@[j].scores@[0])
                },
        decreases 4 - i,
    {
        let name = if i % 2 == 0 {
            String::from_str("HK1")
        } else {
            String::from_str("HK2")
        };
        let year = if i == 0 {
            String::from_str("2020-2021")
        } else if i == 1 {
            String::from_str("2021-2022")
        } else if i == 2 {
            String::from_str("2022-2023")
        } else {
            String::from_str("2023-2024")
        };
        let s = draw_semester(i, name, year, false);
        t.push(s);
        i = i + 1;
    }
    t
}

/// The semester name of semester `i` in the longer sample: HK1, HK2, HK3 in turn.
pub open spec fn cycled_semester_name(i: int) -> Seq<char> {
    if i % 3 == 0 {
        "HK1"@
    } else if i % 3 == 1 {
        "HK2"@
    } else {
        "HK3"@
    }
}

/// The academic year of semester `i` in the longer sample: 2020-2021 to 2024-2025 in turn.
pub open spec fn cycled_semester_year(i: int) -> Seq<char> {
    if i % 5 == 0 {
        "2020-2021"@
    } else if i % 5 == 1 {
        "2021-2022"@
    } else if i % 5 == 2 {
        "2022-2023"@
    } else if i % 5 == 3 {
        "2023-2024"@
    } else {
        "2024-2025"@
    }
}

/// Generates a sample transcript of four to eight semesters whose letter grades are
/// drawn independently of the scores.
pub fn mock_transcript() -> (t: Vec<MockSemester>)
    ensures
        4 <= t@.len() <= 8,
        forall|i: int|
            0 <= i < t@.len() ==> {
                &&& well_formed_semester(#[trigger] t@[i], i as nat, 3)
                &&& t@[i].semester@ == cycled_semester_name(i)
                &&& t@[i].academic_year@ == cycled_semester_year(i)
            },
{
    let count = random_in(4, 9) as u64;
    let mut t: Vec<MockSemester> = Vec::new();
    let mut i: u64 = 0;
    while i < count
        invariant
            4 <= count <= 8,
            i <= count,
            t@.len() == i,
            forall|q: int|
                0 <= q < i ==> {
                    &&& well_formed_semester(#[trigger] t@[q], q as nat, 3)
                    &&& t@[q].semester@ == cycled_semester_name(q)
                    &&& t@[q].academic_year@ == cycled_semester_year(q)
                },
        decreases count - i,
    {
        let name = if i % 3 == 0 {
            String::from_str("HK1")
        } else if i % 3 == 1 {
            String::from_str("HK2")
        } else {
            String::from_str("HK3")
        };
        let year = if i % 5 == 0 {
            String::from_str("2020-2021")
        } else if i % 5 == 1 {
            String::from_str("2021-2022")
        } else if i % 5 == 2 {
            String::from_str("2022-2023")
        } else if i % 5 == 3 {
            String::from_str("2023-2024")
        } else {
            String::from_str("2024-2025")
        };
        let s = draw_semester(i, name, year, true);
        t.push(s);
        i = i + 1;
    }
    t
}

/// Every sample semester has a GPA between 0 and 4.0, no more passed credits than
/// credits, and between 10 and 32 credits.
pub proof fn lemma_semester_bounds(s: MockSemester, i: nat, score_count: nat)
    requires
        well_formed_semester(s, i, score_count),
    ensures
        0 <= s.gpa_points <= 40 * s.total_credits,
        0 <= s.total_passed_credits <= s.total_credits,
        10 <= s.total_credits <= 32,
{
    assert forall|q: int| 0 <= q < s.courses@.len() implies 2 <= #[trigger] s.courses@[q].credits
        <= 4 by {
        assert(well_formed_course(s.courses@[q], i, q as nat, score_count));
    }
    lemma_sums_bounded(s.courses@);
}

/// In the four-semester sample every course is passed, so all credits count.
pub proof fn lemma_all_passed(s: MockSemester, i: nat, score_count: nat)
    requires
        well_formed_semester(s, i, score_count),
    ensures
        s.total_passed_credits == s.total_credits,
{
    lemma_all_passed_sum(s.courses@, i, score_count);
}

proof fn lemma_all_passed_sum(c: Seq<MockCourse>, i: nat, score_count: nat)
    requires
        forall|j: int| 0 <= j < c.len() ==> well_formed_course(#[trigger] c[j], i, j as nat, score_count),
    ensures
        passed_credits_sum(c) == credits_sum(c),
    decreases c.len(),
{
    if c.len() > 0 {
        let t = c.drop_last();
        assert forall|j: int| 0 <= j < t.len() implies well_formed_course(#[trigger] t[j], i, j as nat, score_count) by {
            assert(t[j] == c[j]);
        }
        lemma_all_passed_sum(t, i, score_count);
        assert(well_formed_course(c[c.len() - 1], i, (c.len() - 1) as nat, score_count));
    }
}

/// What a sample certificate is made of: how many days before today it was issued
/// (0 to 364), how many days after today it expires (365 to 1824), and its description.
pub struct MockCertificatePlan {
    pub issued_days_ago: u32,
    pub expires_in_days: u32,
    pub description: String,
}

/// Draws a sample certificate of the given type.
pub fn mock_certificate_plan(certificate_type: &str) -> (p: MockCertificatePlan)
    ensures
        p.issued_days_ago < 365,
        365 <= p.expires_in_days < 1825,
        p.description@ == "Mock "@ + certificate_type@ + " certificate"@,
{
    let issued_days_ago = random_in(0, 365);
    let expires_in_days = random_in(365, 1825);
    let mut description = concat("Mock ", certificate_type);
    description.append(" certificate");
    MockCertificatePlan { issued_days_ago, expires_in_days, description }
}

/// The semesters of the samples, as the lists they cycle through: the longer sample
/// takes semester `i` from HK1, HK2, HK3 and its year from 2020-2021 to 2024-2025,
/// each list in turn; the four-semester sample is HK1, HK2, HK1, HK2 over 2020-2021 to
/// 2023-2024.
pub proof fn lemma_semester_names(i: int)
    requires
        0 <= i,
    ensures
        cycled_semester_name(i) == seq!["HK1"@, "HK2"@, "HK3"@][i % 3],
        cycled_semester_year(i) == seq![
            "2020-2021"@,
            "2021-2022"@,
            "2022-2023"@,
            "2023-2024"@,
            "2024-2025"@,
        ][i % 5],
        i < 4 ==> four_semester_name(i) == seq!["HK1"@, "HK2"@, "HK1"@, "HK2"@][i],
        i < 4 ==> four_semester_year(i) == seq![
            "2020-2021"@,
            "2021-2022"@,
            "2022-2023"@,
            "2023-2024"@,
        ][i],
{
}

} // verus!
