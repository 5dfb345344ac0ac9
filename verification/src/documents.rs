//! Which records back a document a student asks for (transcript, diploma,
//! certificate), and the answers of the document endpoints.
use vstd::prelude::*;
use vstd::string::*;

use crate::datetime::{date_parse_outcome, parse_date};
use crate::text::{
    ascii_case_eq, concat, concat3, contains_seq, contains_str, eq_ignore_ascii_case, result_view,
    spec_to_lowercase, to_lowercase, trim, trim_seq,
};

verus! {

/// A request for the data behind a document type.
pub struct DocumentDataRequest {
    pub document_type_name: String,
}

/// A request to create sample data for an account.
pub struct MockDataRequest {
    pub email: String,
}

/// The answer to creating sample data.
pub struct MockDataResponse {
    pub success: bool,
    pub message: String,
    pub data_created: Option<MockDataCreated>,
}

/// How many sample records were created.
pub struct MockDataCreated {
    pub certificates_count: Option<u32>,
    pub scoreboard_count: Option<u32>,
    pub semester_summaries_count: Option<u32>,
}

/// A request to create a sample transcript.
pub struct MockTranscriptRequest {
    pub user_email: String,
}

/// The answer to creating a sample transcript.
pub struct MockTranscriptResponse {
    pub success: bool,
    pub message: String,
    pub scoreboard_count: u32,
    pub semester_summaries_count: u32,
}

/// Changes to a document type.
pub struct UpdateDocumentTypeRequest {
    pub document_stored_name: Option<String>,
    pub description: Option<String>,
    pub template_pdf: Option<String>,
}

// ---------------------------------------------------------------------------
// What a document type name asks for
// ---------------------------------------------------------------------------

/// What kinds of document a type name stands for; a name may stand for several.
#[derive(Clone, Copy, Debug, PartialEq, Eq, Structural)]
pub struct DocumentKinds {
    pub transcript: bool,
    pub diploma: bool,
    pub certificate: bool,
}

/// A trimmed name stands for a kind when it equals the English name up to ASCII
/// case, or its lower-cased form contains the Vietnamese name, the lower-case
/// English one, or the Vietnamese one written without accents.
pub open spec fn names_kind(
    trimmed: Seq<char>,
    english: Seq<char>,
    english_lower: Seq<char>,
    vietnamese: Seq<char>,
    plain: Seq<char>,
) -> bool {
    let lower = spec_to_lowercase(trimmed);
    ||| ascii_case_eq(trimmed, english)
    ||| contains_seq(lower, vietnamese)
    ||| contains_seq(lower, english_lower)
    ||| contains_seq(lower, plain)
}

/// The kinds a document type name stands for.
pub open spec fn kinds_of(name: Seq<char>) -> DocumentKinds {
    let t = trim_seq(name);
    DocumentKinds {
        transcript: names_kind(t, "Transcript"@, "transcript"@, "bảng điểm"@, "bang diem"@),
        diploma: names_kind(t, "Diploma"@, "diploma"@, "bằng tốt nghiệp"@, "bang tot nghiep"@),
        certificate: names_kind(t, "Certificate"@, "certificate"@, "chứng chỉ"@, "chung chi"@),
    }
}

/// Reads which kinds of document a type name stands for.
pub fn classify_document_type(name: &str) -> (k: DocumentKinds)
    ensures
        k == kinds_of(name@),
{
    let t = trim(name);
    let lower = to_lowercase(t.as_str());
    let l = lower.as_str();
    let transcript = eq_ignore_ascii_case(t.as_str(), "Transcript") || contains_str(l, "bảng điểm")
        || contains_str(l, "transcript") || contains_str(l, "bang diem");
    let diploma = eq_ignore_ascii_case(t.as_str(), "Diploma") || contains_str(l, "bằng tốt nghiệp")
        || contains_str(l, "diploma") || contains_str(l, "bang tot nghiep");
    let certificate = eq_ignore_ascii_case(t.as_str(), "Certificate") || contains_str(l, "chứng chỉ")
        || contains_str(l, "certificate") || contains_str(l, "chung chi");
    DocumentKinds { transcript, diploma, certificate }
}

/// A document type name, trimmed, stands for a transcript exactly when it is
/// `Transcript` up to ASCII case or its lower-cased form contains `bảng điểm`,
/// `transcript` or `bang diem`; for a diploma exactly when it is `Diploma` up to ASCII
/// case or its lower-cased form contains `bằng tốt nghiệp`, `diploma` or
/// `bang tot nghiep`; for a certificate exactly when it is `Certificate` up to ASCII
/// case or its lower-cased form contains `chứng chỉ`, `certificate` or `chung chi`.
pub proof fn lemma_document_keywords(name: Seq<char>)
    ensures
        kinds_of(name).transcript <==> (ascii_case_eq(trim_seq(name), "Transcript"@) || contains_seq(
            spec_to_lowercase(trim_seq(name)),
            "bảng điểm"@,
        ) || contains_seq(spec_to_lowercase(trim_seq(name)), "transcript"@) || contains_seq(
            spec_to_lowercase(trim_seq(name)),
            "bang diem"@,
        )),
        kinds_of(name).diploma <==> (ascii_case_eq(trim_seq(name), "Diploma"@) || contains_seq(
            spec_to_lowercase(trim_seq(name)),
            "bằng tốt nghiệp"@,
        ) || contains_seq(spec_to_lowercase(trim_seq(name)), "diploma"@) || contains_seq(
            spec_to_lowercase(trim_seq(name)),
            "bang tot nghiep"@,
        )),
        kinds_of(name).certificate <==> (ascii_case_eq(trim_seq(name), "Certificate"@) || contains_seq(
            spec_to_lowercase(trim_seq(name)),
            "chứng chỉ"@,
        ) || contains_seq(spec_to_lowercase(trim_seq(name)), "certificate"@) || contains_seq(
            spec_to_lowercase(trim_seq(name)),
            "chung chi"@,
        )),
{
}

/// Which records to read for a document: score records and semester summaries for
/// transcripts and diplomas; certificates for certificates and diplomas, only the
/// graduation certificate when it is a diploma.
pub struct DocumentFetchPlan {
    pub scores: bool,
    pub certificates: bool,
    pub certificate_type: Option<String>,
}

/// The type name of the graduation certificate.
pub open spec fn graduation_type() -> Seq<char> {
    "Bằng tốt nghiệp"@
}

/// Plans which records back a document of the given kinds.
pub fn fetch_plan(k: DocumentKinds) -> (p: DocumentFetchPlan)
    ensures
        p.scores == (k.transcript || k.diploma),
        p.certificates == (k.certificate || k.diploma),
        match p.certificate_type {
            Some(t) => k.diploma && t@ == graduation_type(),
            None => !k.diploma,
        },
{
    let certificate_type = if k.diploma {
        Some(String::from_str("Bằng tốt nghiệp"))
    } else {
        None
    };
    DocumentFetchPlan {
        scores: k.transcript || k.diploma,
        certificates: k.certificate || k.diploma,
        certificate_type,
    }
}

/// The status and message of a document-data answer: 200 with the success message
/// when any record was found, otherwise 404 `No data found for this document type`.
pub open spec fn document_data_reply(has_data: bool) -> (u16, Seq<char>) {
    if has_data {
        (200u16, "Dữ liệu đã được lấy thành công"@)
    } else {
        (404u16, "No data found for this document type"@)
    }
}

/// Whether any record backs the document: a non-empty list among those read.
pub fn has_document_data(plan: &DocumentFetchPlan, scores: usize, summaries: usize, certificates: usize) -> (b: bool)
    ensures
        b == ((plan.scores && (scores > 0 || summaries > 0)) || (plan.certificates && certificates > 0)),
{
    (plan.scores && (scores > 0 || summaries > 0)) || (plan.certificates && certificates > 0)
}

/// Answers a request for the data behind a document type.
pub fn document_data_answer(has_data: bool) -> (r: (u16, String))
    ensures
        (r.0, r.1@) == document_data_reply(has_data),
{
    if has_data {
        (200, String::from_str("Dữ liệu đã được lấy thành công"))
    } else {
        (404, String::from_str("No data found for this document type"))
    }
}

/// The type name shown for a certificate: its type's name, or `Unknown`.
pub fn certificate_type_name(stored_name: Option<String>) -> (s: String)
    ensures
        s@ == match stored_name {
            Some(n) => n@,
            None => "Unknown"@,
        },
{
    match stored_name {
        Some(n) => n,
        None => String::from_str("Unknown"),
    }
}

// ---------------------------------------------------------------------------
// Sample data
// ---------------------------------------------------------------------------

/// The refusal when sample data is asked for an unknown email.
pub fn unknown_user_email(email: &str) -> (e: (u16, String))
    ensures
        e.0 == 404,
        e.1@ == "User with email "@ + email@ + " not found"@,
{
    (404, concat3("User with email ", email, " not found"))
}

/// How the dates of a sample certificate are read: the issue date, and the expiry
/// date when one is given; a date that does not parse is refused with 400.
pub open spec fn certificate_dates_of(issued: Seq<char>, expiry: Option<Seq<char>>) -> Result<
    ((i32, u32, u32), Option<(i32, u32, u32)>),
    (u16, Seq<char>),
> {
    match date_parse_outcome(issued) {
        Err(e) => Err((400u16, "Invalid issued_date format. Expected YYYY-MM-DD: "@ + e)),
        Ok(i) => match expiry {
            None => Ok((i, None)),
            Some(x) => match date_parse_outcome(x) {
                Err(e) => Err((400u16, "Invalid expiry_date format. Expected YYYY-MM-DD: "@ + e)),
                Ok(d) => Ok((i, Some(d))),
            },
        },
    }
}

/// Reads the dates of a sample certificate.
pub fn certificate_dates(issued: &str, expiry: Option<&str>) -> (r: Result<
    ((i32, u32, u32), Option<(i32, u32, u32)>),
    (u16, String),
>)
    ensures
        match (
            r,
            certificate_dates_of(
                issued@,
                match expiry {
                    Some(x) => Some(x@),
                    None => None,
                },
            ),
        ) {
            (Ok(a), Ok(b)) => a == b,
            (Err((c, m)), Err((c2, m2))) => c == c2 && m@ == m2,
            _ => false,
        },
{
    let i = match parse_date(issued) {
        Err(e) => {
            return Err(
                (400, concat("Invalid issued_date format. Expected YYYY-MM-DD: ", e.as_str())),
            );
        },
        Ok(i) => i,
    };
    match expiry {
        None => Ok((i, None)),
        Some(x) => match parse_date(x) {
            Err(e) => Err(
                (400, concat("Invalid expiry_date format. Expected YYYY-MM-DD: ", e.as_str())),
            ),
            Ok(d) => Ok((i, Some(d))),
        },
    }
}

/// The answer once a sample transcript was created: the counts as `u32` (modulo
/// 2^32, as `len() as u32` gives them).
pub fn mock_transcript_response(scoreboard: usize, summaries: usize) -> (r: MockTranscriptResponse)
    ensures
        r.success,
        r.message@ == "Transcript data created successfully with 4 semesters"@,
        r.scoreboard_count == (scoreboard as int) % 0x1_0000_0000,
        r.semester_summaries_count == (summaries as int) % 0x1_0000_0000,
{
    MockTranscriptResponse {
        success: true,
        message: String::from_str("Transcript data created successfully with 4 semesters"),
        scoreboard_count: (scoreboard as u64 % 0x1_0000_0000) as u32,
        semester_summaries_count: (summaries as u64 % 0x1_0000_0000) as u32,
    }
}

/// What backs a document: score records and semester summaries for a transcript or a
/// diploma, certificates for a certificate or a diploma, and for a diploma only the
/// certificate named `Bằng tốt nghiệp`. The answer is 200 with
/// `Dữ liệu đã được lấy thành công` when a record was found and 404 with
/// `No data found for this document type` when none was. A certificate's dates are
/// its issue date and, when given, its expiry date, each refused with 400 when it
/// does not parse, the issue date first.
pub proof fn lemma_document_answers(has_data: bool, issued: Seq<char>, expiry: Option<Seq<char>>)
    ensures
        graduation_type() == "Bằng tốt nghiệp"@,
        has_data ==> document_data_reply(has_data) == (200u16, "Dữ liệu đã được lấy thành công"@),
        !has_data ==> document_data_reply(has_data) == (
            404u16,
            "No data found for this document type"@,
        ),
        date_parse_outcome(issued) matches Err(e) ==> certificate_dates_of(issued, expiry) == Err::<
            ((i32, u32, u32), Option<(i32, u32, u32)>),
            (u16, Seq<char>),
        >((400u16, "Invalid issued_date format. Expected YYYY-MM-DD: "@ + e)),
        date_parse_outcome(issued) matches Ok(i) ==> (expiry is None ==> certificate_dates_of(
            issued,
            expiry,
        ) == Ok::<((i32, u32, u32), Option<(i32, u32, u32)>), (u16, Seq<char>)>((i, None))),
        date_parse_outcome(issued) matches Ok(i) ==> (expiry matches Some(x) ==> (date_parse_outcome(
            x,
        ) matches Ok(d) ==> certificate_dates_of(issued, expiry) == Ok::<
            ((i32, u32, u32), Option<(i32, u32, u32)>),
            (u16, Seq<char>),
        >((i, Some(d))))),
        date_parse_outcome(issued) is Ok ==> (expiry matches Some(x) ==> (date_parse_outcome(x) matches Err(
            e,
        ) ==> certificate_dates_of(issued, expiry) == Err::<
            ((i32, u32, u32), Option<(i32, u32, u32)>),
            (u16, Seq<char>),
        >((400u16, "Invalid expiry_date format. Expected YYYY-MM-DD: "@ + e)))),
{
}

} // verus!
