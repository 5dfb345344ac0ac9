//! Requests that users file for processing, and how managers schedule them.
use vstd::prelude::*;
use vstd::string::*;

use crate::datetime::{
    datetime_parse_outcome, day_month_year_time_label, dmy_hm_label, parse_datetime, valid_parts,
    DateTimeParts,
};
use crate::roles::UserRole;
use crate::text::{concat, concat3, is_blank, is_ws, refusal_of, trim_seq};

verus! {

/// Where a request stands.
#[derive(Clone, Copy, Debug, PartialEq, Eq, Structural)]
pub enum RequestStatus {
    Pending,
    Scheduled,
    Rejected,
}

/// A new request, with the authenticator code when MFA is on.
pub struct CreateRequestRequest {
    pub content: String,
    pub authenticator_code: Option<String>,
}

/// A request as shown to clients.
pub struct RequestResponse {
    pub request_id: String,
    pub user_id: String,
    pub content: String,
    pub status: RequestStatus,
    pub scheduled_at: Option<String>,
    pub created_at: String,
    pub updated_at: String,
}

/// The schedule a manager sets for a request.
pub struct ScheduleRequestRequest {
    pub scheduled_at: String,
    pub message: Option<String>,
    pub authenticator_code: Option<String>,
}

/// The answer to scheduling a request.
pub struct ScheduleRequestResponse {
    pub success: bool,
    pub message: String,
    pub request: RequestResponse,
}

/// A page of requests.
pub struct RequestListResponse {
    pub requests: Vec<RequestResponse>,
    pub total: u64,
    pub page: u32,
    pub page_size: u32,
    pub total_pages: u64,
}

/// Paging and filter of the list of all requests.
pub struct RequestQueryParams {
    pub page: u32,
    pub page_size: u32,
    pub status: Option<RequestStatus>,
}

/// The page shown when none is asked for.
pub fn default_page() -> (p: u32)
    ensures
        p == 1,
{
    1
}

/// The page size used when none is asked for.
pub fn default_page_size() -> (p: u32)
    ensures
        p == 20,
{
    20
}

// ---------------------------------------------------------------------------
// Filing a request
// ---------------------------------------------------------------------------

/// A request must say something: content that is empty or only white space is
/// refused with 400.
pub open spec fn content_refusal(content: Seq<char>) -> Option<(u16, Seq<char>)> {
    if trim_seq(content).len() == 0 {
        Some((400u16, "Content cannot be empty"@))
    } else {
        None
    }
}

/// Checks the content of a new request.
pub fn check_content(content: &str) -> (r: Result<(), (u16, String)>)
    ensures
        refusal_of(r) == content_refusal(content@),
{
    if is_blank(content) {
        Err((400, String::from_str("Content cannot be empty")))
    } else {
        Ok(())
    }
}

// ---------------------------------------------------------------------------
// Who may schedule and list
// ---------------------------------------------------------------------------

/// What a manager-only action on requests is.
#[derive(Clone, Copy, Debug, PartialEq, Eq, Structural)]
pub enum ManagerAction {
    Schedule,
    ViewAll,
}

/// Scheduling and listing all requests is for managers and administrators; others
/// get 403 with a message naming the action.
pub open spec fn manager_refusal(role: UserRole, action: ManagerAction) -> Option<(u16, Seq<char>)> {
    if role == UserRole::MANAGER || role == UserRole::ADMIN {
        None
    } else {
        match action {
            ManagerAction::Schedule => Some(
                (403u16, "Only managers and admins can schedule requests"@),
            ),
            ManagerAction::ViewAll => Some(
                (403u16, "Only managers and admins can view all requests"@),
            ),
        }
    }
}

/// Checks that the caller may perform a manager-only action.
pub fn manager_access(role: UserRole, action: ManagerAction) -> (r: Result<(), (u16, String)>)
    ensures
        refusal_of(r) == manager_refusal(role, action),
{
    match role {
        UserRole::MANAGER => Ok(()),
        UserRole::ADMIN => Ok(()),
        _ => match action {
            ManagerAction::Schedule => Err(
                (403, String::from_str("Only managers and admins can schedule requests")),
            ),
            ManagerAction::ViewAll => Err(
                (403, String::from_str("Only managers and admins can view all requests")),
            ),
        },
    }
}

// ---------------------------------------------------------------------------
// Paging
// ---------------------------------------------------------------------------

/// The page and page size used: page 0 becomes 1; a size of 0 or above 100 becomes 20.
pub open spec fn paging_of(page: u32, page_size: u32) -> (u32, u32) {
    (
        if page == 0 {
            1u32
        } else {
            page
        },
        if page_size == 0 || page_size > 100 {
            20u32
        } else {
            page_size
        },
    )
}

/// Normalises the paging asked for.
pub fn normalize_paging(page: u32, page_size: u32) -> (r: (u32, u32))
    ensures
        r == paging_of(page, page_size),
        r.0 >= 1,
        1 <= r.1 <= 100,
{
    let p = if page == 0 {
        1
    } else {
        page
    };
    let s = if page_size == 0 || page_size > 100 {
        20
    } else {
        page_size
    };
    (p, s)
}

/// The paging asked for is kept when it is usable: a page from 1 on is used as it is
/// and page 0 becomes 1; a page size from 1 to 100 is used as it is, and 0 or a size
/// above 100 becomes 20.
pub proof fn lemma_paging_kept(page: u32, page_size: u32)
    ensures
        page >= 1 ==> paging_of(page, page_size).0 == page,
        page == 0 ==> paging_of(page, page_size).0 == 1,
        1 <= page_size <= 100 ==> paging_of(page, page_size).1 == page_size,
        (page_size == 0 || page_size > 100) ==> paging_of(page, page_size).1 == 20,
{
}

/// How many rows come before a page.
pub fn page_offset(page: u32, page_size: u32) -> (o: u32)
    requires
        page >= 1,
        (page - 1) * page_size <= u32::MAX,
    ensures
        o == (page - 1) * page_size,
{
    (page - 1) * page_size
}

/// The number of pages of `total` rows: `total / page_size` rounded up.
pub fn total_pages(total: u64, page_size: u32) -> (n: u64)
    requires
        page_size >= 1,
    ensures
        n * page_size >= total,
        n == 0 || (n - 1) * page_size < total,
        n == (total + page_size - 1) / (page_size as int),
{
    let ps = page_size as u64;
    let q = total / ps;
    let r = total % ps;
    proof {
        assert(q * ps + r == total) by (nonlinear_arith)
            requires
                q == total / ps,
                r == total % ps,
                ps >= 1,
        ;
        assert(r < ps) by (nonlinear_arith)
            requires
                r == total % ps,
                ps >= 1,
        ;
    }
    proof {
        assert(r != 0 ==> q < 0xffff_ffff_ffff_ffff) by (nonlinear_arith)
            requires
                q * ps + r == total,
                r < ps,
                total <= 0xffff_ffff_ffff_ffff,
        ;
    }
    let n = if r == 0 {
        q
    } else {
        q + 1
    };
    proof {
        assert(n * ps >= total) by (nonlinear_arith)
            requires
                q * ps + r == total,
                r < ps,
                r == 0 ==> n == q,
                r != 0 ==> n == q + 1,
        ;
        assert(n == 0 || (n - 1) * ps < total) by (nonlinear_arith)
            requires
                q * ps + r == total,
                r < ps,
                r == 0 ==> n == q,
                r != 0 ==> n == q + 1,
        ;
        assert(n == (total + ps - 1) / (ps as int)) by (nonlinear_arith)
            requires
                q * ps + r == total,
                r < ps,
                ps >= 1,
                r == 0 ==> n == q,
                r != 0 ==> n == q + 1,
        ;
    }
    n
}

/// The paging reported with a user's own requests, which come unpaged: page 1, a
/// page as large as the list (as a `u32`, so the count modulo 2^32), one page.
pub fn own_requests_paging(total: u64) -> (r: (u32, u32, u64))
    ensures
        r.0 == 1,
        r.1 == total % 0x1_0000_0000,
        r.2 == 1,
{
    let size = (total % 0x1_0000_0000) as u32;
    (1, size, 1)
}

// ---------------------------------------------------------------------------
// Scheduling
// ---------------------------------------------------------------------------

/// The two accepted forms of a schedule time.
pub open spec fn iso_form() -> Seq<char> {
    "%Y-%m-%dT%H:%M:%S"@
}

/// The second accepted form of a schedule time.
pub open spec fn spaced_form() -> Seq<char> {
    "%Y-%m-%d %H:%M:%S"@
}

/// A parsed date and time, as its parts.
pub open spec fn parts_of(t: (i32, u32, u32, u32, u32, u32, u32)) -> DateTimeParts {
    DateTimeParts {
        year: t.0,
        month: t.1,
        day: t.2,
        hour: t.3,
        minute: t.4,
        second: t.5,
        nanosecond: t.6,
    }
}

/// How a schedule time is read: in the ISO form with a `T`, else in the form with a
/// space; when neither parses, the error of the second attempt is reported with 400.
pub open spec fn schedule_time_of(s: Seq<char>) -> Result<DateTimeParts, (u16, Seq<char>)> {
    match datetime_parse_outcome(s, iso_form()) {
        Ok(t) => Ok(parts_of(t)),
        Err(_) => match datetime_parse_outcome(s, spaced_form()) {
            Ok(t) => Ok(parts_of(t)),
            Err(e) => Err(
                (
                    400u16,
                    "Invalid scheduled_at format. Expected YYYY-MM-DDTHH:MM:SS or YYYY-MM-DD HH:MM:SS: "@
                        + e,
                ),
            ),
        },
    }
}

/// Reads the time a request is scheduled at.
pub fn parse_schedule_time(s: &str) -> (r: Result<DateTimeParts, (u16, String)>)
    ensures
        match (r, schedule_time_of(s@)) {
            (Ok(p), Ok(q)) => p == q && valid_parts(p),
            (Err((c, m)), Err((c2, m2))) => c == c2 && m@ == m2,
            _ => false,
        },
{
    match parse_datetime(s, "%Y-%m-%dT%H:%M:%S") {
        Ok(p) => Ok(p),
        Err(_) => match parse_datetime(s, "%Y-%m-%d %H:%M:%S") {
            Ok(p) => Ok(p),
            Err(e) => Err(
                (
                    400,
                    concat(
                        "Invalid scheduled_at format. Expected YYYY-MM-DDTHH:MM:SS or YYYY-MM-DD HH:MM:SS: ",
                        e.as_str(),
                    ),
                ),
            ),
        },
    }
}

/// The body of the mail telling a user when their request will be handled.
pub open spec fn schedule_mail_body(
    first_name: Seq<char>,
    at: DateTimeParts,
    content: Seq<char>,
    note: Option<Seq<char>>,
) -> Seq<char> {
    "Xin chào "@ + first_name + ",\n\nYêu cầu của bạn đã được lên lịch xử lý vào thời gian: "@
        + dmy_hm_label(at) + "\n\nNội dung yêu cầu: "@ + content + "\n\n"@ + match note {
        Some(n) => n,
        None => Seq::<char>::empty(),
    } + "\n\nTrân trọng,\nHệ thống quản lý"@
}

/// The mail telling a user when their request will be handled: subject and body.
pub fn schedule_mail(
    first_name: &str,
    at: &DateTimeParts,
    content: &str,
    note: &Option<String>,
) -> (m: (String, String))
    requires
        valid_parts(*at),
    ensures
        m.0@ == "Lịch hẹn xử lý yêu cầu"@,
        m.1@ == schedule_mail_body(
            first_name@,
            *at,
            content@,
            match note {
                Some(n) => Some(n@),
                None => None,
            },
        ),
{
    let when = day_month_year_time_label(at);
    let mut body = concat3("Xin chào ", first_name, ",\n\nYêu cầu của bạn đã được lên lịch xử lý vào thời gian: ");
    body.append(when.as_str());
    body.append("\n\nNội dung yêu cầu: ");
    body.append(content);
    body.append("\n\n");
    match note {
        Some(n) => body.append(n.as_str()),
        None => {},
    }
    body.append("\n\nTrân trọng,\nHệ thống quản lý");
    proof {
        let nv = match note {
            Some(n) => n@,
            None => Seq::<char>::empty(),
        };
        assert(body@ =~= "Xin chào "@ + first_name@
            + ",\n\nYêu cầu của bạn đã được lên lịch xử lý vào thời gian: "@ + dmy_hm_label(*at)
            + "\n\nNội dung yêu cầu: "@ + content@ + "\n\n"@ + nv + "\n\nTrân trọng,\nHệ thống quản lý"@);
    }
    (String::from_str("Lịch hẹn xử lý yêu cầu"), body)
}

/// The message of a request scheduled and mailed.
pub fn schedule_success_message() -> (s: String)
    ensures
        s@ == "Request scheduled and email sent successfully"@,
{
    String::from_str("Request scheduled and email sent successfully")
}

/// The refusal when the request to schedule does not exist.
pub fn request_not_found() -> (e: (u16, String))
    ensures
        e.0 == 404,
        e.1@ == "Request not found"@,
{
    (404, String::from_str("Request not found"))
}

/// A request's content is refused with 400 exactly when nothing but white space is
/// in it. Scheduling and listing all requests are open to managers and administrators
/// and refused to others with 403. A schedule time is read as
/// `%Y-%m-%dT%H:%M:%S`, else as `%Y-%m-%d %H:%M:%S`; when neither reads, the second
/// error is refused with 400.
pub proof fn lemma_request_rules(content: Seq<char>, role: UserRole, action: ManagerAction, s: Seq<char>)
    ensures
        trim_seq(content).len() == 0 ==> content_refusal(content) == Some(
            (400u16, "Content cannot be empty"@),
        ),
        trim_seq(content).len() > 0 ==> content_refusal(content) is None,
        (role == UserRole::MANAGER || role == UserRole::ADMIN) ==> manager_refusal(role, action)
            is None,
        (role == UserRole::STUDENT || role == UserRole::TEACHER) && action == ManagerAction::Schedule
            ==> manager_refusal(role, action) == Some(
            (403u16, "Only managers and admins can schedule requests"@),
        ),
        (role == UserRole::STUDENT || role == UserRole::TEACHER) && action == ManagerAction::ViewAll
            ==> manager_refusal(role, action) == Some(
            (403u16, "Only managers and admins can view all requests"@),
        ),
        datetime_parse_outcome(s, "%Y-%m-%dT%H:%M:%S"@) matches Ok(t) ==> schedule_time_of(s)
            == Ok::<DateTimeParts, (u16, Seq<char>)>(
            (DateTimeParts {
                year: t.0,
                month: t.1,
                day: t.2,
                hour: t.3,
                minute: t.4,
                second: t.5,
                nanosecond: t.6,
            }),
        ),
        datetime_parse_outcome(s, "%Y-%m-%dT%H:%M:%S"@) is Err ==> (datetime_parse_outcome(
            s,
            "%Y-%m-%d %H:%M:%S"@,
        ) matches Ok(t) ==> schedule_time_of(s) == Ok::<DateTimeParts, (u16, Seq<char>)>(
            (DateTimeParts {
                year: t.0,
                month: t.1,
                day: t.2,
                hour: t.3,
                minute: t.4,
                second: t.5,
                nanosecond: t.6,
            }),
        )),
        datetime_parse_outcome(s, "%Y-%m-%dT%H:%M:%S"@) is Err ==> (datetime_parse_outcome(
            s,
            "%Y-%m-%d %H:%M:%S"@,
        ) matches Err(e) ==> schedule_time_of(s) == Err::<DateTimeParts, (u16, Seq<char>)>(
            (
                400u16,
                "Invalid scheduled_at format. Expected YYYY-MM-DDTHH:MM:SS or YYYY-MM-DD HH:MM:SS: "@
                    + e,
            ),
        )),
{
}

} // verus!
