//! Statistics over a date range: the range asked for, and how many records were
//! created on each day of it.
use vstd::prelude::*;
use vstd::string::*;

use crate::datetime::{
    date_label, end_of_day, parse_date, start_of_day, valid_date, ymd_label, DateTimeParts,
    date_parse_outcome,
};
use crate::roles::UserRole;
use crate::text::{concat, refusal_of, result_view, str_eq};

verus! {

// ---------------------------------------------------------------------------
// Requests and answers
// ---------------------------------------------------------------------------

/// A range of days, both ends included, written `YYYY-MM-DD`.
pub struct DateRangeQuery {
    pub start_date: String,
    pub end_date: String,
}

/// How many records were created on one day.
pub struct TimeSeriesPoint {
    pub date: String,
    pub count: i64,
}

/// Account statistics.
pub struct UserStatsResponse {
    pub total_users: i64,
    pub total_students: i64,
    pub total_managers: i64,
    pub total_teachers: i64,
    pub total_admins: i64,
    pub users_per_day: Vec<TimeSeriesPoint>,
}

/// Document statistics.
pub struct DocumentStatsResponse {
    pub total_documents: i64,
    pub signed_documents: i64,
    pub failed_documents: i64,
    pub documents_per_day: Vec<TimeSeriesPoint>,
}

/// Statistics are shown to administrators and managers only; others get 403.
pub open spec fn stats_refusal(role: UserRole) -> Option<(u16, Seq<char>)> {
    if role == UserRole::ADMIN || role == UserRole::MANAGER {
        None
    } else {
        Some((403u16, "Forbidden"@))
    }
}

/// Checks that the caller may see statistics.
pub fn stats_access(role: UserRole) -> (r: Result<(), (u16, String)>)
    ensures
        refusal_of(r) == stats_refusal(role),
{
    match role {
        UserRole::ADMIN => Ok(()),
        UserRole::MANAGER => Ok(()),
        _ => Err((403, String::from_str("Forbidden"))),
    }
}

// ---------------------------------------------------------------------------
// The range asked for
// ---------------------------------------------------------------------------

/// The range read from the two parsed ends: from the first day at midnight to the
/// last day at 23:59:59, or the error of the first end that does not parse.
pub open spec fn range_of(
    start: Result<(i32, u32, u32), Seq<char>>,
    end: Result<(i32, u32, u32), Seq<char>>,
) -> Result<(DateTimeParts, DateTimeParts), Seq<char>> {
    match start {
        Err(e) => Err("Invalid start_date format: "@ + e),
        Ok((y, m, d)) => match end {
            Err(e) => Err("Invalid end_date format: "@ + e),
            Ok((y2, m2, d2)) => Ok((start_of_day(y, m, d), end_of_day(y2, m2, d2))),
        },
    }
}

/// The range from the two parsed ends.
pub fn range_from_parsed(
    start: Result<(i32, u32, u32), String>,
    end: Result<(i32, u32, u32), String>,
) -> (r: Result<(DateTimeParts, DateTimeParts), String>)
    ensures
        result_view(r) == range_of(result_view(start), result_view(end)),
{
    match start {
        Err(e) => Err(concat("Invalid start_date format: ", e.as_str())),
        Ok((y, m, d)) => match end {
            Err(e) => Err(concat("Invalid end_date format: ", e.as_str())),
            Ok((y2, m2, d2)) => {
                let from = DateTimeParts {
                    year: y,
                    month: m,
                    day: d,
                    hour: 0,
                    minute: 0,
                    second: 0,
                    nanosecond: 0,
                };
                let to = DateTimeParts {
                    year: y2,
                    month: m2,
                    day: d2,
                    hour: 23,
                    minute: 59,
                    second: 59,
                    nanosecond: 0,
                };
                Ok((from, to))
            },
        },
    }
}

/// A query's range runs from the very start of its parsed start date to the last
/// second (23:59:59) of its parsed end date, each date taken as parsed; a start that
/// does not parse is refused first, then an end that does not parse.
pub proof fn lemma_range_covers_whole_days(
    start: Result<(i32, u32, u32), Seq<char>>,
    end: Result<(i32, u32, u32), Seq<char>>,
)
    ensures
        start matches Err(e) ==> range_of(start, end) == Err::<
            (DateTimeParts, DateTimeParts),
            Seq<char>,
        >("Invalid start_date format: "@ + e),
        start is Ok ==> (end matches Err(e) ==> range_of(start, end) == Err::<
            (DateTimeParts, DateTimeParts),
            Seq<char>,
        >("Invalid end_date format: "@ + e)),
        start matches Ok((y, m, d)) ==> (end matches Ok((y2, m2, d2)) ==> range_of(start, end)
            == Ok::<(DateTimeParts, DateTimeParts), Seq<char>>(
            (
                DateTimeParts {
                    year: y,
                    month: m,
                    day: d,
                    hour: 0,
                    minute: 0,
                    second: 0,
                    nanosecond: 0,
                },
                DateTimeParts {
                    year: y2,
                    month: m2,
                    day: d2,
                    hour: 23,
                    minute: 59,
                    second: 59,
                    nanosecond: 0,
                },
            ),
        )),
{
}

impl DateRangeQuery {
    /// The range of date-times the query covers.
    pub fn to_range(&self) -> (r: Result<(DateTimeParts, DateTimeParts), String>)
        ensures
            result_view(r) == range_of(
                date_parse_outcome(self.start_date@),
                date_parse_outcome(self.end_date@),
            ),
    {
        let start = parse_date(self.start_date.as_str());
        let end = parse_date(self.end_date.as_str());
        range_from_parsed(start, end)
    }
}

// ---------------------------------------------------------------------------
// The order of day labels
// ---------------------------------------------------------------------------

/// Lexicographic order of character sequences, the order in which `String`s sort.
pub open spec fn seq_lt(a: Seq<char>, b: Seq<char>) -> bool
    decreases a.len(),
{
    if a.len() == 0 {
        b.len() > 0
    } else if b.len() == 0 {
        false
    } else if a[0] != b[0] {
        a[0] < b[0]
    } else {
        seq_lt(a.drop_first(), b.drop_first())
    }
}

proof fn lemma_lt_irreflexive(a: Seq<char>)
    ensures
        !seq_lt(a, a),
    decreases a.len(),
{
    if a.len() > 0 {
        lemma_lt_irreflexive(a.drop_first());
    }
}

proof fn lemma_lt_total(a: Seq<char>, b: Seq<char>)
    requires
        a != b,
    ensures
        seq_lt(a, b) || seq_lt(b, a),
    decreases a.len(),
{
    if a.len() > 0 && b.len() > 0 && a[0] == b[0] {
        assert(a.drop_first().len() == a.len() - 1);
        assert(b.drop_first().len() == b.len() - 1);
        if a.drop_first() == b.drop_first() {
            assert(a.len() == b.len());
            assert(a =~= b) by {
                assert forall|i: int| 0 <= i < a.len() implies a[i] == b[i] by {
                    if i > 0 {
                        assert(a[i] == a.drop_first()[i - 1]);
                        assert(b[i] == b.drop_first()[i - 1]);
                    }
                }
            }
        }
        lemma_lt_total(a.drop_first(), b.drop_first());
    } else if a.len() == 0 && b.len() == 0 {
        assert(a =~= b);
    }
}

proof fn lemma_lt_transitive(a: Seq<char>, b: Seq<char>, c: Seq<char>)
    requires
        seq_lt(a, b),
        seq_lt(b, c),
    ensures
        seq_lt(a, c),
    decreases a.len(),
{
    if a.len() > 0 && b.len() > 0 && c.len() > 0 && a[0] == b[0] && b[0] == c[0] {
        lemma_lt_transitive(a.drop_first(), b.drop_first(), c.drop_first());
    }
}

/// Compares two strings in the order `String`s sort in.
pub fn str_lt(a: &str, b: &str) -> (r: bool)
    ensures
        r == seq_lt(a@, b@),
{
    let na = a.unicode_len();
    let nb = b.unicode_len();
    let mut i: usize = 0;
    proof {
        assert(a@.skip(0) =~= a@);
        assert(b@.skip(0) =~= b@);
    }
    while i < na && i < nb && a.get_char(i) == b.get_char(i)
        invariant
            na == a@.len(),
            nb == b@.len(),
            i <= na,
            i <= nb,
            seq_lt(a@, b@) == seq_lt(a@.skip(i as int), b@.skip(i as int)),
        decreases na - i,
    {
        proof {
            let x = a@.skip(i as int);
            let y = b@.skip(i as int);
            assert(x[0] == a@[i as int]);
            assert(y[0] == b@[i as int]);
            assert(x.drop_first() =~= a@.skip(i + 1));
            assert(y.drop_first() =~= b@.skip(i + 1));
        }
        i = i + 1;
    }
    let x = Ghost(a@.skip(i as int));
    let y = Ghost(b@.skip(i as int));
    if i == na {
        assert(x@.len() == 0);
        i < nb
    } else if i == nb {
        assert(y@.len() == 0 && x@.len() > 0);
        false
    } else {
        assert(x@[0] == a@[i as int]);
        assert(y@[0] == b@[i as int]);
        a.get_char(i) < b.get_char(i)
    }
}

// ---------------------------------------------------------------------------
// Counting per day
// ---------------------------------------------------------------------------

/// How many of the labels equal `l`.
pub open spec fn count_of(labels: Seq<Seq<char>>, l: Seq<char>) -> nat
    decreases labels.len(),
{
    if labels.len() == 0 {
        0
    } else {
        count_of(labels.drop_last(), l) + if labels.last() == l {
            1nat
        } else {
            0nat
        }
    }
}

/// The sum of the counts of the points.
pub open spec fn sum_counts(points: Seq<TimeSeriesPoint>) -> int
    decreases points.len(),
{
    if points.len() == 0 {
        0
    } else {
        sum_counts(points.drop_last()) + points.last().count
    }
}

/// The points are the per-day counts of the labels: one point per distinct label,
/// in increasing order of label, each with the number of times its label occurs.
pub open spec fn is_day_histogram(points: Seq<TimeSeriesPoint>, labels: Seq<Seq<char>>) -> bool {
    &&& forall|i: int, j: int|
        0 <= i < j < points.len() ==> seq_lt(#[trigger] points[i].date@, #[trigger] points[j].date@)
    &&& forall|i: int|
        0 <= i < points.len() ==> (#[trigger] points[i]).count == count_of(labels, points[i].date@)
            && points[i].count > 0
    &&& forall|k: int|
        0 <= k < labels.len() ==> exists|i: int|
            0 <= i < points.len() && (#[trigger] points[i]).date@ == #[trigger] labels[k]
}

proof fn lemma_count_bounded(labels: Seq<Seq<char>>, l: Seq<char>)
    ensures
        count_of(labels, l) <= labels.len(),
    decreases labels.len(),
{
    if labels.len() > 0 {
        lemma_count_bounded(labels.drop_last(), l);
    }
}

proof fn lemma_count_positive_occurs(labels: Seq<Seq<char>>, l: Seq<char>)
    requires
        count_of(labels, l) > 0,
    ensures
        exists|k: int| 0 <= k < labels.len() && labels[k] == l,
    decreases labels.len(),
{
    if labels.last() == l {
        assert(labels[labels.len() - 1] == l);
    } else {
        lemma_count_positive_occurs(labels.drop_last(), l);
        let k = choose|k: int| 0 <= k < labels.drop_last().len() && labels.drop_last()[k] == l;
        assert(labels[k] == l);
    }
}

proof fn lemma_sum_update(s: Seq<TimeSeriesPoint>, i: int, p: TimeSeriesPoint)
    requires
        0 <= i < s.len(),
    ensures
        sum_counts(s.update(i, p)) == sum_counts(s) - s[i].count + p.count,
    decreases s.len(),
{
    let u = s.update(i, p);
    if i == s.len() - 1 {
        assert(u.drop_last() =~= s.drop_last());
    } else {
        assert(u.drop_last() =~= s.drop_last().update(i, p));
        lemma_sum_update(s.drop_last(), i, p);
    }
}

proof fn lemma_sum_insert(s: Seq<TimeSeriesPoint>, i: int, p: TimeSeriesPoint)
    requires
        0 <= i <= s.len(),
    ensures
        sum_counts(s.insert(i, p)) == sum_counts(s) + p.count,
    decreases s.len(),
{
    let n = s.insert(i, p);
    if i == s.len() {
        assert(n.drop_last() =~= s);
    } else {
        assert(n.drop_last() =~= s.drop_last().insert(i, p));
        lemma_sum_insert(s.drop_last(), i, p);
    }
}

/// Counts the labels per distinct label, in increasing order of label. The counts
/// add up to the number of labels.
pub fn day_counts(labels: &Vec<String>) -> (points: Vec<TimeSeriesPoint>)
    requires
        labels@.len() <= i64::MAX,
    ensures
        is_day_histogram(points@, labels@.map_values(|s: String| s@)),
        sum_counts(points@) == labels@.len(),
{
    let ghost all = labels@.map_values(|s: String| s@);
    let mut points: Vec<TimeSeriesPoint> = Vec::new();
    let n = labels.len();
    let mut k: usize = 0;
    proof {
        assert(all.take(0) =~= Seq::<Seq<char>>::empty());
    }
    while k < n
        invariant
            n == labels@.len(),
            n <= i64::MAX,
            k <= n,
            all == labels@.map_values(|s: String| s@),
            is_day_histogram(points@, all.take(k as int)),
            sum_counts(points@) == k,
        decreases n - k,
    {
        let label = &labels[k];
        let ghost x = label@;
        let ghost seen = all.take(k as int);
        let ghost next = all.take(k + 1);
        proof {
            assert(all[k as int] == x);
            assert(next.drop_last() =~= seen);
            assert(next.last() == x);
        }
        let m = points.len();
        let mut pos: usize = 0;
        let mut found = false;
        while !found && pos < m
            invariant
                m == points@.len(),
                x == label@,
                pos <= m,
                forall|i: int| 0 <= i < pos ==> seq_lt(#[trigger] points@[i].date@, x),
                found ==> pos < m && !seq_lt(points@[pos as int].date@, x),
            decreases (m - pos) * 2 + if found {
                0int
            } else {
                1int
            },
        {
            if str_lt(points[pos].date.as_str(), label.as_str()) {
                pos = pos + 1;
            } else {
                found = true;
            }
        }
        let ghost old_points = points@;
        if pos < m && str_eq(points[pos].date.as_str(), label.as_str()) {
            let c = points[pos].count;
            proof {
                lemma_count_bounded(seen, x);
            }
            let updated = TimeSeriesPoint { date: points[pos].date.clone(), count: c + 1 };
            points.set(pos, updated);
            proof {
                lemma_sum_update(old_points, pos as int, updated);
                assert forall|i: int| 0 <= i < points@.len() implies (#[trigger] points@[i]).count
                    == count_of(next, points@[i].date@) && points@[i].count > 0 by {
                    if i != pos {
                        assert(points@[i] == old_points[i]);
                        if old_points[i].date@ == x {
                            if i < pos {
                                assert(seq_lt(old_points[i].date@, old_points[pos as int].date@));
                            } else {
                                assert(seq_lt(old_points[pos as int].date@, old_points[i].date@));
                            }
                            lemma_lt_irreflexive(x);
                        }
                    }
                }
                assert forall|kk: int| 0 <= kk < next.len() implies exists|i: int|
                    0 <= i < points@.len() && (#[trigger] points@[i]).date@ == #[trigger] next[kk] by {
                    if kk < k {
                        assert(next[kk] == seen[kk]);
                        let i = choose|i: int|
                            0 <= i < old_points.len() && (#[trigger] old_points[i]).date@
                                == #[trigger] seen[kk];
                        assert(points@[i].date@ == old_points[i].date@);
                    } else {
                        assert(points@[pos as int].date@ == next[kk]);
                    }
                }
                assert forall|i: int, j: int| 0 <= i < j < points@.len() implies seq_lt(
                    #[trigger] points@[i].date@,
                    #[trigger] points@[j].date@,
                ) by {
                    assert(points@[i].date@ == old_points[i].date@);
                    assert(points@[j].date@ == old_points[j].date@);
                }
            }
        } else {
            let fresh = TimeSeriesPoint { date: label.clone(), count: 1 };
            proof {
                // The label is new: everything before `pos` sorts below it, everything
                // from `pos` on sorts above it.
                assert forall|i: int| pos <= i < m implies seq_lt(x, #[trigger] old_points[i].date@) by {
                    let d = old_points[pos as int].date@;
                    if d != x {
                        lemma_lt_total(d, x);
                    } else {
                        assert(false);
                    }
                    if i > pos {
                        assert(seq_lt(d, old_points[i].date@));
                        lemma_lt_transitive(x, d, old_points[i].date@);
                    }
                }
                assert forall|i: int| 0 <= i < m implies (#[trigger] old_points[i]).date@ != x by {
                    if i < pos {
                        assert(seq_lt(old_points[i].date@, x));
                    } else {
                        assert(seq_lt(x, old_points[i].date@));
                    }
                    lemma_lt_irreflexive(x);
                }
                if count_of(seen, x) > 0 {
                    lemma_count_positive_occurs(seen, x);
                    let kk = choose|kk: int| 0 <= kk < seen.len() && seen[kk] == x;
                    let i = choose|i: int|
                        0 <= i < old_points.len() && (#[trigger] old_points[i]).date@
                            == #[trigger] seen[kk];
                    assert(old_points[i].date@ == x);
                    assert(false);
                }
            }
            points.insert(pos, fresh);
            proof {
                lemma_sum_insert(old_points, pos as int, fresh);
                assert forall|i: int| 0 <= i < points@.len() implies (#[trigger] points@[i]).count
                    == count_of(next, points@[i].date@) && points@[i].count > 0 by {
                    if i < pos {
                        assert(points@[i] == old_points[i]);
                    } else if i > pos {
                        assert(points@[i] == old_points[i - 1]);
                    }
                }
                assert forall|kk: int| 0 <= kk < next.len() implies exists|i: int|
                    0 <= i < points@.len() && (#[trigger] points@[i]).date@ == #[trigger] next[kk] by {
                    if kk < k {
                        assert(next[kk] == seen[kk]);
                        let i = choose|i: int|
                            0 <= i < old_points.len() && (#[trigger] old_points[i]).date@
                                == #[trigger] seen[kk];
                        if i < pos {
                            assert(points@[i] == old_points[i]);
                        } else {
                            assert(points@[i + 1] == old_points[i]);
                        }
                    } else {
                        assert(points@[pos as int].date@ == next[kk]);
                    }
                }
                assert forall|i: int, j: int| 0 <= i < j < points@.len() implies seq_lt(
                    #[trigger] points@[i].date@,
                    #[trigger] points@[j].date@,
                ) by {
                    if j < pos {
                        assert(points@[i] == old_points[i]);
                        assert(points@[j] == old_points[j]);
                    } else if j == pos {
                        assert(points@[i] == old_points[i]);
                    } else if i < pos {
                        assert(points@[i] == old_points[i]);
                        assert(points@[j] == old_points[j - 1]);
                        lemma_lt_transitive(old_points[i].date@, x, old_points[j - 1].date@);
                    } else if i == pos {
                        assert(points@[j] == old_points[j - 1]);
                    } else {
                        assert(points@[i] == old_points[i - 1]);
                        assert(points@[j] == old_points[j - 1]);
                    }
                }
            }
        }
        k = k + 1;
    }
    proof {
        assert(all.take(n as int) =~= all);
    }
    points
}

/// The day label of each row.
pub open spec fn day_labels(rows: Seq<DateTimeParts>) -> Seq<Seq<char>> {
    rows.map_values(|p: DateTimeParts| ymd_label(p.year, p.month, p.day))
}

/// Counts records per day of creation, the days in increasing order; each row is
/// counted on exactly one day.
pub fn points_per_day(rows: &Vec<DateTimeParts>) -> (points: Vec<TimeSeriesPoint>)
    requires
        rows@.len() <= i64::MAX,
        forall|i: int| 0 <= i < rows@.len() ==> valid_date(
            #[trigger] rows@[i].year,
            rows@[i].month,
            rows@[i].day,
        ),
    ensures
        is_day_histogram(points@, day_labels(rows@)),
        sum_counts(points@) == rows@.len(),
{
    let mut labels: Vec<String> = Vec::new();
    let n = rows.len();
    let mut i: usize = 0;
    while i < n
        invariant
            n == rows@.len(),
            i <= n,
            forall|j: int| 0 <= j < rows@.len() ==> valid_date(
                #[trigger] rows@[j].year,
                rows@[j].month,
                rows@[j].day,
            ),
            labels@.len() == i,
            forall|j: int| 0 <= j < i ==> (#[trigger] labels@[j])@ == ymd_label(
                rows@[j].year,
                rows@[j].month,
                rows@[j].day,
            ),
        decreases n - i,
    {
        let p = &rows[i];
        labels.push(date_label(p.year, p.month, p.day));
        i = i + 1;
    }
    proof {
        assert(labels@.map_values(|s: String| s@) =~= day_labels(rows@));
    }
    day_counts(&labels)
}

/// Statistics are open to administrators and managers; students and teachers are
/// refused with 403 `Forbidden`.
pub proof fn lemma_stats_access(role: UserRole)
    ensures
        (role == UserRole::ADMIN || role == UserRole::MANAGER) ==> stats_refusal(role) is None,
        (role == UserRole::STUDENT || role == UserRole::TEACHER) ==> stats_refusal(role) == Some(
            (403u16, "Forbidden"@),
        ),
{
}

/// Labels sort as strings do: a proper prefix comes first, and otherwise the first
/// differing character decides, the smaller one first.
pub proof fn lemma_label_order(a: Seq<char>, b: Seq<char>, k: int)
    ensures
        a.len() < b.len() && b.take(a.len() as int) == a ==> seq_lt(a, b),
        0 <= k < a.len() && k < b.len() && a.take(k) == b.take(k) && a[k] < b[k] ==> seq_lt(a, b),
    decreases a.len(),
{
    if a.len() > 0 && b.len() > 0 {
        if a.len() < b.len() && b.take(a.len() as int) == a {
            assert(a[0] == b.take(a.len() as int)[0]);
            assert(b.drop_first().take(a.drop_first().len() as int) =~= a.drop_first()) by {
                assert forall|i: int| 0 <= i < a.len() - 1 implies b.drop_first()[i] == a.drop_first()[i] by {
                    assert(b.take(a.len() as int)[i + 1] == a[i + 1]);
                }
            }
            lemma_label_order(a.drop_first(), b.drop_first(), k - 1);
        }
        if 0 <= k < a.len() && k < b.len() && a.take(k) == b.take(k) && a[k] < b[k] {
            if k == 0 {
            } else {
                assert(a[0] == a.take(k)[0] && b[0] == b.take(k)[0]);
                assert(a.drop_first().take(k - 1) =~= b.drop_first().take(k - 1)) by {
                    assert forall|i: int| 0 <= i < k - 1 implies a.drop_first()[i] == b.drop_first()[i] by {
                        assert(a.take(k)[i + 1] == b.take(k)[i + 1]);
                    }
                }
                assert(a.drop_first()[k - 1] == a[k]);
                assert(b.drop_first()[k - 1] == b[k]);
                lemma_label_order(a.drop_first(), b.drop_first(), k - 1);
            }
        }
    }
}

} // verus!
