//! Accounts created one by one or in bulk from a file: validation of imported
//! rows, roles named in them, major lists, student codes, and the reports of a
//! bulk registration.
use vstd::prelude::*;
use vstd::string::*;
use vstd::utf8::encode_utf8;

use crate::auth::{bcrypt_verify_outcome, hashed_password};
use crate::progress::FileProgress;
use crate::repositories::UserUpdate;
use crate::roles::{blockchain_role_code, RoleEnum, UserRole};
use crate::text::{
    concat, concat3, contains_char, decimal, digits_value, i64_zero_padded, is_digit, all_digits,
    padded_signed, parse_i64, parse_i64_spec, parse_int, push_char, spec_to_lowercase, str_eq,
    to_lowercase, trim, trim_seq, u64_to_decimal, zero_padded, zeros, refusal_of,
};

verus! {

/// A row of an imported spreadsheet of users.
pub struct ExcelUserRow {
    pub first_name: String,
    pub last_name: String,
    pub address: String,
    pub email: String,
    pub password: String,
    pub cccd: String,
    pub phone_number: String,
    pub role: String,
    pub student_code: Option<String>,
}

/// A role name, once lower-cased, that an imported row may carry.
pub open spec fn role_of_lowercase(lower: Seq<char>) -> Option<RoleEnum> {
    if lower == "student"@ {
        Some(RoleEnum::Student)
    } else if lower == "teacher"@ {
        Some(RoleEnum::Teacher)
    } else if lower == "admin"@ {
        Some(RoleEnum::Admin)
    } else if lower == "manager"@ {
        Some(RoleEnum::Manager)
    } else {
        None
    }
}

/// The role a lower-cased role name stands for, if any.
pub fn role_from_lowercase(lower: &str) -> (r: Option<RoleEnum>)
    ensures
        r == role_of_lowercase(lower@),
{
    if str_eq(lower, "student") {
        Some(RoleEnum::Student)
    } else if str_eq(lower, "teacher") {
        Some(RoleEnum::Teacher)
    } else if str_eq(lower, "admin") {
        Some(RoleEnum::Admin)
    } else if str_eq(lower, "manager") {
        Some(RoleEnum::Manager)
    } else {
        None
    }
}

/// The message that refuses an unknown role.
pub open spec fn invalid_role_message(role: Seq<char>) -> Seq<char> {
    "Invalid role: "@ + role
}

/// The first problem of an imported row, when it has one, given the lower-cased role.
pub open spec fn row_problem(row: ExcelUserRow, lower_role: Seq<char>) -> Option<Seq<char>> {
    if row.first_name@.len() == 0 {
        Some("First name is required"@)
    } else if row.last_name@.len() == 0 {
        Some("Last name is required"@)
    } else if row.email@.len() == 0 || !row.email@.contains('@') {
        Some("Valid email is required"@)
    } else if (encode_utf8(row.password@).len() as usize) < 6 {
        Some("Password must be at least 6 characters"@)
    } else if role_of_lowercase(lower_role) is None {
        Some(invalid_role_message(row.role@))
    } else {
        None
    }
}

impl ExcelUserRow {
    /// Validates the row with its role already lower-cased: names present, an email
    /// with `@`, a password of at least 6 bytes, a known role.
    pub fn validate_with_lowercase_role(&self, lower_role: &str) -> (r: Result<(), String>)
        ensures
            match row_problem(*self, lower_role@) {
                None => r is Ok,
                Some(msg) => r matches Err(e) && e@ == msg,
            },
    {
        if self.first_name.as_str().is_empty() {
            return Err(String::from_str("First name is required"));
        }
        if self.last_name.as_str().is_empty() {
            return Err(String::from_str("Last name is required"));
        }
        if self.email.as_str().is_empty() || !contains_char(self.email.as_str(), '@') {
            return Err(String::from_str("Valid email is required"));
        }
        if self.password.as_str().len() < 6 {
            return Err(String::from_str("Password must be at least 6 characters"));
        }
        match role_from_lowercase(lower_role) {
            Some(_) => Ok(()),
            None => Err(concat("Invalid role: ", self.role.as_str())),
        }
    }

    /// Validates the row; the role is compared after Unicode lower-casing.
    pub fn validate(&self) -> (r: Result<(), String>)
        ensures
            match row_problem(*self, spec_to_lowercase(self.role@)) {
                None => r is Ok,
                Some(msg) => r matches Err(e) && e@ == msg,
            },
    {
        let lower = to_lowercase(self.role.as_str());
        self.validate_with_lowercase_role(lower.as_str())
    }

    /// The role of the row, its name already lower-cased.
    pub fn parse_role_with_lowercase(&self, lower_role: &str) -> (r: Result<RoleEnum, String>)
        ensures
            match role_of_lowercase(lower_role@) {
                Some(role) => r == Ok::<RoleEnum, String>(role),
                None => r matches Err(e) && e@ == invalid_role_message(self.role@),
            },
    {
        match role_from_lowercase(lower_role) {
            Some(role) => Ok(role),
            None => Err(concat("Invalid role: ", self.role.as_str())),
        }
    }

    /// The role of the row; the name is compared after Unicode lower-casing.
    pub fn parse_role(&self) -> (r: Result<RoleEnum, String>)
        ensures
            match role_of_lowercase(spec_to_lowercase(self.role@)) {
                Some(role) => r == Ok::<RoleEnum, String>(role),
                None => r matches Err(e) && e@ == invalid_role_message(self.role@),
            },
    {
        let lower = to_lowercase(self.role.as_str());
        self.parse_role_with_lowercase(lower.as_str())
    }
}

/// A row of a bulk-registration file, with where it came from once queued.
pub struct UserCsvColumn {
    pub address: String,
    pub cccd: String,
    pub email: String,
    pub first_name: String,
    pub last_name: String,
    pub major_ids: Vec<String>,
    pub password: String,
    pub phone_number: String,
    pub role: String,
    pub file_name: Option<String>,
    pub row_number: Option<u64>,
}

/// The role a bulk-registration row names; here the name must match exactly.
pub open spec fn csv_role_of(role: Seq<char>) -> Option<RoleEnum> {
    if role == "Student"@ {
        Some(RoleEnum::Student)
    } else if role == "Manager"@ {
        Some(RoleEnum::Manager)
    } else if role == "Admin"@ {
        Some(RoleEnum::Admin)
    } else {
        None
    }
}

/// The role of a bulk-registration row, or the refusal `Invalid role`.
pub fn csv_role(role: &str) -> (r: Result<RoleEnum, String>)
    ensures
        match csv_role_of(role@) {
            Some(x) => r == Ok::<RoleEnum, String>(x),
            None => r matches Err(e) && e@ == "Invalid role"@,
        },
{
    if str_eq(role, "Student") {
        Ok(RoleEnum::Student)
    } else if str_eq(role, "Manager") {
        Ok(RoleEnum::Manager)
    } else if str_eq(role, "Admin") {
        Ok(RoleEnum::Admin)
    } else {
        Err(String::from_str("Invalid role"))
    }
}

/// Whether a bulk-registration row needs a student code.
pub fn csv_needs_student_code(role: &str) -> (b: bool)
    ensures
        b == (role@ == "Student"@),
{
    str_eq(role, "Student")
}

// ---------------------------------------------------------------------------
// Student codes
// ---------------------------------------------------------------------------

/// The code that follows the latest one: the latest read as an integer (0 when it
/// is not one), plus one, written with at least six digits.
pub open spec fn next_student_code_text(latest: Seq<char>) -> Seq<char> {
    let n: int = match parse_i64_spec(latest) {
        Some(v) => v as int,
        None => 0,
    };
    padded_signed(n + 1, 6)
}

/// Computes the student code that follows the latest one.
pub fn next_student_code(latest: &str) -> (code: String)
    requires
        parse_i64_spec(latest@) != Some(i64::MAX),
    ensures
        code@ == next_student_code_text(latest@),
{
    let n = match parse_i64(latest) {
        Some(v) => v,
        None => 0,
    };
    i64_zero_padded(n + 1, 6)
}




proof fn lemma_digit_char_value(d: nat)
    requires
        d < 10,
    ensures
        crate::text::digit_value(crate::text::digit_char(d)) == d,
        is_digit(crate::text::digit_char(d)),
{
}

/// A number written in decimal is a non-empty string of ASCII digits that reads back
/// as the number.
pub proof fn lemma_decimal_digits(n: nat)
    ensures
        all_digits(decimal(n)),
        digits_value(decimal(n)) == n,
        decimal(n).len() > 0,
    decreases n,
{
    lemma_digit_char_value(n % 10);
    if n >= 10 {
        lemma_decimal_digits(n / 10);
        let d = decimal(n / 10);
        let e = d.push(crate::text::digit_char(n % 10));
        assert(e.drop_last() =~= d);
        assert forall|i: int| 0 <= i < e.len() implies is_digit(e[i]) by {
            if i < d.len() {
                assert(e[i] == d[i]);
            }
        }
        assert(e.last() == crate::text::digit_char(n % 10));
        assert(digits_value(e) == digits_value(d) * 10 + crate::text::digit_value(e.last()));
        assert(n == (n / 10) * 10 + n % 10);
    } else {
        let e = decimal(n);
        assert(e.len() == 1);
        assert(e.drop_last() =~= Seq::<char>::empty());
        assert(digits_value(e) == digits_value(e.drop_last()) * 10 + crate::text::digit_value(e.last()));
    }
}

/// Leading zeros do not change what a digit string reads as.
pub proof fn lemma_leading_zeros(k: nat, s: Seq<char>)
    requires
        all_digits(s),
    ensures
        all_digits(zeros(k) + s),
        digits_value(zeros(k) + s) == digits_value(s),
    decreases s.len(),
{
    if s.len() == 0 {
        lemma_zeros_value(k);
        assert(zeros(k) + s =~= zeros(k));
    } else {
        let t = s.drop_last();
        assert(all_digits(t)) by {
            assert forall|i: int| 0 <= i < t.len() implies is_digit(t[i]) by {
                assert(t[i] == s[i]);
            }
        }
        lemma_leading_zeros(k, t);
        let z = zeros(k) + s;
        assert(z.drop_last() =~= zeros(k) + t);
        assert(z.last() == s.last());
        assert forall|i: int| 0 <= i < z.len() implies is_digit(z[i]) by {
            if i < k {
                assert(z[i] == '0');
            } else {
                assert(z[i] == s[i - k]);
            }
        }
    }
}

proof fn lemma_zeros_value(k: nat)
    ensures
        all_digits(zeros(k)),
        digits_value(zeros(k)) == 0,
    decreases k,
{
    if k > 0 {
        lemma_zeros_value((k - 1) as nat);
        assert(zeros(k).drop_last() =~= zeros((k - 1) as nat));
    }
}

/// Student codes count up: when the latest code is the six-digit code of `n`,
/// the next one is the six-digit code of `n + 1`, and reads back as `n + 1`.
pub proof fn lemma_student_codes_count_up(n: i64)
    requires
        0 <= n < 999_999,
    ensures
        next_student_code_text(zero_padded(decimal(n as nat), 6)) == zero_padded(
            decimal((n + 1) as nat),
            6,
        ),
        parse_i64_spec(next_student_code_text(zero_padded(decimal(n as nat), 6))) == Some(
            (n + 1) as i64,
        ),
        next_student_code_text(zero_padded(decimal(n as nat), 6)).len() == 6,
{
    lemma_padded_reads_back(n as nat);
    lemma_padded_reads_back((n + 1) as nat);
    lemma_decimal_short((n + 1) as nat);
}

/// The code given to the next student has six ASCII digits and reads as the number
/// the latest code reads as, plus one; a latest code that does not read as a number
/// counts as 0, so the next code reads as 1.
pub proof fn lemma_next_code_reads_as_successor(latest: Seq<char>)
    requires
        parse_i64_spec(latest) matches Some(v) ==> -1 <= v < 999_999,
    ensures
        next_student_code_text(latest).len() == 6,
        all_digits(next_student_code_text(latest)),
        parse_int(next_student_code_text(latest)) == Some(
            match parse_i64_spec(latest) {
                Some(v) => v as int + 1,
                None => 1int,
            },
        ),
{
    let n: int = match parse_i64_spec(latest) {
        Some(v) => v as int + 1,
        None => 1,
    };
    lemma_padded_reads_back(n as nat);
    lemma_decimal_short(n as nat);
    lemma_decimal_digits(n as nat);
    let d = decimal(n as nat);
    if d.len() < 6 {
        lemma_leading_zeros((6 - d.len()) as nat, d);
    }
}

proof fn lemma_decimal_short(n: nat)
    requires
        n < 1_000_000,
    ensures
        decimal(n).len() <= 6,
{
    reveal_with_fuel(decimal, 7);
}

proof fn lemma_padded_reads_back(n: nat)
    requires
        n < 1_000_000,
    ensures
        parse_int(zero_padded(decimal(n), 6)) == Some(n as int),
{
    lemma_decimal_digits(n);
    lemma_decimal_short(n);
    let d = decimal(n);
    let p = zero_padded(d, 6);
    if d.len() < 6 {
        lemma_leading_zeros((6 - d.len()) as nat, d);
    }
    assert(all_digits(p));
    assert(digits_value(p) == n);
    assert(p.len() > 0);
    assert(is_digit(p[0]));
}

// ---------------------------------------------------------------------------
// Major lists in bulk files
// ---------------------------------------------------------------------------

/// The pieces of `s` between `;` separators (one piece when there is none).
pub open spec fn split_semicolons(s: Seq<char>) -> Seq<Seq<char>>
    decreases s.len(),
{
    if s.len() == 0 {
        seq![Seq::<char>::empty()]
    } else {
        let r = split_semicolons(s.drop_last());
        if s.last() == ';' {
            r.push(Seq::<char>::empty())
        } else {
            r.update(r.len() - 1, r.last().push(s.last()))
        }
    }
}

/// How a cell of major ids is read: nothing from an empty cell, otherwise the
/// `;`-separated pieces, each trimmed of white space.
pub open spec fn major_ids_of(cell: Seq<char>) -> Seq<Seq<char>> {
    if cell.len() == 0 {
        Seq::empty()
    } else {
        split_semicolons(cell).map_values(|p: Seq<char>| trim_seq(p))
    }
}

/// The pieces joined with `;` between them.
pub open spec fn join_semicolons(ids: Seq<Seq<char>>) -> Seq<char>
    decreases ids.len(),
{
    if ids.len() == 0 {
        Seq::empty()
    } else if ids.len() == 1 {
        ids[0]
    } else {
        join_semicolons(ids.drop_last()) + seq![';'] + ids.last()
    }
}

/// How major ids are written into a cell: empty for none, otherwise joined with `;`.
pub open spec fn major_cell_of(ids: Seq<Seq<char>>) -> Seq<char> {
    if ids.len() == 0 {
        Seq::empty()
    } else {
        join_semicolons(ids)
    }
}

proof fn lemma_split_len(s: Seq<char>)
    ensures
        split_semicolons(s).len() >= 1,
    decreases s.len(),
{
    if s.len() > 0 {
        lemma_split_len(s.drop_last());
    }
}

/// Reads the major ids of a cell.
pub fn split_major_ids(cell: &str) -> (ids: Vec<String>)
    ensures
        ids@.map_values(|x: String| x@) == major_ids_of(cell@),
{
    let mut ids: Vec<String> = Vec::new();
    if cell.is_empty() {
        assert(ids@.map_values(|x: String| x@) =~= Seq::<Seq<char>>::empty());
        return ids;
    }
    let n = cell.unicode_len();
    let mut cur = String::new();
    let mut i: usize = 0;
    proof {
        assert(cell@.take(0) =~= Seq::<char>::empty());
    }
    while i < n
        invariant
            n == cell@.len(),
            i <= n,
            split_semicolons(cell@.take(i as int)).len() >= 1,
            ids@.map_values(|x: String| x@) == split_semicolons(cell@.take(i as int)).drop_last().map_values(
                |p: Seq<char>| trim_seq(p),
            ),
            cur@ == split_semicolons(cell@.take(i as int)).last(),
        decreases n - i,
    {
        let c = cell.get_char(i);
        let ghost before = cell@.take(i as int);
        let ghost after = cell@.take(i + 1);
        proof {
            assert(after.drop_last() =~= before);
            assert(after.last() == c);
            lemma_split_len(before);
        }
        if c == ';' {
            let t = trim(cur.as_str());
            let ghost old_ids = ids@;
            ids.push(t);
            cur = String::new();
            proof {
                let r = split_semicolons(before);
                assert(split_semicolons(after) == r.push(Seq::<char>::empty()));
                assert(split_semicolons(after).drop_last() =~= r);
                assert(ids@ == old_ids.push(t));
                assert(ids@.map_values(|x: String| x@) =~= old_ids.map_values(|x: String| x@).push(
                    t@,
                ));
                assert(r.map_values(|p: Seq<char>| trim_seq(p)) =~= r.drop_last().map_values(
                    |p: Seq<char>| trim_seq(p),
                ).push(trim_seq(r.last())));
            }
        } else {
            push_char(&mut cur, c);
            proof {
                let r = split_semicolons(before);
                let r2 = r.update(r.len() - 1, r.last().push(c));
                assert(split_semicolons(after) == r2);
                assert(r2.drop_last() =~= r.drop_last());
            }
        }
        i = i + 1;
    }
    let t = trim(cur.as_str());
    let ghost old_ids = ids@;
    ids.push(t);
    proof {
        let r = split_semicolons(cell@.take(n as int));
        assert(cell@.take(n as int) =~= cell@);
        assert(ids@ == old_ids.push(t));
        assert(ids@.map_values(|x: String| x@) =~= old_ids.map_values(|x: String| x@).push(t@));
        assert(r.map_values(|p: Seq<char>| trim_seq(p)) =~= r.drop_last().map_values(
            |p: Seq<char>| trim_seq(p),
        ).push(trim_seq(r.last())));
    }
    ids
}

/// Writes major ids into a cell.
pub fn join_major_ids(ids: &Vec<String>) -> (cell: String)
    ensures
        cell@ == major_cell_of(ids@.map_values(|x: String| x@)),
{
    let ghost v = ids@.map_values(|x: String| x@);
    let n = ids.len();
    if n == 0 {
        return String::new();
    }
    let mut cell = String::from_str(ids[0].as_str());
    let mut i: usize = 1;
    proof {
        assert(v.take(1) =~= seq![v[0]]);
    }
    while i < n
        invariant
            n == ids@.len(),
            v == ids@.map_values(|x: String| x@),
            1 <= i <= n,
            cell@ == join_semicolons(v.take(i as int)),
        decreases n - i,
    {
        let ghost before = cell@;
        cell.append(";");
        cell.append(ids[i].as_str());
        proof {
            reveal_strlit(";");
            assert(v[i as int] == ids@[i as int]@);
            assert(cell@ =~= before + seq![';'] + v[i as int]);
            let t = v.take(i + 1);
            assert(t.drop_last() =~= v.take(i as int));
            assert(t.last() == v[i as int]);
        }
        i = i + 1;
    }
    proof {
        assert(v.take(n as int) =~= v);
    }
    cell
}

proof fn lemma_split_plain_suffix(x: Seq<char>, y: Seq<char>)
    requires
        !y.contains(';'),
    ensures
        split_semicolons(x + y) == split_semicolons(x).update(
            split_semicolons(x).len() - 1,
            split_semicolons(x).last() + y,
        ),
    decreases y.len(),
{
    lemma_split_len(x);
    if y.len() == 0 {
        assert(x + y =~= x);
        let r = split_semicolons(x);
        assert(r.last() + y =~= r.last());
        assert(r.update(r.len() - 1, r.last()) =~= r);
    } else {
        let y0 = y.drop_last();
        assert(!y0.contains(';')) by {
            if y0.contains(';') {
                let k = choose|k: int| 0 <= k < y0.len() && y0[k] == ';';
                assert(y[k] == ';');
            }
        }
        lemma_split_plain_suffix(x, y0);
        let xy = x + y;
        assert(xy.drop_last() =~= x + y0);
        assert(xy.last() == y.last());
        assert(y.last() != ';') by {
            assert(y[y.len() - 1] == y.last());
        }
        let r = split_semicolons(x);
        let r0 = split_semicolons(x + y0);
        lemma_split_len(x + y0);
        assert(r0.last() == r.last() + y0);
        assert(r0.last().push(y.last()) =~= r.last() + y);
        assert(r0.update(r0.len() - 1, r0.last().push(y.last())) =~= r.update(
            r.len() - 1,
            r.last() + y,
        ));
    }
}

proof fn lemma_split_join(ids: Seq<Seq<char>>)
    requires
        ids.len() >= 1,
        forall|i: int| 0 <= i < ids.len() ==> !(#[trigger] ids[i]).contains(';'),
    ensures
        split_semicolons(join_semicolons(ids)) == ids,
    decreases ids.len(),
{
    if ids.len() == 1 {
        lemma_split_plain_suffix(Seq::<char>::empty(), ids[0]);
        assert(Seq::<char>::empty() + ids[0] =~= ids[0]);
        assert(split_semicolons(Seq::<char>::empty()) =~= seq![Seq::<char>::empty()]);
        assert(Seq::<char>::empty() + ids[0] =~= ids[0]);
        assert(seq![Seq::<char>::empty()].update(0, Seq::<char>::empty() + ids[0]) =~= ids);
    } else {
        let init = ids.drop_last();
        assert forall|i: int| 0 <= i < init.len() implies !(#[trigger] init[i]).contains(';') by {
            assert(init[i] == ids[i]);
        }
        lemma_split_join(init);
        let a = join_semicolons(init);
        let b = ids.last();
        assert(!b.contains(';')) by {
            assert(ids[ids.len() - 1] == b);
        }
        let with_sep = a + seq![';'];
        assert(with_sep.drop_last() =~= a);
        assert(split_semicolons(with_sep) == init.push(Seq::<char>::empty()));
        lemma_split_plain_suffix(with_sep, b);
        assert(a + seq![';'] + b == with_sep + b);
        let r = init.push(Seq::<char>::empty());
        assert(r.last() + b =~= b);
        assert(r.update(r.len() - 1, b) =~= ids);
    }
}

proof fn lemma_join_nonempty(ids: Seq<Seq<char>>)
    requires
        ids.len() >= 2,
    ensures
        join_semicolons(ids).len() > 0,
{
}

/// Major ids written into a cell read back as the same ids, when no id holds `;`
/// or surrounding white space; the one exception is a single empty id, whose
/// cell is empty and reads back as no ids.
pub proof fn lemma_major_ids_round_trip(ids: Seq<Seq<char>>)
    requires
        forall|i: int| 0 <= i < ids.len() ==> !(#[trigger] ids[i]).contains(';'),
        forall|i: int| 0 <= i < ids.len() ==> trim_seq(#[trigger] ids[i]) == ids[i],
        !(ids.len() == 1 && ids[0].len() == 0),
    ensures
        major_ids_of(major_cell_of(ids)) == ids,
{
    if ids.len() >= 1 {
        lemma_split_join(ids);
        if ids.len() >= 2 {
            lemma_join_nonempty(ids);
        }
        let cell = join_semicolons(ids);
        assert(cell.len() > 0);
        assert(split_semicolons(cell).map_values(|p: Seq<char>| trim_seq(p)) =~= ids);
    } else {
        assert(major_cell_of(ids).len() == 0);
        assert(major_ids_of(major_cell_of(ids)) =~= ids);
    }
}

proof fn lemma_join_extend_last(r: Seq<Seq<char>>, c: char)
    requires
        r.len() >= 1,
    ensures
        join_semicolons(r.update(r.len() - 1, r.last().push(c))) == join_semicolons(r).push(c),
{
    let r2 = r.update(r.len() - 1, r.last().push(c));
    if r.len() == 1 {
        assert(r2[0] == r[0].push(c));
    } else {
        assert(r2.drop_last() =~= r.drop_last());
        assert(r2.last() == r.last().push(c));
        assert(join_semicolons(r2) =~= join_semicolons(r).push(c));
    }
}

proof fn lemma_join_split(s: Seq<char>)
    ensures
        join_semicolons(split_semicolons(s)) == s,
    decreases s.len(),
{
    if s.len() == 0 {
        assert(split_semicolons(s) =~= seq![Seq::<char>::empty()]);
    } else {
        let init = s.drop_last();
        lemma_join_split(init);
        lemma_split_len(init);
        let r = split_semicolons(init);
        if s.last() == ';' {
            let r2 = r.push(Seq::<char>::empty());
            assert(r2.drop_last() =~= r);
            assert(join_semicolons(r2) =~= init + seq![';'] + Seq::<char>::empty());
            assert(init + seq![';'] + Seq::<char>::empty() =~= s);
        } else {
            lemma_join_extend_last(r, s.last());
            assert(init.push(s.last()) =~= s);
        }
    }
}

/// A cell read into major ids and written back is the same cell, when none of its
/// pieces has white space around it (that space is trimmed away on reading).
pub proof fn lemma_major_cell_round_trip(cell: Seq<char>)
    requires
        forall|i: int|
            0 <= i < split_semicolons(cell).len() ==> trim_seq(#[trigger] split_semicolons(cell)[i])
                == split_semicolons(cell)[i],
    ensures
        major_cell_of(major_ids_of(cell)) == cell,
{
    if cell.len() > 0 {
        let r = split_semicolons(cell);
        lemma_split_len(cell);
        assert(r.map_values(|p: Seq<char>| trim_seq(p)) =~= r);
        lemma_join_split(cell);
    }
}

// ---------------------------------------------------------------------------
// Bulk registration reports
// ---------------------------------------------------------------------------

/// `first last`: the full name sent to the blockchain.
pub fn full_name(first_name: &str, last_name: &str) -> (s: String)
    ensures
        s@ == first_name@ + " "@ + last_name@,
{
    concat3(first_name, " ", last_name)
}

/// The answer to activating blockchain registration for a file: 206 when some
/// messages could not be queued, 200 otherwise, with the counts.
pub open spec fn activation_report(success: nat, failed: nat) -> (u16, Seq<char>) {
    if failed > 0 {
        (
            206u16,
            "Blockchain registration activated for "@ + decimal(success) + " students, "@
                + decimal(failed) + " failed"@,
        )
    } else {
        (200u16, "Blockchain registration activated for "@ + decimal(success) + " students"@)
    }
}

/// Reports the result of queueing blockchain registrations.
pub fn activation_summary(success: u64, failed: u64) -> (r: (u16, String))
    ensures
        (r.0, r.1@) == activation_report(success as nat, failed as nat),
{
    let s = u64_to_decimal(success);
    let mut msg = concat("Blockchain registration activated for ", s.as_str());
    if failed > 0 {
        let f = u64_to_decimal(failed);
        msg.append(" students, ");
        msg.append(f.as_str());
        msg.append(" failed");
        (206, msg)
    } else {
        msg.append(" students");
        (200, msg)
    }
}

/// The emails of the rows whose role, lower-cased, is `student`, in file order.
pub open spec fn student_emails_of(roles_lower: Seq<Seq<char>>, emails: Seq<Seq<char>>) -> Seq<
    Seq<char>,
>
    decreases roles_lower.len(),
{
    if roles_lower.len() == 0 || emails.len() == 0 {
        Seq::empty()
    } else {
        let rest = student_emails_of(roles_lower.drop_last(), emails.drop_last());
        if roles_lower.last() == "student"@ {
            rest.push(emails.last())
        } else {
            rest
        }
    }
}

/// Picks the student emails out of the rows of a bulk file.
pub fn select_student_emails(rows: &Vec<UserCsvColumn>) -> (emails: Vec<String>)
    ensures
        emails@.map_values(|x: String| x@) == student_emails_of(
            rows@.map_values(|r: UserCsvColumn| spec_to_lowercase(r.role@)),
            rows@.map_values(|r: UserCsvColumn| r.email@),
        ),
{
    let ghost roles = rows@.map_values(|r: UserCsvColumn| spec_to_lowercase(r.role@));
    let ghost mails = rows@.map_values(|r: UserCsvColumn| r.email@);
    let mut out: Vec<String> = Vec::new();
    let n = rows.len();
    let mut i: usize = 0;
    proof {
        assert(roles.take(0) =~= Seq::<Seq<char>>::empty());
        assert(out@.map_values(|x: String| x@) =~= Seq::<Seq<char>>::empty());
    }
    while i < n
        invariant
            n == rows@.len(),
            i <= n,
            roles == rows@.map_values(|r: UserCsvColumn| spec_to_lowercase(r.role@)),
            mails == rows@.map_values(|r: UserCsvColumn| r.email@),
            out@.map_values(|x: String| x@) == student_emails_of(
                roles.take(i as int),
                mails.take(i as int),
            ),
        decreases n - i,
    {
        let lower = to_lowercase(rows[i].role.as_str());
        let is_student = str_eq(lower.as_str(), "student");
        let ghost old_out = out@.map_values(|x: String| x@);
        if is_student {
            out.push(rows[i].email.clone());
        }
        proof {
            let rt = roles.take(i + 1);
            let mt = mails.take(i + 1);
            assert(rt.drop_last() =~= roles.take(i as int));
            assert(mt.drop_last() =~= mails.take(i as int));
            assert(rt.last() == lower@);
            assert(mt.last() == rows@[i as int].email@);
            if is_student {
                assert(out@.map_values(|x: String| x@) =~= old_out.push(rows@[i as int].email@));
            } else {
                assert(out@.map_values(|x: String| x@) =~= old_out);
            }
        }
        i = i + 1;
    }
    proof {
        assert(roles.take(n as int) =~= roles);
        assert(mails.take(n as int) =~= mails);
    }
    out
}

/// The answer to a bulk registration: counts and the problems of the failed rows.
pub struct BulkUserResponse {
    pub total_records: usize,
    pub successful: usize,
    pub failed: usize,
    pub errors: Vec<BulkUserError>,
}

/// One failed row of a bulk registration.
pub struct BulkUserError {
    pub row: usize,
    pub email: String,
    pub error: String,
}

/// Paging and filters of the account list.
pub struct UserQueryParams {
    pub page: usize,
    pub page_size: usize,
    pub role: Option<RoleEnum>,
    pub search: Option<String>,
}

/// The page shown when none is asked for.
pub fn default_page() -> (p: usize)
    ensures
        p == 1,
{
    1
}

/// The page size used when none is asked for.
pub fn default_page_size() -> (p: usize)
    ensures
        p == 20,
{
    20
}

/// The file of a bulk registration, by its upload record.
pub struct CreateUserRequestBulk {
    pub history_file_upload_id: String,
}

/// Progress of blockchain registration for an uploaded file.
pub struct BlockchainProgressResponse {
    pub file_upload_history_id: String,
    pub current: u64,
    pub total: u64,
    pub percent: u64,
    pub success: u64,
    pub failed: u64,
}

/// Progress of account creation for an uploaded file.
pub struct CreateUserProgressResponse {
    pub file_upload_history_id: String,
    pub current: u64,
    pub total: u64,
    pub percent: u64,
    pub success: u64,
    pub failed: u64,
}

impl BlockchainProgressResponse {
    /// Reports a progress for an uploaded file.
    pub fn from_progress(file_upload_history_id: String, p: &FileProgress) -> (r: Self)
        ensures
            r.file_upload_history_id == file_upload_history_id,
            r.current == p.current && r.total == p.total && r.percent == p.percent,
            r.success == p.success && r.failed == p.failed,
    {
        BlockchainProgressResponse {
            file_upload_history_id,
            current: p.current,
            total: p.total,
            percent: p.percent,
            success: p.success,
            failed: p.failed,
        }
    }
}

impl CreateUserProgressResponse {
    /// Reports a progress for an uploaded file.
    pub fn from_progress(file_upload_history_id: String, p: &FileProgress) -> (r: Self)
        ensures
            r.file_upload_history_id == file_upload_history_id,
            r.current == p.current && r.total == p.total && r.percent == p.percent,
            r.success == p.success && r.failed == p.failed,
    {
        CreateUserProgressResponse {
            file_upload_history_id,
            current: p.current,
            total: p.total,
            percent: p.percent,
            success: p.success,
            failed: p.failed,
        }
    }
}

// ---------------------------------------------------------------------------
// Creating, viewing, changing and deleting accounts
// ---------------------------------------------------------------------------

/// The blockchain request queued when an account is created.
#[derive(Clone, Copy, Debug, PartialEq, Eq, Structural)]
pub enum CreationChainRequest {
    RegisterStudent,
    RegisterManager,
    AssignRole(u8),
}

/// Students are registered, managers registered as managers, teachers and
/// administrators given their role code.
pub fn creation_chain_request(role: RoleEnum) -> (r: CreationChainRequest)
    ensures
        r == match role {
            RoleEnum::Student => CreationChainRequest::RegisterStudent,
            RoleEnum::Manager => CreationChainRequest::RegisterManager,
            RoleEnum::Admin => CreationChainRequest::AssignRole(3),
            RoleEnum::Teacher => CreationChainRequest::AssignRole(2),
        },
{
    match role {
        RoleEnum::Student => CreationChainRequest::RegisterStudent,
        RoleEnum::Manager => CreationChainRequest::RegisterManager,
        RoleEnum::Admin => CreationChainRequest::AssignRole(blockchain_role_code(role)),
        RoleEnum::Teacher => CreationChainRequest::AssignRole(blockchain_role_code(role)),
    }
}

/// A new account row as it is stored.
pub struct NewAccount {
    pub first_name: String,
    pub last_name: String,
    pub address: String,
    pub email: String,
    pub password: String,
    pub cccd: String,
    pub phone_number: String,
    pub role: RoleEnum,
    pub is_priority: bool,
    pub is_first_login: bool,
    pub student_code: Option<String>,
    pub created_at: i64,
    pub updated_at: i64,
}

/// Builds the row of an account created at `now` with an already hashed password.
/// Only a student gets a student code, the one after the latest code stored; every
/// new account is not a priority and must change its password at first sign-in.
pub fn new_account(
    first_name: String,
    last_name: String,
    address: String,
    email: String,
    hashed_password: String,
    cccd: String,
    phone_number: String,
    role: RoleEnum,
    latest_code: &str,
    now: i64,
) -> (a: NewAccount)
    requires
        role == RoleEnum::Student ==> parse_i64_spec(latest_code@) != Some(i64::MAX),
    ensures
        role == RoleEnum::Student ==> (a.student_code matches Some(c) && c@ == next_student_code_text(
            latest_code@,
        )),
        role != RoleEnum::Student ==> a.student_code is None,
        a.is_first_login,
        !a.is_priority,
        a.role == role,
        a.first_name == first_name && a.last_name == last_name && a.address == address,
        a.email == email && a.password == hashed_password && a.cccd == cccd,
        a.phone_number == phone_number,
        a.created_at == now && a.updated_at == now,
{
    let student_code = match role {
        RoleEnum::Student => Some(next_student_code(latest_code)),
        _ => None,
    };
    NewAccount {
        first_name,
        last_name,
        address,
        email,
        password: hashed_password,
        cccd,
        phone_number,
        role,
        is_priority: false,
        is_first_login: true,
        student_code,
        created_at: now,
        updated_at: now,
    }
}

/// The latest student code as read back: an account without one counts as `000000`.
pub fn stored_latest_code(code: Option<String>) -> (s: String)
    ensures
        s@ == match code {
            Some(c) => c@,
            None => "000000"@,
        },
{
    match code {
        Some(c) => c,
        None => String::from_str("000000"),
    }
}

/// Changes asked for an account; a field left `None` is kept. The majors, when
/// given, replace the account's majors.
pub struct UpdateUserRequest {
    pub first_name: Option<String>,
    pub last_name: Option<String>,
    pub address: Option<String>,
    pub email: Option<String>,
    pub password: Option<String>,
    pub cccd: Option<String>,
    pub phone_number: Option<String>,
    pub role: Option<RoleEnum>,
    pub major_ids: Option<Vec<u128>>,
}

/// Turns the changes asked for into the stored update and the new majors: every
/// given field is set, a new password is stored hashed, the priority and first-login
/// flags are left alone. When hashing fails the refusal is that of `hashed_password`.
pub fn account_update(req: UpdateUserRequest) -> (r: Result<
    (UserUpdate, Option<Vec<u128>>),
    (u16, String),
>)
    ensures
        match r {
            Ok((u, majors)) => {
                &&& u.first_name == req.first_name && u.last_name == req.last_name
                &&& u.address == req.address && u.email == req.email && u.cccd == req.cccd
                &&& u.phone_number == req.phone_number && u.role == req.role
                &&& u.is_priority is None && u.is_first_login is None
                &&& majors == req.major_ids
                &&& (req.password is None <==> u.password is None)
                &&& (req.password matches Some(p) ==> (u.password matches Some(h) && h@.len() == 60
                    && bcrypt_verify_outcome(p@, h@) == Ok::<bool, Seq<char>>(true)))
            },
            Err((code, msg)) => req.password is Some && code == 500 && exists|e: Seq<char>|
                msg@ == "Failed to hash password: "@ + e,
        },
{
    let password = match &req.password {
        Some(p) => match hashed_password(p.as_str()) {
            Ok(h) => Some(h),
            Err(e) => {
                return Err(e);
            },
        },
        None => None,
    };
    let u = UserUpdate {
        first_name: req.first_name,
        last_name: req.last_name,
        address: req.address,
        email: req.email,
        password,
        cccd: req.cccd,
        phone_number: req.phone_number,
        role: req.role,
        is_priority: None,
        is_first_login: None,
    };
    Ok((u, req.major_ids))
}

/// The majors of an account after an update: the ones asked for replace the old
/// ones; when none are asked for, the old ones stay.
pub fn majors_after_update(current: Vec<u128>, requested: Option<Vec<u128>>) -> (m: Vec<u128>)
    ensures
        m@ == match requested {
            Some(v) => v@,
            None => current@,
        },
{
    match requested {
        Some(v) => v,
        None => current,
    }
}

/// The blockchain request queued when an account is deleted.
#[derive(Clone, Copy, Debug, PartialEq, Eq, Structural)]
pub enum DeletionChainRequest {
    RemoveManager,
    DeactivateStudent(u64),
    Nothing,
}

/// A manager is removed; a student registered on the blockchain (a positive id) is
/// deactivated; nothing is queued otherwise.
pub fn deletion_chain_request(role: RoleEnum, student_id: u64) -> (r: DeletionChainRequest)
    ensures
        r == match role {
            RoleEnum::Manager => DeletionChainRequest::RemoveManager,
            RoleEnum::Student => if student_id > 0 {
                DeletionChainRequest::DeactivateStudent(student_id)
            } else {
                DeletionChainRequest::Nothing
            },
            _ => DeletionChainRequest::Nothing,
        },
{
    match role {
        RoleEnum::Manager => DeletionChainRequest::RemoveManager,
        RoleEnum::Student => if student_id > 0 {
            DeletionChainRequest::DeactivateStudent(student_id)
        } else {
            DeletionChainRequest::Nothing
        },
        _ => DeletionChainRequest::Nothing,
    }
}

/// Who may look up an account before it is loaded: administrators and managers
/// anyone, others only themselves.
pub open spec fn view_refusal(caller: UserRole, caller_id: Seq<char>, target_id: Seq<char>) -> Option<
    (u16, Seq<char>),
> {
    if caller != UserRole::ADMIN && caller != UserRole::MANAGER && caller_id != target_id {
        Some((403u16, "You can only view your own profile"@))
    } else {
        None
    }
}

/// Checks that the caller may look up an account.
pub fn check_view(caller: UserRole, caller_id: &str, target_id: &str) -> (r: Result<(), (u16, String)>)
    ensures
        refusal_of(r) == view_refusal(caller, caller_id@, target_id@),
{
    if caller != UserRole::ADMIN && caller != UserRole::MANAGER && !str_eq(caller_id, target_id) {
        Err((403, String::from_str("You can only view your own profile")))
    } else {
        Ok(())
    }
}

/// Once loaded, a manager may only see student accounts, and their own.
pub open spec fn manager_view_refusal(
    caller: UserRole,
    caller_id: Seq<char>,
    target_id: Seq<char>,
    target: RoleEnum,
) -> Option<(u16, Seq<char>)> {
    if caller == UserRole::MANAGER && target != RoleEnum::Student && caller_id != target_id {
        Some((403u16, "Managers can only view student accounts"@))
    } else {
        None
    }
}

/// Checks that a manager looks at a student account or at their own.
pub fn check_manager_view(caller: UserRole, caller_id: &str, target_id: &str, target: RoleEnum) -> (r:
    Result<(), (u16, String)>)
    ensures
        refusal_of(r) == manager_view_refusal(caller, caller_id@, target_id@, target),
{
    if caller == UserRole::MANAGER && target != RoleEnum::Student && !str_eq(caller_id, target_id) {
        Err((403, String::from_str("Managers can only view student accounts")))
    } else {
        Ok(())
    }
}

/// Everyone may see their own account: neither check refuses a look at oneself.
pub proof fn lemma_self_view_allowed(caller: UserRole, id: Seq<char>, target: RoleEnum)
    ensures
        view_refusal(caller, id, id) is None,
        manager_view_refusal(caller, id, id, target) is None,
{
}

/// Only administrators change roles.
pub open spec fn role_change_refusal(caller: UserRole, changes_role: bool) -> Option<(u16, Seq<char>)> {
    if changes_role && caller != UserRole::ADMIN {
        Some((403u16, "Only admin can change user roles"@))
    } else {
        None
    }
}

/// Checks that a role change, if asked, comes from an administrator.
pub fn check_role_change(caller: UserRole, changes_role: bool) -> (r: Result<(), (u16, String)>)
    ensures
        refusal_of(r) == role_change_refusal(caller, changes_role),
{
    if changes_role && caller != UserRole::ADMIN {
        Err((403, String::from_str("Only admin can change user roles")))
    } else {
        Ok(())
    }
}

/// The student code shown for an account; accounts without one show `Not Student`.
pub fn student_code_shown(code: Option<String>) -> (s: String)
    ensures
        s@ == match code {
            Some(c) => c@,
            None => "Not Student"@,
        },
{
    match code {
        Some(c) => c,
        None => String::from_str("Not Student"),
    }
}

// ---------------------------------------------------------------------------
// Bulk files
// ---------------------------------------------------------------------------

/// Tags the rows of a bulk file with the file's name and their row numbers,
/// counted from 1, before they are queued.
pub fn number_bulk_rows(rows: &mut Vec<UserCsvColumn>, file_name: &str)
    requires
        old(rows)@.len() < u64::MAX,
    ensures
        final(rows)@.len() == old(rows)@.len(),
        forall|i: int|
            0 <= i < final(rows)@.len() ==> {
                let r = #[trigger] final(rows)@[i];
                let o = old(rows)@[i];
                &&& r.file_name matches Some(f) && f@ == file_name@
                &&& r.row_number == Some((i + 1) as u64)
                &&& r.address == o.address && r.cccd == o.cccd && r.email == o.email
                &&& r.first_name == o.first_name && r.last_name == o.last_name
                &&& r.major_ids == o.major_ids && r.password == o.password
                &&& r.phone_number == o.phone_number && r.role == o.role
            },
{
    let ghost before = rows@;
    let n = rows.len();
    let mut i: usize = 0;
    while i < n
        invariant
            n == rows@.len(),
            n == before.len(),
            n < u64::MAX,
            i <= n,
            forall|j: int|
                0 <= j < i ==> {
                    let r = #[trigger] rows@[j];
                    let o = before[j];
                    &&& r.file_name matches Some(f) && f@ == file_name@
                    &&& r.row_number == Some((j + 1) as u64)
                    &&& r.address == o.address && r.cccd == o.cccd && r.email == o.email
                    &&& r.first_name == o.first_name && r.last_name == o.last_name
                    &&& r.major_ids == o.major_ids && r.password == o.password
                    &&& r.phone_number == o.phone_number && r.role == o.role
                },
            forall|j: int| i <= j < n ==> #[trigger] rows@[j] == before[j],
        decreases n - i,
    {
        let number = (i as u64) + 1;
        rows[i].file_name = Some(String::from_str(file_name));
        rows[i].row_number = Some(number);
        i = i + 1;
    }
}

/// The student code given to a new account of a bulk file: the code after the latest
/// one for students, none for other roles.
pub fn csv_student_code(role: &str, latest: &str) -> (code: Option<String>)
    requires
        parse_i64_spec(latest@) != Some(i64::MAX),
    ensures
        match code {
            Some(c) => role@ == "Student"@ && c@ == next_student_code_text(latest@),
            None => role@ != "Student"@,
        },
{
    if csv_needs_student_code(role) {
        Some(next_student_code(latest))
    } else {
        None
    }
}

/// The answer to a bulk registration once each of its `total_records` rows has been
/// handed on for creation: 201, every row counted as successful, none failed.
pub fn bulk_answer(total_records: usize) -> (r: (u16, BulkUserResponse))
    ensures
        r.0 == 201,
        r.1.total_records == total_records,
        r.1.successful == total_records,
        r.1.failed == 0,
        r.1.errors@.len() == 0,
        r.1.successful + r.1.failed == r.1.total_records,
{
    (201, BulkUserResponse {
        total_records,
        successful: total_records,
        failed: 0,
        errors: Vec::new(),
    })
}

// ---------------------------------------------------------------------------
// Blockchain registration of a file's students
// ---------------------------------------------------------------------------

/// The refusal of activating a file's registration when there is no one to register:
/// no student row in the file, no such student stored, or none of them a student.
pub open spec fn activation_refusal(emails: nat, found: nat, students: nat) -> Option<(u16, Seq<char>)> {
    if emails == 0 {
        Some((400u16, "No students found in CSV file"@))
    } else if found == 0 {
        Some(
            (
                400u16,
                "No students found for this file upload. Make sure students were created successfully first."@,
            ),
        )
    } else if students == 0 {
        Some((400u16, "No students found for blockchain registration"@))
    } else {
        None
    }
}

/// Checks that a file's registration has someone to register.
pub fn check_activation(emails: usize, found: usize, students: usize) -> (r: Result<(), (u16, String)>)
    ensures
        refusal_of(r) == activation_refusal(emails as nat, found as nat, students as nat),
{
    if emails == 0 {
        Err((400, String::from_str("No students found in CSV file")))
    } else if found == 0 {
        Err(
            (
                400,
                String::from_str(
                    "No students found for this file upload. Make sure students were created successfully first.",
                ),
            ),
        )
    } else if students == 0 {
        Err((400, String::from_str("No students found for blockchain registration")))
    } else {
        Ok(())
    }
}

/// A stored account found for a file, with its wallet.
pub struct StoredStudent {
    pub first_name: String,
    pub last_name: String,
    pub email: String,
    pub student_code: Option<String>,
    pub role: RoleEnum,
    pub wallet_address: String,
}

/// The registration requests for the students among the accounts found, in order:
/// wallet, student code (empty when none), full name and email of each.
pub open spec fn registrations_of(found: Seq<StoredStudent>) -> Seq<
    (Seq<char>, Seq<char>, Seq<char>, Seq<char>),
>
    decreases found.len(),
{
    if found.len() == 0 {
        Seq::empty()
    } else {
        let rest = registrations_of(found.drop_last());
        let s = found.last();
        if s.role == RoleEnum::Student {
            rest.push(
                (
                    s.wallet_address@,
                    match s.student_code {
                        Some(c) => c@,
                        None => Seq::<char>::empty(),
                    },
                    s.first_name@ + " "@ + s.last_name@,
                    s.email@,
                ),
            )
        } else {
            rest
        }
    }
}

/// The fields of a registration message that vary per student.
pub open spec fn registration_view(m: crate::messages::RegisterNewUserMessage) -> (
    Seq<char>,
    Seq<char>,
    Seq<char>,
    Seq<char>,
) {
    (m.wallet_address@, m.student_code@, m.full_name@, m.email@)
}

/// Builds the registration messages for the students among the accounts found, each
/// signed with `private_key` and tagged with the file.
pub fn registration_messages(found: &Vec<StoredStudent>, private_key: &str, file_id: &str) -> (msgs:
    Vec<crate::messages::RegisterNewUserMessage>)
    ensures
        msgs@.map_values(|m: crate::messages::RegisterNewUserMessage| registration_view(m))
            == registrations_of(found@),
        forall|i: int|
            0 <= i < msgs@.len() ==> (#[trigger] msgs@[i]).private_key@ == private_key@ && (
            msgs@[i].file_upload_history_id matches Some(f) && f@ == file_id@),
{
    let mut msgs: Vec<crate::messages::RegisterNewUserMessage> = Vec::new();
    let n = found.len();
    let mut i: usize = 0;
    proof {
        assert(found@.take(0) =~= Seq::<StoredStudent>::empty());
        assert(msgs@.map_values(|m: crate::messages::RegisterNewUserMessage| registration_view(m))
            =~= Seq::<(Seq<char>, Seq<char>, Seq<char>, Seq<char>)>::empty());
    }
    while i < n
        invariant
            n == found@.len(),
            i <= n,
            msgs@.map_values(|m: crate::messages::RegisterNewUserMessage| registration_view(m))
                == registrations_of(found@.take(i as int)),
            forall|j: int|
                0 <= j < msgs@.len() ==> (#[trigger] msgs@[j]).private_key@ == private_key@ && (
                msgs@[j].file_upload_history_id matches Some(f) && f@ == file_id@),
        decreases n - i,
    {
        let s = &found[i];
        let ghost before = msgs@;
        proof {
            let t = found@.take(i + 1);
            assert(t.drop_last() =~= found@.take(i as int));
            assert(t.last() == found@[i as int]);
        }
        if s.role == RoleEnum::Student {
            let code = match &s.student_code {
                Some(c) => c.clone(),
                None => String::new(),
            };
            let m = crate::messages::RegisterNewUserMessage {
                private_key: String::from_str(private_key),
                wallet_address: s.wallet_address.clone(),
                student_code: code,
                full_name: full_name(s.first_name.as_str(), s.last_name.as_str()),
                email: s.email.clone(),
                file_upload_history_id: Some(String::from_str(file_id)),
            };
            msgs.push(m);
            proof {
                assert(msgs@.map_values(
                    |m: crate::messages::RegisterNewUserMessage| registration_view(m),
                ) =~= before.map_values(
                    |m: crate::messages::RegisterNewUserMessage| registration_view(m),
                ).push(registration_view(m)));
            }
        }
        i = i + 1;
    }
    proof {
        assert(found@.take(n as int) =~= found@);
    }
    msgs
}

// ---------------------------------------------------------------------------
// The rules above, stated on their own
// ---------------------------------------------------------------------------

/// An imported row is checked in this order: a first name, then a last name, then an
/// email that is not empty and contains `@`, then a password of at least 6 bytes, then
/// a role that is, lower-cased, `student`, `teacher`, `admin` or `manager` (otherwise
/// `Invalid role: ` and the role as written). A row that passes every check has no
/// problem.
pub proof fn lemma_row_checks(row: ExcelUserRow, lower_role: Seq<char>)
    requires
        encode_utf8(row.password@).len() <= usize::MAX,
    ensures
        row.first_name@.len() == 0 ==> row_problem(row, lower_role) == Some("First name is required"@),
        row.first_name@.len() > 0 && row.last_name@.len() == 0 ==> row_problem(row, lower_role)
            == Some("Last name is required"@),
        row.first_name@.len() > 0 && row.last_name@.len() > 0 && (row.email@.len() == 0
            || !row.email@.contains('@')) ==> row_problem(row, lower_role) == Some(
            "Valid email is required"@,
        ),
        row.first_name@.len() > 0 && row.last_name@.len() > 0 && row.email@.contains('@')
            && encode_utf8(row.password@).len() < 6 ==> row_problem(row, lower_role) == Some(
            "Password must be at least 6 characters"@,
        ),
        row.first_name@.len() > 0 && row.last_name@.len() > 0 && row.email@.contains('@')
            && encode_utf8(row.password@).len() >= 6 && lower_role != "student"@ && lower_role
            != "teacher"@ && lower_role != "admin"@ && lower_role != "manager"@ ==> row_problem(
            row,
            lower_role,
        ) == Some("Invalid role: "@ + row.role@),
        row.first_name@.len() > 0 && row.last_name@.len() > 0 && row.email@.contains('@')
            && encode_utf8(row.password@).len() >= 6 && (lower_role == "student"@ || lower_role
            == "teacher"@ || lower_role == "admin"@ || lower_role == "manager"@) ==> row_problem(
            row,
            lower_role,
        ) is None,
{
    if row.email@.contains('@') {
        assert(row.email@.len() > 0);
    }
}

/// A lower-cased role name stands for exactly one role: `student`, `teacher`,
/// `admin` or `manager`; anything else for none. In a bulk file the name must be
/// `Student`, `Manager` or `Admin` exactly.
pub proof fn lemma_role_names(lower: Seq<char>, name: Seq<char>)
    ensures
        role_of_lowercase(lower) == Some(RoleEnum::Student) <==> lower == "student"@,
        role_of_lowercase(lower) == Some(RoleEnum::Teacher) <==> lower == "teacher"@,
        role_of_lowercase(lower) == Some(RoleEnum::Admin) <==> lower == "admin"@,
        role_of_lowercase(lower) == Some(RoleEnum::Manager) <==> lower == "manager"@,
        role_of_lowercase(lower) is None <==> (lower != "student"@ && lower != "teacher"@ && lower
            != "admin"@ && lower != "manager"@),
        csv_role_of(name) == Some(RoleEnum::Student) <==> name == "Student"@,
        csv_role_of(name) == Some(RoleEnum::Manager) <==> name == "Manager"@,
        csv_role_of(name) == Some(RoleEnum::Admin) <==> name == "Admin"@,
        csv_role_of(name) is None <==> (name != "Student"@ && name != "Manager"@ && name
            != "Admin"@),
{
    reveal_strlit("student");
    reveal_strlit("teacher");
    reveal_strlit("admin");
    reveal_strlit("manager");
    reveal_strlit("Student");
    reveal_strlit("Manager");
    reveal_strlit("Admin");
    assert("student"@[0] != "teacher"@[0]);
    assert("student"@[0] != "admin"@[0]);
    assert("student"@[0] != "manager"@[0]);
    assert("teacher"@[0] != "admin"@[0]);
    assert("teacher"@[0] != "manager"@[0]);
    assert("admin"@[0] != "manager"@[0]);
    assert("Student"@[0] != "Manager"@[0]);
    assert("Student"@[0] != "Admin"@[0]);
    assert("Manager"@[0] != "Admin"@[0]);
}

/// Who may look at an account: administrators and managers may look anyone up,
/// others only themselves (403 otherwise); once loaded, a manager may see a student
/// or themselves and is refused any other account with 403. Only administrators may
/// change a role; anyone may leave it as it is.
pub proof fn lemma_view_rules(
    caller: UserRole,
    caller_id: Seq<char>,
    target_id: Seq<char>,
    target: RoleEnum,
    changes_role: bool,
)
    ensures
        (caller == UserRole::ADMIN || caller == UserRole::MANAGER || caller_id == target_id)
            ==> view_refusal(caller, caller_id, target_id) is None,
        (caller == UserRole::STUDENT || caller == UserRole::TEACHER) && caller_id != target_id
            ==> view_refusal(caller, caller_id, target_id) == Some(
            (403u16, "You can only view your own profile"@),
        ),
        caller != UserRole::MANAGER ==> manager_view_refusal(caller, caller_id, target_id, target)
            is None,
        target == RoleEnum::Student ==> manager_view_refusal(caller, caller_id, target_id, target)
            is None,
        caller == UserRole::MANAGER && target != RoleEnum::Student && caller_id != target_id
            ==> manager_view_refusal(caller, caller_id, target_id, target) == Some(
            (403u16, "Managers can only view student accounts"@),
        ),
        !changes_role ==> role_change_refusal(caller, changes_role) is None,
        caller == UserRole::ADMIN ==> role_change_refusal(caller, changes_role) is None,
        changes_role && caller != UserRole::ADMIN ==> role_change_refusal(caller, changes_role)
            == Some((403u16, "Only admin can change user roles"@)),
{
}

/// A file's registration is refused with 400 when the file names no student, then
/// when none of them is stored, then when none stored is a student; with at least one
/// of each it goes on. Its report is 200 with the count registered when nothing
/// failed, and 206 with both counts otherwise.
pub proof fn lemma_activation_rules(emails: nat, found: nat, students: nat, success: nat, failed: nat)
    ensures
        emails == 0 ==> activation_refusal(emails, found, students) == Some(
            (400u16, "No students found in CSV file"@),
        ),
        emails > 0 && found == 0 ==> activation_refusal(emails, found, students) == Some(
            (
                400u16,
                "No students found for this file upload. Make sure students were created successfully first."@,
            ),
        ),
        emails > 0 && found > 0 && students == 0 ==> activation_refusal(emails, found, students)
            == Some((400u16, "No students found for blockchain registration"@)),
        emails > 0 && found > 0 && students > 0 ==> activation_refusal(emails, found, students)
            is None,
        failed == 0 ==> activation_report(success, failed) == (
            200u16,
            "Blockchain registration activated for "@ + decimal(success) + " students"@,
        ),
        failed > 0 ==> activation_report(success, failed) == (
            206u16,
            "Blockchain registration activated for "@ + decimal(success) + " students, "@
                + decimal(failed) + " failed"@,
        ),
{
}

/// The email of some row whose lower-cased role is `student`.
pub open spec fn is_student_row_email(roles_lower: Seq<Seq<char>>, emails: Seq<Seq<char>>, x: Seq<char>) -> bool {
    exists|i: int| 0 <= i < emails.len() && roles_lower[i] == "student"@ && emails[i] == x
}

/// The student emails of a file are, in file order, the emails of exactly the rows
/// whose lower-cased role is `student`: each picked email is such a row's, and every
/// such row's email is picked.
pub proof fn lemma_student_emails(roles_lower: Seq<Seq<char>>, emails: Seq<Seq<char>>)
    requires
        roles_lower.len() == emails.len(),
    ensures
        forall|k: int|
            0 <= k < student_emails_of(roles_lower, emails).len() ==> is_student_row_email(
                roles_lower,
                emails,
                #[trigger] student_emails_of(roles_lower, emails)[k],
            ),
        forall|i: int|
            0 <= i < emails.len() && roles_lower[i] == "student"@ ==> student_emails_of(
                roles_lower,
                emails,
            ).contains(#[trigger] emails[i]),
        student_emails_of(roles_lower, emails).len() <= emails.len(),
    decreases emails.len(),
{
    if emails.len() > 0 {
        let r0 = roles_lower.drop_last();
        let e0 = emails.drop_last();
        lemma_student_emails(r0, e0);
        let rest = student_emails_of(r0, e0);
        let out = student_emails_of(roles_lower, emails);
        assert(out == (if roles_lower.last() == "student"@ {
            rest.push(emails.last())
        } else {
            rest
        }));
        assert forall|k: int| 0 <= k < out.len() implies is_student_row_email(
            roles_lower,
            emails,
            #[trigger] out[k],
        ) by {
            if k < rest.len() {
                assert(out[k] == rest[k]);
                assert(is_student_row_email(r0, e0, rest[k]));
                let i = choose|i: int|
                    0 <= i < e0.len() && r0[i] == "student"@ && e0[i] == rest[k];
                assert(roles_lower[i] == r0[i] && emails[i] == e0[i]);
                assert(0 <= i < emails.len() && roles_lower[i] == "student"@ && emails[i] == out[k]);
            } else {
                assert(roles_lower.last() == "student"@);
                assert(out == rest.push(emails.last()));
                assert(roles_lower[roles_lower.len() - 1] == "student"@);
                assert(emails[emails.len() - 1] == out[k]);
                let i = emails.len() - 1;
                assert(0 <= i < emails.len() && roles_lower[i] == "student"@ && emails[i] == out[k]);
            }
        }
        assert forall|i: int| 0 <= i < emails.len() && roles_lower[i] == "student"@ implies out.contains(
            #[trigger] emails[i],
        ) by {
            if i < e0.len() {
                assert(r0[i] == roles_lower[i] && e0[i] == emails[i]);
                assert(rest.contains(e0[i]));
                let j = choose|j: int| 0 <= j < rest.len() && rest[j] == e0[i];
                assert(out[j] == rest[j]);
            } else {
                assert(out[out.len() - 1] == emails[i]);
            }
        }
    } else {
        assert(student_emails_of(roles_lower, emails).len() == 0);
    }
}

} // verus!
