//! Handles on the stored tables, the states of an uploaded file, and the changes
//! that can be made to an account.
use vstd::prelude::*;

use crate::roles::RoleEnum;

verus! {

/// The processing state of an uploaded file.
#[derive(Clone, Copy, Debug, PartialEq, Eq, Structural)]
pub enum FileUploadStatus {
    Pending,
    Sync,
    Failed,
    SyncDb,
    SyncBlockchain,
}

impl FileUploadStatus {
    /// The name under which the state is stored.
    pub open spec fn name(self) -> Seq<char> {
        match self {
            FileUploadStatus::Pending => "pending"@,
            FileUploadStatus::Sync => "sync"@,
            FileUploadStatus::Failed => "failed"@,
            FileUploadStatus::SyncDb => "sync_db"@,
            FileUploadStatus::SyncBlockchain => "sync_blockchain"@,
        }
    }

    /// The name under which the state is stored.
    pub fn as_str(&self) -> (s: &'static str)
        ensures
            s@ == self.name(),
    {
        match self {
            FileUploadStatus::Pending => "pending",
            FileUploadStatus::Sync => "sync",
            FileUploadStatus::Failed => "failed",
            FileUploadStatus::SyncDb => "sync_db",
            FileUploadStatus::SyncBlockchain => "sync_blockchain",
        }
    }
}

/// Distinct states are stored under distinct names.
pub proof fn lemma_status_names_distinct(a: FileUploadStatus, b: FileUploadStatus)
    requires
        a != b,
    ensures
        a.name() != b.name(),
{
    reveal_strlit("pending");
    reveal_strlit("sync");
    reveal_strlit("failed");
    reveal_strlit("sync_db");
    reveal_strlit("sync_blockchain");
    assert(a.name().len() != b.name().len() || a.name()[0] != b.name()[0]);
}

/// Changes to an account; a field left `None` is kept as stored.
pub struct UserUpdate {
    pub first_name: Option<String>,
    pub last_name: Option<String>,
    pub address: Option<String>,
    pub email: Option<String>,
    pub password: Option<String>,
    pub cccd: Option<String>,
    pub phone_number: Option<String>,
    pub role: Option<RoleEnum>,
    pub is_priority: Option<bool>,
    pub is_first_login: Option<bool>,
}

impl UserUpdate {
    /// An update that changes nothing.
    pub open spec fn is_empty(&self) -> bool {
        &&& self.first_name is None
        &&& self.last_name is None
        &&& self.address is None
        &&& self.email is None
        &&& self.password is None
        &&& self.cccd is None
        &&& self.phone_number is None
        &&& self.role is None
        &&& self.is_priority is None
        &&& self.is_first_login is None
    }

    /// An update that only sets a new (already hashed) password.
    pub fn password_only(password: String) -> (u: UserUpdate)
        ensures
            u.password == Some(password),
            u.first_name is None && u.last_name is None && u.address is None && u.email is None,
            u.cccd is None && u.phone_number is None && u.role is None,
            u.is_priority is None && u.is_first_login is None,
    {
        let mut u = UserUpdate::default();
        u.password = Some(password);
        u
    }
}

impl Default for UserUpdate {
    fn default() -> (u: UserUpdate)
        ensures
            u.is_empty(),
    {
        UserUpdate {
            first_name: None,
            last_name: None,
            address: None,
            email: None,
            password: None,
            cccd: None,
            phone_number: None,
            role: None,
            is_priority: None,
            is_first_login: None,
        }
    }
}

/// The fields of a stored account that an update can change, with the time of
/// its last change.
pub struct AccountFields {
    pub first_name: String,
    pub last_name: String,
    pub address: String,
    pub email: String,
    pub password: String,
    pub cccd: String,
    pub phone_number: String,
    pub role: RoleEnum,
    pub is_priority: bool,
    pub is_first_login: bool,
    pub updated_at: i64,
}

/// A field after an update: the new value when one is given, else the old one.
pub open spec fn field_after<T>(old: T, new: Option<T>) -> T {
    match new {
        Some(v) => v,
        None => old,
    }
}

/// The account after an update made at `now`.
pub open spec fn updated_account(a: AccountFields, u: UserUpdate, now: i64) -> AccountFields {
    AccountFields {
        first_name: field_after(a.first_name, u.first_name),
        last_name: field_after(a.last_name, u.last_name),
        address: field_after(a.address, u.address),
        email: field_after(a.email, u.email),
        password: field_after(a.password, u.password),
        cccd: field_after(a.cccd, u.cccd),
        phone_number: field_after(a.phone_number, u.phone_number),
        role: field_after(a.role, u.role),
        is_priority: field_after(a.is_priority, u.is_priority),
        is_first_login: field_after(a.is_first_login, u.is_first_login),
        updated_at: now,
    }
}

fn set_if_given<T>(field: &mut T, new: Option<T>)
    ensures
        *final(field) == field_after(*old(field), new),
{
    match new {
        Some(v) => *field = v,
        None => {},
    }
}

/// Applies an update to a stored account, stamping it with `now`.
pub fn apply_update(a: &mut AccountFields, u: UserUpdate, now: i64)
    ensures
        *final(a) == updated_account(*old(a), u, now),
{
    set_if_given(&mut a.first_name, u.first_name);
    set_if_given(&mut a.last_name, u.last_name);
    set_if_given(&mut a.address, u.address);
    set_if_given(&mut a.email, u.email);
    set_if_given(&mut a.password, u.password);
    set_if_given(&mut a.cccd, u.cccd);
    set_if_given(&mut a.phone_number, u.phone_number);
    set_if_given(&mut a.role, u.role);
    set_if_given(&mut a.is_priority, u.is_priority);
    set_if_given(&mut a.is_first_login, u.is_first_login);
    a.updated_at = now;
}

/// An update that gives no field changes nothing but the time of last change.
pub proof fn lemma_empty_update_keeps_fields(a: AccountFields, u: UserUpdate, now: i64)
    requires
        u.is_empty(),
    ensures
        updated_account(a, u, now) == (AccountFields { updated_at: now, ..a }),
{
}

/// Applying the same update twice is applying it once.
pub proof fn lemma_update_idempotent(a: AccountFields, u: UserUpdate, t1: i64, t2: i64)
    ensures
        updated_account(updated_account(a, u, t1), u, t2) == updated_account(a, u, t2),
{
}

/// An update that only sets a password leaves every other field as it was.
pub proof fn lemma_password_update_keeps_profile(a: AccountFields, h: String, now: i64)
    ensures
        ({
            let u = UserUpdate {
                first_name: None,
                last_name: None,
                address: None,
                email: None,
                password: Some(h),
                cccd: None,
                phone_number: None,
                role: None,
                is_priority: None,
                is_first_login: None,
            };
            updated_account(a, u, now) == (AccountFields { password: h, updated_at: now, ..a })
        }),
{
}

/// Accounts and their wallets and majors.
pub struct UserRepository;

/// Wallets of accounts.
pub struct WalletRepository;

/// Departments.
pub struct DepartmentRepository;

/// Majors.
pub struct MajorRepository;

/// One-time passwords sent by mail.
pub struct OtpVerifyRepository;

/// Requests of students.
pub struct RequestRepository;

/// Scoreboards, semester summaries and certificates.
pub struct ScoreRepository;

/// MFA secrets of accounts.
pub struct UserMfaRepository;

/// Uploaded files and their processing state.
pub struct FileUploadRepository;

impl UserRepository {
    pub fn new() -> (r: Self) {
        UserRepository
    }
}

impl WalletRepository {
    pub fn new() -> (r: Self) {
        WalletRepository
    }
}

impl DepartmentRepository {
    pub fn new() -> (r: Self) {
        DepartmentRepository
    }
}

impl MajorRepository {
    pub fn new() -> (r: Self) {
        MajorRepository
    }
}

impl OtpVerifyRepository {
    pub fn new() -> (r: Self) {
        OtpVerifyRepository
    }
}

impl RequestRepository {
    pub fn new() -> (r: Self) {
        RequestRepository
    }
}

impl ScoreRepository {
    pub fn new() -> (r: Self) {
        ScoreRepository
    }
}

impl UserMfaRepository {
    pub fn new() -> (r: Self) {
        UserMfaRepository
    }
}

impl FileUploadRepository {
    pub fn new() -> (r: Self) {
        FileUploadRepository
    }
}

/// An update sets every field it gives to the given value, keeps every other field,
/// and stamps the account with the time of the update.
pub proof fn lemma_update_sets_given_fields(a: AccountFields, u: UserUpdate, now: i64)
    ensures
        updated_account(a, u, now).first_name == (match u.first_name {
            Some(v) => v,
            None => a.first_name,
        }),
        updated_account(a, u, now).last_name == (match u.last_name {
            Some(v) => v,
            None => a.last_name,
        }),
        updated_account(a, u, now).address == (match u.address {
            Some(v) => v,
            None => a.address,
        }),
        updated_account(a, u, now).email == (match u.email {
            Some(v) => v,
            None => a.email,
        }),
        updated_account(a, u, now).password == (match u.password {
            Some(v) => v,
            None => a.password,
        }),
        updated_account(a, u, now).cccd == (match u.cccd {
            Some(v) => v,
            None => a.cccd,
        }),
        updated_account(a, u, now).phone_number == (match u.phone_number {
            Some(v) => v,
            None => a.phone_number,
        }),
        updated_account(a, u, now).role == (match u.role {
            Some(v) => v,
            None => a.role,
        }),
        updated_account(a, u, now).is_priority == (match u.is_priority {
            Some(v) => v,
            None => a.is_priority,
        }),
        updated_account(a, u, now).is_first_login == (match u.is_first_login {
            Some(v) => v,
            None => a.is_first_login,
        }),
        updated_account(a, u, now).updated_at == now,
{
}

/// The names the upload states are stored under: `pending`, `sync`, `failed`,
/// `sync_db` and `sync_blockchain`.
pub proof fn lemma_status_names(s: FileUploadStatus)
    ensures
        s == FileUploadStatus::Pending ==> s.name() == "pending"@,
        s == FileUploadStatus::Sync ==> s.name() == "sync"@,
        s == FileUploadStatus::Failed ==> s.name() == "failed"@,
        s == FileUploadStatus::SyncDb ==> s.name() == "sync_db"@,
        s == FileUploadStatus::SyncBlockchain ==> s.name() == "sync_blockchain"@,
{
}

} // verus!
