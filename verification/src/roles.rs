//! Account roles, as stored and as carried in access tokens.
use vstd::prelude::*;

verus! {

/// The role stored with an account.
#[derive(Clone, Copy, Debug, PartialEq, Eq, Structural)]
pub enum RoleEnum {
    Student,
    Teacher,
    Admin,
    Manager,
}

/// The role carried in an access token.
#[derive(Clone, Copy, Debug, PartialEq, Eq, Structural)]
pub enum UserRole {
    ADMIN,
    MANAGER,
    STUDENT,
    TEACHER,
}

/// The synchronisation state of an account with the blockchain.
#[derive(Clone, Copy, Debug, PartialEq, Eq, Structural)]
pub enum UserStatus {
    Pending,
    Sync,
    Failed,
}

/// The token role of a stored role.
pub open spec fn token_role(r: RoleEnum) -> UserRole {
    match r {
        RoleEnum::Admin => UserRole::ADMIN,
        RoleEnum::Manager => UserRole::MANAGER,
        RoleEnum::Student => UserRole::STUDENT,
        RoleEnum::Teacher => UserRole::TEACHER,
    }
}

/// Maps a stored role to the role put into access tokens.
pub fn to_user_role(r: RoleEnum) -> (u: UserRole)
    ensures
        u == token_role(r),
{
    match r {
        RoleEnum::Admin => UserRole::ADMIN,
        RoleEnum::Manager => UserRole::MANAGER,
        RoleEnum::Student => UserRole::STUDENT,
        RoleEnum::Teacher => UserRole::TEACHER,
    }
}

/// The lower-case name of a role, as reported to clients.
pub open spec fn role_name(r: RoleEnum) -> Seq<char> {
    match r {
        RoleEnum::Admin => "admin"@,
        RoleEnum::Manager => "manager"@,
        RoleEnum::Student => "student"@,
        RoleEnum::Teacher => "teacher"@,
    }
}

/// The lower-case name of a role.
pub fn role_str(r: RoleEnum) -> (s: &'static str)
    ensures
        s@ == role_name(r),
{
    match r {
        RoleEnum::Admin => "admin",
        RoleEnum::Manager => "manager",
        RoleEnum::Student => "student",
        RoleEnum::Teacher => "teacher",
    }
}

/// The role code that the registry contract assigns: 3 for admins, 2 for teachers,
/// 0 for every other role.
pub fn blockchain_role_code(r: RoleEnum) -> (c: u8)
    ensures
        c == (match r {
            RoleEnum::Admin => 3u8,
            RoleEnum::Teacher => 2u8,
            _ => 0u8,
        }),
{
    match r {
        RoleEnum::Admin => 3,
        RoleEnum::Teacher => 2,
        _ => 0,
    }
}

/// Whether the token role may manage accounts and records: an admin or a manager.
pub fn is_admin_or_manager(role: UserRole) -> (b: bool)
    ensures
        b == (role == UserRole::ADMIN || role == UserRole::MANAGER),
{
    role == UserRole::ADMIN || role == UserRole::MANAGER
}

/// Each stored role maps to the token role and the lower-case name of the same role.
pub proof fn lemma_role_mapping(r: RoleEnum)
    ensures
        r == RoleEnum::Admin ==> token_role(r) == UserRole::ADMIN && role_name(r) == "admin"@,
        r == RoleEnum::Manager ==> token_role(r) == UserRole::MANAGER && role_name(r) == "manager"@,
        r == RoleEnum::Student ==> token_role(r) == UserRole::STUDENT && role_name(r) == "student"@,
        r == RoleEnum::Teacher ==> token_role(r) == UserRole::TEACHER && role_name(r) == "teacher"@,
{
}

} // verus!
