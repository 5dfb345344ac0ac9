//! Who may change departments, majors and managers, and start the blockchain
//! registration of an uploaded file.
use vstd::prelude::*;
use vstd::string::*;

use crate::roles::UserRole;
use crate::text::refusal_of;

verus! {

/// An action reserved to some roles.
#[derive(Clone, Copy, Debug, PartialEq, Eq, Structural)]
pub enum GuardedAction {
    CreateDepartment,
    UpdateDepartment,
    DeleteDepartment,
    CreateMajor,
    UpdateMajor,
    DeleteMajor,
    AddManager,
    RemoveManager,
    ActivateRegistration,
}

/// Actions that administrators alone may take; the others are open to managers too.
pub open spec fn admin_only(a: GuardedAction) -> bool {
    match a {
        GuardedAction::DeleteDepartment => true,
        GuardedAction::DeleteMajor => true,
        GuardedAction::AddManager => true,
        GuardedAction::RemoveManager => true,
        _ => false,
    }
}

/// Whether a role may take an action.
pub open spec fn may_take(role: UserRole, a: GuardedAction) -> bool {
    role == UserRole::ADMIN || (!admin_only(a) && role == UserRole::MANAGER)
}

/// The message a refused action is answered with.
pub open spec fn denial_text(a: GuardedAction) -> Seq<char> {
    match a {
        GuardedAction::CreateDepartment => "Only admin or manager can create departments"@,
        GuardedAction::UpdateDepartment => "Only admin or manager can update departments"@,
        GuardedAction::DeleteDepartment => "Only admin can delete departments"@,
        GuardedAction::CreateMajor => "Only admin or manager can create majors"@,
        GuardedAction::UpdateMajor => "Only admin or manager can update majors"@,
        GuardedAction::DeleteMajor => "Only admin can delete majors"@,
        GuardedAction::AddManager => "Only admin can add managers"@,
        GuardedAction::RemoveManager => "Only admin can remove managers"@,
        GuardedAction::ActivateRegistration => "Only admin or manager can activate blockchain registration"@,
    }
}

/// A refused action is answered with 403 and its message.
pub open spec fn access_refusal(role: UserRole, a: GuardedAction) -> Option<(u16, Seq<char>)> {
    if may_take(role, a) {
        None
    } else {
        Some((403u16, denial_text(a)))
    }
}

fn denial_message(a: GuardedAction) -> (s: String)
    ensures
        s@ == denial_text(a),
{
    match a {
        GuardedAction::CreateDepartment => String::from_str("Only admin or manager can create departments"),
        GuardedAction::UpdateDepartment => String::from_str("Only admin or manager can update departments"),
        GuardedAction::DeleteDepartment => String::from_str("Only admin can delete departments"),
        GuardedAction::CreateMajor => String::from_str("Only admin or manager can create majors"),
        GuardedAction::UpdateMajor => String::from_str("Only admin or manager can update majors"),
        GuardedAction::DeleteMajor => String::from_str("Only admin can delete majors"),
        GuardedAction::AddManager => String::from_str("Only admin can add managers"),
        GuardedAction::RemoveManager => String::from_str("Only admin can remove managers"),
        GuardedAction::ActivateRegistration => String::from_str(
            "Only admin or manager can activate blockchain registration",
        ),
    }
}

/// Checks that a role may take an action.
pub fn check_access(role: UserRole, a: GuardedAction) -> (r: Result<(), (u16, String)>)
    ensures
        refusal_of(r) == access_refusal(role, a),
{
    let admin_only_action = match a {
        GuardedAction::DeleteDepartment => true,
        GuardedAction::DeleteMajor => true,
        GuardedAction::AddManager => true,
        GuardedAction::RemoveManager => true,
        _ => false,
    };
    let allowed = match role {
        UserRole::ADMIN => true,
        UserRole::MANAGER => !admin_only_action,
        _ => false,
    };
    if allowed {
        Ok(())
    } else {
        Err((403, denial_message(a)))
    }
}

/// Administrators may take every guarded action; students and teachers none.
pub proof fn lemma_access_by_role(a: GuardedAction)
    ensures
        access_refusal(UserRole::ADMIN, a) is None,
        access_refusal(UserRole::STUDENT, a) is Some,
        access_refusal(UserRole::TEACHER, a) is Some,
        access_refusal(UserRole::MANAGER, a) is None <==> !admin_only(a),
{
}

/// Deleting a department or a major and adding or removing a manager are for
/// administrators alone; creating or updating a department or a major and activating
/// a registration are open to managers too. Students and teachers may take none of
/// them, and a refusal is a 403.
pub proof fn lemma_guarded_actions(role: UserRole, a: GuardedAction)
    ensures
        (a == GuardedAction::DeleteDepartment || a == GuardedAction::DeleteMajor || a
            == GuardedAction::AddManager || a == GuardedAction::RemoveManager) ==> (access_refusal(
            UserRole::MANAGER,
            a,
        ) is Some && access_refusal(UserRole::ADMIN, a) is None),
        (a == GuardedAction::CreateDepartment || a == GuardedAction::UpdateDepartment || a
            == GuardedAction::CreateMajor || a == GuardedAction::UpdateMajor || a
            == GuardedAction::ActivateRegistration) ==> (access_refusal(UserRole::MANAGER, a) is None
            && access_refusal(UserRole::ADMIN, a) is None),
        (role == UserRole::STUDENT || role == UserRole::TEACHER) ==> access_refusal(role, a) is Some,
        access_refusal(role, a) matches Some(r) ==> r.0 == 403,
{
}

} // verus!
