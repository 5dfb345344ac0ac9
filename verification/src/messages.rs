//! Messages exchanged through the message broker, and what a consumer does once the
//! blockchain operation a message asked for has succeeded or failed.
use vstd::prelude::*;
use vstd::string::*;

use crate::roles::UserStatus;
use crate::text::result_view;

verus! {

/// Queue of new students to register on the blockchain.
pub const REGISTER_NEW_USER_CHANNEL: &'static str = "create::new::user";

/// Queue of rows of bulk files to create accounts from.
pub const CREATE_USER_DB: &'static str = "create::user::db";

/// Queue of new managers to register on the blockchain.
pub const REGISTER_NEW_MANAGER_CHANNEL: &'static str = "create:new:manager";

/// Queue of role assignments on the blockchain.
pub const ASSIGN_ROLE_CHANNEL: &'static str = "blockchain::assign::role";

/// Queue of managers to remove from the blockchain.
pub const REMOVE_MANAGER_CHANNEL: &'static str = "blockchain::remove::manager";

/// Queue of students to deactivate on the blockchain.
pub const DEACTIVATE_STUDENT_CHANNEL: &'static str = "blockchain::deactivate::student";

/// Queue of students to activate on the blockchain.
pub const ACTIVATE_STUDENT_CHANNEL: &'static str = "blockchain::activate::student";

/// Queue of batches of students to register on the blockchain.
pub const REGISTER_STUDENTS_BATCH_CHANNEL: &'static str = "blockchain::register::students::batch";

/// Queue of mails to send.
pub const MAIL_QUEUE: &'static str = "mail_service";

/// The pattern under which mails are queued.
pub const MAIL_PATTERN: &'static str = "send-email";

/// A student to register on the blockchain.
pub struct RegisterNewUserMessage {
    pub private_key: String,
    pub wallet_address: String,
    pub student_code: String,
    pub full_name: String,
    pub email: String,
    pub file_upload_history_id: Option<String>,
}

/// A manager to register on the blockchain.
pub struct RegisterNewManagerMessage {
    pub private_key: String,
    pub wallet_address: String,
    pub email: String,
}

/// A role to assign on the blockchain.
pub struct AssignRoleMessage {
    pub private_key: String,
    pub user_address: String,
    pub role: u8,
    pub email: String,
}

/// A manager to remove from the blockchain.
pub struct RemoveManagerMessage {
    pub private_key: String,
    pub manager_address: String,
    pub email: String,
}

/// A student to deactivate on the blockchain.
pub struct DeactivateStudentMessage {
    pub private_key: String,
    pub student_id: u64,
    pub email: String,
}

/// A student to activate on the blockchain.
pub struct ActivateStudentMessage {
    pub private_key: String,
    pub student_id: u64,
    pub email: String,
}

/// Students to register on the blockchain in one transaction; the lists run in
/// parallel.
pub struct RegisterStudentsBatchMessage {
    pub private_key: String,
    pub wallet_addresses: Vec<String>,
    pub student_codes: Vec<String>,
    pub full_names: Vec<String>,
    pub emails: Vec<String>,
}

/// A mail to send: recipient, subject and text.
pub struct MailMessage {
    pub pattern: String,
    pub to: String,
    pub subject: String,
    pub text: String,
}

/// Frames a mail for the mail queue.
pub fn mail_message(to: &str, subject: &str, text: &str) -> (m: MailMessage)
    ensures
        m.pattern@ == "send-email"@,
        m.to@ == to@,
        m.subject@ == subject@,
        m.text@ == text@,
{
    MailMessage {
        pattern: String::from_str(MAIL_PATTERN),
        to: String::from_str(to),
        subject: String::from_str(subject),
        text: String::from_str(text),
    }
}

/// Consumes the messages of the queues.
pub struct RabbitMqConsumer;

/// The blockchain operation a message asks for.
#[derive(Clone, Copy, Debug, PartialEq, Eq, Structural)]
pub enum ChainOperation {
    RegisterStudent,
    RegisterManager,
    AssignRole,
    RemoveManager,
    DeactivateStudent,
    ActivateStudent,
}

/// The message sent to the requester when the operation succeeds.
pub open spec fn success_text(op: ChainOperation) -> Seq<char> {
    match op {
        ChainOperation::RegisterStudent => "Register student on blockchain successfully."@,
        ChainOperation::RegisterManager => "Register manager on blockchain successfully."@,
        ChainOperation::AssignRole => "Assign role on blockchain successfully."@,
        ChainOperation::RemoveManager => "Remove manager from blockchain successfully."@,
        ChainOperation::DeactivateStudent => "Deactivate student on blockchain successfully."@,
        ChainOperation::ActivateStudent => "Activate student on blockchain successfully."@,
    }
}

/// The message sent to the requester when the operation fails.
pub open spec fn failure_text(op: ChainOperation) -> Seq<char> {
    match op {
        ChainOperation::RegisterStudent => "Failed to register student on blockchain. Please try again or contact with admin"@,
        ChainOperation::RegisterManager => "Failed to register manager on blockchain. Please try again or contact with admin"@,
        ChainOperation::AssignRole => "Failed to assign role on blockchain. Please try again or contact with admin"@,
        ChainOperation::RemoveManager => "Failed to remove manager from blockchain. Please try again or contact with admin"@,
        ChainOperation::DeactivateStudent => "Failed to deactivate student on blockchain. Please try again or contact with admin"@,
        ChainOperation::ActivateStudent => "Failed to activate student on blockchain. Please try again or contact with admin"@,
    }
}

fn success_message(op: ChainOperation) -> (s: String)
    ensures
        s@ == success_text(op),
{
    match op {
        ChainOperation::RegisterStudent => String::from_str("Register student on blockchain successfully."),
        ChainOperation::RegisterManager => String::from_str("Register manager on blockchain successfully."),
        ChainOperation::AssignRole => String::from_str("Assign role on blockchain successfully."),
        ChainOperation::RemoveManager => String::from_str("Remove manager from blockchain successfully."),
        ChainOperation::DeactivateStudent => String::from_str("Deactivate student on blockchain successfully."),
        ChainOperation::ActivateStudent => String::from_str("Activate student on blockchain successfully."),
    }
}

fn failure_message(op: ChainOperation) -> (s: String)
    ensures
        s@ == failure_text(op),
{
    match op {
        ChainOperation::RegisterStudent => String::from_str(
            "Failed to register student on blockchain. Please try again or contact with admin",
        ),
        ChainOperation::RegisterManager => String::from_str(
            "Failed to register manager on blockchain. Please try again or contact with admin",
        ),
        ChainOperation::AssignRole => String::from_str(
            "Failed to assign role on blockchain. Please try again or contact with admin",
        ),
        ChainOperation::RemoveManager => String::from_str(
            "Failed to remove manager from blockchain. Please try again or contact with admin",
        ),
        ChainOperation::DeactivateStudent => String::from_str(
            "Failed to deactivate student on blockchain. Please try again or contact with admin",
        ),
        ChainOperation::ActivateStudent => String::from_str(
            "Failed to activate student on blockchain. Please try again or contact with admin",
        ),
    }
}

/// The notice pushed to the requester's room after a blockchain operation.
pub struct ChainNotice {
    pub status: String,
    pub message: String,
    pub reason: Option<String>,
    pub email: Option<String>,
    pub student_code: Option<String>,
    pub total_students: Option<u64>,
}

/// Which progress counter of an uploaded file a result counts in.
#[derive(Clone, Copy, Debug, PartialEq, Eq, Structural)]
pub enum ProgressCounter {
    Success,
    Failed,
}

/// What a consumer does after one blockchain operation on one account: the account
/// status to store, the progress counter to bump (for registrations from a file),
/// and the notice to push.
pub struct ChainResultPlan {
    pub new_status: UserStatus,
    pub progress: Option<(String, ProgressCounter)>,
    pub notice: ChainNotice,
}

/// Plans the follow-up of a blockchain operation on one account. On success the
/// account is marked in sync and the notice says so; on failure it is marked failed
/// and the notice carries the reason. The email is reported; the student code too
/// when a student was registered; a registration from a file bumps the file's
/// success or failure counter.
pub fn plan_chain_result(
    op: ChainOperation,
    outcome: Result<(), String>,
    email: &str,
    student_code: &str,
    file_upload_history_id: Option<String>,
) -> (p: ChainResultPlan)
    ensures
        p.new_status == (if outcome is Ok {
            UserStatus::Sync
        } else {
            UserStatus::Failed
        }),
        p.notice.status@ == (if outcome is Ok {
            "success"@
        } else {
            "failed"@
        }),
        p.notice.message@ == (if outcome is Ok {
            success_text(op)
        } else {
            failure_text(op)
        }),
        match (p.notice.reason, result_view(outcome)) {
            (None, Ok(_)) => true,
            (Some(r), Err(e)) => r@ == e,
            _ => false,
        },
        p.notice.email matches Some(e) && e@ == email@,
        if op == ChainOperation::RegisterStudent {
            p.notice.student_code matches Some(c) && c@ == student_code@
        } else {
            p.notice.student_code is None
        },
        p.notice.total_students is None,
        match p.progress {
            None => op != ChainOperation::RegisterStudent || file_upload_history_id is None,
            Some((id, counter)) => {
                &&& op == ChainOperation::RegisterStudent
                &&& file_upload_history_id == Some(id)
                &&& counter == (if outcome is Ok {
                    ProgressCounter::Success
                } else {
                    ProgressCounter::Failed
                })
            },
        },
{
    let is_student = match op {
        ChainOperation::RegisterStudent => true,
        _ => false,
    };
    let code = if is_student {
        Some(String::from_str(student_code))
    } else {
        None
    };
    match outcome {
        Ok(()) => {
            let progress = if is_student {
                match file_upload_history_id {
                    Some(fid) => Some((fid, ProgressCounter::Success)),
                    None => None,
                }
            } else {
                None
            };
            ChainResultPlan {
                new_status: UserStatus::Sync,
                progress,
                notice: ChainNotice {
                    status: String::from_str("success"),
                    message: success_message(op),
                    reason: None,
                    email: Some(String::from_str(email)),
                    student_code: code,
                    total_students: None,
                },
            }
        },
        Err(e) => {
            let progress = if is_student {
                match file_upload_history_id {
                    Some(fid) => Some((fid, ProgressCounter::Failed)),
                    None => None,
                }
            } else {
                None
            };
            ChainResultPlan {
                new_status: UserStatus::Failed,
                progress,
                notice: ChainNotice {
                    status: String::from_str("failed"),
                    message: failure_message(op),
                    reason: Some(e),
                    email: Some(String::from_str(email)),
                    student_code: code,
                    total_students: None,
                },
            }
        },
    }
}

/// What a consumer does after registering a batch of students: the status every
/// account of the batch gets, and the notice with the batch size.
pub fn plan_batch_result(outcome: Result<(), String>, total_students: u64) -> (p: (
    UserStatus,
    ChainNotice,
))
    ensures
        p.0 == (if outcome is Ok {
            UserStatus::Sync
        } else {
            UserStatus::Failed
        }),
        p.1.status@ == (if outcome is Ok {
            "success"@
        } else {
            "failed"@
        }),
        p.1.message@ == (if outcome is Ok {
            "Batch register students on blockchain successfully."@
        } else {
            "Failed to register students batch on blockchain. Please try again or contact with admin"@
        }),
        match (p.1.reason, result_view(outcome)) {
            (None, Ok(_)) => true,
            (Some(r), Err(e)) => r@ == e,
            _ => false,
        },
        p.1.total_students == Some(total_students),
        p.1.email is None && p.1.student_code is None,
{
    match outcome {
        Ok(()) => (
            UserStatus::Sync,
            ChainNotice {
                status: String::from_str("success"),
                message: String::from_str("Batch register students on blockchain successfully."),
                reason: None,
                email: None,
                student_code: None,
                total_students: Some(total_students),
            },
        ),
        Err(e) => (
            UserStatus::Failed,
            ChainNotice {
                status: String::from_str("failed"),
                message: String::from_str(
                    "Failed to register students batch on blockchain. Please try again or contact with admin",
                ),
                reason: Some(e),
                email: None,
                student_code: None,
                total_students: Some(total_students),
            },
        ),
    }
}

/// What a consumer of bulk-file rows does after trying to create an account: on
/// success, move the file's position to the row (when both are known) and bump its
/// success counter; on failure, bump its failure counter. Rows that did not come
/// from a file leave no trace.
pub fn plan_row_result(created: bool, file_name: &Option<String>, row_number: Option<u64>) -> (p: (
    Option<(String, u64)>,
    Option<(String, ProgressCounter)>,
))
    ensures
        match file_name {
            None => p.0 is None && p.1 is None,
            Some(f) => {
                &&& (created && row_number is Some) ==> (p.0 matches Some((g, r)) && g@ == f@ && Some(r)
                    == row_number)
                &&& !(created && row_number is Some) ==> p.0 is None
                &&& p.1 matches Some((g, c)) && g@ == f@ && c == (if created {
                    ProgressCounter::Success
                } else {
                    ProgressCounter::Failed
                })
            },
        },
{
    match file_name {
        None => (None, None),
        Some(f) => {
            if created {
                let position = match row_number {
                    Some(r) => Some((f.clone(), r)),
                    None => None,
                };
                (position, Some((f.clone(), ProgressCounter::Success)))
            } else {
                (None, Some((f.clone(), ProgressCounter::Failed)))
            }
        },
    }
}

/// What the requester is told after each blockchain operation, on success and on
/// failure.
pub proof fn lemma_chain_notices(op: ChainOperation)
    ensures
        op == ChainOperation::RegisterStudent ==> success_text(op) == "Register student on blockchain successfully."@ && failure_text(op)
            == "Failed to register student on blockchain. Please try again or contact with admin"@,
        op == ChainOperation::RegisterManager ==> success_text(op) == "Register manager on blockchain successfully."@ && failure_text(op)
            == "Failed to register manager on blockchain. Please try again or contact with admin"@,
        op == ChainOperation::AssignRole ==> success_text(op) == "Assign role on blockchain successfully."@ && failure_text(op)
            == "Failed to assign role on blockchain. Please try again or contact with admin"@,
        op == ChainOperation::RemoveManager ==> success_text(op) == "Remove manager from blockchain successfully."@ && failure_text(op)
            == "Failed to remove manager from blockchain. Please try again or contact with admin"@,
        op == ChainOperation::DeactivateStudent ==> success_text(op) == "Deactivate student on blockchain successfully."@ && failure_text(op)
            == "Failed to deactivate student on blockchain. Please try again or contact with admin"@,
        op == ChainOperation::ActivateStudent ==> success_text(op) == "Activate student on blockchain successfully."@ && failure_text(op)
            == "Failed to activate student on blockchain. Please try again or contact with admin"@,
{
}

} // verus!
