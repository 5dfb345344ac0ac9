//! The remote procedures the service offers to its sibling services: checking an MFA
//! code and exporting a wallet's private key.
use vstd::prelude::*;
use vstd::string::*;

use crate::ids::uuid_parse_outcome;
use crate::mfa::{check_reply, reply_of, rpc_locked_until, MfaVerifyResult};
use crate::text::{concat, result_view};

verus! {

/// The status codes a remote call fails with.
#[derive(Clone, Copy, Debug, PartialEq, Eq, Structural)]
pub enum RpcCode {
    InvalidArgument,
    NotFound,
    Internal,
}

/// The MFA check offered to sibling services.
pub struct MfaServiceImpl;

/// The wallet export offered to sibling services.
pub struct WalletServiceImpl;

/// The answer to a remote MFA check.
pub struct VerifyMfaCodeReply {
    pub is_valid: bool,
    pub reason: String,
    pub message: String,
    pub locked_until: i64,
}

/// The answer to a remote private-key export.
pub struct ExportPrivateKeyReply {
    pub success: bool,
    pub private_key: String,
    pub message: String,
}

impl MfaServiceImpl {
    /// Answers a remote MFA check from the outcome of the check, or its error: the
    /// outcome's validity, reason and message, and the lock end when positive (0
    /// otherwise); an error is an internal failure `Failed to verify MFA code: <e>`.
    pub fn answer(outcome: Result<MfaVerifyResult, String>) -> (r: Result<
        VerifyMfaCodeReply,
        (RpcCode, String),
    >)
        ensures
            match (outcome, r) {
                (Ok(v), Ok(reply)) => {
                    let expected = reply_of(v);
                    &&& reply.is_valid == expected.0
                    &&& reply.reason@ == expected.1
                    &&& reply.message@ == expected.2
                    &&& reply.locked_until == match expected.3 {
                        Some(u) => if u > 0 {
                            u
                        } else {
                            0
                        },
                        None => 0,
                    }
                },
                (Err(e), Err((code, msg))) => code == RpcCode::Internal && msg@
                    == "Failed to verify MFA code: "@ + e@,
                _ => false,
            },
    {
        match outcome {
            Ok(v) => {
                let reply = check_reply(&v);
                let locked_until = rpc_locked_until(&reply);
                Ok(
                    VerifyMfaCodeReply {
                        is_valid: reply.is_valid,
                        reason: reply.reason,
                        message: reply.message,
                        locked_until,
                    },
                )
            },
            Err(e) => Err((RpcCode::Internal, concat("Failed to verify MFA code: ", e.as_str()))),
        }
    }
}

/// How a wallet export request's account id is answered: a malformed id is an
/// invalid argument `Invalid user_id: <error>`.
pub open spec fn wallet_id_answer(outcome: Result<u128, Seq<char>>) -> Result<u128, (RpcCode, Seq<char>)> {
    match outcome {
        Ok(v) => Ok(v),
        Err(e) => Err((RpcCode::InvalidArgument, "Invalid user_id: "@ + e)),
    }
}

impl WalletServiceImpl {
    /// Reads the account id of an export request.
    pub fn request_user(user_id: &str) -> (r: Result<u128, (RpcCode, String)>)
        ensures
            match (r, wallet_id_answer(uuid_parse_outcome(user_id@))) {
                (Ok(a), Ok(b)) => a == b,
                (Err((c, m)), Err((c2, m2))) => c == c2 && m@ == m2,
                _ => false,
            },
    {
        match crate::ids::parse_id(user_id, "user_id", 400) {
            Ok(v) => Ok(v),
            Err((_, msg)) => {
                proof {
                    reveal_strlit("Invalid ");
                    reveal_strlit("user_id");
                    reveal_strlit(": ");
                    reveal_strlit("Invalid user_id: ");
                    let e = uuid_parse_outcome(user_id@)->Err_0;
                    assert("Invalid "@ + "user_id"@ + ": "@ + e =~= "Invalid user_id: "@ + e);
                }
                Err((RpcCode::InvalidArgument, msg))
            },
        }
    }

    /// Answers an export from the key read, or its error: the key with a success
    /// message, or not-found `Failed to export private key: <e>`.
    pub fn answer(key: Result<String, String>) -> (r: Result<ExportPrivateKeyReply, (RpcCode, String)>)
        ensures
            match (key, r) {
                (Ok(k), Ok(reply)) => reply.success && reply.private_key == k && reply.message@
                    == "Private key exported successfully"@,
                (Err(e), Err((code, msg))) => code == RpcCode::NotFound && msg@
                    == "Failed to export private key: "@ + e@,
                _ => false,
            },
    {
        match key {
            Ok(k) => Ok(
                ExportPrivateKeyReply {
                    success: true,
                    private_key: k,
                    message: String::from_str("Private key exported successfully"),
                },
            ),
            Err(e) => Err((RpcCode::NotFound, concat("Failed to export private key: ", e.as_str()))),
        }
    }
}

/// A wallet export request's account id is used when it parses; otherwise the request
/// is refused as an invalid argument with `Invalid user_id: ` and the parse error.
pub proof fn lemma_wallet_request_id(outcome: Result<u128, Seq<char>>)
    ensures
        outcome matches Ok(v) ==> wallet_id_answer(outcome) == Ok::<u128, (RpcCode, Seq<char>)>(v),
        outcome matches Err(e) ==> wallet_id_answer(outcome) == Err::<u128, (RpcCode, Seq<char>)>(
            (RpcCode::InvalidArgument, "Invalid user_id: "@ + e),
        ),
{
}

} // verus!
