//! Service-wide limits and the settings the service starts with.
use vstd::prelude::*;

verus! {

/// Issuer written into authenticator-app URIs.
pub const OTP_ISSUER: &'static str = "NGON";

/// Failed MFA codes after which MFA is locked.
pub const MFA_MAX_FAIL_ATTEMPTS: u32 = 3;

/// How long a used MFA code stays refused, in seconds.
pub const MFA_CODE_REUSE_TTL_SECONDS: u64 = 120;

/// How long MFA stays locked, in seconds.
pub const MFA_LOCK_DURATION_SECONDS: u64 = 900;

/// Lifetime of an access token, in seconds.
pub const JWT_EXPRIED_TIME: i64 = 86400i64;

/// How long progress trackers of a file are kept, in seconds.
pub const FILE_TRACKER_EXPRIED_TIME: i64 = 86400i64;

/// The settings the service is started with.
pub struct Config {
    pub port: u16,
    pub swagger_enabled: bool,
    pub log_level: String,
    pub database_url: String,
    pub blockchain_rpc_url: String,
    pub data_storage_contract_address: String,
    pub admin_private_key: String,
    pub encryption_key: String,
    pub grpc_port: u16,
    pub rabbitmq_uri: String,
    pub admin_email: String,
    pub admin_password: String,
    pub chain_type: String,
    pub chain_id: String,
    pub redis_url: String,
    pub app_env: String,
}

} // verus!
