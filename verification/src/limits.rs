//! The addresses of the service, its protocol's fixed names, and the limits on what is accepted.
use vstd::prelude::*;

verus! {

pub const DISCOVERY_URL: &'static str = "https://aipass.one/.well-known/oauth-authorization-server";

pub const MODELS_URL: &'static str =
    "https://aipass.one/oauth2/v1/models?type=text&method=chat_completions";

pub const CHAT_URL: &'static str = "https://aipass.one/oauth2/v1/chat/completions";

pub const EXPECTED_ISSUER: &'static str = "https://aipass.one";

pub const KEYCHAIN_SERVICE: &'static str = "com.pathors.parley.aipass";

pub const KEYCHAIN_ACCOUNT: &'static str = "oauth-tokens-v1";

pub const STATUS_EVENT: &'static str = "aipass://status";

pub const REQUIRED_SCOPE: &'static str = "api:access profile:read";

/// The code by which the keychain says that it has no such item (`errSecItemNotFound`).
pub const KEYCHAIN_ITEM_NOT_FOUND: i32 = -25300;

pub const OAUTH_TIMEOUT_SECONDS: u64 = 180;

pub const HTTP_TIMEOUT_SECONDS: u64 = 20;

pub const STREAM_IDLE_TIMEOUT_SECONDS: u64 = 30;

pub const STREAM_TOTAL_TIMEOUT_SECONDS: u64 = 300;

pub const CALLBACK_READ_TIMEOUT_SECONDS: u64 = 2;

pub const MAX_CALLBACK_BYTES: usize = 8192;

pub const MAX_METADATA_BYTES: usize = 65536;

pub const MAX_TOKEN_BYTES: usize = 65536;

pub const MAX_USERINFO_BYTES: usize = 65536;

pub const MAX_MODELS_BYTES: usize = 2097152;

pub const MAX_CHAT_REQUEST_BYTES: usize = 4194304;

pub const MAX_CHAT_RESPONSE_BYTES: usize = 33554432;

pub const MAX_ERROR_BYTES: usize = 65536;

pub const MAX_STREAM_CHUNK_BYTES: usize = 262144;

pub const MAX_MODELS: usize = 500;

pub const MAX_MODEL_ID_BYTES: usize = 256;

pub const MAX_ACTIVE_CHAT_REQUESTS: usize = 16;

pub const MAX_REQUEST_ID_BYTES: usize = 64;

} // verus!
