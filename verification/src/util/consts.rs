//! Library-wide constants.
use vstd::prelude::*;

verus! {

/// Default token name.
pub const DEFAULT_TOKEN_NAME: &'static str = "satoken";
/// Default token lifetime in seconds (30 days).
pub const DEFAULT_TIMEOUT: i64 = 60 * 60 * 24 * 30;
/// Default activity timeout (-1: no limit).
pub const DEFAULT_ACTIVE_TIMEOUT: i64 = -1;
/// Whether concurrent logins are allowed by default.
pub const DEFAULT_IS_CONCURRENT: bool = true;
/// Whether tokens are shared by default.
pub const DEFAULT_IS_SHARE: bool = true;
/// Default maximum number of logins (-1: no limit).
pub const DEFAULT_MAX_LOGIN_COUNT: i32 = -1;
/// Default token style.
pub const DEFAULT_TOKEN_STYLE: &'static str = "uuid";
/// Session type of login sessions.
pub const SESSION_TYPE_LOGIN: &'static str = "login";
/// Session type of token sessions.
pub const SESSION_TYPE_TOKEN: &'static str = "token";
/// Session type of anonymous token sessions.
pub const SESSION_TYPE_ANON: &'static str = "Anon-Token-Session";
/// Session key of the user data.
pub const SESSION_KEY_USER: &'static str = "USER";
/// Session key of the role list.
pub const SESSION_KEY_ROLE_LIST: &'static str = "ROLE_LIST";
/// Session key of the permission list.
pub const SESSION_KEY_PERMISSION_LIST: &'static str = "PERMISSION_LIST";
/// Key prefix used by Redis stores.
pub const REDIS_KEY_PREFIX: &'static str = "satoken:";
/// Lifetime meaning "never expires".
pub const NEVER_EXPIRE: i64 = -1;
/// Lifetime reported for a value that does not exist.
pub const NOT_VALUE_EXPIRE: i64 = -2;
/// Service that account bans apply to by default.
pub const DEFAULT_DISABLE_SERVICE: &'static str = "login";
/// Default ban level.
pub const DEFAULT_DISABLE_LEVEL: i32 = 1;
/// Lowest ban level.
pub const MIN_DISABLE_LEVEL: i32 = 1;
/// Ban level reported for an account that is not banned.
pub const NOT_DISABLE_LEVEL: i32 = -2;
/// Default service of second-level authentication.
pub const DEFAULT_SAFE_AUTH_SERVICE: &'static str = "important";
/// Default realm of HTTP Basic and Digest authentication.
pub const DEFAULT_HTTP_AUTH_REALM: &'static str = "Sa-Token";

} // verus!
