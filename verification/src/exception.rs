//! The errors the library reports and their codes.
use vstd::prelude::*;

verus! {

/// Code of an empty account id at login.
pub const CODE_11002: i32 = 11002;
/// Code of a missing login.
pub const CODE_11011: i32 = 11011;
/// Code of a missing role.
pub const CODE_11041: i32 = 11041;
/// Code of a missing permission.
pub const CODE_11051: i32 = 11051;
/// Code of a banned service.
pub const CODE_11061: i32 = 11061;
/// Code of an empty account id in a ban request.
pub const CODE_11062: i32 = 11062;
/// Code of an empty service in a ban request.
pub const CODE_11063: i32 = 11063;
/// Code of a ban level below the lowest one.
pub const CODE_11064: i32 = 11064;
/// Code of a missing second-level authentication.
pub const CODE_11071: i32 = 11071;

/// An error of the library.
#[derive(Debug, Clone, PartialEq, Eq)]
pub enum SaTokenException {
    /// The request is not logged in.
    NotLogin { message: String, login_type: String },
    /// The account lacks a role.
    NotRole { role: String, login_type: String },
    /// The account lacks a permission.
    NotPermission { permission: String, login_type: String },
    /// The token lacks second-level authentication for a service.
    NotSafe { service: String, login_type: String },
    /// An error of the framework with a code (bans and refused ban requests among them).
    Framework { code: i32, message: String },
    /// Any other error.
    Other { message: String },
    /// A firewall hook matched a white-listed path: the remaining hooks are skipped.
    StopMatch,
    /// The request path is refused.
    RequestPathInvalid { message: String },
    /// The firewall refused the request.
    FirewallCheck { message: String },
    /// A value could not be converted from JSON.
    JsonConvert { message: String },
}

/// Result of a library operation.
pub type SaResult<T> = Result<T, SaTokenException>;

/// `e` is a missing-login error with this message and account type.
pub open spec fn is_not_login(e: SaTokenException, message: Seq<char>, login_type: Seq<char>) -> bool {
    e matches SaTokenException::NotLogin { message: m, login_type: t } && m@ == message && t@ == login_type
}

/// `e` is a plain error with this message.
pub open spec fn is_other(e: SaTokenException, message: Seq<char>) -> bool {
    e matches SaTokenException::Other { message: m } && m@ == message
}

/// The message of a banned-service error.
pub open spec fn disabled_message(service: Seq<char>) -> Seq<char> {
    "此账号已被禁止访问服务："@ + service
}

/// `e` is an error with this code and message.
pub open spec fn is_code(e: SaTokenException, code: i32, message: Seq<char>) -> bool {
    e matches SaTokenException::Framework { code: c, message: m } && c == code && m@ == message
}

/// `e` is a missing-role error for this role text and account type.
pub open spec fn is_not_role(e: SaTokenException, role: Seq<char>, login_type: Seq<char>) -> bool {
    e matches SaTokenException::NotRole { role: a, login_type: b } && a@ == role && b@ == login_type
}

/// `e` is a missing-permission error for this permission text and account type.
pub open spec fn is_not_permission(e: SaTokenException, permission: Seq<char>, login_type: Seq<char>) -> bool {
    e matches SaTokenException::NotPermission { permission: a, login_type: b } && a@ == permission && b@ == login_type
}

/// `e` is a missing second-level authentication error for this service and account type.
pub open spec fn is_not_safe(e: SaTokenException, service: Seq<char>, login_type: Seq<char>) -> bool {
    e matches SaTokenException::NotSafe { service: a, login_type: b } && a@ == service && b@ == login_type
}

impl SaTokenException {
    /// A missing-login error.
    pub fn not_login(message: &str, login_type: &str) -> (r: Self)
        ensures
            is_not_login(r, message@, login_type@),
    {
        SaTokenException::NotLogin { message: message.to_owned(), login_type: login_type.to_owned() }
    }

    /// A missing-role error.
    pub fn not_role(role: &str, login_type: &str) -> (r: Self)
        ensures
            r matches SaTokenException::NotRole { role: a, login_type: b } && a@ == role@ && b@ == login_type@,
    {
        SaTokenException::NotRole { role: role.to_owned(), login_type: login_type.to_owned() }
    }

    /// A missing-permission error.
    pub fn not_permission(permission: &str, login_type: &str) -> (r: Self)
        ensures
            r matches SaTokenException::NotPermission { permission: a, login_type: b } && a@ == permission@
                && b@ == login_type@,
    {
        SaTokenException::NotPermission { permission: permission.to_owned(), login_type: login_type.to_owned() }
    }

    /// A missing second-level authentication error.
    pub fn not_safe(service: &str, login_type: &str) -> (r: Self)
        ensures
            r matches SaTokenException::NotSafe { service: a, login_type: b } && a@ == service@ && b@ == login_type@,
    {
        SaTokenException::NotSafe { service: service.to_owned(), login_type: login_type.to_owned() }
    }

    /// A banned-service error: code 11061 with the message naming the
    /// service (see [`disabled_message`]); the account, levels and time
    /// left are not kept in it.
    pub fn disable_service_level(login_id: &str, service: &str, level: i32, limit_level: i32, disable_time: i64) -> (r: Self)
        ensures
            is_code(r, CODE_11061, disabled_message(service@)),
    {
        let mut message = "此账号已被禁止访问服务：".to_owned();
        message.append(service);
        proof {
            reveal_strlit("此账号已被禁止访问服务：");
        }
        SaTokenException::Framework { code: CODE_11061, message }
    }

    /// An error with a code.
    pub fn with_code(code: i32, message: &str) -> (r: Self)
        ensures
            is_code(r, code, message@),
    {
        SaTokenException::Framework { code, message: message.to_owned() }
    }

    /// Any other error.
    pub fn other(message: &str) -> (r: Self)
        ensures
            is_other(r, message@),
    {
        SaTokenException::Other { message: message.to_owned() }
    }

    /// The error's code: the codes of the login, role, permission, ban and
    /// second-level authentication errors, the code of a coded error, and
    /// -1 for the rest.
    pub fn code(&self) -> (r: i32)
        ensures
            r == match *self {
                SaTokenException::NotLogin { .. } => CODE_11011,
                SaTokenException::NotRole { .. } => CODE_11041,
                SaTokenException::NotPermission { .. } => CODE_11051,
                SaTokenException::NotSafe { .. } => CODE_11071,
                SaTokenException::Framework { code, .. } => code,
                _ => -1i32,
            },
    {
        match self {
            SaTokenException::NotLogin { .. } => CODE_11011,
            SaTokenException::NotRole { .. } => CODE_11041,
            SaTokenException::NotPermission { .. } => CODE_11051,
            SaTokenException::NotSafe { .. } => CODE_11071,
            SaTokenException::Framework { code, .. } => *code,
            _ => -1,
        }
    }
}

} // verus!
