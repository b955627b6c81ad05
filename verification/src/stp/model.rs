//! Login settings, login requests and token details.
use vstd::prelude::*;
use crate::util::fox_util::now_timestamp;

verus! {

/// Settings of one kind of login.
#[derive(Clone)]
pub struct SaLoginConfig {
    /// Token lifetime in seconds.
    pub timeout: i64,
    /// Whether logins share one token.
    pub is_share: bool,
    /// Whether a new token is made, logging the old ones out.
    pub is_create_session: bool,
    /// Whether a replaced login answers with an error.
    pub is_replaced_login_failed: bool,
    /// Device type.
    pub device_type: String,
    /// Account type.
    pub login_type: String,
}

impl SaLoginConfig {
    /// The default settings: lifetime -1, not shared, new tokens, device type
    /// empty, account type `login`.
    pub fn new() -> (r: Self)
        ensures
            r.timeout == -1,
            !r.is_share,
            r.is_create_session,
            !r.is_replaced_login_failed,
            r.device_type@ == Seq::<char>::empty(),
            r.login_type@ == "login"@,
    {
        SaLoginConfig {
            timeout: -1,
            is_share: false,
            is_create_session: true,
            is_replaced_login_failed: false,
            device_type: String::new(),
            login_type: "login".to_owned(),
        }
    }

    /// Sets the lifetime.
    pub fn with_timeout(self, timeout: i64) -> (r: Self)
        ensures
            r == (SaLoginConfig { timeout, ..self }),
    {
        SaLoginConfig { timeout, ..self }
    }

    /// Sets whether logins share one token.
    pub fn with_share(self, is_share: bool) -> (r: Self)
        ensures
            r == (SaLoginConfig { is_share, ..self }),
    {
        SaLoginConfig { is_share, ..self }
    }

    /// Sets whether a new token is made.
    pub fn with_create_session(self, b: bool) -> (r: Self)
        ensures
            r == (SaLoginConfig { is_create_session: b, ..self }),
    {
        SaLoginConfig { is_create_session: b, ..self }
    }

    /// Sets the device type.
    pub fn with_device_type(self, s: &str) -> (r: Self)
        ensures
            r == (SaLoginConfig { device_type: r.device_type, ..self }),
            r.device_type@ == s@,
    {
        SaLoginConfig { device_type: s.to_owned(), ..self }
    }

    /// Sets the account type.
    pub fn with_login_type(self, s: &str) -> (r: Self)
        ensures
            r == (SaLoginConfig { login_type: r.login_type, ..self }),
            r.login_type@ == s@,
    {
        SaLoginConfig { login_type: s.to_owned(), ..self }
    }
}

impl Default for SaLoginConfig {
    fn default() -> (r: Self)
        ensures
            r.timeout == -1,
            !r.is_share,
            r.is_create_session,
            !r.is_replaced_login_failed,
            r.device_type@ == Seq::<char>::empty(),
            r.login_type@ == "login"@,
    {
        Self::new()
    }
}

/// One login request: the account, the device and optional settings.
pub struct SaLoginModel {
    /// Account id.
    pub login_id: String,
    /// Device.
    pub device: String,
    /// Settings of the login.
    pub config: Option<SaLoginConfig>,
    /// Whether the token name is read from cookies first.
    pub cookie_auto_call: bool,
    /// Custom token name (empty: the account type's).
    pub token_name: String,
}

impl SaLoginModel {
    /// A login of the account without device or settings.
    pub fn new(login_id: &str) -> (r: Self)
        ensures
            r.login_id@ == login_id@,
            r.device@ == Seq::<char>::empty(),
            r.config is None,
            r.cookie_auto_call,
            r.token_name@ == Seq::<char>::empty(),
    {
        SaLoginModel {
            login_id: login_id.to_owned(),
            device: String::new(),
            config: None,
            cookie_auto_call: true,
            token_name: String::new(),
        }
    }

    /// Sets the device.
    pub fn with_device(self, s: &str) -> (r: Self)
        ensures
            r == (SaLoginModel { device: r.device, ..self }),
            r.device@ == s@,
    {
        SaLoginModel { device: s.to_owned(), ..self }
    }

    /// Sets the settings.
    pub fn with_config(self, c: SaLoginConfig) -> (r: Self)
        ensures
            r == (SaLoginModel { config: Some(c), ..self }),
    {
        SaLoginModel { config: Some(c), ..self }
    }
}

/// Details of a token.
pub struct SaTokenInfo {
    /// Token name.
    pub token_name: String,
    /// Token value.
    pub token_value: String,
    /// Whether the token was newly made.
    pub is_created: bool,
    /// Account id.
    pub login_id: String,
    /// Seconds left of the token.
    pub token_timeout: i64,
    /// Seconds left of the account session.
    pub session_timeout: i64,
    /// Seconds left of the token session.
    pub token_session_timeout: i64,
    /// Inactivity limit of the token.
    pub token_active_timeout: i64,
    /// Device type of the login.
    pub login_device_type: String,
    /// When the details were made (seconds since the epoch, from the system clock).
    pub token_create_time: i64,
}

impl SaTokenInfo {
    /// Details of a token with this name and value created at this second;
    /// the time fields are -1 and the account and device empty.
    pub fn created_at(token_name: &str, token_value: &str, token_create_time: i64) -> (r: Self)
        ensures
            r.token_name@ == token_name@,
            r.token_value@ == token_value@,
            r.is_created,
            r.login_id@ == Seq::<char>::empty(),
            r.token_timeout == -1,
            r.session_timeout == -1,
            r.token_session_timeout == -1,
            r.token_active_timeout == -1,
            r.login_device_type@ == Seq::<char>::empty(),
            r.token_create_time == token_create_time,
    {
        SaTokenInfo {
            token_name: token_name.to_owned(),
            token_value: token_value.to_owned(),
            is_created: true,
            login_id: String::new(),
            token_timeout: -1,
            session_timeout: -1,
            token_session_timeout: -1,
            token_active_timeout: -1,
            login_device_type: String::new(),
            token_create_time,
        }
    }

    /// Details of a token with this name and value created now (see
    /// [`Self::created_at`]); the creation time is read from the system
    /// clock, so nothing is promised of it here.
    pub fn new(token_name: &str, token_value: &str) -> (r: Self)
        ensures
            r.token_name@ == token_name@,
            r.token_value@ == token_value@,
            r.is_created,
            r.login_id@ == Seq::<char>::empty(),
            r.token_timeout == -1,
            r.session_timeout == -1,
            r.token_session_timeout == -1,
            r.token_active_timeout == -1,
            r.login_device_type@ == Seq::<char>::empty(),
    {
        SaTokenInfo::created_at(token_name, token_value, now_timestamp())
    }
}

} // verus!
