//! Parameters of login and logout, and the modes they select.
use vstd::prelude::*;
use crate::config::SaTokenConfig;

verus! {

/// What a logout is.
#[derive(Debug, Clone, Copy, PartialEq, Eq)]
pub enum SaLogoutMode {
    /// An ordinary logout.
    Logout,
    /// Kicked out.
    Kickout,
    /// Replaced by another login.
    Replaced,
}

/// What a logout covers.
#[derive(Debug, Clone, Copy, PartialEq, Eq)]
pub enum SaLogoutRange {
    /// The current token only.
    Token,
    /// Every session of the account.
    Account,
}

/// What happens when a login replaces another.
#[derive(Debug, Clone, Copy, PartialEq, Eq)]
pub enum SaReplacedLoginExitMode {
    /// The old device goes offline.
    OldDeviceOffline,
    /// The new device does not log in.
    NewDeviceNotLogin,
}

/// Which logins a new login replaces.
#[derive(Debug, Clone, Copy, PartialEq, Eq)]
pub enum SaReplacedRange {
    /// Those of the same device type.
    CurrDeviceType,
    /// Those of every device type.
    AllDeviceType,
}

impl Default for SaLogoutMode {
    fn default() -> (r: Self)
        ensures
            r == SaLogoutMode::Logout,
    {
        SaLogoutMode::Logout
    }
}

impl Default for SaLogoutRange {
    fn default() -> (r: Self)
        ensures
            r == SaLogoutRange::Token,
    {
        SaLogoutRange::Token
    }
}

impl Default for SaReplacedLoginExitMode {
    fn default() -> (r: Self)
        ensures
            r == SaReplacedLoginExitMode::OldDeviceOffline,
    {
        SaReplacedLoginExitMode::OldDeviceOffline
    }
}

impl Default for SaReplacedRange {
    fn default() -> (r: Self)
        ensures
            r == SaReplacedRange::CurrDeviceType,
    {
        SaReplacedRange::CurrDeviceType
    }
}

/// Options of one login; those left unset take the global setting.
pub struct SaLoginParameter {
    /// Device type.
    pub device_type: String,
    /// Device id.
    pub device_id: String,
    /// Token lifetime in seconds; below zero: the global setting.
    pub timeout: i64,
    /// Inactivity limit.
    pub active_timeout: Option<i64>,
    /// Whether concurrent logins are allowed.
    pub is_concurrent: Option<bool>,
    /// Whether logins of one device type share a token.
    pub is_share: Option<bool>,
    /// Most logins of the account.
    pub max_login_count: Option<i32>,
    /// Whether the token cookie is lasting.
    pub is_lasting_cookie: Option<bool>,
    /// Whether the token is written to a response header.
    pub is_write_header: Option<bool>,
    /// Extra data of the login.
    pub extra_data: Option<serde_json::Value>,
    /// Extra data recorded on the terminal.
    pub terminal_extra_data: Option<serde_json::Value>,
    /// A token chosen in advance.
    pub token: Option<String>,
}

impl Default for SaLoginParameter {
    fn default() -> (r: Self)
        ensures
            r.device_type@ == Seq::<char>::empty(),
            r.device_id@ == Seq::<char>::empty(),
            r.timeout == -1,
            r.active_timeout is None,
            r.is_concurrent is None,
            r.is_share is None,
            r.max_login_count is None,
            r.is_lasting_cookie is None,
            r.is_write_header is None,
            r.extra_data is None,
            r.terminal_extra_data is None,
            r.token is None,
    {
        SaLoginParameter {
            device_type: String::new(),
            device_id: String::new(),
            timeout: -1,
            active_timeout: None,
            is_concurrent: None,
            is_share: None,
            max_login_count: None,
            is_lasting_cookie: None,
            is_write_header: None,
            extra_data: None,
            terminal_extra_data: None,
            token: None,
        }
    }
}

impl SaLoginParameter {
    /// The effective lifetime: the parameter's when not negative, else the global one.
    pub open spec fn timeout_under(&self, config: &SaTokenConfig) -> i64 {
        if self.timeout >= 0 { self.timeout } else { config.timeout }
    }

    /// Whether concurrent logins are allowed, the parameter's or the global setting.
    pub open spec fn concurrent_under(&self, config: &SaTokenConfig) -> bool {
        match self.is_concurrent { Some(b) => b, None => config.is_concurrent }
    }

    /// Whether tokens are shared, the parameter's or the global setting.
    pub open spec fn share_under(&self, config: &SaTokenConfig) -> bool {
        match self.is_share { Some(b) => b, None => config.is_share }
    }

    /// The most logins, the parameter's or the global setting.
    pub open spec fn max_count_under(&self, config: &SaTokenConfig) -> i32 {
        match self.max_login_count { Some(n) => n, None => config.max_login_count }
    }

    /// Parameters with every option unset.
    pub fn create() -> (r: Self)
        ensures
            r.device_type@ == Seq::<char>::empty(),
            r.device_id@ == Seq::<char>::empty(),
            r.timeout == -1,
            r.active_timeout is None,
            r.is_concurrent is None,
            r.is_share is None,
            r.max_login_count is None,
            r.is_lasting_cookie is None,
            r.is_write_header is None,
            r.extra_data is None,
            r.terminal_extra_data is None,
            r.token is None,
    {
        Self::default()
    }

    /// Parameters with the global lifetime and every other option unset.
    pub fn with_default_values(config: &SaTokenConfig) -> (r: Self)
        ensures
            r.device_type@ == Seq::<char>::empty(),
            r.device_id@ == Seq::<char>::empty(),
            r.timeout == config.timeout,
            r.active_timeout is None,
            r.is_concurrent is None,
            r.is_share is None,
            r.max_login_count is None,
            r.is_lasting_cookie is None,
            r.is_write_header is None,
            r.extra_data is None,
            r.terminal_extra_data is None,
            r.token is None,
    {
        SaLoginParameter { timeout: config.timeout, ..Self::default() }
    }

    /// Sets the device type.
    pub fn set_device_type(self, device_type: &str) -> (r: Self)
        ensures
            r == (SaLoginParameter { device_type: r.device_type, ..self }),
            r.device_type@ == device_type@,
    {
        SaLoginParameter { device_type: device_type.to_owned(), ..self }
    }

    /// Sets the device id.
    pub fn set_device_id(self, device_id: &str) -> (r: Self)
        ensures
            r == (SaLoginParameter { device_id: r.device_id, ..self }),
            r.device_id@ == device_id@,
    {
        SaLoginParameter { device_id: device_id.to_owned(), ..self }
    }

    /// Sets the lifetime.
    pub fn set_timeout(self, timeout: i64) -> (r: Self)
        ensures
            r == (SaLoginParameter { timeout, ..self }),
    {
        SaLoginParameter { timeout, ..self }
    }

    /// Sets the inactivity limit.
    pub fn set_active_timeout(self, active_timeout: i64) -> (r: Self)
        ensures
            r == (SaLoginParameter { active_timeout: Some(active_timeout), ..self }),
    {
        SaLoginParameter { active_timeout: Some(active_timeout), ..self }
    }

    /// Sets whether concurrent logins are allowed.
    pub fn set_is_concurrent(self, is_concurrent: bool) -> (r: Self)
        ensures
            r == (SaLoginParameter { is_concurrent: Some(is_concurrent), ..self }),
    {
        SaLoginParameter { is_concurrent: Some(is_concurrent), ..self }
    }

    /// Sets whether tokens are shared.
    pub fn set_is_share(self, is_share: bool) -> (r: Self)
        ensures
            r == (SaLoginParameter { is_share: Some(is_share), ..self }),
    {
        SaLoginParameter { is_share: Some(is_share), ..self }
    }

    /// Sets the most logins.
    pub fn set_max_login_count(self, max_login_count: i32) -> (r: Self)
        ensures
            r == (SaLoginParameter { max_login_count: Some(max_login_count), ..self }),
    {
        SaLoginParameter { max_login_count: Some(max_login_count), ..self }
    }

    /// Sets whether the token cookie is lasting.
    pub fn set_is_lasting_cookie(self, is_lasting_cookie: bool) -> (r: Self)
        ensures
            r == (SaLoginParameter { is_lasting_cookie: Some(is_lasting_cookie), ..self }),
    {
        SaLoginParameter { is_lasting_cookie: Some(is_lasting_cookie), ..self }
    }

    /// Sets whether the token is written to a response header.
    pub fn set_is_write_header(self, is_write_header: bool) -> (r: Self)
        ensures
            r == (SaLoginParameter { is_write_header: Some(is_write_header), ..self }),
    {
        SaLoginParameter { is_write_header: Some(is_write_header), ..self }
    }

    /// Sets the extra data of the login.
    pub fn set_extra_data(self, extra_data: serde_json::Value) -> (r: Self)
        ensures
            r == (SaLoginParameter { extra_data: Some(extra_data), ..self }),
    {
        SaLoginParameter { extra_data: Some(extra_data), ..self }
    }

    /// Sets the extra data recorded on the terminal.
    pub fn set_terminal_extra_data(self, terminal_extra_data: serde_json::Value) -> (r: Self)
        ensures
            r == (SaLoginParameter { terminal_extra_data: Some(terminal_extra_data), ..self }),
    {
        SaLoginParameter { terminal_extra_data: Some(terminal_extra_data), ..self }
    }

    /// Chooses the token in advance.
    pub fn set_token(self, token: &str) -> (r: Self)
        ensures
            r == (SaLoginParameter { token: r.token, ..self }),
            r.token is Some && r.token->0@ == token@,
    {
        SaLoginParameter { token: Some(token.to_owned()), ..self }
    }

    /// The effective lifetime.
    pub fn get_timeout(&self, config: &SaTokenConfig) -> (r: i64)
        ensures
            r == self.timeout_under(config),
    {
        if self.timeout >= 0 { self.timeout } else { config.timeout }
    }

    /// The effective inactivity limit.
    pub fn get_active_timeout(&self, config: &SaTokenConfig) -> (r: i64)
        ensures
            r == match self.active_timeout { Some(n) => n, None => config.active_timeout },
    {
        match self.active_timeout { Some(n) => n, None => config.active_timeout }
    }

    /// Whether concurrent logins are allowed.
    pub fn get_is_concurrent(&self, config: &SaTokenConfig) -> (r: bool)
        ensures
            r == self.concurrent_under(config),
    {
        match self.is_concurrent { Some(b) => b, None => config.is_concurrent }
    }

    /// Whether tokens are shared.
    pub fn get_is_share(&self, config: &SaTokenConfig) -> (r: bool)
        ensures
            r == self.share_under(config),
    {
        match self.is_share { Some(b) => b, None => config.is_share }
    }

    /// The most logins.
    pub fn get_max_login_count(&self, config: &SaTokenConfig) -> (r: i32)
        ensures
            r == self.max_count_under(config),
    {
        match self.max_login_count { Some(n) => n, None => config.max_login_count }
    }

    /// Whether the token cookie is lasting.
    pub fn get_is_lasting_cookie(&self, config: &SaTokenConfig) -> (r: bool)
        ensures
            r == match self.is_lasting_cookie { Some(b) => b, None => config.is_lasting_cookie },
    {
        match self.is_lasting_cookie { Some(b) => b, None => config.is_lasting_cookie }
    }

    /// Whether the token is written to a response header.
    pub fn get_is_write_header(&self, config: &SaTokenConfig) -> (r: bool)
        ensures
            r == match self.is_write_header { Some(b) => b, None => config.is_write_header },
    {
        match self.is_write_header { Some(b) => b, None => config.is_write_header }
    }
}

/// Options of one logout.
pub struct SaLogoutParameter {
    /// Device type (none: any).
    pub device_type: Option<String>,
    /// Device id (none: any).
    pub device_id: Option<String>,
    /// What the logout is.
    pub mode: SaLogoutMode,
    /// What it covers.
    pub range: SaLogoutRange,
    /// Whether freeze operations are kept.
    pub is_keep_freeze_ops: Option<bool>,
    /// Whether the token session is kept.
    pub is_keep_token_session: Option<bool>,
}

impl Default for SaLogoutParameter {
    fn default() -> (r: Self)
        ensures
            r.device_type is None,
            r.device_id is None,
            r.mode == SaLogoutMode::Logout,
            r.range == SaLogoutRange::Token,
            r.is_keep_freeze_ops is None,
            r.is_keep_token_session is None,
    {
        SaLogoutParameter {
            device_type: None,
            device_id: None,
            mode: SaLogoutMode::Logout,
            range: SaLogoutRange::Token,
            is_keep_freeze_ops: None,
            is_keep_token_session: None,
        }
    }
}

impl SaLogoutParameter {
    /// Parameters of an ordinary logout of the current token.
    pub fn create() -> (r: Self)
        ensures
            r.device_type is None,
            r.device_id is None,
            r.mode == SaLogoutMode::Logout,
            r.range == SaLogoutRange::Token,
            r.is_keep_freeze_ops is None,
            r.is_keep_token_session is None,
    {
        Self::default()
    }

    /// Restricts the logout to a device type.
    pub fn set_device_type(self, device_type: &str) -> (r: Self)
        ensures
            r == (SaLogoutParameter { device_type: r.device_type, ..self }),
            r.device_type is Some && r.device_type->0@ == device_type@,
    {
        SaLogoutParameter { device_type: Some(device_type.to_owned()), ..self }
    }

    /// Restricts the logout to a device id.
    pub fn set_device_id(self, device_id: &str) -> (r: Self)
        ensures
            r == (SaLogoutParameter { device_id: r.device_id, ..self }),
            r.device_id is Some && r.device_id->0@ == device_id@,
    {
        SaLogoutParameter { device_id: Some(device_id.to_owned()), ..self }
    }

    /// Sets what the logout is.
    pub fn set_mode(self, mode: SaLogoutMode) -> (r: Self)
        ensures
            r == (SaLogoutParameter { mode, ..self }),
    {
        SaLogoutParameter { mode, ..self }
    }

    /// Sets what the logout covers.
    pub fn set_range(self, range: SaLogoutRange) -> (r: Self)
        ensures
            r == (SaLogoutParameter { range, ..self }),
    {
        SaLogoutParameter { range, ..self }
    }

    /// Sets whether freeze operations are kept.
    pub fn set_is_keep_freeze_ops(self, is_keep_freeze_ops: bool) -> (r: Self)
        ensures
            r == (SaLogoutParameter { is_keep_freeze_ops: Some(is_keep_freeze_ops), ..self }),
    {
        SaLogoutParameter { is_keep_freeze_ops: Some(is_keep_freeze_ops), ..self }
    }

    /// Sets whether the token session is kept.
    pub fn set_is_keep_token_session(self, is_keep_token_session: bool) -> (r: Self)
        ensures
            r == (SaLogoutParameter { is_keep_token_session: Some(is_keep_token_session), ..self }),
    {
        SaLogoutParameter { is_keep_token_session: Some(is_keep_token_session), ..self }
    }
}

} // verus!
