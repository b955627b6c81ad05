//! Global settings.
use vstd::prelude::*;

verus! {

/// The default settings.
pub open spec fn is_default_config(c: SaTokenConfig) -> bool {
    &&& c.token_name@ == "satoken"@
    &&& c.timeout == 2592000
    &&& c.active_timeout == -1
    &&& c.is_concurrent
    &&& c.is_share
    &&& c.max_login_count == -1
    &&& c.is_read_header
    &&& c.is_read_cookie
    &&& c.is_read_body
    &&& !c.is_write_header
    &&& c.token_prefix@ == Seq::<char>::empty()
    &&& !c.right_now_create_token_session
    &&& c.is_lasting_cookie
    &&& c.max_try_times == 12
    &&& c.token_style@ == "uuid"@
}

/// Settings of token names, lifetimes and where tokens are read and written.
pub struct SaTokenConfig {
    /// Name of the token (header, cookie and parameter name).
    pub token_name: String,
    /// Token lifetime in seconds; zero or less: forever.
    pub timeout: i64,
    /// Seconds of inactivity after which a token is logged out; zero or less: no limit.
    pub active_timeout: i64,
    /// Whether one account may be logged in several times at once.
    pub is_concurrent: bool,
    /// Whether concurrent logins of one device type share one token.
    pub is_share: bool,
    /// Most logins of one account (-1: no limit).
    pub max_login_count: i32,
    /// Whether the token is read from request headers.
    pub is_read_header: bool,
    /// Whether the token is read from cookies.
    pub is_read_cookie: bool,
    /// Whether the token is read from request parameters.
    pub is_read_body: bool,
    /// Whether the token is written to a response header.
    pub is_write_header: bool,
    /// Prefix that precedes the token in requests.
    pub token_prefix: String,
    /// Whether a token session is created right at login.
    pub right_now_create_token_session: bool,
    /// Whether the token cookie is lasting.
    pub is_lasting_cookie: bool,
    /// Attempts to draw an unused temporary token.
    pub max_try_times: i32,
    /// Style of generated tokens.
    pub token_style: String,
}

impl SaTokenConfig {
    /// The token name.
    pub fn token_name(&self) -> (r: &str)
        ensures
            r@ == self.token_name@,
    {
        self.token_name.as_str()
    }

    /// The token name.
    pub fn get_token_name(&self) -> (r: &str)
        ensures
            r@ == self.token_name@,
    {
        self.token_name.as_str()
    }

    /// Attempts to draw an unused temporary token.
    pub fn get_max_try_times(&self) -> (r: i32)
        ensures
            r == self.max_try_times,
    {
        self.max_try_times
    }
}

impl Default for SaTokenConfig {
    fn default() -> (r: Self)
        ensures
            is_default_config(r),
            r.token_name@ == "satoken"@,
            r.timeout == 2592000,
            r.active_timeout == -1,
            r.is_concurrent,
            r.is_share,
            r.max_login_count == -1,
            r.is_read_header,
            r.is_read_cookie,
            r.is_read_body,
            !r.is_write_header,
            r.token_prefix@ == Seq::<char>::empty(),
            !r.right_now_create_token_session,
            r.is_lasting_cookie,
            r.max_try_times == 12,
            r.token_style@ == "uuid"@,
    {
        SaTokenConfig {
            token_name: "satoken".to_owned(),
            timeout: 2592000,
            active_timeout: -1,
            is_concurrent: true,
            is_share: true,
            max_login_count: -1,
            is_read_header: true,
            is_read_cookie: true,
            is_read_body: true,
            is_write_header: false,
            token_prefix: String::new(),
            right_now_create_token_session: false,
            is_lasting_cookie: true,
            max_try_times: 12,
            token_style: "uuid".to_owned(),
        }
    }
}

} // verus!
