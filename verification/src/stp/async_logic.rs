//! The rules of one account type over a runtime of its own: settings,
//! store, current request and source of roles owned by the instance rather
//! than shared, with the clock read in milliseconds.
use vstd::prelude::*;
use vstd::string::StringExecFns;
use crate::config::SaTokenConfig;
use crate::context::{SaCookie, SaRequestForMock, SaTokenContext};
use crate::dao::{DaoModel, SaTokenDaoMemory, expire_moment, fits, live_value, remaining, with_expire, with_value};
use crate::exception::{
    SaResult, SaTokenException, CODE_11062, CODE_11063, CODE_11064, CODE_11061, disabled_message, is_code, is_not_login, is_other,
    is_not_role, is_not_permission, is_not_safe,
};
use crate::json::clone_json;
use crate::num::{int_text, int_to_string, lemma_parse_int_text, parse_i32, parse_i64, spec_parse_i32, spec_parse_i64};
use crate::session::{SaSession, SaTerminalInfo, SessionModel, TerminalModel, find_token, lemma_without_token, terminal_models, tokens_of, without_token};
use crate::stp::interface::{SaDisableWrapperInfo, StpInterface, StpInterfaceDefaultImpl};
use crate::stp::keys::{create_token_value, token_of_style, lemma_styled_token_not_empty,
    disable_key, last_active_key, safe_key, session_key, switch_key, token_key, token_session_key,
    make_disable_key, make_last_active_key, make_safe_key, make_session_key, make_switch_key, make_token_key,
    make_token_session_key,
};
use crate::stp::logic::{
    CLOCK_LIMIT, MAX_TIMEOUT, cut_prefix, non_empty_at, sessions_keyed, without_tokens, overflow_tokens,
    strings_without, disable_args_ok, is_disable_args_error, records_ban, lemma_token_key_not_active_key,
    lemma_token_key_injective, lemma_session_key_not_token_session_key, lemma_without_tokens_keeps_last,
    lemma_strings_without_sub, lemma_overflow_excludes_last, list_contains,
    login_terminal, with_terminal, login_terminals, lemma_session_key_injective, lemma_filter_keeps_all, lemma_without_token_filter, LoginShape, param_shape, lemma_strings_without_removes, lemma_without_tokens_unique_last,
    EventModel, RemovalKind, SaTokenEvent, event_views, removal_event, logout_events, ends_with_login,
};
use crate::stp::model::SaTokenInfo;
use crate::stp::parameter::SaLoginParameter;
use crate::text::{chars_of, starts_with, string_of, views};

verus! {

/// The value under a key, when present.
pub open spec fn present_at(m: Map<Seq<char>, Seq<char>>, k: Seq<char>) -> Option<Seq<char>> {
    if m.contains_key(k) { Some(m[k]) } else { None }
}

/// The token a request carries, as the runtime reads it: the first of the
/// header, the cookie and the parameter named after the token that is read
/// and not empty (an empty value counts as absent).
pub open spec fn runtime_token_in_request(config: SaTokenConfig, request: SaRequestForMock) -> Option<Seq<char>> {
    let name = config.token_name@;
    if config.is_read_header && non_empty_at(request.headers_view(), name) is Some {
        non_empty_at(request.headers_view(), name)
    } else if config.is_read_cookie && non_empty_at(request.cookies_view(), name) is Some {
        non_empty_at(request.cookies_view(), name)
    } else if config.is_read_body && non_empty_at(request.params_view(), name) is Some {
        non_empty_at(request.params_view(), name)
    } else {
        None
    }
}

/// The token of the current request as the runtime reads it: the carried
/// one (prefix cut off), else a non-empty one in the storage.
pub open spec fn runtime_token(config: SaTokenConfig, context: SaTokenContext) -> Option<Seq<char>> {
    if !context.valid {
        None
    } else {
        match runtime_token_in_request(config, context.request) {
            Some(t) => Some(cut_prefix(t, config.token_prefix@)),
            None => non_empty_at(context.storage.view_map(), config.token_name@),
        }
    }
}

/// The text kept as a token's last activity: the moment in milliseconds,
/// then a comma and the token's own inactivity limit when it has one.
pub open spec fn active_text(ms: i64, active: Option<i64>) -> Seq<char> {
    match active {
        Some(a) => int_text(ms as int) + ","@ + int_text(a as int),
        None => int_text(ms as int),
    }
}

/// `i` is the position of the first comma of `v`.
pub open spec fn is_first_comma(v: Seq<char>, i: int) -> bool {
    &&& 0 <= i < v.len()
    &&& v[i] == ','
    &&& forall|j: int| 0 <= j < i ==> v[j] != ','
}

/// The text before the first comma, and the text after it when there is one.
pub open spec fn split_at_comma(v: Seq<char>) -> (Seq<char>, Option<Seq<char>>) {
    if exists|i: int| is_first_comma(v, i) {
        let i = choose|i: int| is_first_comma(v, i);
        (v.subrange(0, i), Some(v.subrange(i + 1, v.len() as int)))
    } else {
        (v, None)
    }
}

/// Division by 1000 that rounds toward zero.
pub open spec fn thousandths(d: int) -> int {
    if d >= 0 { d / 1000 } else { -((-d) / 1000) }
}

/// The inactivity seconds left when `allowed` seconds are allowed and the
/// last activity was at `last` milliseconds, at `now_ms` milliseconds: -1
/// without a limit, -2 when they ran out; the difference of milliseconds is
/// capped at the largest `i64`, and so is the answer.
pub open spec fn active_seconds_left(allowed: i64, last: i64, now_ms: i64) -> i64 {
    if allowed == -1 {
        -1i64
    } else {
        let d = if now_ms - last > i64::MAX { i64::MAX as int } else { now_ms - last };
        let rem = allowed - thousandths(d);
        if rem < 0 { -2i64 } else if rem > i64::MAX { i64::MAX } else { rem as i64 }
    }
}

/// The settings, store, current request and source of roles, permissions
/// and bans that one runtime owns.
pub struct AsyncSaTokenRuntime<I: StpInterface> {
    config: SaTokenConfig,
    dao: SaTokenDaoMemory,
    context: SaTokenContext,
    interface: I,
}

impl AsyncSaTokenRuntime<StpInterfaceDefaultImpl> {
    /// A runtime with these settings, store and request context, and the
    /// default source (no roles, permissions or bans).
    pub fn new(config: SaTokenConfig, dao: SaTokenDaoMemory, context: SaTokenContext) -> (r: Self)
        requires
            dao.wf(),
            context.wf(),
            config.timeout <= MAX_TIMEOUT,
            sessions_keyed(dao@.sessions),
        ensures
            r.wf(),
            r.cfg() == config,
            r.store() == dao@,
            r.ctx() == context,
    {
        AsyncSaTokenRuntime { config, dao, context, interface: StpInterfaceDefaultImpl }
    }
}

impl<I: StpInterface> AsyncSaTokenRuntime<I> {
    /// Internal consistency: the store and the request are well formed, the
    /// global lifetime is at most `MAX_TIMEOUT` and every session sits under
    /// its own id.
    pub closed spec fn wf(&self) -> bool {
        &&& self.dao.wf()
        &&& self.context.wf()
        &&& self.config.timeout <= MAX_TIMEOUT
        &&& sessions_keyed(self.dao@.sessions)
    }

    /// The settings.
    pub closed spec fn cfg(&self) -> SaTokenConfig {
        self.config
    }

    /// The store.
    pub closed spec fn store(&self) -> DaoModel {
        self.dao@
    }

    /// The current request, response and storage.
    pub closed spec fn ctx(&self) -> SaTokenContext {
        self.context
    }

    /// The source of roles, permissions and bans.
    pub closed spec fn source(&self) -> I {
        self.interface
    }

    /// The same runtime with another source of roles, permissions and bans.
    pub fn with_stp_interface<J: StpInterface>(self, interface: J) -> (r: AsyncSaTokenRuntime<J>)
        requires
            self.wf(),
        ensures
            r.wf(),
            r.cfg() == self.cfg(),
            r.store() == self.store(),
            r.ctx() == self.ctx(),
            r.source() == interface,
    {
        AsyncSaTokenRuntime { config: self.config, dao: self.dao, context: self.context, interface }
    }

    /// The settings.
    pub fn config(&self) -> (r: &SaTokenConfig)
        ensures
            *r == self.cfg(),
    {
        &self.config
    }

    /// The store.
    pub fn dao(&self) -> (r: &SaTokenDaoMemory)
        ensures
            r@ == self.store(),
    {
        &self.dao
    }

    /// The current request, response and storage.
    pub fn context(&self) -> (r: &SaTokenContext)
        ensures
            *r == self.ctx(),
    {
        &self.context
    }

    /// The source of roles, permissions and bans.
    pub fn stp_interface(&self) -> (r: &I)
        ensures
            *r == self.source(),
    {
        &self.interface
    }
}

/// A logged-in token found in a prefix of the terminals is the one found in all of them.
pub proof fn lemma_async_reuse_prefix<I: StpInterface>(logic: AsyncStpLogic<I>, ts: Seq<TerminalModel>, n: int, device: Seq<char>)
    requires
        0 <= n <= ts.len(),
        logic.reuse_token(ts.subrange(0, n), device) is Some,
    ensures
        logic.reuse_token(ts, device) == logic.reuse_token(ts.subrange(0, n), device),
    decreases ts.len() - n,
{
    if n < ts.len() {
        assert(ts.subrange(0, n + 1).drop_last() =~= ts.subrange(0, n));
        lemma_async_reuse_prefix(logic, ts, n + 1, device);
    } else {
        assert(ts.subrange(0, n) =~= ts);
    }
}

/// The rules of one account type over a runtime of its own, with the
/// clock reading, in milliseconds, they go by.
pub struct AsyncStpLogic<I: StpInterface> {
    login_type: String,
    runtime: AsyncSaTokenRuntime<I>,
    clock: i64,
    events: Vec<SaTokenEvent>,
}

impl<I: StpInterface> AsyncStpLogic<I> {
    // ==================== state ====================

    /// Internal consistency: the runtime is well formed and the clock lies
    /// in `[0, CLOCK_LIMIT)`.
    pub closed spec fn wf(&self) -> bool {
        &&& self.runtime.wf()
        &&& 0 <= self.clock < CLOCK_LIMIT
    }

    /// The account type.
    pub closed spec fn lt(&self) -> Seq<char> {
        self.login_type@
    }

    /// The runtime.
    pub closed spec fn rt(&self) -> AsyncSaTokenRuntime<I> {
        self.runtime
    }

    /// The clock reading in milliseconds.
    pub closed spec fn now_ms(&self) -> i64 {
        self.clock
    }

    /// The clock reading in seconds, which the store goes by.
    pub open spec fn now(&self) -> i64 {
        (self.now_ms() / 1000) as i64
    }

    /// The settings.
    pub open spec fn cfg(&self) -> SaTokenConfig {
        self.rt().cfg()
    }

    /// The store.
    pub open spec fn store(&self) -> DaoModel {
        self.rt().store()
    }

    /// The current request, response and storage.
    pub open spec fn ctx(&self) -> SaTokenContext {
        self.rt().ctx()
    }

    /// The source of roles, permissions and bans.
    pub open spec fn source(&self) -> I {
        self.rt().source()
    }

    /// The token name.
    pub open spec fn name(&self) -> Seq<char> {
        self.cfg().token_name@
    }

    /// The token key of a token.
    pub open spec fn tkey(&self, tv: Seq<char>) -> Seq<char> {
        token_key(self.name(), self.lt(), tv)
    }

    /// The last activity key of a token.
    pub open spec fn akey(&self, tv: Seq<char>) -> Seq<char> {
        last_active_key(self.name(), self.lt(), tv)
    }

    /// The session key of an account.
    pub open spec fn skey(&self, id: Seq<char>) -> Seq<char> {
        session_key(self.name(), self.lt(), id)
    }

    /// The token session key of a token.
    pub open spec fn tskey(&self, tv: Seq<char>) -> Seq<char> {
        token_session_key(self.name(), self.lt(), tv)
    }

    /// The ban key of an account and service.
    pub open spec fn dkey(&self, id: Seq<char>, service: Seq<char>) -> Seq<char> {
        disable_key(self.name(), self.lt(), id, service)
    }

    /// The second-level authentication key of a token and service.
    pub open spec fn sfkey(&self, tv: Seq<char>, service: Seq<char>) -> Seq<char> {
        safe_key(self.name(), self.lt(), tv, service)
    }

    /// The account a token is logged in to now.
    pub open spec fn owner_of(&self, tv: Seq<char>) -> Option<Seq<char>> {
        live_value(self.store().strings, self.tkey(tv), self.now())
    }

    /// The live session of an account.
    pub open spec fn session_of(&self, id: Seq<char>) -> Option<SessionModel> {
        live_value(self.store().sessions, self.skey(id), self.now())
    }

    /// The tokens listed in an account's live session.
    pub open spec fn tokens_of_account(&self, id: Seq<char>) -> Seq<Seq<char>> {
        match self.session_of(id) {
            Some(s) => tokens_of(s.terminals),
            None => Seq::empty(),
        }
    }

    /// What a login of `id` with token `tv` leaves of the account's
    /// terminals in `after`, the login having added its terminal to `pre`
    /// (the account's terminals before, when concurrent logins are allowed):
    /// the terminals of [`login_terminals`], and every token of the oldest
    /// terminals beyond the most logins allowed, other than `tv`, logged out.
    pub open spec fn login_outcome(&self, after: &Self, id: Seq<char>, tv: Seq<char>, shape: LoginShape, pre: Seq<TerminalModel>) -> bool {
        let t = login_terminal(pre.len(), tv, shape);
        let max = shape.max;
        let ov = overflow_tokens(with_terminal(pre, t), max);
        &&& (shape.concurrent ==> pre == self.terminals_of_account(id))
        &&& (!shape.concurrent ==> pre == self.kept_terminals(id, self.tokens_of_account(id)))
        &&& after.owner_of(tv) == Some(id)
        &&& after.terminals_of_account(id) == login_terminals(pre, t, max)
        &&& (max < 0 || max >= 1) ==> after.terminal_of(tv) == Some(t)
        &&& forall|k: int| 0 <= k < ov.len() && #[trigger] ov[k] != tv ==> after.owner_of(ov[k]) is None
    }

    /// The terminals of an account's live session, or none.
    pub open spec fn terminals_of_account(&self, id: Seq<char>) -> Seq<TerminalModel> {
        match self.session_of(id) {
            Some(s) => s.terminals,
            None => Seq::empty(),
        }
    }

    /// A token's live token session.
    pub open spec fn token_session_of(&self, tv: Seq<char>) -> Option<SessionModel> {
        live_value(self.store().sessions, self.tskey(tv), self.now())
    }

    /// The terminal of a token in the live session of the account it is logged in to.
    pub open spec fn terminal_of(&self, tv: Seq<char>) -> Option<TerminalModel> {
        match self.owner_of(tv) {
            Some(id) => match self.session_of(id) {
                Some(s) => match find_token(s.terminals, tv) {
                    Some(i) => Some(s.terminals[i]),
                    None => None,
                },
                None => None,
            },
            None => None,
        }
    }

    /// The token of the current request.
    pub open spec fn current_token(&self) -> Option<Seq<char>> {
        runtime_token(self.cfg(), self.ctx())
    }

    /// The account the current request acts as: the one it switched to,
    /// else the owner of its token.
    pub open spec fn current_login_id(&self) -> Option<Seq<char>> {
        match self.switched_to() {
            Some(id) => Some(id),
            None => self.token_owner(),
        }
    }

    /// The owner of the current request's token.
    pub open spec fn token_owner(&self) -> Option<Seq<char>> {
        match self.current_token() {
            Some(tv) => self.owner_of(tv),
            None => None,
        }
    }

    /// The account the request switched to.
    pub open spec fn switched_to(&self) -> Option<Seq<char>> {
        present_at(self.ctx().storage.view_map(), switch_key(self.lt()))
    }

    /// The token the current request's storage holds.
    pub open spec fn stored_token(&self) -> Seq<char> {
        self.ctx().storage.view_map()[self.name()]
    }

    /// Only the store changed.
    pub open spec fn same_but_store(&self, other: &Self) -> bool {
        &&& self.lt() == other.lt()
        &&& self.now_ms() == other.now_ms()
        &&& self.cfg() == other.cfg()
        &&& self.ctx() == other.ctx()
        &&& self.source() == other.source()
    }

    /// Nothing changed.
    pub open spec fn same(&self, other: &Self) -> bool {
        self.same_but_store(other) && self.store() == other.store()
    }

    /// The bounds that hold of well-formed rules.
    pub proof fn lemma_wf(&self)
        requires
            self.wf(),
        ensures
            0 <= self.now_ms() < CLOCK_LIMIT,
            0 <= self.now() < CLOCK_LIMIT,
            self.cfg().timeout <= MAX_TIMEOUT,
            self.ctx().wf(),
            sessions_keyed(self.store().sessions),
    {
    }

    /// Rules for an account type over a runtime, with the clock at zero.
    pub fn new(login_type: &str, runtime: AsyncSaTokenRuntime<I>) -> (r: Self)
        requires
            runtime.wf(),
        ensures
            r.wf(),
            r.lt() == login_type@,
            r.rt() == runtime,
            r.now_ms() == 0,
            r.events() == Seq::<EventModel>::empty(),
    {
        let r = AsyncStpLogic { login_type: login_type.to_owned(), runtime, clock: 0, events: Vec::new() };
        assert(event_views(r.events@) =~= Seq::<EventModel>::empty());
        r
    }

    /// The events recorded for the listeners and not yet handed over, in
    /// the order they happened.
    pub closed spec fn events(&self) -> Seq<EventModel> {
        event_views(self.events@)
    }

    /// Hands over the events recorded for the listeners, in order, and
    /// forgets them.
    pub fn take_events(&mut self) -> (r: Vec<SaTokenEvent>)
        requires
            old(self).wf(),
        ensures
            event_views(r@) == old(self).events(),
            final(self).events() == Seq::<EventModel>::empty(),
            final(self).wf(),
            final(self).same_but_store(&*old(self)),
            final(self).store() == old(self).store(),
    {
        let mut taken: Vec<SaTokenEvent> = Vec::new();
        std::mem::swap(&mut taken, &mut self.events);
        proof {
            assert(event_views(self.events@) =~= Seq::<EventModel>::empty());
        }
        taken
    }

    /// Records an event for the listeners.
    fn record(&mut self, e: SaTokenEvent)
        ensures
            final(self).events() == old(self).events().push(e@),
            final(self).login_type == old(self).login_type,
            final(self).runtime == old(self).runtime,
            final(self).clock == old(self).clock,
    {
        self.events.push(e);
        proof {
            assert(event_views(self.events@) =~= event_views(old(self).events@).push(e@));
        }
    }

    /// The account type.
    pub fn login_type(&self) -> (r: &str)
        ensures
            r@ == self.lt(),
    {
        self.login_type.as_str()
    }

    /// The runtime.
    pub fn runtime(&self) -> (r: &AsyncSaTokenRuntime<I>)
        ensures
            *r == self.rt(),
    {
        &self.runtime
    }

    /// The clock reading in milliseconds.
    pub fn clock(&self) -> (r: i64)
        ensures
            r == self.now_ms(),
    {
        self.clock
    }

    /// Sets the clock reading in milliseconds; readings outside
    /// `[0, CLOCK_LIMIT)` are ignored.
    pub fn set_clock(&mut self, now_ms: i64)
        requires
            old(self).wf(),
        ensures
            final(self).wf(),
            final(self).now_ms() == (if 0 <= now_ms < CLOCK_LIMIT { now_ms } else { old(self).now_ms() }),
            final(self).lt() == old(self).lt(),
            final(self).rt() == old(self).rt(),
    {
        if 0 <= now_ms && now_ms < CLOCK_LIMIT {
            self.clock = now_ms;
        }
    }

    /// Reads the clock from the system clock (see [`Self::set_clock`]).
    pub fn sync_clock(&mut self)
        requires
            old(self).wf(),
        ensures
            final(self).wf(),
            final(self).lt() == old(self).lt(),
            final(self).rt() == old(self).rt(),
    {
        let t = crate::util::fox_util::now_timestamp_millis();
        self.set_clock(t);
    }

    /// The clock reading in seconds.
    fn now_secs(&self) -> (r: i64)
        requires
            self.wf(),
        ensures
            r == self.now(),
            0 <= r < CLOCK_LIMIT,
    {
        self.clock / 1000
    }

    // ==================== keys ====================

    fn token_key(&self, token_value: &str) -> (r: String)
        ensures
            r@ == self.tkey(token_value@),
    {
        make_token_key(self.runtime.config.token_name.as_str(), self.login_type.as_str(), token_value)
    }

    fn session_key(&self, login_id: &str) -> (r: String)
        ensures
            r@ == self.skey(login_id@),
    {
        make_session_key(self.runtime.config.token_name.as_str(), self.login_type.as_str(), login_id)
    }

    fn token_session_key(&self, token_value: &str) -> (r: String)
        ensures
            r@ == self.tskey(token_value@),
    {
        make_token_session_key(self.runtime.config.token_name.as_str(), self.login_type.as_str(), token_value)
    }

    fn last_active_key(&self, token_value: &str) -> (r: String)
        ensures
            r@ == self.akey(token_value@),
    {
        make_last_active_key(self.runtime.config.token_name.as_str(), self.login_type.as_str(), token_value)
    }

    fn disable_key(&self, login_id: &str, service: &str) -> (r: String)
        ensures
            r@ == self.dkey(login_id@, service@),
    {
        make_disable_key(self.runtime.config.token_name.as_str(), self.login_type.as_str(), login_id, service)
    }

    fn safe_key(&self, token_value: &str, service: &str) -> (r: String)
        ensures
            r@ == self.sfkey(token_value@, service@),
    {
        make_safe_key(self.runtime.config.token_name.as_str(), self.login_type.as_str(), token_value, service)
    }

    fn switch_key(&self) -> (r: String)
        ensures
            r@ == switch_key(self.lt()),
    {
        make_switch_key(self.login_type.as_str())
    }

    // ==================== tokens ====================

    fn cut_token_prefix(&self, token: &str) -> (r: String)
        ensures
            r@ == cut_prefix(token@, self.cfg().token_prefix@),
    {
        let prefix = self.runtime.config.token_prefix.as_str();
        let pcs = chars_of(prefix);
        if pcs.len() > 0 && starts_with(token, prefix) {
            let tcs = chars_of(token);
            let n = pcs.len();
            string_of(&tcs.as_slice()[n..tcs.len()])
        } else {
            token.to_owned()
        }
    }

    /// The token of the current request: the first of the header, cookie
    /// and parameter that is read and not empty (prefix cut off); else a
    /// non-empty token in the request's storage.
    pub fn get_token_value(&self) -> (r: Option<String>)
        requires
            self.wf(),
        ensures
            match r {
                Some(t) => self.current_token() == Some(t@),
                None => self.current_token() is None,
            },
    {
        let context = &self.runtime.context;
        if !context.is_valid() {
            return None;
        }
        let name = self.runtime.config.token_name.as_str();
        if self.runtime.config.is_read_header {
            if let Some(t) = context.request.get_header(name) {
                if !t.as_str().is_empty() {
                    return Some(self.cut_token_prefix(t.as_str()));
                }
            }
        }
        if self.runtime.config.is_read_cookie {
            if let Some(t) = context.request.get_cookie_value(name) {
                if !t.as_str().is_empty() {
                    return Some(self.cut_token_prefix(t.as_str()));
                }
            }
        }
        if self.runtime.config.is_read_body {
            if let Some(t) = context.request.get_param(name) {
                if !t.as_str().is_empty() {
                    return Some(self.cut_token_prefix(t.as_str()));
                }
            }
        }
        match context.storage.get(name) {
            Some(v) => if v.as_str().is_empty() { None } else { Some(v) },
            None => None,
        }
    }

    /// Writes the token to the current request: the storage, the cookie
    /// when cookies are read, the response header when headers are written;
    /// nothing without a current request.
    fn write_token_to_context(&mut self, token_value: &str)
        requires
            old(self).wf(),
        ensures
            final(self).wf(),
            final(self).lt() == old(self).lt(),
            final(self).now_ms() == old(self).now_ms(),
            final(self).cfg() == old(self).cfg(),
            final(self).store() == old(self).store(),
            final(self).source() == old(self).source(),
            !old(self).ctx().valid ==> final(self).ctx() == old(self).ctx(),
            old(self).ctx().valid ==> {
                &&& final(self).ctx().valid
                &&& final(self).ctx().request == old(self).ctx().request
                &&& final(self).ctx().storage.view_map()
                    == old(self).ctx().storage.view_map().insert(old(self).name(), token_value@)
                &&& final(self).ctx().response.cookies_view() == (if old(self).cfg().is_read_cookie {
                    old(self).ctx().response.cookies_view().push((old(self).name(), token_value@))
                } else {
                    old(self).ctx().response.cookies_view()
                })
                &&& final(self).ctx().response.headers_view() == (if old(self).cfg().is_write_header {
                    old(self).ctx().response.headers_view().insert(old(self).name(), token_value@)
                } else {
                    old(self).ctx().response.headers_view()
                })
            },
    {
        if !self.runtime.context.is_valid() {
            return;
        }
        let name = self.runtime.config.token_name.as_str();
        self.runtime.context.storage.set(name, token_value);
        if self.runtime.config.is_read_cookie {
            let cookie = SaCookie::new(name, token_value);
            self.runtime.context.response.add_cookie(cookie);
        }
        if self.runtime.config.is_write_header {
            self.runtime.context.response.set_header(name, token_value);
        }
    }

    /// The account a token is logged in to.
    pub fn get_login_id_by_token(&self, token_value: &str) -> (r: SaResult<Option<String>>)
        requires
            self.wf(),
        ensures
            r matches Ok(o) && match o {
                Some(id) => self.owner_of(token_value@) == Some(id@),
                None => self.owner_of(token_value@) is None,
            },
    {
        let key = self.token_key(token_value);
        Ok(self.runtime.dao.get(key.as_str(), self.now_secs()))
    }

    /// The account the current request is logged in to, if any.
    pub fn get_login_id_default_null(&self) -> (r: SaResult<Option<String>>)
        requires
            self.wf(),
        ensures
            r matches Ok(o) && match o {
                Some(id) => self.current_login_id() == Some(id@),
                None => self.current_login_id() is None,
            },
    {
        let key = self.switch_key();
        if let Some(id) = self.runtime.context.storage.get(key.as_str()) {
            return Ok(Some(id));
        }
        match self.get_token_value() {
            Some(tv) => self.get_login_id_by_token(tv.as_str()),
            None => Ok(None),
        }
    }

    /// Whether the current request is logged in.
    pub fn is_login(&self) -> (r: SaResult<bool>)
        requires
            self.wf(),
        ensures
            r == Ok::<bool, SaTokenException>(self.current_login_id() is Some),
    {
        let id = self.get_login_id_default_null()?;
        Ok(id.is_some())
    }

    /// Fails with a missing-login error when the current request is not logged in.
    pub fn check_login(&self) -> (r: SaResult<()>)
        requires
            self.wf(),
        ensures
            self.current_login_id() is Some ==> r is Ok,
            self.current_login_id() is None ==> (r matches Err(e) && is_not_login(e, "未登录"@, self.lt())),
    {
        if self.is_login()? {
            Ok(())
        } else {
            Err(SaTokenException::not_login("未登录", self.login_type.as_str()))
        }
    }

    /// The account the current request acts as (see `switch_to`); a missing-login
    /// error when there is none.
    pub fn get_login_id(&self) -> (r: SaResult<String>)
        requires
            self.wf(),
        ensures
            match self.current_login_id() {
                Some(id) => r matches Ok(s) && s@ == id,
                None => r matches Err(e) && is_not_login(e, "未登录"@, self.lt()),
            },
    {
        match self.get_login_id_default_null()? {
            Some(id) => Ok(id),
            None => Err(SaTokenException::not_login("未登录", self.login_type.as_str())),
        }
    }

    // ==================== lifetimes and activity ====================

    /// Seconds left of a token: -1 forever, -2 not logged in.
    pub fn get_token_timeout_by_token(&self, token_value: &str) -> (r: SaResult<i64>)
        requires
            self.wf(),
        ensures
            r == Ok::<i64, SaTokenException>(remaining(self.store().strings, self.tkey(token_value@), self.now())),
    {
        let key = self.token_key(token_value);
        Ok(self.runtime.dao.get_timeout(key.as_str(), self.now_secs()))
    }

    /// Seconds left of the current token; -2 without one.
    pub fn get_token_timeout(&self) -> (r: SaResult<i64>)
        requires
            self.wf(),
        ensures
            r == Ok::<i64, SaTokenException>(match self.current_token() {
                Some(tv) => remaining(self.store().strings, self.tkey(tv), self.now()),
                None => -2i64,
            }),
    {
        match self.get_token_value() {
            Some(tv) => self.get_token_timeout_by_token(tv.as_str()),
            None => Ok(-2),
        }
    }

    /// Whether a login records activity: the settings or the login set an
    /// inactivity limit other than -1.
    pub open spec fn records_activity(&self, active: Option<i64>) -> bool {
        !(self.cfg().active_timeout == -1 && (match active { Some(a) => a, None => -1i64 }) == -1)
    }

    /// The store after recording now as a token's last activity, kept for
    /// `timeout` seconds, with the login's own inactivity limit when it has one.
    pub open spec fn store_with_activity(&self, tv: Seq<char>, active: Option<i64>, timeout: i64) -> DaoModel {
        if self.records_activity(active) {
            DaoModel {
                strings: self.store().strings.insert(self.akey(tv),
                    (active_text(self.now_ms(), active), expire_moment(timeout, self.now()))),
                ..self.store()
            }
        } else {
            self.store()
        }
    }

    fn set_last_active_to_now_with(&mut self, token_value: &str, active_timeout: Option<i64>, timeout: i64)
        requires
            old(self).wf(),
            fits(old(self).now(), timeout),
        ensures
            final(self).wf(),
            final(self).same_but_store(&*old(self)),
            final(self).store() == old(self).store_with_activity(token_value@, active_timeout, timeout),
    {
        let own = match active_timeout {
            Some(a) => a,
            None => -1,
        };
        if self.runtime.config.active_timeout == -1 && own == -1 {
            return;
        }
        let mut value = int_to_string(self.clock);
        match active_timeout {
            Some(a) => {
                value.append(",");
                let t = int_to_string(a);
                value.append(t.as_str());
            },
            None => {},
        }
        let key = self.last_active_key(token_value);
        let now = self.now_secs();
        self.runtime.dao.set(key.as_str(), value.as_str(), timeout, now);
    }

    fn set_last_active_to_now(&mut self, token_value: &str)
        requires
            old(self).wf(),
        ensures
            final(self).wf(),
            final(self).same_but_store(&*old(self)),
            final(self).store() == old(self).store_with_activity(token_value@, None,
                remaining(old(self).store().strings, old(self).tkey(token_value@), old(self).now())),
    {
        let timeout = match self.get_token_timeout_by_token(token_value) {
            Ok(t) => t,
            Err(_) => -2,
        };
        self.set_last_active_to_now_with(token_value, None, timeout);
    }

    /// Gives a token a new lifetime counted from now and records now as its
    /// last activity when activity is recorded.
    pub fn renew_timeout_by_token(&mut self, token_value: &str, timeout: i64) -> (r: SaResult<()>)
        requires
            old(self).wf(),
            timeout <= MAX_TIMEOUT,
        ensures
            r is Ok,
            final(self).wf(),
            final(self).same_but_store(&*old(self)),
            ({
                let mid = DaoModel {
                    strings: with_expire(old(self).store().strings, old(self).tkey(token_value@),
                        expire_moment(timeout, old(self).now())),
                    ..old(self).store()
                };
                final(self).store() == if old(self).records_activity(None) {
                    DaoModel {
                        strings: mid.strings.insert(old(self).akey(token_value@),
                            (active_text(old(self).now_ms(), None), expire_moment(
                                remaining(mid.strings, old(self).tkey(token_value@), old(self).now()), old(self).now()))),
                        ..mid
                    }
                } else {
                    mid
                }
            }),
            old(self).store().strings.contains_key(old(self).tkey(token_value@)) ==>
                remaining(final(self).store().strings, final(self).tkey(token_value@), final(self).now())
                    == (if timeout > 0 { timeout } else { -1i64 }),
    {
        proof {
            lemma_token_key_not_active_key(self.name(), self.lt(), token_value@, token_value@);
        }
        let key = self.token_key(token_value);
        let now = self.now_secs();
        self.runtime.dao.update_timeout(key.as_str(), timeout, now);
        self.set_last_active_to_now(token_value);
        Ok(())
    }

    /// Renews the current token (see [`Self::renew_timeout_by_token`]); a
    /// missing-login error without a token.
    pub fn renew_timeout(&mut self, timeout: i64) -> (r: SaResult<()>)
        requires
            old(self).wf(),
            timeout <= MAX_TIMEOUT,
        ensures
            final(self).wf(),
            final(self).same_but_store(&*old(self)),
            old(self).current_token() is None ==> (r matches Err(e) && is_not_login(e, "未提供 Token"@, old(self).lt())
                && final(self).store() == old(self).store()),
            old(self).current_token() matches Some(tv) ==> r is Ok
                && (old(self).store().strings.contains_key(old(self).tkey(tv)) ==>
                    remaining(final(self).store().strings, final(self).tkey(tv), final(self).now())
                        == (if timeout > 0 { timeout } else { -1i64 })),
    {
        match self.get_token_value() {
            Some(tv) => self.renew_timeout_by_token(tv.as_str(), timeout),
            None => Err(SaTokenException::not_login("未提供 Token", self.login_type.as_str())),
        }
    }

    /// Records now as the current token's last activity when activity is
    /// recorded; a missing-login error without a token.
    pub fn update_last_active_to_now(&mut self) -> (r: SaResult<()>)
        requires
            old(self).wf(),
        ensures
            final(self).wf(),
            final(self).same_but_store(&*old(self)),
            match old(self).current_token() {
                None => r matches Err(e) && is_not_login(e, "未提供 Token"@, old(self).lt())
                    && final(self).store() == old(self).store(),
                Some(tv) => r is Ok && final(self).store() == old(self).store_with_activity(tv, None,
                    remaining(old(self).store().strings, old(self).tkey(tv), old(self).now())),
            },
    {
        match self.get_token_value() {
            Some(tv) => {
                self.set_last_active_to_now(tv.as_str());
                Ok(())
            },
            None => Err(SaTokenException::not_login("未提供 Token", self.login_type.as_str())),
        }
    }

    /// The inactivity seconds a token has left: -1 without a limit, -2 when
    /// no activity is recorded or the limit ran out; `None` when the
    /// recorded moment is not a number.
    pub open spec fn active_left(&self, tv: Seq<char>) -> Option<i64> {
        let configured = self.cfg().active_timeout;
        if configured == -1 {
            Some(-1i64)
        } else {
            match live_value(self.store().strings, self.akey(tv), self.now()) {
                None => Some(-2i64),
                Some(v) => match spec_parse_i64(split_at_comma(v).0) {
                    None => None,
                    Some(last) => {
                        let allowed = match split_at_comma(v).1 {
                            Some(t) => match spec_parse_i64(t) {
                                Some(a) => a,
                                None => configured,
                            },
                            None => configured,
                        };
                        Some(active_seconds_left(allowed, last, self.now_ms()))
                    },
                },
            }
        }
    }

    /// The position of the first comma of a text, if any.
    fn first_comma(cs: &Vec<char>) -> (r: Option<usize>)
        ensures
            match r {
                Some(i) => is_first_comma(cs@, i as int),
                None => forall|j: int| 0 <= j < cs@.len() ==> cs@[j] != ',',
            },
    {
        let mut i: usize = 0;
        while i < cs.len()
            invariant
                i <= cs@.len(),
                forall|j: int| 0 <= j < i ==> cs@[j] != ',',
            decreases cs@.len() - i,
        {
            if cs[i] == ',' {
                return Some(i);
            }
            i += 1;
        }
        None
    }

    /// The inactivity seconds a token has left (see [`Self::active_left`]);
    /// an error when the recorded moment is not a number.
    pub fn get_token_active_timeout_by_token(&self, token_value: &str) -> (r: SaResult<i64>)
        requires
            self.wf(),
        ensures
            match self.active_left(token_value@) {
                Some(n) => r == Ok::<i64, SaTokenException>(n),
                None => r matches Err(e) && is_other(e, "最后活跃时间格式无效"@),
            },
    {
        let configured = self.runtime.config.active_timeout;
        if configured == -1 {
            return Ok(-1);
        }
        let key = self.last_active_key(token_value);
        let value = match self.runtime.dao.get(key.as_str(), self.now_secs()) {
            Some(v) => v,
            None => return Ok(-2),
        };
        let cs = chars_of(value.as_str());
        let (head, tail) = match Self::first_comma(&cs) {
            Some(i) => {
                proof {
                    let v = cs@;
                    assert(exists|k: int| is_first_comma(v, k));
                    let c = choose|k: int| is_first_comma(v, k);
                    if c < i as int {
                        assert(v[c] != ',');
                    }
                    if (i as int) < c {
                        assert(v[i as int] != ',');
                    }
                    assert(c == i as int);
                }
                assert(i < cs.len());
                let j = i + 1;
                (string_of(&cs.as_slice()[0..i]), Some(string_of(&cs.as_slice()[j..cs.len()])))
            },
            None => {
                proof {
                    let v = cs@;
                    assert(!exists|k: int| is_first_comma(v, k));
                    assert(cs@.subrange(0, cs@.len() as int) =~= v);
                }
                (string_of(&cs.as_slice()[0..cs.len()]), None)
            },
        };
        let last = match parse_i64(head.as_str()) {
            Some(n) => n,
            None => return Err(SaTokenException::other("最后活跃时间格式无效")),
        };
        let allowed = match &tail {
            Some(t) => match parse_i64(t.as_str()) {
                Some(a) => a,
                None => configured,
            },
            None => configured,
        };
        if allowed == -1 {
            return Ok(-1);
        }
        let diff: i128 = self.clock as i128 - last as i128;
        let d: i128 = if diff > i64::MAX as i128 { i64::MAX as i128 } else { diff };
        let elapsed: i128 = if d >= 0 { d / 1000 } else { -((-d) / 1000) };
        let rem: i128 = allowed as i128 - elapsed;
        if rem < 0 {
            Ok(-2)
        } else if rem > i64::MAX as i128 {
            Ok(i64::MAX)
        } else {
            Ok(rem as i64)
        }
    }

    /// The inactivity seconds the current token has left; -2 without a token.
    pub fn get_token_active_timeout(&self) -> (r: SaResult<i64>)
        requires
            self.wf(),
        ensures
            match self.current_token() {
                None => r == Ok::<i64, SaTokenException>(-2i64),
                Some(tv) => match self.active_left(tv) {
                    Some(n) => r == Ok::<i64, SaTokenException>(n),
                    None => r matches Err(e) && is_other(e, "最后活跃时间格式无效"@),
                },
            },
    {
        match self.get_token_value() {
            Some(tv) => self.get_token_active_timeout_by_token(tv.as_str()),
            None => Ok(-2),
        }
    }

    /// Fails with a missing-login error when the current token ran out of
    /// inactivity time or has no recorded activity (or there is no token).
    pub fn check_active_timeout(&self) -> (r: SaResult<()>)
        requires
            self.wf(),
        ensures
            match self.current_token() {
                None => r matches Err(e) && is_not_login(e, "Token 已被冻结"@, self.lt()),
                Some(tv) => match self.active_left(tv) {
                    Some(n) => if n == -2 {
                        r matches Err(e) && is_not_login(e, "Token 已被冻结"@, self.lt())
                    } else {
                        r is Ok
                    },
                    None => r matches Err(e) && is_other(e, "最后活跃时间格式无效"@),
                },
            },
    {
        if self.get_token_active_timeout()? == -2 {
            Err(SaTokenException::not_login("Token 已被冻结", self.login_type.as_str()))
        } else {
            Ok(())
        }
    }
    // ==================== sessions ====================

    /// A copy of the live session of an account, if any.
    fn load_session(&self, login_id: &str) -> (r: Option<SaSession>)
        requires
            self.wf(),
        ensures
            match self.session_of(login_id@) {
                Some(s) => r is Some && r->0@ == s,
                None => r is None,
            },
    {
        let key = self.session_key(login_id);
        self.runtime.dao.get_session(key.as_str(), self.now_secs())
    }

    /// The live session of an account; an error without one.
    pub fn get_session_by_login_id(&self, login_id: &str) -> (r: SaResult<SaSession>)
        requires
            self.wf(),
        ensures
            match self.session_of(login_id@) {
                Some(s) => r matches Ok(v) && v@ == s,
                None => r matches Err(e) && is_other(e, "Session 不存在"@),
            },
    {
        match self.load_session(login_id) {
            Some(s) => Ok(s),
            None => Err(SaTokenException::other("Session 不存在")),
        }
    }

    /// The tokens of the terminals of an account's live session, in order.
    pub fn get_token_value_list_by_login_id(&self, login_id: &str) -> (r: SaResult<Vec<String>>)
        requires
            self.wf(),
        ensures
            r matches Ok(v) && views(v@) == self.tokens_of_account(login_id@),
    {
        match self.load_session(login_id) {
            Some(session) => {
                let list = session.terminal_list();
                let mut out: Vec<String> = Vec::new();
                let mut i: usize = 0;
                while i < list.len()
                    invariant
                        i <= list@.len(),
                        views(out@) == tokens_of(terminal_models(list@)).subrange(0, i as int),
                    decreases list@.len() - i,
                {
                    let ghost before = out@;
                    let t = list[i].token_value().to_owned();
                    out.push(t);
                    proof {
                        assert(terminal_models(list@)[i as int] == list@[i as int]@);
                        assert(views(out@) =~= views(before).push(list@[i as int]@.token_value));
                        assert(views(out@) =~= tokens_of(terminal_models(list@)).subrange(0, i as int + 1));
                    }
                    i += 1;
                }
                assert(tokens_of(terminal_models(list@)).subrange(0, list@.len() as int)
                    =~= tokens_of(terminal_models(list@)));
                Ok(out)
            },
            None => {
                let out: Vec<String> = Vec::new();
                assert(views(out@) =~= Seq::<Seq<char>>::empty());
                Ok(out)
            },
        }
    }

    /// A new token session of a token, not yet stored.
    pub open spec fn new_token_session(&self, tv: Seq<char>, session_type: Seq<char>) -> SessionModel {
        SessionModel {
            id: self.tskey(tv),
            session_type,
            login_type: self.lt(),
            login_id: Seq::empty(),
            token: tv,
            terminals: Seq::empty(),
        }
    }

    /// The store after a token session of type `token` is made for a
    /// logged-in token: kept for the token's remaining lifetime.
    pub open spec fn store_with_token_session(&self, tv: Seq<char>) -> DaoModel {
        DaoModel {
            sessions: self.store().sessions.insert(self.tskey(tv),
                (self.new_token_session(tv, "token"@), expire_moment(
                    remaining(self.store().strings, self.tkey(tv), self.now()), self.now()))),
            ..self.store()
        }
    }

    /// A token's token session: the live one; else, when asked to create
    /// and the token is logged in, a new one of type `token` stored for the
    /// token's remaining lifetime; errors for an empty token and, when asked
    /// to create, for a token that is not logged in.
    pub fn get_token_session_by_token(&mut self, token_value: &str, is_create: bool) -> (r: SaResult<Option<SaSession>>)
        requires
            old(self).wf(),
        ensures
            final(self).wf(),
            final(self).same_but_store(&*old(self)),
            token_value@.len() == 0 ==> (r matches Err(e) && is_other(e, "Token-Session 获取失败：token 为空"@)
                && final(self).store() == old(self).store()),
            token_value@.len() > 0 ==> match old(self).token_session_of(token_value@) {
                Some(s) => r matches Ok(Some(v)) && v@ == s && final(self).store() == old(self).store(),
                None => if !is_create {
                    r matches Ok(None) && final(self).store() == old(self).store()
                } else if old(self).owner_of(token_value@) is None {
                    r matches Err(e) && is_other(e, "Token-Session 获取失败，token 无效: "@ + token_value@)
                        && final(self).store() == old(self).store()
                } else {
                    r matches Ok(Some(v)) && v@ == old(self).new_token_session(token_value@, "token"@)
                        && final(self).store() == old(self).store_with_token_session(token_value@)
                },
            },
    {
        if token_value.is_empty() {
            return Err(SaTokenException::other("Token-Session 获取失败：token 为空"));
        }
        let key = self.token_session_key(token_value);
        if let Some(session) = self.runtime.dao.get_session(key.as_str(), self.now_secs()) {
            return Ok(Some(session));
        }
        if !is_create {
            return Ok(None);
        }
        if self.get_login_id_by_token(token_value)?.is_none() {
            let mut m = String::new();
            m.append("Token-Session 获取失败，token 无效: ");
            m.append(token_value);
            return Err(SaTokenException::other(m.as_str()));
        }
        let mut session = SaSession::new(key.as_str());
        session.set_session_type("token");
        session.set_login_type(self.login_type.as_str());
        session.set_token(token_value);
        let timeout = self.get_token_timeout_by_token(token_value)?;
        let now = self.now_secs();
        self.runtime.dao.set_session(&session, timeout, now);
        proof {
            assert(sessions_keyed(self.runtime.dao@.sessions));
        }
        Ok(Some(session))
    }

    /// The current token's token session, created when needed (see
    /// [`Self::get_token_session_by_token`]); an error without a token.
    pub fn get_token_session(&mut self) -> (r: SaResult<SaSession>)
        requires
            old(self).wf(),
        ensures
            final(self).wf(),
            final(self).same_but_store(&*old(self)),
            match old(self).current_token() {
                None => r matches Err(e) && is_other(e, "Token-Session 获取失败：token 为空"@)
                    && final(self).store() == old(self).store(),
                Some(tv) => if tv.len() == 0 {
                    r matches Err(e) && is_other(e, "Token-Session 获取失败：token 为空"@)
                        && final(self).store() == old(self).store()
                } else { match old(self).token_session_of(tv) {
                    Some(s) => r matches Ok(v) && v@ == s && final(self).store() == old(self).store(),
                    None => if old(self).owner_of(tv) is None {
                        r matches Err(e) && is_other(e, "Token-Session 获取失败，token 无效: "@ + tv)
                            && final(self).store() == old(self).store()
                    } else {
                        r matches Ok(v) && v@ == old(self).new_token_session(tv, "token"@)
                            && final(self).store() == old(self).store_with_token_session(tv)
                    },
                } },
            },
    {
        let tv = match self.get_token_value() {
            Some(tv) => tv,
            None => return Err(SaTokenException::other("Token-Session 获取失败：token 为空")),
        };
        match self.get_token_session_by_token(tv.as_str(), true)? {
            Some(s) => Ok(s),
            None => Err(SaTokenException::other("Token-Session 不存在")),
        }
    }

    /// Whether the current token has a live token session or is logged in.
    pub open spec fn anon_reuses(&self) -> bool {
        match self.current_token() {
            Some(tv) => tv.len() > 0 && (self.token_session_of(tv) is Some || self.owner_of(tv) is Some),
            None => false,
        }
    }

    /// An anonymous token session: the current token's live token session;
    /// for a logged-in current token without one, its token session (see
    /// [`Self::get_token_session_by_token`]); otherwise, when asked to
    /// create, a new token with a session of type `Anon-Token-Session`
    /// stored for the global lifetime, its activity recorded (when activity
    /// is recorded) and the token written to the request.
    pub fn get_anon_token_session_create(&mut self, is_create: bool) -> (r: SaResult<Option<SaSession>>)
        requires
            old(self).wf(),
        ensures
            final(self).wf(),
            final(self).lt() == old(self).lt(),
            final(self).now_ms() == old(self).now_ms(),
            final(self).cfg() == old(self).cfg(),
            final(self).source() == old(self).source(),
            old(self).anon_reuses() ==> {
                let tv = old(self).current_token()->0;
                &&& final(self).same_but_store(&*old(self))
                &&& old(self).token_session_of(tv) matches Some(s) ==> (r matches Ok(Some(v)) && v@ == s
                    && final(self).store() == old(self).store())
                &&& old(self).token_session_of(tv) is None && !is_create ==> (r matches Ok(None)
                    && final(self).store() == old(self).store())
                &&& old(self).token_session_of(tv) is None && is_create ==> (r matches Ok(Some(v))
                    && v@ == old(self).new_token_session(tv, "token"@)
                    && final(self).store() == old(self).store_with_token_session(tv))
            },
            !old(self).anon_reuses() && !is_create ==> (r matches Ok(None) && final(self).same(&*old(self))),
            !old(self).anon_reuses() && is_create ==> (r matches Ok(Some(v)) && {
                let tv = v@.token;
                let mid = old(self).store_with_activity(tv, None,
                    remaining(old(self).store().strings, old(self).tkey(tv), old(self).now()));
                &&& token_of_style(old(self).cfg().token_style@, tv)
                &&& v@ == old(self).new_token_session(tv, "Anon-Token-Session"@)
                &&& final(self).store() == (DaoModel {
                    sessions: mid.sessions.insert(old(self).tskey(tv),
                        (v@, expire_moment(old(self).cfg().timeout, old(self).now()))),
                    ..mid
                })
                &&& final(self).ctx().valid == old(self).ctx().valid
                &&& final(self).ctx().request == old(self).ctx().request
                &&& old(self).ctx().valid ==> final(self).ctx().storage.view_map()
                    == old(self).ctx().storage.view_map().insert(old(self).name(), tv)
                &&& !old(self).ctx().valid ==> final(self).ctx() == old(self).ctx()
            }),
    {
        if let Some(tv) = self.get_token_value() {
            if !tv.as_str().is_empty() {
                if let Some(session) = self.get_token_session_by_token(tv.as_str(), false)? {
                    return Ok(Some(session));
                }
                if self.get_login_id_by_token(tv.as_str())?.is_some() {
                    return self.get_token_session_by_token(tv.as_str(), is_create);
                }
            }
        }
        if !is_create {
            return Ok(None);
        }
        let tv = create_token_value(&self.runtime.config);
        self.set_last_active_to_now(tv.as_str());
        self.write_token_to_context(tv.as_str());
        let key = self.token_session_key(tv.as_str());
        let mut session = SaSession::new(key.as_str());
        session.set_session_type("Anon-Token-Session");
        session.set_login_type(self.login_type.as_str());
        session.set_token(tv.as_str());
        let timeout = self.runtime.config.timeout;
        let now = self.now_secs();
        self.runtime.dao.set_session(&session, timeout, now);
        proof {
            assert(sessions_keyed(self.runtime.dao@.sessions));
        }
        Ok(Some(session))
    }

    /// An anonymous token session, created when needed (see
    /// [`Self::get_anon_token_session_create`]).
    pub fn get_anon_token_session(&mut self) -> (r: SaResult<SaSession>)
        requires
            old(self).wf(),
        ensures
            final(self).wf(),
            final(self).lt() == old(self).lt(),
            final(self).now_ms() == old(self).now_ms(),
            final(self).cfg() == old(self).cfg(),
            final(self).source() == old(self).source(),
            r is Ok,
            old(self).anon_reuses() ==> {
                let tv = old(self).current_token()->0;
                &&& final(self).same_but_store(&*old(self))
                &&& old(self).token_session_of(tv) matches Some(s) ==> (r matches Ok(v) && v@ == s
                    && final(self).store() == old(self).store())
                &&& old(self).token_session_of(tv) is None ==> (r matches Ok(v)
                    && v@ == old(self).new_token_session(tv, "token"@)
                    && final(self).store() == old(self).store_with_token_session(tv))
            },
            !old(self).anon_reuses() ==> (r matches Ok(v) && {
                let tv = v@.token;
                let mid = old(self).store_with_activity(tv, None,
                    remaining(old(self).store().strings, old(self).tkey(tv), old(self).now()));
                &&& token_of_style(old(self).cfg().token_style@, tv)
                &&& v@ == old(self).new_token_session(tv, "Anon-Token-Session"@)
                &&& final(self).store() == (DaoModel {
                    sessions: mid.sessions.insert(old(self).tskey(tv),
                        (v@, expire_moment(old(self).cfg().timeout, old(self).now()))),
                    ..mid
                })
                &&& final(self).ctx().valid == old(self).ctx().valid
                &&& final(self).ctx().request == old(self).ctx().request
                &&& old(self).ctx().valid ==> final(self).ctx().storage.view_map()
                    == old(self).ctx().storage.view_map().insert(old(self).name(), tv)
                &&& !old(self).ctx().valid ==> final(self).ctx() == old(self).ctx()
            }),
    {
        match self.get_anon_token_session_create(true)? {
            Some(s) => Ok(s),
            None => Err(SaTokenException::other("Anon Token-Session 不存在")),
        }
    }

    // ==================== terminals and devices ====================

    /// A copy of the terminal of a token, if it is logged in and listed.
    fn terminal_by_token(&self, token_value: &str) -> (r: Option<SaTerminalInfo>)
        requires
            self.wf(),
        ensures
            match self.terminal_of(token_value@) {
                Some(t) => r is Some && r->0@ == t,
                None => r is None,
            },
    {
        let id = match self.get_login_id_by_token(token_value) {
            Ok(Some(id)) => id,
            _ => return None,
        };
        let session = match self.load_session(id.as_str()) {
            Some(s) => s,
            None => return None,
        };
        match session.get_terminal(token_value) {
            Some(t) => Some(t.clone()),
            None => None,
        }
    }

    /// The device type of a token's terminal.
    pub fn get_login_device_type_by_token(&self, token_value: &str) -> (r: SaResult<Option<String>>)
        requires
            self.wf(),
        ensures
            r matches Ok(o) && match self.terminal_of(token_value@) {
                Some(t) => o is Some && o->0@ == t.device_type,
                None => o is None,
            },
    {
        match self.terminal_by_token(token_value) {
            Some(t) => Ok(Some(t.device_type().to_owned())),
            None => Ok(None),
        }
    }

    /// The device id of a token's terminal.
    pub fn get_login_device_id_by_token(&self, token_value: &str) -> (r: SaResult<Option<String>>)
        requires
            self.wf(),
        ensures
            r matches Ok(o) && match self.terminal_of(token_value@) {
                Some(t) => o is Some && o->0@ == t.device_id,
                None => o is None,
            },
    {
        match self.terminal_by_token(token_value) {
            Some(t) => Ok(Some(t.device_id().to_owned())),
            None => Ok(None),
        }
    }

    /// The device type of the current token's terminal.
    pub fn get_login_device_type(&self) -> (r: SaResult<String>)
        requires
            self.wf(),
        ensures
            match self.current_token() {
                Some(tv) => match self.terminal_of(tv) {
                    Some(t) => r matches Ok(s) && s@ == t.device_type,
                    None => r matches Err(e) && is_other(e, "无法获取设备类型"@),
                },
                None => r matches Err(e) && is_not_login(e, "未提供 Token"@, self.lt()),
            },
    {
        let tv = match self.get_token_value() {
            Some(tv) => tv,
            None => return Err(SaTokenException::not_login("未提供 Token", self.login_type.as_str())),
        };
        match self.get_login_device_type_by_token(tv.as_str())? {
            Some(d) => Ok(d),
            None => Err(SaTokenException::other("无法获取设备类型")),
        }
    }

    /// The device id of the current token's terminal.
    pub fn get_login_device_id(&self) -> (r: SaResult<String>)
        requires
            self.wf(),
        ensures
            match self.current_token() {
                Some(tv) => match self.terminal_of(tv) {
                    Some(t) => r matches Ok(s) && s@ == t.device_id,
                    None => r matches Err(e) && is_other(e, "无法获取设备 ID"@),
                },
                None => r matches Err(e) && is_not_login(e, "未提供 Token"@, self.lt()),
            },
    {
        let tv = match self.get_token_value() {
            Some(tv) => tv,
            None => return Err(SaTokenException::not_login("未提供 Token", self.login_type.as_str())),
        };
        match self.get_login_device_id_by_token(tv.as_str())? {
            Some(d) => Ok(d),
            None => Err(SaTokenException::other("无法获取设备 ID")),
        }
    }

    /// The terminals of an account's live session; an error without one.
    pub fn get_terminal_list_by_login_id(&self, login_id: &str) -> (r: SaResult<Vec<SaTerminalInfo>>)
        requires
            self.wf(),
        ensures
            match self.session_of(login_id@) {
                Some(s) => r matches Ok(v) && terminal_models(v@) == s.terminals,
                None => r matches Err(e) && is_other(e, "Session 不存在"@),
            },
    {
        let session = self.get_session_by_login_id(login_id)?;
        let list = session.terminal_list();
        let mut out: Vec<SaTerminalInfo> = Vec::new();
        let mut i: usize = 0;
        while i < list.len()
            invariant
                i <= list@.len(),
                terminal_models(out@) == terminal_models(list@).subrange(0, i as int),
            decreases list@.len() - i,
        {
            let ghost before = out@;
            let t = list[i].clone();
            out.push(t);
            proof {
                assert(terminal_models(list@)[i as int] == list@[i as int]@);
                assert(terminal_models(out@) =~= terminal_models(before).push(list@[i as int]@));
                assert(terminal_models(out@) =~= terminal_models(list@).subrange(0, i as int + 1));
            }
            i += 1;
        }
        assert(terminal_models(list@).subrange(0, list@.len() as int) =~= terminal_models(list@));
        Ok(out)
    }

    /// The terminal of a token; an error when it is not logged in or not listed.
    pub fn get_terminal_info_by_token(&self, token_value: &str) -> (r: SaResult<SaTerminalInfo>)
        requires
            self.wf(),
        ensures
            match self.terminal_of(token_value@) {
                Some(t) => r matches Ok(v) && v@ == t,
                None => r matches Err(e) && is_other(e, "终端不存在"@),
            },
    {
        match self.terminal_by_token(token_value) {
            Some(t) => Ok(t),
            None => Err(SaTokenException::other("终端不存在")),
        }
    }

    /// Details of the current token: its name and value, the account, the
    /// seconds left and the device type (empty when the terminal is not
    /// listed); missing-login errors without a token or when it is not
    /// logged in.
    pub fn get_token_info(&self) -> (r: SaResult<SaTokenInfo>)
        requires
            self.wf(),
        ensures
            match self.current_token() {
                None => r matches Err(e) && is_not_login(e, "未提供 Token"@, self.lt()),
                Some(tv) => match self.owner_of(tv) {
                    None => r matches Err(e) && is_not_login(e, "Token 无效"@, self.lt()),
                    Some(id) => r matches Ok(info) && {
                        &&& info.token_name@ == self.name()
                        &&& info.token_value@ == tv
                        &&& info.is_created
                        &&& info.login_id@ == id
                        &&& info.token_timeout == remaining(self.store().strings, self.tkey(tv), self.now())
                        &&& info.session_timeout == -1
                        &&& info.token_session_timeout == -1
                        &&& info.token_active_timeout == -1
                        &&& info.login_device_type@ == match self.terminal_of(tv) {
                            Some(t) => t.device_type,
                            None => Seq::<char>::empty(),
                        }
                    },
                },
            },
    {
        let tv = match self.get_token_value() {
            Some(tv) => tv,
            None => return Err(SaTokenException::not_login("未提供 Token", self.login_type.as_str())),
        };
        let id = match self.get_login_id_by_token(tv.as_str())? {
            Some(id) => id,
            None => return Err(SaTokenException::not_login("Token 无效", self.login_type.as_str())),
        };
        let mut info = SaTokenInfo::new(self.runtime.config.token_name.as_str(), tv.as_str());
        info.login_id = id;
        info.token_timeout = self.get_token_timeout_by_token(tv.as_str())?;
        info.login_device_type = match self.get_login_device_type_by_token(tv.as_str())? {
            Some(d) => d,
            None => String::new(),
        };
        Ok(info)
    }

    // ==================== logging out ====================

    /// The store after a token's state is taken out: its token and last
    /// activity keys and its token session removed, and its terminal dropped
    /// from the live session of the account it was logged in to; unchanged
    /// when it is not logged in.
    pub open spec fn store_without_token(&self, tv: Seq<char>) -> DaoModel {
        match self.owner_of(tv) {
            None => self.store(),
            Some(id) => DaoModel {
                strings: self.store().strings.remove(self.tkey(tv)).remove(self.akey(tv)),
                sessions: match self.session_of(id) {
                    Some(s) => with_value(self.store().sessions.remove(self.tskey(tv)), self.skey(id),
                        SessionModel { terminals: without_token(s.terminals, tv), ..s }),
                    None => self.store().sessions.remove(self.tskey(tv)),
                },
                ..self.store()
            },
        }
    }

    /// Takes a logged-in token's state out (see [`Self::store_without_token`]).
    fn delete_token_state(&mut self, token_value: &str, login_id: &str)
        requires
            old(self).wf(),
            old(self).owner_of(token_value@) == Some(login_id@),
        ensures
            final(self).wf(),
            final(self).same_but_store(&*old(self)),
            final(self).store() == old(self).store_without_token(token_value@),
            final(self).owner_of(token_value@) is None,
            final(self).events() == old(self).events(),
    {
        let ghost pre = self.store();
        let tkey = self.token_key(token_value);
        self.runtime.dao.delete(tkey.as_str());
        let akey = self.last_active_key(token_value);
        self.runtime.dao.delete(akey.as_str());
        let tskey = self.token_session_key(token_value);
        self.runtime.dao.delete_session(tskey.as_str());
        proof {
            lemma_session_key_not_token_session_key(old(self).name(), old(self).lt(), login_id@, token_value@);
        }
        let skey = self.session_key(login_id);
        match self.runtime.dao.get_session(skey.as_str(), self.now_secs()) {
            Some(mut session) => {
                proof {
                    assert(pre.sessions.contains_key(skey@));
                    assert(session@.id == skey@);
                }
                session.remove_terminal(token_value);
                self.runtime.dao.update_session(&session);
            },
            None => {},
        }
        proof {
            assert(self.store().strings =~= pre.strings.remove(old(self).tkey(token_value@)).remove(old(self).akey(token_value@)));
            assert(sessions_keyed(self.runtime.dao@.sessions));
        }
    }

    /// The event of a token leaving in this way: one when it is logged in,
    /// none otherwise.
    pub open spec fn removal_events_of(&self, tv: Seq<char>, kind: RemovalKind) -> Seq<EventModel> {
        match self.owner_of(tv) {
            Some(id) => seq![removal_event(kind, self.lt(), id, tv)],
            None => Seq::empty(),
        }
    }

    /// The events of the tokens of a list leaving one after another in this
    /// way: one for each token logged in when its turn comes (a token listed
    /// again has already left).
    pub open spec fn removal_seq(&self, list: Seq<Seq<char>>, kind: RemovalKind) -> Seq<EventModel>
        decreases list.len(),
    {
        if list.len() == 0 {
            Seq::empty()
        } else {
            self.removal_seq(list.drop_last(), kind) + (if list.drop_last().contains(list.last()) {
                Seq::<EventModel>::empty()
            } else {
                self.removal_events_of(list.last(), kind)
            })
        }
    }

    /// The terminals of an account after the tokens of a list were taken
    /// out one after another: those whose token is listed and was the
    /// account's own are gone.
    pub open spec fn kept_terminals(&self, id: Seq<char>, removed: Seq<Seq<char>>) -> Seq<TerminalModel> {
        self.terminals_of_account(id).filter(|t: TerminalModel| !(removed.contains(t.token_value) && self.owner_of(t.token_value) == Some(id)))
    }

    /// Taking a token out drops its terminals from its owner's session and
    /// leaves every other account's terminals as they were.
    pub proof fn lemma_terminals_without_token(&self, after: &Self, tv: Seq<char>, a: Seq<char>)
        requires
            after.same_but_store(self),
            after.store() == self.store_without_token(tv),
        ensures
            after.terminals_of_account(a) == (if self.owner_of(tv) == Some(a) {
                without_token(self.terminals_of_account(a), tv)
            } else {
                self.terminals_of_account(a)
            }),
    {
        match self.owner_of(tv) {
            None => {},
            Some(id) => {
                lemma_session_key_injective(self.name(), self.lt(), a, id);
                lemma_session_key_not_token_session_key(self.name(), self.lt(), a, tv);
                match self.session_of(id) {
                    Some(s) => {
                        lemma_session_key_not_token_session_key(self.name(), self.lt(), id, tv);
                        assert(self.store().sessions.contains_key(self.skey(id)));
                        if a == id {
                            assert(after.session_of(a) == Some(SessionModel { terminals: without_token(s.terminals, tv), ..s }));
                        } else {
                            assert(after.session_of(a) == self.session_of(a));
                        }
                    },
                    None => {
                        assert(after.session_of(a) == self.session_of(a));
                        assert(without_token(Seq::<TerminalModel>::empty(), tv) =~= Seq::<TerminalModel>::empty());
                    },
                }
            },
        }
    }

    /// Takes a token out in this way and records the event; nothing when it
    /// is not logged in.
    fn remove_token(&mut self, token_value: &str, kind: RemovalKind)
        requires
            old(self).wf(),
        ensures
            final(self).wf(),
            final(self).same_but_store(&*old(self)),
            final(self).store() == old(self).store_without_token(token_value@),
            final(self).owner_of(token_value@) is None,
            final(self).events() == old(self).events() + old(self).removal_events_of(token_value@, kind),
    {
        let id = match self.get_login_id_by_token(token_value) {
            Ok(Some(id)) => id,
            _ => {
                proof {
                    assert(old(self).removal_events_of(token_value@, kind) =~= Seq::<EventModel>::empty());
                    assert(old(self).events() + Seq::<EventModel>::empty() =~= old(self).events());
                }
                return;
            },
        };
        self.delete_token_state(token_value, id.as_str());
        let lt = self.login_type.clone();
        let tv = token_value.to_owned();
        let e = match kind {
            RemovalKind::Logout => SaTokenEvent::Logout { login_type: lt, login_id: id, token: tv },
            RemovalKind::Kickout => SaTokenEvent::Kickout { login_type: lt, login_id: id, token: tv },
            RemovalKind::Replaced => SaTokenEvent::Replaced { login_type: lt, login_id: id, token: tv },
        };
        self.record(e);
        proof {
            assert(old(self).removal_events_of(token_value@, kind) =~= seq![e@]);
        }
    }

    /// Logs a token out; nothing when it is not logged in.
    pub fn logout_by_token_value(&mut self, token_value: &str) -> (r: SaResult<()>)
        requires
            old(self).wf(),
        ensures
            r is Ok,
            final(self).wf(),
            final(self).same_but_store(&*old(self)),
            final(self).store() == old(self).store_without_token(token_value@),
            final(self).owner_of(token_value@) is None,
            final(self).events() == old(self).events() + old(self).removal_events_of(token_value@, RemovalKind::Logout),
    {
        self.remove_token(token_value, RemovalKind::Logout);
        Ok(())
    }

    /// Kicks a token out; nothing when it is not logged in.
    pub fn kickout_by_token_value(&mut self, token_value: &str) -> (r: SaResult<()>)
        requires
            old(self).wf(),
        ensures
            r is Ok,
            final(self).wf(),
            final(self).same_but_store(&*old(self)),
            final(self).store() == old(self).store_without_token(token_value@),
            final(self).owner_of(token_value@) is None,
            final(self).events() == old(self).events() + old(self).removal_events_of(token_value@, RemovalKind::Kickout),
    {
        self.remove_token(token_value, RemovalKind::Kickout);
        Ok(())
    }

    /// Logs a token out because another login replaced it; nothing when it
    /// is not logged in.
    pub fn replaced_by_token_value(&mut self, token_value: &str) -> (r: SaResult<()>)
        requires
            old(self).wf(),
        ensures
            r is Ok,
            final(self).wf(),
            final(self).same_but_store(&*old(self)),
            final(self).store() == old(self).store_without_token(token_value@),
            final(self).owner_of(token_value@) is None,
            final(self).events() == old(self).events() + old(self).removal_events_of(token_value@, RemovalKind::Replaced),
    {
        self.remove_token(token_value, RemovalKind::Replaced);
        Ok(())
    }

    /// The store lost at most the token and last activity keys and the
    /// token sessions of the tokens, and terminals of sessions; nothing else
    /// changed in it.
    pub open spec fn shrunk_by(&self, before: &Self, tokens: Seq<Seq<char>>) -> bool {
        &&& forall|k: Seq<char>| #[trigger] self.store().strings.contains_key(k)
                ==> before.store().strings.contains_key(k) && self.store().strings[k] == before.store().strings[k]
        &&& forall|k: Seq<char>| #[trigger] before.store().strings.contains_key(k)
                && (forall|j: int| 0 <= j < tokens.len() ==> k != before.tkey(tokens[j]) && k != before.akey(tokens[j]))
                ==> self.store().strings.contains_key(k)
        &&& self.store().objects == before.store().objects
        &&& forall|k: Seq<char>| #[trigger] self.store().sessions.contains_key(k)
                ==> before.store().sessions.contains_key(k) && self.store().sessions[k] == (
                    SessionModel { terminals: self.store().sessions[k].0.terminals, ..before.store().sessions[k].0 },
                    before.store().sessions[k].1)
        &&& forall|k: Seq<char>| #[trigger] before.store().sessions.contains_key(k)
                && (forall|j: int| 0 <= j < tokens.len() ==> k != before.tskey(tokens[j]))
                ==> self.store().sessions.contains_key(k)
    }

    /// Logs every one of the tokens out.
    fn remove_tokens(&mut self, tokens: &Vec<String>, kind: RemovalKind)
        requires
            old(self).wf(),
        ensures
            final(self).wf(),
            final(self).same_but_store(&*old(self)),
            final(self).shrunk_by(&*old(self), views(tokens@)),
            forall|j: int| 0 <= j < tokens@.len() ==> final(self).owner_of(#[trigger] tokens@[j]@) is None,
            final(self).events() == old(self).events() + old(self).removal_seq(views(tokens@), kind),
            forall|a: Seq<char>| #[trigger] final(self).terminals_of_account(a) == old(self).kept_terminals(a, views(tokens@)),
    {
        let mut i: usize = 0;
        assert(views(tokens@).subrange(0, 0) =~= Seq::<Seq<char>>::empty());
        assert(old(self).events() + Seq::<EventModel>::empty() =~= old(self).events());
        assert forall|a: Seq<char>| #[trigger] self.terminals_of_account(a) == old(self).kept_terminals(a, views(tokens@).subrange(0, 0)) by {
            let ts = old(self).terminals_of_account(a);
            lemma_filter_keeps_all(ts, |t: TerminalModel| !(views(tokens@).subrange(0, 0).contains(t.token_value) && old(self).owner_of(t.token_value) == Some(a)));
        }
        while i < tokens.len()
            invariant
                i <= tokens@.len(),
                self.wf(),
                self.same_but_store(&*old(self)),
                self.shrunk_by(&*old(self), views(tokens@).subrange(0, i as int)),
                forall|j: int| 0 <= j < i ==> self.owner_of(#[trigger] tokens@[j]@) is None,
                self.events() == old(self).events() + old(self).removal_seq(views(tokens@).subrange(0, i as int), kind),
                forall|a: Seq<char>| #[trigger] self.terminals_of_account(a) == old(self).kept_terminals(a, views(tokens@).subrange(0, i as int)),
            decreases tokens@.len() - i,
        {
            let ghost before = *self;
            proof {
                let t = tokens@[i as int]@;
                let prior = views(tokens@).subrange(0, i as int);
                if prior.contains(t) {
                    let j = choose|j: int| 0 <= j < prior.len() && prior[j] == t;
                    assert(tokens@[j]@ == t);
                    assert(before.owner_of(t) is None);
                } else {
                    let k = old(self).tkey(t);
                    assert forall|j: int| 0 <= j < prior.len() implies k != old(self).tkey(prior[j]) && k != old(self).akey(prior[j]) by {
                        lemma_token_key_injective(old(self).name(), old(self).lt(), t, prior[j]);
                        lemma_token_key_not_active_key(old(self).name(), old(self).lt(), t, prior[j]);
                    }
                    if old(self).store().strings.contains_key(k) {
                        assert(before.store().strings.contains_key(k));
                    } else {
                        if before.store().strings.contains_key(k) {
                            assert(old(self).store().strings.contains_key(k));
                        }
                    }
                    assert(before.owner_of(t) == old(self).owner_of(t));
                }
                assert(before.removal_events_of(t, kind) == (if prior.contains(t) { Seq::<EventModel>::empty() } else { old(self).removal_events_of(t, kind) }));
            }
            self.remove_token(tokens[i].as_str(), kind);
            proof {
                let tv = tokens@[i as int]@;
                let sub = views(tokens@).subrange(0, i as int + 1);
                assert(sub[i as int] == tv);
                assert(sub.drop_last() =~= views(tokens@).subrange(0, i as int));
                assert(sub.last() == tv);
                assert(self.events() =~= old(self).events() + old(self).removal_seq(sub, kind));
                let prior = views(tokens@).subrange(0, i as int);
                assert(prior.contains(tv) ==> before.owner_of(tv) is None) by {
                    if prior.contains(tv) {
                        let j = choose|j: int| 0 <= j < prior.len() && prior[j] == tv;
                        assert(tokens@[j]@ == tv);
                    }
                }
                assert forall|a: Seq<char>| #[trigger] self.terminals_of_account(a) == old(self).kept_terminals(a, sub) by {
                    before.lemma_terminals_without_token(&*self, tv, a);
                    let x = old(self).terminals_of_account(a);
                    let p = |t: TerminalModel| !(prior.contains(t.token_value) && old(self).owner_of(t.token_value) == Some(a));
                    let q = |t: TerminalModel| !(sub.contains(t.token_value) && old(self).owner_of(t.token_value) == Some(a));
                    assert forall|t: TerminalModel| #[trigger] sub.contains(t.token_value) == (prior.contains(t.token_value) || t.token_value == tv) by {
                        if sub.contains(t.token_value) {
                            let k = choose|k: int| 0 <= k < sub.len() && sub[k] == t.token_value;
                            if k < i {
                                assert(prior[k] == sub[k]);
                            }
                        }
                        if prior.contains(t.token_value) {
                            let k = choose|k: int| 0 <= k < prior.len() && prior[k] == t.token_value;
                            assert(sub[k] == prior[k]);
                        }
                    }
                    if before.owner_of(tv) == Some(a) {
                        lemma_without_token_filter(x, p, tv);
                        let pq = |t: TerminalModel| p(t) && t.token_value != tv;
                        assert(pq =~= q);
                    } else {
                        assert(p =~= q);
                    }
                }
                assert forall|j: int| 0 <= j < i implies self.owner_of(#[trigger] tokens@[j]@) is None by {
                    let k = self.tkey(tokens@[j]@);
                    assert(before.owner_of(tokens@[j]@) is None);
                    if self.store().strings.contains_key(k) {
                        assert(before.store().strings.contains_key(k));
                    }
                }
                assert forall|k: Seq<char>| #[trigger] old(self).store().strings.contains_key(k)
                    && (forall|j: int| 0 <= j < sub.len() ==> k != old(self).tkey(sub[j]) && k != old(self).akey(sub[j]))
                    implies self.store().strings.contains_key(k) by {
                    assert(k != old(self).tkey(sub[i as int]) && k != old(self).akey(sub[i as int]));
                    assert forall|j: int| 0 <= j < i implies k != old(self).tkey(views(tokens@).subrange(0, i as int)[j])
                        && k != old(self).akey(views(tokens@).subrange(0, i as int)[j]) by {
                        assert(views(tokens@).subrange(0, i as int)[j] == sub[j]);
                    }
                }
                assert forall|k: Seq<char>| #[trigger] old(self).store().sessions.contains_key(k)
                    && (forall|j: int| 0 <= j < sub.len() ==> k != old(self).tskey(sub[j]))
                    implies self.store().sessions.contains_key(k) by {
                    assert(k != old(self).tskey(sub[i as int]));
                    assert forall|j: int| 0 <= j < i implies k != old(self).tskey(views(tokens@).subrange(0, i as int)[j]) by {
                        assert(views(tokens@).subrange(0, i as int)[j] == sub[j]);
                    }
                    assert(before.store().sessions.contains_key(k));
                }
                assert forall|k: Seq<char>| #[trigger] self.store().sessions.contains_key(k) implies
                    old(self).store().sessions.contains_key(k) && self.store().sessions[k] == (
                    SessionModel { terminals: self.store().sessions[k].0.terminals, ..old(self).store().sessions[k].0 },
                    old(self).store().sessions[k].1) by {
                    assert(before.store().sessions.contains_key(k));
                }
            }
            i += 1;
        }
        assert(views(tokens@).subrange(0, tokens@.len() as int) =~= views(tokens@));
    }

    /// Logs every token of an account's live session out and deletes the session.
    pub fn logout_by_login_id(&mut self, login_id: &str) -> (r: SaResult<()>)
        requires
            old(self).wf(),
        ensures
            r is Ok,
            final(self).wf(),
            final(self).same_but_store(&*old(self)),
            forall|j: int| 0 <= j < old(self).tokens_of_account(login_id@).len()
                ==> final(self).owner_of(#[trigger] old(self).tokens_of_account(login_id@)[j]) is None,
            final(self).session_of(login_id@) is None,
            !final(self).store().sessions.contains_key(old(self).skey(login_id@)),
            forall|k: Seq<char>| #[trigger] final(self).store().strings.contains_key(k)
                ==> old(self).store().strings.contains_key(k) && final(self).store().strings[k] == old(self).store().strings[k],
            final(self).store().objects == old(self).store().objects,
            final(self).events() == old(self).events()
                + old(self).removal_seq(old(self).tokens_of_account(login_id@), RemovalKind::Logout),
    {
        let tokens = self.get_token_value_list_by_login_id(login_id)?;
        self.remove_tokens(&tokens, RemovalKind::Logout);
        let skey = self.session_key(login_id);
        self.runtime.dao.delete_session(skey.as_str());
        proof {
            assert forall|j: int| 0 <= j < old(self).tokens_of_account(login_id@).len()
                implies self.owner_of(#[trigger] old(self).tokens_of_account(login_id@)[j]) is None by {
                assert(views(tokens@)[j] == tokens@[j]@);
            }
            assert(sessions_keyed(self.runtime.dao@.sessions));
        }
        Ok(())
    }

    /// Kicks every token of an account's live session out.
    pub fn kickout_by_login_id(&mut self, login_id: &str) -> (r: SaResult<()>)
        requires
            old(self).wf(),
        ensures
            r is Ok,
            final(self).wf(),
            final(self).same_but_store(&*old(self)),
            final(self).shrunk_by(&*old(self), old(self).tokens_of_account(login_id@)),
            forall|j: int| 0 <= j < old(self).tokens_of_account(login_id@).len()
                ==> final(self).owner_of(#[trigger] old(self).tokens_of_account(login_id@)[j]) is None,
            final(self).events() == old(self).events()
                + old(self).removal_seq(old(self).tokens_of_account(login_id@), RemovalKind::Kickout),
    {
        let tokens = self.get_token_value_list_by_login_id(login_id)?;
        self.remove_tokens(&tokens, RemovalKind::Kickout);
        proof {
            assert forall|j: int| 0 <= j < old(self).tokens_of_account(login_id@).len()
                implies self.owner_of(#[trigger] old(self).tokens_of_account(login_id@)[j]) is None by {
                assert(views(tokens@)[j] == tokens@[j]@);
            }
        }
        Ok(())
    }

    /// Logs every token of an account's live session out because another
    /// login replaced them.
    pub fn replaced_by_login_id(&mut self, login_id: &str) -> (r: SaResult<()>)
        requires
            old(self).wf(),
        ensures
            r is Ok,
            final(self).wf(),
            final(self).same_but_store(&*old(self)),
            final(self).shrunk_by(&*old(self), old(self).tokens_of_account(login_id@)),
            forall|j: int| 0 <= j < old(self).tokens_of_account(login_id@).len()
                ==> final(self).owner_of(#[trigger] old(self).tokens_of_account(login_id@)[j]) is None,
            final(self).events() == old(self).events()
                + old(self).removal_seq(old(self).tokens_of_account(login_id@), RemovalKind::Replaced),
            final(self).terminals_of_account(login_id@) == old(self).kept_terminals(login_id@, old(self).tokens_of_account(login_id@)),
    {
        let tokens = self.get_token_value_list_by_login_id(login_id)?;
        self.remove_tokens(&tokens, RemovalKind::Replaced);
        proof {
            assert forall|j: int| 0 <= j < old(self).tokens_of_account(login_id@).len()
                implies self.owner_of(#[trigger] old(self).tokens_of_account(login_id@)[j]) is None by {
                assert(views(tokens@)[j] == tokens@[j]@);
            }
        }
        Ok(())
    }

    /// Logs the current token out (see [`Self::logout_by_token_value`]);
    /// nothing without a token.
    pub fn logout(&mut self) -> (r: SaResult<()>)
        requires
            old(self).wf(),
        ensures
            r is Ok,
            final(self).wf(),
            final(self).same_but_store(&*old(self)),
            match old(self).current_token() {
                Some(tv) => final(self).store() == old(self).store_without_token(tv),
                None => final(self).store() == old(self).store(),
            },
            final(self).token_owner() is None,
            old(self).switched_to() is None ==> final(self).current_login_id() is None,
            match old(self).current_token() {
                Some(tv) => final(self).events() == old(self).events() + old(self).removal_events_of(tv, RemovalKind::Logout),
                None => final(self).events() == old(self).events(),
            },
    {
        if let Some(tv) = self.get_token_value() {
            self.logout_by_token_value(tv.as_str())?;
        }
        Ok(())
    }

    // ==================== logging in ====================

    /// The first token of the terminals of a device type that is logged in.
    pub open spec fn reuse_token(&self, ts: Seq<TerminalModel>, device: Seq<char>) -> Option<Seq<char>>
        decreases ts.len(),
    {
        if ts.len() == 0 {
            None
        } else {
            match self.reuse_token(ts.drop_last(), device) {
                Some(t) => Some(t),
                None => if ts.last().device_type == device && self.owner_of(ts.last().token_value) is Some {
                    Some(ts.last().token_value)
                } else {
                    None
                },
            }
        }
    }

    /// The token a login gets: the chosen one; else, for shared concurrent
    /// logins, the first logged-in token of a terminal of the same device
    /// type; else a new one.
    fn dist_usable_token(&self, param: &SaLoginParameter, session: &SaSession) -> (r: String)
        requires
            self.wf(),
        ensures
            match param.token {
                Some(t) => r@ == t@,
                None => if param.concurrent_under(&self.cfg()) && param.share_under(&self.cfg())
                    && self.reuse_token(session@.terminals, param.device_type@) is Some {
                    r@ == self.reuse_token(session@.terminals, param.device_type@)->0
                } else {
                    token_of_style(self.cfg().token_style@, r@)
                },
            },
    {
        match &param.token {
            Some(t) => return t.clone(),
            None => {},
        }
        if param.get_is_concurrent(&self.runtime.config) && param.get_is_share(&self.runtime.config) {
            let list = session.terminal_list();
            let ghost ts = session@.terminals;
            let mut i: usize = 0;
            while i < list.len()
                invariant
                    self.wf(),
                    param.token is None,
                    param.concurrent_under(&self.cfg()) && param.share_under(&self.cfg()),
                    i <= list@.len(),
                    terminal_models(list@) == ts,
                    session@.terminals == ts,
                    self.reuse_token(ts.subrange(0, i as int), param.device_type@) is None,
                decreases list@.len() - i,
            {
                proof {
                    assert(ts[i as int] == list@[i as int]@);
                    assert(ts.subrange(0, i as int + 1).drop_last() =~= ts.subrange(0, i as int));
                }
                if crate::text::str_eq(list[i].device_type(), param.device_type.as_str()) {
                    let candidate = list[i].token_value();
                    let owner = match self.get_login_id_by_token(candidate) {
                        Ok(o) => o,
                        Err(_) => None,
                    };
                    if owner.is_some() {
                        let r = candidate.to_owned();
                        proof {
                            let sub = ts.subrange(0, i as int + 1);
                            assert(sub.last() == ts[i as int]);
                            assert(ts[i as int].token_value == candidate@);
                            assert(self.owner_of(candidate@) is Some);
                            assert(self.reuse_token(sub, param.device_type@) == Some(candidate@));
                            lemma_async_reuse_prefix(*self, ts, i as int + 1, param.device_type@);
                        }
                        return r;
                    }
                }
                i += 1;
            }
            assert(ts.subrange(0, ts.len() as int) =~= ts);
        }
        create_token_value(&self.runtime.config)
    }

    /// Drops the oldest terminals beyond `max` logins from the session and
    /// takes their token and last activity keys out of the store.
    fn evict_overflow(&mut self, session: &mut SaSession, id: &str, max: i32)
        requires
            old(self).wf(),
        ensures
            final(self).wf(),
            final(self).same_but_store(&*old(self)),
            final(session)@ == (SessionModel {
                terminals: without_tokens(old(session)@.terminals, overflow_tokens(old(session)@.terminals, max)),
                ..old(session)@
            }),
            final(self).store() == (DaoModel {
                strings: strings_without(old(self).store().strings, old(self).name(), old(self).lt(),
                    overflow_tokens(old(session)@.terminals, max)),
                ..old(self).store()
            }),
            final(self).events() == old(self).events()
                + logout_events(old(self).lt(), id@, overflow_tokens(old(session)@.terminals, max)),
    {
        let ghost ts = session@.terminals;
        let ghost ov = overflow_tokens(ts, max);
        let mut overflow: Vec<String> = Vec::new();
        let n = session.terminal_list().len();
        if max >= 0 && n > max as usize {
            let k = n - max as usize;
            let list = session.terminal_list();
            let mut i: usize = 0;
            while i < k
                invariant
                    k <= list@.len(),
                    k == ts.len() - max,
                    terminal_models(list@) == ts,
                    i <= k,
                    views(overflow@) == tokens_of(ts).subrange(0, i as int),
                decreases k - i,
            {
                let ghost before = overflow@;
                let t = list[i].token_value().to_owned();
                overflow.push(t);
                proof {
                    assert(ts[i as int] == list@[i as int]@);
                    assert(views(overflow@) =~= views(before).push(ts[i as int].token_value));
                    assert(views(overflow@) =~= tokens_of(ts).subrange(0, i as int + 1));
                }
                i += 1;
            }
        }
        assert(views(overflow@) =~= ov);
        let mut j: usize = 0;
        assert(logout_events(old(self).lt(), id@, ov.subrange(0, 0)) =~= Seq::<EventModel>::empty());
        assert(old(self).events() + Seq::<EventModel>::empty() =~= old(self).events());
        while j < overflow.len()
            invariant
                self.events() == old(self).events() + logout_events(old(self).lt(), id@, ov.subrange(0, j as int)),
                self.wf(),
                self.same_but_store(&*old(self)),
                j <= overflow@.len(),
                views(overflow@) == ov,
                session@ == (SessionModel {
                    terminals: without_tokens(ts, ov.subrange(0, j as int)),
                    ..old(session)@
                }),
                self.store() == (DaoModel {
                    strings: strings_without(old(self).store().strings, old(self).name(), old(self).lt(), ov.subrange(0, j as int)),
                    ..old(self).store()
                }),
            decreases overflow@.len() - j,
        {
            let t = overflow[j].as_str();
            session.remove_terminal(t);
            let tkey = self.token_key(t);
            self.runtime.dao.delete(tkey.as_str());
            let akey = self.last_active_key(t);
            self.runtime.dao.delete(akey.as_str());
            self.record(SaTokenEvent::Logout {
                login_type: self.login_type.clone(), login_id: id.to_owned(), token: overflow[j].clone() });
            proof {
                let sub = ov.subrange(0, j as int + 1);
                assert(logout_events(old(self).lt(), id@, sub) =~= logout_events(old(self).lt(), id@, ov.subrange(0, j as int))
                    .push(EventModel::Logout { login_type: old(self).lt(), login_id: id@, token: overflow@[j as int]@ }));
                assert(sub.drop_last() =~= ov.subrange(0, j as int));
                assert(sub.last() == overflow@[j as int]@);
            }
            j += 1;
        }
        assert(ov.subrange(0, ov.len() as int) =~= ov);
        assert(logout_events(old(self).lt(), id@, ov.subrange(0, ov.len() as int)) == logout_events(old(self).lt(), id@, ov));
    }

    /// Logs an account in and answers its token: replaces the account's
    /// other logins unless concurrent logins are allowed, picks the token
    /// (the chosen one, a shared one or a new one), records the terminal in
    /// the account's session, drops the oldest terminals beyond the most
    /// logins allowed, stores the token for the login's lifetime, creates
    /// its token session when configured, records its activity (when
    /// activity is recorded) and writes the token to the current request.
    #[verifier::spinoff_prover]
    #[verifier::rlimit(80)]
    pub fn login_with_param(&mut self, login_id: &str, param: &SaLoginParameter) -> (r: SaResult<String>)
        requires
            old(self).wf(),
            param.timeout <= MAX_TIMEOUT,
        ensures
            final(self).wf(),
            final(self).lt() == old(self).lt(),
            final(self).now_ms() == old(self).now_ms(),
            final(self).cfg() == old(self).cfg(),
            final(self).source() == old(self).source(),
            final(self).ctx().request == old(self).ctx().request,
            final(self).ctx().valid == old(self).ctx().valid,
            !old(self).cfg().right_now_create_token_session ==> r is Ok,
            r matches Err(e) ==> is_other(e, "Token-Session 获取失败：token 为空"@),
            r matches Ok(tv) ==> {
                &&& final(self).owner_of(tv@) == Some(login_id@)
                &&& (param.token matches Some(t) ==> tv@ == t@)
                &&& (param.token is None && param.concurrent_under(&old(self).cfg()) && param.share_under(&old(self).cfg())
                    && old(self).reuse_token(old(self).terminals_of_account(login_id@), param.device_type@) is Some)
                    ==> tv@ == old(self).reuse_token(old(self).terminals_of_account(login_id@), param.device_type@)->0
                &&& (param.token is None && !(param.concurrent_under(&old(self).cfg()) && param.share_under(&old(self).cfg())
                    && old(self).reuse_token(old(self).terminals_of_account(login_id@), param.device_type@) is Some))
                    ==> token_of_style(old(self).cfg().token_style@, tv@)
                &&& (param.max_count_under(&old(self).cfg()) < 0 || param.max_count_under(&old(self).cfg()) >= 1)
                    ==> (final(self).session_of(login_id@) matches Some(s) && s.terminals.len() > 0
                        && s.terminals.last().token_value == tv@
                        && s.terminals.last().device_type == param.device_type@
                        && s.terminals.last().device_id == param.device_id@)
                &&& !param.concurrent_under(&old(self).cfg()) ==> forall|j: int|
                    0 <= j < old(self).tokens_of_account(login_id@).len() && #[trigger] old(self).tokens_of_account(login_id@)[j] != tv@
                    ==> final(self).owner_of(old(self).tokens_of_account(login_id@)[j]) is None
                &&& exists|pre: Seq<TerminalModel>| #[trigger] old(self).login_outcome(final(self), login_id@, tv@, param_shape(*param, old(self).cfg()), pre)
                &&& old(self).records_activity(param.active_timeout) ==>
                    live_value(final(self).store().strings, final(self).akey(tv@), final(self).now())
                        == Some(active_text(old(self).now_ms(), param.active_timeout))
                &&& old(self).ctx().valid ==> final(self).ctx().storage.view_map()
                    == old(self).ctx().storage.view_map().insert(old(self).name(), tv@)
                &&& (old(self).ctx().valid && runtime_token_in_request(old(self).cfg(), old(self).ctx().request) is None
                    && tv@.len() > 0 && final(self).switched_to() is None) ==> final(self).current_login_id() == Some(login_id@)
                &&& final(self).events().len() > 0
                &&& final(self).events().last() == (EventModel::Login {
                    login_type: old(self).lt(), login_id: login_id@, token: tv@, device_type: param.device_type@ })
            },
    {
        let ghost s0 = *self;
        if !param.get_is_concurrent(&self.runtime.config) {
            self.replaced_by_login_id(login_id)?;
        }
        let ghost s1 = *self;
        assert(param.concurrent_under(&s0.cfg()) ==> s1 == s0);
        let session_key = self.session_key(login_id);
        let existing = self.load_session(login_id);
        let existed = existing.is_some();
        let mut session = match existing {
            Some(s) => s,
            None => {
                let mut s = SaSession::new(session_key.as_str());
                s.set_login_type(self.login_type.as_str());
                s.set_login_id(login_id);
                s.set_session_type("login");
                s
            },
        };
        proof {
            if existed {
                assert(s1.store().sessions.contains_key(session_key@));
            }
        }
        assert(session@.id == session_key@);
        let token_value = self.dist_usable_token(param, &session);
        let len = session.terminal_list().len();
        let index: i32 = if len < 2147483647 { len as i32 + 1 } else { 2147483647 };
        let mut terminal = SaTerminalInfo::new(index, token_value.as_str(), param.device_type.as_str());
        terminal.set_device_id(param.device_id.as_str());
        if let Some(extra) = &param.terminal_extra_data {
            terminal.set_extra_data(clone_json(extra));
        }
        let ghost new_terminal = terminal@;
        let ghost before_add = session@.terminals;
        session.add_terminal(terminal);
        let ghost ts = session@.terminals;
        proof {
            lemma_without_token(before_add, token_value@);
            assert(ts.last() == new_terminal);
            assert forall|j: int| 0 <= j < ts.len() - 1 implies #[trigger] ts[j].token_value != ts.last().token_value by {
                assert(ts[j] == without_token(before_add, token_value@)[j]);
            }
        }
        let max = param.get_max_login_count(&self.runtime.config);
        self.evict_overflow(&mut session, login_id, max);
        let ghost s2 = *self;
        proof {
            if max < 0 || max >= 1 {
                if max >= 1 {
                    lemma_overflow_excludes_last(ts, max);
                }
                lemma_without_tokens_keeps_last(ts, overflow_tokens(ts, max));
            }
            lemma_strings_without_sub(s1.store().strings, s1.name(), s1.lt(), overflow_tokens(ts, max));
        }
        let timeout = param.get_timeout(&self.runtime.config);
        let now = self.now_secs();
        if existed {
            self.runtime.dao.update_session(&session);
        } else {
            self.runtime.dao.set_session(&session, timeout, now);
        }
        let token_key = self.token_key(token_value.as_str());
        self.runtime.dao.set(token_key.as_str(), login_id, timeout, now);
        let ghost s3 = *self;
        proof {
            let pre = before_add;
            let t = login_terminal(pre.len(), token_value@, param_shape(*param, s0.cfg()));
            let ov = overflow_tokens(ts, max);
            assert(new_terminal == t);
            assert(ts =~= with_terminal(pre, t));
            assert(s3.session_of(login_id@) == Some(session@));
            assert(s3.terminals_of_account(login_id@) == login_terminals(pre, t, max));
            if existed {
                assert(pre == s1.terminals_of_account(login_id@));
            } else {
                assert(pre =~= Seq::<TerminalModel>::empty());
                assert(s1.terminals_of_account(login_id@) =~= Seq::<TerminalModel>::empty());
            }
            lemma_token_key_not_active_key(s3.name(), s3.lt(), token_value@, token_value@);
            assert(s3.owner_of(token_value@) == Some(login_id@));
            if max < 0 || max >= 1 {
                if max >= 1 {
                    lemma_overflow_excludes_last(ts, max);
                }
                lemma_without_tokens_unique_last(ts, ov);
                assert(s3.terminal_of(token_value@) == Some(t));
            }
            lemma_strings_without_removes(s1.store().strings, s1.name(), s1.lt(), ov);
            assert forall|j: int| 0 <= j < ov.len() && #[trigger] ov[j] != token_value@
                implies s3.owner_of(ov[j]) is None by {
                let tj = ov[j];
                lemma_token_key_injective(s3.name(), s3.lt(), tj, token_value@);
                assert(!s2.store().strings.contains_key(s3.tkey(tj)));
            }
            assert(s0.login_outcome(&s3, login_id@, token_value@, param_shape(*param, s0.cfg()), pre));
        }
        proof {
            assert(sessions_keyed(self.runtime.dao@.sessions));
            assert(s3.owner_of(token_value@) == Some(login_id@));
            if max < 0 || max >= 1 {
                assert(s3.session_of(login_id@) == Some(session@));
            }
            if !param.concurrent_under(&s0.cfg()) {
                assert forall|j: int| 0 <= j < s0.tokens_of_account(login_id@).len()
                    && #[trigger] s0.tokens_of_account(login_id@)[j] != token_value@
                    implies s3.owner_of(s0.tokens_of_account(login_id@)[j]) is None by {
                    let t = s0.tokens_of_account(login_id@)[j];
                    assert(s1.owner_of(t) is None);
                    lemma_token_key_injective(s3.name(), s3.lt(), t, token_value@);
                    let k = s3.tkey(t);
                    if s2.store().strings.contains_key(k) {
                        assert(s1.store().strings.contains_key(k));
                    }
                }
            }
        }
        if self.runtime.config.right_now_create_token_session {
            let _ = self.get_token_session_by_token(token_value.as_str(), true)?;
        }
        let ghost s4 = *self;
        proof {
            lemma_session_key_not_token_session_key(s3.name(), s3.lt(), login_id@, token_value@);
            assert(s4.store().strings == s3.store().strings);
            assert(s4.session_of(login_id@) == s3.session_of(login_id@));
        }
        self.set_last_active_to_now_with(token_value.as_str(), param.active_timeout, timeout);
        let ghost s5 = *self;
        proof {
            lemma_token_key_not_active_key(s5.name(), s5.lt(), token_value@, token_value@);
            assert(s5.owner_of(token_value@) == Some(login_id@));
            if !param.concurrent_under(&s0.cfg()) {
                assert forall|j: int| 0 <= j < s0.tokens_of_account(login_id@).len()
                    && #[trigger] s0.tokens_of_account(login_id@)[j] != token_value@
                    implies s5.owner_of(s0.tokens_of_account(login_id@)[j]) is None by {
                    let t = s0.tokens_of_account(login_id@)[j];
                    assert(s3.owner_of(t) is None);
                    lemma_token_key_not_active_key(s5.name(), s5.lt(), t, token_value@);
                }
            }
        }
        proof {
            let pre = before_add;
            let t = login_terminal(pre.len(), token_value@, param_shape(*param, s0.cfg()));
            let ov = overflow_tokens(with_terminal(pre, t), max);
            assert(s5.terminals_of_account(login_id@) == s3.terminals_of_account(login_id@));
            assert forall|j: int| 0 <= j < ov.len() && #[trigger] ov[j] != token_value@
                implies s5.owner_of(ov[j]) is None by {
                assert(s3.owner_of(ov[j]) is None);
                lemma_token_key_not_active_key(s5.name(), s5.lt(), ov[j], token_value@);
            }
            assert(s0.login_outcome(&s5, login_id@, token_value@, param_shape(*param, s0.cfg()), pre));
        }
        self.write_token_to_context(token_value.as_str());
        proof {
            let pre = before_add;
            assert(self.store() == s5.store());
            assert(s0.login_outcome(&*self, login_id@, token_value@, param_shape(*param, s0.cfg()), pre));
        }
        let ghost s6 = *self;
        self.record(SaTokenEvent::Login {
            login_type: self.login_type.clone(), login_id: login_id.to_owned(), token: token_value.clone(),
            device_type: param.device_type.clone() });
        proof {
            assert(self.store() == s6.store());
            assert(self.ctx() == s6.ctx());
            assert(self.terminals_of_account(login_id@) == s6.terminals_of_account(login_id@));
            assert(s0.login_outcome(&*self, login_id@, token_value@, param_shape(*param, s0.cfg()), before_add));
        }
        Ok(token_value)
    }

    /// Logs an account in with the default options (see [`Self::login_with_param`]).
    pub fn login(&mut self, login_id: &str) -> (r: SaResult<String>)
        requires
            old(self).wf(),
        ensures
            final(self).wf(),
            final(self).lt() == old(self).lt(),
            final(self).now_ms() == old(self).now_ms(),
            final(self).cfg() == old(self).cfg(),
            final(self).source() == old(self).source(),
            final(self).ctx().request == old(self).ctx().request,
            final(self).ctx().valid == old(self).ctx().valid,
            !old(self).cfg().right_now_create_token_session ==> r is Ok,
            r matches Err(e) ==> is_other(e, "Token-Session 获取失败：token 为空"@),
            r matches Ok(tv) ==> {
                &&& final(self).owner_of(tv@) == Some(login_id@)
                &&& (old(self).cfg().max_login_count < 0 || old(self).cfg().max_login_count >= 1)
                    ==> (final(self).session_of(login_id@) matches Some(s) && s.terminals.len() > 0
                        && s.terminals.last().token_value == tv@)
                &&& !old(self).cfg().is_concurrent ==> forall|j: int|
                    0 <= j < old(self).tokens_of_account(login_id@).len() && #[trigger] old(self).tokens_of_account(login_id@)[j] != tv@
                    ==> final(self).owner_of(old(self).tokens_of_account(login_id@)[j]) is None
                &&& old(self).ctx().valid ==> final(self).ctx().storage.view_map()
                    == old(self).ctx().storage.view_map().insert(old(self).name(), tv@)
                &&& (old(self).ctx().valid && runtime_token_in_request(old(self).cfg(), old(self).ctx().request) is None
                    && tv@.len() > 0 && final(self).switched_to() is None) ==> final(self).current_login_id() == Some(login_id@)
                &&& exists|pre: Seq<TerminalModel>| #[trigger] old(self).login_outcome(final(self), login_id@, tv@,
                    LoginShape { device_type: Seq::<char>::empty(), device_id: Seq::<char>::empty(), extra: None,
                        concurrent: old(self).cfg().is_concurrent, max: old(self).cfg().max_login_count }, pre)
                &&& !(old(self).cfg().is_concurrent && old(self).cfg().is_share
                    && old(self).reuse_token(old(self).terminals_of_account(login_id@), Seq::<char>::empty()) is Some)
                    ==> token_of_style(old(self).cfg().token_style@, tv@) && tv@.len() > 0
            },
    {
        let param = SaLoginParameter::default();
        let r = self.login_with_param(login_id, &param);
        proof {
            if let Ok(tv) = &r {
                if token_of_style(old(self).cfg().token_style@, tv@) {
                    lemma_styled_token_not_empty(old(self).cfg().token_style@, tv@);
                }
            }
        }
        r
    }

    // ==================== roles and permissions ====================

    /// The roles of the current account, as the source answers; a
    /// missing-login error without one.
    pub fn get_role_list(&self) -> (r: SaResult<Vec<String>>)
        requires
            self.wf(),
        ensures
            self.current_login_id() matches Some(id) ==> (r matches Ok(v) && views(v@) == self.source().roles_of(id, self.lt())),
            self.current_login_id() is None ==> (r matches Err(e) && is_not_login(e, "未登录"@, self.lt())),
    {
        let id = self.get_login_id()?;
        Ok(self.runtime.interface.get_role_list(id.as_str(), self.login_type.as_str()))
    }

    /// Whether the source lists the role for the current account (see
    /// [`list_contains`]); a missing-login error without one.
    pub fn has_role(&self, role: &str) -> (r: SaResult<bool>)
        requires
            self.wf(),
        ensures
            self.current_login_id() matches Some(id) ==> r == Ok::<bool, SaTokenException>(self.source().roles_of(id, self.lt()).contains(role@)),
            self.current_login_id() is None ==> (r matches Err(e) && is_not_login(e, "未登录"@, self.lt())),
    {
        let list = self.get_role_list()?;
        Ok(list_contains(&list, role))
    }

    /// Fails with a missing-role error unless the source lists the role
    /// for the current account.
    pub fn check_role(&self, role: &str) -> (r: SaResult<()>)
        requires
            self.wf(),
        ensures
            self.current_login_id() matches Some(id) ==> (if self.source().roles_of(id, self.lt()).contains(role@) { r is Ok } else {
                r matches Err(e) && is_not_role(e, role@, self.lt()) }),
            self.current_login_id() is None ==> (r matches Err(e) && is_not_login(e, "未登录"@, self.lt())),
    {
        if self.has_role(role)? {
            Ok(())
        } else {
            Err(SaTokenException::not_role(role, self.login_type.as_str()))
        }
    }

    /// The permissions of the current account, as the source answers; a
    /// missing-login error without one.
    pub fn get_permission_list(&self) -> (r: SaResult<Vec<String>>)
        requires
            self.wf(),
        ensures
            self.current_login_id() matches Some(id) ==> (r matches Ok(v) && views(v@) == self.source().permissions_of(id, self.lt())),
            self.current_login_id() is None ==> (r matches Err(e) && is_not_login(e, "未登录"@, self.lt())),
    {
        let id = self.get_login_id()?;
        Ok(self.runtime.interface.get_permission_list(id.as_str(), self.login_type.as_str()))
    }

    /// Whether the source lists the permission for the current account
    /// (see [`list_contains`]); a missing-login error without one.
    pub fn has_permission(&self, permission: &str) -> (r: SaResult<bool>)
        requires
            self.wf(),
        ensures
            self.current_login_id() matches Some(id) ==> r == Ok::<bool, SaTokenException>(self.source().permissions_of(id, self.lt()).contains(permission@)),
            self.current_login_id() is None ==> (r matches Err(e) && is_not_login(e, "未登录"@, self.lt())),
    {
        let list = self.get_permission_list()?;
        Ok(list_contains(&list, permission))
    }

    /// Fails with a missing-permission error unless the source lists the
    /// permission for the current account.
    pub fn check_permission(&self, permission: &str) -> (r: SaResult<()>)
        requires
            self.wf(),
        ensures
            self.current_login_id() matches Some(id) ==> (if self.source().permissions_of(id, self.lt()).contains(permission@) { r is Ok } else {
                r matches Err(e) && is_not_permission(e, permission@, self.lt()) }),
            self.current_login_id() is None ==> (r matches Err(e) && is_not_login(e, "未登录"@, self.lt())),
    {
        if self.has_permission(permission)? {
            Ok(())
        } else {
            Err(SaTokenException::not_permission(permission, self.login_type.as_str()))
        }
    }

    // ==================== bans ====================

    /// The level stored for a ban (1 when the stored text is not a number).
    pub open spec fn stored_level(&self, id: Seq<char>, service: Seq<char>) -> Option<i32> {
        match live_value(self.store().strings, self.dkey(id, service), self.now()) {
            Some(v) => Some(match spec_parse_i32(v) { Some(n) => n, None => 1i32 }),
            None => None,
        }
    }

    /// The ban level a query answers when the source reports `w`: the
    /// stored one, else the reported level; none when the report is a
    /// recordable ban that is not a well-formed request.
    pub open spec fn level_result(&self, id: Seq<char>, service: Seq<char>, w: SaDisableWrapperInfo) -> Option<i32> {
        match self.stored_level(id, service) {
            Some(l) => Some(l),
            None => {
                if records_ban(w, self.now()) && !disable_args_ok(id, service, w.disable_level) {
                    None
                } else {
                    Some(w.disable_level)
                }
            },
        }
    }

    /// The events after a ban level query when the source reports `w`: the
    /// ban is announced when it is written (see
    /// [`Self::store_after_level_query`]).
    pub open spec fn events_after_level_query(&self, id: Seq<char>, service: Seq<char>, w: SaDisableWrapperInfo) -> Seq<EventModel> {
        if self.stored_level(id, service) is None && records_ban(w, self.now()) && disable_args_ok(id, service, w.disable_level) {
            self.events().push(EventModel::Disable {
                login_type: self.lt(), login_id: id, service, level: w.disable_level, time: w.disable_time })
        } else {
            self.events()
        }
    }

    /// The store after a ban level query when the source reports `w`: a
    /// recordable ban is written when nothing is stored.
    pub open spec fn store_after_level_query(&self, id: Seq<char>, service: Seq<char>, w: SaDisableWrapperInfo) -> DaoModel {
        if self.stored_level(id, service) is None && records_ban(w, self.now()) && disable_args_ok(id, service, w.disable_level) {
            DaoModel {
                strings: self.store().strings.insert(self.dkey(id, service),
                    (int_text(w.disable_level as int), expire_moment(w.disable_time, self.now()))),
                ..self.store()
            }
        } else {
            self.store()
        }
    }

    /// Checks a ban request.
    fn validate_disable_args(&self, login_id: &str, service: &str, level: i32) -> (r: SaResult<()>)
        ensures
            disable_args_ok(login_id@, service@, level) ==> r is Ok,
            !disable_args_ok(login_id@, service@, level) ==> (r matches Err(e)
                && is_disable_args_error(e, login_id@, service@, level)),
    {
        if login_id.is_empty() {
            return Err(SaTokenException::with_code(CODE_11062, "请提供要封禁的账号"));
        }
        if service.is_empty() {
            return Err(SaTokenException::with_code(CODE_11063, "请提供要封禁的服务"));
        }
        if level < 1 && level != 0 {
            return Err(SaTokenException::with_code(CODE_11064, "封禁等级不可以小于最小值：1 (0除外)"));
        }
        Ok(())
    }

    /// Bans an account from a service at a level for `time` seconds (zero
    /// or less: forever).
    pub fn disable_level_with_service(&mut self, login_id: &str, service: &str, level: i32, time: i64) -> (r: SaResult<()>)
        requires
            old(self).wf(),
            fits(old(self).now(), time),
        ensures
            final(self).wf(),
            final(self).same_but_store(&*old(self)),
            disable_args_ok(login_id@, service@, level) ==> r is Ok && final(self).store() == (DaoModel {
                strings: old(self).store().strings.insert(old(self).dkey(login_id@, service@),
                    (int_text(level as int), expire_moment(time, old(self).now()))),
                ..old(self).store()
            }),
            !disable_args_ok(login_id@, service@, level) ==> (r matches Err(e)
                && is_disable_args_error(e, login_id@, service@, level)
                && final(self).store() == old(self).store()),
            r is Ok ==> final(self).stored_level(login_id@, service@) == Some(level),
            r is Ok ==> final(self).events() == old(self).events().push(EventModel::Disable {
                login_type: old(self).lt(), login_id: login_id@, service: service@, level, time }),
            r is Err ==> final(self).events() == old(self).events(),
    {
        proof {
            lemma_parse_int_text(level as int);
        }
        self.validate_disable_args(login_id, service, level)?;
        let key = self.disable_key(login_id, service);
        let value = int_to_string(level as i64);
        let now = self.now_secs();
        self.runtime.dao.set(key.as_str(), value.as_str(), time, now);
        self.record(SaTokenEvent::Disable {
            login_type: self.login_type.clone(), login_id: login_id.to_owned(), service: service.to_owned(), level, time });
        Ok(())
    }

    /// Bans an account from logging in at the lowest level.
    pub fn disable(&mut self, login_id: &str, time: i64) -> (r: SaResult<()>)
        requires
            old(self).wf(),
            fits(old(self).now(), time),
        ensures
            final(self).wf(),
            final(self).same_but_store(&*old(self)),
            login_id@.len() > 0 ==> r is Ok && final(self).store() == (DaoModel {
                strings: old(self).store().strings.insert(old(self).dkey(login_id@, "login"@),
                    (int_text(1), expire_moment(time, old(self).now()))),
                ..old(self).store()
            }),
            login_id@.len() == 0 ==> (r matches Err(e) && is_code(e, CODE_11062, "请提供要封禁的账号"@)
                && final(self).store() == old(self).store()),
            r is Ok ==> final(self).stored_level(login_id@, "login"@) == Some(1i32),
            r is Ok ==> final(self).events() == old(self).events().push(EventModel::Disable {
                login_type: old(self).lt(), login_id: login_id@, service: "login"@, level: 1i32, time }),
            r is Err ==> final(self).events() == old(self).events(),
    {
        proof {
            reveal_strlit("login");
        }
        self.disable_level_with_service(login_id, "login", 1, time)
    }

    /// Bans an account from a service at the lowest level.
    pub fn disable_with_service(&mut self, login_id: &str, service: &str, time: i64) -> (r: SaResult<()>)
        requires
            old(self).wf(),
            fits(old(self).now(), time),
        ensures
            final(self).wf(),
            final(self).same_but_store(&*old(self)),
            disable_args_ok(login_id@, service@, 1) ==> r is Ok && final(self).store() == (DaoModel {
                strings: old(self).store().strings.insert(old(self).dkey(login_id@, service@),
                    (int_text(1), expire_moment(time, old(self).now()))),
                ..old(self).store()
            }),
            !disable_args_ok(login_id@, service@, 1) ==> (r matches Err(e)
                && is_disable_args_error(e, login_id@, service@, 1)
                && final(self).store() == old(self).store()),
    {
        self.disable_level_with_service(login_id, service, 1, time)
    }

    /// Bans an account from logging in at a level.
    pub fn disable_level(&mut self, login_id: &str, level: i32, time: i64) -> (r: SaResult<()>)
        requires
            old(self).wf(),
            fits(old(self).now(), time),
        ensures
            final(self).wf(),
            final(self).same_but_store(&*old(self)),
            disable_args_ok(login_id@, "login"@, level) ==> r is Ok && final(self).store() == (DaoModel {
                strings: old(self).store().strings.insert(old(self).dkey(login_id@, "login"@),
                    (int_text(level as int), expire_moment(time, old(self).now()))),
                ..old(self).store()
            }),
            !disable_args_ok(login_id@, "login"@, level) ==> (r matches Err(e)
                && is_disable_args_error(e, login_id@, "login"@, level)
                && final(self).store() == old(self).store()),
            r is Ok ==> final(self).stored_level(login_id@, "login"@) == Some(level),
            r is Ok ==> final(self).events() == old(self).events().push(EventModel::Disable {
                login_type: old(self).lt(), login_id: login_id@, service: "login"@, level, time }),
            r is Err ==> final(self).events() == old(self).events(),
    {
        self.disable_level_with_service(login_id, "login", level, time)
    }

    /// Lifts an account's ban from a service.
    pub fn untie_disable_with_service(&mut self, login_id: &str, service: &str) -> (r: SaResult<()>)
        requires
            old(self).wf(),
        ensures
            final(self).wf(),
            final(self).same_but_store(&*old(self)),
            login_id@.len() == 0 ==> (r matches Err(e) && is_code(e, CODE_11062, "请提供要解禁的账号"@)
                && final(self).store() == old(self).store()),
            login_id@.len() > 0 && service@.len() == 0 ==> (r matches Err(e)
                && is_code(e, CODE_11063, "请提供要解禁的服务"@) && final(self).store() == old(self).store()),
            login_id@.len() > 0 && service@.len() > 0 ==> r is Ok && final(self).store() == (DaoModel {
                strings: old(self).store().strings.remove(old(self).dkey(login_id@, service@)),
                ..old(self).store()
            }),
            r is Ok ==> final(self).stored_level(login_id@, service@) is None,
            r is Ok ==> final(self).events() == old(self).events().push(EventModel::UntieDisable {
                login_type: old(self).lt(), login_id: login_id@, service: service@ }),
            r is Err ==> final(self).events() == old(self).events(),
    {
        if login_id.is_empty() {
            return Err(SaTokenException::with_code(CODE_11062, "请提供要解禁的账号"));
        }
        if service.is_empty() {
            return Err(SaTokenException::with_code(CODE_11063, "请提供要解禁的服务"));
        }
        let key = self.disable_key(login_id, service);
        self.runtime.dao.delete(key.as_str());
        self.record(SaTokenEvent::UntieDisable {
            login_type: self.login_type.clone(), login_id: login_id.to_owned(), service: service.to_owned() });
        Ok(())
    }

    /// Lifts an account's ban from logging in.
    pub fn untie_disable(&mut self, login_id: &str) -> (r: SaResult<()>)
        requires
            old(self).wf(),
        ensures
            final(self).wf(),
            final(self).same_but_store(&*old(self)),
            login_id@.len() == 0 ==> (r matches Err(e) && is_code(e, CODE_11062, "请提供要解禁的账号"@)
                && final(self).store() == old(self).store()),
            login_id@.len() > 0 ==> r is Ok && final(self).store() == (DaoModel {
                strings: old(self).store().strings.remove(old(self).dkey(login_id@, "login"@)),
                ..old(self).store()
            }),
            r is Ok ==> final(self).stored_level(login_id@, "login"@) is None,
            r is Ok ==> final(self).events() == old(self).events().push(EventModel::UntieDisable {
                login_type: old(self).lt(), login_id: login_id@, service: "login"@ }),
            r is Err ==> final(self).events() == old(self).events(),
    {
        proof {
            reveal_strlit("login");
        }
        self.untie_disable_with_service(login_id, "login")
    }

    /// The ban level a query answers once the source reported `w`: the
    /// stored level when there is one; else the reported level, recorded
    /// first when it is a ban that lasts (see [`Self::level_result`] and
    /// [`Self::store_after_level_query`]).
    pub fn apply_disable_report(&mut self, login_id: &str, service: &str, w: SaDisableWrapperInfo) -> (r: SaResult<i32>)
        requires
            old(self).wf(),
        ensures
            final(self).wf(),
            final(self).same_but_store(&*old(self)),
            final(self).store() == old(self).store_after_level_query(login_id@, service@, w),
            final(self).events() == old(self).events_after_level_query(login_id@, service@, w),
            match old(self).level_result(login_id@, service@, w) {
                Some(l) => r == Ok::<i32, SaTokenException>(l),
                None => r matches Err(e) && is_disable_args_error(e, login_id@, service@, w.disable_level),
            },
    {
        let key = self.disable_key(login_id, service);
        if let Some(value) = self.runtime.dao.get(key.as_str(), self.now_secs()) {
            let level = match parse_i32(value.as_str()) {
                Some(n) => n,
                None => 1,
            };
            return Ok(level);
        }
        let now = self.now_secs();
        if w.disable_time == -1 || (w.disable_time > 0 && w.disable_time <= i64::MAX - now) {
            self.disable_level_with_service(login_id, service, w.disable_level, w.disable_time)?;
            return Ok(w.disable_level);
        }
        Ok(w.disable_level)
    }

    /// An account's ban level for a service: the stored level, else the one
    /// the source reports, which is then recorded when it is a ban that
    /// lasts; -2 means not banned (see [`Self::apply_disable_report`]).
    pub fn get_disable_level_with_service(&mut self, login_id: &str, service: &str) -> (r: SaResult<i32>)
        requires
            old(self).wf(),
        ensures
            final(self).wf(),
            final(self).same_but_store(&*old(self)),
            ({
                let w = old(self).source().ban_report(login_id@, service@);
                &&& old(self).store_after_level_query(login_id@, service@, w) == final(self).store()
                &&& old(self).events_after_level_query(login_id@, service@, w) == final(self).events()
                &&& match old(self).level_result(login_id@, service@, w) {
                    Some(l) => r == Ok::<i32, SaTokenException>(l),
                    None => r matches Err(e) && is_disable_args_error(e, login_id@, service@, w.disable_level),
                }
            }),
    {
        let key = self.disable_key(login_id, service);
        if let Some(value) = self.runtime.dao.get(key.as_str(), self.now_secs()) {
            let level = match parse_i32(value.as_str()) {
                Some(n) => n,
                None => 1,
            };
            proof {
                let w = SaDisableWrapperInfo { is_disabled: false, disable_time: 0, disable_level: -2i32 };
                assert(old(self).store_after_level_query(login_id@, service@, w) == self.store());
            }
            return Ok(level);
        }
        let wrapper = self.runtime.interface.is_disabled(login_id, service);
        let r = self.apply_disable_report(login_id, service, wrapper);
        proof {
            assert(old(self).store_after_level_query(login_id@, service@, wrapper) == self.store());
        }
        r
    }

    /// An account's ban level for logging in.
    pub fn get_disable_level(&mut self, login_id: &str) -> (r: SaResult<i32>)
        requires
            old(self).wf(),
        ensures
            final(self).wf(),
            final(self).same_but_store(&*old(self)),
            ({
                let w = old(self).source().ban_report(login_id@, "login"@);
                &&& old(self).store_after_level_query(login_id@, "login"@, w) == final(self).store()
                &&& match old(self).level_result(login_id@, "login"@, w) {
                    Some(l) => r == Ok::<i32, SaTokenException>(l),
                    None => r matches Err(e) && is_disable_args_error(e, login_id@, "login"@, w.disable_level),
                }
            }),
    {
        self.get_disable_level_with_service(login_id, "login")
    }

    /// Whether an account is banned from a service at `level` or above.
    pub fn is_disable_level_with_service(&mut self, login_id: &str, service: &str, level: i32) -> (r: SaResult<bool>)
        requires
            old(self).wf(),
        ensures
            final(self).wf(),
            final(self).same_but_store(&*old(self)),
            ({
                let w = old(self).source().ban_report(login_id@, service@);
                &&& old(self).store_after_level_query(login_id@, service@, w) == final(self).store()
                &&& old(self).events_after_level_query(login_id@, service@, w) == final(self).events()
                &&& match old(self).level_result(login_id@, service@, w) {
                    Some(l) => r == Ok::<bool, SaTokenException>(l != -2 && l >= level),
                    None => r matches Err(e) && is_disable_args_error(e, login_id@, service@, w.disable_level),
                }
            }),
    {
        let disable_level = self.get_disable_level_with_service(login_id, service)?;
        if disable_level == -2 {
            return Ok(false);
        }
        Ok(disable_level >= level)
    }

    /// Whether an account is banned from logging in.
    pub fn is_disable(&mut self, login_id: &str) -> (r: SaResult<bool>)
        requires
            old(self).wf(),
        ensures
            final(self).wf(),
            final(self).same_but_store(&*old(self)),
            ({
                let w = old(self).source().ban_report(login_id@, "login"@);
                &&& old(self).store_after_level_query(login_id@, "login"@, w) == final(self).store()
                &&& match old(self).level_result(login_id@, "login"@, w) {
                    Some(l) => r == Ok::<bool, SaTokenException>(l != -2 && l >= 1),
                    None => r matches Err(e) && is_disable_args_error(e, login_id@, "login"@, w.disable_level),
                }
            }),
    {
        self.is_disable_level_with_service(login_id, "login", 1)
    }

    /// Whether an account is banned from logging in at `level` or above.
    pub fn is_disable_level(&mut self, login_id: &str, level: i32) -> (r: SaResult<bool>)
        requires
            old(self).wf(),
        ensures
            final(self).wf(),
            final(self).same_but_store(&*old(self)),
            ({
                let w = old(self).source().ban_report(login_id@, "login"@);
                &&& old(self).store_after_level_query(login_id@, "login"@, w) == final(self).store()
                &&& match old(self).level_result(login_id@, "login"@, w) {
                    Some(l) => r == Ok::<bool, SaTokenException>(l != -2 && l >= level),
                    None => r matches Err(e) && is_disable_args_error(e, login_id@, "login"@, w.disable_level),
                }
            }),
    {
        self.is_disable_level_with_service(login_id, "login", level)
    }

    /// Fails with a ban error when an account is banned from a service at
    /// `level` or above; the error carries the ban's level and seconds left.
    pub fn check_disable_level_with_service(&mut self, login_id: &str, service: &str, level: i32) -> (r: SaResult<()>)
        requires
            old(self).wf(),
        ensures
            final(self).wf(),
            final(self).same_but_store(&*old(self)),
            ({
                let w = old(self).source().ban_report(login_id@, service@);
                &&& old(self).store_after_level_query(login_id@, service@, w) == final(self).store()
                &&& old(self).events_after_level_query(login_id@, service@, w) == final(self).events()
                &&& match old(self).level_result(login_id@, service@, w) {
                    Some(l) => if l == -2 || l < level {
                        r is Ok
                    } else {
                        r matches Err(e) && is_code(e, CODE_11061, disabled_message(service@))
                    },
                    None => r matches Err(e) && is_disable_args_error(e, login_id@, service@, w.disable_level),
                }
            }),
    {
        let disable_level = self.get_disable_level_with_service(login_id, service)?;
        if disable_level == -2 {
            return Ok(());
        }
        if disable_level >= level {
            let key = self.disable_key(login_id, service);
            let disable_time = self.runtime.dao.get_timeout(key.as_str(), self.now_secs());
            return Err(SaTokenException::disable_service_level(login_id, service, disable_level, level, disable_time));
        }
        Ok(())
    }

    /// Fails when an account is banned from logging in.
    pub fn check_disable(&mut self, login_id: &str) -> (r: SaResult<()>)
        requires
            old(self).wf(),
        ensures
            final(self).wf(),
            final(self).same_but_store(&*old(self)),
            ({
                let w = old(self).source().ban_report(login_id@, "login"@);
                &&& old(self).store_after_level_query(login_id@, "login"@, w) == final(self).store()
                &&& match old(self).level_result(login_id@, "login"@, w) {
                    Some(l) => if l == -2 || l < 1 {
                        r is Ok
                    } else {
                        r matches Err(e) && is_code(e, CODE_11061, disabled_message("login"@))
                    },
                    None => r matches Err(e) && is_disable_args_error(e, login_id@, "login"@, w.disable_level),
                }
            }),
    {
        self.check_disable_level_with_service(login_id, "login", 1)
    }

    /// Fails when an account is banned from logging in at `level` or above.
    pub fn check_disable_level(&mut self, login_id: &str, level: i32) -> (r: SaResult<()>)
        requires
            old(self).wf(),
        ensures
            final(self).wf(),
            final(self).same_but_store(&*old(self)),
            ({
                let w = old(self).source().ban_report(login_id@, "login"@);
                &&& old(self).store_after_level_query(login_id@, "login"@, w) == final(self).store()
                &&& match old(self).level_result(login_id@, "login"@, w) {
                    Some(l) => if l == -2 || l < level {
                        r is Ok
                    } else {
                        r matches Err(e) && is_code(e, CODE_11061, disabled_message("login"@))
                    },
                    None => r matches Err(e) && is_disable_args_error(e, login_id@, "login"@, w.disable_level),
                }
            }),
    {
        self.check_disable_level_with_service(login_id, "login", level)
    }

    // ==================== second-level authentication ====================

    /// Whether the current token holds second-level authentication for a service.
    pub open spec fn safe_now(&self, service: Seq<char>) -> bool {
        match self.current_token() {
            Some(tv) => live_value(self.store().strings, self.sfkey(tv, service), self.now()) is Some,
            None => false,
        }
    }

    /// Grants the current token second-level authentication for a service
    /// for `safe_time` seconds (zero or less: forever); a missing-login
    /// error without a token.
    pub fn open_safe_with_service(&mut self, service: &str, safe_time: i64) -> (r: SaResult<()>)
        requires
            old(self).wf(),
            fits(old(self).now(), safe_time),
        ensures
            final(self).wf(),
            final(self).same_but_store(&*old(self)),
            match old(self).current_token() {
                Some(tv) => r is Ok && final(self).store() == (DaoModel {
                    strings: old(self).store().strings.insert(old(self).sfkey(tv, service@),
                        ("SAFE_AUTH_SAVE_VALUE"@, expire_moment(safe_time, old(self).now()))),
                    ..old(self).store()
                }),
                None => r matches Err(e) && is_not_login(e, "未提供 Token"@, old(self).lt())
                    && final(self).store() == old(self).store(),
            },
            r is Ok ==> final(self).safe_now(service@),
            match old(self).current_token() {
                Some(tv) => final(self).events() == old(self).events().push(EventModel::OpenSafe {
                    login_type: old(self).lt(), token: tv, service: service@, safe_time }),
                None => final(self).events() == old(self).events(),
            },
    {
        let tv = match self.get_token_value() {
            Some(tv) => tv,
            None => return Err(SaTokenException::not_login("未提供 Token", self.login_type.as_str())),
        };
        let key = self.safe_key(tv.as_str(), service);
        let now = self.now_secs();
        self.runtime.dao.set(key.as_str(), "SAFE_AUTH_SAVE_VALUE", safe_time, now);
        self.record(SaTokenEvent::OpenSafe {
            login_type: self.login_type.clone(), token: tv, service: service.to_owned(), safe_time });
        Ok(())
    }

    /// Grants second-level authentication for the empty service.
    pub fn open_safe(&mut self, safe_time: i64) -> (r: SaResult<()>)
        requires
            old(self).wf(),
            fits(old(self).now(), safe_time),
        ensures
            final(self).wf(),
            final(self).same_but_store(&*old(self)),
            match old(self).current_token() {
                Some(tv) => r is Ok && final(self).store() == (DaoModel {
                    strings: old(self).store().strings.insert(old(self).sfkey(tv, ""@),
                        ("SAFE_AUTH_SAVE_VALUE"@, expire_moment(safe_time, old(self).now()))),
                    ..old(self).store()
                }),
                None => r matches Err(e) && is_not_login(e, "未提供 Token"@, old(self).lt())
                    && final(self).store() == old(self).store(),
            },
            r is Ok ==> final(self).safe_now(""@),
            match old(self).current_token() {
                Some(tv) => final(self).events() == old(self).events().push(EventModel::OpenSafe {
                    login_type: old(self).lt(), token: tv, service: ""@, safe_time }),
                None => final(self).events() == old(self).events(),
            },
    {
        self.open_safe_with_service("", safe_time)
    }

    /// Whether the current token holds second-level authentication for a service.
    pub fn is_safe_with_service(&self, service: &str) -> (r: SaResult<bool>)
        requires
            self.wf(),
        ensures
            r == Ok::<bool, SaTokenException>(self.safe_now(service@)),
    {
        match self.get_token_value() {
            Some(tv) => {
                let key = self.safe_key(tv.as_str(), service);
                Ok(self.runtime.dao.get(key.as_str(), self.now_secs()).is_some())
            },
            None => Ok(false),
        }
    }

    /// Whether the current token holds second-level authentication for the empty service.
    pub fn is_safe(&self) -> (r: SaResult<bool>)
        requires
            self.wf(),
        ensures
            r == Ok::<bool, SaTokenException>(self.safe_now(""@)),
    {
        self.is_safe_with_service("")
    }

    /// Fails unless the current token holds second-level authentication for the empty service.
    pub fn check_safe(&self) -> (r: SaResult<()>)
        requires
            self.wf(),
        ensures
            self.safe_now(""@) ==> r is Ok,
            !self.safe_now(""@) ==> (r matches Err(e) && is_not_safe(e, ""@, self.lt())),
    {
        if self.is_safe()? {
            Ok(())
        } else {
            Err(SaTokenException::not_safe("", self.login_type.as_str()))
        }
    }

    /// Withdraws the current token's second-level authentication for a service.
    pub fn close_safe_with_service(&mut self, service: &str) -> (r: SaResult<()>)
        requires
            old(self).wf(),
        ensures
            r is Ok,
            final(self).wf(),
            final(self).same_but_store(&*old(self)),
            match old(self).current_token() {
                Some(tv) => final(self).store() == (DaoModel {
                    strings: old(self).store().strings.remove(old(self).sfkey(tv, service@)),
                    ..old(self).store()
                }),
                None => final(self).store() == old(self).store(),
            },
            !final(self).safe_now(service@),
            match old(self).current_token() {
                Some(tv) => final(self).events() == old(self).events().push(EventModel::CloseSafe {
                    login_type: old(self).lt(), token: tv, service: service@ }),
                None => final(self).events() == old(self).events(),
            },
    {
        if let Some(tv) = self.get_token_value() {
            let key = self.safe_key(tv.as_str(), service);
            self.runtime.dao.delete(key.as_str());
            self.record(SaTokenEvent::CloseSafe {
                login_type: self.login_type.clone(), token: tv, service: service.to_owned() });
        }
        Ok(())
    }

    /// Withdraws second-level authentication for the empty service.
    pub fn close_safe(&mut self) -> (r: SaResult<()>)
        requires
            old(self).wf(),
        ensures
            r is Ok,
            final(self).wf(),
            final(self).same_but_store(&*old(self)),
            match old(self).current_token() {
                Some(tv) => final(self).store() == (DaoModel {
                    strings: old(self).store().strings.remove(old(self).sfkey(tv, ""@)),
                    ..old(self).store()
                }),
                None => final(self).store() == old(self).store(),
            },
            !final(self).safe_now(""@),
            match old(self).current_token() {
                Some(tv) => final(self).events() == old(self).events().push(EventModel::CloseSafe {
                    login_type: old(self).lt(), token: tv, service: ""@ }),
                None => final(self).events() == old(self).events(),
            },
    {
        self.close_safe_with_service("")
    }

    // ==================== switching accounts ====================

    /// Switches the current request to act as another account; a
    /// missing-login error when the request is not logged in.
    pub fn switch_to(&mut self, login_id: &str) -> (r: SaResult<()>)
        requires
            old(self).wf(),
        ensures
            final(self).wf(),
            final(self).lt() == old(self).lt(),
            final(self).now_ms() == old(self).now_ms(),
            final(self).cfg() == old(self).cfg(),
            final(self).store() == old(self).store(),
            final(self).source() == old(self).source(),
            final(self).ctx().valid == old(self).ctx().valid,
            final(self).ctx().request == old(self).ctx().request,
            final(self).ctx().response == old(self).ctx().response,
            old(self).current_login_id() is Some ==> r is Ok && final(self).ctx().storage.view_map()
                == old(self).ctx().storage.view_map().insert(switch_key(old(self).lt()), login_id@),
            old(self).current_login_id() is None ==> (r matches Err(e) && is_not_login(e, "未登录"@, old(self).lt())
                && final(self).ctx() == old(self).ctx()),
            r is Ok ==> final(self).switched_to() == Some(login_id@),
    {
        self.check_login()?;
        let key = self.switch_key();
        self.runtime.context.storage.set(key.as_str(), login_id);
        Ok(())
    }

    /// Ends the switch.
    pub fn end_switch(&mut self)
        requires
            old(self).wf(),
        ensures
            final(self).wf(),
            final(self).lt() == old(self).lt(),
            final(self).now_ms() == old(self).now_ms(),
            final(self).cfg() == old(self).cfg(),
            final(self).store() == old(self).store(),
            final(self).source() == old(self).source(),
            final(self).ctx().valid == old(self).ctx().valid,
            final(self).ctx().request == old(self).ctx().request,
            final(self).ctx().response == old(self).ctx().response,
            final(self).ctx().storage.view_map() == old(self).ctx().storage.view_map().remove(switch_key(old(self).lt())),
            final(self).switched_to() is None,
    {
        let key = self.switch_key();
        self.runtime.context.storage.delete(key.as_str());
    }

    /// Whether the request switched to another account.
    pub fn is_switch(&self) -> (r: bool)
        requires
            self.wf(),
        ensures
            r == (self.switched_to() is Some),
    {
        let key = self.switch_key();
        self.runtime.context.storage.get(key.as_str()).is_some()
    }

    /// The account the request switched to.
    pub fn get_switch_login_id(&self) -> (r: Option<String>)
        requires
            self.wf(),
        ensures
            match self.switched_to() {
                Some(id) => r is Some && r->0@ == id,
                None => r is None,
            },
    {
        let key = self.switch_key();
        self.runtime.context.storage.get(key.as_str())
    }

}

} // verus!
