//! A facade over the rules of one account type with a runtime of its own.
use vstd::prelude::*;
use crate::dao::{DaoModel, expire_moment, fits, live_value, remaining};
use crate::exception::{SaResult, SaTokenException, CODE_11061, CODE_11062, disabled_message, is_code, is_not_login, is_other, is_not_role, is_not_permission};
use crate::num::int_text;
use crate::session::{SaSession, SaTerminalInfo, TerminalModel, terminal_models};
use crate::stp::async_logic::{AsyncSaTokenRuntime, AsyncStpLogic, active_text, runtime_token_in_request};
use crate::stp::interface::{SaDisableWrapperInfo, StpInterface};
use crate::stp::keys::{switch_key, token_of_style};
use crate::stp::logic::{EventModel, LoginShape, MAX_TIMEOUT, RemovalKind, SaTokenEvent, event_views, disable_args_ok, is_disable_args_error, param_shape};
use crate::stp::model::SaTokenInfo;
use crate::stp::parameter::SaLoginParameter;
use crate::text::views;

verus! {

/// A facade over the rules of one account type with a runtime of its own.
pub struct AsyncStpUtil<I: StpInterface> {
    logic: AsyncStpLogic<I>,
}

impl<I: StpInterface> AsyncStpUtil<I> {
    /// The rules behind the facade.
    pub closed spec fn inner(&self) -> AsyncStpLogic<I> {
        self.logic
    }

    /// A facade over rules for an account type over a runtime, with the
    /// clock at zero.
    pub fn new(login_type: &str, runtime: AsyncSaTokenRuntime<I>) -> (r: Self)
        requires
            runtime.wf(),
        ensures
            r.inner().wf(),
            r.inner().lt() == login_type@,
            r.inner().rt() == runtime,
            r.inner().now_ms() == 0,
            r.inner().events() == Seq::<EventModel>::empty(),
    {
        AsyncStpUtil { logic: AsyncStpLogic::new(login_type, runtime) }
    }

    /// The rules behind the facade.
    pub fn logic(&self) -> (r: &AsyncStpLogic<I>)
        ensures
            *r == self.inner(),
    {
        &self.logic
    }

    /// Hands over the events recorded for the listeners (see
    /// [`AsyncStpLogic::take_events`]).
    pub fn take_events(&mut self) -> (r: Vec<SaTokenEvent>)
        requires
            old(self).inner().wf(),
        ensures
            event_views(r@) == old(self).inner().events(),
            final(self).inner().events() == Seq::<EventModel>::empty(),
            final(self).inner().wf(),
            final(self).inner().same_but_store(&old(self).inner()),
            final(self).inner().store() == old(self).inner().store(),
    {
        self.logic.take_events()
    }

    /// Sets the clock reading in milliseconds (see [`AsyncStpLogic::set_clock`]).
    pub fn set_clock(&mut self, now_ms: i64)
        requires
            old(self).inner().wf(),
        ensures
            final(self).inner().wf(),
            final(self).inner().now_ms() == (if 0 <= now_ms < crate::stp::logic::CLOCK_LIMIT { now_ms } else { old(self).inner().now_ms() }),
            final(self).inner().lt() == old(self).inner().lt(),
            final(self).inner().rt() == old(self).inner().rt(),
    {
        self.logic.set_clock(now_ms)
    }

    /// Reads the clock from the system clock.
    pub fn sync_clock(&mut self)
        requires
            old(self).inner().wf(),
        ensures
            final(self).inner().wf(),
            final(self).inner().lt() == old(self).inner().lt(),
            final(self).inner().rt() == old(self).inner().rt(),
    {
        self.logic.sync_clock()
    }

    /// Logs an account in with the default options (see [`Self::login_with_param`]).
    pub fn login(&mut self, login_id: &str) -> (r: SaResult<String>)
        requires
            old(self).inner().wf(),
        ensures
            final(self).inner().wf(),
            final(self).inner().lt() == old(self).inner().lt(),
            final(self).inner().now_ms() == old(self).inner().now_ms(),
            final(self).inner().cfg() == old(self).inner().cfg(),
            final(self).inner().source() == old(self).inner().source(),
            final(self).inner().ctx().request == old(self).inner().ctx().request,
            final(self).inner().ctx().valid == old(self).inner().ctx().valid,
            !old(self).inner().cfg().right_now_create_token_session ==> r is Ok,
            r matches Err(e) ==> is_other(e, "Token-Session 获取失败：token 为空"@),
            r matches Ok(tv) ==> {
                &&& final(self).inner().owner_of(tv@) == Some(login_id@)
                &&& (old(self).inner().cfg().max_login_count < 0 || old(self).inner().cfg().max_login_count >= 1)
                    ==> (final(self).inner().session_of(login_id@) matches Some(s) && s.terminals.len() > 0
                        && s.terminals.last().token_value == tv@)
                &&& !old(self).inner().cfg().is_concurrent ==> forall|j: int|
                    0 <= j < old(self).inner().tokens_of_account(login_id@).len() && #[trigger] old(self).inner().tokens_of_account(login_id@)[j] != tv@
                    ==> final(self).inner().owner_of(old(self).inner().tokens_of_account(login_id@)[j]) is None
                &&& old(self).inner().ctx().valid ==> final(self).inner().ctx().storage.view_map()
                    == old(self).inner().ctx().storage.view_map().insert(old(self).inner().name(), tv@)
                &&& (old(self).inner().ctx().valid && runtime_token_in_request(old(self).inner().cfg(), old(self).inner().ctx().request) is None
                    && tv@.len() > 0 && final(self).inner().switched_to() is None) ==> final(self).inner().current_login_id() == Some(login_id@)
                &&& exists|pre: Seq<TerminalModel>| #[trigger] old(self).inner().login_outcome(&final(self).inner(), login_id@, tv@,
                    LoginShape { device_type: Seq::<char>::empty(), device_id: Seq::<char>::empty(), extra: None,
                        concurrent: old(self).inner().cfg().is_concurrent, max: old(self).inner().cfg().max_login_count }, pre)
                &&& !(old(self).inner().cfg().is_concurrent && old(self).inner().cfg().is_share
                    && old(self).inner().reuse_token(old(self).inner().terminals_of_account(login_id@), Seq::<char>::empty()) is Some)
                    ==> token_of_style(old(self).inner().cfg().token_style@, tv@) && tv@.len() > 0
            },
    {
        self.logic.login(login_id)
    }


    pub fn login_with_param(&mut self, login_id: &str, param: &SaLoginParameter) -> (r: SaResult<String>)
        requires
            old(self).inner().wf(),
            param.timeout <= MAX_TIMEOUT,
        ensures
            final(self).inner().wf(),
            final(self).inner().lt() == old(self).inner().lt(),
            final(self).inner().now_ms() == old(self).inner().now_ms(),
            final(self).inner().cfg() == old(self).inner().cfg(),
            final(self).inner().source() == old(self).inner().source(),
            final(self).inner().ctx().request == old(self).inner().ctx().request,
            final(self).inner().ctx().valid == old(self).inner().ctx().valid,
            !old(self).inner().cfg().right_now_create_token_session ==> r is Ok,
            r matches Err(e) ==> is_other(e, "Token-Session 获取失败：token 为空"@),
            r matches Ok(tv) ==> {
                &&& final(self).inner().owner_of(tv@) == Some(login_id@)
                &&& (param.token matches Some(t) ==> tv@ == t@)
                &&& (param.token is None && param.concurrent_under(&old(self).inner().cfg()) && param.share_under(&old(self).inner().cfg())
                    && old(self).inner().reuse_token(old(self).inner().terminals_of_account(login_id@), param.device_type@) is Some)
                    ==> tv@ == old(self).inner().reuse_token(old(self).inner().terminals_of_account(login_id@), param.device_type@)->0
                &&& (param.token is None && !(param.concurrent_under(&old(self).inner().cfg()) && param.share_under(&old(self).inner().cfg())
                    && old(self).inner().reuse_token(old(self).inner().terminals_of_account(login_id@), param.device_type@) is Some))
                    ==> token_of_style(old(self).inner().cfg().token_style@, tv@)
                &&& (param.max_count_under(&old(self).inner().cfg()) < 0 || param.max_count_under(&old(self).inner().cfg()) >= 1)
                    ==> (final(self).inner().session_of(login_id@) matches Some(s) && s.terminals.len() > 0
                        && s.terminals.last().token_value == tv@
                        && s.terminals.last().device_type == param.device_type@
                        && s.terminals.last().device_id == param.device_id@)
                &&& !param.concurrent_under(&old(self).inner().cfg()) ==> forall|j: int|
                    0 <= j < old(self).inner().tokens_of_account(login_id@).len() && #[trigger] old(self).inner().tokens_of_account(login_id@)[j] != tv@
                    ==> final(self).inner().owner_of(old(self).inner().tokens_of_account(login_id@)[j]) is None
                &&& exists|pre: Seq<TerminalModel>| #[trigger] old(self).inner().login_outcome(&final(self).inner(), login_id@, tv@, param_shape(*param, old(self).inner().cfg()), pre)
                &&& old(self).inner().records_activity(param.active_timeout) ==>
                    live_value(final(self).inner().store().strings, final(self).inner().akey(tv@), final(self).inner().now())
                        == Some(active_text(old(self).inner().now_ms(), param.active_timeout))
                &&& old(self).inner().ctx().valid ==> final(self).inner().ctx().storage.view_map()
                    == old(self).inner().ctx().storage.view_map().insert(old(self).inner().name(), tv@)
                &&& (old(self).inner().ctx().valid && runtime_token_in_request(old(self).inner().cfg(), old(self).inner().ctx().request) is None
                    && tv@.len() > 0 && final(self).inner().switched_to() is None) ==> final(self).inner().current_login_id() == Some(login_id@)
                &&& final(self).inner().events().len() > 0
                &&& final(self).inner().events().last() == (EventModel::Login {
                    login_type: old(self).inner().lt(), login_id: login_id@, token: tv@, device_type: param.device_type@ })
            },
    {
        self.logic.login_with_param(login_id, param)
    }

    /// Logs the current token out (see [`Self::logout_by_token_value`]);
    /// nothing without a token.
    pub fn logout(&mut self) -> (r: SaResult<()>)
        requires
            old(self).inner().wf(),
        ensures
            r is Ok,
            final(self).inner().wf(),
            final(self).inner().same_but_store(&old(self).inner()),
            match old(self).inner().current_token() {
                Some(tv) => final(self).inner().store() == old(self).inner().store_without_token(tv),
                None => final(self).inner().store() == old(self).inner().store(),
            },
            final(self).inner().token_owner() is None,
            old(self).inner().switched_to() is None ==> final(self).inner().current_login_id() is None,
            match old(self).inner().current_token() {
                Some(tv) => final(self).inner().events() == old(self).inner().events() + old(self).inner().removal_events_of(tv, RemovalKind::Logout),
                None => final(self).inner().events() == old(self).inner().events(),
            },
    {
        self.logic.logout()
    }

    /// Logs every token of an account's live session out and deletes the session.
    pub fn logout_by_login_id(&mut self, login_id: &str) -> (r: SaResult<()>)
        requires
            old(self).inner().wf(),
        ensures
            r is Ok,
            final(self).inner().wf(),
            final(self).inner().same_but_store(&old(self).inner()),
            forall|j: int| 0 <= j < old(self).inner().tokens_of_account(login_id@).len()
                ==> final(self).inner().owner_of(#[trigger] old(self).inner().tokens_of_account(login_id@)[j]) is None,
            final(self).inner().session_of(login_id@) is None,
            !final(self).inner().store().sessions.contains_key(old(self).inner().skey(login_id@)),
            forall|k: Seq<char>| #[trigger] final(self).inner().store().strings.contains_key(k)
                ==> old(self).inner().store().strings.contains_key(k) && final(self).inner().store().strings[k] == old(self).inner().store().strings[k],
            final(self).inner().store().objects == old(self).inner().store().objects,
            final(self).inner().events() == old(self).inner().events()
                + old(self).inner().removal_seq(old(self).inner().tokens_of_account(login_id@), RemovalKind::Logout),
    {
        self.logic.logout_by_login_id(login_id)
    }

    /// Kicks every token of an account's live session out.
    pub fn kickout_by_login_id(&mut self, login_id: &str) -> (r: SaResult<()>)
        requires
            old(self).inner().wf(),
        ensures
            r is Ok,
            final(self).inner().wf(),
            final(self).inner().same_but_store(&old(self).inner()),
            final(self).inner().shrunk_by(&old(self).inner(), old(self).inner().tokens_of_account(login_id@)),
            forall|j: int| 0 <= j < old(self).inner().tokens_of_account(login_id@).len()
                ==> final(self).inner().owner_of(#[trigger] old(self).inner().tokens_of_account(login_id@)[j]) is None,
            final(self).inner().events() == old(self).inner().events()
                + old(self).inner().removal_seq(old(self).inner().tokens_of_account(login_id@), RemovalKind::Kickout),
    {
        self.logic.kickout_by_login_id(login_id)
    }

    /// Logs every token of an account's live session out because another
    /// login replaced them.
    pub fn replaced_by_login_id(&mut self, login_id: &str) -> (r: SaResult<()>)
        requires
            old(self).inner().wf(),
        ensures
            r is Ok,
            final(self).inner().wf(),
            final(self).inner().same_but_store(&old(self).inner()),
            final(self).inner().shrunk_by(&old(self).inner(), old(self).inner().tokens_of_account(login_id@)),
            forall|j: int| 0 <= j < old(self).inner().tokens_of_account(login_id@).len()
                ==> final(self).inner().owner_of(#[trigger] old(self).inner().tokens_of_account(login_id@)[j]) is None,
            final(self).inner().events() == old(self).inner().events()
                + old(self).inner().removal_seq(old(self).inner().tokens_of_account(login_id@), RemovalKind::Replaced),
            final(self).inner().terminals_of_account(login_id@) == old(self).inner().kept_terminals(login_id@, old(self).inner().tokens_of_account(login_id@)),
    {
        self.logic.replaced_by_login_id(login_id)
    }

    /// Whether the current request is logged in.
    pub fn is_login(&self) -> (r: SaResult<bool>)
        requires
            self.inner().wf(),
        ensures
            r == Ok::<bool, SaTokenException>(self.inner().current_login_id() is Some),
    {
        self.logic.is_login()
    }

    /// The account the current request acts as (see `switch_to`); a missing-login
    /// error when there is none.
    pub fn get_login_id(&self) -> (r: SaResult<String>)
        requires
            self.inner().wf(),
        ensures
            match self.inner().current_login_id() {
                Some(id) => r matches Ok(s) && s@ == id,
                None => r matches Err(e) && is_not_login(e, "未登录"@, self.inner().lt()),
            },
    {
        self.logic.get_login_id()
    }

    /// Fails with a missing-login error when the current request is not logged in.
    pub fn check_login(&self) -> (r: SaResult<()>)
        requires
            self.inner().wf(),
        ensures
            self.inner().current_login_id() is Some ==> r is Ok,
            self.inner().current_login_id() is None ==> (r matches Err(e) && is_not_login(e, "未登录"@, self.inner().lt())),
    {
        self.logic.check_login()
    }

    /// The account a token is logged in to.
    pub fn get_login_id_by_token(&self, token_value: &str) -> (r: SaResult<Option<String>>)
        requires
            self.inner().wf(),
        ensures
            r matches Ok(o) && match o {
                Some(id) => self.inner().owner_of(token_value@) == Some(id@),
                None => self.inner().owner_of(token_value@) is None,
            },
    {
        self.logic.get_login_id_by_token(token_value)
    }

    /// The live session of an account; an error without one.
    pub fn get_session_by_login_id(&self, login_id: &str) -> (r: SaResult<SaSession>)
        requires
            self.inner().wf(),
        ensures
            match self.inner().session_of(login_id@) {
                Some(s) => r matches Ok(v) && v@ == s,
                None => r matches Err(e) && is_other(e, "Session 不存在"@),
            },
    {
        self.logic.get_session_by_login_id(login_id)
    }

    /// The current token's token session, created when needed (see
    /// [`Self::get_token_session_by_token`]); an error without a token.
    pub fn get_token_session(&mut self) -> (r: SaResult<SaSession>)
        requires
            old(self).inner().wf(),
        ensures
            final(self).inner().wf(),
            final(self).inner().same_but_store(&old(self).inner()),
            match old(self).inner().current_token() {
                None => r matches Err(e) && is_other(e, "Token-Session 获取失败：token 为空"@)
                    && final(self).inner().store() == old(self).inner().store(),
                Some(tv) => if tv.len() == 0 {
                    r matches Err(e) && is_other(e, "Token-Session 获取失败：token 为空"@)
                        && final(self).inner().store() == old(self).inner().store()
                } else { match old(self).inner().token_session_of(tv) {
                    Some(s) => r matches Ok(v) && v@ == s && final(self).inner().store() == old(self).inner().store(),
                    None => if old(self).inner().owner_of(tv) is None {
                        r matches Err(e) && is_other(e, "Token-Session 获取失败，token 无效: "@ + tv)
                            && final(self).inner().store() == old(self).inner().store()
                    } else {
                        r matches Ok(v) && v@ == old(self).inner().new_token_session(tv, "token"@)
                            && final(self).inner().store() == old(self).inner().store_with_token_session(tv)
                    },
                } },
            },
    {
        self.logic.get_token_session()
    }

    /// Details of the current token: its name and value, the account, the
    /// seconds left and the device type (empty when the terminal is not
    /// listed); missing-login errors without a token or when it is not
    /// logged in.
    pub fn get_token_info(&self) -> (r: SaResult<SaTokenInfo>)
        requires
            self.inner().wf(),
        ensures
            match self.inner().current_token() {
                None => r matches Err(e) && is_not_login(e, "未提供 Token"@, self.inner().lt()),
                Some(tv) => match self.inner().owner_of(tv) {
                    None => r matches Err(e) && is_not_login(e, "Token 无效"@, self.inner().lt()),
                    Some(id) => r matches Ok(info) && {
                        &&& info.token_name@ == self.inner().name()
                        &&& info.token_value@ == tv
                        &&& info.is_created
                        &&& info.login_id@ == id
                        &&& info.token_timeout == remaining(self.inner().store().strings, self.inner().tkey(tv), self.inner().now())
                        &&& info.session_timeout == -1
                        &&& info.token_session_timeout == -1
                        &&& info.token_active_timeout == -1
                        &&& info.login_device_type@ == match self.inner().terminal_of(tv) {
                            Some(t) => t.device_type,
                            None => Seq::<char>::empty(),
                        }
                    },
                },
            },
    {
        self.logic.get_token_info()
    }

    /// Seconds left of the current token; -2 without one.
    pub fn get_token_timeout(&self) -> (r: SaResult<i64>)
        requires
            self.inner().wf(),
        ensures
            r == Ok::<i64, SaTokenException>(match self.inner().current_token() {
                Some(tv) => remaining(self.inner().store().strings, self.inner().tkey(tv), self.inner().now()),
                None => -2i64,
            }),
    {
        self.logic.get_token_timeout()
    }

    /// Renews the current token (see [`Self::renew_timeout_by_token`]); a
    /// missing-login error without a token.
    pub fn renew_timeout(&mut self, timeout: i64) -> (r: SaResult<()>)
        requires
            old(self).inner().wf(),
            timeout <= MAX_TIMEOUT,
        ensures
            final(self).inner().wf(),
            final(self).inner().same_but_store(&old(self).inner()),
            old(self).inner().current_token() is None ==> (r matches Err(e) && is_not_login(e, "未提供 Token"@, old(self).inner().lt())
                && final(self).inner().store() == old(self).inner().store()),
            old(self).inner().current_token() matches Some(tv) ==> r is Ok
                && (old(self).inner().store().strings.contains_key(old(self).inner().tkey(tv)) ==>
                    remaining(final(self).inner().store().strings, final(self).inner().tkey(tv), final(self).inner().now())
                        == (if timeout > 0 { timeout } else { -1i64 })),
    {
        self.logic.renew_timeout(timeout)
    }

    /// The inactivity seconds the current token has left; -2 without a token.
    pub fn get_token_active_timeout(&self) -> (r: SaResult<i64>)
        requires
            self.inner().wf(),
        ensures
            match self.inner().current_token() {
                None => r == Ok::<i64, SaTokenException>(-2i64),
                Some(tv) => match self.inner().active_left(tv) {
                    Some(n) => r == Ok::<i64, SaTokenException>(n),
                    None => r matches Err(e) && is_other(e, "最后活跃时间格式无效"@),
                },
            },
    {
        self.logic.get_token_active_timeout()
    }

    /// Fails with a missing-login error when the current token ran out of
    /// inactivity time or has no recorded activity (or there is no token).
    pub fn check_active_timeout(&self) -> (r: SaResult<()>)
        requires
            self.inner().wf(),
        ensures
            match self.inner().current_token() {
                None => r matches Err(e) && is_not_login(e, "Token 已被冻结"@, self.inner().lt()),
                Some(tv) => match self.inner().active_left(tv) {
                    Some(n) => if n == -2 {
                        r matches Err(e) && is_not_login(e, "Token 已被冻结"@, self.inner().lt())
                    } else {
                        r is Ok
                    },
                    None => r matches Err(e) && is_other(e, "最后活跃时间格式无效"@),
                },
            },
    {
        self.logic.check_active_timeout()
    }

    /// Records now as the current token's last activity when activity is
    /// recorded; a missing-login error without a token.
    pub fn update_last_active_to_now(&mut self) -> (r: SaResult<()>)
        requires
            old(self).inner().wf(),
        ensures
            final(self).inner().wf(),
            final(self).inner().same_but_store(&old(self).inner()),
            match old(self).inner().current_token() {
                None => r matches Err(e) && is_not_login(e, "未提供 Token"@, old(self).inner().lt())
                    && final(self).inner().store() == old(self).inner().store(),
                Some(tv) => r is Ok && final(self).inner().store() == old(self).inner().store_with_activity(tv, None,
                    remaining(old(self).inner().store().strings, old(self).inner().tkey(tv), old(self).inner().now())),
            },
    {
        self.logic.update_last_active_to_now()
    }

    /// The tokens of the terminals of an account's live session, in order.
    pub fn get_token_value_list_by_login_id(&self, login_id: &str) -> (r: SaResult<Vec<String>>)
        requires
            self.inner().wf(),
        ensures
            r matches Ok(v) && views(v@) == self.inner().tokens_of_account(login_id@),
    {
        self.logic.get_token_value_list_by_login_id(login_id)
    }

    /// Whether the source lists the permission for the current account
    /// (see [`list_contains`]); a missing-login error without one.
    pub fn has_permission(&self, permission: &str) -> (r: SaResult<bool>)
        requires
            self.inner().wf(),
        ensures
            self.inner().current_login_id() matches Some(id) ==> r == Ok::<bool, SaTokenException>(self.inner().source().permissions_of(id, self.inner().lt()).contains(permission@)),
            self.inner().current_login_id() is None ==> (r matches Err(e) && is_not_login(e, "未登录"@, self.inner().lt())),
    {
        self.logic.has_permission(permission)
    }

    /// Fails with a missing-permission error unless the source lists the
    /// permission for the current account.
    pub fn check_permission(&self, permission: &str) -> (r: SaResult<()>)
        requires
            self.inner().wf(),
        ensures
            self.inner().current_login_id() matches Some(id) ==> (if self.inner().source().permissions_of(id, self.inner().lt()).contains(permission@) { r is Ok } else {
                r matches Err(e) && is_not_permission(e, permission@, self.inner().lt()) }),
            self.inner().current_login_id() is None ==> (r matches Err(e) && is_not_login(e, "未登录"@, self.inner().lt())),
    {
        self.logic.check_permission(permission)
    }

    /// Whether the source lists the role for the current account (see
    /// [`list_contains`]); a missing-login error without one.
    pub fn has_role(&self, role: &str) -> (r: SaResult<bool>)
        requires
            self.inner().wf(),
        ensures
            self.inner().current_login_id() matches Some(id) ==> r == Ok::<bool, SaTokenException>(self.inner().source().roles_of(id, self.inner().lt()).contains(role@)),
            self.inner().current_login_id() is None ==> (r matches Err(e) && is_not_login(e, "未登录"@, self.inner().lt())),
    {
        self.logic.has_role(role)
    }

    /// Fails with a missing-role error unless the source lists the role
    /// for the current account.
    pub fn check_role(&self, role: &str) -> (r: SaResult<()>)
        requires
            self.inner().wf(),
        ensures
            self.inner().current_login_id() matches Some(id) ==> (if self.inner().source().roles_of(id, self.inner().lt()).contains(role@) { r is Ok } else {
                r matches Err(e) && is_not_role(e, role@, self.inner().lt()) }),
            self.inner().current_login_id() is None ==> (r matches Err(e) && is_not_login(e, "未登录"@, self.inner().lt())),
    {
        self.logic.check_role(role)
    }

    /// The device type of the current token's terminal.
    pub fn get_login_device_type(&self) -> (r: SaResult<String>)
        requires
            self.inner().wf(),
        ensures
            match self.inner().current_token() {
                Some(tv) => match self.inner().terminal_of(tv) {
                    Some(t) => r matches Ok(s) && s@ == t.device_type,
                    None => r matches Err(e) && is_other(e, "无法获取设备类型"@),
                },
                None => r matches Err(e) && is_not_login(e, "未提供 Token"@, self.inner().lt()),
            },
    {
        self.logic.get_login_device_type()
    }

    /// The device id of the current token's terminal.
    pub fn get_login_device_id(&self) -> (r: SaResult<String>)
        requires
            self.inner().wf(),
        ensures
            match self.inner().current_token() {
                Some(tv) => match self.inner().terminal_of(tv) {
                    Some(t) => r matches Ok(s) && s@ == t.device_id,
                    None => r matches Err(e) && is_other(e, "无法获取设备 ID"@),
                },
                None => r matches Err(e) && is_not_login(e, "未提供 Token"@, self.inner().lt()),
            },
    {
        self.logic.get_login_device_id()
    }

    /// The terminals of an account's live session; an error without one.
    pub fn get_terminal_list_by_login_id(&self, login_id: &str) -> (r: SaResult<Vec<SaTerminalInfo>>)
        requires
            self.inner().wf(),
        ensures
            match self.inner().session_of(login_id@) {
                Some(s) => r matches Ok(v) && terminal_models(v@) == s.terminals,
                None => r matches Err(e) && is_other(e, "Session 不存在"@),
            },
    {
        self.logic.get_terminal_list_by_login_id(login_id)
    }

    /// An anonymous token session, created when needed (see
    /// [`Self::get_anon_token_session_create`]).
    pub fn get_anon_token_session(&mut self) -> (r: SaResult<SaSession>)
        requires
            old(self).inner().wf(),
        ensures
            final(self).inner().wf(),
            final(self).inner().lt() == old(self).inner().lt(),
            final(self).inner().now_ms() == old(self).inner().now_ms(),
            final(self).inner().cfg() == old(self).inner().cfg(),
            final(self).inner().source() == old(self).inner().source(),
            r is Ok,
            old(self).inner().anon_reuses() ==> {
                let tv = old(self).inner().current_token()->0;
                &&& final(self).inner().same_but_store(&old(self).inner())
                &&& old(self).inner().token_session_of(tv) matches Some(s) ==> (r matches Ok(v) && v@ == s
                    && final(self).inner().store() == old(self).inner().store())
                &&& old(self).inner().token_session_of(tv) is None ==> (r matches Ok(v)
                    && v@ == old(self).inner().new_token_session(tv, "token"@)
                    && final(self).inner().store() == old(self).inner().store_with_token_session(tv))
            },
            !old(self).inner().anon_reuses() ==> (r matches Ok(v) && {
                let tv = v@.token;
                let mid = old(self).inner().store_with_activity(tv, None,
                    remaining(old(self).inner().store().strings, old(self).inner().tkey(tv), old(self).inner().now()));
                &&& token_of_style(old(self).inner().cfg().token_style@, tv)
                &&& v@ == old(self).inner().new_token_session(tv, "Anon-Token-Session"@)
                &&& final(self).inner().store() == (DaoModel {
                    sessions: mid.sessions.insert(old(self).inner().tskey(tv),
                        (v@, expire_moment(old(self).inner().cfg().timeout, old(self).inner().now()))),
                    ..mid
                })
                &&& final(self).inner().ctx().valid == old(self).inner().ctx().valid
                &&& final(self).inner().ctx().request == old(self).inner().ctx().request
                &&& old(self).inner().ctx().valid ==> final(self).inner().ctx().storage.view_map()
                    == old(self).inner().ctx().storage.view_map().insert(old(self).inner().name(), tv)
                &&& !old(self).inner().ctx().valid ==> final(self).inner().ctx() == old(self).inner().ctx()
            }),
    {
        self.logic.get_anon_token_session()
    }

    /// Bans an account from logging in at the lowest level.
    pub fn disable(&mut self, login_id: &str, time: i64) -> (r: SaResult<()>)
        requires
            old(self).inner().wf(),
            fits(old(self).inner().now(), time),
        ensures
            final(self).inner().wf(),
            final(self).inner().same_but_store(&old(self).inner()),
            login_id@.len() > 0 ==> r is Ok && final(self).inner().store() == (DaoModel {
                strings: old(self).inner().store().strings.insert(old(self).inner().dkey(login_id@, "login"@),
                    (int_text(1), expire_moment(time, old(self).inner().now()))),
                ..old(self).inner().store()
            }),
            login_id@.len() == 0 ==> (r matches Err(e) && is_code(e, CODE_11062, "请提供要封禁的账号"@)
                && final(self).inner().store() == old(self).inner().store()),
            r is Ok ==> final(self).inner().stored_level(login_id@, "login"@) == Some(1i32),
            r is Ok ==> final(self).inner().events() == old(self).inner().events().push(EventModel::Disable {
                login_type: old(self).inner().lt(), login_id: login_id@, service: "login"@, level: 1i32, time }),
            r is Err ==> final(self).inner().events() == old(self).inner().events(),
    {
        self.logic.disable(login_id, time)
    }

    /// Lifts an account's ban from logging in.
    pub fn untie_disable(&mut self, login_id: &str) -> (r: SaResult<()>)
        requires
            old(self).inner().wf(),
        ensures
            final(self).inner().wf(),
            final(self).inner().same_but_store(&old(self).inner()),
            login_id@.len() == 0 ==> (r matches Err(e) && is_code(e, CODE_11062, "请提供要解禁的账号"@)
                && final(self).inner().store() == old(self).inner().store()),
            login_id@.len() > 0 ==> r is Ok && final(self).inner().store() == (DaoModel {
                strings: old(self).inner().store().strings.remove(old(self).inner().dkey(login_id@, "login"@)),
                ..old(self).inner().store()
            }),
            r is Ok ==> final(self).inner().stored_level(login_id@, "login"@) is None,
            r is Ok ==> final(self).inner().events() == old(self).inner().events().push(EventModel::UntieDisable {
                login_type: old(self).inner().lt(), login_id: login_id@, service: "login"@ }),
            r is Err ==> final(self).inner().events() == old(self).inner().events(),
    {
        self.logic.untie_disable(login_id)
    }

    /// Whether an account is banned from logging in.
    pub fn is_disable(&mut self, login_id: &str) -> (r: SaResult<bool>)
        requires
            old(self).inner().wf(),
        ensures
            final(self).inner().wf(),
            final(self).inner().same_but_store(&old(self).inner()),
            ({
                let w = old(self).inner().source().ban_report(login_id@, "login"@);
                &&& old(self).inner().store_after_level_query(login_id@, "login"@, w) == final(self).inner().store()
                &&& match old(self).inner().level_result(login_id@, "login"@, w) {
                    Some(l) => r == Ok::<bool, SaTokenException>(l != -2 && l >= 1),
                    None => r matches Err(e) && is_disable_args_error(e, login_id@, "login"@, w.disable_level),
                }
            }),
    {
        self.logic.is_disable(login_id)
    }

    /// Fails when an account is banned from logging in.
    pub fn check_disable(&mut self, login_id: &str) -> (r: SaResult<()>)
        requires
            old(self).inner().wf(),
        ensures
            final(self).inner().wf(),
            final(self).inner().same_but_store(&old(self).inner()),
            ({
                let w = old(self).inner().source().ban_report(login_id@, "login"@);
                &&& old(self).inner().store_after_level_query(login_id@, "login"@, w) == final(self).inner().store()
                &&& match old(self).inner().level_result(login_id@, "login"@, w) {
                    Some(l) => if l == -2 || l < 1 {
                        r is Ok
                    } else {
                        r matches Err(e) && is_code(e, CODE_11061, disabled_message("login"@))
                    },
                    None => r matches Err(e) && is_disable_args_error(e, login_id@, "login"@, w.disable_level),
                }
            }),
    {
        self.logic.check_disable(login_id)
    }

    /// Bans an account from logging in at a level.
    pub fn disable_level(&mut self, login_id: &str, level: i32, time: i64) -> (r: SaResult<()>)
        requires
            old(self).inner().wf(),
            fits(old(self).inner().now(), time),
        ensures
            final(self).inner().wf(),
            final(self).inner().same_but_store(&old(self).inner()),
            disable_args_ok(login_id@, "login"@, level) ==> r is Ok && final(self).inner().store() == (DaoModel {
                strings: old(self).inner().store().strings.insert(old(self).inner().dkey(login_id@, "login"@),
                    (int_text(level as int), expire_moment(time, old(self).inner().now()))),
                ..old(self).inner().store()
            }),
            !disable_args_ok(login_id@, "login"@, level) ==> (r matches Err(e)
                && is_disable_args_error(e, login_id@, "login"@, level)
                && final(self).inner().store() == old(self).inner().store()),
            r is Ok ==> final(self).inner().stored_level(login_id@, "login"@) == Some(level),
            r is Ok ==> final(self).inner().events() == old(self).inner().events().push(EventModel::Disable {
                login_type: old(self).inner().lt(), login_id: login_id@, service: "login"@, level, time }),
            r is Err ==> final(self).inner().events() == old(self).inner().events(),
    {
        self.logic.disable_level(login_id, level, time)
    }

    /// An account's ban level for logging in.
    pub fn get_disable_level(&mut self, login_id: &str) -> (r: SaResult<i32>)
        requires
            old(self).inner().wf(),
        ensures
            final(self).inner().wf(),
            final(self).inner().same_but_store(&old(self).inner()),
            ({
                let w = old(self).inner().source().ban_report(login_id@, "login"@);
                &&& old(self).inner().store_after_level_query(login_id@, "login"@, w) == final(self).inner().store()
                &&& match old(self).inner().level_result(login_id@, "login"@, w) {
                    Some(l) => r == Ok::<i32, SaTokenException>(l),
                    None => r matches Err(e) && is_disable_args_error(e, login_id@, "login"@, w.disable_level),
                }
            }),
    {
        self.logic.get_disable_level(login_id)
    }

    /// Whether an account is banned from logging in at `level` or above.
    pub fn is_disable_level(&mut self, login_id: &str, level: i32) -> (r: SaResult<bool>)
        requires
            old(self).inner().wf(),
        ensures
            final(self).inner().wf(),
            final(self).inner().same_but_store(&old(self).inner()),
            ({
                let w = old(self).inner().source().ban_report(login_id@, "login"@);
                &&& old(self).inner().store_after_level_query(login_id@, "login"@, w) == final(self).inner().store()
                &&& match old(self).inner().level_result(login_id@, "login"@, w) {
                    Some(l) => r == Ok::<bool, SaTokenException>(l != -2 && l >= level),
                    None => r matches Err(e) && is_disable_args_error(e, login_id@, "login"@, w.disable_level),
                }
            }),
    {
        self.logic.is_disable_level(login_id, level)
    }

    /// Fails when an account is banned from logging in at `level` or above.
    pub fn check_disable_level(&mut self, login_id: &str, level: i32) -> (r: SaResult<()>)
        requires
            old(self).inner().wf(),
        ensures
            final(self).inner().wf(),
            final(self).inner().same_but_store(&old(self).inner()),
            ({
                let w = old(self).inner().source().ban_report(login_id@, "login"@);
                &&& old(self).inner().store_after_level_query(login_id@, "login"@, w) == final(self).inner().store()
                &&& match old(self).inner().level_result(login_id@, "login"@, w) {
                    Some(l) => if l == -2 || l < level {
                        r is Ok
                    } else {
                        r matches Err(e) && is_code(e, CODE_11061, disabled_message("login"@))
                    },
                    None => r matches Err(e) && is_disable_args_error(e, login_id@, "login"@, w.disable_level),
                }
            }),
    {
        self.logic.check_disable_level(login_id, level)
    }

    /// Grants second-level authentication for the empty service.
    pub fn open_safe(&mut self, safe_time: i64) -> (r: SaResult<()>)
        requires
            old(self).inner().wf(),
            fits(old(self).inner().now(), safe_time),
        ensures
            final(self).inner().wf(),
            final(self).inner().same_but_store(&old(self).inner()),
            match old(self).inner().current_token() {
                Some(tv) => r is Ok && final(self).inner().store() == (DaoModel {
                    strings: old(self).inner().store().strings.insert(old(self).inner().sfkey(tv, ""@),
                        ("SAFE_AUTH_SAVE_VALUE"@, expire_moment(safe_time, old(self).inner().now()))),
                    ..old(self).inner().store()
                }),
                None => r matches Err(e) && is_not_login(e, "未提供 Token"@, old(self).inner().lt())
                    && final(self).inner().store() == old(self).inner().store(),
            },
            r is Ok ==> final(self).inner().safe_now(""@),
            match old(self).inner().current_token() {
                Some(tv) => final(self).inner().events() == old(self).inner().events().push(EventModel::OpenSafe {
                    login_type: old(self).inner().lt(), token: tv, service: ""@, safe_time }),
                None => final(self).inner().events() == old(self).inner().events(),
            },
    {
        self.logic.open_safe(safe_time)
    }

    /// Whether the current token holds second-level authentication for the empty service.
    pub fn is_safe(&self) -> (r: SaResult<bool>)
        requires
            self.inner().wf(),
        ensures
            r == Ok::<bool, SaTokenException>(self.inner().safe_now(""@)),
    {
        self.logic.is_safe()
    }

    /// Withdraws second-level authentication for the empty service.
    pub fn close_safe(&mut self) -> (r: SaResult<()>)
        requires
            old(self).inner().wf(),
        ensures
            r is Ok,
            final(self).inner().wf(),
            final(self).inner().same_but_store(&old(self).inner()),
            match old(self).inner().current_token() {
                Some(tv) => final(self).inner().store() == (DaoModel {
                    strings: old(self).inner().store().strings.remove(old(self).inner().sfkey(tv, ""@)),
                    ..old(self).inner().store()
                }),
                None => final(self).inner().store() == old(self).inner().store(),
            },
            !final(self).inner().safe_now(""@),
            match old(self).inner().current_token() {
                Some(tv) => final(self).inner().events() == old(self).inner().events().push(EventModel::CloseSafe {
                    login_type: old(self).inner().lt(), token: tv, service: ""@ }),
                None => final(self).inner().events() == old(self).inner().events(),
            },
    {
        self.logic.close_safe()
    }

    /// Switches the current request to act as another account; a
    /// missing-login error when the request is not logged in.
    pub fn switch_to(&mut self, login_id: &str) -> (r: SaResult<()>)
        requires
            old(self).inner().wf(),
        ensures
            final(self).inner().wf(),
            final(self).inner().lt() == old(self).inner().lt(),
            final(self).inner().now_ms() == old(self).inner().now_ms(),
            final(self).inner().cfg() == old(self).inner().cfg(),
            final(self).inner().store() == old(self).inner().store(),
            final(self).inner().source() == old(self).inner().source(),
            final(self).inner().ctx().valid == old(self).inner().ctx().valid,
            final(self).inner().ctx().request == old(self).inner().ctx().request,
            final(self).inner().ctx().response == old(self).inner().ctx().response,
            old(self).inner().current_login_id() is Some ==> r is Ok && final(self).inner().ctx().storage.view_map()
                == old(self).inner().ctx().storage.view_map().insert(switch_key(old(self).inner().lt()), login_id@),
            old(self).inner().current_login_id() is None ==> (r matches Err(e) && is_not_login(e, "未登录"@, old(self).inner().lt())
                && final(self).inner().ctx() == old(self).inner().ctx()),
            r is Ok ==> final(self).inner().switched_to() == Some(login_id@),
    {
        self.logic.switch_to(login_id)
    }

    /// Ends the switch.
    pub fn end_switch(&mut self)
        requires
            old(self).inner().wf(),
        ensures
            final(self).inner().wf(),
            final(self).inner().lt() == old(self).inner().lt(),
            final(self).inner().now_ms() == old(self).inner().now_ms(),
            final(self).inner().cfg() == old(self).inner().cfg(),
            final(self).inner().store() == old(self).inner().store(),
            final(self).inner().source() == old(self).inner().source(),
            final(self).inner().ctx().valid == old(self).inner().ctx().valid,
            final(self).inner().ctx().request == old(self).inner().ctx().request,
            final(self).inner().ctx().response == old(self).inner().ctx().response,
            final(self).inner().ctx().storage.view_map() == old(self).inner().ctx().storage.view_map().remove(switch_key(old(self).inner().lt())),
            final(self).inner().switched_to() is None,
    {
        self.logic.end_switch()
    }

    /// Whether the request switched to another account.
    pub fn is_switch(&self) -> (r: bool)
        requires
            self.inner().wf(),
        ensures
            r == (self.inner().switched_to() is Some),
    {
        self.logic.is_switch()
    }

    /// The account the request switched to.
    pub fn get_switch_login_id(&self) -> (r: Option<String>)
        requires
            self.inner().wf(),
        ensures
            match self.inner().switched_to() {
                Some(id) => r is Some && r->0@ == id,
                None => r is None,
            },
    {
        self.logic.get_switch_login_id()
    }
}

} // verus!
