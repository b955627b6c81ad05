//! A facade over the rules of the default account type.
use vstd::prelude::*;
use crate::config::{SaTokenConfig, is_default_config};
use crate::context::SaRequestForMock;
use crate::dao::{DaoModel, expire_moment, fits, remaining, with_expire};
use crate::exception::{
    SaResult, SaTokenException, CODE_11002, CODE_11062, CODE_11061, disabled_message, is_code, is_not_login, is_other, is_not_role,
    is_not_permission, is_not_safe,
};
use crate::num::{int_text, spec_parse_i32, spec_parse_i64};
use crate::session::{SaSession, SaTerminalInfo, SessionModel, TerminalModel, find_token, terminal_models};
use crate::stp::interface::{SaDisableWrapperInfo, StpInterface, StpInterfaceDefaultImpl};
use crate::stp::keys::{safe_key, switch_key, token_of_style};
use crate::stp::logic::{EventModel, LoginShape, RemovalKind, SaTokenEvent, StpLogic, event_views, MAX_TIMEOUT, ends_with_login, holds_all, holds_any, is_disable_args_error, param_shape, str_views, token_in_request};
use crate::stp::model::SaTokenInfo;
use crate::stp::parameter::SaLoginParameter;
use crate::text::{join, views};

verus! {

/// The rules of the default account type behind short names.
pub struct StpUtil<I: StpInterface> {
    logic: StpLogic<I>,
}

impl StpUtil<StpInterfaceDefaultImpl> {
    /// The default account type.
    pub const TYPE: &'static str = "login";

    /// A facade over rules for the default account type with the default
    /// settings (see [`StpLogic::new`]).
    pub fn new() -> (r: Self)
        ensures
            r.inner().wf(),
            r.inner().lt() == "login"@,
            r.inner().now() == 0,
            is_default_config(r.inner().cfg()),
            r.inner().ctx().valid,
            token_in_request(r.inner().cfg(), r.inner().ctx().request) is None,
            r.inner().store().strings == Map::<Seq<char>, (Seq<char>, i64)>::empty(),
            r.inner().store().sessions == Map::<Seq<char>, (SessionModel, i64)>::empty(),
            r.inner().ctx().storage.view_map() == Map::<Seq<char>, Seq<char>>::empty(),
            r.inner().events() == Seq::<EventModel>::empty(),
    {
        StpUtil { logic: StpLogic::new("login") }
    }
}

impl<I: StpInterface> StpUtil<I> {
    /// The rules behind the facade.
    pub closed spec fn inner(&self) -> StpLogic<I> {
        self.logic
    }

    /// A facade over rules for the default account type with this source
    /// of roles and permissions.
    pub fn with_interface(interface: I) -> (r: Self)
        ensures
            r.inner().wf(),
            r.inner().lt() == "login"@,
            r.inner().now() == 0,
            is_default_config(r.inner().cfg()),
            r.inner().source() == interface,
            r.inner().ctx().valid,
            token_in_request(r.inner().cfg(), r.inner().ctx().request) is None,
            r.inner().store().strings == Map::<Seq<char>, (Seq<char>, i64)>::empty(),
            r.inner().store().sessions == Map::<Seq<char>, (SessionModel, i64)>::empty(),
            r.inner().ctx().storage.view_map() == Map::<Seq<char>, Seq<char>>::empty(),
            r.inner().events() == Seq::<EventModel>::empty(),
    {
        StpUtil { logic: StpLogic::with_interface("login", interface) }
    }

    /// The rules behind the facade.
    pub fn stp_logic(&self) -> (r: &StpLogic<I>)
        ensures
            *r == self.inner(),
    {
        &self.logic
    }

    /// Hands over the events recorded for the listeners (see
    /// [`StpLogic::take_events`]).
    pub fn take_events(&mut self) -> (r: Vec<SaTokenEvent>)
        requires
            old(self).inner().wf(),
        ensures
            event_views(r@) == old(self).inner().events(),
            final(self).inner().events() == Seq::<EventModel>::empty(),
            final(self).inner().wf(),
            final(self).inner().same_but_store(&old(self).inner()),
            final(self).inner().store() == old(self).inner().store(),
    {
        self.logic.take_events()
    }

    /// Starts a new current request (see [`StpLogic::set_request`]).
    pub fn set_request(&mut self, request: SaRequestForMock)
        requires
            old(self).inner().wf(),
            request.wf(),
        ensures
            final(self).inner().wf(),
            final(self).inner().ctx().valid,
            final(self).inner().ctx().request == request,
            final(self).inner().ctx().storage.view_map() == Map::<Seq<char>, Seq<char>>::empty(),
            final(self).inner().lt() == old(self).inner().lt(),
            final(self).inner().now() == old(self).inner().now(),
            final(self).inner().cfg() == old(self).inner().cfg(),
            final(self).inner().store() == old(self).inner().store(),
            final(self).inner().source() == old(self).inner().source(),
    {
        self.logic.set_request(request)
    }

    /// Replaces the settings (see [`StpLogic::set_config`]).
    pub fn set_config(&mut self, config: SaTokenConfig)
        requires
            old(self).inner().wf(),
            config.timeout <= MAX_TIMEOUT,
        ensures
            final(self).inner().wf(),
            final(self).inner().cfg() == config,
            final(self).inner().lt() == old(self).inner().lt(),
            final(self).inner().now() == old(self).inner().now(),
            final(self).inner().store() == old(self).inner().store(),
            final(self).inner().ctx() == old(self).inner().ctx(),
            final(self).inner().source() == old(self).inner().source(),
    {
        self.logic.set_config(config)
    }

    /// Sets the clock reading (see [`StpLogic::set_clock`]).
    pub fn set_clock(&mut self, now: i64)
        requires
            old(self).inner().wf(),
        ensures
            final(self).inner().wf(),
            final(self).inner().now() == (if 0 <= now < crate::stp::logic::CLOCK_LIMIT { now } else { old(self).inner().now() }),
            final(self).inner().lt() == old(self).inner().lt(),
            final(self).inner().cfg() == old(self).inner().cfg(),
            final(self).inner().store() == old(self).inner().store(),
            final(self).inner().ctx() == old(self).inner().ctx(),
            final(self).inner().source() == old(self).inner().source(),
    {
        self.logic.set_clock(now)
    }

    /// Reads the clock from the system clock (see [`StpLogic::sync_clock`]).
    pub fn sync_clock(&mut self)
        requires
            old(self).inner().wf(),
        ensures
            final(self).inner().wf(),
            final(self).inner().lt() == old(self).inner().lt(),
            final(self).inner().cfg() == old(self).inner().cfg(),
            final(self).inner().store() == old(self).inner().store(),
            final(self).inner().ctx() == old(self).inner().ctx(),
            final(self).inner().source() == old(self).inner().source(),
    {
        self.logic.sync_clock()
    }

    /// Whether the current request is logged in.
    pub fn is_login(&self) -> (r: bool)
        requires
            self.inner().wf(),
        ensures
            r == (self.inner().current_login_id() is Some),
    {
        match self.logic.is_login() {
            Ok(b) => b,
            Err(_) => false,
        }
    }

    /// The account the current request is logged in to, if any.
    pub fn get_login_id_default_null(&self) -> (r: Option<String>)
        requires
            self.inner().wf(),
        ensures
            match r {
                Some(id) => self.inner().current_login_id() == Some(id@),
                None => self.inner().current_login_id() is None,
            },
    {
        match self.logic.get_login_id_default_null() {
            Ok(o) => o,
            Err(_) => None,
        }
    }

    /// The account a token is logged in to.
    pub fn get_login_id_by_token(&self, token_value: &str) -> (r: Option<String>)
        requires
            self.inner().wf(),
        ensures
            match r {
                Some(id) => self.inner().owner_of(token_value@) == Some(id@),
                None => self.inner().owner_of(token_value@) is None,
            },
    {
        match self.logic.get_login_id_by_token(token_value) {
            Ok(o) => o,
            Err(_) => None,
        }
    }

    /// The token name.
    pub fn get_token_name(&self) -> (r: String)
        ensures
            r@ == self.inner().name(),
    {
        self.logic.token_name()
    }

    /// Seconds left of the current token; -2 without one.
    pub fn get_token_timeout(&self) -> (r: i64)
        requires
            self.inner().wf(),
        ensures
            r == match self.inner().current_token() {
                Some(tv) => remaining(self.inner().store().strings, self.inner().tkey(tv), self.inner().now()),
                None => -2i64,
            },
    {
        match self.logic.get_token_timeout() {
            Ok(t) => t,
            Err(_) => -2,
        }
    }

    /// Records now as the current token's last activity; nothing without a token.
    pub fn update_last_active_to_now(&mut self) -> (r: SaResult<()>)
        requires
            old(self).inner().wf(),
        ensures
            r is Ok,
            final(self).inner().wf(),
            final(self).inner().same_but_store(&old(self).inner()),
            final(self).inner().store() == match old(self).inner().current_token() {
                Some(tv) => DaoModel {
                    strings: old(self).inner().store().strings.insert(old(self).inner().akey(tv),
                        (int_text(old(self).inner().now() as int), -1i64)),
                    ..old(self).inner().store()
                },
                None => old(self).inner().store(),
            },
    {
        match self.logic.get_token_value() {
            Some(tv) => self.logic.set_last_active_to_now(tv.as_str()),
            None => Ok(()),
        }
    }

    /// The tokens of an account's live session, in order.
    pub fn get_token_value_list_by_login_id(&self, login_id: &str) -> (r: Vec<String>)
        requires
            self.inner().wf(),
        ensures
            views(r@) == self.inner().tokens_of_account(login_id@),
    {
        match self.logic.get_token_value_list_by_login_id(login_id) {
            Ok(v) => v,
            Err(_) => Vec::new(),
        }
    }

    /// The first token of an account's live session.
    pub fn get_token_value_by_login_id(&self, login_id: &str) -> (r: Option<String>)
        requires
            self.inner().wf(),
        ensures
            if self.inner().tokens_of_account(login_id@).len() > 0 {
                r is Some && r->0@ == self.inner().tokens_of_account(login_id@)[0]
            } else {
                r is None
            },
    {
        match self.logic.get_token_value_by_login_id(login_id) {
            Ok(o) => o,
            Err(_) => None,
        }
    }

    /// Seconds left of an account's ban from logging in: -1 forever, -2 none.
    pub fn get_disable_time(&self, login_id: &str) -> (r: i64)
        requires
            self.inner().wf(),
        ensures
            r == remaining(self.inner().store().strings, self.inner().dkey(login_id@, "login"@), self.inner().now()),
    {
        match self.logic.get_disable_time(login_id) {
            Ok(t) => t,
            Err(_) => -2,
        }
    }

    /// Whether an account is banned from logging in; `false` when the ban
    /// the source reports is not a well-formed request.
    pub fn is_disable(&mut self, login_id: &str) -> (r: bool)
        requires
            old(self).inner().wf(),
        ensures
            final(self).inner().wf(),
            final(self).inner().same_but_store(&old(self).inner()),
            exists|w: SaDisableWrapperInfo| {
                &&& #[trigger] old(self).inner().store_after_level_query(login_id@, "login"@, w) == final(self).inner().store()
                &&& r == match old(self).inner().level_result(login_id@, "login"@, w) {
                    Some(l) => l != -2 && l >= 1,
                    None => false,
                }
            },
    {
        match self.logic.is_disable(login_id) {
            Ok(b) => b,
            Err(_) => false,
        }
    }

    /// Whether the current token holds second-level authentication for the empty service.
    pub fn is_safe(&self) -> (r: bool)
        requires
            self.inner().wf(),
        ensures
            r == self.inner().safe_now(""@),
    {
        match self.logic.is_safe() {
            Ok(b) => b,
            Err(_) => false,
        }
    }

    /// Whether the request switched to another account.
    pub fn is_switch(&self) -> (r: bool)
        requires
            self.inner().wf(),
        ensures
            r == (self.inner().switched_to() is Some),
    {
        match self.logic.is_switch() {
            Ok(b) => b,
            Err(_) => false,
        }
    }

    /// The account the request switched to.
    pub fn get_switch_login_id(&self) -> (r: Option<String>)
        requires
            self.inner().wf(),
        ensures
            match self.inner().switched_to() {
                Some(id) => r is Some && r->0@ == id,
                None => r is None,
            },
    {
        match self.logic.get_switch_login_id() {
            Ok(o) => o,
            Err(_) => None,
        }
    }

    /// Logs an account in with the default options.
    pub fn login(&mut self, id: &str) -> (r: SaResult<()>)
        requires
            old(self).inner().wf(),
        ensures
            final(self).inner().wf(),
            final(self).inner().lt() == old(self).inner().lt(),
            final(self).inner().now() == old(self).inner().now(),
            final(self).inner().cfg() == old(self).inner().cfg(),
            final(self).inner().source() == old(self).inner().source(),
            final(self).inner().ctx().request == old(self).inner().ctx().request,
            final(self).inner().ctx().valid == old(self).inner().ctx().valid,
            id@.len() == 0 ==> (r matches Err(e) && is_code(e, CODE_11002, "loginId 不能为空"@)
                && final(self).inner().same(&old(self).inner())),
            id@.len() > 0 && !old(self).inner().cfg().right_now_create_token_session ==> r is Ok,
            r is Ok && old(self).inner().ctx().valid ==> final(self).inner().ctx().storage.view_map().contains_key(final(self).inner().name())
                && final(self).inner().owner_of(final(self).inner().stored_token()) == Some(id@),
            r is Ok && old(self).inner().ctx().valid && token_in_request(old(self).inner().cfg(), old(self).inner().ctx().request) is None
                && final(self).inner().stored_token().len() > 0 && final(self).inner().switched_to() is None
                ==> final(self).inner().current_login_id() == Some(id@),
            r is Ok && old(self).inner().ctx().valid && (old(self).inner().cfg().max_login_count < 0 || old(self).inner().cfg().max_login_count >= 1)
                ==> final(self).inner().tokens_of_account(id@).contains(final(self).inner().stored_token()),
            r is Ok ==> final(self).inner().logged_in_from(&old(self).inner(), id@,
                old(self).inner().cfg().max_login_count < 0 || old(self).inner().cfg().max_login_count >= 1),
            r is Ok && old(self).inner().ctx().valid ==> exists|pre: Seq<TerminalModel>|
                #[trigger] old(self).inner().login_outcome(&final(self).inner(), id@, final(self).inner().stored_token(), LoginShape { device_type: Seq::<char>::empty(), device_id: Seq::<char>::empty(), extra: None, concurrent: old(self).inner().cfg().is_concurrent, max: old(self).inner().cfg().max_login_count }, pre),
            r is Ok && old(self).inner().ctx().valid
                && !(old(self).inner().cfg().is_concurrent && old(self).inner().cfg().is_share
                    && old(self).inner().reuse_token(old(self).inner().terminals_of_account(id@), Seq::<char>::empty()) is Some)
                ==> token_of_style(old(self).inner().cfg().token_style@, final(self).inner().stored_token())
                    && final(self).inner().stored_token().len() > 0,
            r is Ok ==> old(self).inner().events().is_prefix_of(final(self).inner().events())
                && ends_with_login(final(self).inner().events(), old(self).inner().lt(), id@, Seq::<char>::empty()),
    {
        self.logic.login(id)
    }

    /// Logs an account in from a device type.
    pub fn login_with_device(&mut self, id: &str, device_type: &str) -> (r: SaResult<()>)
        requires
            old(self).inner().wf(),
        ensures
            final(self).inner().wf(),
            final(self).inner().lt() == old(self).inner().lt(),
            final(self).inner().now() == old(self).inner().now(),
            final(self).inner().cfg() == old(self).inner().cfg(),
            final(self).inner().source() == old(self).inner().source(),
            final(self).inner().ctx().request == old(self).inner().ctx().request,
            final(self).inner().ctx().valid == old(self).inner().ctx().valid,
            id@.len() == 0 ==> (r matches Err(e) && is_code(e, CODE_11002, "loginId 不能为空"@)
                && final(self).inner().same(&old(self).inner())),
            id@.len() > 0 && !old(self).inner().cfg().right_now_create_token_session ==> r is Ok,
            r is Ok && old(self).inner().ctx().valid ==> final(self).inner().ctx().storage.view_map().contains_key(final(self).inner().name())
                && final(self).inner().owner_of(final(self).inner().stored_token()) == Some(id@),
            r is Ok && old(self).inner().ctx().valid && token_in_request(old(self).inner().cfg(), old(self).inner().ctx().request) is None
                && final(self).inner().stored_token().len() > 0 && final(self).inner().switched_to() is None
                ==> final(self).inner().current_login_id() == Some(id@),
            r is Ok && old(self).inner().ctx().valid && (old(self).inner().cfg().max_login_count < 0 || old(self).inner().cfg().max_login_count >= 1)
                ==> final(self).inner().tokens_of_account(id@).contains(final(self).inner().stored_token()),
            r is Ok ==> final(self).inner().logged_in_from(&old(self).inner(), id@,
                old(self).inner().cfg().max_login_count < 0 || old(self).inner().cfg().max_login_count >= 1),
            r is Ok && old(self).inner().ctx().valid ==> exists|pre: Seq<TerminalModel>|
                #[trigger] old(self).inner().login_outcome(&final(self).inner(), id@, final(self).inner().stored_token(), LoginShape { device_type: device_type@, device_id: Seq::<char>::empty(), extra: None, concurrent: old(self).inner().cfg().is_concurrent, max: old(self).inner().cfg().max_login_count }, pre),
            r is Ok && old(self).inner().ctx().valid
                && !(old(self).inner().cfg().is_concurrent && old(self).inner().cfg().is_share
                    && old(self).inner().reuse_token(old(self).inner().terminals_of_account(id@), device_type@) is Some)
                ==> token_of_style(old(self).inner().cfg().token_style@, final(self).inner().stored_token())
                    && final(self).inner().stored_token().len() > 0,
            r is Ok ==> old(self).inner().events().is_prefix_of(final(self).inner().events())
                && ends_with_login(final(self).inner().events(), old(self).inner().lt(), id@, device_type@),
    {
        self.logic.login_with_device(id, device_type)
    }

    /// Logs an account in with these options (see
    /// [`Self::create_login_session`]) and writes its token to the current
    /// request (see [`Self::set_token_value`]).
    pub fn login_with_param(&mut self, id: &str, param: &SaLoginParameter) -> (r: SaResult<()>)
        requires
            old(self).inner().wf(),
            param.timeout <= MAX_TIMEOUT,
        ensures
            final(self).inner().wf(),
            final(self).inner().lt() == old(self).inner().lt(),
            final(self).inner().now() == old(self).inner().now(),
            final(self).inner().cfg() == old(self).inner().cfg(),
            final(self).inner().source() == old(self).inner().source(),
            final(self).inner().ctx().request == old(self).inner().ctx().request,
            final(self).inner().ctx().valid == old(self).inner().ctx().valid,
            id@.len() == 0 ==> (r matches Err(e) && is_code(e, CODE_11002, "loginId 不能为空"@)
                && final(self).inner().same(&old(self).inner())),
            id@.len() > 0 && !old(self).inner().cfg().right_now_create_token_session ==> r is Ok,
            r is Ok && old(self).inner().ctx().valid ==> final(self).inner().ctx().storage.view_map().contains_key(final(self).inner().name())
                && final(self).inner().owner_of(final(self).inner().stored_token()) == Some(id@),
            r is Ok && old(self).inner().ctx().valid && token_in_request(old(self).inner().cfg(), old(self).inner().ctx().request) is None
                && final(self).inner().stored_token().len() > 0 && final(self).inner().switched_to() is None
                ==> final(self).inner().current_login_id() == Some(id@),
            r is Ok && old(self).inner().ctx().valid && (param.max_count_under(&old(self).inner().cfg()) < 0
                || param.max_count_under(&old(self).inner().cfg()) >= 1)
                ==> final(self).inner().tokens_of_account(id@).contains(final(self).inner().stored_token()),
            r is Ok ==> final(self).inner().logged_in_from(&old(self).inner(), id@,
                param.max_count_under(&old(self).inner().cfg()) < 0 || param.max_count_under(&old(self).inner().cfg()) >= 1),
            r is Ok && old(self).inner().ctx().valid ==> exists|pre: Seq<TerminalModel>|
                #[trigger] old(self).inner().login_outcome(&final(self).inner(), id@, final(self).inner().stored_token(), param_shape(*param, old(self).inner().cfg()), pre),
            r is Ok && old(self).inner().ctx().valid && param.token is None
                && !(param.concurrent_under(&old(self).inner().cfg()) && param.share_under(&old(self).inner().cfg())
                    && old(self).inner().reuse_token(old(self).inner().terminals_of_account(id@), param.device_type@) is Some)
                ==> token_of_style(old(self).inner().cfg().token_style@, final(self).inner().stored_token())
                    && final(self).inner().stored_token().len() > 0,
            r is Ok ==> old(self).inner().events().is_prefix_of(final(self).inner().events())
                && ends_with_login(final(self).inner().events(), old(self).inner().lt(), id@, param.device_type@),
    {
        self.logic.login_with_param(id, param)
    }








    pub fn create_login_session(&mut self, id: &str, param: &SaLoginParameter) -> (r: SaResult<String>)
        requires
            old(self).inner().wf(),
            param.timeout <= MAX_TIMEOUT,
        ensures
            final(self).inner().wf(),
            final(self).inner().same_but_store(&old(self).inner()),
            id@.len() == 0 ==> (r matches Err(e) && is_code(e, CODE_11002, "loginId 不能为空"@)
                && final(self).inner().store() == old(self).inner().store()),
            id@.len() > 0 && !old(self).inner().cfg().right_now_create_token_session ==> r is Ok,
            id@.len() > 0 && r is Err ==> (r matches Err(e) && is_other(e, "Token-Session 获取失败：token 为空"@)),
            r matches Ok(tv) ==> {
                &&& final(self).inner().owner_of(tv@) == Some(id@)
                &&& final(self).inner().last_active_of(tv@) == old(self).inner().now()
                &&& (param.token matches Some(t) ==> tv@ == t@)
                &&& (param.token is None && param.concurrent_under(&old(self).inner().cfg()) && param.share_under(&old(self).inner().cfg())
                    && old(self).inner().reuse_token(old(self).inner().terminals_of_account(id@), param.device_type@) is Some)
                    ==> tv@ == old(self).inner().reuse_token(old(self).inner().terminals_of_account(id@), param.device_type@)->0
                &&& (param.token is None && !(param.concurrent_under(&old(self).inner().cfg()) && param.share_under(&old(self).inner().cfg())
                    && old(self).inner().reuse_token(old(self).inner().terminals_of_account(id@), param.device_type@) is Some))
                    ==> token_of_style(old(self).inner().cfg().token_style@, tv@)
                &&& (param.max_count_under(&old(self).inner().cfg()) < 0 || param.max_count_under(&old(self).inner().cfg()) >= 1)
                    ==> (final(self).inner().session_of(id@) matches Some(s) && s.terminals.len() > 0
                        && s.terminals.last().token_value == tv@
                        && s.terminals.last().device_type == param.device_type@
                        && s.terminals.last().device_id == param.device_id@)
                &&& !param.concurrent_under(&old(self).inner().cfg()) ==> forall|j: int|
                    0 <= j < old(self).inner().tokens_of_account(id@).len() && #[trigger] old(self).inner().tokens_of_account(id@)[j] != tv@
                    ==> final(self).inner().owner_of(old(self).inner().tokens_of_account(id@)[j]) is None
                &&& exists|pre: Seq<TerminalModel>| #[trigger] old(self).inner().login_outcome(&final(self).inner(), id@, tv@, param_shape(*param, old(self).inner().cfg()), pre)
            },
            r is Ok ==> final(self).inner().events().len() > 0,
            r matches Ok(tv) ==> final(self).inner().events().last() == (EventModel::Login {
                login_type: old(self).inner().lt(), login_id: id@, token: tv@, device_type: param.device_type@ })
                && old(self).inner().events().is_prefix_of(final(self).inner().events()),
            r is Err ==> old(self).inner().events().is_prefix_of(final(self).inner().events()),
    {
        self.logic.create_login_session(id, param)
    }

    /// Logs the current account out of every token of its live session
    /// (see [`Self::logout_by_login_id`]); nothing when not logged in.
    pub fn logout(&mut self) -> (r: SaResult<()>)
        requires
            old(self).inner().wf(),
        ensures
            r is Ok,
            final(self).inner().logged_out_from(&old(self).inner()),
            (old(self).inner().switched_to() is None && (old(self).inner().current_login_id() matches Some(id)
                && old(self).inner().tokens_of_account(id).contains(old(self).inner().current_token()->0)))
                ==> final(self).inner().current_login_id() is None,
            match old(self).inner().current_login_id() {
                Some(id) => final(self).inner().events() == old(self).inner().events()
                    + old(self).inner().removal_seq(old(self).inner().tokens_of_account(id), RemovalKind::Logout),
                None => final(self).inner().events() == old(self).inner().events(),
            },
    {
        self.logic.logout()
    }

    /// Logs every token of an account's live session out and deletes the session.
    pub fn logout_by_login_id(&mut self, login_id: &str) -> (r: SaResult<()>)
        requires
            old(self).inner().wf(),
        ensures
            r is Ok,
            final(self).inner().wf(),
            final(self).inner().same_but_store(&old(self).inner()),
            forall|j: int| 0 <= j < old(self).inner().tokens_of_account(login_id@).len()
                ==> final(self).inner().owner_of(#[trigger] old(self).inner().tokens_of_account(login_id@)[j]) is None,
            final(self).inner().session_of(login_id@) is None,
            !final(self).inner().store().sessions.contains_key(old(self).inner().skey(login_id@)),
            forall|k: Seq<char>| #[trigger] final(self).inner().store().strings.contains_key(k)
                ==> old(self).inner().store().strings.contains_key(k) && final(self).inner().store().strings[k] == old(self).inner().store().strings[k],
            final(self).inner().store().objects == old(self).inner().store().objects,
            final(self).inner().events() == old(self).inner().events()
                + old(self).inner().removal_seq(old(self).inner().tokens_of_account(login_id@), RemovalKind::Logout),
    {
        self.logic.logout_by_login_id(login_id)
    }

    /// Logs a token out.
    pub fn logout_by_token_value(&mut self, token_value: &str) -> (r: SaResult<()>)
        requires
            old(self).inner().wf(),
        ensures
            r is Ok,
            final(self).inner().wf(),
            final(self).inner().same_but_store(&old(self).inner()),
            final(self).inner().store() == old(self).inner().store_without_token(token_value@),
            final(self).inner().owner_of(token_value@) is None,
            final(self).inner().events() == old(self).inner().events() + old(self).inner().removal_events_of(token_value@, RemovalKind::Logout),
    {
        self.logic.logout_by_token_value(token_value)
    }

    /// Kicks every token of an account's live session out.
    pub fn kickout(&mut self, login_id: &str) -> (r: SaResult<()>)
        requires
            old(self).inner().wf(),
        ensures
            r is Ok,
            final(self).inner().wf(),
            final(self).inner().same_but_store(&old(self).inner()),
            final(self).inner().shrunk_by(&old(self).inner(), old(self).inner().tokens_of_account(login_id@)),
            forall|j: int| 0 <= j < old(self).inner().tokens_of_account(login_id@).len()
                ==> final(self).inner().owner_of(#[trigger] old(self).inner().tokens_of_account(login_id@)[j]) is None,
    {
        self.logic.kickout_by_login_id(login_id)
    }

    /// Kicks a token out.
    pub fn kickout_by_token_value(&mut self, token_value: &str) -> (r: SaResult<()>)
        requires
            old(self).inner().wf(),
        ensures
            r is Ok,
            final(self).inner().wf(),
            final(self).inner().same_but_store(&old(self).inner()),
            final(self).inner().store() == old(self).inner().store_without_token(token_value@),
            final(self).inner().owner_of(token_value@) is None,
            final(self).inner().events() == old(self).inner().events() + old(self).inner().removal_events_of(token_value@, RemovalKind::Kickout),
    {
        self.logic.kickout_by_token_value(token_value)
    }

    /// Logs every token of an account's live session out because another
    /// login replaced them.
    pub fn replaced(&mut self, login_id: &str) -> (r: SaResult<()>)
        requires
            old(self).inner().wf(),
        ensures
            r is Ok,
            final(self).inner().wf(),
            final(self).inner().same_but_store(&old(self).inner()),
            final(self).inner().shrunk_by(&old(self).inner(), old(self).inner().tokens_of_account(login_id@)),
            forall|j: int| 0 <= j < old(self).inner().tokens_of_account(login_id@).len()
                ==> final(self).inner().owner_of(#[trigger] old(self).inner().tokens_of_account(login_id@)[j]) is None,
    {
        self.logic.replaced_by_login_id(login_id)
    }

    /// Logs a token out because another login replaced it.
    pub fn replaced_by_token_value(&mut self, token_value: &str) -> (r: SaResult<()>)
        requires
            old(self).inner().wf(),
        ensures
            r is Ok,
            final(self).inner().wf(),
            final(self).inner().same_but_store(&old(self).inner()),
            final(self).inner().store() == old(self).inner().store_without_token(token_value@),
            final(self).inner().owner_of(token_value@) is None,
            final(self).inner().events() == old(self).inner().events() + old(self).inner().removal_events_of(token_value@, RemovalKind::Replaced),
    {
        self.logic.replaced_by_token_value(token_value)
    }

    /// Fails with a missing-login error when the current request is not logged in.
    pub fn check_login(&self) -> (r: SaResult<()>)
        requires
            self.inner().wf(),
        ensures
            self.inner().current_login_id() is Some ==> r is Ok,
            self.inner().current_login_id() is None ==> (r matches Err(e) && is_not_login(e, "未登录"@, self.inner().lt())),
    {
        self.logic.check_login()
    }

    /// The account the current request acts as (see `switch_to`); a missing-login
    /// error when there is none.
    pub fn get_login_id(&self) -> (r: SaResult<String>)
        requires
            self.inner().wf(),
        ensures
            match self.inner().current_login_id() {
                Some(id) => r matches Ok(s) && s@ == id,
                None => r matches Err(e) && is_not_login(e, "未登录"@, self.inner().lt()),
            },
    {
        self.logic.get_login_id()
    }

    /// The same as [`Self::get_login_id`].
    pub fn get_login_id_as_string(&self) -> (r: SaResult<String>)
        requires
            self.inner().wf(),
        ensures
            match self.inner().current_login_id() {
                Some(id) => r matches Ok(s) && s@ == id,
                None => r matches Err(e) && is_not_login(e, "未登录"@, self.inner().lt()),
            },
    {
        self.logic.get_login_id_as_string()
    }

    /// The account id of the current request as an `i32`.
    pub fn get_login_id_as_i32(&self) -> (r: SaResult<i32>)
        requires
            self.inner().wf(),
        ensures
            match self.inner().current_login_id() {
                Some(id) => match spec_parse_i32(id) {
                    Some(n) => r == Ok::<i32, SaTokenException>(n),
                    None => r matches Err(e) && is_other(e, "无法将 loginId 转换为 i32: "@ + id),
                },
                None => r matches Err(e) && is_not_login(e, "未登录"@, self.inner().lt()),
            },
    {
        self.logic.get_login_id_as_i32()
    }

    /// The account id of the current request as an `i64`.
    pub fn get_login_id_as_i64(&self) -> (r: SaResult<i64>)
        requires
            self.inner().wf(),
        ensures
            match self.inner().current_login_id() {
                Some(id) => match spec_parse_i64(id) {
                    Some(n) => r == Ok::<i64, SaTokenException>(n),
                    None => r matches Err(e) && is_other(e, "无法将 loginId 转换为 i64: "@ + id),
                },
                None => r matches Err(e) && is_not_login(e, "未登录"@, self.inner().lt()),
            },
    {
        self.logic.get_login_id_as_i64()
    }

    /// The token of the current request.
    pub fn get_token_value(&self) -> (r: Option<String>)
        requires
            self.inner().wf(),
        ensures
            match r {
                Some(t) => self.inner().current_token() == Some(t@),
                None => self.inner().current_token() is None,
            },
    {
        self.logic.get_token_value()
    }

    /// Details of the current token: its name and value, the account, the
    /// seconds left and the device type (empty when the terminal is not
    /// listed); missing-login errors without a token or when it is not
    /// logged in.
    pub fn get_token_info(&self) -> (r: SaResult<SaTokenInfo>)
        requires
            self.inner().wf(),
        ensures
            match self.inner().current_token() {
                None => r matches Err(e) && is_not_login(e, "未提供 Token"@, self.inner().lt()),
                Some(tv) => match self.inner().owner_of(tv) {
                    None => r matches Err(e) && is_not_login(e, "Token 无效"@, self.inner().lt()),
                    Some(id) => r matches Ok(info) && {
                        &&& info.token_name@ == self.inner().name()
                        &&& info.token_value@ == tv
                        &&& info.is_created
                        &&& info.login_id@ == id
                        &&& info.token_timeout == remaining(self.inner().store().strings, self.inner().tkey(tv), self.inner().now())
                        &&& info.session_timeout == -1
                        &&& info.token_session_timeout == -1
                        &&& info.token_active_timeout == -1
                        &&& info.login_device_type@ == match self.inner().terminal_of(tv) {
                            Some(t) => t.device_type,
                            None => Seq::<char>::empty(),
                        }
                    },
                },
            },
    {
        self.logic.get_token_info()
    }

    /// Writes the token to the current request: the storage, the cookie
    /// when cookies are read, the response header when headers are written;
    /// nothing without a current request.
    pub fn set_token_value(&mut self, token_value: &str) -> (r: SaResult<()>)
        requires
            old(self).inner().wf(),
        ensures
            r is Ok,
            final(self).inner().wf(),
            final(self).inner().lt() == old(self).inner().lt(),
            final(self).inner().now() == old(self).inner().now(),
            final(self).inner().cfg() == old(self).inner().cfg(),
            final(self).inner().store() == old(self).inner().store(),
            final(self).inner().source() == old(self).inner().source(),
            !old(self).inner().ctx().valid ==> final(self).inner().ctx() == old(self).inner().ctx(),
            old(self).inner().ctx().valid ==> {
                &&& final(self).inner().ctx().valid
                &&& final(self).inner().ctx().request == old(self).inner().ctx().request
                &&& final(self).inner().ctx().storage.view_map()
                    == old(self).inner().ctx().storage.view_map().insert(old(self).inner().name(), token_value@)
                &&& final(self).inner().ctx().response.cookies_view() == (if old(self).inner().cfg().is_read_cookie {
                    old(self).inner().ctx().response.cookies_view().push((old(self).inner().name(), token_value@))
                } else {
                    old(self).inner().ctx().response.cookies_view()
                })
                &&& final(self).inner().ctx().response.headers_view() == (if old(self).inner().cfg().is_write_header {
                    old(self).inner().ctx().response.headers_view().insert(old(self).inner().name(), token_value@)
                } else {
                    old(self).inner().ctx().response.headers_view()
                })
            },
            final(self).inner().events() == old(self).inner().events(),
    {
        self.logic.set_token_value(token_value)
    }

    /// The live session of the current account.
    pub fn get_session(&self) -> (r: SaResult<SaSession>)
        requires
            self.inner().wf(),
        ensures
            match self.inner().current_login_id() {
                Some(id) => match self.inner().session_of(id) {
                    Some(s) => r matches Ok(v) && v@ == s,
                    None => r matches Err(e) && is_other(e, "Session 不存在"@),
                },
                None => r matches Err(e) && is_not_login(e, "未登录"@, self.inner().lt()),
            },
    {
        self.logic.get_session()
    }

    /// The live session of an account; an error without one.
    pub fn get_session_by_login_id(&self, login_id: &str) -> (r: SaResult<SaSession>)
        requires
            self.inner().wf(),
        ensures
            match self.inner().session_of(login_id@) {
                Some(s) => r matches Ok(v) && v@ == s,
                None => r matches Err(e) && is_other(e, "Session 不存在"@),
            },
    {
        self.logic.get_session_by_login_id(login_id)
    }

    /// The current token's token session (see [`Self::get_token_session_by_token`]);
    /// a missing-login error without a token.
    pub fn get_token_session(&mut self) -> (r: SaResult<SaSession>)
        requires
            old(self).inner().wf(),
        ensures
            final(self).inner().wf(),
            final(self).inner().same_but_store(&old(self).inner()),
            match old(self).inner().current_token() {
                None => r matches Err(e) && is_not_login(e, "未提供 Token"@, old(self).inner().lt())
                    && final(self).inner().store() == old(self).inner().store(),
                Some(tv) => if tv.len() == 0 {
                    r matches Err(e) && is_other(e, "Token-Session 获取失败：token 为空"@)
                        && final(self).inner().store() == old(self).inner().store()
                } else { match old(self).inner().token_session_of(tv) {
                    Some(s) => r matches Ok(v) && v@ == s && final(self).inner().store() == old(self).inner().store(),
                    None => if old(self).inner().owner_of(tv) is None {
                        r matches Err(e) && is_other(e, "Token-Session 获取失败，token 无效: "@ + tv)
                            && final(self).inner().store() == old(self).inner().store()
                    } else {
                        r matches Ok(v) && v@ == old(self).inner().new_token_session(tv, "token"@)
                            && final(self).inner().store() == (DaoModel {
                                sessions: old(self).inner().store().sessions.insert(old(self).inner().tskey(tv),
                                    (old(self).inner().new_token_session(tv, "token"@), expire_moment(
                                        remaining(old(self).inner().store().strings, old(self).inner().tkey(tv), old(self).inner().now()),
                                        old(self).inner().now()))),
                                ..old(self).inner().store()
                            })
                    },
                } },
            },
    {
        self.logic.get_token_session()
    }

    /// A token's token session, created when needed (see
    /// [`Self::get_token_session_by_token_create`]).
    pub fn get_token_session_by_token(&mut self, token_value: &str) -> (r: SaResult<SaSession>)
        requires
            old(self).inner().wf(),
        ensures
            final(self).inner().wf(),
            final(self).inner().same_but_store(&old(self).inner()),
            token_value@.len() == 0 ==> (r matches Err(e) && is_other(e, "Token-Session 获取失败：token 为空"@)
                && final(self).inner().store() == old(self).inner().store()),
            token_value@.len() > 0 ==> match old(self).inner().token_session_of(token_value@) {
                Some(s) => r matches Ok(v) && v@ == s && final(self).inner().store() == old(self).inner().store(),
                None => if old(self).inner().owner_of(token_value@) is None {
                    r matches Err(e) && is_other(e, "Token-Session 获取失败，token 无效: "@ + token_value@)
                        && final(self).inner().store() == old(self).inner().store()
                } else {
                    r matches Ok(v) && v@ == old(self).inner().new_token_session(token_value@, "token"@)
                        && final(self).inner().store() == (DaoModel {
                            sessions: old(self).inner().store().sessions.insert(old(self).inner().tskey(token_value@),
                                (old(self).inner().new_token_session(token_value@, "token"@), expire_moment(
                                    remaining(old(self).inner().store().strings, old(self).inner().tkey(token_value@), old(self).inner().now()),
                                    old(self).inner().now()))),
                            ..old(self).inner().store()
                        })
                },
            },
    {
        self.logic.get_token_session_by_token(token_value)
    }

    /// Renews the current token (see [`Self::renew_timeout_by_token`]); a
    /// missing-login error without a token.
    pub fn renew_timeout(&mut self, timeout: i64) -> (r: SaResult<()>)
        requires
            old(self).inner().wf(),
            timeout <= MAX_TIMEOUT,
        ensures
            final(self).inner().wf(),
            final(self).inner().same_but_store(&old(self).inner()),
            match old(self).inner().current_token() {
                Some(tv) => r is Ok && final(self).inner().store() == (DaoModel {
                    strings: with_expire(old(self).inner().store().strings, old(self).inner().tkey(tv),
                        expire_moment(timeout, old(self).inner().now()))
                        .insert(old(self).inner().akey(tv), (int_text(old(self).inner().now() as int), -1i64)),
                    ..old(self).inner().store()
                }),
                None => r matches Err(e) && is_not_login(e, "未提供 Token"@, old(self).inner().lt())
                    && final(self).inner().store() == old(self).inner().store(),
            },
    {
        self.logic.renew_timeout(timeout)
    }

    /// Logs the current token out and fails with a missing-login error when
    /// it was inactive for longer than the inactivity limit; nothing when
    /// there is no limit.
    pub fn check_active_timeout(&mut self) -> (r: SaResult<()>)
        requires
            old(self).inner().wf(),
        ensures
            final(self).inner().wf(),
            final(self).inner().same_but_store(&old(self).inner()),
            old(self).inner().cfg().active_timeout <= 0 ==> r is Ok && final(self).inner().store() == old(self).inner().store(),
            old(self).inner().cfg().active_timeout > 0 ==> match old(self).inner().current_token() {
                None => r matches Err(e) && is_not_login(e, "未提供 Token"@, old(self).inner().lt())
                    && final(self).inner().store() == old(self).inner().store(),
                Some(tv) => if old(self).inner().now() - old(self).inner().last_active_of(tv) > old(self).inner().cfg().active_timeout {
                    r matches Err(e) && is_not_login(e, "活跃超时"@, old(self).inner().lt())
                        && final(self).inner().store() == old(self).inner().store_without_token(tv)
                        && final(self).inner().events() == old(self).inner().events() + old(self).inner().removal_events_of(tv, RemovalKind::Logout)
                } else {
                    r is Ok && final(self).inner().store() == old(self).inner().store()
                        && final(self).inner().events() == old(self).inner().events()
                },
            },
            old(self).inner().cfg().active_timeout <= 0 || old(self).inner().current_token() is None
                ==> final(self).inner().events() == old(self).inner().events(),
    {
        self.logic.check_active_timeout()
    }

    /// The device type of the current token's terminal.
    pub fn get_login_device_type(&self) -> (r: SaResult<String>)
        requires
            self.inner().wf(),
        ensures
            match self.inner().current_token() {
                Some(tv) => match self.inner().terminal_of(tv) {
                    Some(t) => r matches Ok(s) && s@ == t.device_type,
                    None => r matches Err(e) && is_other(e, "无法获取设备类型"@),
                },
                None => r matches Err(e) && is_not_login(e, "未提供 Token"@, self.inner().lt()),
            },
    {
        self.logic.get_login_device_type()
    }

    /// The device id of the current token's terminal.
    pub fn get_login_device_id(&self) -> (r: SaResult<String>)
        requires
            self.inner().wf(),
        ensures
            match self.inner().current_token() {
                Some(tv) => match self.inner().terminal_of(tv) {
                    Some(t) => r matches Ok(s) && s@ == t.device_id,
                    None => r matches Err(e) && is_other(e, "无法获取设备 ID"@),
                },
                None => r matches Err(e) && is_not_login(e, "未提供 Token"@, self.inner().lt()),
            },
    {
        self.logic.get_login_device_id()
    }

    /// The terminals of an account's live session; an error without one.
    pub fn get_terminal_list_by_login_id(&self, login_id: &str) -> (r: SaResult<Vec<SaTerminalInfo>>)
        requires
            self.inner().wf(),
        ensures
            match self.inner().session_of(login_id@) {
                Some(s) => r matches Ok(v) && terminal_models(v@) == s.terminals,
                None => r matches Err(e) && is_other(e, "Session 不存在"@),
            },
    {
        self.logic.get_terminal_list_by_login_id(login_id)
    }

    /// The terminal of the current token (see [`Self::get_terminal_info_by_token`]).
    pub fn get_terminal_info(&self) -> (r: SaResult<SaTerminalInfo>)
        requires
            self.inner().wf(),
        ensures
            match self.inner().current_token() {
                Some(tv) => match self.inner().owner_of(tv) {
                    Some(id) => match self.inner().session_of(id) {
                        Some(s) => match find_token(s.terminals, tv) {
                            Some(i) => r matches Ok(t) && t@ == s.terminals[i],
                            None => r matches Err(e) && is_other(e, "终端不存在"@),
                        },
                        None => r matches Err(e) && is_other(e, "Session 不存在"@),
                    },
                    None => r matches Err(e) && is_not_login(e, "Token 无效"@, self.inner().lt()),
                },
                None => r matches Err(e) && is_not_login(e, "未提供 Token"@, self.inner().lt()),
            },
    {
        self.logic.get_terminal_info()
    }

    /// The roles of the current account; a missing-login error without one.
    pub fn get_role_list(&self) -> (r: SaResult<Vec<String>>)
        requires
            self.inner().wf(),
        ensures
            self.inner().current_login_id() matches Some(id) ==> (r matches Ok(v) && views(v@) == self.inner().source().roles_of(id, self.inner().lt())),
            self.inner().current_login_id() is None ==> (r matches Err(e) && is_not_login(e, "未登录"@, self.inner().lt())),
    {
        self.logic.get_role_list()
    }

    /// The roles of an account, as the source answers.
    pub fn get_role_list_for(&self, login_id: &str) -> (r: SaResult<Vec<String>>)
        ensures
            r matches Ok(v) && views(v@) == self.inner().source().roles_of(login_id@, self.inner().lt()),
    {
        self.logic.get_role_list_for(login_id)
    }

    /// Whether the source lists the role for the current account; a
    /// missing-login error without one.
    pub fn has_role(&self, role: &str) -> (r: SaResult<bool>)
        requires
            self.inner().wf(),
        ensures
            self.inner().current_login_id() matches Some(id) ==> r == Ok::<bool, SaTokenException>(self.inner().source().roles_of(id, self.inner().lt()).contains(role@)),
            self.inner().current_login_id() is None ==> (r matches Err(e) && is_not_login(e, "未登录"@, self.inner().lt())),
    {
        self.logic.has_role(role)
    }

    /// Whether the source lists every one of the roles for the current
    /// account (see [`contains_all`]).
    pub fn has_role_and(&self, roles: &[&str]) -> (r: SaResult<bool>)
        requires
            self.inner().wf(),
        ensures
            self.inner().current_login_id() matches Some(id) ==> r == Ok::<bool, SaTokenException>(holds_all(self.inner().source().roles_of(id, self.inner().lt()), str_views(roles@))),
            self.inner().current_login_id() is None ==> (r matches Err(e) && is_not_login(e, "未登录"@, self.inner().lt())),
            self.inner().current_login_id() is Some && roles@.len() == 0 ==> r == Ok::<bool, SaTokenException>(true),
    {
        self.logic.has_role_and(roles)
    }

    /// Whether the source lists one of the roles for the current account
    /// (see [`contains_any`]).
    pub fn has_role_or(&self, roles: &[&str]) -> (r: SaResult<bool>)
        requires
            self.inner().wf(),
        ensures
            self.inner().current_login_id() matches Some(id) ==> r == Ok::<bool, SaTokenException>(holds_any(self.inner().source().roles_of(id, self.inner().lt()), str_views(roles@))),
            self.inner().current_login_id() is None ==> (r matches Err(e) && is_not_login(e, "未登录"@, self.inner().lt())),
            self.inner().current_login_id() is Some && roles@.len() == 0 ==> r == Ok::<bool, SaTokenException>(false),
    {
        self.logic.has_role_or(roles)
    }

    /// Fails with a missing-role error unless the source lists the role
    /// for the current account.
    pub fn check_role(&self, role: &str) -> (r: SaResult<()>)
        requires
            self.inner().wf(),
        ensures
            self.inner().current_login_id() matches Some(id) ==> (if self.inner().source().roles_of(id, self.inner().lt()).contains(role@) { r is Ok } else {
                r matches Err(e) && is_not_role(e, role@, self.inner().lt()) }),
            self.inner().current_login_id() is None ==> (r matches Err(e) && is_not_login(e, "未登录"@, self.inner().lt())),
    {
        self.logic.check_role(role)
    }

    /// Fails unless the source lists every one of the roles for the
    /// current account; the error names them joined by commas.
    pub fn check_role_and(&self, roles: &[&str]) -> (r: SaResult<()>)
        requires
            self.inner().wf(),
        ensures
            self.inner().current_login_id() matches Some(id) ==> (if holds_all(self.inner().source().roles_of(id, self.inner().lt()), str_views(roles@)) { r is Ok } else {
                r matches Err(e) && is_not_role(e, join(str_views(roles@), ","@), self.inner().lt()) }),
            self.inner().current_login_id() is None ==> (r matches Err(e) && is_not_login(e, "未登录"@, self.inner().lt())),
    {
        self.logic.check_role_and(roles)
    }

    /// Fails unless the source lists one of the roles for the current
    /// account; the error names them joined by commas.
    pub fn check_role_or(&self, roles: &[&str]) -> (r: SaResult<()>)
        requires
            self.inner().wf(),
        ensures
            self.inner().current_login_id() matches Some(id) ==> (if holds_any(self.inner().source().roles_of(id, self.inner().lt()), str_views(roles@)) { r is Ok } else {
                r matches Err(e) && is_not_role(e, join(str_views(roles@), ","@), self.inner().lt()) }),
            self.inner().current_login_id() is None ==> (r matches Err(e) && is_not_login(e, "未登录"@, self.inner().lt())),
    {
        self.logic.check_role_or(roles)
    }

    /// The permissions of the current account; a missing-login error without one.
    pub fn get_permission_list(&self) -> (r: SaResult<Vec<String>>)
        requires
            self.inner().wf(),
        ensures
            self.inner().current_login_id() matches Some(id) ==> (r matches Ok(v) && views(v@) == self.inner().source().permissions_of(id, self.inner().lt())),
            self.inner().current_login_id() is None ==> (r matches Err(e) && is_not_login(e, "未登录"@, self.inner().lt())),
    {
        self.logic.get_permission_list()
    }

    /// The permissions of an account, as the source answers.
    pub fn get_permission_list_for(&self, login_id: &str) -> (r: SaResult<Vec<String>>)
        ensures
            r matches Ok(v) && views(v@) == self.inner().source().permissions_of(login_id@, self.inner().lt()),
    {
        self.logic.get_permission_list_for(login_id)
    }

    /// Whether the source lists the permission for the current account; a
    /// missing-login error without one.
    pub fn has_permission(&self, permission: &str) -> (r: SaResult<bool>)
        requires
            self.inner().wf(),
        ensures
            self.inner().current_login_id() matches Some(id) ==> r == Ok::<bool, SaTokenException>(self.inner().source().permissions_of(id, self.inner().lt()).contains(permission@)),
            self.inner().current_login_id() is None ==> (r matches Err(e) && is_not_login(e, "未登录"@, self.inner().lt())),
    {
        self.logic.has_permission(permission)
    }

    /// Whether the source lists every one of the permissions for the current
    /// account (see [`contains_all`]).
    pub fn has_permission_and(&self, permissions: &[&str]) -> (r: SaResult<bool>)
        requires
            self.inner().wf(),
        ensures
            self.inner().current_login_id() matches Some(id) ==> r == Ok::<bool, SaTokenException>(holds_all(self.inner().source().permissions_of(id, self.inner().lt()), str_views(permissions@))),
            self.inner().current_login_id() is None ==> (r matches Err(e) && is_not_login(e, "未登录"@, self.inner().lt())),
            self.inner().current_login_id() is Some && permissions@.len() == 0 ==> r == Ok::<bool, SaTokenException>(true),
    {
        self.logic.has_permission_and(permissions)
    }

    /// Whether the source lists one of the permissions for the current account
    /// (see [`contains_any`]).
    pub fn has_permission_or(&self, permissions: &[&str]) -> (r: SaResult<bool>)
        requires
            self.inner().wf(),
        ensures
            self.inner().current_login_id() matches Some(id) ==> r == Ok::<bool, SaTokenException>(holds_any(self.inner().source().permissions_of(id, self.inner().lt()), str_views(permissions@))),
            self.inner().current_login_id() is None ==> (r matches Err(e) && is_not_login(e, "未登录"@, self.inner().lt())),
            self.inner().current_login_id() is Some && permissions@.len() == 0 ==> r == Ok::<bool, SaTokenException>(false),
    {
        self.logic.has_permission_or(permissions)
    }

    /// Fails with a missing-permission error unless the source lists the permission
    /// for the current account.
    pub fn check_permission(&self, permission: &str) -> (r: SaResult<()>)
        requires
            self.inner().wf(),
        ensures
            self.inner().current_login_id() matches Some(id) ==> (if self.inner().source().permissions_of(id, self.inner().lt()).contains(permission@) { r is Ok } else {
                r matches Err(e) && is_not_permission(e, permission@, self.inner().lt()) }),
            self.inner().current_login_id() is None ==> (r matches Err(e) && is_not_login(e, "未登录"@, self.inner().lt())),
    {
        self.logic.check_permission(permission)
    }

    /// Fails unless the source lists every one of the permissions for the
    /// current account; the error names them joined by commas.
    pub fn check_permission_and(&self, permissions: &[&str]) -> (r: SaResult<()>)
        requires
            self.inner().wf(),
        ensures
            self.inner().current_login_id() matches Some(id) ==> (if holds_all(self.inner().source().permissions_of(id, self.inner().lt()), str_views(permissions@)) { r is Ok } else {
                r matches Err(e) && is_not_permission(e, join(str_views(permissions@), ","@), self.inner().lt()) }),
            self.inner().current_login_id() is None ==> (r matches Err(e) && is_not_login(e, "未登录"@, self.inner().lt())),
    {
        self.logic.check_permission_and(permissions)
    }

    /// Fails unless the source lists one of the permissions for the current
    /// account; the error names them joined by commas.
    pub fn check_permission_or(&self, permissions: &[&str]) -> (r: SaResult<()>)
        requires
            self.inner().wf(),
        ensures
            self.inner().current_login_id() matches Some(id) ==> (if holds_any(self.inner().source().permissions_of(id, self.inner().lt()), str_views(permissions@)) { r is Ok } else {
                r matches Err(e) && is_not_permission(e, join(str_views(permissions@), ","@), self.inner().lt()) }),
            self.inner().current_login_id() is None ==> (r matches Err(e) && is_not_login(e, "未登录"@, self.inner().lt())),
    {
        self.logic.check_permission_or(permissions)
    }

    /// Bans an account from logging in at the lowest level.
    pub fn disable(&mut self, login_id: &str, time: i64) -> (r: SaResult<()>)
        requires
            old(self).inner().wf(),
            fits(old(self).inner().now(), time),
        ensures
            final(self).inner().wf(),
            final(self).inner().same_but_store(&old(self).inner()),
            login_id@.len() > 0 ==> r is Ok && final(self).inner().store() == (DaoModel {
                strings: old(self).inner().store().strings.insert(old(self).inner().dkey(login_id@, "login"@),
                    (int_text(1), expire_moment(time, old(self).inner().now()))),
                ..old(self).inner().store()
            }),
            login_id@.len() == 0 ==> (r matches Err(e) && is_code(e, CODE_11062, "请提供要封禁的账号"@)
                && final(self).inner().store() == old(self).inner().store()),
            r is Ok ==> final(self).inner().stored_level(login_id@, "login"@) == Some(1i32),
    {
        self.logic.disable(login_id, time)
    }

    /// Lifts an account's ban from logging in.
    pub fn untie_disable(&mut self, login_id: &str) -> (r: SaResult<()>)
        requires
            old(self).inner().wf(),
        ensures
            final(self).inner().wf(),
            final(self).inner().same_but_store(&old(self).inner()),
            login_id@.len() == 0 ==> (r matches Err(e) && is_code(e, CODE_11062, "请提供要解禁的账号"@)
                && final(self).inner().store() == old(self).inner().store()),
            login_id@.len() > 0 ==> r is Ok && final(self).inner().store() == (DaoModel {
                strings: old(self).inner().store().strings.remove(old(self).inner().dkey(login_id@, "login"@)),
                ..old(self).inner().store()
            }),
    {
        self.logic.untie_disable(login_id)
    }

    /// Fails when an account is banned from logging in.
    pub fn check_disable(&mut self, login_id: &str) -> (r: SaResult<()>)
        requires
            old(self).inner().wf(),
        ensures
            final(self).inner().wf(),
            final(self).inner().same_but_store(&old(self).inner()),
            ({
                let w = old(self).inner().source().ban_report(login_id@, "login"@);
                &&& old(self).inner().store_after_level_query(login_id@, "login"@, w) == final(self).inner().store()
                &&& match old(self).inner().level_result(login_id@, "login"@, w) {
                    Some(l) => if l == -2 || l < 1 {
                        r is Ok
                    } else {
                        r matches Err(e) && is_code(e, CODE_11061, disabled_message("login"@))
                    },
                    None => r matches Err(e) && is_disable_args_error(e, login_id@, "login"@, w.disable_level),
                }
            }),
    {
        self.logic.check_disable(login_id)
    }

    /// Grants second-level authentication for the empty service.
    pub fn open_safe(&mut self, safe_time: i64) -> (r: SaResult<()>)
        requires
            old(self).inner().wf(),
            fits(old(self).inner().now(), safe_time),
        ensures
            final(self).inner().wf(),
            final(self).inner().same_but_store(&old(self).inner()),
            match old(self).inner().current_token() {
                Some(tv) => r is Ok && final(self).inner().store() == (DaoModel {
                    strings: old(self).inner().store().strings.insert(safe_key(old(self).inner().name(), old(self).inner().lt(), tv, ""@),
                        ("SAFE_AUTH_SAVE_VALUE"@, expire_moment(safe_time, old(self).inner().now()))),
                    ..old(self).inner().store()
                }),
                None => r matches Err(e) && is_not_login(e, "未提供 Token"@, old(self).inner().lt())
                    && final(self).inner().store() == old(self).inner().store(),
            },
            r is Ok ==> final(self).inner().safe_now(""@),
    {
        self.logic.open_safe(safe_time)
    }

    /// Grants the current token second-level authentication for a service
    /// for `safe_time` seconds (zero or less: forever).
    pub fn open_safe_with_service(&mut self, service: &str, safe_time: i64) -> (r: SaResult<()>)
        requires
            old(self).inner().wf(),
            fits(old(self).inner().now(), safe_time),
        ensures
            final(self).inner().wf(),
            final(self).inner().same_but_store(&old(self).inner()),
            match old(self).inner().current_token() {
                Some(tv) => r is Ok && final(self).inner().store() == (DaoModel {
                    strings: old(self).inner().store().strings.insert(safe_key(old(self).inner().name(), old(self).inner().lt(), tv, service@),
                        ("SAFE_AUTH_SAVE_VALUE"@, expire_moment(safe_time, old(self).inner().now()))),
                    ..old(self).inner().store()
                }),
                None => r matches Err(e) && is_not_login(e, "未提供 Token"@, old(self).inner().lt())
                    && final(self).inner().store() == old(self).inner().store(),
            },
            r is Ok ==> final(self).inner().safe_now(service@),
            r is Ok ==> final(self).inner().safe_opened_from(&old(self).inner(), service@, safe_time),
            match old(self).inner().current_token() {
                Some(tv) => final(self).inner().events() == old(self).inner().events().push(EventModel::OpenSafe {
                    login_type: old(self).inner().lt(), token: tv, service: service@, safe_time }),
                None => final(self).inner().events() == old(self).inner().events(),
            },
    {
        self.logic.open_safe_with_service(service, safe_time)
    }

    /// Fails unless the current token holds second-level authentication for the empty service.
    pub fn check_safe(&self) -> (r: SaResult<()>)
        requires
            self.inner().wf(),
        ensures
            self.inner().safe_now(""@) ==> r is Ok,
            !self.inner().safe_now(""@) ==> (r matches Err(e) && is_not_safe(e, ""@, self.inner().lt())),
    {
        self.logic.check_safe()
    }

    /// Withdraws second-level authentication for the empty service.
    pub fn close_safe(&mut self) -> (r: SaResult<()>)
        requires
            old(self).inner().wf(),
        ensures
            r is Ok,
            final(self).inner().wf(),
            final(self).inner().same_but_store(&old(self).inner()),
            match old(self).inner().current_token() {
                Some(tv) => final(self).inner().store() == (DaoModel {
                    strings: old(self).inner().store().strings.remove(safe_key(old(self).inner().name(), old(self).inner().lt(), tv, ""@)),
                    ..old(self).inner().store()
                }),
                None => final(self).inner().store() == old(self).inner().store(),
            },
            !final(self).inner().safe_now(""@),
    {
        self.logic.close_safe()
    }

    /// Switches the current request to act as another account; a
    /// missing-login error without a token.
    pub fn switch_to(&mut self, login_id: &str) -> (r: SaResult<()>)
        requires
            old(self).inner().wf(),
        ensures
            final(self).inner().wf(),
            final(self).inner().lt() == old(self).inner().lt(),
            final(self).inner().now() == old(self).inner().now(),
            final(self).inner().cfg() == old(self).inner().cfg(),
            final(self).inner().store() == old(self).inner().store(),
            final(self).inner().source() == old(self).inner().source(),
            final(self).inner().ctx().valid == old(self).inner().ctx().valid,
            final(self).inner().ctx().request == old(self).inner().ctx().request,
            final(self).inner().ctx().response == old(self).inner().ctx().response,
            old(self).inner().current_token() is Some ==> r is Ok && final(self).inner().ctx().storage.view_map()
                == old(self).inner().ctx().storage.view_map().insert(switch_key(old(self).inner().lt()), login_id@),
            old(self).inner().current_token() is None ==> (r matches Err(e) && is_not_login(e, "未提供 Token"@, old(self).inner().lt())
                && final(self).inner().ctx() == old(self).inner().ctx()),
            r is Ok ==> final(self).inner().switched_to() == Some(login_id@),
    {
        self.logic.switch_to(login_id)
    }

    /// Ends the switch.
    pub fn end_switch(&mut self) -> (r: SaResult<()>)
        requires
            old(self).inner().wf(),
        ensures
            r is Ok,
            final(self).inner().wf(),
            final(self).inner().lt() == old(self).inner().lt(),
            final(self).inner().now() == old(self).inner().now(),
            final(self).inner().cfg() == old(self).inner().cfg(),
            final(self).inner().store() == old(self).inner().store(),
            final(self).inner().source() == old(self).inner().source(),
            final(self).inner().ctx().valid == old(self).inner().ctx().valid,
            final(self).inner().ctx().request == old(self).inner().ctx().request,
            final(self).inner().ctx().response == old(self).inner().ctx().response,
            final(self).inner().ctx().storage.view_map() == old(self).inner().ctx().storage.view_map().remove(switch_key(old(self).inner().lt())),
            final(self).inner().switched_to() is None,
    {
        self.logic.end_switch()
    }

    /// An anonymous token session, created when needed (see
    /// [`Self::get_anon_token_session_create`]).
    pub fn get_anon_token_session(&mut self) -> (r: SaResult<SaSession>)
        requires
            old(self).inner().wf(),
        ensures
            final(self).inner().wf(),
            final(self).inner().lt() == old(self).inner().lt(),
            final(self).inner().now() == old(self).inner().now(),
            final(self).inner().cfg() == old(self).inner().cfg(),
            final(self).inner().source() == old(self).inner().source(),
            r is Ok,
            match old(self).inner().current_token() {
                Some(tv) => tv.len() > 0 && old(self).inner().token_session_of(tv) is Some,
                None => false,
            } ==> (r matches Ok(v) && v@ == old(self).inner().token_session_of(old(self).inner().current_token()->0)->0
                && final(self).inner().same(&old(self).inner())),
            match old(self).inner().current_token() {
                Some(tv) => tv.len() > 0 && old(self).inner().token_session_of(tv) is None && old(self).inner().owner_of(tv) is Some,
                None => false,
            } ==> {
                let tv = old(self).inner().current_token()->0;
                &&& final(self).inner().same_but_store(&old(self).inner())
                &&& r matches Ok(v) && v@ == old(self).inner().new_token_session(tv, "token"@)
                &&& final(self).inner().store() == (DaoModel {
                    sessions: old(self).inner().store().sessions.insert(old(self).inner().tskey(tv),
                        (old(self).inner().new_token_session(tv, "token"@), expire_moment(
                            remaining(old(self).inner().store().strings, old(self).inner().tkey(tv), old(self).inner().now()),
                            old(self).inner().now()))),
                    ..old(self).inner().store()
                })
            },
            !match old(self).inner().current_token() {
                Some(tv) => tv.len() > 0 && (old(self).inner().token_session_of(tv) is Some || old(self).inner().owner_of(tv) is Some),
                None => false,
            } ==> (r matches Ok(v) && {
                let tv = v@.token;
                &&& token_of_style(old(self).inner().cfg().token_style@, tv)
                &&& v@ == old(self).inner().new_token_session(tv, "Anon-Token-Session"@)
                &&& final(self).inner().store() == (DaoModel {
                    strings: old(self).inner().store().strings.insert(old(self).inner().akey(tv), (int_text(old(self).inner().now() as int), -1i64)),
                    sessions: old(self).inner().store().sessions.insert(old(self).inner().tskey(tv),
                        (v@, expire_moment(old(self).inner().cfg().timeout, old(self).inner().now()))),
                    ..old(self).inner().store()
                })
                &&& final(self).inner().ctx().valid == old(self).inner().ctx().valid
                &&& final(self).inner().ctx().request == old(self).inner().ctx().request
                &&& old(self).inner().ctx().valid ==> final(self).inner().ctx().storage.view_map()
                    == old(self).inner().ctx().storage.view_map().insert(old(self).inner().name(), tv)
                &&& !old(self).inner().ctx().valid ==> final(self).inner().ctx() == old(self).inner().ctx()
            }),
    {
        self.logic.get_anon_token_session()
    }
}

} // verus!
