//! The login, session, role, permission, ban and second-level
//! authentication rules of one account type.
use vstd::prelude::*;
use vstd::string::StringExecFns;
use crate::config::{SaTokenConfig, is_default_config};
use crate::json::clone_json;
use crate::context::{SaCookie, SaRequestForMock, SaTokenContext};
use crate::dao::{DaoModel, SaTokenDaoMemory, expire_moment, fits, live_value, remaining, with_expire, with_value};
use crate::exception::{
    SaResult, SaTokenException, CODE_11002, CODE_11062, CODE_11063, CODE_11064, CODE_11061, disabled_message, is_code, is_not_login, is_other, is_not_role, is_not_permission, is_not_safe,
};
use crate::num::{lemma_parse_int_text, int_text, parse_i32, parse_i64, int_to_string, spec_parse_i32, spec_parse_i64};
use crate::session::{SaSession, SaTerminalInfo, SessionModel, TerminalModel, find_token, lemma_find_token, lemma_without_token, lemma_without_token_keeps_absent, terminal_models, tokens_of, without_token};
use crate::stp::parameter::SaLoginParameter;
use crate::stp::model::SaTokenInfo;
use crate::stp::interface::{SaDisableWrapperInfo, StpInterface, StpInterfaceDefaultImpl};
use crate::stp::keys::{create_token_value, token_of_style, lemma_styled_token_not_empty,
    disable_key, last_active_key, safe_key, session_key, switch_key, token_key, token_name_key, token_session_key,
    make_disable_key, make_last_active_key, make_safe_key, make_session_key, make_switch_key, make_token_key,
    make_token_name_key, make_token_session_key,
};
use crate::text::{chars_of, has_prefix, starts_with, string_of, join, views};

verus! {

/// Largest lifetime, in seconds, that a caller may hand to the library.
pub const MAX_TIMEOUT: i64 = 0x4000_0000_0000_0000;

/// Bound of the clock the library runs on.
pub const CLOCK_LIMIT: i64 = 0x4000_0000_0000_0000;

/// The value of a present, non-empty entry.
pub open spec fn non_empty_at(m: Map<Seq<char>, Seq<char>>, k: Seq<char>) -> Option<Seq<char>> {
    if m.contains_key(k) && m[k].len() > 0 { Some(m[k]) } else { None }
}

/// `t` without the prefix `p`, when `p` is not empty and begins `t`.
pub open spec fn cut_prefix(t: Seq<char>, p: Seq<char>) -> Seq<char> {
    if p.len() > 0 && has_prefix(t, p) { t.subrange(p.len() as int, t.len() as int) } else { t }
}

/// The token a request carries: the first non-empty one of the header, the
/// cookie and the parameter named after the token, as far as the settings
/// read them, with the token prefix cut off.
pub open spec fn token_in_request(config: SaTokenConfig, request: SaRequestForMock) -> Option<Seq<char>> {
    let name = config.token_name@;
    let prefix = config.token_prefix@;
    if config.is_read_header && non_empty_at(request.headers_view(), name) is Some {
        Some(cut_prefix(request.headers_view()[name], prefix))
    } else if config.is_read_cookie && non_empty_at(request.cookies_view(), name) is Some {
        Some(cut_prefix(request.cookies_view()[name], prefix))
    } else if config.is_read_body && non_empty_at(request.params_view(), name) is Some {
        Some(cut_prefix(request.params_view()[name], prefix))
    } else {
        None
    }
}

/// The token of the current request: the one it carries, else a non-empty
/// one in the request storage; none without a current request.
pub open spec fn token_in_context(config: SaTokenConfig, context: SaTokenContext) -> Option<Seq<char>> {
    if !context.valid {
        None
    } else if token_in_request(config, context.request) is Some {
        token_in_request(config, context.request)
    } else {
        non_empty_at(context.storage.view_map(), config.token_name@)
    }
}

/// Whether the role list holds every one of the roles.
pub open spec fn holds_all(list: Seq<Seq<char>>, items: Seq<Seq<char>>) -> bool {
    forall|i: int| 0 <= i < items.len() ==> list.contains(#[trigger] items[i])
}

/// Whether the role list holds one of the roles.
pub open spec fn holds_any(list: Seq<Seq<char>>, items: Seq<Seq<char>>) -> bool {
    exists|i: int| 0 <= i < items.len() && list.contains(#[trigger] items[i])
}

/// The views of string slices.
pub open spec fn str_views(items: Seq<&str>) -> Seq<Seq<char>> {
    items.map_values(|s: &str| s@)
}

/// Whether the list holds the item.
pub fn list_contains(list: &Vec<String>, item: &str) -> (r: bool)
    ensures
        r == views(list@).contains(item@),
{
    let mut i: usize = 0;
    while i < list.len()
        invariant
            i <= list@.len(),
            forall|j: int| 0 <= j < i ==> list@[j]@ != item@,
        decreases list@.len() - i,
    {
        if crate::text::str_eq(list[i].as_str(), item) {
            proof {
                assert(views(list@)[i as int] == item@);
            }
            return true;
        }
        i += 1;
    }
    proof {
        if views(list@).contains(item@) {
            let k = choose|k: int| 0 <= k < views(list@).len() && views(list@)[k] == item@;
            assert(list@[k]@ == item@);
        }
    }
    false
}

/// Whether the list holds every one of the items.
pub fn contains_all(list: &Vec<String>, items: &[&str]) -> (r: bool)
    ensures
        r == holds_all(views(list@), str_views(items@)),
{
    let mut i: usize = 0;
    while i < items.len()
        invariant
            i <= items@.len(),
            forall|j: int| 0 <= j < i ==> views(list@).contains(#[trigger] str_views(items@)[j]),
        decreases items@.len() - i,
    {
        if !list_contains(list, items[i]) {
            assert(!views(list@).contains(str_views(items@)[i as int]));
            return false;
        }
        i += 1;
    }
    true
}

/// Whether the list holds one of the items.
pub fn contains_any(list: &Vec<String>, items: &[&str]) -> (r: bool)
    ensures
        r == holds_any(views(list@), str_views(items@)),
{
    let mut i: usize = 0;
    while i < items.len()
        invariant
            i <= items@.len(),
            forall|j: int| 0 <= j < i ==> !views(list@).contains(#[trigger] str_views(items@)[j]),
        decreases items@.len() - i,
    {
        if list_contains(list, items[i]) {
            assert(views(list@).contains(str_views(items@)[i as int]));
            return true;
        }
        i += 1;
    }
    false
}

/// A ban request is well formed: an account and a service are given and the
/// level is 0 or at least the lowest level.
pub open spec fn disable_args_ok(id: Seq<char>, service: Seq<char>, level: i32) -> bool {
    id.len() > 0 && service.len() > 0 && !(level < 1 && level != 0)
}

/// `e` is the error a malformed ban request gets.
pub open spec fn is_disable_args_error(e: SaTokenException, id: Seq<char>, service: Seq<char>, level: i32) -> bool {
    if id.len() == 0 {
        is_code(e, CODE_11062, "请提供要封禁的账号"@)
    } else if service.len() == 0 {
        is_code(e, CODE_11063, "请提供要封禁的服务"@)
    } else {
        is_code(e, CODE_11064, "封禁等级不可以小于最小值：1 (0除外)"@)
    }
}

/// Whether a ban the source reports is recorded in the store: it lasts
/// forever (-1) or a positive time whose end `now` plus the time is a
/// representable moment.
pub open spec fn records_ban(w: SaDisableWrapperInfo, now: i64) -> bool {
    (w.disable_time == -1 || w.disable_time > 0) && fits(now, w.disable_time)
}

/// Every stored session sits under its own id.
pub open spec fn sessions_keyed(m: Map<Seq<char>, (SessionModel, i64)>) -> bool {
    forall|k: Seq<char>| #[trigger] m.contains_key(k) ==> m[k].0.id == k
}

/// The terminals left after removing those of each token of the list in turn.
pub open spec fn without_tokens(ts: Seq<TerminalModel>, list: Seq<Seq<char>>) -> Seq<TerminalModel>
    decreases list.len(),
{
    if list.len() == 0 {
        ts
    } else {
        without_token(without_tokens(ts, list.drop_last()), list.last())
    }
}

/// The tokens of the oldest terminals beyond the most logins allowed.
pub open spec fn overflow_tokens(ts: Seq<TerminalModel>, max: i32) -> Seq<Seq<char>> {
    if max >= 0 && ts.len() > max {
        tokens_of(ts).subrange(0, ts.len() - max)
    } else {
        Seq::empty()
    }
}

/// What a login reads of its options: the device type and id, the
/// terminal's extra data, whether logins are concurrent, and the most
/// logins allowed.
pub struct LoginShape {
    pub device_type: Seq<char>,
    pub device_id: Seq<char>,
    pub extra: Option<serde_json::Value>,
    pub concurrent: bool,
    pub max: i32,
}

/// The options of a login parameter under the global settings.
pub open spec fn param_shape(param: SaLoginParameter, config: SaTokenConfig) -> LoginShape {
    LoginShape {
        device_type: param.device_type@,
        device_id: param.device_id@,
        extra: param.terminal_extra_data,
        concurrent: param.concurrent_under(&config),
        max: param.max_count_under(&config),
    }
}

/// The terminal a login records in a session that holds `len` terminals:
/// the next index (saturating), the token, and the login's device type,
/// device id and terminal extra data.
pub open spec fn login_terminal(len: nat, tv: Seq<char>, shape: LoginShape) -> TerminalModel {
    TerminalModel {
        index: if len < 2147483647 { (len + 1) as i32 } else { 2147483647i32 },
        token_value: tv,
        device_type: shape.device_type,
        device_id: shape.device_id,
        extra_data: shape.extra,
    }
}

/// The terminals `pre` with the terminal `t` added last (replacing one with
/// its token).
pub open spec fn with_terminal(pre: Seq<TerminalModel>, t: TerminalModel) -> Seq<TerminalModel> {
    without_token(pre, t.token_value).push(t)
}

/// The terminals a login leaves: `pre` with `t` added, less the oldest ones
/// beyond `max` (see [`overflow_tokens`]).
pub open spec fn login_terminals(pre: Seq<TerminalModel>, t: TerminalModel, max: i32) -> Seq<TerminalModel> {
    without_tokens(with_terminal(pre, t), overflow_tokens(with_terminal(pre, t), max))
}

/// A token key is never a last activity key.
pub proof fn lemma_token_key_not_active_key(name: Seq<char>, lt: Seq<char>, a: Seq<char>, b: Seq<char>)
    ensures
        token_key(name, lt, a) != last_active_key(name, lt, b),
{
    reveal_strlit(":token:");
    reveal_strlit(":last-active:");
    let p = name + ":"@ + lt;
    let x = token_key(name, lt, a);
    let y = last_active_key(name, lt, b);
    assert(x == p + ":token:"@ + a);
    assert(y == p + ":last-active:"@ + b);
    assert(x[p.len() as int + 1] == 't');
    assert(y[p.len() as int + 1] == 'l');
}

/// Token keys of different tokens differ.
pub proof fn lemma_token_key_injective(name: Seq<char>, lt: Seq<char>, a: Seq<char>, b: Seq<char>)
    ensures
        token_key(name, lt, a) == token_key(name, lt, b) ==> a == b,
{
    let p = name + ":"@ + lt + ":token:"@;
    assert(token_key(name, lt, a) == p + a);
    assert(token_key(name, lt, b) == p + b);
    if token_key(name, lt, a) == token_key(name, lt, b) {
        assert((p + a).subrange(p.len() as int, (p + a).len() as int) =~= a);
        assert((p + b).subrange(p.len() as int, (p + b).len() as int) =~= b);
    }
}

/// Session keys of different accounts differ.
pub proof fn lemma_session_key_injective(name: Seq<char>, lt: Seq<char>, a: Seq<char>, b: Seq<char>)
    ensures
        session_key(name, lt, a) == session_key(name, lt, b) ==> a == b,
{
    let p = name + ":"@ + lt + ":session:"@;
    assert(session_key(name, lt, a) == p + a);
    assert(session_key(name, lt, b) == p + b);
    if session_key(name, lt, a) == session_key(name, lt, b) {
        assert((p + a).subrange(p.len() as int, (p + a).len() as int) =~= a);
        assert((p + b).subrange(p.len() as int, (p + b).len() as int) =~= b);
    }
}

/// Dropping a token's terminals from the terminals a test keeps keeps
/// those the test and "not that token" keep.
pub proof fn lemma_without_token_filter(ts: Seq<TerminalModel>, keep: spec_fn(TerminalModel) -> bool, tv: Seq<char>)
    ensures
        without_token(ts.filter(keep), tv) == ts.filter(|t: TerminalModel| keep(t) && t.token_value != tv),
    decreases ts.len(),
{
    let both = |t: TerminalModel| keep(t) && t.token_value != tv;
    if ts.len() > 0 {
        lemma_without_token_filter(ts.drop_last(), keep, tv);
        assert(ts.filter(keep) == if keep(ts.last()) { ts.drop_last().filter(keep).push(ts.last()) } else { ts.drop_last().filter(keep) }) by {
            reveal_with_fuel(Seq::filter, 1);
        }
        assert(ts.filter(both) == if both(ts.last()) { ts.drop_last().filter(both).push(ts.last()) } else { ts.drop_last().filter(both) }) by {
            reveal_with_fuel(Seq::filter, 1);
        }
        if keep(ts.last()) {
            let f = ts.drop_last().filter(keep).push(ts.last());
            assert(f.drop_last() =~= ts.drop_last().filter(keep));
            assert(f.last() == ts.last());
        }
    } else {
        assert(ts.filter(keep) =~= Seq::<TerminalModel>::empty()) by {
            reveal_with_fuel(Seq::filter, 1);
        }
        assert(ts.filter(both) =~= Seq::<TerminalModel>::empty()) by {
            reveal_with_fuel(Seq::filter, 1);
        }
    }
}

/// Filtering by a test that keeps every item keeps them all.
pub proof fn lemma_filter_keeps_all(ts: Seq<TerminalModel>, keep: spec_fn(TerminalModel) -> bool)
    requires
        forall|i: int| 0 <= i < ts.len() ==> keep(#[trigger] ts[i]),
    ensures
        ts.filter(keep) == ts,
    decreases ts.len(),
{
    reveal_with_fuel(Seq::filter, 1);
    if ts.len() > 0 {
        let d = ts.drop_last();
        assert forall|i: int| 0 <= i < d.len() implies keep(#[trigger] d[i]) by {
            assert(d[i] == ts[i]);
        }
        lemma_filter_keeps_all(d, keep);
        assert(keep(ts[ts.len() - 1]));
        assert(d.push(ts.last()) =~= ts);
    } else {
        assert(ts.filter(keep) =~= ts);
    }
}

/// A session key is never a token session key.
pub proof fn lemma_session_key_not_token_session_key(name: Seq<char>, lt: Seq<char>, a: Seq<char>, b: Seq<char>)
    ensures
        session_key(name, lt, a) != token_session_key(name, lt, b),
{
    reveal_strlit(":session:");
    reveal_strlit(":token-session:");
    let p = name + ":"@ + lt;
    let x = session_key(name, lt, a);
    let y = token_session_key(name, lt, b);
    assert(x == p + ":session:"@ + a);
    assert(y == p + ":token-session:"@ + b);
    assert(x[p.len() as int + 1] == 's');
    assert(y[p.len() as int + 1] == 't');
}

/// Removing tokens other than that of the last terminal keeps it last.
pub proof fn lemma_without_tokens_keeps_last(ts: Seq<TerminalModel>, list: Seq<Seq<char>>)
    requires
        ts.len() > 0,
        forall|j: int| 0 <= j < list.len() ==> list[j] != ts.last().token_value,
    ensures
        without_tokens(ts, list).len() > 0,
        without_tokens(ts, list).last() == ts.last(),
    decreases list.len(),
{
    if list.len() > 0 {
        lemma_without_tokens_keeps_last(ts, list.drop_last());
        let w = without_tokens(ts, list.drop_last());
        assert(w.last().token_value != list.last());
    }
}

/// When only the last terminal holds its token and the tokens removed are
/// others, the last terminal stays last, the only one holding its token, and
/// is the one found for it.
pub proof fn lemma_without_tokens_unique_last(ts: Seq<TerminalModel>, list: Seq<Seq<char>>)
    requires
        ts.len() > 0,
        forall|j: int| 0 <= j < ts.len() - 1 ==> #[trigger] ts[j].token_value != ts.last().token_value,
        forall|j: int| 0 <= j < list.len() ==> list[j] != ts.last().token_value,
    ensures
        without_tokens(ts, list).len() > 0,
        without_tokens(ts, list).last() == ts.last(),
        forall|j: int| 0 <= j < without_tokens(ts, list).len() - 1
            ==> #[trigger] without_tokens(ts, list)[j].token_value != ts.last().token_value,
        find_token(without_tokens(ts, list), ts.last().token_value) == Some(without_tokens(ts, list).len() - 1),
    decreases list.len(),
{
    let tv = ts.last().token_value;
    if list.len() > 0 {
        lemma_without_tokens_unique_last(ts, list.drop_last());
        let w = without_tokens(ts, list.drop_last());
        let x = list.last();
        assert(w.last().token_value != x);
        let d = w.drop_last();
        assert forall|j: int| 0 <= j < d.len() implies #[trigger] d[j].token_value != tv by {
            assert(d[j] == w[j]);
        }
        lemma_without_token_keeps_absent(d, x, tv);
        assert(without_token(w, x) == without_token(d, x).push(w.last()));
        let r = without_tokens(ts, list);
        assert(r == without_token(w, x));
        assert forall|j: int| 0 <= j < r.len() - 1 implies #[trigger] r[j].token_value != tv by {
            assert(r[j] == without_token(d, x)[j]);
        }
    }
    let r = without_tokens(ts, list);
    lemma_find_token(r, tv);
}

/// A logged-in token found in a prefix is the one found in the whole list.
pub proof fn lemma_reuse_prefix<I: StpInterface>(logic: StpLogic<I>, ts: Seq<TerminalModel>, n: int, device: Seq<char>)
    requires
        0 <= n <= ts.len(),
        logic.reuse_token(ts.subrange(0, n), device) is Some,
    ensures
        logic.reuse_token(ts, device) == logic.reuse_token(ts.subrange(0, n), device),
    decreases ts.len() - n,
{
    if n < ts.len() {
        assert(ts.subrange(0, n + 1).drop_last() =~= ts.subrange(0, n));
        lemma_reuse_prefix(logic, ts, n + 1, device);
    } else {
        assert(ts.subrange(0, n) =~= ts);
    }
}

/// The strings without the token and last activity keys of each token of the list.
pub open spec fn strings_without(m: Map<Seq<char>, (Seq<char>, i64)>, name: Seq<char>, lt: Seq<char>, list: Seq<Seq<char>>) -> Map<Seq<char>, (Seq<char>, i64)>
    decreases list.len(),
{
    if list.len() == 0 {
        m
    } else {
        strings_without(m, name, lt, list.drop_last()).remove(token_key(name, lt, list.last())).remove(
            last_active_key(name, lt, list.last()))
    }
}

/// Removing keys keeps the remaining entries.
pub proof fn lemma_strings_without_sub(m: Map<Seq<char>, (Seq<char>, i64)>, name: Seq<char>, lt: Seq<char>, list: Seq<Seq<char>>)
    ensures
        forall|k: Seq<char>| #[trigger] strings_without(m, name, lt, list).contains_key(k)
            ==> m.contains_key(k) && strings_without(m, name, lt, list)[k] == m[k],
    decreases list.len(),
{
    if list.len() > 0 {
        lemma_strings_without_sub(m, name, lt, list.drop_last());
        let inner = strings_without(m, name, lt, list.drop_last());
        assert forall|k: Seq<char>| #[trigger] strings_without(m, name, lt, list).contains_key(k)
            implies m.contains_key(k) && strings_without(m, name, lt, list)[k] == m[k] by {
            assert(inner.contains_key(k));
        }
    }
}

/// Removing the keys of a list of tokens leaves none of their token keys.
pub proof fn lemma_strings_without_removes(m: Map<Seq<char>, (Seq<char>, i64)>, name: Seq<char>, lt: Seq<char>, list: Seq<Seq<char>>)
    ensures
        forall|j: int| 0 <= j < list.len()
            ==> !strings_without(m, name, lt, list).contains_key(token_key(name, lt, #[trigger] list[j])),
    decreases list.len(),
{
    if list.len() > 0 {
        lemma_strings_without_removes(m, name, lt, list.drop_last());
        assert forall|j: int| 0 <= j < list.len()
            implies !strings_without(m, name, lt, list).contains_key(token_key(name, lt, #[trigger] list[j])) by {
            if j < list.len() - 1 {
                assert(list.drop_last()[j] == list[j]);
            }
        }
    }
}

/// The overflow tokens of a list that ends with a new terminal whose token
/// no other terminal holds do not hold that token, when at least one login is allowed.
pub proof fn lemma_overflow_excludes_last(ts: Seq<TerminalModel>, max: i32)
    requires
        ts.len() > 0,
        max >= 1,
        forall|j: int| 0 <= j < ts.len() - 1 ==> #[trigger] ts[j].token_value != ts.last().token_value,
    ensures
        forall|j: int| 0 <= j < overflow_tokens(ts, max).len() ==> #[trigger] overflow_tokens(ts, max)[j] != ts.last().token_value,
{
    if max >= 0 && ts.len() > max {
        assert forall|j: int| 0 <= j < overflow_tokens(ts, max).len() implies #[trigger] overflow_tokens(ts, max)[j] != ts.last().token_value by {
            assert(overflow_tokens(ts, max)[j] == tokens_of(ts)[j]);
            assert(tokens_of(ts)[j] == ts[j].token_value);
        }
    }
}

/// What listeners are told of, as the library reads it.
pub enum EventModel {
    Login { login_type: Seq<char>, login_id: Seq<char>, token: Seq<char>, device_type: Seq<char> },
    Logout { login_type: Seq<char>, login_id: Seq<char>, token: Seq<char> },
    Kickout { login_type: Seq<char>, login_id: Seq<char>, token: Seq<char> },
    Replaced { login_type: Seq<char>, login_id: Seq<char>, token: Seq<char> },
    Disable { login_type: Seq<char>, login_id: Seq<char>, service: Seq<char>, level: i32, time: i64 },
    UntieDisable { login_type: Seq<char>, login_id: Seq<char>, service: Seq<char> },
    OpenSafe { login_type: Seq<char>, token: Seq<char>, service: Seq<char>, safe_time: i64 },
    CloseSafe { login_type: Seq<char>, token: Seq<char>, service: Seq<char> },
}

/// An event for the registered listeners: a login, a logout, a kickout, a
/// replaced login, a ban and its lifting, and the granting and withdrawing
/// of second-level authentication. The rules record them in order; the
/// application hands them to its listeners (see [`StpLogic::take_events`]).
pub enum SaTokenEvent {
    /// `do_login`.
    Login { login_type: String, login_id: String, token: String, device_type: String },
    /// `do_logout`.
    Logout { login_type: String, login_id: String, token: String },
    /// `do_kickout`.
    Kickout { login_type: String, login_id: String, token: String },
    /// `do_replaced`.
    Replaced { login_type: String, login_id: String, token: String },
    /// `do_disable`.
    Disable { login_type: String, login_id: String, service: String, level: i32, time: i64 },
    /// `do_untie_disable`.
    UntieDisable { login_type: String, login_id: String, service: String },
    /// `do_open_safe`.
    OpenSafe { login_type: String, token: String, service: String, safe_time: i64 },
    /// `do_close_safe`.
    CloseSafe { login_type: String, token: String, service: String },
}

impl View for SaTokenEvent {
    type V = EventModel;

    open spec fn view(&self) -> EventModel {
        match self {
            SaTokenEvent::Login { login_type, login_id, token, device_type } =>
                EventModel::Login { login_type: login_type@, login_id: login_id@, token: token@, device_type: device_type@ },
            SaTokenEvent::Logout { login_type, login_id, token } =>
                EventModel::Logout { login_type: login_type@, login_id: login_id@, token: token@ },
            SaTokenEvent::Kickout { login_type, login_id, token } =>
                EventModel::Kickout { login_type: login_type@, login_id: login_id@, token: token@ },
            SaTokenEvent::Replaced { login_type, login_id, token } =>
                EventModel::Replaced { login_type: login_type@, login_id: login_id@, token: token@ },
            SaTokenEvent::Disable { login_type, login_id, service, level, time } =>
                EventModel::Disable { login_type: login_type@, login_id: login_id@, service: service@, level: *level, time: *time },
            SaTokenEvent::UntieDisable { login_type, login_id, service } =>
                EventModel::UntieDisable { login_type: login_type@, login_id: login_id@, service: service@ },
            SaTokenEvent::OpenSafe { login_type, token, service, safe_time } =>
                EventModel::OpenSafe { login_type: login_type@, token: token@, service: service@, safe_time: *safe_time },
            SaTokenEvent::CloseSafe { login_type, token, service } =>
                EventModel::CloseSafe { login_type: login_type@, token: token@, service: service@ },
        }
    }
}

/// How a token leaves: logged out, kicked out or replaced.
#[derive(Clone, Copy)]
pub enum RemovalKind {
    Logout,
    Kickout,
    Replaced,
}

/// The event of a token of `id` leaving in this way.
pub open spec fn removal_event(kind: RemovalKind, lt: Seq<char>, id: Seq<char>, tv: Seq<char>) -> EventModel {
    match kind {
        RemovalKind::Logout => EventModel::Logout { login_type: lt, login_id: id, token: tv },
        RemovalKind::Kickout => EventModel::Kickout { login_type: lt, login_id: id, token: tv },
        RemovalKind::Replaced => EventModel::Replaced { login_type: lt, login_id: id, token: tv },
    }
}

/// The logout events of the tokens of a list, in order.
pub open spec fn logout_events(lt: Seq<char>, id: Seq<char>, tokens: Seq<Seq<char>>) -> Seq<EventModel> {
    tokens.map_values(|t: Seq<char>| EventModel::Logout { login_type: lt, login_id: id, token: t })
}

/// The views of a list of events.
pub open spec fn event_views(v: Seq<SaTokenEvent>) -> Seq<EventModel> {
    v.map_values(|e: SaTokenEvent| e@)
}

/// The last of a list of events is the login of `id` of this type from
/// this device type.
pub open spec fn ends_with_login(events: Seq<EventModel>, lt: Seq<char>, id: Seq<char>, device_type: Seq<char>) -> bool {
    &&& events.len() > 0
    &&& events.last() matches EventModel::Login { login_type: a, login_id: b, device_type: d, .. }
    &&& a == lt
    &&& b == id
    &&& d == device_type
}

/// The rules of one account type, with the settings, the store, the current
/// request and the application's source of roles and permissions they work
/// on, and the clock reading they go by.
pub struct StpLogic<I: StpInterface> {
    login_type: String,
    config: SaTokenConfig,
    dao: SaTokenDaoMemory,
    context: SaTokenContext,
    interface: I,
    clock: i64,
    events: Vec<SaTokenEvent>,
}

impl StpLogic<StpInterfaceDefaultImpl> {
    /// Rules for an account type with the default settings, an empty store,
    /// a current request without token, no roles or permissions, and the
    /// clock at zero.
    pub fn new(login_type: &str) -> (r: Self)
        ensures
            r.wf(),
            r.lt() == login_type@,
            r.now() == 0,
            is_default_config(r.cfg()),
            r.store().strings == Map::<Seq<char>, (Seq<char>, i64)>::empty(),
            r.store().sessions == Map::<Seq<char>, (SessionModel, i64)>::empty(),
            r.ctx().valid,
            r.ctx().storage.view_map() == Map::<Seq<char>, Seq<char>>::empty(),
            token_in_request(r.cfg(), r.ctx().request) is None,
            r.events() == Seq::<EventModel>::empty(),
    {
        Self::with_interface(login_type, StpInterfaceDefaultImpl)
    }
}

impl<I: StpInterface> StpLogic<I> {
    // ==================== state ====================

    /// Internal consistency: the store and the request are well formed, the
    /// clock lies in `[0, CLOCK_LIMIT)` and the global lifetime is at most
    /// `MAX_TIMEOUT`.
    pub closed spec fn wf(&self) -> bool {
        &&& self.dao.wf()
        &&& self.context.wf()
        &&& 0 <= self.clock < CLOCK_LIMIT
        &&& self.config.timeout <= MAX_TIMEOUT
        &&& sessions_keyed(self.dao@.sessions)
    }

    /// The account type.
    pub closed spec fn lt(&self) -> Seq<char> {
        self.login_type@
    }

    /// The clock reading the rules go by.
    pub closed spec fn now(&self) -> i64 {
        self.clock
    }

    /// The settings.
    pub closed spec fn cfg(&self) -> SaTokenConfig {
        self.config
    }

    /// The store.
    pub closed spec fn store(&self) -> DaoModel {
        self.dao@
    }

    /// The current request, response and storage.
    pub closed spec fn ctx(&self) -> SaTokenContext {
        self.context
    }

    /// The source of roles and permissions.
    pub closed spec fn source(&self) -> I {
        self.interface
    }

    /// The events recorded for the listeners and not yet taken, in order.
    pub closed spec fn events(&self) -> Seq<EventModel> {
        event_views(self.events@)
    }

    /// Hands over the events recorded for the listeners, in order, and
    /// forgets them.
    pub fn take_events(&mut self) -> (r: Vec<SaTokenEvent>)
        requires
            old(self).wf(),
        ensures
            event_views(r@) == old(self).events(),
            final(self).events() == Seq::<EventModel>::empty(),
            final(self).wf(),
            final(self).same_but_store(&*old(self)),
            final(self).store() == old(self).store(),
    {
        let mut taken: Vec<SaTokenEvent> = Vec::new();
        std::mem::swap(&mut taken, &mut self.events);
        proof {
            assert(event_views(self.events@) =~= Seq::<EventModel>::empty());
        }
        taken
    }

    /// Records an event for the listeners.
    fn record(&mut self, e: SaTokenEvent)
        ensures
            final(self).events() == old(self).events().push(e@),
            final(self).login_type == old(self).login_type,
            final(self).config == old(self).config,
            final(self).dao == old(self).dao,
            final(self).context == old(self).context,
            final(self).interface == old(self).interface,
            final(self).clock == old(self).clock,
    {
        self.events.push(e);
        proof {
            assert(event_views(self.events@) =~= event_views(old(self).events@).push(e@));
        }
    }

    /// The token name.
    pub open spec fn name(&self) -> Seq<char> {
        self.cfg().token_name@
    }

    /// The token key of a token.
    pub open spec fn tkey(&self, tv: Seq<char>) -> Seq<char> {
        token_key(self.name(), self.lt(), tv)
    }

    /// The last activity key of a token.
    pub open spec fn akey(&self, tv: Seq<char>) -> Seq<char> {
        last_active_key(self.name(), self.lt(), tv)
    }

    /// The session key of an account.
    pub open spec fn skey(&self, id: Seq<char>) -> Seq<char> {
        session_key(self.name(), self.lt(), id)
    }

    /// The account a token is logged in to now.
    pub open spec fn owner_of(&self, tv: Seq<char>) -> Option<Seq<char>> {
        live_value(self.store().strings, self.tkey(tv), self.now())
    }

    /// The live session of an account.
    pub open spec fn session_of(&self, id: Seq<char>) -> Option<SessionModel> {
        live_value(self.store().sessions, self.skey(id), self.now())
    }

    /// The tokens listed in an account's live session.
    pub open spec fn tokens_of_account(&self, id: Seq<char>) -> Seq<Seq<char>> {
        match self.session_of(id) {
            Some(s) => tokens_of(s.terminals),
            None => Seq::empty(),
        }
    }

    /// The token of the current request.
    pub open spec fn current_token(&self) -> Option<Seq<char>> {
        token_in_context(self.cfg(), self.ctx())
    }

    /// The account the current request acts as: the one it switched to,
    /// else the owner of its token.
    pub open spec fn current_login_id(&self) -> Option<Seq<char>> {
        match self.switched_to() {
            Some(id) => Some(id),
            None => self.token_owner(),
        }
    }

    /// The owner of the current request's token.
    pub open spec fn token_owner(&self) -> Option<Seq<char>> {
        match self.current_token() {
            Some(tv) => self.owner_of(tv),
            None => None,
        }
    }

    /// Only the store changed.
    pub open spec fn same_but_store(&self, other: &Self) -> bool {
        &&& self.lt() == other.lt()
        &&& self.now() == other.now()
        &&& self.cfg() == other.cfg()
        &&& self.ctx() == other.ctx()
        &&& self.source() == other.source()
    }

    /// Nothing changed.
    pub open spec fn same(&self, other: &Self) -> bool {
        self.same_but_store(other) && self.store() == other.store()
    }

    /// The clock bound and lifetime bound that hold of well-formed rules.
    pub proof fn lemma_wf(&self)
        requires
            self.wf(),
        ensures
            0 <= self.now() < CLOCK_LIMIT,
            self.cfg().timeout <= MAX_TIMEOUT,
            self.ctx().wf(),
    {
    }

    /// Rules for an account type with the default settings, an empty store,
    /// a current request without token, this source of roles and
    /// permissions, and the clock at zero.
    pub fn with_interface(login_type: &str, interface: I) -> (r: Self)
        ensures
            r.wf(),
            r.lt() == login_type@,
            r.now() == 0,
            is_default_config(r.cfg()),
            r.source() == interface,
            r.store().strings == Map::<Seq<char>, (Seq<char>, i64)>::empty(),
            r.store().sessions == Map::<Seq<char>, (SessionModel, i64)>::empty(),
            r.ctx().valid,
            r.ctx().storage.view_map() == Map::<Seq<char>, Seq<char>>::empty(),
            token_in_request(r.cfg(), r.ctx().request) is None,
            r.events() == Seq::<EventModel>::empty(),
    {
        let config = SaTokenConfig::default();
        let context = SaTokenContext::new(SaRequestForMock::new());
        StpLogic {
            login_type: login_type.to_owned(),
            config,
            dao: SaTokenDaoMemory::new(),
            context,
            interface,
            clock: 0,
            events: Vec::new(),
        }
    }

    /// The account type.
    pub fn login_type(&self) -> (r: &str)
        ensures
            r@ == self.lt(),
    {
        self.login_type.as_str()
    }

    /// The settings.
    pub fn config(&self) -> (r: &SaTokenConfig)
        ensures
            *r == self.cfg(),
    {
        &self.config
    }

    /// Replaces the settings.
    pub fn set_config(&mut self, config: SaTokenConfig)
        requires
            old(self).wf(),
            config.timeout <= MAX_TIMEOUT,
        ensures
            final(self).wf(),
            final(self).cfg() == config,
            final(self).lt() == old(self).lt(),
            final(self).now() == old(self).now(),
            final(self).store() == old(self).store(),
            final(self).ctx() == old(self).ctx(),
            final(self).source() == old(self).source(),
    {
        self.config = config;
    }

    /// The store.
    pub fn dao(&self) -> (r: &SaTokenDaoMemory)
        ensures
            r@ == self.store(),
    {
        &self.dao
    }

    /// The current request, response and storage.
    pub fn context(&self) -> (r: &SaTokenContext)
        ensures
            *r == self.ctx(),
    {
        &self.context
    }

    /// Starts a new current request: a valid context around it with an empty
    /// response and storage.
    pub fn set_request(&mut self, request: SaRequestForMock)
        requires
            old(self).wf(),
            request.wf(),
        ensures
            final(self).wf(),
            final(self).ctx().valid,
            final(self).ctx().request == request,
            final(self).ctx().storage.view_map() == Map::<Seq<char>, Seq<char>>::empty(),
            final(self).lt() == old(self).lt(),
            final(self).now() == old(self).now(),
            final(self).cfg() == old(self).cfg(),
            final(self).store() == old(self).store(),
            final(self).source() == old(self).source(),
    {
        self.context = SaTokenContext::new(request);
    }

    /// Replaces the current context.
    pub fn set_context(&mut self, context: SaTokenContext)
        requires
            old(self).wf(),
            context.wf(),
        ensures
            final(self).wf(),
            final(self).ctx() == context,
            final(self).lt() == old(self).lt(),
            final(self).now() == old(self).now(),
            final(self).cfg() == old(self).cfg(),
            final(self).store() == old(self).store(),
            final(self).source() == old(self).source(),
    {
        self.context = context;
    }

    /// The source of roles and permissions.
    pub fn interface(&self) -> (r: &I)
        ensures
            *r == self.source(),
    {
        &self.interface
    }

    /// The clock reading the rules go by.
    pub fn clock(&self) -> (r: i64)
        ensures
            r == self.now(),
    {
        self.clock
    }

    /// Sets the clock reading; readings outside `[0, CLOCK_LIMIT)` are ignored.
    pub fn set_clock(&mut self, now: i64)
        requires
            old(self).wf(),
        ensures
            final(self).wf(),
            final(self).now() == (if 0 <= now < CLOCK_LIMIT { now } else { old(self).now() }),
            final(self).lt() == old(self).lt(),
            final(self).cfg() == old(self).cfg(),
            final(self).store() == old(self).store(),
            final(self).ctx() == old(self).ctx(),
            final(self).source() == old(self).source(),
    {
        if 0 <= now && now < CLOCK_LIMIT {
            self.clock = now;
        }
    }

    /// Reads the clock from the system clock (see [`Self::set_clock`]).
    pub fn sync_clock(&mut self)
        requires
            old(self).wf(),
        ensures
            final(self).wf(),
            final(self).lt() == old(self).lt(),
            final(self).cfg() == old(self).cfg(),
            final(self).store() == old(self).store(),
            final(self).ctx() == old(self).ctx(),
            final(self).source() == old(self).source(),
    {
        let t = crate::util::fox_util::now_timestamp();
        self.set_clock(t);
    }

    // ==================== keys ====================

    /// The key of the account type's token name.
    pub fn splicing_key_token_name(&self) -> (r: String)
        ensures
            r@ == token_name_key(self.lt()),
    {
        make_token_name_key(self.login_type.as_str())
    }

    /// The token key of a token.
    pub fn splicing_key_token_value(&self, token_value: &str) -> (r: String)
        ensures
            r@ == self.tkey(token_value@),
    {
        make_token_key(self.config.token_name.as_str(), self.login_type.as_str(), token_value)
    }

    /// The session key of an account.
    pub fn splicing_key_session(&self, login_id: &str) -> (r: String)
        ensures
            r@ == self.skey(login_id@),
    {
        make_session_key(self.config.token_name.as_str(), self.login_type.as_str(), login_id)
    }

    /// The token session key of a token.
    pub fn splicing_key_token_session(&self, token_value: &str) -> (r: String)
        ensures
            r@ == token_session_key(self.name(), self.lt(), token_value@),
    {
        make_token_session_key(self.config.token_name.as_str(), self.login_type.as_str(), token_value)
    }

    /// The last activity key of a token.
    pub fn splicing_key_last_active_time(&self, token_value: &str) -> (r: String)
        ensures
            r@ == self.akey(token_value@),
    {
        make_last_active_key(self.config.token_name.as_str(), self.login_type.as_str(), token_value)
    }

    /// The ban key of an account and service.
    pub fn splicing_key_disable(&self, login_id: &str, service: &str) -> (r: String)
        ensures
            r@ == disable_key(self.name(), self.lt(), login_id@, service@),
    {
        make_disable_key(self.config.token_name.as_str(), self.login_type.as_str(), login_id, service)
    }

    /// The second-level authentication key of a token and service.
    pub fn splicing_key_safe(&self, token_value: &str, service: &str) -> (r: String)
        ensures
            r@ == safe_key(self.name(), self.lt(), token_value@, service@),
    {
        make_safe_key(self.config.token_name.as_str(), self.login_type.as_str(), token_value, service)
    }

    /// The storage key of the switched-to account.
    pub fn splicing_key_switch(&self) -> (r: String)
        ensures
            r@ == switch_key(self.lt()),
    {
        make_switch_key(self.login_type.as_str())
    }

    // ==================== tokens ====================

    /// The token name.
    pub fn token_name(&self) -> (r: String)
        ensures
            r@ == self.name(),
    {
        self.config.token_name.clone()
    }

    /// The token without the configured prefix, when the prefix is set and begins it.
    fn cut_token_prefix(&self, token: &str) -> (r: String)
        ensures
            r@ == cut_prefix(token@, self.cfg().token_prefix@),
    {
        let prefix = self.config.token_prefix.as_str();
        let pcs = chars_of(prefix);
        if pcs.len() > 0 && starts_with(token, prefix) {
            let tcs = chars_of(token);
            let n = pcs.len();
            let r = string_of(&tcs.as_slice()[n..tcs.len()]);
            r
        } else {
            token.to_owned()
        }
    }

    /// The token of the current request.
    pub fn get_token_value(&self) -> (r: Option<String>)
        requires
            self.wf(),
        ensures
            match r {
                Some(t) => self.current_token() == Some(t@),
                None => self.current_token() is None,
            },
    {
        if self.context.is_valid() {
            let name = self.config.token_name.as_str();
            if self.config.is_read_header {
                if let Some(token) = self.context.request.get_header(name) {
                    if !token.as_str().is_empty() {
                        return Some(self.cut_token_prefix(token.as_str()));
                    }
                }
            }
            if self.config.is_read_cookie {
                if let Some(token) = self.context.request.get_cookie_value(name) {
                    if !token.as_str().is_empty() {
                        return Some(self.cut_token_prefix(token.as_str()));
                    }
                }
            }
            if self.config.is_read_body {
                if let Some(token) = self.context.request.get_param(name) {
                    if !token.as_str().is_empty() {
                        return Some(self.cut_token_prefix(token.as_str()));
                    }
                }
            }
            if let Some(token) = self.context.storage.get(name) {
                if !token.as_str().is_empty() {
                    return Some(token);
                }
            }
        }
        None
    }

    /// Writes the token to the current request: the storage, the cookie
    /// when cookies are read, the response header when headers are written;
    /// nothing without a current request.
    pub fn set_token_value(&mut self, token_value: &str) -> (r: SaResult<()>)
        requires
            old(self).wf(),
        ensures
            r is Ok,
            final(self).wf(),
            final(self).lt() == old(self).lt(),
            final(self).now() == old(self).now(),
            final(self).cfg() == old(self).cfg(),
            final(self).store() == old(self).store(),
            final(self).source() == old(self).source(),
            !old(self).ctx().valid ==> final(self).ctx() == old(self).ctx(),
            old(self).ctx().valid ==> {
                &&& final(self).ctx().valid
                &&& final(self).ctx().request == old(self).ctx().request
                &&& final(self).ctx().storage.view_map()
                    == old(self).ctx().storage.view_map().insert(old(self).name(), token_value@)
                &&& final(self).ctx().response.cookies_view() == (if old(self).cfg().is_read_cookie {
                    old(self).ctx().response.cookies_view().push((old(self).name(), token_value@))
                } else {
                    old(self).ctx().response.cookies_view()
                })
                &&& final(self).ctx().response.headers_view() == (if old(self).cfg().is_write_header {
                    old(self).ctx().response.headers_view().insert(old(self).name(), token_value@)
                } else {
                    old(self).ctx().response.headers_view()
                })
            },
            final(self).events() == old(self).events(),
    {
        if !self.context.is_valid() {
            return Ok(());
        }
        let name = self.config.token_name.as_str();
        self.context.storage.set(name, token_value);
        if self.config.is_read_cookie {
            let cookie = SaCookie::new(name, token_value);
            self.context.response.add_cookie(cookie);
        }
        if self.config.is_write_header {
            self.context.response.set_header(name, token_value);
        }
        Ok(())
    }

    /// The account a token is logged in to.
    pub fn get_login_id_by_token(&self, token_value: &str) -> (r: SaResult<Option<String>>)
        requires
            self.wf(),
        ensures
            r matches Ok(o) && match o {
                Some(id) => self.owner_of(token_value@) == Some(id@),
                None => self.owner_of(token_value@) is None,
            },
    {
        let key = self.splicing_key_token_value(token_value);
        Ok(self.dao.get(key.as_str(), self.clock))
    }

    /// The account the current request is logged in to, if any.
    pub fn get_login_id_default_null(&self) -> (r: SaResult<Option<String>>)
        requires
            self.wf(),
        ensures
            r matches Ok(o) && match o {
                Some(id) => self.current_login_id() == Some(id@),
                None => self.current_login_id() is None,
            },
    {
        let key = self.splicing_key_switch();
        if let Some(id) = self.context.storage.get(key.as_str()) {
            return Ok(Some(id));
        }
        match self.get_token_value() {
            Some(tv) => self.get_login_id_by_token(tv.as_str()),
            None => Ok(None),
        }
    }

    /// Whether the current request is logged in.
    pub fn is_login(&self) -> (r: SaResult<bool>)
        requires
            self.wf(),
        ensures
            r == Ok::<bool, SaTokenException>(self.current_login_id() is Some),
    {
        let id = self.get_login_id_default_null()?;
        Ok(id.is_some())
    }

    /// Fails with a missing-login error when the current request is not logged in.
    pub fn check_login(&self) -> (r: SaResult<()>)
        requires
            self.wf(),
        ensures
            self.current_login_id() is Some ==> r is Ok,
            self.current_login_id() is None ==> (r matches Err(e) && is_not_login(e, "未登录"@, self.lt())),
    {
        if !self.is_login()? {
            return Err(SaTokenException::not_login("未登录", self.login_type.as_str()));
        }
        Ok(())
    }

    /// The account the current request acts as (see `switch_to`); a missing-login
    /// error when there is none.
    pub fn get_login_id(&self) -> (r: SaResult<String>)
        requires
            self.wf(),
        ensures
            match self.current_login_id() {
                Some(id) => r matches Ok(s) && s@ == id,
                None => r matches Err(e) && is_not_login(e, "未登录"@, self.lt()),
            },
    {
        match self.get_login_id_default_null()? {
            Some(id) => Ok(id),
            None => Err(SaTokenException::not_login("未登录", self.login_type.as_str())),
        }
    }

    /// The same as [`Self::get_login_id`].
    pub fn get_login_id_as_string(&self) -> (r: SaResult<String>)
        requires
            self.wf(),
        ensures
            match self.current_login_id() {
                Some(id) => r matches Ok(s) && s@ == id,
                None => r matches Err(e) && is_not_login(e, "未登录"@, self.lt()),
            },
    {
        self.get_login_id()
    }

    /// The account id of the current request as an `i32`.
    pub fn get_login_id_as_i32(&self) -> (r: SaResult<i32>)
        requires
            self.wf(),
        ensures
            match self.current_login_id() {
                Some(id) => match spec_parse_i32(id) {
                    Some(n) => r == Ok::<i32, SaTokenException>(n),
                    None => r matches Err(e) && is_other(e, "无法将 loginId 转换为 i32: "@ + id),
                },
                None => r matches Err(e) && is_not_login(e, "未登录"@, self.lt()),
            },
    {
        let id = self.get_login_id()?;
        match parse_i32(id.as_str()) {
            Some(n) => Ok(n),
            None => {
                let mut m = String::new();
                m.append("无法将 loginId 转换为 i32: ");
                m.append(id.as_str());
                Err(SaTokenException::other(m.as_str()))
            },
        }
    }

    /// The account id of the current request as an `i64`.
    pub fn get_login_id_as_i64(&self) -> (r: SaResult<i64>)
        requires
            self.wf(),
        ensures
            match self.current_login_id() {
                Some(id) => match spec_parse_i64(id) {
                    Some(n) => r == Ok::<i64, SaTokenException>(n),
                    None => r matches Err(e) && is_other(e, "无法将 loginId 转换为 i64: "@ + id),
                },
                None => r matches Err(e) && is_not_login(e, "未登录"@, self.lt()),
            },
    {
        let id = self.get_login_id()?;
        match parse_i64(id.as_str()) {
            Some(n) => Ok(n),
            None => {
                let mut m = String::new();
                m.append("无法将 loginId 转换为 i64: ");
                m.append(id.as_str());
                Err(SaTokenException::other(m.as_str()))
            },
        }
    }

    // ==================== lifetimes ====================

    /// Seconds left of a token: -1 forever, -2 not logged in.
    pub fn get_token_timeout_by_token(&self, token_value: &str) -> (r: SaResult<i64>)
        requires
            self.wf(),
        ensures
            r == Ok::<i64, SaTokenException>(remaining(self.store().strings, self.tkey(token_value@), self.now())),
    {
        let key = self.splicing_key_token_value(token_value);
        Ok(self.dao.get_timeout(key.as_str(), self.clock))
    }

    /// Seconds left of the current token; -2 without one.
    pub fn get_token_timeout(&self) -> (r: SaResult<i64>)
        requires
            self.wf(),
        ensures
            r == Ok::<i64, SaTokenException>(match self.current_token() {
                Some(tv) => remaining(self.store().strings, self.tkey(tv), self.now()),
                None => -2i64,
            }),
    {
        match self.get_token_value() {
            Some(tv) => self.get_token_timeout_by_token(tv.as_str()),
            None => Ok(-2),
        }
    }

    /// Records now as the token's last activity.
    pub fn set_last_active_to_now(&mut self, token_value: &str) -> (r: SaResult<()>)
        requires
            old(self).wf(),
        ensures
            r is Ok,
            final(self).wf(),
            final(self).same_but_store(&*old(self)),
            final(self).store() == (DaoModel {
                strings: old(self).store().strings.insert(old(self).akey(token_value@), (int_text(old(self).now() as int), -1i64)),
                ..old(self).store()
            }),
            final(self).events() == old(self).events(),
    {
        let key = self.splicing_key_last_active_time(token_value);
        let now = int_to_string(self.clock);
        self.dao.set(key.as_str(), now.as_str(), -1, self.clock);
        Ok(())
    }

    /// Gives a token a new lifetime counted from now and records now as its
    /// last activity.
    pub fn renew_timeout_by_token(&mut self, token_value: &str, timeout: i64) -> (r: SaResult<()>)
        requires
            old(self).wf(),
            timeout <= MAX_TIMEOUT,
        ensures
            r is Ok,
            final(self).wf(),
            final(self).same_but_store(&*old(self)),
            final(self).store() == (DaoModel {
                strings: with_expire(old(self).store().strings, old(self).tkey(token_value@),
                    expire_moment(timeout, old(self).now()))
                    .insert(old(self).akey(token_value@), (int_text(old(self).now() as int), -1i64)),
                ..old(self).store()
            }),
            old(self).store().strings.contains_key(old(self).tkey(token_value@)) ==>
                remaining(final(self).store().strings, final(self).tkey(token_value@), final(self).now())
                    == (if timeout > 0 { timeout } else { -1i64 }),
    {
        proof {
            lemma_token_key_not_active_key(self.name(), self.lt(), token_value@, token_value@);
        }
        let key = self.splicing_key_token_value(token_value);
        self.dao.update_timeout(key.as_str(), timeout, self.clock);
        self.set_last_active_to_now(token_value)
    }

    /// Renews the current token (see [`Self::renew_timeout_by_token`]); a
    /// missing-login error without a token.
    pub fn renew_timeout(&mut self, timeout: i64) -> (r: SaResult<()>)
        requires
            old(self).wf(),
            timeout <= MAX_TIMEOUT,
        ensures
            final(self).wf(),
            final(self).same_but_store(&*old(self)),
            match old(self).current_token() {
                Some(tv) => r is Ok && final(self).store() == (DaoModel {
                    strings: with_expire(old(self).store().strings, old(self).tkey(tv),
                        expire_moment(timeout, old(self).now()))
                        .insert(old(self).akey(tv), (int_text(old(self).now() as int), -1i64)),
                    ..old(self).store()
                }),
                None => r matches Err(e) && is_not_login(e, "未提供 Token"@, old(self).lt())
                    && final(self).store() == old(self).store(),
            },
    {
        match self.get_token_value() {
            Some(tv) => self.renew_timeout_by_token(tv.as_str(), timeout),
            None => Err(SaTokenException::not_login("未提供 Token", self.login_type.as_str())),
        }
    }

    /// The last activity of a token: the stored moment, 0 when there is none
    /// or it is not a number.
    pub fn get_token_last_active_time(&self, token_value: &str) -> (r: SaResult<i64>)
        requires
            self.wf(),
        ensures
            r == Ok::<i64, SaTokenException>(self.last_active_of(token_value@)),
    {
        let key = self.splicing_key_last_active_time(token_value);
        match self.dao.get(key.as_str(), self.clock) {
            Some(v) => match parse_i64(v.as_str()) {
                Some(n) => Ok(n),
                None => Ok(0),
            },
            None => Ok(0),
        }
    }

    /// The last activity of a token: the stored moment, 0 when there is none
    /// or it is not a number.
    pub open spec fn last_active_of(&self, tv: Seq<char>) -> i64 {
        match live_value(self.store().strings, self.akey(tv), self.now()) {
            Some(v) => match spec_parse_i64(v) {
                Some(n) => n,
                None => 0,
            },
            None => 0,
        }
    }

    // ==================== devices and terminals ====================

    /// The terminal of a token in the live session of the account it is logged in to.
    pub open spec fn terminal_of(&self, tv: Seq<char>) -> Option<TerminalModel> {
        match self.owner_of(tv) {
            Some(id) => match self.session_of(id) {
                Some(s) => match find_token(s.terminals, tv) {
                    Some(i) => Some(s.terminals[i]),
                    None => None,
                },
                None => None,
            },
            None => None,
        }
    }

    /// A copy of the live session of an account, if any.
    fn load_session(&self, login_id: &str) -> (r: Option<SaSession>)
        requires
            self.wf(),
        ensures
            match self.session_of(login_id@) {
                Some(s) => r is Some && r->0@ == s,
                None => r is None,
            },
    {
        let key = self.splicing_key_session(login_id);
        self.dao.get_session(key.as_str(), self.clock)
    }

    /// A copy of the terminal of a token, if it is logged in and listed.
    fn find_terminal(&self, token_value: &str) -> (r: Option<SaTerminalInfo>)
        requires
            self.wf(),
        ensures
            match self.terminal_of(token_value@) {
                Some(t) => r is Some && r->0@ == t,
                None => r is None,
            },
    {
        let id = match self.get_login_id_by_token(token_value) {
            Ok(Some(id)) => id,
            _ => return None,
        };
        let session = match self.load_session(id.as_str()) {
            Some(s) => s,
            None => return None,
        };
        match session.get_terminal(token_value) {
            Some(t) => Some(t.clone()),
            None => None,
        }
    }

    /// The device type of a token's terminal.
    pub fn get_login_device_type_by_token(&self, token_value: &str) -> (r: SaResult<Option<String>>)
        requires
            self.wf(),
        ensures
            r matches Ok(o) && match self.terminal_of(token_value@) {
                Some(t) => o is Some && o->0@ == t.device_type,
                None => o is None,
            },
    {
        match self.find_terminal(token_value) {
            Some(t) => Ok(Some(t.device_type)),
            None => Ok(None),
        }
    }

    /// The device id of a token's terminal.
    pub fn get_login_device_id_by_token(&self, token_value: &str) -> (r: SaResult<Option<String>>)
        requires
            self.wf(),
        ensures
            r matches Ok(o) && match self.terminal_of(token_value@) {
                Some(t) => o is Some && o->0@ == t.device_id,
                None => o is None,
            },
    {
        match self.find_terminal(token_value) {
            Some(t) => Ok(Some(t.device_id)),
            None => Ok(None),
        }
    }

    /// The device type of the current token's terminal.
    pub fn get_login_device_type(&self) -> (r: SaResult<String>)
        requires
            self.wf(),
        ensures
            match self.current_token() {
                Some(tv) => match self.terminal_of(tv) {
                    Some(t) => r matches Ok(s) && s@ == t.device_type,
                    None => r matches Err(e) && is_other(e, "无法获取设备类型"@),
                },
                None => r matches Err(e) && is_not_login(e, "未提供 Token"@, self.lt()),
            },
    {
        let tv = match self.get_token_value() {
            Some(tv) => tv,
            None => return Err(SaTokenException::not_login("未提供 Token", self.login_type.as_str())),
        };
        match self.get_login_device_type_by_token(tv.as_str())? {
            Some(d) => Ok(d),
            None => Err(SaTokenException::other("无法获取设备类型")),
        }
    }

    /// The device id of the current token's terminal.
    pub fn get_login_device_id(&self) -> (r: SaResult<String>)
        requires
            self.wf(),
        ensures
            match self.current_token() {
                Some(tv) => match self.terminal_of(tv) {
                    Some(t) => r matches Ok(s) && s@ == t.device_id,
                    None => r matches Err(e) && is_other(e, "无法获取设备 ID"@),
                },
                None => r matches Err(e) && is_not_login(e, "未提供 Token"@, self.lt()),
            },
    {
        let tv = match self.get_token_value() {
            Some(tv) => tv,
            None => return Err(SaTokenException::not_login("未提供 Token", self.login_type.as_str())),
        };
        match self.get_login_device_id_by_token(tv.as_str())? {
            Some(d) => Ok(d),
            None => Err(SaTokenException::other("无法获取设备 ID")),
        }
    }

    /// The terminals of an account's live session; an error without one.
    pub fn get_terminal_list_by_login_id(&self, login_id: &str) -> (r: SaResult<Vec<SaTerminalInfo>>)
        requires
            self.wf(),
        ensures
            match self.session_of(login_id@) {
                Some(s) => r matches Ok(v) && terminal_models(v@) == s.terminals,
                None => r matches Err(e) && is_other(e, "Session 不存在"@),
            },
    {
        match self.load_session(login_id) {
            Some(session) => {
                let list = session.terminal_list();
                let mut out: Vec<SaTerminalInfo> = Vec::new();
                let mut i: usize = 0;
                while i < list.len()
                    invariant
                        i <= list@.len(),
                        terminal_models(out@) == terminal_models(list@).subrange(0, i as int),
                    decreases list@.len() - i,
                {
                    let ghost before = out@;
                    let t = list[i].clone();
                    out.push(t);
                    proof {
                        assert(terminal_models(list@)[i as int] == list@[i as int]@);
                        assert(terminal_models(out@) =~= terminal_models(before).push(list@[i as int]@));
                        assert(terminal_models(out@) =~= terminal_models(list@).subrange(0, i as int + 1));
                    }
                    i += 1;
                }
                assert(terminal_models(list@).subrange(0, list@.len() as int) =~= terminal_models(list@));
                Ok(out)
            },
            None => Err(SaTokenException::other("Session 不存在")),
        }
    }

    /// The terminal of a token: a missing-login error when the token is not
    /// logged in, an error when the account has no live session or does not
    /// list the token.
    pub fn get_terminal_info_by_token(&self, token_value: &str) -> (r: SaResult<SaTerminalInfo>)
        requires
            self.wf(),
        ensures
            match self.owner_of(token_value@) {
                Some(id) => match self.session_of(id) {
                    Some(s) => match find_token(s.terminals, token_value@) {
                        Some(i) => r matches Ok(t) && t@ == s.terminals[i],
                        None => r matches Err(e) && is_other(e, "终端不存在"@),
                    },
                    None => r matches Err(e) && is_other(e, "Session 不存在"@),
                },
                None => r matches Err(e) && is_not_login(e, "Token 无效"@, self.lt()),
            },
    {
        let id = match self.get_login_id_by_token(token_value)? {
            Some(id) => id,
            None => return Err(SaTokenException::not_login("Token 无效", self.login_type.as_str())),
        };
        let session = match self.load_session(id.as_str()) {
            Some(s) => s,
            None => return Err(SaTokenException::other("Session 不存在")),
        };
        match session.get_terminal(token_value) {
            Some(t) => Ok(t.clone()),
            None => Err(SaTokenException::other("终端不存在")),
        }
    }

    /// The terminal of the current token (see [`Self::get_terminal_info_by_token`]).
    pub fn get_terminal_info(&self) -> (r: SaResult<SaTerminalInfo>)
        requires
            self.wf(),
        ensures
            match self.current_token() {
                Some(tv) => match self.owner_of(tv) {
                    Some(id) => match self.session_of(id) {
                        Some(s) => match find_token(s.terminals, tv) {
                            Some(i) => r matches Ok(t) && t@ == s.terminals[i],
                            None => r matches Err(e) && is_other(e, "终端不存在"@),
                        },
                        None => r matches Err(e) && is_other(e, "Session 不存在"@),
                    },
                    None => r matches Err(e) && is_not_login(e, "Token 无效"@, self.lt()),
                },
                None => r matches Err(e) && is_not_login(e, "未提供 Token"@, self.lt()),
            },
    {
        match self.get_token_value() {
            Some(tv) => self.get_terminal_info_by_token(tv.as_str()),
            None => Err(SaTokenException::not_login("未提供 Token", self.login_type.as_str())),
        }
    }

    /// The tokens of the terminals of an account's live session, in order.
    pub fn get_token_value_list_by_login_id(&self, login_id: &str) -> (r: SaResult<Vec<String>>)
        requires
            self.wf(),
        ensures
            r matches Ok(v) && views(v@) == self.tokens_of_account(login_id@),
    {
        match self.load_session(login_id) {
            Some(session) => {
                let list = session.terminal_list();
                let mut out: Vec<String> = Vec::new();
                let mut i: usize = 0;
                while i < list.len()
                    invariant
                        i <= list@.len(),
                        views(out@) == tokens_of(terminal_models(list@)).subrange(0, i as int),
                    decreases list@.len() - i,
                {
                    let ghost before = out@;
                    let t = list[i].token_value.clone();
                    out.push(t);
                    proof {
                        assert(terminal_models(list@)[i as int] == list@[i as int]@);
                        assert(views(out@) =~= views(before).push(list@[i as int]@.token_value));
                        assert(views(out@) =~= tokens_of(terminal_models(list@)).subrange(0, i as int + 1));
                    }
                    i += 1;
                }
                assert(tokens_of(terminal_models(list@)).subrange(0, list@.len() as int)
                    =~= tokens_of(terminal_models(list@)));
                Ok(out)
            },
            None => {
                let out: Vec<String> = Vec::new();
                assert(views(out@) =~= Seq::<Seq<char>>::empty());
                Ok(out)
            },
        }
    }

    /// The first token of an account's live session.
    pub fn get_token_value_by_login_id(&self, login_id: &str) -> (r: SaResult<Option<String>>)
        requires
            self.wf(),
        ensures
            r matches Ok(o) && if self.tokens_of_account(login_id@).len() > 0 {
                o is Some && o->0@ == self.tokens_of_account(login_id@)[0]
            } else {
                o is None
            },
    {
        let mut list = self.get_token_value_list_by_login_id(login_id)?;
        if list.len() > 0 {
            let first = list.remove(0);
            Ok(Some(first))
        } else {
            Ok(None)
        }
    }

    // ==================== roles and permissions ====================

    /// The roles of an account, as the source answers.
    pub fn get_role_list_for(&self, login_id: &str) -> (r: SaResult<Vec<String>>)
        ensures
            r matches Ok(v) && views(v@) == self.source().roles_of(login_id@, self.lt()),
    {
        Ok(self.interface.get_role_list(login_id, self.login_type.as_str()))
    }

    /// The roles of the current account; a missing-login error without one.
    pub fn get_role_list(&self) -> (r: SaResult<Vec<String>>)
        requires
            self.wf(),
        ensures
            self.current_login_id() matches Some(id) ==> (r matches Ok(v) && views(v@) == self.source().roles_of(id, self.lt())),
            self.current_login_id() is None ==> (r matches Err(e) && is_not_login(e, "未登录"@, self.lt())),
    {
        let id = self.get_login_id()?;
        self.get_role_list_for(id.as_str())
    }

    /// Whether the source lists the role for an account (see [`list_contains`]).
    pub fn has_role_for(&self, login_id: &str, role: &str) -> (r: SaResult<bool>)
        ensures
            r == Ok::<bool, SaTokenException>(self.source().roles_of(login_id@, self.lt()).contains(role@)),
    {
        let list = self.get_role_list_for(login_id)?;
        Ok(list_contains(&list, role))
    }

    /// Whether the source lists the role for the current account; a
    /// missing-login error without one.
    pub fn has_role(&self, role: &str) -> (r: SaResult<bool>)
        requires
            self.wf(),
        ensures
            self.current_login_id() matches Some(id) ==> r == Ok::<bool, SaTokenException>(self.source().roles_of(id, self.lt()).contains(role@)),
            self.current_login_id() is None ==> (r matches Err(e) && is_not_login(e, "未登录"@, self.lt())),
    {
        let id = self.get_login_id()?;
        self.has_role_for(id.as_str(), role)
    }

    /// Whether the source lists every one of the roles for the current
    /// account (see [`contains_all`]).
    pub fn has_role_and(&self, roles: &[&str]) -> (r: SaResult<bool>)
        requires
            self.wf(),
        ensures
            self.current_login_id() matches Some(id) ==> r == Ok::<bool, SaTokenException>(holds_all(self.source().roles_of(id, self.lt()), str_views(roles@))),
            self.current_login_id() is None ==> (r matches Err(e) && is_not_login(e, "未登录"@, self.lt())),
            self.current_login_id() is Some && roles@.len() == 0 ==> r == Ok::<bool, SaTokenException>(true),
    {
        let id = self.get_login_id()?;
        let list = self.get_role_list_for(id.as_str())?;
        Ok(contains_all(&list, roles))
    }

    /// Whether the source lists one of the roles for the current account
    /// (see [`contains_any`]).
    pub fn has_role_or(&self, roles: &[&str]) -> (r: SaResult<bool>)
        requires
            self.wf(),
        ensures
            self.current_login_id() matches Some(id) ==> r == Ok::<bool, SaTokenException>(holds_any(self.source().roles_of(id, self.lt()), str_views(roles@))),
            self.current_login_id() is None ==> (r matches Err(e) && is_not_login(e, "未登录"@, self.lt())),
            self.current_login_id() is Some && roles@.len() == 0 ==> r == Ok::<bool, SaTokenException>(false),
    {
        let id = self.get_login_id()?;
        let list = self.get_role_list_for(id.as_str())?;
        Ok(contains_any(&list, roles))
    }

    /// Fails with a missing-role error unless the source lists the role
    /// for the current account.
    pub fn check_role(&self, role: &str) -> (r: SaResult<()>)
        requires
            self.wf(),
        ensures
            self.current_login_id() matches Some(id) ==> (if self.source().roles_of(id, self.lt()).contains(role@) { r is Ok } else {
                r matches Err(e) && is_not_role(e, role@, self.lt()) }),
            self.current_login_id() is None ==> (r matches Err(e) && is_not_login(e, "未登录"@, self.lt())),
    {
        if !self.has_role(role)? {
            return Err(SaTokenException::not_role(role, self.login_type.as_str()));
        }
        Ok(())
    }

    /// Fails unless the source lists every one of the roles for the
    /// current account; the error names them joined by commas.
    pub fn check_role_and(&self, roles: &[&str]) -> (r: SaResult<()>)
        requires
            self.wf(),
        ensures
            self.current_login_id() matches Some(id) ==> (if holds_all(self.source().roles_of(id, self.lt()), str_views(roles@)) { r is Ok } else {
                r matches Err(e) && is_not_role(e, join(str_views(roles@), ","@), self.lt()) }),
            self.current_login_id() is None ==> (r matches Err(e) && is_not_login(e, "未登录"@, self.lt())),
    {
        if !self.has_role_and(roles)? {
            let joined = crate::text::join_strs(roles, ",");
            return Err(SaTokenException::not_role(joined.as_str(), self.login_type.as_str()));
        }
        Ok(())
    }

    /// Fails unless the source lists one of the roles for the current
    /// account; the error names them joined by commas.
    pub fn check_role_or(&self, roles: &[&str]) -> (r: SaResult<()>)
        requires
            self.wf(),
        ensures
            self.current_login_id() matches Some(id) ==> (if holds_any(self.source().roles_of(id, self.lt()), str_views(roles@)) { r is Ok } else {
                r matches Err(e) && is_not_role(e, join(str_views(roles@), ","@), self.lt()) }),
            self.current_login_id() is None ==> (r matches Err(e) && is_not_login(e, "未登录"@, self.lt())),
    {
        if !self.has_role_or(roles)? {
            let joined = crate::text::join_strs(roles, ",");
            return Err(SaTokenException::not_role(joined.as_str(), self.login_type.as_str()));
        }
        Ok(())
    }

    /// The permissions of an account, as the source answers.
    pub fn get_permission_list_for(&self, login_id: &str) -> (r: SaResult<Vec<String>>)
        ensures
            r matches Ok(v) && views(v@) == self.source().permissions_of(login_id@, self.lt()),
    {
        Ok(self.interface.get_permission_list(login_id, self.login_type.as_str()))
    }

    /// The permissions of the current account; a missing-login error without one.
    pub fn get_permission_list(&self) -> (r: SaResult<Vec<String>>)
        requires
            self.wf(),
        ensures
            self.current_login_id() matches Some(id) ==> (r matches Ok(v) && views(v@) == self.source().permissions_of(id, self.lt())),
            self.current_login_id() is None ==> (r matches Err(e) && is_not_login(e, "未登录"@, self.lt())),
    {
        let id = self.get_login_id()?;
        self.get_permission_list_for(id.as_str())
    }

    /// Whether the source lists the permission for an account (see [`list_contains`]).
    pub fn has_permission_for(&self, login_id: &str, permission: &str) -> (r: SaResult<bool>)
        ensures
            r == Ok::<bool, SaTokenException>(self.source().permissions_of(login_id@, self.lt()).contains(permission@)),
    {
        let list = self.get_permission_list_for(login_id)?;
        Ok(list_contains(&list, permission))
    }

    /// Whether the source lists the permission for the current account; a
    /// missing-login error without one.
    pub fn has_permission(&self, permission: &str) -> (r: SaResult<bool>)
        requires
            self.wf(),
        ensures
            self.current_login_id() matches Some(id) ==> r == Ok::<bool, SaTokenException>(self.source().permissions_of(id, self.lt()).contains(permission@)),
            self.current_login_id() is None ==> (r matches Err(e) && is_not_login(e, "未登录"@, self.lt())),
    {
        let id = self.get_login_id()?;
        self.has_permission_for(id.as_str(), permission)
    }

    /// Whether the source lists every one of the permissions for the current
    /// account (see [`contains_all`]).
    pub fn has_permission_and(&self, permissions: &[&str]) -> (r: SaResult<bool>)
        requires
            self.wf(),
        ensures
            self.current_login_id() matches Some(id) ==> r == Ok::<bool, SaTokenException>(holds_all(self.source().permissions_of(id, self.lt()), str_views(permissions@))),
            self.current_login_id() is None ==> (r matches Err(e) && is_not_login(e, "未登录"@, self.lt())),
            self.current_login_id() is Some && permissions@.len() == 0 ==> r == Ok::<bool, SaTokenException>(true),
    {
        let id = self.get_login_id()?;
        let list = self.get_permission_list_for(id.as_str())?;
        Ok(contains_all(&list, permissions))
    }

    /// Whether the source lists one of the permissions for the current account
    /// (see [`contains_any`]).
    pub fn has_permission_or(&self, permissions: &[&str]) -> (r: SaResult<bool>)
        requires
            self.wf(),
        ensures
            self.current_login_id() matches Some(id) ==> r == Ok::<bool, SaTokenException>(holds_any(self.source().permissions_of(id, self.lt()), str_views(permissions@))),
            self.current_login_id() is None ==> (r matches Err(e) && is_not_login(e, "未登录"@, self.lt())),
            self.current_login_id() is Some && permissions@.len() == 0 ==> r == Ok::<bool, SaTokenException>(false),
    {
        let id = self.get_login_id()?;
        let list = self.get_permission_list_for(id.as_str())?;
        Ok(contains_any(&list, permissions))
    }

    /// Fails with a missing-permission error unless the source lists the permission
    /// for the current account.
    pub fn check_permission(&self, permission: &str) -> (r: SaResult<()>)
        requires
            self.wf(),
        ensures
            self.current_login_id() matches Some(id) ==> (if self.source().permissions_of(id, self.lt()).contains(permission@) { r is Ok } else {
                r matches Err(e) && is_not_permission(e, permission@, self.lt()) }),
            self.current_login_id() is None ==> (r matches Err(e) && is_not_login(e, "未登录"@, self.lt())),
    {
        if !self.has_permission(permission)? {
            return Err(SaTokenException::not_permission(permission, self.login_type.as_str()));
        }
        Ok(())
    }

    /// Fails unless the source lists every one of the permissions for the
    /// current account; the error names them joined by commas.
    pub fn check_permission_and(&self, permissions: &[&str]) -> (r: SaResult<()>)
        requires
            self.wf(),
        ensures
            self.current_login_id() matches Some(id) ==> (if holds_all(self.source().permissions_of(id, self.lt()), str_views(permissions@)) { r is Ok } else {
                r matches Err(e) && is_not_permission(e, join(str_views(permissions@), ","@), self.lt()) }),
            self.current_login_id() is None ==> (r matches Err(e) && is_not_login(e, "未登录"@, self.lt())),
    {
        if !self.has_permission_and(permissions)? {
            let joined = crate::text::join_strs(permissions, ",");
            return Err(SaTokenException::not_permission(joined.as_str(), self.login_type.as_str()));
        }
        Ok(())
    }

    /// Fails unless the source lists one of the permissions for the current
    /// account; the error names them joined by commas.
    pub fn check_permission_or(&self, permissions: &[&str]) -> (r: SaResult<()>)
        requires
            self.wf(),
        ensures
            self.current_login_id() matches Some(id) ==> (if holds_any(self.source().permissions_of(id, self.lt()), str_views(permissions@)) { r is Ok } else {
                r matches Err(e) && is_not_permission(e, join(str_views(permissions@), ","@), self.lt()) }),
            self.current_login_id() is None ==> (r matches Err(e) && is_not_login(e, "未登录"@, self.lt())),
    {
        if !self.has_permission_or(permissions)? {
            let joined = crate::text::join_strs(permissions, ",");
            return Err(SaTokenException::not_permission(joined.as_str(), self.login_type.as_str()));
        }
        Ok(())
    }

    // ==================== bans ====================

    /// The ban key of an account and service.
    pub open spec fn dkey(&self, id: Seq<char>, service: Seq<char>) -> Seq<char> {
        disable_key(self.name(), self.lt(), id, service)
    }

    /// The level stored for a ban (1 when the stored text is not a number).
    pub open spec fn stored_level(&self, id: Seq<char>, service: Seq<char>) -> Option<i32> {
        match live_value(self.store().strings, self.dkey(id, service), self.now()) {
            Some(v) => Some(match spec_parse_i32(v) { Some(n) => n, None => 1i32 }),
            None => None,
        }
    }

    /// The ban level a query answers when the source reports `w`: the
    /// stored one, else the reported level; none when the report is a
    /// recordable ban that is not a well-formed request.
    pub open spec fn level_result(&self, id: Seq<char>, service: Seq<char>, w: SaDisableWrapperInfo) -> Option<i32> {
        match self.stored_level(id, service) {
            Some(l) => Some(l),
            None => {
                if records_ban(w, self.now()) && !disable_args_ok(id, service, w.disable_level) {
                    None
                } else {
                    Some(w.disable_level)
                }
            },
        }
    }

    /// The events after a ban level query when the source reports `w`: the
    /// ban is announced when it is written (see
    /// [`Self::store_after_level_query`]).
    pub open spec fn events_after_level_query(&self, id: Seq<char>, service: Seq<char>, w: SaDisableWrapperInfo) -> Seq<EventModel> {
        if self.stored_level(id, service) is None && records_ban(w, self.now()) && disable_args_ok(id, service, w.disable_level) {
            self.events().push(EventModel::Disable {
                login_type: self.lt(), login_id: id, service, level: w.disable_level, time: w.disable_time })
        } else {
            self.events()
        }
    }

    /// The store after a ban level query when the source reports `w`: a
    /// recordable ban is written when nothing is stored.
    pub open spec fn store_after_level_query(&self, id: Seq<char>, service: Seq<char>, w: SaDisableWrapperInfo) -> DaoModel {
        if self.stored_level(id, service) is None && records_ban(w, self.now()) && disable_args_ok(id, service, w.disable_level) {
            DaoModel {
                strings: self.store().strings.insert(self.dkey(id, service),
                    (int_text(w.disable_level as int), expire_moment(w.disable_time, self.now()))),
                ..self.store()
            }
        } else {
            self.store()
        }
    }

    /// Checks a ban request.
    fn validate_disable_args(&self, login_id: &str, service: &str, level: i32) -> (r: SaResult<()>)
        ensures
            disable_args_ok(login_id@, service@, level) ==> r is Ok,
            !disable_args_ok(login_id@, service@, level) ==> (r matches Err(e)
                && is_disable_args_error(e, login_id@, service@, level)),
    {
        if login_id.is_empty() {
            return Err(SaTokenException::with_code(CODE_11062, "请提供要封禁的账号"));
        }
        if service.is_empty() {
            return Err(SaTokenException::with_code(CODE_11063, "请提供要封禁的服务"));
        }
        if level < 1 && level != 0 {
            return Err(SaTokenException::with_code(CODE_11064, "封禁等级不可以小于最小值：1 (0除外)"));
        }
        Ok(())
    }

    /// Bans an account from a service at a level for `time` seconds (zero
    /// or less: forever).
    pub fn disable_level_with_service(&mut self, login_id: &str, service: &str, level: i32, time: i64) -> (r: SaResult<()>)
        requires
            old(self).wf(),
            fits(old(self).now(), time),
        ensures
            final(self).wf(),
            final(self).same_but_store(&*old(self)),
            disable_args_ok(login_id@, service@, level) ==> r is Ok && final(self).store() == (DaoModel {
                strings: old(self).store().strings.insert(old(self).dkey(login_id@, service@),
                    (int_text(level as int), expire_moment(time, old(self).now()))),
                ..old(self).store()
            }),
            !disable_args_ok(login_id@, service@, level) ==> (r matches Err(e)
                && is_disable_args_error(e, login_id@, service@, level)
                && final(self).store() == old(self).store()),
            r is Ok ==> final(self).stored_level(login_id@, service@) == Some(level),
            r is Ok ==> final(self).events() == old(self).events().push(EventModel::Disable {
                login_type: old(self).lt(), login_id: login_id@, service: service@, level, time }),
            r is Err ==> final(self).events() == old(self).events(),
    {
        proof {
            lemma_parse_int_text(level as int);
        }
        self.validate_disable_args(login_id, service, level)?;
        let key = self.splicing_key_disable(login_id, service);
        let value = int_to_string(level as i64);
        self.dao.set(key.as_str(), value.as_str(), time, self.clock);
        self.record(SaTokenEvent::Disable {
            login_type: self.login_type.clone(), login_id: login_id.to_owned(), service: service.to_owned(), level, time });
        Ok(())
    }

    /// Bans an account from logging in at the lowest level.
    pub fn disable(&mut self, login_id: &str, time: i64) -> (r: SaResult<()>)
        requires
            old(self).wf(),
            fits(old(self).now(), time),
        ensures
            final(self).wf(),
            final(self).same_but_store(&*old(self)),
            login_id@.len() > 0 ==> r is Ok && final(self).store() == (DaoModel {
                strings: old(self).store().strings.insert(old(self).dkey(login_id@, "login"@),
                    (int_text(1), expire_moment(time, old(self).now()))),
                ..old(self).store()
            }),
            login_id@.len() == 0 ==> (r matches Err(e) && is_code(e, CODE_11062, "请提供要封禁的账号"@)
                && final(self).store() == old(self).store()),
            r is Ok ==> final(self).stored_level(login_id@, "login"@) == Some(1i32),
    {
        proof {
            reveal_strlit("login");
        }
        self.disable_level_with_service(login_id, "login", 1, time)
    }

    /// Bans an account from a service at the lowest level.
    pub fn disable_with_service(&mut self, login_id: &str, service: &str, time: i64) -> (r: SaResult<()>)
        requires
            old(self).wf(),
            fits(old(self).now(), time),
        ensures
            final(self).wf(),
            final(self).same_but_store(&*old(self)),
            disable_args_ok(login_id@, service@, 1) ==> r is Ok && final(self).store() == (DaoModel {
                strings: old(self).store().strings.insert(old(self).dkey(login_id@, service@),
                    (int_text(1), expire_moment(time, old(self).now()))),
                ..old(self).store()
            }),
            !disable_args_ok(login_id@, service@, 1) ==> (r matches Err(e)
                && is_disable_args_error(e, login_id@, service@, 1)
                && final(self).store() == old(self).store()),
    {
        self.disable_level_with_service(login_id, service, 1, time)
    }

    /// Bans an account from logging in at a level.
    pub fn disable_level(&mut self, login_id: &str, level: i32, time: i64) -> (r: SaResult<()>)
        requires
            old(self).wf(),
            fits(old(self).now(), time),
        ensures
            final(self).wf(),
            final(self).same_but_store(&*old(self)),
            disable_args_ok(login_id@, "login"@, level) ==> r is Ok && final(self).store() == (DaoModel {
                strings: old(self).store().strings.insert(old(self).dkey(login_id@, "login"@),
                    (int_text(level as int), expire_moment(time, old(self).now()))),
                ..old(self).store()
            }),
            !disable_args_ok(login_id@, "login"@, level) ==> (r matches Err(e)
                && is_disable_args_error(e, login_id@, "login"@, level)
                && final(self).store() == old(self).store()),
    {
        self.disable_level_with_service(login_id, "login", level, time)
    }

    /// Lifts an account's ban from a service.
    pub fn untie_disable_with_service(&mut self, login_id: &str, service: &str) -> (r: SaResult<()>)
        requires
            old(self).wf(),
        ensures
            final(self).wf(),
            final(self).same_but_store(&*old(self)),
            login_id@.len() == 0 ==> (r matches Err(e) && is_code(e, CODE_11062, "请提供要解禁的账号"@)
                && final(self).store() == old(self).store()),
            login_id@.len() > 0 && service@.len() == 0 ==> (r matches Err(e)
                && is_code(e, CODE_11063, "请提供要解禁的服务"@) && final(self).store() == old(self).store()),
            login_id@.len() > 0 && service@.len() > 0 ==> r is Ok && final(self).store() == (DaoModel {
                strings: old(self).store().strings.remove(old(self).dkey(login_id@, service@)),
                ..old(self).store()
            }),
            r is Ok ==> final(self).stored_level(login_id@, service@) is None,
            r is Ok ==> final(self).events() == old(self).events().push(EventModel::UntieDisable {
                login_type: old(self).lt(), login_id: login_id@, service: service@ }),
            r is Err ==> final(self).events() == old(self).events(),
    {
        if login_id.is_empty() {
            return Err(SaTokenException::with_code(CODE_11062, "请提供要解禁的账号"));
        }
        if service.is_empty() {
            return Err(SaTokenException::with_code(CODE_11063, "请提供要解禁的服务"));
        }
        let key = self.splicing_key_disable(login_id, service);
        self.dao.delete(key.as_str());
        self.record(SaTokenEvent::UntieDisable {
            login_type: self.login_type.clone(), login_id: login_id.to_owned(), service: service.to_owned() });
        Ok(())
    }

    /// Lifts an account's ban from logging in.
    pub fn untie_disable(&mut self, login_id: &str) -> (r: SaResult<()>)
        requires
            old(self).wf(),
        ensures
            final(self).wf(),
            final(self).same_but_store(&*old(self)),
            login_id@.len() == 0 ==> (r matches Err(e) && is_code(e, CODE_11062, "请提供要解禁的账号"@)
                && final(self).store() == old(self).store()),
            login_id@.len() > 0 ==> r is Ok && final(self).store() == (DaoModel {
                strings: old(self).store().strings.remove(old(self).dkey(login_id@, "login"@)),
                ..old(self).store()
            }),
    {
        proof {
            reveal_strlit("login");
        }
        self.untie_disable_with_service(login_id, "login")
    }

    /// Seconds left of an account's ban from a service: -1 forever, -2 none.
    pub fn get_disable_time_with_service(&self, login_id: &str, service: &str) -> (r: SaResult<i64>)
        requires
            self.wf(),
        ensures
            r == Ok::<i64, SaTokenException>(remaining(self.store().strings, self.dkey(login_id@, service@), self.now())),
    {
        let key = self.splicing_key_disable(login_id, service);
        Ok(self.dao.get_timeout(key.as_str(), self.clock))
    }

    /// Seconds left of an account's ban from logging in.
    pub fn get_disable_time(&self, login_id: &str) -> (r: SaResult<i64>)
        requires
            self.wf(),
        ensures
            r == Ok::<i64, SaTokenException>(remaining(self.store().strings, self.dkey(login_id@, "login"@), self.now())),
    {
        self.get_disable_time_with_service(login_id, "login")
    }

    /// The ban level a query answers once the source reported `w`: the
    /// stored level when there is one; else the reported level, recorded
    /// first when it is a ban that lasts (see [`Self::level_result`] and
    /// [`Self::store_after_level_query`]).
    pub fn apply_disable_report(&mut self, login_id: &str, service: &str, w: SaDisableWrapperInfo) -> (r: SaResult<i32>)
        requires
            old(self).wf(),
        ensures
            final(self).wf(),
            final(self).same_but_store(&*old(self)),
            final(self).store() == old(self).store_after_level_query(login_id@, service@, w),
            final(self).events() == old(self).events_after_level_query(login_id@, service@, w),
            match old(self).level_result(login_id@, service@, w) {
                Some(l) => r == Ok::<i32, SaTokenException>(l),
                None => r matches Err(e) && is_disable_args_error(e, login_id@, service@, w.disable_level),
            },
    {
        let key = self.splicing_key_disable(login_id, service);
        if let Some(value) = self.dao.get(key.as_str(), self.clock) {
            let level = match parse_i32(value.as_str()) {
                Some(n) => n,
                None => 1,
            };
            return Ok(level);
        }
        if w.disable_time == -1 || (w.disable_time > 0 && w.disable_time <= i64::MAX - self.clock) {
            self.disable_level_with_service(login_id, service, w.disable_level, w.disable_time)?;
            return Ok(w.disable_level);
        }
        Ok(w.disable_level)
    }

    /// An account's ban level for a service: the stored level, else the one
    /// the source reports, which is then recorded when it is a ban that
    /// lasts; -2 means not banned (see [`Self::apply_disable_report`]).
    pub fn get_disable_level_with_service(&mut self, login_id: &str, service: &str) -> (r: SaResult<i32>)
        requires
            old(self).wf(),
        ensures
            final(self).wf(),
            final(self).same_but_store(&*old(self)),
            old(self).stored_level(login_id@, service@) matches Some(l) ==> r == Ok::<i32, SaTokenException>(l)
                && final(self).store() == old(self).store(),
            ({
                let w = old(self).source().ban_report(login_id@, service@);
                &&& old(self).store_after_level_query(login_id@, service@, w) == final(self).store()
                &&& old(self).events_after_level_query(login_id@, service@, w) == final(self).events()
                &&& match old(self).level_result(login_id@, service@, w) {
                    Some(l) => r == Ok::<i32, SaTokenException>(l),
                    None => r matches Err(e) && is_disable_args_error(e, login_id@, service@, w.disable_level),
                }
            }),
    {
        let key = self.splicing_key_disable(login_id, service);
        if let Some(value) = self.dao.get(key.as_str(), self.clock) {
            let level = match parse_i32(value.as_str()) {
                Some(n) => n,
                None => 1,
            };
            proof {
                let w = SaDisableWrapperInfo { is_disabled: false, disable_time: 0, disable_level: -2i32 };
                assert(old(self).store_after_level_query(login_id@, service@, w) == self.store());
            }
            return Ok(level);
        }
        let wrapper = self.interface.is_disabled(login_id, service);
        let r = self.apply_disable_report(login_id, service, wrapper);
        proof {
            assert(old(self).store_after_level_query(login_id@, service@, wrapper) == self.store());
        }
        r
    }

    /// An account's ban level for logging in.
    pub fn get_disable_level(&mut self, login_id: &str) -> (r: SaResult<i32>)
        requires
            old(self).wf(),
        ensures
            final(self).wf(),
            final(self).same_but_store(&*old(self)),
            ({
                let w = old(self).source().ban_report(login_id@, "login"@);
                &&& old(self).store_after_level_query(login_id@, "login"@, w) == final(self).store()
                &&& match old(self).level_result(login_id@, "login"@, w) {
                    Some(l) => r == Ok::<i32, SaTokenException>(l),
                    None => r matches Err(e) && is_disable_args_error(e, login_id@, "login"@, w.disable_level),
                }
            }),
    {
        self.get_disable_level_with_service(login_id, "login")
    }

    /// Whether an account is banned from a service at `level` or above.
    pub fn is_disable_level_with_service(&mut self, login_id: &str, service: &str, level: i32) -> (r: SaResult<bool>)
        requires
            old(self).wf(),
        ensures
            final(self).wf(),
            final(self).same_but_store(&*old(self)),
            ({
                let w = old(self).source().ban_report(login_id@, service@);
                &&& old(self).store_after_level_query(login_id@, service@, w) == final(self).store()
                &&& old(self).events_after_level_query(login_id@, service@, w) == final(self).events()
                &&& match old(self).level_result(login_id@, service@, w) {
                    Some(l) => r == Ok::<bool, SaTokenException>(l != -2 && l >= level),
                    None => r matches Err(e) && is_disable_args_error(e, login_id@, service@, w.disable_level),
                }
            }),
    {
        let disable_level = self.get_disable_level_with_service(login_id, service)?;
        if disable_level == -2 {
            return Ok(false);
        }
        Ok(disable_level >= level)
    }

    /// Whether an account is banned from logging in.
    pub fn is_disable(&mut self, login_id: &str) -> (r: SaResult<bool>)
        requires
            old(self).wf(),
        ensures
            final(self).wf(),
            final(self).same_but_store(&*old(self)),
            ({
                let w = old(self).source().ban_report(login_id@, "login"@);
                &&& old(self).store_after_level_query(login_id@, "login"@, w) == final(self).store()
                &&& match old(self).level_result(login_id@, "login"@, w) {
                    Some(l) => r == Ok::<bool, SaTokenException>(l != -2 && l >= 1),
                    None => r matches Err(e) && is_disable_args_error(e, login_id@, "login"@, w.disable_level),
                }
            }),
    {
        self.is_disable_level_with_service(login_id, "login", 1)
    }

    /// Whether an account is banned from a service.
    pub fn is_disable_with_service(&mut self, login_id: &str, service: &str) -> (r: SaResult<bool>)
        requires
            old(self).wf(),
        ensures
            final(self).wf(),
            final(self).same_but_store(&*old(self)),
            ({
                let w = old(self).source().ban_report(login_id@, service@);
                &&& old(self).store_after_level_query(login_id@, service@, w) == final(self).store()
                &&& old(self).events_after_level_query(login_id@, service@, w) == final(self).events()
                &&& match old(self).level_result(login_id@, service@, w) {
                    Some(l) => r == Ok::<bool, SaTokenException>(l != -2 && l >= 1),
                    None => r matches Err(e) && is_disable_args_error(e, login_id@, service@, w.disable_level),
                }
            }),
    {
        self.is_disable_level_with_service(login_id, service, 1)
    }

    /// Whether an account is banned from logging in at `level` or above.
    pub fn is_disable_level(&mut self, login_id: &str, level: i32) -> (r: SaResult<bool>)
        requires
            old(self).wf(),
        ensures
            final(self).wf(),
            final(self).same_but_store(&*old(self)),
            ({
                let w = old(self).source().ban_report(login_id@, "login"@);
                &&& old(self).store_after_level_query(login_id@, "login"@, w) == final(self).store()
                &&& match old(self).level_result(login_id@, "login"@, w) {
                    Some(l) => r == Ok::<bool, SaTokenException>(l != -2 && l >= level),
                    None => r matches Err(e) && is_disable_args_error(e, login_id@, "login"@, w.disable_level),
                }
            }),
    {
        self.is_disable_level_with_service(login_id, "login", level)
    }

    /// Fails with a ban error when an account is banned from a service at
    /// `level` or above; the error carries the ban's level and seconds left.
    pub fn check_disable_level_with_service(&mut self, login_id: &str, service: &str, level: i32) -> (r: SaResult<()>)
        requires
            old(self).wf(),
        ensures
            final(self).wf(),
            final(self).same_but_store(&*old(self)),
            ({
                let w = old(self).source().ban_report(login_id@, service@);
                &&& old(self).store_after_level_query(login_id@, service@, w) == final(self).store()
                &&& old(self).events_after_level_query(login_id@, service@, w) == final(self).events()
                &&& match old(self).level_result(login_id@, service@, w) {
                    Some(l) => if l == -2 || l < level {
                        r is Ok
                    } else {
                        r matches Err(e) && is_code(e, CODE_11061, disabled_message(service@))
                    },
                    None => r matches Err(e) && is_disable_args_error(e, login_id@, service@, w.disable_level),
                }
            }),
    {
        let disable_level = self.get_disable_level_with_service(login_id, service)?;
        if disable_level == -2 {
            return Ok(());
        }
        if disable_level >= level {
            let disable_time = self.get_disable_time_with_service(login_id, service)?;
            return Err(SaTokenException::disable_service_level(login_id, service, disable_level, level, disable_time));
        }
        Ok(())
    }

    /// Fails when an account is banned from logging in.
    pub fn check_disable(&mut self, login_id: &str) -> (r: SaResult<()>)
        requires
            old(self).wf(),
        ensures
            final(self).wf(),
            final(self).same_but_store(&*old(self)),
            ({
                let w = old(self).source().ban_report(login_id@, "login"@);
                &&& old(self).store_after_level_query(login_id@, "login"@, w) == final(self).store()
                &&& match old(self).level_result(login_id@, "login"@, w) {
                    Some(l) => if l == -2 || l < 1 {
                        r is Ok
                    } else {
                        r matches Err(e) && is_code(e, CODE_11061, disabled_message("login"@))
                    },
                    None => r matches Err(e) && is_disable_args_error(e, login_id@, "login"@, w.disable_level),
                }
            }),
    {
        self.check_disable_level_with_service(login_id, "login", 1)
    }

    /// Fails when an account is banned from a service.
    pub fn check_disable_with_service(&mut self, login_id: &str, service: &str) -> (r: SaResult<()>)
        requires
            old(self).wf(),
        ensures
            final(self).wf(),
            final(self).same_but_store(&*old(self)),
            ({
                let w = old(self).source().ban_report(login_id@, service@);
                &&& old(self).store_after_level_query(login_id@, service@, w) == final(self).store()
                &&& old(self).events_after_level_query(login_id@, service@, w) == final(self).events()
                &&& match old(self).level_result(login_id@, service@, w) {
                    Some(l) => if l == -2 || l < 1 {
                        r is Ok
                    } else {
                        r matches Err(e) && is_code(e, CODE_11061, disabled_message(service@))
                    },
                    None => r matches Err(e) && is_disable_args_error(e, login_id@, service@, w.disable_level),
                }
            }),
    {
        self.check_disable_level_with_service(login_id, service, 1)
    }

    /// Fails when an account is banned from logging in at `level` or above.
    pub fn check_disable_level(&mut self, login_id: &str, level: i32) -> (r: SaResult<()>)
        requires
            old(self).wf(),
        ensures
            final(self).wf(),
            final(self).same_but_store(&*old(self)),
            ({
                let w = old(self).source().ban_report(login_id@, "login"@);
                &&& old(self).store_after_level_query(login_id@, "login"@, w) == final(self).store()
                &&& match old(self).level_result(login_id@, "login"@, w) {
                    Some(l) => if l == -2 || l < level {
                        r is Ok
                    } else {
                        r matches Err(e) && is_code(e, CODE_11061, disabled_message("login"@))
                    },
                    None => r matches Err(e) && is_disable_args_error(e, login_id@, "login"@, w.disable_level),
                }
            }),
    {
        self.check_disable_level_with_service(login_id, "login", level)
    }

    // ==================== second-level authentication ====================

    /// Whether the current token holds second-level authentication for a service.
    pub open spec fn safe_now(&self, service: Seq<char>) -> bool {
        match self.current_token() {
            Some(tv) => live_value(self.store().strings, safe_key(self.name(), self.lt(), tv, service), self.now()) is Some,
            None => false,
        }
    }

    /// What granting second-level authentication for a service leaves,
    /// read against the state `before` it: only the store changed, by the
    /// current token's marker for the service, kept `safe_time` seconds.
    pub open spec fn safe_opened_from(&self, before: &Self, service: Seq<char>, safe_time: i64) -> bool {
        &&& self.same_but_store(before)
        &&& before.current_token() matches Some(tv)
        &&& self.store() == (DaoModel {
            strings: before.store().strings.insert(safe_key(before.name(), before.lt(), before.current_token()->0, service),
                ("SAFE_AUTH_SAVE_VALUE"@, expire_moment(safe_time, before.now()))),
            ..before.store()
        })
    }

    /// What withdrawing second-level authentication for a service leaves,
    /// read against the state `before` it: only the store changed, by the
    /// current token's marker for the service (nothing without a token).
    pub open spec fn safe_closed_from(&self, before: &Self, service: Seq<char>) -> bool {
        &&& self.same_but_store(before)
        &&& match before.current_token() {
            Some(tv) => self.store() == (DaoModel {
                strings: before.store().strings.remove(safe_key(before.name(), before.lt(), tv, service)),
                ..before.store()
            }),
            None => self.store() == before.store(),
        }
    }

    /// Grants the current token second-level authentication for a service
    /// for `safe_time` seconds (zero or less: forever).
    pub fn open_safe_with_service(&mut self, service: &str, safe_time: i64) -> (r: SaResult<()>)
        requires
            old(self).wf(),
            fits(old(self).now(), safe_time),
        ensures
            final(self).wf(),
            final(self).same_but_store(&*old(self)),
            match old(self).current_token() {
                Some(tv) => r is Ok && final(self).store() == (DaoModel {
                    strings: old(self).store().strings.insert(safe_key(old(self).name(), old(self).lt(), tv, service@),
                        ("SAFE_AUTH_SAVE_VALUE"@, expire_moment(safe_time, old(self).now()))),
                    ..old(self).store()
                }),
                None => r matches Err(e) && is_not_login(e, "未提供 Token"@, old(self).lt())
                    && final(self).store() == old(self).store(),
            },
            r is Ok ==> final(self).safe_now(service@),
            r is Ok ==> final(self).safe_opened_from(&*old(self), service@, safe_time),
            match old(self).current_token() {
                Some(tv) => final(self).events() == old(self).events().push(EventModel::OpenSafe {
                    login_type: old(self).lt(), token: tv, service: service@, safe_time }),
                None => final(self).events() == old(self).events(),
            },
    {
        let tv = match self.get_token_value() {
            Some(tv) => tv,
            None => return Err(SaTokenException::not_login("未提供 Token", self.login_type.as_str())),
        };
        let key = self.splicing_key_safe(tv.as_str(), service);
        self.dao.set(key.as_str(), "SAFE_AUTH_SAVE_VALUE", safe_time, self.clock);
        self.record(SaTokenEvent::OpenSafe {
            login_type: self.login_type.clone(), token: tv, service: service.to_owned(), safe_time });
        Ok(())
    }

    /// Grants second-level authentication for the empty service.
    pub fn open_safe(&mut self, safe_time: i64) -> (r: SaResult<()>)
        requires
            old(self).wf(),
            fits(old(self).now(), safe_time),
        ensures
            final(self).wf(),
            final(self).same_but_store(&*old(self)),
            match old(self).current_token() {
                Some(tv) => r is Ok && final(self).store() == (DaoModel {
                    strings: old(self).store().strings.insert(safe_key(old(self).name(), old(self).lt(), tv, ""@),
                        ("SAFE_AUTH_SAVE_VALUE"@, expire_moment(safe_time, old(self).now()))),
                    ..old(self).store()
                }),
                None => r matches Err(e) && is_not_login(e, "未提供 Token"@, old(self).lt())
                    && final(self).store() == old(self).store(),
            },
            r is Ok ==> final(self).safe_now(""@),
    {
        self.open_safe_with_service("", safe_time)
    }

    /// Whether the current token holds second-level authentication for a service.
    pub fn is_safe_with_service(&self, service: &str) -> (r: SaResult<bool>)
        requires
            self.wf(),
        ensures
            r == Ok::<bool, SaTokenException>(self.safe_now(service@)),
    {
        match self.get_token_value() {
            Some(tv) => {
                let key = self.splicing_key_safe(tv.as_str(), service);
                Ok(self.dao.get(key.as_str(), self.clock).is_some())
            },
            None => Ok(false),
        }
    }

    /// Whether the current token holds second-level authentication for the empty service.
    pub fn is_safe(&self) -> (r: SaResult<bool>)
        requires
            self.wf(),
        ensures
            r == Ok::<bool, SaTokenException>(self.safe_now(""@)),
    {
        self.is_safe_with_service("")
    }

    /// Fails unless the current token holds second-level authentication for a service.
    pub fn check_safe_with_service(&self, service: &str) -> (r: SaResult<()>)
        requires
            self.wf(),
        ensures
            self.safe_now(service@) ==> r is Ok,
            !self.safe_now(service@) ==> (r matches Err(e) && is_not_safe(e, service@, self.lt())),
    {
        if !self.is_safe_with_service(service)? {
            return Err(SaTokenException::not_safe(service, self.login_type.as_str()));
        }
        Ok(())
    }

    /// Fails unless the current token holds second-level authentication for the empty service.
    pub fn check_safe(&self) -> (r: SaResult<()>)
        requires
            self.wf(),
        ensures
            self.safe_now(""@) ==> r is Ok,
            !self.safe_now(""@) ==> (r matches Err(e) && is_not_safe(e, ""@, self.lt())),
    {
        self.check_safe_with_service("")
    }

    /// Withdraws the current token's second-level authentication for a service.
    pub fn close_safe_with_service(&mut self, service: &str) -> (r: SaResult<()>)
        requires
            old(self).wf(),
        ensures
            r is Ok,
            final(self).wf(),
            final(self).same_but_store(&*old(self)),
            match old(self).current_token() {
                Some(tv) => final(self).store() == (DaoModel {
                    strings: old(self).store().strings.remove(safe_key(old(self).name(), old(self).lt(), tv, service@)),
                    ..old(self).store()
                }),
                None => final(self).store() == old(self).store(),
            },
            !final(self).safe_now(service@),
            final(self).safe_closed_from(&*old(self), service@),
            match old(self).current_token() {
                Some(tv) => final(self).events() == old(self).events().push(EventModel::CloseSafe {
                    login_type: old(self).lt(), token: tv, service: service@ }),
                None => final(self).events() == old(self).events(),
            },
    {
        if let Some(tv) = self.get_token_value() {
            let key = self.splicing_key_safe(tv.as_str(), service);
            self.dao.delete(key.as_str());
            self.record(SaTokenEvent::CloseSafe {
                login_type: self.login_type.clone(), token: tv, service: service.to_owned() });
        }
        Ok(())
    }

    /// Withdraws second-level authentication for the empty service.
    pub fn close_safe(&mut self) -> (r: SaResult<()>)
        requires
            old(self).wf(),
        ensures
            r is Ok,
            final(self).wf(),
            final(self).same_but_store(&*old(self)),
            match old(self).current_token() {
                Some(tv) => final(self).store() == (DaoModel {
                    strings: old(self).store().strings.remove(safe_key(old(self).name(), old(self).lt(), tv, ""@)),
                    ..old(self).store()
                }),
                None => final(self).store() == old(self).store(),
            },
            !final(self).safe_now(""@),
    {
        self.close_safe_with_service("")
    }

    // ==================== switching accounts ====================

    /// The account the request switched to.
    pub open spec fn switched_to(&self) -> Option<Seq<char>> {
        let m = self.ctx().storage.view_map();
        if m.contains_key(switch_key(self.lt())) { Some(m[switch_key(self.lt())]) } else { None }
    }

    /// Switches the current request to act as another account; a
    /// missing-login error without a token.
    pub fn switch_to(&mut self, login_id: &str) -> (r: SaResult<()>)
        requires
            old(self).wf(),
        ensures
            final(self).wf(),
            final(self).lt() == old(self).lt(),
            final(self).now() == old(self).now(),
            final(self).cfg() == old(self).cfg(),
            final(self).store() == old(self).store(),
            final(self).source() == old(self).source(),
            final(self).ctx().valid == old(self).ctx().valid,
            final(self).ctx().request == old(self).ctx().request,
            final(self).ctx().response == old(self).ctx().response,
            old(self).current_token() is Some ==> r is Ok && final(self).ctx().storage.view_map()
                == old(self).ctx().storage.view_map().insert(switch_key(old(self).lt()), login_id@),
            old(self).current_token() is None ==> (r matches Err(e) && is_not_login(e, "未提供 Token"@, old(self).lt())
                && final(self).ctx() == old(self).ctx()),
            r is Ok ==> final(self).switched_to() == Some(login_id@),
    {
        if self.get_token_value().is_none() {
            return Err(SaTokenException::not_login("未提供 Token", self.login_type.as_str()));
        }
        let key = self.splicing_key_switch();
        self.context.storage.set(key.as_str(), login_id);
        Ok(())
    }

    /// Ends the switch.
    pub fn end_switch(&mut self) -> (r: SaResult<()>)
        requires
            old(self).wf(),
        ensures
            r is Ok,
            final(self).wf(),
            final(self).lt() == old(self).lt(),
            final(self).now() == old(self).now(),
            final(self).cfg() == old(self).cfg(),
            final(self).store() == old(self).store(),
            final(self).source() == old(self).source(),
            final(self).ctx().valid == old(self).ctx().valid,
            final(self).ctx().request == old(self).ctx().request,
            final(self).ctx().response == old(self).ctx().response,
            final(self).ctx().storage.view_map() == old(self).ctx().storage.view_map().remove(switch_key(old(self).lt())),
            final(self).switched_to() is None,
    {
        let key = self.splicing_key_switch();
        self.context.storage.delete(key.as_str());
        Ok(())
    }

    /// Whether the request switched to another account.
    pub fn is_switch(&self) -> (r: SaResult<bool>)
        requires
            self.wf(),
        ensures
            r == Ok::<bool, SaTokenException>(self.switched_to() is Some),
    {
        let key = self.splicing_key_switch();
        Ok(self.context.storage.get(key.as_str()).is_some())
    }

    /// The account the request switched to.
    pub fn get_switch_login_id(&self) -> (r: SaResult<Option<String>>)
        requires
            self.wf(),
        ensures
            r matches Ok(o) && match self.switched_to() {
                Some(id) => o is Some && o->0@ == id,
                None => o is None,
            },
    {
        let key = self.splicing_key_switch();
        Ok(self.context.storage.get(key.as_str()))
    }

    // ==================== sessions ====================

    /// A new login session of an account, not yet stored.
    pub open spec fn new_login_session(&self, id: Seq<char>) -> SessionModel {
        SessionModel {
            id: self.skey(id),
            session_type: "login"@,
            login_type: self.lt(),
            login_id: id,
            token: Seq::empty(),
            terminals: Seq::empty(),
        }
    }

    /// The store after a token is taken out: its token and last activity
    /// keys removed and its terminal dropped from the live session of the
    /// account it was logged in to; unchanged when it is not logged in.
    pub open spec fn store_without_token(&self, tv: Seq<char>) -> DaoModel {
        match self.owner_of(tv) {
            None => self.store(),
            Some(id) => DaoModel {
                strings: self.store().strings.remove(self.tkey(tv)).remove(self.akey(tv)),
                sessions: match self.session_of(id) {
                    Some(s) => with_value(self.store().sessions, self.skey(id),
                        SessionModel { terminals: without_token(s.terminals, tv), ..s }),
                    None => self.store().sessions,
                },
                ..self.store()
            },
        }
    }

    /// The login session of an account: the live one, else a new one that is not stored.
    pub fn get_or_create_login_session(&self, login_id: &str) -> (r: SaResult<SaSession>)
        requires
            self.wf(),
        ensures
            r matches Ok(s) && s@ == match self.session_of(login_id@) {
                Some(t) => t,
                None => self.new_login_session(login_id@),
            },
    {
        match self.load_session(login_id) {
            Some(s) => Ok(s),
            None => {
                let key = self.splicing_key_session(login_id);
                let mut session = SaSession::new(key.as_str());
                session.set_login_type(self.login_type.as_str());
                session.set_login_id(login_id);
                session.set_session_type("login");
                Ok(session)
            },
        }
    }

    /// The live session of an account; an error without one.
    pub fn get_session_by_login_id(&self, login_id: &str) -> (r: SaResult<SaSession>)
        requires
            self.wf(),
        ensures
            match self.session_of(login_id@) {
                Some(s) => r matches Ok(v) && v@ == s,
                None => r matches Err(e) && is_other(e, "Session 不存在"@),
            },
    {
        match self.load_session(login_id) {
            Some(s) => Ok(s),
            None => Err(SaTokenException::other("Session 不存在")),
        }
    }

    /// The live session of the current account.
    pub fn get_session(&self) -> (r: SaResult<SaSession>)
        requires
            self.wf(),
        ensures
            match self.current_login_id() {
                Some(id) => match self.session_of(id) {
                    Some(s) => r matches Ok(v) && v@ == s,
                    None => r matches Err(e) && is_other(e, "Session 不存在"@),
                },
                None => r matches Err(e) && is_not_login(e, "未登录"@, self.lt()),
            },
    {
        let id = self.get_login_id()?;
        self.get_session_by_login_id(id.as_str())
    }

    /// The terminals of an account after the tokens of a list were taken
    /// out one after another: those whose token is listed and was the
    /// account's own are gone.
    pub open spec fn kept_terminals(&self, id: Seq<char>, removed: Seq<Seq<char>>) -> Seq<TerminalModel> {
        self.terminals_of_account(id).filter(|t: TerminalModel| !(removed.contains(t.token_value) && self.owner_of(t.token_value) == Some(id)))
    }

    /// Taking a token out drops its terminals from its owner's session and
    /// leaves every other account's terminals as they were.
    pub proof fn lemma_terminals_without_token(&self, after: &Self, tv: Seq<char>, a: Seq<char>)
        requires
            after.same_but_store(self),
            after.store() == self.store_without_token(tv),
        ensures
            after.terminals_of_account(a) == (if self.owner_of(tv) == Some(a) {
                without_token(self.terminals_of_account(a), tv)
            } else {
                self.terminals_of_account(a)
            }),
    {
        match self.owner_of(tv) {
            None => {},
            Some(id) => {
                lemma_session_key_injective(self.name(), self.lt(), a, id);
                match self.session_of(id) {
                    Some(s) => {
                        assert(self.store().sessions.contains_key(self.skey(id)));
                        if a == id {
                            assert(after.session_of(a) == Some(SessionModel { terminals: without_token(s.terminals, tv), ..s }));
                        } else {
                            assert(after.session_of(a) == self.session_of(a));
                        }
                    },
                    None => {
                        assert(after.session_of(a) == self.session_of(a));
                        assert(without_token(Seq::<TerminalModel>::empty(), tv) =~= Seq::<TerminalModel>::empty());
                    },
                }
            },
        }
    }

    /// Takes a token out (see [`Self::store_without_token`]).
    fn remove_token(&mut self, token_value: &str, kind: RemovalKind)
        requires
            old(self).wf(),
        ensures
            final(self).wf(),
            final(self).same_but_store(&*old(self)),
            final(self).store() == old(self).store_without_token(token_value@),
            final(self).owner_of(token_value@) is None,
            final(self).events() == old(self).events() + old(self).removal_events_of(token_value@, kind),
    {
        let ghost pre = self.store();
        let id = match self.get_login_id_by_token(token_value) {
            Ok(Some(id)) => id,
            _ => return,
        };
        let tkey = self.splicing_key_token_value(token_value);
        self.dao.delete(tkey.as_str());
        let akey = self.splicing_key_last_active_time(token_value);
        self.dao.delete(akey.as_str());
        let ghost mid = self.store();
        let skey = self.splicing_key_session(id.as_str());
        match self.dao.get_session(skey.as_str(), self.clock) {
            Some(mut session) => {
                proof {
                    assert(pre.sessions.contains_key(skey@));
                    assert(session@.id == skey@);
                }
                session.remove_terminal(token_value);
                self.dao.update_session(&session);
            },
            None => {},
        }
        proof {
            assert(self.store().strings =~= pre.strings.remove(old(self).tkey(token_value@)).remove(old(self).akey(token_value@)));
            assert(sessions_keyed(self.dao@.sessions));
        }
        let lt = self.login_type.clone();
        let tv = token_value.to_owned();
        let e = match kind {
            RemovalKind::Logout => SaTokenEvent::Logout { login_type: lt, login_id: id, token: tv },
            RemovalKind::Kickout => SaTokenEvent::Kickout { login_type: lt, login_id: id, token: tv },
            RemovalKind::Replaced => SaTokenEvent::Replaced { login_type: lt, login_id: id, token: tv },
        };
        self.record(e);
        proof {
            assert(old(self).removal_events_of(token_value@, kind) =~= seq![e@]);
        }
    }

    /// The event of a token leaving in this way: one when it is logged in,
    /// none otherwise.
    pub open spec fn removal_events_of(&self, tv: Seq<char>, kind: RemovalKind) -> Seq<EventModel> {
        match self.owner_of(tv) {
            Some(id) => seq![removal_event(kind, self.lt(), id, tv)],
            None => Seq::empty(),
        }
    }

    /// The events of the tokens of a list leaving one after another in this
    /// way: one for each token logged in when its turn comes (a token listed
    /// again has already left).
    pub open spec fn removal_seq(&self, list: Seq<Seq<char>>, kind: RemovalKind) -> Seq<EventModel>
        decreases list.len(),
    {
        if list.len() == 0 {
            Seq::empty()
        } else {
            self.removal_seq(list.drop_last(), kind) + (if list.drop_last().contains(list.last()) {
                Seq::<EventModel>::empty()
            } else {
                self.removal_events_of(list.last(), kind)
            })
        }
    }

    /// Logs a token out.
    pub fn logout_by_token_value(&mut self, token_value: &str) -> (r: SaResult<()>)
        requires
            old(self).wf(),
        ensures
            r is Ok,
            final(self).wf(),
            final(self).same_but_store(&*old(self)),
            final(self).store() == old(self).store_without_token(token_value@),
            final(self).owner_of(token_value@) is None,
            final(self).events() == old(self).events() + old(self).removal_events_of(token_value@, RemovalKind::Logout),
    {
        self.remove_token(token_value, RemovalKind::Logout);
        Ok(())
    }

    /// Kicks a token out.
    pub fn kickout_by_token_value(&mut self, token_value: &str) -> (r: SaResult<()>)
        requires
            old(self).wf(),
        ensures
            r is Ok,
            final(self).wf(),
            final(self).same_but_store(&*old(self)),
            final(self).store() == old(self).store_without_token(token_value@),
            final(self).owner_of(token_value@) is None,
            final(self).events() == old(self).events() + old(self).removal_events_of(token_value@, RemovalKind::Kickout),
    {
        self.remove_token(token_value, RemovalKind::Kickout);
        Ok(())
    }

    /// Logs a token out because another login replaced it.
    pub fn replaced_by_token_value(&mut self, token_value: &str) -> (r: SaResult<()>)
        requires
            old(self).wf(),
        ensures
            r is Ok,
            final(self).wf(),
            final(self).same_but_store(&*old(self)),
            final(self).store() == old(self).store_without_token(token_value@),
            final(self).owner_of(token_value@) is None,
            final(self).events() == old(self).events() + old(self).removal_events_of(token_value@, RemovalKind::Replaced),
    {
        self.remove_token(token_value, RemovalKind::Replaced);
        Ok(())
    }

    /// The store lost at most the token and last activity keys of the
    /// tokens and terminals of sessions, and nothing else changed in it.
    pub open spec fn shrunk_by(&self, before: &Self, tokens: Seq<Seq<char>>) -> bool {
        &&& forall|k: Seq<char>| #[trigger] self.store().strings.contains_key(k)
                ==> before.store().strings.contains_key(k) && self.store().strings[k] == before.store().strings[k]
        &&& forall|k: Seq<char>| #[trigger] before.store().strings.contains_key(k)
                && (forall|j: int| 0 <= j < tokens.len() ==> k != before.tkey(tokens[j]) && k != before.akey(tokens[j]))
                ==> self.store().strings.contains_key(k)
        &&& self.store().objects == before.store().objects
        &&& self.store().sessions.dom() == before.store().sessions.dom()
        &&& forall|k: Seq<char>| #[trigger] self.store().sessions.contains_key(k) ==> self.store().sessions[k] == (
                SessionModel { terminals: self.store().sessions[k].0.terminals, ..before.store().sessions[k].0 },
                before.store().sessions[k].1)
    }

    /// Takes every one of the tokens out.
    fn remove_tokens(&mut self, tokens: &Vec<String>, kind: RemovalKind)
        requires
            old(self).wf(),
        ensures
            final(self).wf(),
            final(self).same_but_store(&*old(self)),
            final(self).shrunk_by(&*old(self), views(tokens@)),
            forall|j: int| 0 <= j < tokens@.len() ==> final(self).owner_of(#[trigger] tokens@[j]@) is None,
            final(self).events() == old(self).events() + old(self).removal_seq(views(tokens@), kind),
            forall|a: Seq<char>| #[trigger] final(self).terminals_of_account(a) == old(self).kept_terminals(a, views(tokens@)),
    {
        let mut i: usize = 0;
        assert(views(tokens@).subrange(0, 0) =~= Seq::<Seq<char>>::empty());
        assert(old(self).events() + Seq::<EventModel>::empty() =~= old(self).events());
        assert forall|a: Seq<char>| #[trigger] self.terminals_of_account(a) == old(self).kept_terminals(a, views(tokens@).subrange(0, 0)) by {
            let ts = old(self).terminals_of_account(a);
            lemma_filter_keeps_all(ts, |t: TerminalModel| !(views(tokens@).subrange(0, 0).contains(t.token_value) && old(self).owner_of(t.token_value) == Some(a)));
        }
        while i < tokens.len()
            invariant
                i <= tokens@.len(),
                self.wf(),
                self.same_but_store(&*old(self)),
                self.shrunk_by(&*old(self), views(tokens@).subrange(0, i as int)),
                forall|j: int| 0 <= j < i ==> self.owner_of(#[trigger] tokens@[j]@) is None,
                self.events() == old(self).events() + old(self).removal_seq(views(tokens@).subrange(0, i as int), kind),
                forall|a: Seq<char>| #[trigger] self.terminals_of_account(a) == old(self).kept_terminals(a, views(tokens@).subrange(0, i as int)),
            decreases tokens@.len() - i,
        {
            let ghost before = *self;
            proof {
                let t = tokens@[i as int]@;
                let prior = views(tokens@).subrange(0, i as int);
                if prior.contains(t) {
                    let j = choose|j: int| 0 <= j < prior.len() && prior[j] == t;
                    assert(tokens@[j]@ == t);
                    assert(before.owner_of(t) is None);
                } else {
                    let k = old(self).tkey(t);
                    assert forall|j: int| 0 <= j < prior.len() implies k != old(self).tkey(prior[j]) && k != old(self).akey(prior[j]) by {
                        lemma_token_key_injective(old(self).name(), old(self).lt(), t, prior[j]);
                        lemma_token_key_not_active_key(old(self).name(), old(self).lt(), t, prior[j]);
                    }
                    if old(self).store().strings.contains_key(k) {
                        assert(before.store().strings.contains_key(k));
                    } else {
                        if before.store().strings.contains_key(k) {
                            assert(old(self).store().strings.contains_key(k));
                        }
                    }
                    assert(before.owner_of(t) == old(self).owner_of(t));
                }
                assert(before.removal_events_of(t, kind) == (if prior.contains(t) { Seq::<EventModel>::empty() } else { old(self).removal_events_of(t, kind) }));
            }
            self.remove_token(tokens[i].as_str(), kind);
            proof {
                let tv = tokens@[i as int]@;
                let sub = views(tokens@).subrange(0, i as int + 1);
                assert(sub[i as int] == tv);
                assert(sub.drop_last() =~= views(tokens@).subrange(0, i as int));
                assert(sub.last() == tv);
                assert(self.events() =~= old(self).events() + old(self).removal_seq(sub, kind));
                let prior = views(tokens@).subrange(0, i as int);
                assert(prior.contains(tv) ==> before.owner_of(tv) is None) by {
                    if prior.contains(tv) {
                        let j = choose|j: int| 0 <= j < prior.len() && prior[j] == tv;
                        assert(tokens@[j]@ == tv);
                    }
                }
                assert forall|a: Seq<char>| #[trigger] self.terminals_of_account(a) == old(self).kept_terminals(a, sub) by {
                    before.lemma_terminals_without_token(&*self, tv, a);
                    let x = old(self).terminals_of_account(a);
                    let p = |t: TerminalModel| !(prior.contains(t.token_value) && old(self).owner_of(t.token_value) == Some(a));
                    let q = |t: TerminalModel| !(sub.contains(t.token_value) && old(self).owner_of(t.token_value) == Some(a));
                    assert forall|t: TerminalModel| #[trigger] sub.contains(t.token_value) == (prior.contains(t.token_value) || t.token_value == tv) by {
                        if sub.contains(t.token_value) {
                            let k = choose|k: int| 0 <= k < sub.len() && sub[k] == t.token_value;
                            if k < i {
                                assert(prior[k] == sub[k]);
                            }
                        }
                        if prior.contains(t.token_value) {
                            let k = choose|k: int| 0 <= k < prior.len() && prior[k] == t.token_value;
                            assert(sub[k] == prior[k]);
                        }
                    }
                    if before.owner_of(tv) == Some(a) {
                        lemma_without_token_filter(x, p, tv);
                        let pq = |t: TerminalModel| p(t) && t.token_value != tv;
                        assert(pq =~= q);
                    } else {
                        assert(p =~= q);
                    }
                }
                assert forall|j: int| 0 <= j < i implies self.owner_of(#[trigger] tokens@[j]@) is None by {
                    let k = self.tkey(tokens@[j]@);
                    assert(before.owner_of(tokens@[j]@) is None);
                    if self.store().strings.contains_key(k) {
                        assert(before.store().strings.contains_key(k));
                    }
                }
                assert forall|k: Seq<char>| #[trigger] old(self).store().strings.contains_key(k)
                    && (forall|j: int| 0 <= j < sub.len() ==> k != old(self).tkey(sub[j]) && k != old(self).akey(sub[j]))
                    implies self.store().strings.contains_key(k) by {
                    assert(k != old(self).tkey(sub[i as int]) && k != old(self).akey(sub[i as int]));
                    assert forall|j: int| 0 <= j < i implies k != old(self).tkey(views(tokens@).subrange(0, i as int)[j])
                        && k != old(self).akey(views(tokens@).subrange(0, i as int)[j]) by {
                        assert(views(tokens@).subrange(0, i as int)[j] == sub[j]);
                    }
                }
                assert forall|k: Seq<char>| #[trigger] self.store().sessions.contains_key(k) implies self.store().sessions[k] == (
                    SessionModel { terminals: self.store().sessions[k].0.terminals, ..old(self).store().sessions[k].0 },
                    old(self).store().sessions[k].1) by {
                    assert(before.store().sessions.contains_key(k));
                }
                assert(self.store().sessions.dom() =~= old(self).store().sessions.dom());
            }
            i += 1;
        }
        assert(views(tokens@).subrange(0, tokens@.len() as int) =~= views(tokens@));
    }

    /// Logs every token of an account's live session out and deletes the session.
    pub fn logout_by_login_id(&mut self, login_id: &str) -> (r: SaResult<()>)
        requires
            old(self).wf(),
        ensures
            r is Ok,
            final(self).wf(),
            final(self).same_but_store(&*old(self)),
            forall|j: int| 0 <= j < old(self).tokens_of_account(login_id@).len()
                ==> final(self).owner_of(#[trigger] old(self).tokens_of_account(login_id@)[j]) is None,
            final(self).session_of(login_id@) is None,
            !final(self).store().sessions.contains_key(old(self).skey(login_id@)),
            forall|k: Seq<char>| #[trigger] final(self).store().strings.contains_key(k)
                ==> old(self).store().strings.contains_key(k) && final(self).store().strings[k] == old(self).store().strings[k],
            final(self).store().objects == old(self).store().objects,
            final(self).events() == old(self).events()
                + old(self).removal_seq(old(self).tokens_of_account(login_id@), RemovalKind::Logout),
    {
        let tokens = self.get_token_value_list_by_login_id(login_id)?;
        self.remove_tokens(&tokens, RemovalKind::Logout);
        let skey = self.splicing_key_session(login_id);
        self.dao.delete_session(skey.as_str());
        proof {
            assert forall|j: int| 0 <= j < old(self).tokens_of_account(login_id@).len()
                implies self.owner_of(#[trigger] old(self).tokens_of_account(login_id@)[j]) is None by {
                assert(views(tokens@)[j] == tokens@[j]@);
            }
            assert(sessions_keyed(self.dao@.sessions));
        }
        Ok(())
    }

    /// Kicks every token of an account's live session out.
    pub fn kickout_by_login_id(&mut self, login_id: &str) -> (r: SaResult<()>)
        requires
            old(self).wf(),
        ensures
            r is Ok,
            final(self).wf(),
            final(self).same_but_store(&*old(self)),
            final(self).shrunk_by(&*old(self), old(self).tokens_of_account(login_id@)),
            forall|j: int| 0 <= j < old(self).tokens_of_account(login_id@).len()
                ==> final(self).owner_of(#[trigger] old(self).tokens_of_account(login_id@)[j]) is None,
            final(self).events() == old(self).events()
                + old(self).removal_seq(old(self).tokens_of_account(login_id@), RemovalKind::Kickout),
    {
        let tokens = self.get_token_value_list_by_login_id(login_id)?;
        self.remove_tokens(&tokens, RemovalKind::Kickout);
        proof {
            assert forall|j: int| 0 <= j < old(self).tokens_of_account(login_id@).len()
                implies self.owner_of(#[trigger] old(self).tokens_of_account(login_id@)[j]) is None by {
                assert(views(tokens@)[j] == tokens@[j]@);
            }
        }
        Ok(())
    }

    /// Logs every token of an account's live session out because another
    /// login replaced them.
    pub fn replaced_by_login_id(&mut self, login_id: &str) -> (r: SaResult<()>)
        requires
            old(self).wf(),
        ensures
            r is Ok,
            final(self).wf(),
            final(self).same_but_store(&*old(self)),
            final(self).shrunk_by(&*old(self), old(self).tokens_of_account(login_id@)),
            forall|j: int| 0 <= j < old(self).tokens_of_account(login_id@).len()
                ==> final(self).owner_of(#[trigger] old(self).tokens_of_account(login_id@)[j]) is None,
            final(self).events() == old(self).events()
                + old(self).removal_seq(old(self).tokens_of_account(login_id@), RemovalKind::Replaced),
            final(self).terminals_of_account(login_id@) == old(self).kept_terminals(login_id@, old(self).tokens_of_account(login_id@)),
    {
        let tokens = self.get_token_value_list_by_login_id(login_id)?;
        self.remove_tokens(&tokens, RemovalKind::Replaced);
        proof {
            assert forall|j: int| 0 <= j < old(self).tokens_of_account(login_id@).len()
                implies self.owner_of(#[trigger] old(self).tokens_of_account(login_id@)[j]) is None by {
                assert(views(tokens@)[j] == tokens@[j]@);
            }
        }
        Ok(())
    }

    /// Logs the current account out of every token of its live session
    /// (see [`Self::logout_by_login_id`]); nothing when not logged in.
    pub fn logout(&mut self) -> (r: SaResult<()>)
        requires
            old(self).wf(),
        ensures
            r is Ok,
            final(self).logged_out_from(&*old(self)),
            (old(self).switched_to() is None && (old(self).current_login_id() matches Some(id)
                && old(self).tokens_of_account(id).contains(old(self).current_token()->0)))
                ==> final(self).current_login_id() is None,
            match old(self).current_login_id() {
                Some(id) => final(self).events() == old(self).events()
                    + old(self).removal_seq(old(self).tokens_of_account(id), RemovalKind::Logout),
                None => final(self).events() == old(self).events(),
            },
    {
        if let Some(login_id) = self.get_login_id_default_null()? {
            self.logout_by_login_id(login_id.as_str())?;
            proof {
                let id = login_id@;
                let tv = old(self).current_token()->0;
                if old(self).tokens_of_account(id).contains(tv) {
                    let j = choose|j: int| 0 <= j < old(self).tokens_of_account(id).len() && old(self).tokens_of_account(id)[j] == tv;
                    assert(self.owner_of(old(self).tokens_of_account(id)[j]) is None);
                }
            }
        }
        Ok(())
    }

    /// Logs the current token out and fails with a missing-login error when
    /// it was inactive for longer than the inactivity limit; nothing when
    /// there is no limit.
    pub fn check_active_timeout(&mut self) -> (r: SaResult<()>)
        requires
            old(self).wf(),
        ensures
            final(self).wf(),
            final(self).same_but_store(&*old(self)),
            old(self).cfg().active_timeout <= 0 ==> r is Ok && final(self).store() == old(self).store(),
            old(self).cfg().active_timeout > 0 ==> match old(self).current_token() {
                None => r matches Err(e) && is_not_login(e, "未提供 Token"@, old(self).lt())
                    && final(self).store() == old(self).store(),
                Some(tv) => if old(self).now() - old(self).last_active_of(tv) > old(self).cfg().active_timeout {
                    r matches Err(e) && is_not_login(e, "活跃超时"@, old(self).lt())
                        && final(self).store() == old(self).store_without_token(tv)
                        && final(self).events() == old(self).events() + old(self).removal_events_of(tv, RemovalKind::Logout)
                } else {
                    r is Ok && final(self).store() == old(self).store()
                        && final(self).events() == old(self).events()
                },
            },
            old(self).cfg().active_timeout <= 0 || old(self).current_token() is None
                ==> final(self).events() == old(self).events(),
    {
        if self.config.active_timeout <= 0 {
            return Ok(());
        }
        let tv = match self.get_token_value() {
            Some(tv) => tv,
            None => return Err(SaTokenException::not_login("未提供 Token", self.login_type.as_str())),
        };
        let last_active = self.get_token_last_active_time(tv.as_str())?;
        if (self.clock as i128) - (last_active as i128) > self.config.active_timeout as i128 {
            self.remove_token(tv.as_str(), RemovalKind::Logout);
            return Err(SaTokenException::not_login("活跃超时", self.login_type.as_str()));
        }
        Ok(())
    }

    // ==================== token sessions ====================

    /// The token session key of a token.
    pub open spec fn tskey(&self, tv: Seq<char>) -> Seq<char> {
        token_session_key(self.name(), self.lt(), tv)
    }

    /// A new token session of a token, not yet stored.
    pub open spec fn new_token_session(&self, tv: Seq<char>, session_type: Seq<char>) -> SessionModel {
        SessionModel {
            id: self.tskey(tv),
            session_type,
            login_type: self.lt(),
            login_id: Seq::empty(),
            token: tv,
            terminals: Seq::empty(),
        }
    }

    /// A token's live token session.
    pub open spec fn token_session_of(&self, tv: Seq<char>) -> Option<SessionModel> {
        live_value(self.store().sessions, self.tskey(tv), self.now())
    }

    /// A token's token session: the live one; else, when asked to create
    /// and the token is logged in, a new one stored for the token's
    /// remaining lifetime; errors for an empty token and, when asked to
    /// create, for a token that is not logged in.
    pub fn get_token_session_by_token_create(&mut self, token_value: &str, is_create: bool) -> (r: SaResult<Option<SaSession>>)
        requires
            old(self).wf(),
        ensures
            final(self).wf(),
            final(self).same_but_store(&*old(self)),
            token_value@.len() == 0 ==> (r matches Err(e) && is_other(e, "Token-Session 获取失败：token 为空"@)
                && final(self).store() == old(self).store()),
            token_value@.len() > 0 ==> match old(self).token_session_of(token_value@) {
                Some(s) => r matches Ok(Some(v)) && v@ == s && final(self).store() == old(self).store(),
                None => if !is_create {
                    r matches Ok(None) && final(self).store() == old(self).store()
                } else if old(self).owner_of(token_value@) is None {
                    r matches Err(e) && is_other(e, "Token-Session 获取失败，token 无效: "@ + token_value@)
                        && final(self).store() == old(self).store()
                } else {
                    r matches Ok(Some(v)) && v@ == old(self).new_token_session(token_value@, "token"@)
                        && final(self).store() == (DaoModel {
                            sessions: old(self).store().sessions.insert(old(self).tskey(token_value@),
                                (old(self).new_token_session(token_value@, "token"@), expire_moment(
                                    remaining(old(self).store().strings, old(self).tkey(token_value@), old(self).now()),
                                    old(self).now()))),
                            ..old(self).store()
                        })
                },
            },
            final(self).events() == old(self).events(),
    {
        if token_value.is_empty() {
            return Err(SaTokenException::other("Token-Session 获取失败：token 为空"));
        }
        let key = self.splicing_key_token_session(token_value);
        if let Some(session) = self.dao.get_session(key.as_str(), self.clock) {
            return Ok(Some(session));
        }
        if !is_create {
            return Ok(None);
        }
        if self.get_login_id_by_token(token_value)?.is_none() {
            let mut m = String::new();
            m.append("Token-Session 获取失败，token 无效: ");
            m.append(token_value);
            return Err(SaTokenException::other(m.as_str()));
        }
        let mut session = SaSession::new(key.as_str());
        session.set_session_type("token");
        session.set_login_type(self.login_type.as_str());
        session.set_token(token_value);
        let timeout = self.get_token_timeout_by_token(token_value)?;
        self.dao.set_session(&session, timeout, self.clock);
        proof {
            assert(sessions_keyed(self.dao@.sessions));
        }
        Ok(Some(session))
    }

    /// A token's token session, created when needed (see
    /// [`Self::get_token_session_by_token_create`]).
    pub fn get_token_session_by_token(&mut self, token_value: &str) -> (r: SaResult<SaSession>)
        requires
            old(self).wf(),
        ensures
            final(self).wf(),
            final(self).same_but_store(&*old(self)),
            token_value@.len() == 0 ==> (r matches Err(e) && is_other(e, "Token-Session 获取失败：token 为空"@)
                && final(self).store() == old(self).store()),
            token_value@.len() > 0 ==> match old(self).token_session_of(token_value@) {
                Some(s) => r matches Ok(v) && v@ == s && final(self).store() == old(self).store(),
                None => if old(self).owner_of(token_value@) is None {
                    r matches Err(e) && is_other(e, "Token-Session 获取失败，token 无效: "@ + token_value@)
                        && final(self).store() == old(self).store()
                } else {
                    r matches Ok(v) && v@ == old(self).new_token_session(token_value@, "token"@)
                        && final(self).store() == (DaoModel {
                            sessions: old(self).store().sessions.insert(old(self).tskey(token_value@),
                                (old(self).new_token_session(token_value@, "token"@), expire_moment(
                                    remaining(old(self).store().strings, old(self).tkey(token_value@), old(self).now()),
                                    old(self).now()))),
                            ..old(self).store()
                        })
                },
            },
    {
        match self.get_token_session_by_token_create(token_value, true)? {
            Some(s) => Ok(s),
            None => Err(SaTokenException::other("Token-Session 不存在")),
        }
    }

    /// The current token's token session (see [`Self::get_token_session_by_token`]);
    /// a missing-login error without a token.
    pub fn get_token_session(&mut self) -> (r: SaResult<SaSession>)
        requires
            old(self).wf(),
        ensures
            final(self).wf(),
            final(self).same_but_store(&*old(self)),
            match old(self).current_token() {
                None => r matches Err(e) && is_not_login(e, "未提供 Token"@, old(self).lt())
                    && final(self).store() == old(self).store(),
                Some(tv) => if tv.len() == 0 {
                    r matches Err(e) && is_other(e, "Token-Session 获取失败：token 为空"@)
                        && final(self).store() == old(self).store()
                } else { match old(self).token_session_of(tv) {
                    Some(s) => r matches Ok(v) && v@ == s && final(self).store() == old(self).store(),
                    None => if old(self).owner_of(tv) is None {
                        r matches Err(e) && is_other(e, "Token-Session 获取失败，token 无效: "@ + tv)
                            && final(self).store() == old(self).store()
                    } else {
                        r matches Ok(v) && v@ == old(self).new_token_session(tv, "token"@)
                            && final(self).store() == (DaoModel {
                                sessions: old(self).store().sessions.insert(old(self).tskey(tv),
                                    (old(self).new_token_session(tv, "token"@), expire_moment(
                                        remaining(old(self).store().strings, old(self).tkey(tv), old(self).now()),
                                        old(self).now()))),
                                ..old(self).store()
                            })
                    },
                } },
            },
    {
        let tv = match self.get_token_value() {
            Some(tv) => tv,
            None => return Err(SaTokenException::not_login("未提供 Token", self.login_type.as_str())),
        };
        self.get_token_session_by_token(tv.as_str())
    }

    /// An anonymous token session: the current token's live token session;
    /// for a logged-in current token without one, its token session (see
    /// [`Self::get_token_session_by_token_create`]); otherwise, when asked to
    /// create, a new token whose session of type `Anon-Token-Session` is
    /// stored for the global lifetime and which is written to the request.
    pub fn get_anon_token_session_create(&mut self, is_create: bool) -> (r: SaResult<Option<SaSession>>)
        requires
            old(self).wf(),
        ensures
            final(self).wf(),
            final(self).lt() == old(self).lt(),
            final(self).now() == old(self).now(),
            final(self).cfg() == old(self).cfg(),
            final(self).source() == old(self).source(),
            match old(self).current_token() {
                Some(tv) => tv.len() > 0 && old(self).token_session_of(tv) is Some,
                None => false,
            } ==> (r matches Ok(Some(v)) && v@ == old(self).token_session_of(old(self).current_token()->0)->0
                && final(self).same(&*old(self))),
            match old(self).current_token() {
                Some(tv) => tv.len() > 0 && old(self).token_session_of(tv) is None && old(self).owner_of(tv) is Some,
                None => false,
            } ==> {
                let tv = old(self).current_token()->0;
                &&& final(self).same_but_store(&*old(self))
                &&& !is_create ==> (r matches Ok(None) && final(self).store() == old(self).store())
                &&& is_create ==> (r matches Ok(Some(v)) && v@ == old(self).new_token_session(tv, "token"@)
                    && final(self).store() == (DaoModel {
                        sessions: old(self).store().sessions.insert(old(self).tskey(tv),
                            (old(self).new_token_session(tv, "token"@), expire_moment(
                                remaining(old(self).store().strings, old(self).tkey(tv), old(self).now()),
                                old(self).now()))),
                        ..old(self).store()
                    }))
            },
            !match old(self).current_token() {
                Some(tv) => tv.len() > 0 && (old(self).token_session_of(tv) is Some || old(self).owner_of(tv) is Some),
                None => false,
            } ==> {
                &&& !is_create ==> (r matches Ok(None) && final(self).same(&*old(self)))
                &&& is_create ==> (r matches Ok(Some(v)) && {
                    let tv = v@.token;
                    &&& token_of_style(old(self).cfg().token_style@, tv)
                    &&& v@ == old(self).new_token_session(tv, "Anon-Token-Session"@)
                    &&& final(self).store() == (DaoModel {
                        strings: old(self).store().strings.insert(old(self).akey(tv), (int_text(old(self).now() as int), -1i64)),
                        sessions: old(self).store().sessions.insert(old(self).tskey(tv),
                            (v@, expire_moment(old(self).cfg().timeout, old(self).now()))),
                        ..old(self).store()
                    })
                    &&& final(self).ctx().valid == old(self).ctx().valid
                    &&& final(self).ctx().request == old(self).ctx().request
                    &&& old(self).ctx().valid ==> final(self).ctx().storage.view_map()
                        == old(self).ctx().storage.view_map().insert(old(self).name(), tv)
                    &&& !old(self).ctx().valid ==> final(self).ctx() == old(self).ctx()
                })
            },
    {
        if let Some(tv) = self.get_token_value() {
            if !tv.as_str().is_empty() {
                if let Some(session) = self.get_token_session_by_token_create(tv.as_str(), false)? {
                    return Ok(Some(session));
                }
                if self.get_login_id_by_token(tv.as_str())?.is_some() {
                    return self.get_token_session_by_token_create(tv.as_str(), is_create);
                }
            }
        }
        if !is_create {
            return Ok(None);
        }
        let tv = create_token_value(&self.config);
        self.set_last_active_to_now(tv.as_str())?;
        self.set_token_value(tv.as_str())?;
        let key = self.splicing_key_token_session(tv.as_str());
        let mut session = SaSession::new(key.as_str());
        session.set_session_type("Anon-Token-Session");
        session.set_login_type(self.login_type.as_str());
        session.set_token(tv.as_str());
        let timeout = self.config.timeout;
        self.dao.set_session(&session, timeout, self.clock);
        proof {
            assert(sessions_keyed(self.dao@.sessions));
        }
        Ok(Some(session))
    }

    /// An anonymous token session, created when needed (see
    /// [`Self::get_anon_token_session_create`]).
    pub fn get_anon_token_session(&mut self) -> (r: SaResult<SaSession>)
        requires
            old(self).wf(),
        ensures
            final(self).wf(),
            final(self).lt() == old(self).lt(),
            final(self).now() == old(self).now(),
            final(self).cfg() == old(self).cfg(),
            final(self).source() == old(self).source(),
            r is Ok,
            match old(self).current_token() {
                Some(tv) => tv.len() > 0 && old(self).token_session_of(tv) is Some,
                None => false,
            } ==> (r matches Ok(v) && v@ == old(self).token_session_of(old(self).current_token()->0)->0
                && final(self).same(&*old(self))),
            match old(self).current_token() {
                Some(tv) => tv.len() > 0 && old(self).token_session_of(tv) is None && old(self).owner_of(tv) is Some,
                None => false,
            } ==> {
                let tv = old(self).current_token()->0;
                &&& final(self).same_but_store(&*old(self))
                &&& r matches Ok(v) && v@ == old(self).new_token_session(tv, "token"@)
                &&& final(self).store() == (DaoModel {
                    sessions: old(self).store().sessions.insert(old(self).tskey(tv),
                        (old(self).new_token_session(tv, "token"@), expire_moment(
                            remaining(old(self).store().strings, old(self).tkey(tv), old(self).now()),
                            old(self).now()))),
                    ..old(self).store()
                })
            },
            !match old(self).current_token() {
                Some(tv) => tv.len() > 0 && (old(self).token_session_of(tv) is Some || old(self).owner_of(tv) is Some),
                None => false,
            } ==> (r matches Ok(v) && {
                let tv = v@.token;
                &&& token_of_style(old(self).cfg().token_style@, tv)
                &&& v@ == old(self).new_token_session(tv, "Anon-Token-Session"@)
                &&& final(self).store() == (DaoModel {
                    strings: old(self).store().strings.insert(old(self).akey(tv), (int_text(old(self).now() as int), -1i64)),
                    sessions: old(self).store().sessions.insert(old(self).tskey(tv),
                        (v@, expire_moment(old(self).cfg().timeout, old(self).now()))),
                    ..old(self).store()
                })
                &&& final(self).ctx().valid == old(self).ctx().valid
                &&& final(self).ctx().request == old(self).ctx().request
                &&& old(self).ctx().valid ==> final(self).ctx().storage.view_map()
                    == old(self).ctx().storage.view_map().insert(old(self).name(), tv)
                &&& !old(self).ctx().valid ==> final(self).ctx() == old(self).ctx()
            }),
    {
        match self.get_anon_token_session_create(true)? {
            Some(s) => Ok(s),
            None => Err(SaTokenException::other("Anon Token-Session 不存在")),
        }
    }

    // ==================== login ====================

    /// The first token of the terminals of a device type that is logged in.
    pub open spec fn reuse_token(&self, ts: Seq<TerminalModel>, device: Seq<char>) -> Option<Seq<char>>
        decreases ts.len(),
    {
        if ts.len() == 0 {
            None
        } else {
            match self.reuse_token(ts.drop_last(), device) {
                Some(t) => Some(t),
                None => if ts.last().device_type == device && self.owner_of(ts.last().token_value) is Some {
                    Some(ts.last().token_value)
                } else {
                    None
                },
            }
        }
    }

    /// The terminals of an account's live session, or none.
    pub open spec fn terminals_of_account(&self, id: Seq<char>) -> Seq<TerminalModel> {
        match self.session_of(id) {
            Some(s) => s.terminals,
            None => Seq::empty(),
        }
    }

    /// The token a login gets: the chosen one; else, for shared concurrent
    /// logins, the first logged-in token of a terminal of the same device
    /// type; else a new one.
    fn dist_usable_token(&self, param: &SaLoginParameter, session: &SaSession) -> (r: String)
        requires
            self.wf(),
        ensures
            match param.token {
                Some(t) => r@ == t@,
                None => if param.concurrent_under(&self.cfg()) && param.share_under(&self.cfg())
                    && self.reuse_token(session@.terminals, param.device_type@) is Some {
                    r@ == self.reuse_token(session@.terminals, param.device_type@)->0
                } else {
                    token_of_style(self.cfg().token_style@, r@)
                },
            },
    {
        match &param.token {
            Some(t) => return t.clone(),
            None => {},
        }
        if param.get_is_concurrent(&self.config) && param.get_is_share(&self.config) {
            let list = session.terminal_list();
            let ghost ts = session@.terminals;
            let mut i: usize = 0;
            while i < list.len()
                invariant
                    self.wf(),
                    param.token is None,
                    param.concurrent_under(&self.cfg()) && param.share_under(&self.cfg()),
                    i <= list@.len(),
                    terminal_models(list@) == ts,
                    session@.terminals == ts,
                    self.reuse_token(ts.subrange(0, i as int), param.device_type@) is None,
                decreases list@.len() - i,
            {
                proof {
                    assert(ts[i as int] == list@[i as int]@);
                    assert(ts.subrange(0, i as int + 1).drop_last() =~= ts.subrange(0, i as int));
                }
                if crate::text::str_eq(list[i].device_type(), param.device_type.as_str()) {
                    let candidate = list[i].token_value();
                    let owner = match self.get_login_id_by_token(candidate) {
                        Ok(o) => o,
                        Err(_) => None,
                    };
                    if owner.is_some() {
                        let r = candidate.to_owned();
                        proof {
                            let sub = ts.subrange(0, i as int + 1);
                            assert(sub.last() == ts[i as int]);
                            assert(ts[i as int].token_value == candidate@);
                            assert(self.owner_of(candidate@) is Some);
                            assert(self.reuse_token(sub, param.device_type@) == Some(candidate@));
                            lemma_reuse_prefix(*self, ts, i as int + 1, param.device_type@);
                            assert(self.reuse_token(ts, param.device_type@) == Some(candidate@));
                            assert(r@ == candidate@);
                        }
                        return r;
                    }
                }
                i += 1;
            }
            assert(ts.subrange(0, ts.len() as int) =~= ts);
        }
        create_token_value(&self.config)
    }

    /// Drops the oldest terminals beyond `max` logins from the session and
    /// takes their tokens out of the store.
    fn evict_overflow(&mut self, session: &mut SaSession, id: &str, max: i32)
        requires
            old(self).wf(),
        ensures
            final(self).wf(),
            final(self).same_but_store(&*old(self)),
            final(session)@ == (SessionModel {
                terminals: without_tokens(old(session)@.terminals, overflow_tokens(old(session)@.terminals, max)),
                ..old(session)@
            }),
            final(self).store() == (DaoModel {
                strings: strings_without(old(self).store().strings, old(self).name(), old(self).lt(),
                    overflow_tokens(old(session)@.terminals, max)),
                ..old(self).store()
            }),
            final(self).events() == old(self).events()
                + logout_events(old(self).lt(), id@, overflow_tokens(old(session)@.terminals, max)),
    {
        let ghost ts = session@.terminals;
        let ghost ov = overflow_tokens(ts, max);
        let mut overflow: Vec<String> = Vec::new();
        let n = session.terminal_list().len();
        if max >= 0 && n > max as usize {
            let k = n - max as usize;
            let list = session.terminal_list();
            let mut i: usize = 0;
            while i < k
                invariant
                    k <= list@.len(),
                    k == ts.len() - max,
                    terminal_models(list@) == ts,
                    i <= k,
                    views(overflow@) == tokens_of(ts).subrange(0, i as int),
                decreases k - i,
            {
                let ghost before = overflow@;
                let t = list[i].token_value.clone();
                overflow.push(t);
                proof {
                    assert(ts[i as int] == list@[i as int]@);
                    assert(views(overflow@) =~= views(before).push(ts[i as int].token_value));
                    assert(views(overflow@) =~= tokens_of(ts).subrange(0, i as int + 1));
                }
                i += 1;
            }
        }
        assert(views(overflow@) =~= ov);
        let mut j: usize = 0;
        assert(logout_events(old(self).lt(), id@, ov.subrange(0, 0)) =~= Seq::<EventModel>::empty());
        assert(old(self).events() + Seq::<EventModel>::empty() =~= old(self).events());
        while j < overflow.len()
            invariant
                self.events() == old(self).events() + logout_events(old(self).lt(), id@, ov.subrange(0, j as int)),
                self.wf(),
                self.same_but_store(&*old(self)),
                j <= overflow@.len(),
                views(overflow@) == ov,
                session@ == (SessionModel {
                    terminals: without_tokens(ts, ov.subrange(0, j as int)),
                    ..old(session)@
                }),
                self.store() == (DaoModel {
                    strings: strings_without(old(self).store().strings, old(self).name(), old(self).lt(), ov.subrange(0, j as int)),
                    ..old(self).store()
                }),
            decreases overflow@.len() - j,
        {
            let t = overflow[j].as_str();
            session.remove_terminal(t);
            let tkey = self.splicing_key_token_value(t);
            self.dao.delete(tkey.as_str());
            let akey = self.splicing_key_last_active_time(t);
            self.dao.delete(akey.as_str());
            self.record(SaTokenEvent::Logout {
                login_type: self.login_type.clone(), login_id: id.to_owned(), token: overflow[j].clone() });
            proof {
                let sub = ov.subrange(0, j as int + 1);
                assert(logout_events(old(self).lt(), id@, sub) =~= logout_events(old(self).lt(), id@, ov.subrange(0, j as int))
                    .push(EventModel::Logout { login_type: old(self).lt(), login_id: id@, token: overflow@[j as int]@ }));
                assert(sub.drop_last() =~= ov.subrange(0, j as int));
                assert(sub.last() == overflow@[j as int]@);
            }
            j += 1;
        }
        assert(ov.subrange(0, ov.len() as int) =~= ov);
        assert(logout_events(old(self).lt(), id@, ov.subrange(0, ov.len() as int)) == logout_events(old(self).lt(), id@, ov));
    }

    /// Logs an account in and answers its token: replaces the account's
    /// other logins unless concurrent logins are allowed, picks the token
    /// (the chosen one, a shared one or a new one), records the terminal in
    /// the account's session, drops the oldest terminals beyond the most
    /// logins allowed, stores the token for the login's lifetime, records
    /// now as its last activity and, when configured, creates its token
    /// session. An empty account id is refused.
    #[verifier::spinoff_prover]
    #[verifier::rlimit(40)]
    pub fn create_login_session(&mut self, id: &str, param: &SaLoginParameter) -> (r: SaResult<String>)
        requires
            old(self).wf(),
            param.timeout <= MAX_TIMEOUT,
        ensures
            final(self).wf(),
            final(self).same_but_store(&*old(self)),
            id@.len() == 0 ==> (r matches Err(e) && is_code(e, CODE_11002, "loginId 不能为空"@)
                && final(self).store() == old(self).store()),
            id@.len() > 0 && !old(self).cfg().right_now_create_token_session ==> r is Ok,
            id@.len() > 0 && r is Err ==> (r matches Err(e) && is_other(e, "Token-Session 获取失败：token 为空"@)),
            r matches Ok(tv) ==> {
                &&& final(self).owner_of(tv@) == Some(id@)
                &&& final(self).last_active_of(tv@) == old(self).now()
                &&& (param.token matches Some(t) ==> tv@ == t@)
                &&& (param.token is None && param.concurrent_under(&old(self).cfg()) && param.share_under(&old(self).cfg())
                    && old(self).reuse_token(old(self).terminals_of_account(id@), param.device_type@) is Some)
                    ==> tv@ == old(self).reuse_token(old(self).terminals_of_account(id@), param.device_type@)->0
                &&& (param.token is None && !(param.concurrent_under(&old(self).cfg()) && param.share_under(&old(self).cfg())
                    && old(self).reuse_token(old(self).terminals_of_account(id@), param.device_type@) is Some))
                    ==> token_of_style(old(self).cfg().token_style@, tv@)
                &&& (param.max_count_under(&old(self).cfg()) < 0 || param.max_count_under(&old(self).cfg()) >= 1)
                    ==> (final(self).session_of(id@) matches Some(s) && s.terminals.len() > 0
                        && s.terminals.last().token_value == tv@
                        && s.terminals.last().device_type == param.device_type@
                        && s.terminals.last().device_id == param.device_id@)
                &&& !param.concurrent_under(&old(self).cfg()) ==> forall|j: int|
                    0 <= j < old(self).tokens_of_account(id@).len() && #[trigger] old(self).tokens_of_account(id@)[j] != tv@
                    ==> final(self).owner_of(old(self).tokens_of_account(id@)[j]) is None
                &&& exists|pre: Seq<TerminalModel>| #[trigger] old(self).login_outcome(final(self), id@, tv@, param_shape(*param, old(self).cfg()), pre)
            },
            r is Ok ==> final(self).events().len() > 0,
            r matches Ok(tv) ==> final(self).events().last() == (EventModel::Login {
                login_type: old(self).lt(), login_id: id@, token: tv@, device_type: param.device_type@ })
                && old(self).events().is_prefix_of(final(self).events()),
            r is Err ==> old(self).events().is_prefix_of(final(self).events()),
    {
        if id.is_empty() {
            return Err(SaTokenException::with_code(CODE_11002, "loginId 不能为空"));
        }
        let ghost s0 = *self;
        if !param.get_is_concurrent(&self.config) {
            self.replaced_by_login_id(id)?;
        }
        let ghost s1 = *self;
        assert(param.concurrent_under(&s0.cfg()) ==> s1 == s0);
        let session_key = self.splicing_key_session(id);
        let existing = self.load_session(id);
        let existed = existing.is_some();
        let mut session = match existing {
            Some(s) => s,
            None => {
                let mut s = SaSession::new(session_key.as_str());
                s.set_login_type(self.login_type.as_str());
                s.set_login_id(id);
                s.set_session_type("login");
                s
            },
        };
        proof {
            if existed {
                assert(s1.store().sessions.contains_key(session_key@));
            }
        }
        assert(session@.id == session_key@);
        let token_value = self.dist_usable_token(param, &session);
        let len = session.terminal_list().len();
        let index: i32 = if len < 2147483647 { len as i32 + 1 } else { 2147483647 };
        let mut terminal = SaTerminalInfo::new(index, token_value.as_str(), param.device_type.as_str());
        terminal.set_device_id(param.device_id.as_str());
        if let Some(extra) = &param.terminal_extra_data {
            terminal.set_extra_data(clone_json(extra));
        }
        let ghost new_terminal = terminal@;
        let ghost before_add = session@.terminals;
        session.add_terminal(terminal);
        let ghost ts = session@.terminals;
        proof {
            lemma_without_token(before_add, token_value@);
            assert(ts.last() == new_terminal);
            assert forall|j: int| 0 <= j < ts.len() - 1 implies #[trigger] ts[j].token_value != ts.last().token_value by {
                assert(ts[j] == without_token(before_add, token_value@)[j]);
            }
        }
        let max = param.get_max_login_count(&self.config);
        self.evict_overflow(&mut session, id, max);
        let ghost s2 = *self;
        proof {
            if max < 0 || max >= 1 {
                if max >= 1 {
                    lemma_overflow_excludes_last(ts, max);
                }
                lemma_without_tokens_keeps_last(ts, overflow_tokens(ts, max));
            }
            lemma_strings_without_sub(s1.store().strings, s1.name(), s1.lt(), overflow_tokens(ts, max));
        }
        let timeout = param.get_timeout(&self.config);
        if existed {
            self.dao.update_session(&session);
        } else {
            self.dao.set_session(&session, timeout, self.clock);
        }
        let token_key = self.splicing_key_token_value(token_value.as_str());
        self.dao.set(token_key.as_str(), id, timeout, self.clock);
        let _ = self.set_last_active_to_now(token_value.as_str());
        let ghost s3 = *self;
        proof {
            let pre = before_add;
            let t = login_terminal(pre.len(), token_value@, param_shape(*param, s0.cfg()));
            let ov = overflow_tokens(ts, max);
            assert(new_terminal == t);
            assert(ts =~= with_terminal(pre, t));
            assert(s3.session_of(id@) == Some(session@));
            assert(s3.terminals_of_account(id@) == login_terminals(pre, t, max));
            if existed {
                assert(pre == s1.terminals_of_account(id@));
            } else {
                assert(pre =~= Seq::<TerminalModel>::empty());
                assert(s1.terminals_of_account(id@) =~= Seq::<TerminalModel>::empty());
            }
            lemma_token_key_not_active_key(s3.name(), s3.lt(), token_value@, token_value@);
            assert(s3.owner_of(token_value@) == Some(id@));
            if max < 0 || max >= 1 {
                if max >= 1 {
                    lemma_overflow_excludes_last(ts, max);
                }
                lemma_without_tokens_unique_last(ts, ov);
                assert(s3.terminal_of(token_value@) == Some(t));
            }
            lemma_strings_without_removes(s1.store().strings, s1.name(), s1.lt(), ov);
            assert forall|j: int| 0 <= j < ov.len() && #[trigger] ov[j] != token_value@
                implies s3.owner_of(ov[j]) is None by {
                let tj = ov[j];
                lemma_token_key_injective(s3.name(), s3.lt(), tj, token_value@);
                lemma_token_key_not_active_key(s3.name(), s3.lt(), tj, token_value@);
                assert(!s2.store().strings.contains_key(s3.tkey(tj)));
            }
            assert(s0.login_outcome(&s3, id@, token_value@, param_shape(*param, s0.cfg()), pre));
        }
        proof {
            assert(sessions_keyed(self.dao@.sessions));
            lemma_token_key_not_active_key(s3.name(), s3.lt(), token_value@, token_value@);
            lemma_parse_int_text(s3.now() as int);
            assert(s3.owner_of(token_value@) == Some(id@));
            assert(s3.last_active_of(token_value@) == s0.now());
            if max < 0 || max >= 1 {
                assert(s3.session_of(id@) == Some(session@));
            }
            if !param.concurrent_under(&s0.cfg()) {
                assert forall|j: int| 0 <= j < s0.tokens_of_account(id@).len()
                    && #[trigger] s0.tokens_of_account(id@)[j] != token_value@
                    implies s3.owner_of(s0.tokens_of_account(id@)[j]) is None by {
                    let t = s0.tokens_of_account(id@)[j];
                    assert(s1.owner_of(t) is None);
                    lemma_token_key_injective(s3.name(), s3.lt(), t, token_value@);
                    lemma_token_key_not_active_key(s3.name(), s3.lt(), t, token_value@);
                    let k = s3.tkey(t);
                    if s2.store().strings.contains_key(k) {
                        assert(s1.store().strings.contains_key(k));
                    }
                }
            }
        }
        if self.config.right_now_create_token_session {
            let _ = self.get_token_session_by_token_create(token_value.as_str(), true)?;
            proof {
                lemma_session_key_not_token_session_key(s3.name(), s3.lt(), id@, token_value@);
            }
        }
        proof {
            let pre = before_add;
            let t = login_terminal(pre.len(), token_value@, param_shape(*param, s0.cfg()));
            let ov = overflow_tokens(with_terminal(pre, t), max);
            assert(self.terminals_of_account(id@) == s3.terminals_of_account(id@));
            assert forall|j: int| 0 <= j < ov.len() && #[trigger] ov[j] != token_value@
                implies self.owner_of(ov[j]) is None by {
                assert(s3.owner_of(ov[j]) is None);
            }
            assert(s0.login_outcome(&*self, id@, token_value@, param_shape(*param, s0.cfg()), pre));
        }
        let ghost s4 = *self;
        self.record(SaTokenEvent::Login {
            login_type: self.login_type.clone(), login_id: id.to_owned(), token: token_value.clone(),
            device_type: param.device_type.clone() });
        proof {
            let pre = before_add;
            assert(self.store() == s4.store());
            assert(s0.login_outcome(&*self, id@, token_value@, param_shape(*param, s0.cfg()), pre));
        }
        Ok(token_value)
    }

    /// What a login of `id` with token `tv` leaves of the account's
    /// terminals in `after`, the login having added its terminal to `pre`
    /// (the account's terminals before, when concurrent logins are allowed):
    /// the terminals of [`login_terminals`], and every token of the oldest
    /// terminals beyond the most logins allowed, other than `tv`, logged out.
    pub open spec fn login_outcome(&self, after: &Self, id: Seq<char>, tv: Seq<char>, shape: LoginShape, pre: Seq<TerminalModel>) -> bool {
        let t = login_terminal(pre.len(), tv, shape);
        let max = shape.max;
        let ov = overflow_tokens(with_terminal(pre, t), max);
        &&& (shape.concurrent ==> pre == self.terminals_of_account(id))
        &&& (!shape.concurrent ==> pre == self.kept_terminals(id, self.tokens_of_account(id)))
        &&& after.owner_of(tv) == Some(id)
        &&& after.terminals_of_account(id) == login_terminals(pre, t, max)
        &&& (max < 0 || max >= 1) ==> after.terminal_of(tv) == Some(t)
        &&& forall|j: int| 0 <= j < ov.len() && #[trigger] ov[j] != tv ==> after.owner_of(ov[j]) is None
    }

    /// The token the current request's storage holds.
    pub open spec fn stored_token(&self) -> Seq<char> {
        self.ctx().storage.view_map()[self.name()]
    }

    /// What a successful login of `id` leaves, read against the state
    /// `before` it: the rules, clock, source and request unchanged and, on a
    /// valid context, a token of the account in the request storage, one of
    /// the account's listed tokens when `listed`.
    pub open spec fn logged_in_from(&self, before: &Self, id: Seq<char>, listed: bool) -> bool {
        &&& self.wf()
        &&& self.lt() == before.lt()
        &&& self.now() == before.now()
        &&& self.cfg() == before.cfg()
        &&& self.source() == before.source()
        &&& self.ctx().request == before.ctx().request
        &&& self.ctx().valid == before.ctx().valid
        &&& before.ctx().valid ==> self.ctx().storage.view_map().contains_key(self.name())
            && self.owner_of(self.stored_token()) == Some(id)
            && self.ctx().storage.view_map() == before.ctx().storage.view_map().insert(self.name(), self.stored_token())
        &&& before.ctx().valid && listed ==> self.tokens_of_account(id).contains(self.stored_token())
    }

    /// What a logout of the current account leaves, read against the state
    /// `before` it: only the store changed, not at all when nobody was logged
    /// in, and otherwise the account's session and every token it listed are
    /// gone.
    pub open spec fn logged_out_from(&self, before: &Self) -> bool {
        &&& self.wf()
        &&& self.same_but_store(before)
        &&& before.current_login_id() is None ==> self.store() == before.store()
        &&& before.current_login_id() matches Some(id) ==> {
            &&& self.session_of(id) is None
            &&& forall|j: int| 0 <= j < before.tokens_of_account(id).len()
                ==> self.owner_of(#[trigger] before.tokens_of_account(id)[j]) is None
        }
    }

    /// Logs an account in with these options (see
    /// [`Self::create_login_session`]) and writes its token to the current
    /// request (see [`Self::set_token_value`]).
    pub fn login_with_param(&mut self, id: &str, param: &SaLoginParameter) -> (r: SaResult<()>)
        requires
            old(self).wf(),
            param.timeout <= MAX_TIMEOUT,
        ensures
            final(self).wf(),
            final(self).lt() == old(self).lt(),
            final(self).now() == old(self).now(),
            final(self).cfg() == old(self).cfg(),
            final(self).source() == old(self).source(),
            final(self).ctx().request == old(self).ctx().request,
            final(self).ctx().valid == old(self).ctx().valid,
            id@.len() == 0 ==> (r matches Err(e) && is_code(e, CODE_11002, "loginId 不能为空"@)
                && final(self).same(&*old(self))),
            id@.len() > 0 && !old(self).cfg().right_now_create_token_session ==> r is Ok,
            r is Ok && old(self).ctx().valid ==> final(self).ctx().storage.view_map().contains_key(final(self).name())
                && final(self).owner_of(final(self).stored_token()) == Some(id@),
            r is Ok && old(self).ctx().valid && token_in_request(old(self).cfg(), old(self).ctx().request) is None
                && final(self).stored_token().len() > 0 && final(self).switched_to() is None
                ==> final(self).current_login_id() == Some(id@),
            r is Ok && old(self).ctx().valid && (param.max_count_under(&old(self).cfg()) < 0
                || param.max_count_under(&old(self).cfg()) >= 1)
                ==> final(self).tokens_of_account(id@).contains(final(self).stored_token()),
            r is Ok ==> final(self).logged_in_from(&*old(self), id@,
                param.max_count_under(&old(self).cfg()) < 0 || param.max_count_under(&old(self).cfg()) >= 1),
            r is Ok && old(self).ctx().valid ==> exists|pre: Seq<TerminalModel>|
                #[trigger] old(self).login_outcome(final(self), id@, final(self).stored_token(), param_shape(*param, old(self).cfg()), pre),
            r is Ok && old(self).ctx().valid && param.token is None
                && !(param.concurrent_under(&old(self).cfg()) && param.share_under(&old(self).cfg())
                    && old(self).reuse_token(old(self).terminals_of_account(id@), param.device_type@) is Some)
                ==> token_of_style(old(self).cfg().token_style@, final(self).stored_token())
                    && final(self).stored_token().len() > 0,
            r is Ok ==> old(self).events().is_prefix_of(final(self).events())
                && ends_with_login(final(self).events(), old(self).lt(), id@, param.device_type@),
    {
        let ghost s0 = *self;
        let tv = self.create_login_session(id, param)?;
        let ghost s1 = *self;
        proof {
            if param.max_count_under(&self.cfg()) < 0 || param.max_count_under(&self.cfg()) >= 1 {
                let s = self.session_of(id@)->0;
                let toks = tokens_of(s.terminals);
                assert(toks[toks.len() - 1] == tv@);
                assert(self.tokens_of_account(id@).contains(tv@));
            }
        }
        assert(ends_with_login(s1.events(), s0.lt(), id@, param.device_type@));
        self.set_token_value(tv.as_str())?;
        assert(self.events() == s1.events());
        proof {
            if s0.ctx().valid {
                assert(self.stored_token() == tv@);
                let pre = choose|pre: Seq<TerminalModel>| #[trigger] s0.login_outcome(&s1, id@, tv@, param_shape(*param, s0.cfg()), pre);
                assert(s0.login_outcome(&*self, id@, tv@, param_shape(*param, s0.cfg()), pre));
                if token_of_style(s0.cfg().token_style@, tv@) {
                    lemma_styled_token_not_empty(s0.cfg().token_style@, tv@);
                }
            }
        }
        Ok(())
    }

    /// Logs an account in with the default options.
    pub fn login(&mut self, id: &str) -> (r: SaResult<()>)
        requires
            old(self).wf(),
        ensures
            final(self).wf(),
            final(self).lt() == old(self).lt(),
            final(self).now() == old(self).now(),
            final(self).cfg() == old(self).cfg(),
            final(self).source() == old(self).source(),
            final(self).ctx().request == old(self).ctx().request,
            final(self).ctx().valid == old(self).ctx().valid,
            id@.len() == 0 ==> (r matches Err(e) && is_code(e, CODE_11002, "loginId 不能为空"@)
                && final(self).same(&*old(self))),
            id@.len() > 0 && !old(self).cfg().right_now_create_token_session ==> r is Ok,
            r is Ok && old(self).ctx().valid ==> final(self).ctx().storage.view_map().contains_key(final(self).name())
                && final(self).owner_of(final(self).stored_token()) == Some(id@),
            r is Ok && old(self).ctx().valid && token_in_request(old(self).cfg(), old(self).ctx().request) is None
                && final(self).stored_token().len() > 0 && final(self).switched_to() is None
                ==> final(self).current_login_id() == Some(id@),
            r is Ok && old(self).ctx().valid && (old(self).cfg().max_login_count < 0 || old(self).cfg().max_login_count >= 1)
                ==> final(self).tokens_of_account(id@).contains(final(self).stored_token()),
            r is Ok ==> final(self).logged_in_from(&*old(self), id@,
                old(self).cfg().max_login_count < 0 || old(self).cfg().max_login_count >= 1),
            r is Ok && old(self).ctx().valid ==> exists|pre: Seq<TerminalModel>|
                #[trigger] old(self).login_outcome(final(self), id@, final(self).stored_token(), LoginShape { device_type: Seq::<char>::empty(), device_id: Seq::<char>::empty(), extra: None, concurrent: old(self).cfg().is_concurrent, max: old(self).cfg().max_login_count }, pre),
            r is Ok && old(self).ctx().valid
                && !(old(self).cfg().is_concurrent && old(self).cfg().is_share
                    && old(self).reuse_token(old(self).terminals_of_account(id@), Seq::<char>::empty()) is Some)
                ==> token_of_style(old(self).cfg().token_style@, final(self).stored_token())
                    && final(self).stored_token().len() > 0,
            r is Ok ==> old(self).events().is_prefix_of(final(self).events())
                && ends_with_login(final(self).events(), old(self).lt(), id@, Seq::<char>::empty()),
    {
        let param = SaLoginParameter::default();
        self.login_with_param(id, &param)
    }

    /// Logs an account in from a device type.
    pub fn login_with_device(&mut self, id: &str, device_type: &str) -> (r: SaResult<()>)
        requires
            old(self).wf(),
        ensures
            final(self).wf(),
            final(self).lt() == old(self).lt(),
            final(self).now() == old(self).now(),
            final(self).cfg() == old(self).cfg(),
            final(self).source() == old(self).source(),
            final(self).ctx().request == old(self).ctx().request,
            final(self).ctx().valid == old(self).ctx().valid,
            id@.len() == 0 ==> (r matches Err(e) && is_code(e, CODE_11002, "loginId 不能为空"@)
                && final(self).same(&*old(self))),
            id@.len() > 0 && !old(self).cfg().right_now_create_token_session ==> r is Ok,
            r is Ok && old(self).ctx().valid ==> final(self).ctx().storage.view_map().contains_key(final(self).name())
                && final(self).owner_of(final(self).stored_token()) == Some(id@),
            r is Ok && old(self).ctx().valid && token_in_request(old(self).cfg(), old(self).ctx().request) is None
                && final(self).stored_token().len() > 0 && final(self).switched_to() is None
                ==> final(self).current_login_id() == Some(id@),
            r is Ok && old(self).ctx().valid && (old(self).cfg().max_login_count < 0 || old(self).cfg().max_login_count >= 1)
                ==> final(self).tokens_of_account(id@).contains(final(self).stored_token()),
            r is Ok ==> final(self).logged_in_from(&*old(self), id@,
                old(self).cfg().max_login_count < 0 || old(self).cfg().max_login_count >= 1),
            r is Ok && old(self).ctx().valid ==> exists|pre: Seq<TerminalModel>|
                #[trigger] old(self).login_outcome(final(self), id@, final(self).stored_token(), LoginShape { device_type: device_type@, device_id: Seq::<char>::empty(), extra: None, concurrent: old(self).cfg().is_concurrent, max: old(self).cfg().max_login_count }, pre),
            r is Ok && old(self).ctx().valid
                && !(old(self).cfg().is_concurrent && old(self).cfg().is_share
                    && old(self).reuse_token(old(self).terminals_of_account(id@), device_type@) is Some)
                ==> token_of_style(old(self).cfg().token_style@, final(self).stored_token())
                    && final(self).stored_token().len() > 0,
            r is Ok ==> old(self).events().is_prefix_of(final(self).events())
                && ends_with_login(final(self).events(), old(self).lt(), id@, device_type@),
    {
        let param = SaLoginParameter::create().set_device_type(device_type);
        self.login_with_param(id, &param)
    }

    /// Details of the current token: its name and value, the account, the
    /// seconds left and the device type (empty when the terminal is not
    /// listed); missing-login errors without a token or when it is not
    /// logged in.
    pub fn get_token_info(&self) -> (r: SaResult<SaTokenInfo>)
        requires
            self.wf(),
        ensures
            match self.current_token() {
                None => r matches Err(e) && is_not_login(e, "未提供 Token"@, self.lt()),
                Some(tv) => match self.owner_of(tv) {
                    None => r matches Err(e) && is_not_login(e, "Token 无效"@, self.lt()),
                    Some(id) => r matches Ok(info) && {
                        &&& info.token_name@ == self.name()
                        &&& info.token_value@ == tv
                        &&& info.is_created
                        &&& info.login_id@ == id
                        &&& info.token_timeout == remaining(self.store().strings, self.tkey(tv), self.now())
                        &&& info.session_timeout == -1
                        &&& info.token_session_timeout == -1
                        &&& info.token_active_timeout == -1
                        &&& info.login_device_type@ == match self.terminal_of(tv) {
                            Some(t) => t.device_type,
                            None => Seq::<char>::empty(),
                        }
                    },
                },
            },
    {
        let tv = match self.get_token_value() {
            Some(tv) => tv,
            None => return Err(SaTokenException::not_login("未提供 Token", self.login_type.as_str())),
        };
        let id = match self.get_login_id_by_token(tv.as_str())? {
            Some(id) => id,
            None => return Err(SaTokenException::not_login("Token 无效", self.login_type.as_str())),
        };
        let name = self.token_name();
        let mut info = SaTokenInfo::new(name.as_str(), tv.as_str());
        info.login_id = id;
        info.token_timeout = self.get_token_timeout_by_token(tv.as_str())?;
        info.login_device_type = match self.get_login_device_type_by_token(tv.as_str())? {
            Some(d) => d,
            None => String::new(),
        };
        Ok(info)
    }
}


/// The token is read from the cookie: on a current request whose settings
/// read cookies, that carries no non-empty header under the token name (or
/// whose settings do not read headers) and that carries a non-empty cookie
/// under the token name, the current token is that cookie's value with the
/// configured prefix cut off when it begins with it (the value itself
/// otherwise), whatever the request storage holds; so the request acts as
/// the token's owner unless it switched to another account.
pub proof fn law_cookie_token_is_read<I: StpInterface>(s: StpLogic<I>)
    requires
        s.ctx().valid,
        s.cfg().is_read_cookie,
        !s.cfg().is_read_header || !s.ctx().request.headers_view().contains_key(s.cfg().token_name@)
            || s.ctx().request.headers_view()[s.cfg().token_name@].len() == 0,
        s.ctx().request.cookies_view().contains_key(s.cfg().token_name@),
        s.ctx().request.cookies_view()[s.cfg().token_name@].len() > 0,
    ensures
        ({
            let c = s.ctx().request.cookies_view()[s.cfg().token_name@];
            let p = s.cfg().token_prefix@;
            s.current_token() == Some(if p.len() > 0 && p.len() <= c.len() && c.subrange(0, p.len() as int) == p {
                c.subrange(p.len() as int, c.len() as int)
            } else {
                c
            })
        }),
        s.switched_to() is None ==> s.current_login_id() == s.owner_of(s.current_token()->0),
{
    let c = s.ctx().request.cookies_view()[s.cfg().token_name@];
    let p = s.cfg().token_prefix@;
    assert(has_prefix(c, p) == (p.len() <= c.len() && c.subrange(0, p.len() as int) == p));
}

/// Logging in logs the request in: after a successful login of `id` on a
/// valid context whose request carries no token of its own and does not act
/// as another account (see `switch_to`), the request is logged in to `id`
/// (so `is_login` answers true and `get_login_id` answers `id`), provided
/// the token written is not empty (as `login` ensures for a new token) and
/// the token name is not the switch key.
pub proof fn law_login_logs_in<I: StpInterface>(before: StpLogic<I>, after: StpLogic<I>, id: Seq<char>, listed: bool)
    requires
        before.wf(),
        after.logged_in_from(&before, id, listed),
        before.ctx().valid,
        token_in_request(before.cfg(), before.ctx().request) is None,
        after.stored_token().len() > 0,
        before.switched_to() is None,
        before.name() != switch_key(before.lt()),
    ensures
        after.switched_to() is None,
        after.current_token() == Some(after.stored_token()),
        after.current_login_id() == Some(id),
{
    assert(non_empty_at(after.ctx().storage.view_map(), after.cfg().token_name@) == Some(after.stored_token()));
}

/// Logging out undoes logging in: after a successful login of `id` that
/// lists its token among the account's tokens, on a valid context whose
/// request carries no token of its own and does not act as another account,
/// a logout leaves the request logged out (`is_login` answers false),
/// provided the token written is not empty.
pub proof fn law_logout_ends_login<I: StpInterface>(s0: StpLogic<I>, s1: StpLogic<I>, s2: StpLogic<I>, id: Seq<char>)
    requires
        s0.wf(),
        s1.logged_in_from(&s0, id, true),
        s2.logged_out_from(&s1),
        s0.ctx().valid,
        token_in_request(s0.cfg(), s0.ctx().request) is None,
        s1.stored_token().len() > 0,
        s0.switched_to() is None,
        s0.name() != switch_key(s0.lt()),
    ensures
        s1.current_login_id() == Some(id),
        s2.current_login_id() is None,
{
    law_login_logs_in(s0, s1, id, true);
    let tv = s1.stored_token();
    let toks = s1.tokens_of_account(id);
    assert(toks.contains(tv));
    let j = choose|j: int| 0 <= j < toks.len() && toks[j] == tv;
    assert(s2.owner_of(toks[j]) is None);
    assert(s2.current_token() == s1.current_token());
}

/// Logging in from a device reads back: after a successful login of `id`
/// from the device type of `shape`, on a valid context whose request carries
/// no token of its own and does not act as another account, the request is
/// logged in to `id` and its token's terminal carries that device type
/// (so `get_login_device_type` answers it), provided the token written is
/// not empty and the login limit is not zero.
pub proof fn law_device_login_reads_back<I: StpInterface>(before: StpLogic<I>, after: StpLogic<I>, id: Seq<char>,
    listed: bool, shape: LoginShape, pre: Seq<TerminalModel>)
    requires
        before.wf(),
        after.logged_in_from(&before, id, listed),
        before.login_outcome(&after, id, after.stored_token(), shape, pre),
        shape.max < 0 || shape.max >= 1,
        before.ctx().valid,
        token_in_request(before.cfg(), before.ctx().request) is None,
        after.stored_token().len() > 0,
        before.switched_to() is None,
        before.name() != switch_key(before.lt()),
    ensures
        after.current_login_id() == Some(id),
        after.current_token() == Some(after.stored_token()),
        after.terminal_of(after.stored_token()) matches Some(t) && t.device_type == shape.device_type
            && t.token_value == after.stored_token(),
{
    law_login_logs_in(before, after, id, listed);
}

/// The markers of two different services of one token sit under
/// different keys.
pub proof fn lemma_safe_key_service_injective(name: Seq<char>, lt: Seq<char>, tv: Seq<char>, a: Seq<char>, b: Seq<char>)
    requires
        a != b,
    ensures
        safe_key(name, lt, tv, a) != safe_key(name, lt, tv, b),
{
    let p = name + ":"@ + lt + ":safe:"@;
    let ka = safe_key(name, lt, tv, a);
    let kb = safe_key(name, lt, tv, b);
    assert(ka =~= p + (a + ":"@ + tv));
    assert(kb =~= p + (b + ":"@ + tv));
    if a.len() == b.len() {
        let i = choose|i: int| 0 <= i < a.len() && a[i] != b[i];
        if !(a =~= b) {
            assert(exists|i: int| 0 <= i < a.len() && a[i] != b[i]);
        }
        assert(ka[p.len() + i] == a[i]);
        assert(kb[p.len() + i] == b[i]);
    } else {
        assert(ka.len() != kb.len());
    }
}

/// Second-level authentication opens and closes per service: once it is
/// granted for `service`, the request is safe for it; once it is then
/// withdrawn, it no longer is; and neither step changes whether the request
/// is safe for any other service.
pub proof fn law_safe_open_close<I: StpInterface>(s0: StpLogic<I>, s1: StpLogic<I>, s2: StpLogic<I>, service: Seq<char>, other: Seq<char>, safe_time: i64)
    requires
        s0.wf(),
        fits(s0.now(), safe_time),
        s1.safe_opened_from(&s0, service, safe_time),
        s2.safe_closed_from(&s1, service),
        other != service,
    ensures
        s1.safe_now(service),
        !s2.safe_now(service),
        s1.safe_now(other) == s0.safe_now(other),
        s2.safe_now(other) == s0.safe_now(other),
{
    s0.lemma_wf();
    let tv = s0.current_token()->0;
    lemma_safe_key_service_injective(s0.name(), s0.lt(), tv, service, other);
    lemma_safe_key_service_injective(s0.name(), s0.lt(), tv, other, service);
}

/// A ban is read back: while an account's ban from a service is stored (as
/// `disable_level_with_service` leaves it), every ban query answers the
/// stored level, whatever the source of bans reports, and writes nothing;
/// so `is_disable_with_service` answers true for a stored level of at
/// least 1.
pub proof fn law_stored_ban_answers<I: StpInterface>(s: StpLogic<I>, id: Seq<char>, service: Seq<char>, w: SaDisableWrapperInfo)
    requires
        s.stored_level(id, service) is Some,
    ensures
        s.level_result(id, service, w) == s.stored_level(id, service),
        s.store_after_level_query(id, service, w) == s.store(),
{
}

} // verus!
