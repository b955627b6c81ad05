use sa_token_core::config::SaTokenConfig;
use sa_token_core::context::{SaRequestForMock, SaTokenContext};
use sa_token_core::dao::SaTokenDaoMemory;
use sa_token_core::exception::SaTokenException;
use sa_token_core::stp::async_logic::{AsyncSaTokenRuntime, AsyncStpLogic};
use sa_token_core::stp::async_util::AsyncStpUtil;
use sa_token_core::stp::interface::{StpInterfaceTable, SaDisableWrapperInfo, StpInterfaceDefaultImpl};
use sa_token_core::stp::logic::SaTokenEvent;
use sa_token_core::stp::parameter::SaLoginParameter;
use sa_token_core::util::consts::SESSION_TYPE_ANON;

fn level_disable_provider() -> StpInterfaceTable {
    StpInterfaceTable {
        permissions: vec![("10001".to_string(), vec!["user:add".to_string()])],
        roles: vec![("10001".to_string(), vec!["admin".to_string()])],
        bans: vec![("loader".to_string(), "comment".to_string(), SaDisableWrapperInfo::create_disabled(30, 3))],
    }
}

fn runtime_with(config: SaTokenConfig, request: SaRequestForMock) -> AsyncSaTokenRuntime<StpInterfaceDefaultImpl> {
    AsyncSaTokenRuntime::new(config, SaTokenDaoMemory::new(), SaTokenContext::new(request))
}

fn async_runtime() -> AsyncSaTokenRuntime<StpInterfaceTable> {
    runtime_with(SaTokenConfig::default(), SaRequestForMock::new()).with_stp_interface(level_disable_provider())
}

fn logic_with(config: SaTokenConfig) -> AsyncStpLogic<StpInterfaceDefaultImpl> {
    AsyncStpLogic::new("login", runtime_with(config, SaRequestForMock::new()))
}

#[test]
fn wave1_async_disable_level_and_anon_session() {
    let mut util = AsyncStpUtil::new("login", async_runtime());
    util.disable_level("bob", 2, 60).expect("async disable level");
    assert_eq!(util.get_disable_level("bob").expect("level"), 2);
    assert!(util.check_disable_level("bob", 2).is_err());

    let anon = util.get_anon_token_session().expect("async anon");
    assert_eq!(anon.session_type(), SESSION_TYPE_ANON);
}

#[test]
fn async_login_writes_token_and_logs_in() {
    let mut logic = logic_with(SaTokenConfig::default());
    assert!(!logic.is_login().unwrap());
    let token = logic.login("10001").unwrap();
    assert_eq!(token.len(), 32);
    assert_eq!(logic.get_token_value(), Some(token.clone()));
    assert!(logic.is_login().unwrap());
    assert_eq!(logic.get_login_id().unwrap(), "10001");
    assert_eq!(logic.get_login_id_by_token(&token).unwrap(), Some("10001".to_string()));
    assert_eq!(logic.get_token_value_list_by_login_id("10001").unwrap(), vec![token.clone()]);
    assert_eq!(logic.get_token_timeout().unwrap(), 2592000);
    let info = logic.get_token_info().unwrap();
    assert_eq!(info.login_id, "10001");
    assert_eq!(info.token_value, token);
    assert_eq!(info.token_name, "satoken");
}

#[test]
fn async_without_token_answers_not_login() {
    let logic = logic_with(SaTokenConfig::default());
    assert_eq!(logic.get_token_value(), None);
    assert_eq!(logic.get_token_timeout().unwrap(), -2);
    assert_eq!(
        logic.get_login_id().err().unwrap(),
        SaTokenException::NotLogin { message: "未登录".to_string(), login_type: "login".to_string() }
    );
    assert_eq!(logic.check_login().err().unwrap().code(), 11011);
    assert_eq!(
        logic.get_token_info().err().unwrap(),
        SaTokenException::NotLogin { message: "未提供 Token".to_string(), login_type: "login".to_string() }
    );
}

#[test]
fn async_header_token_is_read_with_prefix_cut() {
    let mut config = SaTokenConfig::default();
    config.token_prefix = "Bearer ".to_string();
    let request = SaRequestForMock::new().with_header("satoken", "Bearer abc");
    let logic = AsyncStpLogic::new("login", runtime_with(config, request));
    assert_eq!(logic.get_token_value(), Some("abc".to_string()));
}

#[test]
fn async_empty_header_counts_as_absent() {
    let request = SaRequestForMock::new().with_header("satoken", "").with_cookie("satoken", "from-cookie");
    let logic = AsyncStpLogic::new("login", runtime_with(SaTokenConfig::default(), request));
    assert_eq!(logic.get_token_value(), Some("from-cookie".to_string()));
}

#[test]
fn async_logout_removes_token_and_token_session() {
    let mut config = SaTokenConfig::default();
    config.right_now_create_token_session = true;
    let mut logic = logic_with(config);
    let token = logic.login("10001").unwrap();
    let session = logic.get_token_session().unwrap();
    assert_eq!(session.session_type(), "token");
    assert_eq!(session.token(), token);
    logic.logout().unwrap();
    assert!(!logic.is_login().unwrap());
    assert_eq!(logic.get_login_id_by_token(&token).unwrap(), None);
    assert!(logic.get_token_session_by_token(&token, false).unwrap().is_none());
    assert!(logic.get_token_value_list_by_login_id("10001").unwrap().is_empty());
}

#[test]
fn async_logout_by_login_id_drops_every_token_and_the_session() {
    let mut logic = logic_with(SaTokenConfig::default());
    let p1 = SaLoginParameter::create().set_device_type("pc");
    let p2 = SaLoginParameter::create().set_device_type("app");
    let t1 = logic.login_with_param("7", &p1).unwrap();
    let t2 = logic.login_with_param("7", &p2).unwrap();
    assert_ne!(t1, t2);
    assert_eq!(logic.get_token_value_list_by_login_id("7").unwrap(), vec![t1.clone(), t2.clone()]);
    logic.logout_by_login_id("7").unwrap();
    assert_eq!(logic.get_login_id_by_token(&t1).unwrap(), None);
    assert_eq!(logic.get_login_id_by_token(&t2).unwrap(), None);
    assert_eq!(
        logic.get_session_by_login_id("7").err().unwrap(),
        SaTokenException::Other { message: "Session 不存在".to_string() }
    );
}

#[test]
fn async_kickout_and_replaced_keep_the_session() {
    let mut logic = logic_with(SaTokenConfig::default());
    let t1 = logic.login("8").unwrap();
    logic.kickout_by_login_id("8").unwrap();
    assert_eq!(logic.get_login_id_by_token(&t1).unwrap(), None);
    assert!(logic.get_session_by_login_id("8").is_ok());
    let t2 = logic.login("8").unwrap();
    logic.replaced_by_token_value(&t2).unwrap();
    assert_eq!(logic.get_login_id_by_token(&t2).unwrap(), None);
    logic.kickout_by_token_value("missing").unwrap();
}

#[test]
fn async_non_concurrent_login_replaces_old_tokens() {
    let mut config = SaTokenConfig::default();
    config.is_concurrent = false;
    let mut logic = logic_with(config);
    let t1 = logic.login("9").unwrap();
    let t2 = logic.login("9").unwrap();
    assert_ne!(t1, t2);
    assert_eq!(logic.get_login_id_by_token(&t1).unwrap(), None);
    assert_eq!(logic.get_login_id_by_token(&t2).unwrap(), Some("9".to_string()));
    assert_eq!(logic.get_token_value_list_by_login_id("9").unwrap(), vec![t2]);
}

#[test]
fn async_shared_login_reuses_the_token_of_the_device() {
    let mut logic = logic_with(SaTokenConfig::default());
    let p = SaLoginParameter::create().set_device_type("desktop");
    let t1 = logic.login_with_param("alice", &p).unwrap();
    let t2 = logic.login_with_param("alice", &p).unwrap();
    assert_eq!(t1, t2);
    assert_eq!(logic.get_terminal_list_by_login_id("alice").unwrap().len(), 1);
    assert_eq!(logic.get_login_device_type().unwrap(), "desktop");
}

#[test]
fn async_chosen_token_and_device_id() {
    let mut logic = logic_with(SaTokenConfig::default());
    let p = SaLoginParameter::create().set_token("tok-1").set_device_type("pad").set_device_id("d-1");
    let t = logic.login_with_param("u", &p).unwrap();
    assert_eq!(t, "tok-1");
    assert_eq!(logic.get_login_device_id().unwrap(), "d-1");
    assert_eq!(logic.get_login_device_type_by_token("tok-1").unwrap(), Some("pad".to_string()));
    assert_eq!(logic.get_terminal_info_by_token("tok-1").unwrap().device_id(), "d-1");
    assert_eq!(
        logic.get_terminal_info_by_token("nope").err().unwrap(),
        SaTokenException::Other { message: "终端不存在".to_string() }
    );
}

#[test]
fn async_max_login_count_evicts_the_oldest() {
    let mut logic = logic_with(SaTokenConfig::default());
    let p = SaLoginParameter::create().set_is_share(false).set_max_login_count(2);
    let t1 = logic.login_with_param("m", &p).unwrap();
    let t2 = logic.login_with_param("m", &p).unwrap();
    let t3 = logic.login_with_param("m", &p).unwrap();
    assert_eq!(logic.get_login_id_by_token(&t1).unwrap(), None);
    assert_eq!(logic.get_token_value_list_by_login_id("m").unwrap(), vec![t2, t3]);
}

#[test]
fn async_active_timeout_counts_down_and_freezes() {
    let mut config = SaTokenConfig::default();
    config.active_timeout = 60;
    let mut logic = logic_with(config);
    logic.set_clock(1_000_000);
    let token = logic.login("10001").unwrap();
    assert_eq!(logic.get_token_active_timeout().unwrap(), 60);
    logic.set_clock(1_030_500);
    assert_eq!(logic.get_token_active_timeout_by_token(&token).unwrap(), 30);
    logic.check_active_timeout().unwrap();
    logic.update_last_active_to_now().unwrap();
    assert_eq!(logic.get_token_active_timeout().unwrap(), 60);
    logic.set_clock(1_092_000);
    assert_eq!(logic.get_token_active_timeout().unwrap(), -2);
    assert_eq!(
        logic.check_active_timeout().err().unwrap(),
        SaTokenException::NotLogin { message: "Token 已被冻结".to_string(), login_type: "login".to_string() }
    );
}

#[test]
fn async_active_timeout_of_the_login_wins() {
    let mut logic = logic_with(SaTokenConfig::default());
    assert_eq!(logic.get_token_active_timeout().unwrap(), -2);
    logic.set_clock(5_000);
    let p = SaLoginParameter::create().set_active_timeout(100);
    let token = logic.login_with_param("a", &p).unwrap();
    assert_eq!(logic.get_token_active_timeout_by_token(&token).unwrap(), -1);
    let mut config = SaTokenConfig::default();
    config.active_timeout = 10;
    let mut logic = logic_with(config);
    logic.set_clock(5_000);
    let token = logic.login_with_param("a", &p).unwrap();
    logic.set_clock(25_000);
    assert_eq!(logic.get_token_active_timeout_by_token(&token).unwrap(), 80);
}

#[test]
fn async_malformed_activity_is_an_error() {
    let mut dao = SaTokenDaoMemory::new();
    dao.set("satoken:login:last-active:tok", "later", -1, 0);
    let mut config = SaTokenConfig::default();
    config.active_timeout = 30;
    let request = SaRequestForMock::new().with_header("satoken", "tok");
    let runtime = AsyncSaTokenRuntime::new(config, dao, SaTokenContext::new(request));
    let logic = AsyncStpLogic::new("login", runtime);
    assert_eq!(
        logic.get_token_active_timeout_by_token("tok").err().unwrap(),
        SaTokenException::Other { message: "最后活跃时间格式无效".to_string() }
    );
    assert!(logic.check_active_timeout().is_err());
}

#[test]
fn async_renew_timeout_sets_the_lifetime() {
    let mut logic = logic_with(SaTokenConfig::default());
    logic.login("r").unwrap();
    logic.renew_timeout(100).unwrap();
    assert_eq!(logic.get_token_timeout().unwrap(), 100);
    let mut other = logic_with(SaTokenConfig::default());
    assert_eq!(
        other.renew_timeout(100).err().unwrap(),
        SaTokenException::NotLogin { message: "未提供 Token".to_string(), login_type: "login".to_string() }
    );
}

#[test]
fn async_token_session_errors() {
    let mut logic = logic_with(SaTokenConfig::default());
    assert_eq!(
        logic.get_token_session().err().unwrap(),
        SaTokenException::Other { message: "Token-Session 获取失败：token 为空".to_string() }
    );
    assert_eq!(
        logic.get_token_session_by_token("ghost", true).err().unwrap(),
        SaTokenException::Other { message: "Token-Session 获取失败，token 无效: ghost".to_string() }
    );
    assert!(logic.get_token_session_by_token("ghost", false).unwrap().is_none());
    assert!(logic.get_token_session_by_token("", true).is_err());
}

#[test]
fn async_anon_session_of_a_logged_in_token_is_its_token_session() {
    let mut logic = logic_with(SaTokenConfig::default());
    let token = logic.login("10001").unwrap();
    assert!(logic.get_anon_token_session_create(false).unwrap().is_none());
    let s = logic.get_anon_token_session().unwrap();
    assert_eq!(s.session_type(), "token");
    assert_eq!(s.token(), token);
    let again = logic.get_anon_token_session().unwrap();
    assert_eq!(again.id(), s.id());
}

#[test]
fn async_anon_session_without_token_makes_one() {
    let mut logic = logic_with(SaTokenConfig::default());
    assert!(logic.get_anon_token_session_create(false).unwrap().is_none());
    let s = logic.get_anon_token_session().unwrap();
    assert_eq!(s.session_type(), SESSION_TYPE_ANON);
    assert_eq!(logic.get_token_value(), Some(s.token().to_string()));
    assert!(!logic.is_login().unwrap());
}

#[test]
fn async_roles_and_permissions() {
    let mut logic = AsyncStpLogic::new("login", async_runtime());
    assert!(logic.has_role("admin").is_err());
    logic.login("10001").unwrap();
    assert!(logic.has_role("admin").unwrap());
    assert!(logic.has_permission("user:add").unwrap());
    logic.check_role("admin").unwrap();
    assert_eq!(
        logic.check_permission("user:delete").err().unwrap(),
        SaTokenException::NotPermission { permission: "user:delete".to_string(), login_type: "login".to_string() }
    );
    assert_eq!(logic.check_role("root").err().unwrap().code(), 11041);
    assert_eq!(logic.get_role_list().unwrap(), vec!["admin".to_string()]);
    assert_eq!(logic.get_permission_list().unwrap(), vec!["user:add".to_string()]);
}

#[test]
fn async_bans_and_their_validation() {
    let mut logic = AsyncStpLogic::new("login", async_runtime());
    assert_eq!(logic.disable_level_with_service("", "login", 1, 10).err().unwrap().code(), 11062);
    assert_eq!(logic.disable_level_with_service("u1", "", 1, 10).err().unwrap().code(), 11063);
    assert_eq!(logic.disable_level("u1", -1, 10).err().unwrap().code(), 11064);
    logic.disable("u1", 10).unwrap();
    assert!(logic.is_disable("u1").unwrap());
    assert_eq!(logic.check_disable("u1").err().unwrap().code(), 11061);
    logic.untie_disable("u1").unwrap();
    assert!(!logic.is_disable("u1").unwrap());
    assert_eq!(logic.get_disable_level("u1").unwrap(), -2);
    assert_eq!(logic.untie_disable_with_service("u1", "").err().unwrap().code(), 11063);
    assert_eq!(logic.get_disable_level_with_service("loader", "comment").unwrap(), 3);
    assert!(logic.is_disable_level_with_service("loader", "comment", 3).unwrap());
    assert!(!logic.is_disable_level_with_service("loader", "comment", 4).unwrap());
    assert_eq!(
        logic.check_disable_level_with_service("loader", "comment", 2).err().unwrap(),
        SaTokenException::Framework { code: 11061, message: "此账号已被禁止访问服务：comment".to_string() }
    );
    logic.disable_with_service("u2", "pay", 0).unwrap();
    assert!(logic.check_disable_level_with_service("u2", "pay", 1).is_err());
    assert!(!logic.is_disable_level("u2", 1).unwrap());
}

#[test]
fn async_second_level_authentication() {
    let mut logic = logic_with(SaTokenConfig::default());
    assert!(!logic.is_safe().unwrap());
    assert!(logic.open_safe(60).is_err());
    logic.login("s").unwrap();
    assert_eq!(
        logic.check_safe().err().unwrap(),
        SaTokenException::NotSafe { service: "".to_string(), login_type: "login".to_string() }
    );
    logic.open_safe(60).unwrap();
    assert!(logic.is_safe().unwrap());
    logic.check_safe().unwrap();
    logic.open_safe_with_service("pay", 60).unwrap();
    assert!(logic.is_safe_with_service("pay").unwrap());
    logic.close_safe().unwrap();
    assert!(!logic.is_safe().unwrap());
    assert!(logic.is_safe_with_service("pay").unwrap());
    logic.close_safe_with_service("pay").unwrap();
    assert!(!logic.is_safe_with_service("pay").unwrap());
}

#[test]
fn async_switch_needs_a_login() {
    let mut logic = logic_with(SaTokenConfig::default());
    assert_eq!(
        logic.switch_to("2").err().unwrap(),
        SaTokenException::NotLogin { message: "未登录".to_string(), login_type: "login".to_string() }
    );
    logic.login("1").unwrap();
    logic.switch_to("2").unwrap();
    assert!(logic.is_switch());
    assert_eq!(logic.get_switch_login_id(), Some("2".to_string()));
    assert_eq!(logic.get_login_id().unwrap(), "2");
    logic.end_switch();
    assert!(!logic.is_switch());
    assert_eq!(logic.get_switch_login_id(), None);
    assert_eq!(logic.get_login_id().unwrap(), "1");
}

#[test]
fn async_facade_delegates() {
    let mut util = AsyncStpUtil::new("login", async_runtime());
    assert_eq!(util.logic().login_type(), "login");
    let token = util.login("10001").unwrap();
    assert!(util.is_login().unwrap());
    assert_eq!(util.get_login_id().unwrap(), "10001");
    assert_eq!(util.get_login_id_by_token(&token).unwrap(), Some("10001".to_string()));
    assert!(util.has_role("admin").unwrap());
    util.check_permission("user:add").unwrap();
    assert_eq!(util.get_token_value_list_by_login_id("10001").unwrap(), vec![token.clone()]);
    assert_eq!(util.get_token_session().unwrap().token(), token);
    util.switch_to("x").unwrap();
    assert_eq!(util.get_switch_login_id(), Some("x".to_string()));
    util.end_switch();
    util.logout().unwrap();
    assert!(!util.is_login().unwrap());
    assert!(util.check_login().is_err());
}

#[test]
fn async_login_evicts_oldest_beyond_the_limit() {
    let mut logic = AsyncStpLogic::new("login", async_runtime());
    assert_eq!(logic.login_with_param("10001", &SaLoginParameter::create().set_is_concurrent(true).set_max_login_count(1).set_token("t1")).unwrap(), "t1");
    assert_eq!(logic.login_with_param("10001", &SaLoginParameter::create().set_is_concurrent(true).set_max_login_count(1).set_token("t2")).unwrap(), "t2");
    assert_eq!(logic.get_login_id_by_token("t1").unwrap(), None);
    assert_eq!(logic.get_login_id_by_token("t2").unwrap(), Some("10001".to_string()));
    assert_eq!(logic.get_token_value_list_by_login_id("10001").unwrap(), vec!["t2".to_string()]);
}

#[test]
fn async_events_for_login_eviction_and_removals() {
    let mut logic = logic_with(SaTokenConfig::default());
    let p = SaLoginParameter::create().set_is_share(false).set_max_login_count(1);
    let t1 = logic.login_with_param("m", &p).unwrap();
    let t2 = logic.login_with_param("m", &p).unwrap();
    let events = logic.take_events();
    assert_eq!(events.len(), 3);
    assert!(matches!(&events[0], SaTokenEvent::Login { login_id, token, .. } if login_id == "m" && token == &t1));
    assert!(matches!(&events[1], SaTokenEvent::Logout { login_id, token, .. } if login_id == "m" && token == &t1));
    assert!(matches!(&events[2], SaTokenEvent::Login { login_id, token, .. } if login_id == "m" && token == &t2));
    logic.kickout_by_token_value(&t2).unwrap();
    logic.kickout_by_token_value("missing").unwrap();
    let events = logic.take_events();
    assert_eq!(events.len(), 1);
    assert!(matches!(&events[0], SaTokenEvent::Kickout { login_type, login_id, token } if login_type == "login" && login_id == "m" && token == &t2));
}

#[test]
fn async_events_for_bans_and_safe() {
    let mut logic = logic_with(SaTokenConfig::default());
    logic.disable_level_with_service("u", "comment", 2, 60).unwrap();
    logic.untie_disable_with_service("u", "comment").unwrap();
    assert!(logic.disable_level_with_service("", "comment", 2, 60).is_err());
    let events = logic.take_events();
    assert_eq!(events.len(), 2);
    assert!(matches!(&events[0], SaTokenEvent::Disable { login_id, service, level: 2, time: 60, .. } if login_id == "u" && service == "comment"));
    assert!(matches!(&events[1], SaTokenEvent::UntieDisable { login_id, service, .. } if login_id == "u" && service == "comment"));
}

#[test]
fn async_account_wide_removals_announce_their_kind() {
    let mut logic = logic_with(SaTokenConfig::default());
    let t1 = logic.login("k").unwrap();
    logic.take_events();
    logic.kickout_by_login_id("k").unwrap();
    let events = logic.take_events();
    assert_eq!(events.len(), 1);
    assert!(matches!(&events[0], SaTokenEvent::Kickout { login_id, token, .. } if login_id == "k" && token == &t1));
    let t2 = logic.login("k").unwrap();
    logic.take_events();
    logic.replaced_by_login_id("k").unwrap();
    let events = logic.take_events();
    assert_eq!(events.len(), 1);
    assert!(matches!(&events[0], SaTokenEvent::Replaced { login_id, token, .. } if login_id == "k" && token == &t2));
    let t3 = logic.login("k").unwrap();
    logic.take_events();
    logic.logout_by_login_id("k").unwrap();
    let events = logic.take_events();
    assert_eq!(events.len(), 1);
    assert!(matches!(&events[0], SaTokenEvent::Logout { login_id, token, .. } if login_id == "k" && token == &t3));
}
