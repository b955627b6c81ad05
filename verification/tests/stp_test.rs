use sa_token_core::context::SaRequestForMock;
use sa_token_core::exception::SaTokenException;
use sa_token_core::num::int_to_string;
use sa_token_core::stp::interface::{StpInterfaceTable, SaDisableWrapperInfo};
use sa_token_core::stp::logic::{SaTokenEvent, StpLogic};
use sa_token_core::stp::parameter::SaLoginParameter;
use sa_token_core::stp::util::StpUtil;

fn my_stp_interface() -> StpInterfaceTable {
    StpInterfaceTable {
        permissions: vec![("10001".to_string(), vec!["user:add".to_string(), "user:list".to_string()])],
        roles: vec![("10001".to_string(), vec!["admin".to_string()])],
        bans: Vec::new(),
    }
}

#[test]
fn stp_util_default_type() {
    assert_eq!(StpUtil::TYPE, "login");
}

#[test]
fn login_then_logged_in_then_logout() {
    let mut util = StpUtil::new();
    util.login("10001").unwrap();
    assert!(util.is_login());
    assert_eq!(util.get_login_id().unwrap(), "10001");
    util.logout().unwrap();
    assert!(!util.is_login());
}

#[test]
fn permissions_and_roles_from_the_source() {
    let mut util = StpUtil::with_interface(my_stp_interface());
    util.login("10001").unwrap();
    assert!(util.has_permission("user:add").unwrap());
    assert!(util.has_role("admin").unwrap());
    util.check_permission("user:add").unwrap();
    let err = util.check_permission("user:delete").unwrap_err();
    assert_eq!(err.code(), 11051);
    assert!(util.has_permission_and(&["user:add", "user:list"]).unwrap());
    assert!(!util.has_permission_and(&["user:add", "user:delete"]).unwrap());
    assert!(util.has_permission_or(&["user:delete", "user:list"]).unwrap());
    assert_eq!(
        util.check_role_and(&["admin", "root"]).unwrap_err(),
        SaTokenException::NotRole { role: "admin,root".to_string(), login_type: "login".to_string() }
    );
}

#[test]
fn not_logged_in_errors() {
    let util = StpUtil::new();
    assert!(!util.is_login());
    let err = util.get_login_id().unwrap_err();
    assert_eq!(err, SaTokenException::NotLogin { message: "未登录".to_string(), login_type: "login".to_string() });
    assert_eq!(err.code(), 11011);
    assert_eq!(util.get_token_timeout(), -2);
}

#[test]
fn empty_login_id_is_refused() {
    let mut logic = StpLogic::new("login");
    let err = logic.login("").unwrap_err();
    assert_eq!(err, SaTokenException::Framework { code: 11002, message: "loginId 不能为空".to_string() });
}

#[test]
fn token_from_header_with_prefix() {
    let mut logic = StpLogic::new("login");
    let tv = logic.create_login_session("7", &SaLoginParameter::default()).unwrap();
    let mut config = sa_token_core::config::SaTokenConfig::default();
    config.token_prefix = "Bearer ".to_string();
    logic.set_config(config);
    let header = format!("Bearer {}", tv);
    logic.set_request(SaRequestForMock::new().with_header("satoken", &header));
    assert_eq!(logic.get_token_value(), Some(tv.clone()));
    assert_eq!(logic.get_login_id().unwrap(), "7");
    assert_eq!(logic.get_login_id_as_i64().unwrap(), 7);
    assert_eq!(logic.get_login_id_as_i32().unwrap(), 7);
}

#[test]
fn login_id_as_number_round_trip() {
    let mut logic = StpLogic::new("login");
    let id = int_to_string(-9223372036854775808);
    logic.login(&id).unwrap();
    assert_eq!(logic.get_login_id_as_i64().unwrap(), i64::MIN);
    assert!(logic.get_login_id_as_i32().is_err());
}

#[test]
fn kickout_removes_token() {
    let mut logic = StpLogic::new("login");
    let tv = logic.create_login_session("10001", &SaLoginParameter::default()).unwrap();
    assert_eq!(logic.get_login_id_by_token(&tv).unwrap(), Some("10001".to_string()));
    logic.kickout_by_login_id("10001").unwrap();
    assert_eq!(logic.get_login_id_by_token(&tv).unwrap(), None);
}

#[test]
fn concurrent_logins_share_token_per_device() {
    let mut logic = StpLogic::new("login");
    let a = logic.create_login_session("1", &SaLoginParameter::create().set_device_type("PC")).unwrap();
    let b = logic.create_login_session("1", &SaLoginParameter::create().set_device_type("PC")).unwrap();
    let c = logic.create_login_session("1", &SaLoginParameter::create().set_device_type("APP")).unwrap();
    assert_eq!(a, b);
    assert_ne!(a, c);
    assert_eq!(logic.get_token_value_list_by_login_id("1").unwrap(), vec![a.clone(), c.clone()]);
    let infos = logic.get_terminal_list_by_login_id("1").unwrap();
    assert_eq!(infos.len(), 2);
    assert_eq!(infos[1].device_type, "APP");
}

#[test]
fn non_concurrent_login_replaces_old_token() {
    let mut logic = StpLogic::new("login");
    let a = logic.create_login_session("1", &SaLoginParameter::default()).unwrap();
    let b = logic
        .create_login_session("1", &SaLoginParameter::create().set_is_concurrent(false))
        .unwrap();
    assert_ne!(a, b);
    assert_eq!(logic.get_login_id_by_token(&a).unwrap(), None);
    assert_eq!(logic.get_login_id_by_token(&b).unwrap(), Some("1".to_string()));
}

#[test]
fn max_login_count_evicts_oldest() {
    let mut logic = StpLogic::new("login");
    let p = |d: &str| SaLoginParameter::create().set_device_type(d).set_max_login_count(2);
    let a = logic.create_login_session("1", &p("A")).unwrap();
    let b = logic.create_login_session("1", &p("B")).unwrap();
    let c = logic.create_login_session("1", &p("C")).unwrap();
    assert_eq!(logic.get_login_id_by_token(&a).unwrap(), None);
    assert_eq!(logic.get_token_value_list_by_login_id("1").unwrap(), vec![b, c]);
}

#[test]
fn chosen_token_is_used() {
    let mut logic = StpLogic::new("login");
    let tv = logic
        .create_login_session("5", &SaLoginParameter::create().set_token("my-token"))
        .unwrap();
    assert_eq!(tv, "my-token");
    assert_eq!(logic.get_login_id_by_token("my-token").unwrap(), Some("5".to_string()));
}

#[test]
fn token_expires_with_clock() {
    let mut logic = StpLogic::new("login");
    logic.set_clock(100);
    let tv = logic
        .create_login_session("1", &SaLoginParameter::create().set_timeout(10))
        .unwrap();
    assert_eq!(logic.get_token_timeout_by_token(&tv).unwrap(), 10);
    logic.set_clock(110);
    assert_eq!(logic.get_login_id_by_token(&tv).unwrap(), Some("1".to_string()));
    logic.set_clock(111);
    assert_eq!(logic.get_login_id_by_token(&tv).unwrap(), None);
    assert_eq!(logic.get_token_timeout_by_token(&tv).unwrap(), -2);
}

#[test]
fn renew_sets_new_lifetime() {
    let mut logic = StpLogic::new("login");
    logic.set_clock(100);
    logic.login("1").unwrap();
    logic.renew_timeout(50).unwrap();
    assert_eq!(logic.get_token_timeout().unwrap(), 50);
    assert_eq!(logic.get_token_last_active_time(&logic.get_token_value().unwrap()).unwrap(), 100);
}

#[test]
fn active_timeout_logs_out() {
    let mut logic = StpLogic::new("login");
    let mut config = sa_token_core::config::SaTokenConfig::default();
    config.active_timeout = 30;
    logic.set_config(config);
    logic.set_clock(100);
    logic.login("1").unwrap();
    logic.set_clock(120);
    assert!(logic.check_active_timeout().is_ok());
    logic.set_clock(131);
    assert_eq!(
        logic.check_active_timeout().unwrap_err(),
        SaTokenException::NotLogin { message: "活跃超时".to_string(), login_type: "login".to_string() }
    );
    assert!(!logic.is_login().unwrap());
}

#[test]
fn disable_then_banned_then_untie() {
    let mut logic = StpLogic::new("login");
    logic.disable("1", 100).unwrap();
    assert!(logic.is_disable("1").unwrap());
    assert_eq!(logic.get_disable_level("1").unwrap(), 1);
    assert_eq!(logic.get_disable_time("1").unwrap(), 100);
    let err = logic.check_disable("1").unwrap_err();
    assert_eq!(err.code(), 11061);
    logic.untie_disable("1").unwrap();
    assert!(!logic.is_disable("1").unwrap());
    assert_eq!(logic.get_disable_level("1").unwrap(), -2);
}

#[test]
fn disable_level_validation_codes() {
    let mut logic = StpLogic::new("login");
    assert_eq!(logic.disable_level_with_service("", "s", 1, 10).unwrap_err().code(), 11062);
    assert_eq!(logic.disable_level_with_service("1", "", 1, 10).unwrap_err().code(), 11063);
    assert_eq!(logic.disable_level_with_service("1", "s", -1, 10).unwrap_err().code(), 11064);
    assert!(logic.disable_level_with_service("1", "s", 3, 10).is_ok());
    assert!(logic.is_disable_level_with_service("1", "s", 3).unwrap());
    assert!(!logic.is_disable_level_with_service("1", "s", 4).unwrap());
}

#[test]
fn safe_open_check_close() {
    let mut logic = StpLogic::new("login");
    logic.login("1").unwrap();
    assert!(!logic.is_safe().unwrap());
    logic.open_safe(60).unwrap();
    assert!(logic.is_safe().unwrap());
    logic.check_safe().unwrap();
    logic.close_safe().unwrap();
    assert!(!logic.is_safe().unwrap());
    assert_eq!(logic.check_safe().unwrap_err().code(), 11071);
}

#[test]
fn switch_to_and_end() {
    let mut util = StpUtil::new();
    assert!(util.switch_to("2").is_err());
    util.login("1").unwrap();
    util.switch_to("2").unwrap();
    assert!(util.is_switch());
    assert_eq!(util.get_switch_login_id(), Some("2".to_string()));
    assert_eq!(util.get_login_id().unwrap(), "2");
    util.end_switch().unwrap();
    assert!(!util.is_switch());
    assert_eq!(util.get_login_id().unwrap(), "1");
}

#[test]
fn token_session_requires_login() {
    let mut logic = StpLogic::new("login");
    assert!(logic.get_token_session_by_token("").is_err());
    assert!(logic.get_token_session_by_token("nope").is_err());
    let tv = logic.create_login_session("1", &SaLoginParameter::default()).unwrap();
    let s = logic.get_token_session_by_token(&tv).unwrap();
    assert_eq!(s.session_type(), "token");
    assert_eq!(s.token(), tv);
}

#[test]
fn anon_token_session_is_created() {
    let mut logic = StpLogic::new("login");
    let s = logic.get_anon_token_session().unwrap();
    assert_eq!(s.session_type(), "Anon-Token-Session");
    assert_eq!(logic.get_token_value(), Some(s.token().to_string()));
}

#[test]
fn token_info_and_device() {
    let mut logic = StpLogic::new("login");
    logic.login_with_device("1", "PC").unwrap();
    let info = logic.get_token_info().unwrap();
    assert_eq!(info.login_id, "1");
    assert_eq!(info.login_device_type, "PC");
    assert_eq!(info.token_timeout, 2592000);
    assert_eq!(logic.get_login_device_type().unwrap(), "PC");
    assert_eq!(logic.get_terminal_info().unwrap().device_type, "PC");
}

#[test]
fn keys_have_their_formats() {
    let logic = StpLogic::new("login");
    assert_eq!(logic.splicing_key_token_value("t"), "satoken:login:token:t");
    assert_eq!(logic.splicing_key_session("1"), "satoken:login:session:1");
    assert_eq!(logic.splicing_key_token_session("t"), "satoken:login:token-session:t");
    assert_eq!(logic.splicing_key_last_active_time("t"), "satoken:login:last-active:t");
    assert_eq!(logic.splicing_key_disable("1", "s"), "satoken:login:disable:s:1");
    assert_eq!(logic.splicing_key_safe("t", "s"), "satoken:login:safe:s:t");
    assert_eq!(logic.splicing_key_switch(), "SWITCH_TO_SAVE_KEY_login");
    assert_eq!(logic.splicing_key_token_name(), "satoken:login:token-name:login");
}

#[test]
fn mock_request_contract() {
    let req = SaRequestForMock::new()
        .with_url("http://demo.test/user?id=1")
        .with_method("POST")
        .with_query("id", "1")
        .with_header("X-Requested-With", "XMLHttpRequest");
    assert_eq!(req.get_param("id"), Some("1".into()));
    assert_eq!(req.get_param_or_default("missing", "x"), "x");
    assert!(req.is_param("id", "1"));
    assert!(req.has_param("id"));
    assert_eq!(req.get_request_path(), "http://demo.test/user");
    assert!(req.is_ajax());
}

#[test]
fn ban_report_is_applied_when_nothing_is_stored() {
    let mut logic = StpLogic::new("login");
    assert_eq!(logic.apply_disable_report("u1", "pay", SaDisableWrapperInfo::create_not_disabled()).unwrap(), -2);
    assert_eq!(logic.get_disable_level_with_service("u1", "pay").unwrap(), -2);
    assert_eq!(logic.apply_disable_report("u1", "pay", SaDisableWrapperInfo::create_disabled(60, 3)).unwrap(), 3);
    assert_eq!(logic.get_disable_level_with_service("u1", "pay").unwrap(), 3);
    assert_eq!(logic.apply_disable_report("u1", "pay", SaDisableWrapperInfo::create_not_disabled()).unwrap(), 3);
    assert_eq!(logic.apply_disable_report("u2", "pay", SaDisableWrapperInfo::create_disabled(60, -1)).unwrap_err().code(), 11064);
}

#[test]
fn login_evicts_oldest_and_records_device() {
    let mut logic = StpLogic::new("login");
    logic.login_with_param("10001", &SaLoginParameter::create().set_is_concurrent(true).set_max_login_count(1).set_token("t1")).unwrap();
    logic.login_with_param("10001", &SaLoginParameter::create().set_is_concurrent(true).set_max_login_count(1).set_token("t2")).unwrap();
    assert_eq!(logic.get_login_id_by_token("t1").unwrap(), None);
    assert_eq!(logic.get_login_id_by_token("t2").unwrap(), Some("10001".to_string()));
    assert_eq!(logic.get_token_value_list_by_login_id("10001").unwrap(), vec!["t2".to_string()]);
    let mut other = StpLogic::new("login");
    other.login_with_device("10002", "desktop").unwrap();
    assert_eq!(other.get_login_id().unwrap(), "10002");
    assert_eq!(other.get_login_device_type().unwrap(), "desktop");
    assert!(!other.get_token_value().unwrap().is_empty());
}

#[test]
fn shared_login_reuses_the_first_token() {
    let mut logic = StpLogic::new("login");
    let p = SaLoginParameter::default().set_device_type("desktop").set_is_share(true);
    let first = logic.create_login_session("alice", &p).unwrap();
    assert_eq!(logic.create_login_session("alice", &p).unwrap(), first);
    assert_eq!(logic.get_terminal_list_by_login_id("alice").unwrap().len(), 1);
}

#[test]
fn listener_events_follow_login_and_logout() {
    let mut util = StpUtil::new();
    util.login("10001").unwrap();
    let token = util.get_token_value().unwrap();
    util.logout().unwrap();
    let events = util.take_events();
    assert_eq!(events.len(), 2);
    match &events[0] {
        SaTokenEvent::Login { login_type, login_id, token: t, device_type } => {
            assert_eq!(login_type, "login");
            assert_eq!(login_id, "10001");
            assert_eq!(t, &token);
            assert_eq!(device_type, "");
        }
        _ => panic!("first event is not a login"),
    }
    match &events[1] {
        SaTokenEvent::Logout { login_type, login_id, token: t } => {
            assert_eq!(login_type, "login");
            assert_eq!(login_id, "10001");
            assert_eq!(t, &token);
        }
        _ => panic!("second event is not a logout"),
    }
    assert!(util.take_events().is_empty());
}

#[test]
fn kickout_by_token_sends_kickout_event() {
    let mut logic = StpLogic::new("login");
    logic.login("u1").unwrap();
    let token = logic.get_token_value().unwrap();
    logic.take_events();
    logic.kickout_by_token_value(&token).unwrap();
    let events = logic.take_events();
    assert_eq!(events.len(), 1);
    assert!(matches!(&events[0], SaTokenEvent::Kickout { login_id, .. } if login_id == "u1"));
}

#[test]
fn replaced_and_evicted_logins_are_announced() {
    let mut logic = StpLogic::new("login");
    let a = logic.create_login_session("1", &SaLoginParameter::default()).unwrap();
    let b = logic
        .create_login_session("1", &SaLoginParameter::create().set_is_concurrent(false))
        .unwrap();
    let events = logic.take_events();
    assert_eq!(events.len(), 3);
    assert!(matches!(&events[0], SaTokenEvent::Login { token, .. } if token == &a));
    assert!(matches!(&events[1], SaTokenEvent::Replaced { login_id, token, .. } if login_id == "1" && token == &a));
    assert!(matches!(&events[2], SaTokenEvent::Login { token, .. } if token == &b));

    let p = |d: &str| SaLoginParameter::create().set_device_type(d).set_max_login_count(1);
    let c = logic.create_login_session("2", &p("A")).unwrap();
    let d = logic.create_login_session("2", &p("B")).unwrap();
    let events = logic.take_events();
    assert_eq!(events.len(), 3);
    assert!(matches!(&events[0], SaTokenEvent::Login { device_type, token, .. } if device_type == "A" && token == &c));
    assert!(matches!(&events[1], SaTokenEvent::Logout { login_id, token, .. } if login_id == "2" && token == &c));
    assert!(matches!(&events[2], SaTokenEvent::Login { device_type, token, .. } if device_type == "B" && token == &d));
}

#[test]
fn safe_opens_and_closes_per_service() {
    let mut logic = StpLogic::new("login");
    logic.login("s1").unwrap();
    logic.open_safe_with_service("pay", 60).unwrap();
    logic.open_safe_with_service("mail", 60).unwrap();
    assert!(logic.is_safe_with_service("pay").unwrap());
    logic.close_safe_with_service("pay").unwrap();
    assert!(!logic.is_safe_with_service("pay").unwrap());
    assert!(logic.is_safe_with_service("mail").unwrap());
}

#[test]
fn device_login_reads_back_its_device() {
    let mut logic = StpLogic::new("login");
    logic.login_with_device("d1", "ipad").unwrap();
    assert_eq!(logic.get_login_id().unwrap(), "d1");
    assert_eq!(logic.get_login_device_type().unwrap(), "ipad");
}
