use sa_token_core::config::SaTokenConfig;
use sa_token_core::context::SaStorageForMock;
use sa_token_core::exception::SaTokenException;
use sa_token_core::session::SaTerminalInfo;
use sa_token_core::stp::interface::{StpInterface, StpInterfaceTable, SaDisableWrapperInfo, StpInterfaceDefaultImpl};
use sa_token_core::stp::logic::{SaTokenEvent, StpLogic};
use sa_token_core::stp::model::{SaLoginConfig, SaLoginModel, SaTokenInfo};
use sa_token_core::stp::parameter::{
    SaLoginParameter, SaLogoutMode, SaLogoutParameter, SaLogoutRange, SaReplacedLoginExitMode, SaReplacedRange,
};
use sa_token_core::temp::SaTempTemplateDefault;
use sa_token_core::util::consts::{NOT_DISABLE_LEVEL, SESSION_TYPE_ANON};

fn level_disable_provider() -> StpInterfaceTable {
    StpInterfaceTable {
        permissions: Vec::new(),
        roles: Vec::new(),
        bans: vec![("loader".to_string(), "comment".to_string(), SaDisableWrapperInfo::create_disabled(30, 3))],
    }
}

#[test]
fn wave1_models_parameters_and_enums_defaults() {
    let config = SaLoginConfig::default().with_timeout(120).with_share(true).with_device_type("mobile");
    assert_eq!(config.timeout, 120);
    assert!(config.is_share);

    let model = SaLoginModel::new("10001").with_config(config.clone());
    assert_eq!(model.login_id, "10001");
    assert!(model.config.is_some());

    let info = SaTokenInfo::new("satoken", "tok");
    assert_eq!(info.token_name, "satoken");
    assert!(info.is_created);

    let login_param = SaLoginParameter::default().set_device_type("pc").set_is_share(true);
    assert_eq!(login_param.get_is_share(&SaTokenConfig::default()), true);

    let logout_param = SaLogoutParameter::create().set_mode(SaLogoutMode::Kickout).set_range(SaLogoutRange::Account);
    assert_eq!(logout_param.mode, SaLogoutMode::Kickout);
    assert_eq!(logout_param.range, SaLogoutRange::Account);
    assert_eq!(SaReplacedLoginExitMode::default(), SaReplacedLoginExitMode::OldDeviceOffline);
    assert_eq!(SaReplacedRange::default(), SaReplacedRange::CurrDeviceType);

    let default_impl = StpInterfaceDefaultImpl;
    assert!(default_impl.get_role_list("1", "login").is_empty());
    assert_eq!(default_impl.is_disabled("1", "login"), SaDisableWrapperInfo::create_not_disabled());
}

#[test]
fn wave1_sync_share_token_and_disable_level() {
    let mut logic = StpLogic::with_interface("login", level_disable_provider());
    let shared_param = SaLoginParameter::default().set_device_type("desktop").set_is_share(true);

    let first = logic.create_login_session("alice", &shared_param).expect("first shared login");
    let second = logic.create_login_session("alice", &shared_param).expect("second shared login");
    assert_eq!(first, second);
    assert_eq!(logic.get_terminal_list_by_login_id("alice").ok().expect("terminal list").len(), 1);

    logic.disable_level("alice", 2, 60).expect("disable level 2");
    assert_eq!(logic.get_disable_level("alice").expect("disable level"), 2);
    assert!(logic.is_disable_level("alice", 2).expect("is disable"));
    assert!(!logic.is_disable_level("alice", 3).expect("below level"));
    assert!(logic.check_disable_level("alice", 2).is_err());

    logic.untie_disable("alice").expect("untie");
    assert_eq!(logic.get_disable_level("alice").expect("not disabled"), NOT_DISABLE_LEVEL);

    assert_eq!(logic.get_disable_level_with_service("loader", "comment").expect("loader disable"), 3);
}

#[test]
fn wave1_sync_anon_token_session_and_terminal_info() {
    let mut logic = StpLogic::new("login");

    let anon = logic.get_anon_token_session().ok().expect("anon session");
    assert_eq!(anon.session_type(), SESSION_TYPE_ANON);
    assert!(!anon.token().is_empty());

    let terminal = SaTerminalInfo::new(1, "tok", "pc");
    assert_eq!(terminal.device_type(), "pc");
    assert_eq!(terminal.token_value(), "tok");
}

#[test]
fn wave1_disable_level_validation_uses_java_error_codes() {
    let mut logic = StpLogic::with_interface("login", level_disable_provider());

    let err = logic.disable_level_with_service("", "login", 1, 10).expect_err("empty login id");
    assert_eq!(err.code(), 11062);

    let err = logic.disable_level_with_service("u1", "", 1, 10).expect_err("empty service");
    assert_eq!(err.code(), 11063);

    let err = logic.disable_level("u1", -1, 10).expect_err("invalid level");
    assert_eq!(err.code(), 11064);

    logic.disable_level("u1", 2, 10).expect("disable");
    let err = logic.check_disable_level("u1", 2).expect_err("blocked");
    assert_eq!(err.code(), 11061);
    assert!(matches!(err, SaTokenException::Framework { .. }));
}

#[test]
fn jwt_secret_key_default_none() {
    let tpl = SaTempTemplateDefault::default();
    assert_eq!(tpl.jwt_secret_key(), None);
}

#[test]
fn mock_storage_trait_contract() {
    let mut stg = SaStorageForMock::new();
    stg.set("k", "v");
    assert_eq!(stg.get("k"), Some("v".into()));
    stg.delete("k");
    assert_eq!(stg.get("k"), None);
}

#[test]
fn reported_ban_is_written_and_announced() {
    let mut logic = StpLogic::with_interface("login", level_disable_provider());
    assert_eq!(logic.get_disable_level_with_service("loader", "comment").unwrap(), 3);
    let events = logic.take_events();
    assert_eq!(events.len(), 1);
    assert!(matches!(&events[0], SaTokenEvent::Disable { login_type, login_id, service, level: 3, time: 30 }
        if login_type == "login" && login_id == "loader" && service == "comment"));
    assert_eq!(logic.get_disable_level_with_service("loader", "comment").unwrap(), 3);
    assert!(logic.take_events().is_empty());
}

#[test]
fn untie_then_default_source_reports_not_disabled() {
    let mut logic = StpLogic::new("login");
    logic.disable_level("alice", 2, 60).unwrap();
    assert_eq!(logic.get_disable_level("alice").unwrap(), 2);
    logic.untie_disable("alice").unwrap();
    assert_eq!(logic.get_disable_level("alice").unwrap(), NOT_DISABLE_LEVEL);
}

#[test]
fn token_info_created_at_keeps_the_time() {
    let i = SaTokenInfo::created_at("satoken", "tok", 1_700_000_000);
    assert_eq!(i.token_name, "satoken");
    assert_eq!(i.token_value, "tok");
    assert!(i.is_created);
    assert_eq!(i.login_id, "");
    assert_eq!(i.token_timeout, -1);
    assert_eq!(i.session_timeout, -1);
    assert_eq!(i.token_session_timeout, -1);
    assert_eq!(i.token_active_timeout, -1);
    assert_eq!(i.login_device_type, "");
    assert_eq!(i.token_create_time, 1_700_000_000);
}

#[test]
fn ban_longer_than_half_the_range_is_recorded() {
    let mut logic = StpLogic::new("login");
    let long = (1i64 << 62) + 5;
    logic.disable_level("long", 2, long).unwrap();
    assert_eq!(logic.get_disable_level("long").unwrap(), 2);
}
