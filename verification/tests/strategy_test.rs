use sa_token_core::context::{SaRequestForMock, SaResponseForMock};
use sa_token_core::exception::SaTokenException;
use sa_token_core::strategy::firewall::SaFirewallStrategy;
use sa_token_core::strategy::hooks::{
    SaFirewallCheckHook, SaFirewallCheckHookForBlackPath, SaFirewallCheckHookForDirectoryTraversal,
    SaFirewallCheckHookForHeader, SaFirewallCheckHookForHost, SaFirewallCheckHookForHttpMethod,
    SaFirewallCheckHookForParameter, SaFirewallCheckHookForPathBannedCharacter,
    SaFirewallCheckHookForPathDangerCharacter, SaFirewallCheckHookForWhitePath, SaFirewallHook,
};
use sa_token_core::strategy::sa_strategy::SaStrategy;

#[test]
fn rejects_blacklisted_path() {
    let mut hook = SaFirewallCheckHookForBlackPath::instance();
    hook.reset_config(&["/admin/secret"]);
    let req = SaRequestForMock::new().with_url("/admin/secret");
    assert!(hook.execute(&req, &SaResponseForMock::new()).is_err());
}

#[test]
fn path_validity_matches_java_cases() {
    assert!(SaFirewallCheckHookForDirectoryTraversal::is_path_valid("/user/info"));
    assert!(!SaFirewallCheckHookForDirectoryTraversal::is_path_valid("/user/info/.."));
    assert!(!SaFirewallCheckHookForDirectoryTraversal::is_path_valid("//user"));
    assert!(SaFirewallCheckHookForDirectoryTraversal::is_path_valid("/"));
}

#[test]
fn rejects_forbidden_header() {
    let mut hook = SaFirewallCheckHookForHeader::instance();
    hook.reset_config(&["X-Evil"]);
    let req = SaRequestForMock::new().with_url("/api").with_header("X-Evil", "1");
    assert!(hook.execute(&req, &SaResponseForMock::new()).is_err());
}

#[test]
fn rejects_unknown_host_when_enabled() {
    let mut hook = SaFirewallCheckHookForHost::instance();
    hook.reset_config(true, &["localhost"]);
    let req = SaRequestForMock::new().with_url("/api").with_host("evil.example");
    assert!(hook.execute(&req, &SaResponseForMock::new()).is_err());
}

#[test]
fn rejects_unknown_method() {
    let mut hook = SaFirewallCheckHookForHttpMethod::instance();
    hook.reset_config(true, &["GET", "POST"]);
    let req = SaRequestForMock::new().with_url("/api").with_method("FOO");
    assert!(hook.execute(&req, &SaResponseForMock::new()).is_err());
}

#[test]
fn rejects_forbidden_parameter() {
    let mut hook = SaFirewallCheckHookForParameter::instance();
    hook.reset_config(&["debug"]);
    let req = SaRequestForMock::new().with_url("/api").with_query("debug", "1");
    assert!(hook.execute(&req, &SaResponseForMock::new()).is_err());
}

#[test]
fn rejects_non_printable_ascii() {
    let req = SaRequestForMock::new().with_url("/user/\n/info");
    assert!(SaFirewallCheckHookForPathBannedCharacter::instance()
        .execute(&req, &SaResponseForMock::new())
        .is_err());
}

#[test]
fn rejects_double_slash() {
    let req = SaRequestForMock::new().with_url("/user//info");
    assert!(SaFirewallCheckHookForPathDangerCharacter::instance()
        .execute(&req, &SaResponseForMock::new())
        .is_err());
}

#[test]
fn directory_traversal_hook_rejects_dot_dot() {
    let req = SaRequestForMock::new().with_url("/user/../info");
    let res = SaResponseForMock::new();
    let err = SaFirewallCheckHookForDirectoryTraversal::instance()
        .execute(&req, &res)
        .unwrap_err();
    assert!(matches!(err, SaTokenException::RequestPathInvalid { .. }));
}

#[test]
fn white_path_hook_stops_on_match() {
    let mut hook = SaFirewallCheckHookForWhitePath::instance();
    hook.reset_config(&["/public"]);
    let req = SaRequestForMock::new().with_url("/public");
    let res = SaResponseForMock::new();
    let err = hook.execute(&req, &res).unwrap_err();
    assert_eq!(err, SaTokenException::StopMatch);
}

#[test]
fn has_element_supports_exact_and_vague_match() {
    let strategy = SaStrategy::default();
    let list = vec!["localhost".to_string(), "*.example.com".to_string()];
    assert!(strategy.has_element(&list, "localhost"));
    assert!(strategy.has_element(&list, "api.example.com"));
    assert!(!strategy.has_element(&list, "evil.test"));
}

#[test]
fn firewall_directory_traversal_rejects_invalid_path() {
    assert!(!SaFirewallCheckHookForDirectoryTraversal::is_path_valid("/user/../info"));
}

#[test]
fn firewall_white_path_stop_match() {
    let mut hook = SaFirewallCheckHookForWhitePath::instance();
    hook.reset_config(&["/public"]);
    let req = SaRequestForMock::new().with_url("/public");
    let err = hook.execute(&req, &SaResponseForMock::new()).unwrap_err();
    assert_eq!(err, SaTokenException::StopMatch);
}

#[test]
fn firewall_black_path_blocks_request() {
    let mut hook = SaFirewallCheckHookForBlackPath::instance();
    hook.reset_config(&["/secret"]);
    let req = SaRequestForMock::new().with_url("/secret");
    assert!(hook.execute(&req, &SaResponseForMock::new()).is_err());
}

#[test]
fn firewall_strategy_execute_check_accepts_valid_request() {
    assert!(SaFirewallStrategy::instance()
        .execute_check(
            &SaRequestForMock::new().with_url("/user/info").with_method("GET"),
            &SaResponseForMock::new()
        )
        .is_ok());
}

#[test]
fn sa_strategy_has_element_vague_match() {
    let list = vec!["*.example.com".to_string()];
    assert!(SaStrategy::instance().has_element(&list, "api.example.com"));
}

#[test]
fn firewall_white_path_first_skips_black_path() {
    let mut white = SaFirewallCheckHookForWhitePath::instance();
    white.reset_config(&["/both"]);
    let mut black = SaFirewallCheckHookForBlackPath::instance();
    black.reset_config(&["/both"]);
    let mut strategy = SaFirewallStrategy { check_hooks: Vec::new() };
    strategy.register_hook(SaFirewallHook::BlackPath(black));
    strategy.register_hook_to_first(SaFirewallHook::WhitePath(white));
    let req = SaRequestForMock::new().with_url("/both");
    assert!(strategy.execute_check(&req, &SaResponseForMock::new()).is_ok());
}

#[test]
fn firewall_default_chain_refuses_dangerous_path() {
    let req = SaRequestForMock::new().with_url("/a;b");
    let err = SaFirewallStrategy::instance()
        .execute_check(&req, &SaResponseForMock::new())
        .unwrap_err();
    assert_eq!(err, SaTokenException::RequestPathInvalid { message: "非法请求：/a;b".to_string() });
}

#[test]
fn method_check_ignores_ascii_case_and_query_is_not_path() {
    let hook = SaFirewallCheckHookForHttpMethod::instance();
    let req = SaRequestForMock::new().with_url("/x?y=1").with_method("get");
    assert!(hook.execute(&req, &SaResponseForMock::new()).is_ok());
    assert_eq!(req.get_request_path(), "/x");
}

#[test]
fn banned_percentage_when_configured() {
    let mut hook = SaFirewallCheckHookForPathBannedCharacter::instance();
    let req = SaRequestForMock::new().with_url("/a%20b");
    assert!(hook.execute(&req, &SaResponseForMock::new()).is_ok());
    hook.reset_config(true);
    assert_eq!(
        hook.execute(&req, &SaResponseForMock::new()).unwrap_err(),
        SaTokenException::RequestPathInvalid { message: "请求 path 包含禁止字符 %：/a%20b".to_string() }
    );
}

#[test]
fn firewall_over_a_hook_type_of_its_own() {
    let strategy = SaFirewallStrategy::with_hooks(vec![SaFirewallCheckHookForDirectoryTraversal::instance()]);
    let res = SaResponseForMock::new();
    assert!(strategy.execute_check(&SaRequestForMock::new().with_url("/a/b"), &res).is_ok());
    assert!(strategy.execute_check(&SaRequestForMock::new().with_url("/a/../b"), &res).is_err());
}
