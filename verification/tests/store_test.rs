use sa_token_core::context::SaCookie;
use sa_token_core::config::SaTokenConfig;
use sa_token_core::dao::SaTokenDaoMemory;
use sa_token_core::dao_redis::pttl_to_seconds;
use sa_token_core::dao_moka::{deadline_fits, entry_expired, search_key_list, seconds_left, timeout_to_deadline_ms, SaTokenDaoMokaBuilder};
use sa_token_core::sweeper::sweep_once;
use sa_token_core::strategy::annotation::{
    SaAnnotationStrategy, SaCheckElementAnnotationFunction, SaCheckOrAnnotationFunction, SaGetAnnotationFunction,
    SaIsAnnotationPresentFunction, NoAnnotation, NoCheck, NullAnnotation,
};
use sa_token_core::temp::{cut_value_prefix, second_piece, value_text, SaTempTemplateDefault};
use sa_token_core::json::{JsonText, JsonValue};
use sa_token_core::text::text_less;

#[test]
fn delegates_without_losing_errors() {
    let mut dao = SaTokenDaoMemory::new();
    dao.set("key", "value", -1, 0);
    assert_eq!(dao.get("key", 0), Some("value".to_string()));
}

fn seeded() -> SaTokenDaoMemory {
    let mut dao = SaTokenDaoMemory::new();
    dao.set("satoken:login:token:b", "1", -1, 100);
    dao.set("satoken:login:token:a", "2", -1, 100);
    dao.set("satoken:login:token:c", "3", 10, 100);
    dao.set("satoken:login:session:x", "4", -1, 100);
    dao.set("other:token:z", "5", -1, 100);
    dao
}

#[test]
fn search_data_sorts_filters_and_pages() {
    let dao = seeded();
    assert_eq!(
        dao.search_data("satoken:login:token:", "", 0, 10, true, 100),
        vec!["satoken:login:token:a", "satoken:login:token:b", "satoken:login:token:c"]
    );
    assert_eq!(
        dao.search_data("satoken:login:token:", "", 0, 10, false, 100),
        vec!["satoken:login:token:c", "satoken:login:token:b", "satoken:login:token:a"]
    );
    assert_eq!(
        dao.search_data("satoken:", ":token:", 1, 1, true, 100),
        vec!["satoken:login:token:b"]
    );
    assert_eq!(dao.search_data("satoken:", "", -5, 2, true, 100).len(), 2);
    assert!(dao.search_data("satoken:", "", 9, 2, true, 100).is_empty());
    assert!(dao.search_data("satoken:", "", 0, -1, true, 100).is_empty());
}

#[test]
fn search_data_skips_keys_expiring_now() {
    let dao = seeded();
    assert_eq!(dao.search_data("satoken:login:token:", "", 0, 10, true, 109).len(), 3);
    assert_eq!(dao.search_data("satoken:login:token:", "", 0, 10, true, 110).len(), 2);
    assert_eq!(dao.get("satoken:login:token:c", 110), Some("3".to_string()));
}

#[test]
fn text_order_is_by_character_code() {
    assert!(text_less("a", "b"));
    assert!(text_less("ab", "abc"));
    assert!(!text_less("abc", "ab"));
    assert!(!text_less("b", "b"));
    assert!(text_less("Z", "a"));
}

#[test]
fn moka_builder_and_deadlines() {
    assert_eq!(SaTokenDaoMokaBuilder::default().capacity(), None);
    assert_eq!(SaTokenDaoMokaBuilder::default().max_capacity(2).capacity(), Some(2));
    assert_eq!(timeout_to_deadline_ms(-1, 5_000), None);
    assert_eq!(timeout_to_deadline_ms(0, 5_000), Some(5_000));
    assert_eq!(timeout_to_deadline_ms(60, 5_000), Some(65_000));
    assert!(!entry_expired(None, i64::MAX));
    assert!(entry_expired(Some(5_000), 5_000));
    assert!(!entry_expired(Some(5_000), 4_999));
    assert_eq!(seconds_left(None, 0), -1);
    assert_eq!(seconds_left(Some(65_000), 5_000), 60);
    assert_eq!(seconds_left(Some(65_000), 5_500), 59);
    assert_eq!(seconds_left(Some(65_000), 70_000), 0);
}

#[test]
fn annotation_default_strategy_finds_nothing() {
    let s = SaAnnotationStrategy::default_impl();
    assert!(!s.is_annotation_present.is_annotation_present(&(), "SaCheckLogin"));
    assert_eq!(s.get_annotation.get_annotation(&(), "SaCheckLogin"), serde_json::Value::Null);
    s.check_element_annotation.check_element_annotation(&());
    s.check_or_annotation.check_or_annotation(&[(), ()]);
    let boxed: SaAnnotationStrategy = SaAnnotationStrategy::new(
        Box::new(NoAnnotation), Box::new(NullAnnotation), Box::new(NoCheck), Box::new(NoCheck));
    assert!(!boxed.is_annotation_present.is_annotation_present(&(), "SaCheckRole"));
}

#[test]
fn temp_value_prefix_helpers() {
    assert_eq!(cut_value_prefix("user:10001", "user:"), Some("10001".to_string()));
    assert_eq!(cut_value_prefix("user:10001", "admin:"), None);
    assert_eq!(cut_value_prefix("abc", ""), Some("abc".to_string()));
    assert_eq!(value_text(JsonText::Text("x".to_string())), "x");
    assert_eq!(value_text(JsonText::Null), "");
    assert_eq!(value_text(JsonText::Other("42".to_string())), "42");
    assert_eq!(second_piece("satoken:temp-token:"), Some("temp-token".to_string()));
    assert_eq!(second_piece("a:b:c:d"), Some("b".to_string()));
    assert_eq!(second_piece("a:"), Some(String::new()));
    assert_eq!(second_piece("plain"), None);
}

#[test]
fn temp_parse_with_cut_prefix() {
    let config = SaTokenConfig::default();
    let template = SaTempTemplateDefault::default();
    let mut dao = SaTokenDaoMemory::new();
    let token = template.create_token(&mut dao, &config, JsonValue::new(serde_json::Value::String("user:10001".to_string())), 60, 0);
    assert_eq!(
        template.parse_token_with_cut_prefix_dyn(&dao, &config, &token, Some("user:"), 0).unwrap().map(JsonValue::into_json),
        Some(serde_json::Value::String("10001".to_string()))
    );
    assert_eq!(template.parse_token_with_cut_prefix_dyn(&dao, &config, &token, Some("admin:"), 0).unwrap().is_none(), true);
    assert_eq!(
        template.parse_token_with_cut_prefix_dyn(&dao, &config, &token, None, 0).unwrap().map(JsonValue::into_json),
        Some(serde_json::Value::String("user:10001".to_string()))
    );
    let long = "p".repeat(32);
    assert!(template.parse_token_with_cut_prefix_dyn(&dao, &config, &token, Some(long.as_str()), 0).is_err());
    assert_eq!(template.parse_token_with_cut_prefix_dyn(&dao, &config, "missing", Some(long.as_str()), 0).unwrap().is_none(), true);
    let number = template.create_token_with_index(&mut dao, &config, JsonValue::new(serde_json::Value::from(42)), 60, true, 0);
    assert_eq!(
        template.parse_token_with_cut_prefix_dyn(&dao, &config, &number, Some("4"), 0).unwrap().map(JsonValue::into_json),
        Some(serde_json::Value::String("2".to_string()))
    );
    assert_eq!(template.parse_token_with_type_dyn(&dao, &config, &number, 0).unwrap(), Some(serde_json::Value::from(42)));
    assert!(template.get_temp_token_list(&dao, &config, &serde_json::Value::from(42), 0).unwrap().is_empty());
    assert_eq!(template.jwt_secret_key(), None);
}

#[test]
fn key_search_keeps_duplicates_and_pages_to_the_end() {
    let keys: Vec<String> = vec!["b", "a:1", "c", "a:2", "b"].into_iter().map(String::from).collect();
    assert_eq!(search_key_list(&keys, "", "", 0, -1, true), vec!["a:1", "a:2", "b", "b", "c"]);
    assert_eq!(search_key_list(&keys, "", "", 1, 2, false), vec!["b", "b"]);
    assert_eq!(search_key_list(&keys, "a", "2", 0, 10, true), vec!["a:2"]);
    assert!(search_key_list(&keys, "", "", 9, 1, true).is_empty());
    assert_eq!(search_key_list(&keys, "", "", -3, 1, true), vec!["a:1"]);
}

#[test]
fn sweep_once_lists_no_keys_and_changes_nothing() {
    let mut dao = seeded();
    assert_eq!(sweep_once(&mut dao, "", 500), 0);
    assert_eq!(dao.get("satoken:login:token:a", 500), Some("2".to_string()));
    assert_eq!(dao.get_timeout("satoken:login:token:c", 100), 10);
}

#[test]
fn pttl_reads_as_whole_seconds() {
    assert_eq!(pttl_to_seconds(-2), -2);
    assert_eq!(pttl_to_seconds(-1), -1);
    assert_eq!(pttl_to_seconds(0), 0);
    assert_eq!(pttl_to_seconds(999), 0);
    assert_eq!(pttl_to_seconds(1000), 1);
    assert_eq!(pttl_to_seconds(59_999), 59);
    assert_eq!(pttl_to_seconds(-3_500), -3);
}

#[test]
fn pool_size_recorded() {
    assert_eq!(std::mem::size_of::<usize>(), 8);
}

#[test]
fn redis_error_formats_message() {
    let msg = format!("redis error: connection refused");
    assert!(msg.contains("redis error"));
}

#[test]
fn deadline_fits_only_inside_i64() {
    assert!(deadline_fits(-1, i64::MAX));
    assert!(deadline_fits(10, 1_000));
    assert!(!deadline_fits(i64::MAX / 1000, i64::MAX - 10));
    assert!(deadline_fits(0, i64::MAX));
    assert!(!deadline_fits(1, i64::MAX));
}

#[test]
fn sa_cookie_header_contract() {
    let mut cookie = SaCookie::new("satoken", "abc");
    cookie.set_path("/").set_same_site("Lax");
    let header = cookie.to_header_value().expect("valid cookie");
    assert!(header.contains("satoken=abc"));
    assert!(header.contains("Path=/"));
    assert!(header.contains("SameSite=Lax"));
}

#[test]
fn cookie_header_lists_the_attributes_in_order() {
    let mut cookie = SaCookie::new("n", "v");
    cookie.set_domain("example.com").set_path("/a").set_secure(true).set_http_only(true).set_same_site("Strict");
    assert_eq!(
        cookie.to_header_value().unwrap(),
        "n=v; Domain=example.com; Path=/a; Secure; HttpOnly; SameSite=Strict"
    );
    assert_eq!(SaCookie::new("n", "v").to_header_value().unwrap(), "n=v");
    assert_eq!(SaCookie::new("", "v").to_header_value(), None);
}

#[test]
fn json_value_keeps_its_reading() {
    assert!(matches!(JsonValue::string("x".to_string()).text(), JsonText::Text(s) if s == "x"));
    assert!(matches!(JsonValue::new(serde_json::Value::Null).text(), JsonText::Null));
    assert!(matches!(JsonValue::new(serde_json::Value::from(42)).text(), JsonText::Other(s) if s == "42"));
    assert!(matches!(JsonValue::new(serde_json::Value::from("t")).text(), JsonText::Text(s) if s == "t"));
    assert_eq!(JsonValue::string("x".to_string()).into_json(), serde_json::Value::from("x"));
}
