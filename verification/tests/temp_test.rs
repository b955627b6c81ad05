use sa_token_core::json::JsonValue;
use sa_token_core::config::SaTokenConfig;
use sa_token_core::dao::SaTokenDaoMemory;
use sa_token_core::temp::{SaTempTemplateDefault, SaTempUtil, DEFAULT_NAMESPACE};

#[test]
fn default_namespace_constant() {
    assert_eq!(DEFAULT_NAMESPACE, "temp-token");
}

#[test]
fn splice_key_includes_namespace_and_token_name() {
    let tpl = SaTempTemplateDefault::new("my-temp");
    let key = tpl.splicing_temp_token_save_key(&SaTokenConfig::default(), "TOKEN");
    assert!(key.contains("my-temp"));
    assert!(key.contains("TOKEN"));
    assert_eq!(key, "satoken:my-temp:TOKEN");
}

#[test]
fn create_temp_token_value_is_uuid_format() {
    let tpl = SaTempTemplateDefault::default();
    let dao = SaTokenDaoMemory::new();
    let v = tpl.create_temp_token_value(&dao, &SaTokenConfig::default(), 0);
    assert_eq!(v.len(), 32);
    assert!(v.chars().all(|c| c.is_ascii_hexdigit()));
}

#[test]
fn random_temp_token_is_32_hex() {
    let tpl = SaTempTemplateDefault::default();
    let t = tpl.random_temp_token();
    assert_eq!(t.len(), 32);
    assert!(t.chars().all(|c| c.is_ascii_hexdigit()));
}

#[test]
fn temp_token_lifetime_and_delete() {
    let tpl = SaTempTemplateDefault::default();
    let config = SaTokenConfig::default();
    let mut dao = SaTokenDaoMemory::new();
    let token = SaTempUtil::create_token(&tpl, &mut dao, &config, JsonValue::new(serde_json::Value::Bool(true)), 60, 1000);
    assert_eq!(SaTempUtil::get_timeout(&tpl, &dao, &config, &token, 1010), 50);
    assert!(SaTempUtil::parse_token(&tpl, &dao, &config, &token, 1010).is_some());
    assert!(SaTempUtil::parse_token(&tpl, &dao, &config, &token, 1061).is_none());
    assert_eq!(SaTempUtil::get_timeout(&tpl, &dao, &config, &token, 1061), -2);
    SaTempUtil::delete_token(&tpl, &mut dao, &config, &token);
    assert_eq!(SaTempUtil::get_timeout(&tpl, &dao, &config, &token, 1010), -2);
}

#[test]
fn temp_token_reads_back_its_value() {
    let tpl = SaTempTemplateDefault::default();
    let config = SaTokenConfig::default();
    let mut dao = SaTokenDaoMemory::new();
    let mut obj = serde_json::Map::new();
    obj.insert("user".to_string(), serde_json::Value::from("10001"));
    obj.insert("n".to_string(), serde_json::Value::from(3));
    let value = serde_json::Value::Object(obj);
    let token = SaTempUtil::create_token(&tpl, &mut dao, &config, JsonValue::new(value.clone()), 60, 1000);
    assert_eq!(SaTempUtil::parse_token(&tpl, &dao, &config, &token, 1000), Some(value.clone()));
    assert_eq!(SaTempUtil::parse_token(&tpl, &dao, &config, &token, 1060), Some(value));
    assert_eq!(SaTempUtil::parse_token(&tpl, &dao, &config, &token, 1061), None);
    let forever = SaTempUtil::create_token(&tpl, &mut dao, &config, JsonValue::new(serde_json::Value::from(7)), 0, 1000);
    assert_eq!(SaTempUtil::parse_token(&tpl, &dao, &config, &forever, 999_999), Some(serde_json::Value::from(7)));
}

#[test]
fn created_temp_token_is_unused_and_reads_back() {
    let tpl = SaTempTemplateDefault::default();
    let config = SaTokenConfig::default();
    let mut dao = SaTokenDaoMemory::new();
    for _ in 0..5 {
        let v = tpl.create_temp_token_value(&dao, &config, 0);
        assert_eq!(v.len(), 32);
        assert!(v.chars().all(|c| c.is_ascii_hexdigit()));
        assert!(tpl.parse_token(&dao, &config, &v, 0).is_none());
        tpl.save_token(&mut dao, &config, &v, JsonValue::new(serde_json::Value::from(1)), 60, 0);
        assert_eq!(tpl.parse_token(&dao, &config, &v, 0), Some(serde_json::Value::from(1)));
    }
}
