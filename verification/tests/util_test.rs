use sa_token_core::util::consts::{
    DEFAULT_DISABLE_SERVICE, DEFAULT_TIMEOUT, DEFAULT_TOKEN_NAME, NEVER_EXPIRE, NOT_VALUE_EXPIRE,
};
use sa_token_core::util::fox_util::{
    convert_string_to_list, decode_url, encode_url, equals, is_empty, is_not_empty, join_param,
    list1_contain_list2_all, not_equals, random_string, splice_two_url, vague_match, SaFoxUtil,
};
use sa_token_core::util::hex_util::{decode, encode};
use sa_token_core::util::sa_result::SaResultData;

use sa_token_core::util::sugar::SaSugar;
use sa_token_core::util::ttl_methods::SaTtlMethods;
use sa_token_core::util::value2_box::SaValue2Box;

#[test]
fn random_string_len() {
    let s = random_string(16);
    assert_eq!(s.len(), 16);
}

#[test]
fn is_empty_and_equals() {
    assert!(is_empty(""));
    assert!(is_not_empty("x"));
    assert!(equals("a", "a"));
    assert!(not_equals("a", "b"));
}

#[test]
fn join_param_url() {
    assert_eq!(join_param("http://a.com", "id=1"), "http://a.com?id=1");
    assert_eq!(join_param("http://a.com?", "id=1"), "http://a.com?id=1");
    assert_eq!(join_param("http://a.com?x=1", "id=2"), "http://a.com?x=1&id=2");
}

#[test]
fn splice_and_vague_match() {
    assert_eq!(splice_two_url("http://a.com", "/api"), "http://a.com/api");
    assert!(vague_match("user*", "user-add"));
    assert!(!vague_match("user*", "art-add"));
}

#[test]
fn convert_and_list_ops() {
    assert_eq!(convert_string_to_list("a, b ,c"), vec!["a", "b", "c"]);
    assert!(list1_contain_list2_all(&["a".into(), "b".into()], &["a".into()]));
}

#[test]
fn encode_decode_url_roundtrip() {
    let raw = "hello world";
    assert_eq!(decode_url(&encode_url(raw)), raw);
}

#[test]
fn encode_decode_roundtrip() {
    let s = encode(b"hello");
    assert_eq!(s, "68656C6C6F");
    assert_eq!(decode(&s).unwrap(), b"hello");
}

#[test]
fn uppercase_works() {
    assert_eq!(decode("FF").unwrap(), vec![0xff]);
}

#[test]
fn invalid_chars() {
    assert!(decode("xyz").is_err());
    assert!(decode("xx").is_err());
}

#[test]
fn serialize_error() {
    let r: SaResultData<()> = SaResultData::error(500, "失败");
    assert_eq!(r.code, 500);
    assert_eq!(r.message, "失败");
    assert!(!r.is_ok());
}

#[test]
fn sugar_helpers() {
    assert!(SaSugar::empty_string().is_empty());
    assert!(SaSugar::empty_list().is_empty());
    assert_eq!(SaSugar::to_list(&["a", "b"]), vec!["a", "b"]);
}

#[test]
fn core_consts_match_java_defaults() {
    assert_eq!(DEFAULT_TOKEN_NAME, "satoken");
    assert_eq!(DEFAULT_TIMEOUT, 60 * 60 * 24 * 30);
    assert_eq!(NEVER_EXPIRE, -1);
    assert_eq!(NOT_VALUE_EXPIRE, -2);
    assert_eq!(DEFAULT_DISABLE_SERVICE, "login");
}

#[test]
fn ttl_constants() {
    assert_eq!(SaTtlMethods::NEVER_EXPIRE, -1);
    assert_eq!(SaTtlMethods::DEFAULT_TIMEOUT, 60 * 60 * 24 * 7);
}

#[test]
fn set_once() {
    let mut v: SaValue2Box<u32> = SaValue2Box::new();
    assert!(v.set(42));
    assert!(!v.set(100));
    assert_eq!(v.get(), Some(42));
}

#[test]
fn take() {
    let mut v: SaValue2Box<String> = SaValue2Box::new();
    v.set("hi".to_string());
    assert_eq!(v.take(), Some("hi".to_string()));
}

#[test]
fn positional() {
    let r = sa_token_core::util::str_formatter::format("hello {0}, age {1}", &["world".to_string(), 18.to_string()]);
    assert_eq!(r, "hello world, age 18");
}

#[test]
fn unmatched_kept() {
    let r = sa_token_core::util::str_formatter::format("no placeholders", &[]);
    assert_eq!(r, "no placeholders");
}

#[test]
fn escaped_brace() {
    let r = sa_token_core::util::str_formatter::format("literal \\{ not placeholder", &[]);
    assert_eq!(r, "literal { not placeholder");
}

#[test]
fn wave4_sa_fox_util_contract() {
    assert_eq!(SaFoxUtil::random_string(8).len(), 8);
    assert!(SaFoxUtil::is_empty(""));
    assert!(SaFoxUtil::equals("a", "a"));
    assert_eq!(SaFoxUtil::join_param("http://x.com", "id=1"), "http://x.com?id=1");
    assert!(SaFoxUtil::vague_match("api*", "api/user"));
}

#[test]
fn wave4_util_contract() {
    assert_eq!(encode(b"ab"), "6162");
    assert_eq!(decode("6162").unwrap(), b"ab");
    let ok: SaResultData<i32> = SaResultData::ok(1);
    assert!(ok.is_ok());
    assert!(SaSugar::empty_list().is_empty());
    assert_eq!(DEFAULT_TOKEN_NAME, "satoken");
    assert_eq!(SaTtlMethods::NEVER_EXPIRE, NEVER_EXPIRE);
    let mut boxv: SaValue2Box<u32> = SaValue2Box::new();
    assert!(boxv.set(1));
    assert_eq!(boxv.get(), Some(1));
    assert_eq!(sa_token_core::util::str_formatter::format("hi {0}", &["world".to_string()]), "hi world");
}

#[test]
fn list_text_round_trip_and_hex_decode_shape() {
    let items = vec!["admin".to_string(), "user:add".to_string(), "a b".to_string()];
    let text = sa_token_core::util::fox_util::convert_list_to_string(&items);
    assert_eq!(text, "admin,user:add,a b");
    assert_eq!(convert_string_to_list(&text), items);
    assert!(decode("abc").is_err());
    assert!(decode("zz").is_err());
    assert_eq!(decode("0aFf").unwrap().len(), 2);
    assert_eq!(decode("").unwrap(), Vec::<u8>::new());
}

#[test]
fn list_items_read_from_text_are_clean() {
    let items = convert_string_to_list("  a , ,\tb\n,,c c ,  ");
    assert_eq!(items, vec!["a", "b", "c c"]);
    for item in &items {
        assert!(!item.is_empty());
        assert!(!item.contains(','));
        assert_eq!(item.trim(), item.as_str());
    }
}
