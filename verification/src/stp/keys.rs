//! Storage keys of tokens, sessions, bans and second-level authentication,
//! and the making of new token values.
use vstd::prelude::*;
use vstd::string::StringExecFns;
use crate::config::SaTokenConfig;
use crate::text::str_eq;
use crate::util::fox_util::{is_alnum, random_string, random_uuid};
use crate::util::hex_util::hex_text;

verus! {

/// Key of the account id a token belongs to: `{name}:{type}:token:{token}`.
pub open spec fn token_key(name: Seq<char>, lt: Seq<char>, tv: Seq<char>) -> Seq<char> {
    name + ":"@ + lt + ":token:"@ + tv
}

/// Key of an account's session: `{name}:{type}:session:{id}`.
pub open spec fn session_key(name: Seq<char>, lt: Seq<char>, id: Seq<char>) -> Seq<char> {
    name + ":"@ + lt + ":session:"@ + id
}

/// Key of a token's session: `{name}:{type}:token-session:{token}`.
pub open spec fn token_session_key(name: Seq<char>, lt: Seq<char>, tv: Seq<char>) -> Seq<char> {
    name + ":"@ + lt + ":token-session:"@ + tv
}

/// Key of a token's last activity: `{name}:{type}:last-active:{token}`.
pub open spec fn last_active_key(name: Seq<char>, lt: Seq<char>, tv: Seq<char>) -> Seq<char> {
    name + ":"@ + lt + ":last-active:"@ + tv
}

/// Key of an account's ban from a service: `{name}:{type}:disable:{service}:{id}`.
pub open spec fn disable_key(name: Seq<char>, lt: Seq<char>, id: Seq<char>, service: Seq<char>) -> Seq<char> {
    name + ":"@ + lt + ":disable:"@ + service + ":"@ + id
}

/// Key of a token's second-level authentication for a service:
/// `{name}:{type}:safe:{service}:{token}`.
pub open spec fn safe_key(name: Seq<char>, lt: Seq<char>, tv: Seq<char>, service: Seq<char>) -> Seq<char> {
    name + ":"@ + lt + ":safe:"@ + service + ":"@ + tv
}

/// Storage key of the account an account type switched to.
pub open spec fn switch_key(lt: Seq<char>) -> Seq<char> {
    "SWITCH_TO_SAVE_KEY_"@ + lt
}

/// Key under which an account type's token name is kept.
pub open spec fn token_name_key(lt: Seq<char>) -> Seq<char> {
    "satoken:login:token-name:"@ + lt
}

/// `{name}:{lt}{mid}{x}`.
fn splice3(name: &str, lt: &str, mid: &str, x: &str) -> (r: String)
    ensures
        r@ == name@ + ":"@ + lt@ + mid@ + x@,
{
    let mut r = String::new();
    r.append(name);
    r.append(":");
    r.append(lt);
    r.append(mid);
    r.append(x);
    r
}

/// `{name}:{lt}{mid}{a}:{b}`.
fn splice4(name: &str, lt: &str, mid: &str, a: &str, b: &str) -> (r: String)
    ensures
        r@ == name@ + ":"@ + lt@ + mid@ + a@ + ":"@ + b@,
{
    let mut r = String::new();
    r.append(name);
    r.append(":");
    r.append(lt);
    r.append(mid);
    r.append(a);
    r.append(":");
    r.append(b);
    r
}

/// The token key.
pub fn make_token_key(name: &str, lt: &str, tv: &str) -> (r: String)
    ensures
        r@ == token_key(name@, lt@, tv@),
{
    splice3(name, lt, ":token:", tv)
}

/// The session key.
pub fn make_session_key(name: &str, lt: &str, id: &str) -> (r: String)
    ensures
        r@ == session_key(name@, lt@, id@),
{
    splice3(name, lt, ":session:", id)
}

/// The token session key.
pub fn make_token_session_key(name: &str, lt: &str, tv: &str) -> (r: String)
    ensures
        r@ == token_session_key(name@, lt@, tv@),
{
    splice3(name, lt, ":token-session:", tv)
}

/// The last activity key.
pub fn make_last_active_key(name: &str, lt: &str, tv: &str) -> (r: String)
    ensures
        r@ == last_active_key(name@, lt@, tv@),
{
    splice3(name, lt, ":last-active:", tv)
}

/// The ban key.
pub fn make_disable_key(name: &str, lt: &str, id: &str, service: &str) -> (r: String)
    ensures
        r@ == disable_key(name@, lt@, id@, service@),
{
    splice4(name, lt, ":disable:", service, id)
}

/// The second-level authentication key.
pub fn make_safe_key(name: &str, lt: &str, tv: &str, service: &str) -> (r: String)
    ensures
        r@ == safe_key(name@, lt@, tv@, service@),
{
    splice4(name, lt, ":safe:", service, tv)
}

/// The switch key.
pub fn make_switch_key(lt: &str) -> (r: String)
    ensures
        r@ == switch_key(lt@),
{
    let mut r = String::new();
    r.append("SWITCH_TO_SAVE_KEY_");
    r.append(lt);
    r
}

/// The token name key.
pub fn make_token_name_key(lt: &str) -> (r: String)
    ensures
        r@ == token_name_key(lt@),
{
    let mut r = String::new();
    r.append("satoken:login:token-name:");
    r.append(lt);
    r
}

/// The shape of a token made under a token style: `random-32`, `random-64`
/// and `random-128` give that many letters and digits, every other style 32
/// lower-case hex digits of 16 random bytes.
pub open spec fn token_of_style(style: Seq<char>, tv: Seq<char>) -> bool {
    if style == "random-32"@ {
        tv.len() == 32 && forall|i: int| 0 <= i < 32 ==> is_alnum(#[trigger] tv[i])
    } else if style == "random-64"@ {
        tv.len() == 64 && forall|i: int| 0 <= i < 64 ==> is_alnum(#[trigger] tv[i])
    } else if style == "random-128"@ {
        tv.len() == 128 && forall|i: int| 0 <= i < 128 ==> is_alnum(#[trigger] tv[i])
    } else {
        exists|b: Seq<u8>| b.len() == 16 && tv == hex_text(b, false)
    }
}

/// Hex text is twice as long as its bytes.
pub proof fn lemma_hex_text_len(b: Seq<u8>, upper: bool)
    ensures
        hex_text(b, upper).len() == 2 * b.len(),
    decreases b.len(),
{
    if b.len() > 0 {
        lemma_hex_text_len(b.drop_last(), upper);
    }
}

/// A token of any style is not empty.
pub proof fn lemma_styled_token_not_empty(style: Seq<char>, tv: Seq<char>)
    requires
        token_of_style(style, tv),
    ensures
        tv.len() > 0,
{
    if style != "random-32"@ && style != "random-64"@ && style != "random-128"@ {
        let b = choose|b: Seq<u8>| b.len() == 16 && tv == hex_text(b, false);
        lemma_hex_text_len(b, false);
    }
}

/// A new random token value in the configured style.
pub fn create_token_value(config: &SaTokenConfig) -> (r: String)
    ensures
        token_of_style(config.token_style@, r@),
{
    let style = config.token_style.as_str();
    if str_eq(style, "random-32") {
        random_string(32)
    } else if str_eq(style, "random-64") {
        random_string(64)
    } else if str_eq(style, "random-128") {
        random_string(128)
    } else {
        random_uuid()
    }
}

} // verus!
