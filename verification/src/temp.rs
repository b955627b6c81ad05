//! Temporary tokens: values stored under random tokens for a while.
use vstd::prelude::*;
use vstd::string::StringExecFns;
use crate::config::SaTokenConfig;
use crate::dao::{DaoModel, SaTokenDaoMemory, expire_moment, fits, lemma_empty_page, live_value, page, remaining};
use crate::exception::{SaResult, SaTokenException, is_other};
use crate::json::{JsonText, JsonTextModel, JsonValue};
use crate::text::{chars_of, has_prefix, starts_with, string_of, views};
use crate::util::fox_util::split_on;
use crate::util::fox_util::random_uuid;
use crate::util::hex_util::hex_text;

verus! {

/// Default namespace of temporary tokens.
pub const DEFAULT_NAMESPACE: &'static str = "temp-token";

/// Storage key of a temporary token: `{token name}:{namespace}:{token}`.
pub open spec fn temp_key(name: Seq<char>, namespace: Seq<char>, token: Seq<char>) -> Seq<char> {
    name + ":"@ + namespace + ":"@ + token
}

/// A token of 32 lower-case hex digits of 16 random bytes.
pub open spec fn uuid_shaped(t: Seq<char>) -> bool {
    exists|b: Seq<u8>| b.len() == 16 && t == hex_text(b, false)
}

/// The text a JSON value reads as: a string's own text, nothing for
/// `null`, the JSON text of any other value.
pub fn value_text(t: JsonText) -> (r: String)
    ensures
        r@ == match t {
            JsonText::Text(s) => s@,
            JsonText::Null => Seq::<char>::empty(),
            JsonText::Other(s) => s@,
        },
{
    match t {
        JsonText::Text(s) => s,
        JsonText::Null => String::new(),
        JsonText::Other(s) => s,
    }
}

/// The text a reading of a JSON value gives (see [`value_text`]).
pub open spec fn reading_text(t: JsonTextModel) -> Seq<char> {
    match t {
        JsonTextModel::Text(s) => s,
        JsonTextModel::Null => Seq::<char>::empty(),
        JsonTextModel::Other(s) => s,
    }
}

/// The JSON value under a key, if it is there and not expired.
pub open spec fn live_json(m: Map<Seq<char>, (JsonValue, i64)>, k: Seq<char>, now: i64) -> Option<serde_json::Value> {
    match live_value(m, k, now) {
        Some(j) => Some(j.json_view()),
        None => None,
    }
}

/// How many tokens are drawn before giving up on finding an unused one:
/// `max_try_times`, at least one.
pub open spec fn tries_of(config: SaTokenConfig) -> int {
    if config.max_try_times > 1 { config.max_try_times as int } else { 1 }
}

/// The text without the prefix when it begins with it; none otherwise.
pub fn cut_value_prefix(text: &str, prefix: &str) -> (r: Option<String>)
    ensures
        has_prefix(text@, prefix@) ==> (r matches Some(s) && s@ == text@.subrange(prefix@.len() as int, text@.len() as int)),
        !has_prefix(text@, prefix@) ==> r is None,
{
    if starts_with(text, prefix) {
        let tcs = chars_of(text);
        let pcs = chars_of(prefix);
        let n = pcs.len();
        Some(string_of(&tcs.as_slice()[n..tcs.len()]))
    } else {
        None
    }
}

/// The second of the pieces of a text between colons, when it has a colon.
pub fn second_piece(s: &str) -> (r: Option<String>)
    ensures
        split_on(s@, ':').len() > 1 ==> (r matches Some(t) && t@ == split_on(s@, ':')[1]),
        split_on(s@, ':').len() <= 1 ==> r is None,
{
    let cs = chars_of(s);
    let mut count: u128 = 1;
    let mut cur: Vec<char> = Vec::new();
    let mut second: Vec<char> = Vec::new();
    let mut i: usize = 0;
    proof {
        assert(cs@.take(0) =~= Seq::<char>::empty());
    }
    while i < cs.len()
        invariant
            cs@ == s@,
            i <= cs@.len(),
            count as int == split_on(cs@.take(i as int), ':').len(),
            1 <= count <= i + 1,
            cur@ == split_on(cs@.take(i as int), ':').last(),
            count >= 3 ==> second@ == split_on(cs@.take(i as int), ':')[1],
        decreases cs@.len() - i,
    {
        let ghost pre = split_on(cs@.take(i as int), ':');
        assert(cs@.take(i + 1).drop_last() =~= cs@.take(i as int));
        assert(cs@.take(i + 1).last() == cs@[i as int]);
        let c = cs[i];
        if c == ':' {
            if count == 2 {
                second = cur;
            }
            cur = Vec::new();
            count += 1;
        } else {
            cur.push(c);
        }
        i += 1;
    }
    assert(cs@.take(cs@.len() as int) =~= cs@);
    if count == 1 {
        None
    } else if count == 2 {
        Some(string_of(cur.as_slice()))
    } else {
        Some(string_of(second.as_slice()))
    }
}

/// Temporary tokens kept in a store under a namespace.
pub struct SaTempTemplateDefault {
    namespace: String,
}

impl SaTempTemplateDefault {
    /// The namespace.
    pub closed spec fn ns(&self) -> Seq<char> {
        self.namespace@
    }

    /// Temporary tokens under a namespace, which may not be empty.
    pub fn new(namespace: &str) -> (r: Self)
        requires
            namespace@.len() > 0,
        ensures
            r.ns() == namespace@,
    {
        SaTempTemplateDefault { namespace: namespace.to_owned() }
    }

    /// The namespace.
    pub fn namespace(&self) -> (r: &str)
        ensures
            r@ == self.ns(),
    {
        self.namespace.as_str()
    }

    /// The storage key of a token.
    pub fn splicing_temp_token_save_key(&self, config: &SaTokenConfig, token: &str) -> (r: String)
        ensures
            r@ == temp_key(config.token_name@, self.ns(), token@),
    {
        let mut r = String::new();
        r.append(config.token_name.as_str());
        r.append(":");
        r.append(self.namespace.as_str());
        r.append(":");
        r.append(token);
        r
    }

    /// A random token.
    pub fn random_temp_token(&self) -> (r: String)
        ensures
            uuid_shaped(r@),
    {
        random_uuid()
    }

    /// A random token, drawn up to `max_try_times` times (at least once)
    /// until one is not in use: the first unused draw, or, when every draw
    /// is in use, one more draw.
    pub fn create_temp_token_value(&self, dao: &SaTokenDaoMemory, config: &SaTokenConfig, now: i64) -> (r: String)
        requires
            dao.wf(),
        ensures
            uuid_shaped(r@),
            live_value(dao@.objects, temp_key(config.token_name@, self.ns(), r@), now) is None
                || exists|drawn: Seq<Seq<char>>| {
                    &&& drawn.len() == tries_of(*config)
                    &&& forall|k: int| 0 <= k < drawn.len() ==> uuid_shaped(#[trigger] drawn[k])
                        && live_value(dao@.objects, temp_key(config.token_name@, self.ns(), drawn[k]), now) is Some
                },
    {
        let tries: i32 = if config.max_try_times > 1 { config.max_try_times } else { 1 };
        let mut i: i32 = 0;
        let ghost mut drawn: Seq<Seq<char>> = Seq::empty();
        while i < tries
            invariant
                dao.wf(),
                0 <= i <= tries,
                tries == tries_of(*config),
                drawn.len() == i,
                forall|k: int| 0 <= k < drawn.len() ==> uuid_shaped(#[trigger] drawn[k])
                    && live_value(dao@.objects, temp_key(config.token_name@, self.ns(), drawn[k]), now) is Some,
            decreases tries - i,
        {
            let candidate = self.random_temp_token();
            let key = self.splicing_temp_token_save_key(config, candidate.as_str());
            if dao.get_object(key.as_str(), now).is_none() {
                return candidate;
            }
            proof {
                drawn = drawn.push(candidate@);
            }
            i += 1;
        }
        self.random_temp_token()
    }

    /// Stores a value under a token for `timeout` seconds (zero or less: forever).
    pub fn save_token(&self, dao: &mut SaTokenDaoMemory, config: &SaTokenConfig, token: &str, value: JsonValue, timeout: i64, now: i64)
        requires
            old(dao).wf(),
            fits(now, timeout),
        ensures
            final(dao).wf(),
            final(dao)@ == (DaoModel {
                objects: old(dao)@.objects.insert(temp_key(config.token_name@, self.ns(), token@),
                    (value, expire_moment(timeout, now))),
                ..old(dao)@
            }),
    {
        let key = self.splicing_temp_token_save_key(config, token);
        dao.set_object(key.as_str(), value, timeout, now);
    }

    /// Stores a value under a new token and answers the token.
    pub fn create_token(&self, dao: &mut SaTokenDaoMemory, config: &SaTokenConfig, value: JsonValue, timeout: i64, now: i64) -> (r: String)
        requires
            old(dao).wf(),
            fits(now, timeout),
        ensures
            uuid_shaped(r@),
            final(dao).wf(),
            final(dao)@ == (DaoModel {
                objects: old(dao)@.objects.insert(temp_key(config.token_name@, self.ns(), r@),
                    (value, expire_moment(timeout, now))),
                ..old(dao)@
            }),
    {
        let token = self.create_temp_token_value(dao, config, now);
        self.save_token(dao, config, token.as_str(), value, timeout, now);
        token
    }

    /// The value under a token, if it is there and not expired.
    pub fn parse_token(&self, dao: &SaTokenDaoMemory, config: &SaTokenConfig, token: &str, now: i64) -> (r: Option<serde_json::Value>)
        requires
            dao.wf(),
        ensures
            r == live_json(dao@.objects, temp_key(config.token_name@, self.ns(), token@), now),
    {
        let key = self.splicing_temp_token_save_key(config, token);
        match dao.get_object(key.as_str(), now) {
            Some(j) => Some(j.into_json()),
            None => None,
        }
    }

    /// Stores a value under a new token (see [`Self::create_token`]); the
    /// value is not indexed, whatever `is_record_index` asks.
    pub fn create_token_with_index(&self, dao: &mut SaTokenDaoMemory, config: &SaTokenConfig, value: JsonValue, timeout: i64, is_record_index: bool, now: i64) -> (r: String)
        requires
            old(dao).wf(),
            fits(now, timeout),
        ensures
            uuid_shaped(r@),
            final(dao).wf(),
            final(dao)@ == (DaoModel {
                objects: old(dao)@.objects.insert(temp_key(config.token_name@, self.ns(), r@),
                    (value, expire_moment(timeout, now))),
                ..old(dao)@
            }),
    {
        self.create_token(dao, config, value, timeout, now)
    }

    /// The value under a token (see [`Self::parse_token`]).
    pub fn parse_token_with_type_dyn(&self, dao: &SaTokenDaoMemory, config: &SaTokenConfig, token: &str, now: i64) -> (r: SaResult<Option<serde_json::Value>>)
        requires
            dao.wf(),
        ensures
            r == Ok::<Option<serde_json::Value>, SaTokenException>(live_json(dao@.objects, temp_key(config.token_name@, self.ns(), token@), now)),
    {
        Ok(self.parse_token(dao, config, token, now))
    }

    /// The value under a token, with `cut_prefix` (when given) cut off the
    /// text it reads as: the rest as a JSON string when the text begins with
    /// the prefix, none when it does not, an error when the prefix has 32
    /// bytes or more (see [`cut_value_prefix`]).
    pub fn parse_token_with_cut_prefix_dyn(&self, dao: &SaTokenDaoMemory, config: &SaTokenConfig, token: &str, cut_prefix: Option<&str>, now: i64) -> (r: SaResult<Option<JsonValue>>)
        requires
            dao.wf(),
        ensures
            live_value(dao@.objects, temp_key(config.token_name@, self.ns(), token@), now) is None ==> r matches Ok(None),
            live_value(dao@.objects, temp_key(config.token_name@, self.ns(), token@), now) matches Some(v) ==> match cut_prefix {
                None => r == Ok::<Option<JsonValue>, SaTokenException>(Some(v)),
                Some(p) => if p.len() >= 32 {
                    r matches Err(e) && is_other(e, "裁剪前缀长度必须小于 32 位"@)
                } else if has_prefix(reading_text(v.text_view()), p@) {
                    r matches Ok(Some(c)) && c.text_view() == JsonTextModel::Text(
                        reading_text(v.text_view()).subrange(p@.len() as int, reading_text(v.text_view()).len() as int))
                } else {
                    r matches Ok(None)
                },
            },
    {
        let key = self.splicing_temp_token_save_key(config, token);
        let value = match dao.get_object(key.as_str(), now) {
            Some(v) => v,
            None => return Ok(None),
        };
        match cut_prefix {
            None => Ok(Some(value)),
            Some(prefix) => {
                if prefix.len() >= 32 {
                    return Err(SaTokenException::other("裁剪前缀长度必须小于 32 位"));
                }
                let text = value_text(value.text().copy());
                match cut_value_prefix(text.as_str(), prefix) {
                    Some(rest) => Ok(Some(JsonValue::string(rest))),
                    None => Ok(None),
                }
            },
        }
    }

    /// The tokens kept for a value, found by searching the store's strings
    /// for keys under the template's prefix from position 0 with a page
    /// size of -1, which the store answers with no keys: always empty.
    pub fn get_temp_token_list(&self, dao: &SaTokenDaoMemory, config: &SaTokenConfig, value: &serde_json::Value, now: i64) -> (r: SaResult<Vec<String>>)
        requires
            dao.wf(),
            now < i64::MAX,
        ensures
            r matches Ok(v) && v@.len() == 0,
    {
        let key = self.splicing_temp_token_save_key(config, "");
        let segment = match second_piece(key.as_str()) {
            Some(s) => s,
            None => DEFAULT_NAMESPACE.to_owned(),
        };
        let mut prefix = String::new();
        prefix.append(config.token_name.as_str());
        prefix.append(":");
        prefix.append(segment.as_str());
        prefix.append(":");
        let keys = dao.search_data(prefix.as_str(), "", 0, -1, true, now);
        proof {
            assert forall|l: Seq<Seq<char>>| #[trigger] page(l, 0i64, -1i64).len() == 0 by {
                lemma_empty_page(l, 0i64, -1i64);
            }
            assert(views(keys@).len() == 0);
        }
        let mut out: Vec<String> = Vec::new();
        let mut i: usize = 0;
        while i < keys.len()
            invariant
                i <= keys@.len(),
                out@.len() == i,
            decreases keys@.len() - i,
        {
            let k = keys[i].as_str();
            match cut_value_prefix(k, prefix.as_str()) {
                Some(rest) => out.push(rest),
                None => out.push(k.to_owned()),
            }
            i += 1;
        }
        Ok(out)
    }

    /// The secret key of signed temporary tokens: none for this template.
    pub fn jwt_secret_key(&self) -> (r: Option<String>)
        ensures
            r is None,
    {
        None
    }

    /// Seconds left of a token: -1 forever, -2 absent or expired.
    pub fn get_timeout(&self, dao: &SaTokenDaoMemory, config: &SaTokenConfig, token: &str, now: i64) -> (r: i64)
        requires
            dao.wf(),
            now >= 0,
        ensures
            r == remaining(dao@.objects, temp_key(config.token_name@, self.ns(), token@), now),
    {
        let key = self.splicing_temp_token_save_key(config, token);
        dao.get_object_timeout(key.as_str(), now)
    }

    /// Removes a token.
    pub fn delete_token(&self, dao: &mut SaTokenDaoMemory, config: &SaTokenConfig, token: &str)
        requires
            old(dao).wf(),
        ensures
            final(dao).wf(),
            final(dao)@ == (DaoModel {
                objects: old(dao)@.objects.remove(temp_key(config.token_name@, self.ns(), token@)),
                ..old(dao)@
            }),
    {
        let key = self.splicing_temp_token_save_key(config, token);
        dao.delete_object(key.as_str());
    }
}

impl Default for SaTempTemplateDefault {
    fn default() -> (r: Self)
        ensures
            r.ns() == "temp-token"@,
    {
        SaTempTemplateDefault { namespace: "temp-token".to_owned() }
    }
}

/// Temporary tokens through a template.
pub struct SaTempUtil;

impl SaTempUtil {
    /// Stores a value under a new token (see [`SaTempTemplateDefault::create_token`]).
    pub fn create_token(template: &SaTempTemplateDefault, dao: &mut SaTokenDaoMemory, config: &SaTokenConfig, value: JsonValue, timeout: i64, now: i64) -> (r: String)
        requires
            old(dao).wf(),
            fits(now, timeout),
        ensures
            uuid_shaped(r@),
            final(dao).wf(),
            final(dao)@ == (DaoModel {
                objects: old(dao)@.objects.insert(temp_key(config.token_name@, template.ns(), r@),
                    (value, expire_moment(timeout, now))),
                ..old(dao)@
            }),
    {
        template.create_token(dao, config, value, timeout, now)
    }

    /// Stores a value under a token (see [`SaTempTemplateDefault::save_token`]).
    pub fn save_token(template: &SaTempTemplateDefault, dao: &mut SaTokenDaoMemory, config: &SaTokenConfig, token: &str, value: JsonValue, timeout: i64, now: i64)
        requires
            old(dao).wf(),
            fits(now, timeout),
        ensures
            final(dao).wf(),
            final(dao)@ == (DaoModel {
                objects: old(dao)@.objects.insert(temp_key(config.token_name@, template.ns(), token@),
                    (value, expire_moment(timeout, now))),
                ..old(dao)@
            }),
    {
        template.save_token(dao, config, token, value, timeout, now)
    }

    /// The value under a token (see [`SaTempTemplateDefault::parse_token`]).
    pub fn parse_token(template: &SaTempTemplateDefault, dao: &SaTokenDaoMemory, config: &SaTokenConfig, token: &str, now: i64) -> (r: Option<serde_json::Value>)
        requires
            dao.wf(),
        ensures
            r == live_json(dao@.objects, temp_key(config.token_name@, template.ns(), token@), now),
    {
        template.parse_token(dao, config, token, now)
    }

    /// Seconds left of a token (see [`SaTempTemplateDefault::get_timeout`]).
    pub fn get_timeout(template: &SaTempTemplateDefault, dao: &SaTokenDaoMemory, config: &SaTokenConfig, token: &str, now: i64) -> (r: i64)
        requires
            dao.wf(),
            now >= 0,
        ensures
            r == remaining(dao@.objects, temp_key(config.token_name@, template.ns(), token@), now),
    {
        template.get_timeout(dao, config, token, now)
    }

    /// Removes a token (see [`SaTempTemplateDefault::delete_token`]).
    pub fn delete_token(template: &SaTempTemplateDefault, dao: &mut SaTokenDaoMemory, config: &SaTokenConfig, token: &str)
        requires
            old(dao).wf(),
        ensures
            final(dao).wf(),
            final(dao)@ == (DaoModel {
                objects: old(dao)@.objects.remove(temp_key(config.token_name@, template.ns(), token@)),
                ..old(dao)@
            }),
    {
        template.delete_token(dao, config, token)
    }
}

/// A temporary token reads back the value it was created with: once
/// `create_token` (or `save_token`) stored `value` under a token at `now`
/// for `timeout` seconds, `parse_token` at any moment `at` from `now` on
/// answers `value` while the token lives (always, for a timeout of zero or
/// less; else until `now + timeout`) and nothing after; once
/// `delete_token` removed it, nothing.
pub proof fn law_temp_token_reads_back(
    objects: Map<Seq<char>, (JsonValue, i64)>,
    token_name: Seq<char>,
    namespace: Seq<char>,
    token: Seq<char>,
    value: JsonValue,
    timeout: i64,
    now: i64,
    at: i64,
)
    requires
        0 <= now <= at,
        fits(now, timeout),
    ensures
        ({
            let key = temp_key(token_name, namespace, token);
            &&& live_json(objects.insert(key, (value, expire_moment(timeout, now))), key, at)
                == (if timeout <= 0 || at <= now + timeout { Some(value.json_view()) } else { None::<serde_json::Value> })
            &&& live_json(objects.remove(key), key, at) is None
        }),
{
}

} // verus!
