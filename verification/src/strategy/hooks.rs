//! The firewall's checks of a request: white and black listed paths,
//! dangerous and banned characters, directory traversal, hosts, methods,
//! headers and parameters.
use vstd::prelude::*;
use vstd::string::StringExecFns;
use crate::context::{SaRequestForMock, SaResponseForMock, path_of};
use crate::exception::SaTokenException;
use crate::strategy::sa_strategy::{SaStrategy, list_has_element};
use crate::text::{chars_of, contains_char, contains_str, has_infix, str_eq, views};
use crate::util::fox_util::{has_non_printable_ascii, spec_has_non_printable_ascii, split_on};

verus! {

/// What a check decided.
pub enum CheckOutcome {
    /// The request passes this check.
    Pass,
    /// The request passes and the remaining checks are skipped.
    Stop,
    /// The path is refused, with this message.
    PathInvalid(Seq<char>),
    /// The request is refused, with this message.
    Firewall(Seq<char>),
    /// Another error: this one.
    Other(SaTokenException),
}

/// What a check's result decided.
pub open spec fn outcome(r: Result<(), SaTokenException>) -> CheckOutcome {
    match r {
        Ok(()) => CheckOutcome::Pass,
        Err(SaTokenException::StopMatch) => CheckOutcome::Stop,
        Err(SaTokenException::RequestPathInvalid { message }) => CheckOutcome::PathInvalid(message@),
        Err(SaTokenException::FirewallCheck { message }) => CheckOutcome::Firewall(message@),
        Err(e) => CheckOutcome::Other(e),
    }
}

/// A check the firewall runs on each request.
pub trait SaFirewallCheckHook {
    /// What the check decides for a request.
    spec fn verdict(&self, req: SaRequestForMock) -> CheckOutcome;

    /// Runs the check.
    fn execute(&self, req: &SaRequestForMock, res: &SaResponseForMock) -> (r: Result<(), SaTokenException>)
        requires
            req.wf(),
        ensures
            outcome(r) == self.verdict(*req),
    ;
}

/// A check made of another.
pub struct StaticHookWrapper<H: SaFirewallCheckHook> {
    inner: H,
}

impl<H: SaFirewallCheckHook> StaticHookWrapper<H> {
    /// The wrapped check.
    pub closed spec fn wrapped(&self) -> H {
        self.inner
    }

    /// Wraps a check.
    pub fn new(inner: H) -> (r: Self)
        ensures
            r.wrapped() == inner,
    {
        StaticHookWrapper { inner }
    }
}

impl<H: SaFirewallCheckHook> SaFirewallCheckHook for StaticHookWrapper<H> {
    closed spec fn verdict(&self, req: SaRequestForMock) -> CheckOutcome {
        self.inner.verdict(req)
    }

    fn execute(&self, req: &SaRequestForMock, res: &SaResponseForMock) -> (r: Result<(), SaTokenException>) {
        self.inner.execute(req, res)
    }
}

/// A refused path with a message.
fn path_invalid(prefix: &str, subject: &str) -> (r: SaTokenException)
    ensures
        outcome(Err(r)) == CheckOutcome::PathInvalid(prefix@ + subject@),
{
    let mut m = String::new();
    m.append(prefix);
    m.append(subject);
    SaTokenException::RequestPathInvalid { message: m }
}

/// A refused request with a message.
fn firewall_error(prefix: &str, subject: &str) -> (r: SaTokenException)
    ensures
        outcome(Err(r)) == CheckOutcome::Firewall(prefix@ + subject@),
{
    let mut m = String::new();
    m.append(prefix);
    m.append(subject);
    SaTokenException::FirewallCheck { message: m }
}

/// Copies string slices into owned strings.
fn owned_list(items: &[&str]) -> (r: Vec<String>)
    ensures
        views(r@) == items@.map_values(|s: &str| s@),
{
    let mut r: Vec<String> = Vec::new();
    let mut i: usize = 0;
    while i < items.len()
        invariant
            i <= items@.len(),
            views(r@) == items@.subrange(0, i as int).map_values(|s: &str| s@),
        decreases items@.len() - i,
    {
        let ghost before = r@;
        r.push(items[i].to_owned());
        proof {
            assert(views(r@) =~= views(before).push(items@[i as int]@));
            assert(items@.subrange(0, i as int + 1).map_values(|s: &str| s@)
                =~= items@.subrange(0, i as int).map_values(|s: &str| s@).push(items@[i as int]@));
        }
        i += 1;
    }
    assert(items@.subrange(0, items@.len() as int) =~= items@);
    r
}

/// Whether the list holds the text.
fn holds(list: &Vec<String>, s: &str) -> (r: bool)
    ensures
        r == views(list@).contains(s@),
{
    let mut i: usize = 0;
    while i < list.len()
        invariant
            i <= list@.len(),
            forall|j: int| 0 <= j < i ==> list@[j]@ != s@,
        decreases list@.len() - i,
    {
        if str_eq(list[i].as_str(), s) {
            assert(views(list@)[i as int] == s@);
            return true;
        }
        i += 1;
    }
    proof {
        if views(list@).contains(s@) {
            let k = choose|k: int| 0 <= k < views(list@).len() && views(list@)[k] == s@;
            assert(list@[k]@ == s@);
        }
    }
    false
}

// ---------------- white-listed paths ----------------

/// Lets white-listed paths through and skips the remaining checks for them.
pub struct SaFirewallCheckHookForWhitePath {
    /// The white-listed paths.
    pub white_paths: Vec<String>,
}

impl SaFirewallCheckHookForWhitePath {
    /// The check with no white-listed path.
    pub fn instance() -> (r: Self)
        ensures
            r.white_paths@.len() == 0,
    {
        SaFirewallCheckHookForWhitePath { white_paths: Vec::new() }
    }

    /// Replaces the white-listed paths.
    pub fn reset_config(&mut self, paths: &[&str])
        ensures
            views(final(self).white_paths@) == paths@.map_values(|s: &str| s@),
    {
        self.white_paths = owned_list(paths);
    }
}

impl SaFirewallCheckHook for SaFirewallCheckHookForWhitePath {
    open spec fn verdict(&self, req: SaRequestForMock) -> CheckOutcome {
        if views(self.white_paths@).contains(path_of(req.url_view())) { CheckOutcome::Stop } else { CheckOutcome::Pass }
    }

    fn execute(&self, req: &SaRequestForMock, res: &SaResponseForMock) -> (r: Result<(), SaTokenException>) {
        let path = req.get_request_path();
        if holds(&self.white_paths, path.as_str()) {
            return Err(SaTokenException::StopMatch);
        }
        Ok(())
    }
}

// ---------------- black-listed paths ----------------

/// Refuses black-listed paths.
pub struct SaFirewallCheckHookForBlackPath {
    /// The black-listed paths.
    pub black_paths: Vec<String>,
}

impl SaFirewallCheckHookForBlackPath {
    /// The check with no black-listed path.
    pub fn instance() -> (r: Self)
        ensures
            r.black_paths@.len() == 0,
    {
        SaFirewallCheckHookForBlackPath { black_paths: Vec::new() }
    }

    /// Replaces the black-listed paths.
    pub fn reset_config(&mut self, paths: &[&str])
        ensures
            views(final(self).black_paths@) == paths@.map_values(|s: &str| s@),
    {
        self.black_paths = owned_list(paths);
    }
}

impl SaFirewallCheckHook for SaFirewallCheckHookForBlackPath {
    open spec fn verdict(&self, req: SaRequestForMock) -> CheckOutcome {
        let path = path_of(req.url_view());
        if views(self.black_paths@).contains(path) {
            CheckOutcome::PathInvalid("非法请求："@ + path)
        } else {
            CheckOutcome::Pass
        }
    }

    fn execute(&self, req: &SaRequestForMock, res: &SaResponseForMock) -> (r: Result<(), SaTokenException>) {
        let path = req.get_request_path();
        if holds(&self.black_paths, path.as_str()) {
            return Err(path_invalid("非法请求：", path.as_str()));
        }
        Ok(())
    }
}

// ---------------- dangerous characters ----------------

/// The dangerous pieces refused by default.
pub open spec fn default_danger_characters() -> Seq<Seq<char>> {
    seq![
        "//"@, "\\"@, "%2e"@, "%2E"@, "%2f"@, "%2F"@, "%5c"@, "%5C"@, ";"@, "%3b"@, "%3B"@, "%25"@,
        "\0"@, "%00"@, "\n"@, "%0a"@, "%0A"@, "\r"@, "%0d"@, "%0D"@, "\u{2028}"@, "\u{2029}"@,
    ]
}

/// Refuses paths that hold a dangerous piece.
pub struct SaFirewallCheckHookForPathDangerCharacter {
    /// The dangerous pieces.
    pub danger_character: Vec<String>,
}

impl SaFirewallCheckHookForPathDangerCharacter {
    /// The check with the default dangerous pieces.
    pub fn instance() -> (r: Self)
        ensures
            views(r.danger_character@) == default_danger_characters(),
    {
        let items: [&str; 22] = [
            "//", "\\", "%2e", "%2E", "%2f", "%2F", "%5c", "%5C", ";", "%3b", "%3B", "%25",
            "\0", "%00", "\n", "%0a", "%0A", "\r", "%0d", "%0D", "\u{2028}", "\u{2029}",
        ];
        let list = owned_list(&items);
        assert(items@.map_values(|s: &str| s@) =~= default_danger_characters());
        SaFirewallCheckHookForPathDangerCharacter { danger_character: list }
    }

    /// Replaces the dangerous pieces.
    pub fn reset_config(&mut self, character: &[&str])
        ensures
            views(final(self).danger_character@) == character@.map_values(|s: &str| s@),
    {
        self.danger_character = owned_list(character);
    }
}

impl SaFirewallCheckHook for SaFirewallCheckHookForPathDangerCharacter {
    open spec fn verdict(&self, req: SaRequestForMock) -> CheckOutcome {
        let path = path_of(req.url_view());
        if exists|i: int| 0 <= i < self.danger_character@.len() && has_infix(path, #[trigger] self.danger_character@[i]@) {
            CheckOutcome::PathInvalid("非法请求："@ + path)
        } else {
            CheckOutcome::Pass
        }
    }

    fn execute(&self, req: &SaRequestForMock, res: &SaResponseForMock) -> (r: Result<(), SaTokenException>) {
        let path = req.get_request_path();
        let mut i: usize = 0;
        while i < self.danger_character.len()
            invariant
                path@ == path_of(req.url_view()),
                i <= self.danger_character@.len(),
                forall|j: int| 0 <= j < i ==> !has_infix(path@, #[trigger] self.danger_character@[j]@),
            decreases self.danger_character@.len() - i,
        {
            if contains_str(path.as_str(), self.danger_character[i].as_str()) {
                assert(has_infix(path@, self.danger_character@[i as int]@));
                return Err(path_invalid("非法请求：", path.as_str()));
            }
            i += 1;
        }
        Ok(())
    }
}

// ---------------- banned characters ----------------

/// Refuses paths with control characters and, when configured, `%`.
pub struct SaFirewallCheckHookForPathBannedCharacter {
    /// Whether `%` is refused too.
    pub banned_percentage: bool,
}

impl SaFirewallCheckHookForPathBannedCharacter {
    /// The check that lets `%` through.
    pub fn instance() -> (r: Self)
        ensures
            !r.banned_percentage,
    {
        SaFirewallCheckHookForPathBannedCharacter { banned_percentage: false }
    }

    /// Sets whether `%` is refused.
    pub fn reset_config(&mut self, banned_percentage: bool)
        ensures
            final(self).banned_percentage == banned_percentage,
    {
        self.banned_percentage = banned_percentage;
    }
}

impl SaFirewallCheckHook for SaFirewallCheckHookForPathBannedCharacter {
    open spec fn verdict(&self, req: SaRequestForMock) -> CheckOutcome {
        let path = path_of(req.url_view());
        if spec_has_non_printable_ascii(path) {
            CheckOutcome::PathInvalid("请求 path 包含禁止字符："@ + path)
        } else if self.banned_percentage && path.contains('%') {
            CheckOutcome::PathInvalid("请求 path 包含禁止字符 %："@ + path)
        } else {
            CheckOutcome::Pass
        }
    }

    fn execute(&self, req: &SaRequestForMock, res: &SaResponseForMock) -> (r: Result<(), SaTokenException>) {
        let path = req.get_request_path();
        if has_non_printable_ascii(path.as_str()) {
            return Err(path_invalid("请求 path 包含禁止字符：", path.as_str()));
        }
        if self.banned_percentage && contains_char(path.as_str(), '%') {
            return Err(path_invalid("请求 path 包含禁止字符 %：", path.as_str()));
        }
        Ok(())
    }
}

// ---------------- directory traversal ----------------

/// A path piece is neither empty, `.` nor `..`.
pub open spec fn component_ok(c: Seq<char>) -> bool {
    c.len() > 0 && c != seq!['.'] && c != seq!['.', '.']
}

/// A path is valid: it begins with `/` and, unless it is `/`, each of its
/// pieces after the first is neither empty, `.` nor `..`.
pub open spec fn path_valid(path: Seq<char>) -> bool {
    path.len() > 0 && path[0] == '/' && (path == seq!['/'] || forall|i: int| 1 <= i < split_on(path, '/').len()
        ==> component_ok(#[trigger] split_on(path, '/')[i]))
}

/// Refuses paths that are not valid (see [`path_valid`]).
pub struct SaFirewallCheckHookForDirectoryTraversal;

impl SaFirewallCheckHookForDirectoryTraversal {
    /// The check.
    pub fn instance() -> (r: Self) {
        SaFirewallCheckHookForDirectoryTraversal
    }

    /// Whether a path is valid (see [`path_valid`]).
    pub fn is_path_valid(path: &str) -> (r: bool)
        ensures
            r == path_valid(path@),
    {
        let cs = chars_of(path);
        if cs.len() == 0 {
            return false;
        }
        if cs[0] != '/' {
            return false;
        }
        if cs.len() == 1 {
            assert(cs@ =~= seq!['/']);
            return true;
        }
        proof {
            assert(cs@ != seq!['/']) by {
                assert(seq!['/'].len() == 1);
            }
        }
        // The first piece is the empty one before the leading '/'.
        let mut cur: Vec<char> = Vec::new();
        let mut i: usize = 1;
        proof {
            let t1 = cs@.take(1);
            assert(t1.drop_last() =~= Seq::<char>::empty());
            assert(t1.last() == '/');
            assert(split_on(Seq::<char>::empty(), '/') =~= seq![Seq::<char>::empty()]);
            assert(split_on(t1, '/') =~= seq![Seq::<char>::empty(), Seq::<char>::empty()]);
        }
        while i < cs.len()
            invariant
                cs@ == path@,
                cs@.len() > 1,
                1 <= i <= cs@.len(),
                split_on(cs@.take(i as int), '/').len() >= 2,
                cur@ == split_on(cs@.take(i as int), '/').last(),
                forall|j: int| 1 <= j < split_on(cs@.take(i as int), '/').len() - 1
                    ==> component_ok(#[trigger] split_on(cs@.take(i as int), '/')[j]),
            decreases cs@.len() - i,
        {
            let ghost pre = split_on(cs@.take(i as int), '/');
            let ghost post = split_on(cs@.take(i + 1), '/');
            proof {
                assert(cs@.take(i + 1).drop_last() =~= cs@.take(i as int));
                assert(cs@.take(i + 1).last() == cs@[i as int]);
            }
            if cs[i] == '/' {
                let ok = cur.len() > 0 && !(cur.len() == 1 && cur[0] == '.')
                    && !(cur.len() == 2 && cur[0] == '.' && cur[1] == '.');
                proof {
                    if cur@.len() == 1 {
                        if cur@ == seq!['.'] { assert(cur@[0] == '.'); }
                        if cur@[0] == '.' { assert(cur@ =~= seq!['.']); }
                    }
                    if cur@.len() == 2 {
                        if cur@ == seq!['.', '.'] { assert(cur@[0] == '.' && cur@[1] == '.'); }
                        if cur@[0] == '.' && cur@[1] == '.' { assert(cur@ =~= seq!['.', '.']); }
                    }
                    if cur@.len() != 1 { assert(cur@ != seq!['.']); }
                    if cur@.len() != 2 { assert(cur@ != seq!['.', '.']); }
                    assert(ok == component_ok(pre.last()));
                    assert(post == pre.push(Seq::<char>::empty()));
                }
                if !ok {
                    proof {
                        crate::util::fox_util::lemma_split_on_len(cs@.take(i as int + 1), '/');
                        lemma_split_prefix_piece(cs@, i as int + 1, pre.len() - 1);
                        assert(split_on(cs@, '/')[pre.len() - 1] == pre.last());
                    }
                    return false;
                }
                cur = Vec::new();
                proof {
                    assert forall|j: int| 1 <= j < post.len() - 1 implies component_ok(#[trigger] post[j]) by {
                        assert(post[j] == pre[j]);
                    }
                }
            } else {
                let ghost before = cur@;
                cur.push(cs[i]);
                proof {
                    assert(post == pre.update(pre.len() - 1, pre.last().push(cs@[i as int])));
                    assert forall|j: int| 1 <= j < post.len() - 1 implies component_ok(#[trigger] post[j]) by {
                        assert(post[j] == pre[j]);
                    }
                }
            }
            i += 1;
        }
        proof {
            assert(cs@.take(cs@.len() as int) =~= cs@);
        }
        let last_ok = cur.len() > 0 && !(cur.len() == 1 && cur[0] == '.')
            && !(cur.len() == 2 && cur[0] == '.' && cur[1] == '.');
        proof {
            let parts = split_on(cs@, '/');
            if cur@.len() == 1 {
                if cur@ == seq!['.'] { assert(cur@[0] == '.'); }
                if cur@[0] == '.' { assert(cur@ =~= seq!['.']); }
            }
            if cur@.len() == 2 {
                if cur@ == seq!['.', '.'] { assert(cur@[0] == '.' && cur@[1] == '.'); }
                if cur@[0] == '.' && cur@[1] == '.' { assert(cur@ =~= seq!['.', '.']); }
            }
            if cur@.len() != 1 { assert(cur@ != seq!['.']); }
            if cur@.len() != 2 { assert(cur@ != seq!['.', '.']); }
            assert(last_ok == component_ok(parts.last()));
            if last_ok {
                assert forall|j: int| 1 <= j < parts.len() implies component_ok(#[trigger] parts[j]) by {
                    if j == parts.len() - 1 {
                    }
                }
            }
        }
        last_ok
    }
}

/// Each piece of a prefix but the last is the piece of the whole at the same position.
pub proof fn lemma_split_prefix_piece(s: Seq<char>, n: int, j: int)
    requires
        0 <= n <= s.len(),
        0 <= j < split_on(s.take(n), '/').len() - 1,
    ensures
        split_on(s, '/').len() > j,
        split_on(s, '/')[j] == split_on(s.take(n), '/')[j],
    decreases s.len() - n,
{
    if n < s.len() {
        let a = split_on(s.take(n), '/');
        let b = split_on(s.take(n + 1), '/');
        assert(s.take(n + 1).drop_last() =~= s.take(n));
        assert(s.take(n + 1).last() == s[n]);
        crate::util::fox_util::lemma_split_on_len(s.take(n), '/');
        if s[n] == '/' {
            assert(b == a.push(Seq::<char>::empty()));
        } else {
            assert(b == a.update(a.len() - 1, a.last().push(s[n])));
        }
        assert(b[j] == a[j]);
        lemma_split_prefix_piece(s, n + 1, j);
    } else {
        assert(s.take(n) =~= s);
    }
}

impl SaFirewallCheckHook for SaFirewallCheckHookForDirectoryTraversal {
    open spec fn verdict(&self, req: SaRequestForMock) -> CheckOutcome {
        let path = path_of(req.url_view());
        if !path_valid(path) { CheckOutcome::PathInvalid("非法请求："@ + path) } else { CheckOutcome::Pass }
    }

    fn execute(&self, req: &SaRequestForMock, res: &SaResponseForMock) -> (r: Result<(), SaTokenException>) {
        let path = req.get_request_path();
        if !Self::is_path_valid(path.as_str()) {
            return Err(path_invalid("非法请求：", path.as_str()));
        }
        Ok(())
    }
}

// ---------------- hosts ----------------

/// Refuses requests to hosts that are not allowed, when hosts are checked.
pub struct SaFirewallCheckHookForHost {
    /// Whether hosts are checked.
    pub is_check_host: bool,
    /// The allowed hosts, patterns with `*` included.
    pub allow_hosts: Vec<String>,
}

impl SaFirewallCheckHookForHost {
    /// The check that does not check hosts.
    pub fn instance() -> (r: Self)
        ensures
            !r.is_check_host,
            r.allow_hosts@.len() == 0,
    {
        SaFirewallCheckHookForHost { is_check_host: false, allow_hosts: Vec::new() }
    }

    /// Sets whether hosts are checked and which are allowed.
    pub fn reset_config(&mut self, is_check_host: bool, allow_hosts: &[&str])
        ensures
            final(self).is_check_host == is_check_host,
            views(final(self).allow_hosts@) == allow_hosts@.map_values(|s: &str| s@),
    {
        self.is_check_host = is_check_host;
        self.allow_hosts = owned_list(allow_hosts);
    }
}

impl SaFirewallCheckHook for SaFirewallCheckHookForHost {
    open spec fn verdict(&self, req: SaRequestForMock) -> CheckOutcome {
        if !self.is_check_host {
            CheckOutcome::Pass
        } else if !list_has_element(views(self.allow_hosts@), req.host_view()) {
            CheckOutcome::Firewall("非法请求 host："@ + req.host_view())
        } else {
            CheckOutcome::Pass
        }
    }

    fn execute(&self, req: &SaRequestForMock, res: &SaResponseForMock) -> (r: Result<(), SaTokenException>) {
        if !self.is_check_host {
            return Ok(());
        }
        let host = req.get_host();
        if !SaStrategy::instance().has_element(&self.allow_hosts, host.as_str()) {
            return Err(firewall_error("非法请求 host：", host.as_str()));
        }
        Ok(())
    }
}

// ---------------- methods ----------------

/// The code of the ASCII lower case of a character.
pub open spec fn ascii_lower(c: char) -> u32 {
    if 'A' <= c && c <= 'Z' { ((c as u32) + 32) as u32 } else { c as u32 }
}

/// Two texts are equal up to ASCII case.
pub open spec fn eq_ignore_ascii_case(a: Seq<char>, b: Seq<char>) -> bool {
    a.len() == b.len() && forall|i: int| 0 <= i < a.len() ==> ascii_lower(#[trigger] a[i]) == ascii_lower(b[i])
}

fn lower_char(c: char) -> (r: u32)
    ensures
        r == ascii_lower(c),
{
    if 'A' <= c && c <= 'Z' {
        (c as u32) + 32
    } else {
        c as u32
    }
}

/// Whether two texts are equal up to ASCII case.
fn str_eq_ignore_ascii_case(a: &str, b: &str) -> (r: bool)
    ensures
        r == eq_ignore_ascii_case(a@, b@),
{
    let x = chars_of(a);
    let y = chars_of(b);
    if x.len() != y.len() {
        return false;
    }
    let mut i: usize = 0;
    while i < x.len()
        invariant
            x@ == a@,
            y@ == b@,
            x@.len() == y@.len(),
            i <= x@.len(),
            forall|j: int| 0 <= j < i ==> ascii_lower(#[trigger] x@[j]) == ascii_lower(y@[j]),
        decreases x@.len() - i,
    {
        if lower_char(x[i]) != lower_char(y[i]) {
            return false;
        }
        i += 1;
    }
    true
}

/// The methods allowed by default.
pub open spec fn default_methods() -> Seq<Seq<char>> {
    seq!["GET"@, "POST"@, "PUT"@, "DELETE"@, "HEAD"@, "OPTIONS"@, "PATCH"@, "TRACE"@, "CONNECT"@]
}

/// Refuses requests whose method is not allowed, when methods are checked.
pub struct SaFirewallCheckHookForHttpMethod {
    /// Whether methods are checked.
    pub is_check_method: bool,
    /// The allowed methods, compared without regard to ASCII case.
    pub allow_methods: Vec<String>,
}

impl SaFirewallCheckHookForHttpMethod {
    /// The check of the nine standard methods.
    pub fn instance() -> (r: Self)
        ensures
            r.is_check_method,
            views(r.allow_methods@) == default_methods(),
    {
        let items: [&str; 9] = ["GET", "POST", "PUT", "DELETE", "HEAD", "OPTIONS", "PATCH", "TRACE", "CONNECT"];
        let list = owned_list(&items);
        assert(items@.map_values(|s: &str| s@) =~= default_methods());
        SaFirewallCheckHookForHttpMethod { is_check_method: true, allow_methods: list }
    }

    /// Sets whether methods are checked and which are allowed.
    pub fn reset_config(&mut self, is_check_method: bool, methods: &[&str])
        ensures
            final(self).is_check_method == is_check_method,
            views(final(self).allow_methods@) == methods@.map_values(|s: &str| s@),
    {
        self.is_check_method = is_check_method;
        self.allow_methods = owned_list(methods);
    }
}

impl SaFirewallCheckHook for SaFirewallCheckHookForHttpMethod {
    open spec fn verdict(&self, req: SaRequestForMock) -> CheckOutcome {
        if !self.is_check_method {
            CheckOutcome::Pass
        } else if !exists|i: int| 0 <= i < self.allow_methods@.len()
            && eq_ignore_ascii_case(#[trigger] self.allow_methods@[i]@, req.method_view()) {
            CheckOutcome::Firewall("非法请求 Method："@ + req.method_view())
        } else {
            CheckOutcome::Pass
        }
    }

    fn execute(&self, req: &SaRequestForMock, res: &SaResponseForMock) -> (r: Result<(), SaTokenException>) {
        if !self.is_check_method {
            return Ok(());
        }
        let method = req.get_method();
        let mut i: usize = 0;
        while i < self.allow_methods.len()
            invariant
                method@ == req.method_view(),
                i <= self.allow_methods@.len(),
                forall|j: int| 0 <= j < i ==> !eq_ignore_ascii_case(#[trigger] self.allow_methods@[j]@, method@),
            decreases self.allow_methods@.len() - i,
        {
            if str_eq_ignore_ascii_case(self.allow_methods[i].as_str(), method.as_str()) {
                assert(eq_ignore_ascii_case(self.allow_methods@[i as int]@, method@));
                return Ok(());
            }
            i += 1;
        }
        Err(firewall_error("非法请求 Method：", method.as_str()))
    }
}

/// Two characters are the same letter in either ASCII case, or equal.
pub open spec fn same_char_ignoring_ascii_case(a: char, b: char) -> bool {
    ||| a == b
    ||| ('A' <= a && a <= 'Z' && (b as u32) == (a as u32) + 32)
    ||| ('A' <= b && b <= 'Z' && (a as u32) == (b as u32) + 32)
}

/// Two texts of one length whose characters pair up as the same letter in
/// either ASCII case, or as equal characters.
pub open spec fn same_text_ignoring_ascii_case(a: Seq<char>, b: Seq<char>) -> bool {
    a.len() == b.len() && forall|k: int| 0 <= k < a.len() ==> same_char_ignoring_ascii_case(#[trigger] a[k], b[k])
}

/// Comparing characters by their ASCII lower case is comparing them up to
/// ASCII case.
proof fn lemma_ascii_lower_same(a: char, b: char)
    ensures
        (ascii_lower(a) == ascii_lower(b)) == same_char_ignoring_ascii_case(a, b),
{
    if 'A' <= a && a <= 'Z' {
        assert((a as u32) + 32 < 0xD800);
    }
    if 'A' <= b && b <= 'Z' {
        assert((b as u32) + 32 < 0xD800);
    }
}

/// The method check lets a request through exactly when methods are not
/// checked or its method is one of the allowed methods up to ASCII case,
/// whichever position that method holds in the list; otherwise it refuses
/// the request, naming its method.
pub proof fn law_http_method_allow_list(hook: SaFirewallCheckHookForHttpMethod, req: SaRequestForMock)
    ensures
        hook.verdict(req) == (if !hook.is_check_method || exists|i: int| 0 <= i < hook.allow_methods@.len()
            && same_text_ignoring_ascii_case(#[trigger] hook.allow_methods@[i]@, req.method_view()) {
            CheckOutcome::Pass
        } else {
            CheckOutcome::Firewall("非法请求 Method："@ + req.method_view())
        }),
{
    let m = req.method_view();
    let l = hook.allow_methods@;
    assert forall|i: int| 0 <= i < l.len() implies
        eq_ignore_ascii_case(#[trigger] l[i]@, m) == same_text_ignoring_ascii_case(l[i]@, m) by {
        let a = l[i]@;
        if a.len() == m.len() {
            assert forall|k: int| 0 <= k < a.len() implies
                (ascii_lower(#[trigger] a[k]) == ascii_lower(m[k])) == same_char_ignoring_ascii_case(a[k], m[k]) by {
                lemma_ascii_lower_same(a[k], m[k]);
            }
        }
    }
}

/// A request whose method is exactly one of the allowed methods, at any
/// position of the list, passes the method check.
pub proof fn law_http_method_listed_passes(hook: SaFirewallCheckHookForHttpMethod, req: SaRequestForMock, i: int)
    requires
        0 <= i < hook.allow_methods@.len(),
        hook.allow_methods@[i]@ == req.method_view(),
    ensures
        hook.verdict(req) == CheckOutcome::Pass,
{
    law_http_method_allow_list(hook, req);
    assert(same_text_ignoring_ascii_case(hook.allow_methods@[i]@, req.method_view()));
}

// ---------------- headers and parameters ----------------

/// Position of the first name that is a key of the map.
pub open spec fn first_present(names: Seq<Seq<char>>, m: Map<Seq<char>, Seq<char>>) -> Option<int>
    decreases names.len(),
{
    if names.len() == 0 {
        None
    } else {
        match first_present(names.drop_last(), m) {
            Some(i) => Some(i),
            None => if m.contains_key(names.last()) { Some(names.len() - 1) } else { None },
        }
    }
}

/// Refuses requests that carry a header that is not allowed.
pub struct SaFirewallCheckHookForHeader {
    /// Names of the headers not allowed.
    pub not_allow_header_names: Vec<String>,
}

impl SaFirewallCheckHookForHeader {
    /// The check with no header refused.
    pub fn instance() -> (r: Self)
        ensures
            r.not_allow_header_names@.len() == 0,
    {
        SaFirewallCheckHookForHeader { not_allow_header_names: Vec::new() }
    }

    /// Replaces the names of the headers not allowed.
    pub fn reset_config(&mut self, header_names: &[&str])
        ensures
            views(final(self).not_allow_header_names@) == header_names@.map_values(|s: &str| s@),
    {
        self.not_allow_header_names = owned_list(header_names);
    }
}

impl SaFirewallCheckHook for SaFirewallCheckHookForHeader {
    open spec fn verdict(&self, req: SaRequestForMock) -> CheckOutcome {
        let names = views(self.not_allow_header_names@);
        match first_present(names, req.headers_view()) {
            Some(i) => CheckOutcome::Firewall("非法请求头："@ + names[i]),
            None => CheckOutcome::Pass,
        }
    }

    fn execute(&self, req: &SaRequestForMock, res: &SaResponseForMock) -> (r: Result<(), SaTokenException>) {
        let names = &self.not_allow_header_names;
        let mut i: usize = 0;
        while i < names.len()
            invariant
                req.wf(),
                names@ == self.not_allow_header_names@,
                i <= names@.len(),
                first_present(views(names@).subrange(0, i as int), req.headers_view()) is None,
            decreases names@.len() - i,
        {
            proof {
                let sub = views(names@).subrange(0, i as int + 1);
                assert(sub.drop_last() =~= views(names@).subrange(0, i as int));
                assert(sub.last() == names@[i as int]@);
            }
            if req.get_header(names[i].as_str()).is_some() {
                proof {
                    let sub = views(names@).subrange(0, i as int + 1);
                    assert(req.headers_view().contains_key(sub.last()));
                    assert(first_present(sub, req.headers_view()) == Some(i as int));
                    lemma_first_present_prefix(views(names@), i as int + 1, req.headers_view());
                    assert(views(names@)[i as int] == names@[i as int]@);
                }
                return Err(firewall_error("非法请求头：", names[i].as_str()));
            }
            i += 1;
        }
        assert(views(names@).subrange(0, names@.len() as int) =~= views(names@));
        Ok(())
    }
}

/// A position found in a prefix is the position found in the whole.
pub proof fn lemma_first_present_prefix(names: Seq<Seq<char>>, n: int, m: Map<Seq<char>, Seq<char>>)
    requires
        0 <= n <= names.len(),
        first_present(names.subrange(0, n), m) is Some,
    ensures
        first_present(names, m) == first_present(names.subrange(0, n), m),
    decreases names.len() - n,
{
    if n < names.len() {
        assert(names.subrange(0, n + 1).drop_last() =~= names.subrange(0, n));
        lemma_first_present_prefix(names, n + 1, m);
    } else {
        assert(names.subrange(0, n) =~= names);
    }
}

/// Refuses requests that carry a parameter that is not allowed.
pub struct SaFirewallCheckHookForParameter {
    /// Names of the parameters not allowed.
    pub not_allow_parameter_names: Vec<String>,
}

impl SaFirewallCheckHookForParameter {
    /// The check with no parameter refused.
    pub fn instance() -> (r: Self)
        ensures
            r.not_allow_parameter_names@.len() == 0,
    {
        SaFirewallCheckHookForParameter { not_allow_parameter_names: Vec::new() }
    }

    /// Replaces the names of the parameters not allowed.
    pub fn reset_config(&mut self, parameter_names: &[&str])
        ensures
            views(final(self).not_allow_parameter_names@) == parameter_names@.map_values(|s: &str| s@),
    {
        self.not_allow_parameter_names = owned_list(parameter_names);
    }
}

impl SaFirewallCheckHook for SaFirewallCheckHookForParameter {
    open spec fn verdict(&self, req: SaRequestForMock) -> CheckOutcome {
        let names = views(self.not_allow_parameter_names@);
        match first_present(names, req.params_view()) {
            Some(i) => CheckOutcome::Firewall("非法请求参数："@ + names[i]),
            None => CheckOutcome::Pass,
        }
    }

    fn execute(&self, req: &SaRequestForMock, res: &SaResponseForMock) -> (r: Result<(), SaTokenException>) {
        let names = &self.not_allow_parameter_names;
        let mut i: usize = 0;
        while i < names.len()
            invariant
                req.wf(),
                names@ == self.not_allow_parameter_names@,
                i <= names@.len(),
                first_present(views(names@).subrange(0, i as int), req.params_view()) is None,
            decreases names@.len() - i,
        {
            proof {
                let sub = views(names@).subrange(0, i as int + 1);
                assert(sub.drop_last() =~= views(names@).subrange(0, i as int));
                assert(sub.last() == names@[i as int]@);
            }
            if req.get_param(names[i].as_str()).is_some() {
                proof {
                    let sub = views(names@).subrange(0, i as int + 1);
                    assert(req.params_view().contains_key(sub.last()));
                    assert(first_present(sub, req.params_view()) == Some(i as int));
                    lemma_first_present_prefix(views(names@), i as int + 1, req.params_view());
                    assert(views(names@)[i as int] == names@[i as int]@);
                }
                return Err(firewall_error("非法请求参数：", names[i].as_str()));
            }
            i += 1;
        }
        assert(views(names@).subrange(0, names@.len() as int) =~= views(names@));
        Ok(())
    }
}

// ---------------- the registered checks ----------------

/// One of the library's checks.
pub enum SaFirewallHook {
    WhitePath(SaFirewallCheckHookForWhitePath),
    BlackPath(SaFirewallCheckHookForBlackPath),
    PathDangerCharacter(SaFirewallCheckHookForPathDangerCharacter),
    PathBannedCharacter(SaFirewallCheckHookForPathBannedCharacter),
    DirectoryTraversal(SaFirewallCheckHookForDirectoryTraversal),
    Host(SaFirewallCheckHookForHost),
    HttpMethod(SaFirewallCheckHookForHttpMethod),
    Header(SaFirewallCheckHookForHeader),
    Parameter(SaFirewallCheckHookForParameter),
}

impl SaFirewallCheckHook for SaFirewallHook {
    open spec fn verdict(&self, req: SaRequestForMock) -> CheckOutcome {
        match self {
            SaFirewallHook::WhitePath(h) => h.verdict(req),
            SaFirewallHook::BlackPath(h) => h.verdict(req),
            SaFirewallHook::PathDangerCharacter(h) => h.verdict(req),
            SaFirewallHook::PathBannedCharacter(h) => h.verdict(req),
            SaFirewallHook::DirectoryTraversal(h) => h.verdict(req),
            SaFirewallHook::Host(h) => h.verdict(req),
            SaFirewallHook::HttpMethod(h) => h.verdict(req),
            SaFirewallHook::Header(h) => h.verdict(req),
            SaFirewallHook::Parameter(h) => h.verdict(req),
        }
    }

    fn execute(&self, req: &SaRequestForMock, res: &SaResponseForMock) -> (r: Result<(), SaTokenException>) {
        match self {
            SaFirewallHook::WhitePath(h) => h.execute(req, res),
            SaFirewallHook::BlackPath(h) => h.execute(req, res),
            SaFirewallHook::PathDangerCharacter(h) => h.execute(req, res),
            SaFirewallHook::PathBannedCharacter(h) => h.execute(req, res),
            SaFirewallHook::DirectoryTraversal(h) => h.execute(req, res),
            SaFirewallHook::Host(h) => h.execute(req, res),
            SaFirewallHook::HttpMethod(h) => h.execute(req, res),
            SaFirewallHook::Header(h) => h.execute(req, res),
            SaFirewallHook::Parameter(h) => h.execute(req, res),
        }
    }
}

} // verus!
