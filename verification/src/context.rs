//! The request, response and per-request storage the library reads tokens
//! from and writes tokens to.
use vstd::prelude::*;
use vstd::string::StringExecFns;
use crate::store::StrMap;
use crate::text::chars_of;
use crate::text::string_of;

verus! {

/// The part of a URL before the first `?`.
pub open spec fn path_of(url: Seq<char>) -> Seq<char>
    decreases url.len(),
{
    if url.len() == 0 {
        url
    } else if path_of(url.drop_last()).len() < url.len() - 1 {
        path_of(url.drop_last())
    } else if url.last() == '?' {
        url.drop_last()
    } else {
        url
    }
}

/// A cookie: a name and a value, with the attributes of its header.
pub struct SaCookie {
    /// Name.
    pub name: String,
    /// Value.
    pub value: String,
    /// Domain (none when empty).
    pub domain: String,
    /// Path (none when empty).
    pub path: String,
    /// Sent over secure connections only.
    pub secure: bool,
    /// Hidden from scripts.
    pub http_only: bool,
    /// Same-site policy (none when empty).
    pub same_site: Option<String>,
}

/// `; {name}={value}` when the value is given; nothing otherwise.
pub open spec fn cookie_attribute(name: Seq<char>, value: Seq<char>) -> Seq<char> {
    if value.len() > 0 { "; "@ + name + "="@ + value } else { Seq::<char>::empty() }
}

/// The `Set-Cookie` header of a cookie: `name=value`, then the domain,
/// path, secure flag, script flag and same-site policy that are set.
pub open spec fn cookie_header(c: SaCookie) -> Seq<char> {
    c.name@ + "="@ + c.value@
        + cookie_attribute("Domain"@, c.domain@)
        + cookie_attribute("Path"@, c.path@)
        + (if c.secure { "; Secure"@ } else { Seq::<char>::empty() })
        + (if c.http_only { "; HttpOnly"@ } else { Seq::<char>::empty() })
        + (match c.same_site { Some(s) => cookie_attribute("SameSite"@, s@), None => Seq::<char>::empty() })
}

/// Appends `; {name}={value}` when the value is not empty.
fn append_attribute(out: &mut String, name: &str, value: &str)
    ensures
        final(out)@ == old(out)@ + cookie_attribute(name@, value@),
{
    if !value.is_empty() {
        out.append("; ");
        out.append(name);
        out.append("=");
        out.append(value);
    } else {
        assert(old(out)@ + Seq::<char>::empty() =~= old(out)@);
    }
}

impl SaCookie {
    /// A cookie with this name and value and no attributes.
    pub fn new(name: &str, value: &str) -> (r: Self)
        ensures
            r.name@ == name@,
            r.value@ == value@,
            r.domain@ == Seq::<char>::empty(),
            r.path@ == Seq::<char>::empty(),
            !r.secure,
            !r.http_only,
            r.same_site is None,
    {
        SaCookie {
            name: name.to_owned(),
            value: value.to_owned(),
            domain: String::new(),
            path: String::new(),
            secure: false,
            http_only: false,
            same_site: None,
        }
    }

    /// Sets the path.
    pub fn set_path(&mut self, path: &str) -> (r: &mut Self)
        ensures
            r.path@ == path@,
            r.name == old(self).name,
            r.value == old(self).value,
            r.domain == old(self).domain,
            r.secure == old(self).secure,
            r.http_only == old(self).http_only,
            r.same_site == old(self).same_site,
            *final(self) == *final(r),
    {
        self.path = path.to_owned();
        self
    }

    /// Sets the domain.
    pub fn set_domain(&mut self, domain: &str) -> (r: &mut Self)
        ensures
            r.domain@ == domain@,
            r.name == old(self).name,
            r.value == old(self).value,
            r.path == old(self).path,
            r.secure == old(self).secure,
            r.http_only == old(self).http_only,
            r.same_site == old(self).same_site,
            *final(self) == *final(r),
    {
        self.domain = domain.to_owned();
        self
    }

    /// Sets the same-site policy.
    pub fn set_same_site(&mut self, same_site: &str) -> (r: &mut Self)
        ensures
            r.same_site matches Some(s) && s@ == same_site@,
            r.name == old(self).name,
            r.value == old(self).value,
            r.domain == old(self).domain,
            r.path == old(self).path,
            r.secure == old(self).secure,
            r.http_only == old(self).http_only,
            *final(self) == *final(r),
    {
        self.same_site = Some(same_site.to_owned());
        self
    }

    /// Sets whether the cookie is sent over secure connections only.
    pub fn set_secure(&mut self, secure: bool) -> (r: &mut Self)
        ensures
            r.secure == secure,
            r.name == old(self).name,
            r.value == old(self).value,
            r.domain == old(self).domain,
            r.path == old(self).path,
            r.http_only == old(self).http_only,
            r.same_site == old(self).same_site,
            *final(self) == *final(r),
    {
        self.secure = secure;
        self
    }

    /// Sets whether the cookie is hidden from scripts.
    pub fn set_http_only(&mut self, http_only: bool) -> (r: &mut Self)
        ensures
            r.http_only == http_only,
            r.name == old(self).name,
            r.value == old(self).value,
            r.domain == old(self).domain,
            r.path == old(self).path,
            r.secure == old(self).secure,
            r.same_site == old(self).same_site,
            *final(self) == *final(r),
    {
        self.http_only = http_only;
        self
    }

    /// The cookie's `Set-Cookie` header (see [`cookie_header`]); none for a
    /// cookie without a name.
    pub fn to_header_value(&self) -> (r: Option<String>)
        ensures
            self.name@.len() == 0 ==> r is None,
            self.name@.len() > 0 ==> (r matches Some(h) && h@ == cookie_header(*self)),
    {
        if self.name.as_str().is_empty() {
            return None;
        }
        let mut out = String::new();
        out.append(self.name.as_str());
        out.append("=");
        out.append(self.value.as_str());
        append_attribute(&mut out, "Domain", self.domain.as_str());
        append_attribute(&mut out, "Path", self.path.as_str());
        let ghost base = out@;
        if self.secure {
            out.append("; Secure");
        }
        let ghost with_secure = out@;
        if self.http_only {
            out.append("; HttpOnly");
        }
        let ghost with_http = out@;
        match &self.same_site {
            Some(s) => append_attribute(&mut out, "SameSite", s.as_str()),
            None => {},
        }
        proof {
            assert(with_secure =~= base + (if self.secure { "; Secure"@ } else { Seq::<char>::empty() }));
            assert(with_http =~= with_secure + (if self.http_only { "; HttpOnly"@ } else { Seq::<char>::empty() }));
            assert(out@ =~= with_http + (match self.same_site { Some(s) => cookie_attribute("SameSite"@, s@), None => Seq::<char>::empty() }));
        }
        Some(out)
    }
}

/// A request built in memory: URL, method, host, headers, parameters and cookies.
pub struct SaRequestForMock {
    url: String,
    method: String,
    host: String,
    headers: StrMap,
    params: StrMap,
    cookies: StrMap,
}

impl SaRequestForMock {
    /// Internal consistency.
    pub closed spec fn wf(&self) -> bool {
        self.headers.wf() && self.params.wf() && self.cookies.wf()
    }

    /// The URL.
    pub closed spec fn url_view(&self) -> Seq<char> {
        self.url@
    }

    /// The method.
    pub closed spec fn method_view(&self) -> Seq<char> {
        self.method@
    }

    /// The host.
    pub closed spec fn host_view(&self) -> Seq<char> {
        self.host@
    }

    /// Header name to value.
    pub closed spec fn headers_view(&self) -> Map<Seq<char>, Seq<char>> {
        self.headers@
    }

    /// Parameter name to value.
    pub closed spec fn params_view(&self) -> Map<Seq<char>, Seq<char>> {
        self.params@
    }

    /// Cookie name to value.
    pub closed spec fn cookies_view(&self) -> Map<Seq<char>, Seq<char>> {
        self.cookies@
    }

    /// An empty `GET` request to `/` on `localhost`.
    pub fn new() -> (r: Self)
        ensures
            r.wf(),
            r.url_view() == "/"@,
            r.method_view() == "GET"@,
            r.host_view() == "localhost"@,
            r.headers_view() == Map::<Seq<char>, Seq<char>>::empty(),
            r.params_view() == Map::<Seq<char>, Seq<char>>::empty(),
            r.cookies_view() == Map::<Seq<char>, Seq<char>>::empty(),
    {
        SaRequestForMock {
            url: "/".to_owned(),
            method: "GET".to_owned(),
            host: "localhost".to_owned(),
            headers: StrMap::new(),
            params: StrMap::new(),
            cookies: StrMap::new(),
        }
    }

    /// The same request with another URL.
    pub fn with_url(self, url: &str) -> (r: Self)
        requires
            self.wf(),
        ensures
            r.wf(),
            r.url_view() == url@,
            r.method_view() == self.method_view(),
            r.host_view() == self.host_view(),
            r.headers_view() == self.headers_view(),
            r.params_view() == self.params_view(),
            r.cookies_view() == self.cookies_view(),
    {
        SaRequestForMock { url: url.to_owned(), ..self }
    }

    /// The same request with another method.
    pub fn with_method(self, method: &str) -> (r: Self)
        requires
            self.wf(),
        ensures
            r.wf(),
            r.url_view() == self.url_view(),
            r.method_view() == method@,
            r.host_view() == self.host_view(),
            r.headers_view() == self.headers_view(),
            r.params_view() == self.params_view(),
            r.cookies_view() == self.cookies_view(),
    {
        SaRequestForMock { method: method.to_owned(), ..self }
    }

    /// The same request with another host.
    pub fn with_host(self, host: &str) -> (r: Self)
        requires
            self.wf(),
        ensures
            r.wf(),
            r.url_view() == self.url_view(),
            r.method_view() == self.method_view(),
            r.host_view() == host@,
            r.headers_view() == self.headers_view(),
            r.params_view() == self.params_view(),
            r.cookies_view() == self.cookies_view(),
    {
        SaRequestForMock { host: host.to_owned(), ..self }
    }

    /// The same request with a header set.
    pub fn with_header(self, name: &str, value: &str) -> (r: Self)
        requires
            self.wf(),
        ensures
            r.wf(),
            r.url_view() == self.url_view(),
            r.method_view() == self.method_view(),
            r.host_view() == self.host_view(),
            r.headers_view() == self.headers_view().insert(name@, value@),
            r.params_view() == self.params_view(),
            r.cookies_view() == self.cookies_view(),
    {
        let mut r = self;
        r.headers.insert(name, value);
        r
    }

    /// The same request with a query parameter set.
    pub fn with_query(self, name: &str, value: &str) -> (r: Self)
        requires
            self.wf(),
        ensures
            r.wf(),
            r.url_view() == self.url_view(),
            r.method_view() == self.method_view(),
            r.host_view() == self.host_view(),
            r.headers_view() == self.headers_view(),
            r.params_view() == self.params_view().insert(name@, value@),
            r.cookies_view() == self.cookies_view(),
    {
        let mut r = self;
        r.params.insert(name, value);
        r
    }

    /// The same request with a cookie set.
    pub fn with_cookie(self, name: &str, value: &str) -> (r: Self)
        requires
            self.wf(),
        ensures
            r.wf(),
            r.url_view() == self.url_view(),
            r.method_view() == self.method_view(),
            r.host_view() == self.host_view(),
            r.headers_view() == self.headers_view(),
            r.params_view() == self.params_view(),
            r.cookies_view() == self.cookies_view().insert(name@, value@),
    {
        let mut r = self;
        r.cookies.insert(name, value);
        r
    }

    /// The header's value.
    pub fn get_header(&self, name: &str) -> (r: Option<String>)
        requires
            self.wf(),
        ensures
            match r {
                Some(v) => self.headers_view().contains_key(name@) && self.headers_view()[name@] == v@,
                None => !self.headers_view().contains_key(name@),
            },
    {
        self.headers.get(name)
    }

    /// The parameter's value.
    pub fn get_param(&self, name: &str) -> (r: Option<String>)
        requires
            self.wf(),
        ensures
            match r {
                Some(v) => self.params_view().contains_key(name@) && self.params_view()[name@] == v@,
                None => !self.params_view().contains_key(name@),
            },
    {
        self.params.get(name)
    }

    /// The cookie's value.
    pub fn get_cookie_value(&self, name: &str) -> (r: Option<String>)
        requires
            self.wf(),
        ensures
            match r {
                Some(v) => self.cookies_view().contains_key(name@) && self.cookies_view()[name@] == v@,
                None => !self.cookies_view().contains_key(name@),
            },
    {
        self.cookies.get(name)
    }

    /// The parameter's value, or the default when it is absent.
    pub fn get_param_or_default(&self, name: &str, default_value: &str) -> (r: String)
        requires
            self.wf(),
        ensures
            r@ == (if self.params_view().contains_key(name@) { self.params_view()[name@] } else { default_value@ }),
    {
        match self.params.get(name) {
            Some(v) => v,
            None => default_value.to_owned(),
        }
    }

    /// Whether the parameter is present with this value.
    pub fn is_param(&self, name: &str, value: &str) -> (r: bool)
        requires
            self.wf(),
        ensures
            r == (self.params_view().contains_key(name@) && self.params_view()[name@] == value@),
    {
        match self.params.get(name) {
            Some(v) => crate::text::str_eq(v.as_str(), value),
            None => false,
        }
    }

    /// Whether the parameter is present.
    pub fn has_param(&self, name: &str) -> (r: bool)
        requires
            self.wf(),
        ensures
            r == self.params_view().contains_key(name@),
    {
        self.params.get(name).is_some()
    }

    /// Whether the request was made by script: it carries the
    /// `X-Requested-With` header.
    pub fn is_ajax(&self) -> (r: bool)
        requires
            self.wf(),
        ensures
            r == self.headers_view().contains_key("X-Requested-With"@),
    {
        self.headers.get("X-Requested-With").is_some()
    }

    /// The URL.
    pub fn get_url(&self) -> (r: String)
        ensures
            r@ == self.url_view(),
    {
        self.url.clone()
    }

    /// The method.
    pub fn get_method(&self) -> (r: String)
        ensures
            r@ == self.method_view(),
    {
        self.method.clone()
    }

    /// The host.
    pub fn get_host(&self) -> (r: String)
        ensures
            r@ == self.host_view(),
    {
        self.host.clone()
    }

    /// The path: the URL up to its first `?`.
    pub fn get_request_path(&self) -> (r: String)
        ensures
            r@ == path_of(self.url_view()),
    {
        let cs = chars_of(self.url.as_str());
        let mut i: usize = 0;
        while i < cs.len()
            invariant
                cs@ == self.url@,
                i <= cs@.len(),
                forall|j: int| 0 <= j < i ==> cs@[j] != '?',
                path_of(cs@.subrange(0, i as int)) == cs@.subrange(0, i as int),
            decreases cs@.len() - i,
        {
            if cs[i] == '?' {
                proof {
                    let s = cs@.subrange(0, i as int + 1);
                    assert(s.drop_last() =~= cs@.subrange(0, i as int));
                    lemma_path_prefix(cs@, i as int);
                }
                let path = string_of(&cs.as_slice()[0..i]);
                return path;
            }
            proof {
                let s = cs@.subrange(0, i as int + 1);
                assert(s.drop_last() =~= cs@.subrange(0, i as int));
            }
            i += 1;
        }
        assert(cs@.subrange(0, cs@.len() as int) =~= cs@);
        self.url.clone()
    }
}

/// The path of a URL whose first `?` is at `i` ends right before it.
pub proof fn lemma_path_prefix(url: Seq<char>, i: int)
    requires
        0 <= i < url.len(),
        url[i] == '?',
        forall|j: int| 0 <= j < i ==> url[j] != '?',
        path_of(url.subrange(0, i)) == url.subrange(0, i),
    ensures
        path_of(url) == url.subrange(0, i),
    decreases url.len(),
{
    if url.len() == i + 1 {
        assert(url.drop_last() =~= url.subrange(0, i));
    } else {
        assert(url.drop_last().subrange(0, i) =~= url.subrange(0, i));
        lemma_path_prefix(url.drop_last(), i);
    }
}

/// A response built in memory: headers and cookies.
pub struct SaResponseForMock {
    headers: StrMap,
    cookies: Vec<SaCookie>,
}

impl SaResponseForMock {
    /// Internal consistency.
    pub closed spec fn wf(&self) -> bool {
        self.headers.wf()
    }

    /// Header name to value.
    pub closed spec fn headers_view(&self) -> Map<Seq<char>, Seq<char>> {
        self.headers@
    }

    /// The cookies added, in order, as (name, value).
    pub closed spec fn cookies_view(&self) -> Seq<(Seq<char>, Seq<char>)> {
        self.cookies@.map_values(|c: SaCookie| (c.name@, c.value@))
    }

    /// A response without headers or cookies.
    pub fn new() -> (r: Self)
        ensures
            r.wf(),
            r.headers_view() == Map::<Seq<char>, Seq<char>>::empty(),
            r.cookies_view() == Seq::<(Seq<char>, Seq<char>)>::empty(),
    {
        let r = SaResponseForMock { headers: StrMap::new(), cookies: Vec::new() };
        assert(r.cookies_view() =~= Seq::<(Seq<char>, Seq<char>)>::empty());
        r
    }

    /// Sets a header.
    pub fn set_header(&mut self, name: &str, value: &str)
        requires
            old(self).wf(),
        ensures
            final(self).wf(),
            final(self).headers_view() == old(self).headers_view().insert(name@, value@),
            final(self).cookies_view() == old(self).cookies_view(),
    {
        self.headers.insert(name, value);
    }

    /// Adds a cookie.
    pub fn add_cookie(&mut self, cookie: SaCookie)
        requires
            old(self).wf(),
        ensures
            final(self).wf(),
            final(self).headers_view() == old(self).headers_view(),
            final(self).cookies_view() == old(self).cookies_view().push((cookie.name@, cookie.value@)),
    {
        let ghost c = (cookie.name@, cookie.value@);
        self.cookies.push(cookie);
        assert(self.cookies_view() =~= old(self).cookies_view().push(c));
    }

    /// The header's value.
    pub fn get_header(&self, name: &str) -> (r: Option<String>)
        requires
            self.wf(),
        ensures
            match r {
                Some(v) => self.headers_view().contains_key(name@) && self.headers_view()[name@] == v@,
                None => !self.headers_view().contains_key(name@),
            },
    {
        self.headers.get(name)
    }

    /// The number of cookies added.
    pub fn cookie_count(&self) -> (r: usize)
        ensures
            r == self.cookies_view().len(),
    {
        self.cookies.len()
    }
}

/// Storage that lives as long as one request.
pub struct SaStorageForMock {
    entries: StrMap,
}

impl SaStorageForMock {
    /// Internal consistency.
    pub closed spec fn wf(&self) -> bool {
        self.entries.wf()
    }

    /// Key to value.
    pub closed spec fn view_map(&self) -> Map<Seq<char>, Seq<char>> {
        self.entries@
    }

    /// Empty storage.
    pub fn new() -> (r: Self)
        ensures
            r.wf(),
            r.view_map() == Map::<Seq<char>, Seq<char>>::empty(),
    {
        SaStorageForMock { entries: StrMap::new() }
    }

    /// Stores the value under the key.
    pub fn set(&mut self, key: &str, value: &str)
        requires
            old(self).wf(),
        ensures
            final(self).wf(),
            final(self).view_map() == old(self).view_map().insert(key@, value@),
    {
        self.entries.insert(key, value);
    }

    /// The value under the key.
    pub fn get(&self, key: &str) -> (r: Option<String>)
        requires
            self.wf(),
        ensures
            match r {
                Some(v) => self.view_map().contains_key(key@) && self.view_map()[key@] == v@,
                None => !self.view_map().contains_key(key@),
            },
    {
        self.entries.get(key)
    }

    /// Removes the key.
    pub fn delete(&mut self, key: &str)
        requires
            old(self).wf(),
        ensures
            final(self).wf(),
            final(self).view_map() == old(self).view_map().remove(key@),
    {
        self.entries.remove(key);
    }
}

/// The request, response and storage of the current request; an invalid
/// context has none.
pub struct SaTokenContext {
    /// Whether there is a current request.
    pub valid: bool,
    /// The request.
    pub request: SaRequestForMock,
    /// The response.
    pub response: SaResponseForMock,
    /// The per-request storage.
    pub storage: SaStorageForMock,
}

impl SaTokenContext {
    /// Internal consistency.
    pub open spec fn wf(&self) -> bool {
        self.request.wf() && self.response.wf() && self.storage.wf()
    }

    /// A valid context around this request, with an empty response and storage.
    pub fn new(request: SaRequestForMock) -> (r: Self)
        requires
            request.wf(),
        ensures
            r.wf(),
            r.valid,
            r.request == request,
            r.response.headers_view() == Map::<Seq<char>, Seq<char>>::empty(),
            r.response.cookies_view() == Seq::<(Seq<char>, Seq<char>)>::empty(),
            r.storage.view_map() == Map::<Seq<char>, Seq<char>>::empty(),
    {
        SaTokenContext { valid: true, request, response: SaResponseForMock::new(), storage: SaStorageForMock::new() }
    }

    /// A context with no current request.
    pub fn invalid() -> (r: Self)
        ensures
            r.wf(),
            !r.valid,
            r.request.url_view() == "/"@,
            r.request.method_view() == "GET"@,
            r.request.host_view() == "localhost"@,
            r.request.headers_view() == Map::<Seq<char>, Seq<char>>::empty(),
            r.request.params_view() == Map::<Seq<char>, Seq<char>>::empty(),
            r.request.cookies_view() == Map::<Seq<char>, Seq<char>>::empty(),
            r.response.headers_view() == Map::<Seq<char>, Seq<char>>::empty(),
            r.response.cookies_view() == Seq::<(Seq<char>, Seq<char>)>::empty(),
            r.storage.view_map() == Map::<Seq<char>, Seq<char>>::empty(),
    {
        SaTokenContext {
            valid: false,
            request: SaRequestForMock::new(),
            response: SaResponseForMock::new(),
            storage: SaStorageForMock::new(),
        }
    }

    /// Whether there is a current request.
    pub fn is_valid(&self) -> (r: bool)
        ensures
            r == self.valid,
    {
        self.valid
    }
}

} // verus!
