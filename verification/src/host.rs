//! Host addresses: parsing the `--host` argument and building API URLs.
use vstd::prelude::*;
use crate::text::{
    chars_of, decimal, ends_with_chars, has_prefix, has_suffix, owned, parse_u16, parse_unsigned, push_chars, push_decimal,
    push_str, split_in_two, split_in_two_chars, str_equal, str_starts_with, trim_end_char,
    trim_end_chars,
};

verus! {

/// Connection details parsed from a host argument.
#[derive(Debug, Clone)]
pub struct HostConfig {
    /// `http` or `https`.
    pub scheme: String,
    /// Host name or address, without scheme or port.
    pub host: String,
    /// Port number.
    pub port: u16,
    /// The URL clients connect to.
    pub full_url: String,
    /// `address:port` the server listens on.
    pub bind_address: String,
    /// Whether the argument was a full URL rather than `host:port`.
    pub from_url: bool,
}

/// The characters of each field of a [`HostConfig`].
pub struct HostView {
    pub scheme: Seq<char>,
    pub host: Seq<char>,
    pub port: u16,
    pub full_url: Seq<char>,
    pub bind_address: Seq<char>,
    pub from_url: bool,
}

impl View for HostConfig {
    type V = HostView;

    open spec fn view(&self) -> HostView {
        HostView {
            scheme: self.scheme@,
            host: self.host@,
            port: self.port,
            full_url: self.full_url@,
            bind_address: self.bind_address@,
            from_url: self.from_url,
        }
    }
}

/// Scheme, host and explicit port that the `url` crate finds in `text`, or
/// the text of its parse error.
pub uninterp spec fn url_components(text: Seq<char>) -> Result<
    (Seq<char>, Option<Seq<char>>, Option<u16>),
    Seq<char>,
>;

/// The characters of an optional string.
pub open spec fn opt_string_view(s: Option<String>) -> Option<Seq<char>> {
    match s {
        Some(t) => Some(t@),
        None => None,
    }
}

/// Parses `text` with `url::Url::parse` and returns its `scheme()`,
/// `host_str()` and `port()`, or the parse error's message.  Beyond the
/// naming of the result, it is claimed that the scheme of a parsed
/// `http://` or `https://` text is `http` or `https`, that `port()` never
/// reports the scheme's default port (80 for http, 443 for https), and that
/// `http://localhost:<port>` parses with host `localhost` and that port.
#[verifier::external_body]
fn parse_url(text: &str) -> (r: Result<(String, Option<String>, Option<u16>), String>)
    ensures
        match r {
            Ok((scheme, host, port)) => url_components(text@) == Ok::<
                (Seq<char>, Option<Seq<char>>, Option<u16>),
                Seq<char>,
            >((scheme@, opt_string_view(host), port)),
            Err(e) => url_components(text@) == Err::<
                (Seq<char>, Option<Seq<char>>, Option<u16>),
                Seq<char>,
            >(e@),
        },
        match r {
            Ok((scheme, host, port)) => (has_prefix(text@, "http://"@) ==> scheme@ == "http"@) && (
            has_prefix(text@, "https://"@) ==> scheme@ == "https"@) && match port {
                Some(n) => !(scheme@ == "http"@ && n == 80) && !(scheme@ == "https"@ && n == 443),
                None => true,
            },
            Err(_) => true,
        },
        forall|n: u16|
            text@ == "http://localhost:"@ + #[trigger] decimal(n as nat) ==> match r {
                Ok((scheme, host, port)) => scheme@ == "http"@ && opt_string_view(host) == Some(
                    "localhost"@,
                ) && port == (if n == 80 {
                    None::<u16>
                } else {
                    Some(n)
                }),
                Err(_) => false,
            },
{
    match url::Url::parse(text) {
        Ok(u) => Ok((u.scheme().to_string(), u.host_str().map(|h| h.to_string()), u.port())),
        Err(e) => Err(e.to_string()),
    }
}

/// The result of parsing a host argument.
pub open spec fn spec_parse_host(s: Seq<char>) -> Result<HostView, Seq<char>> {
    if has_prefix(s, "http://"@) || has_prefix(s, "https://"@) {
        match url_components(s) {
            Err(e) => Err("Invalid URL: "@ + e),
            Ok((scheme, host, port)) => match host {
                None => Err("Missing host in URL"@),
                Some(h) => if scheme != "https"@ && scheme != "http"@ {
                    Err("Unsupported scheme"@)
                } else {
                    let p: u16 = match port {
                        Some(p) => p,
                        None => if scheme == "https"@ { 443u16 } else { 80u16 },
                    };
                    let listen = if h == "localhost"@ { "127.0.0.1"@ } else { h };
                    Ok(HostView {
                        scheme,
                        host: h,
                        port: p,
                        full_url: s,
                        bind_address: listen + ":"@ + decimal(p as nat),
                        from_url: true,
                    })
                },
            },
        }
    } else {
        match split_in_two(s, ':') {
            None => Err("Host must be in format 'host:port' or a full URL"@),
            Some((h, p)) => match parse_unsigned(p, u16::MAX as nat) {
                None => Err("Invalid port number"@),
                Some(n) => Ok(HostView {
                    scheme: "http"@,
                    host: h,
                    port: n as u16,
                    full_url: "http://"@ + h + ":"@ + decimal(n),
                    bind_address: s,
                    from_url: false,
                }),
            },
        }
    }
}

impl HostConfig {
    /// Parses a host argument: either a full `http://` or `https://` URL
    /// (the port defaults to 80 or 443, and `localhost` listens on
    /// `127.0.0.1`), or `host:port`, which is served over plain http.
    pub fn from_str(s: &str) -> (r: Result<HostConfig, String>)
        ensures
            match r {
                Ok(c) => spec_parse_host(s@) == Ok::<HostView, Seq<char>>(c@),
                Err(e) => spec_parse_host(s@) == Err::<HostView, Seq<char>>(e@),
            },
            r matches Ok(c) ==> (c.scheme@ == "https"@ <==> has_prefix(s@, "https://"@)),
            r matches Ok(c) ==> c.scheme@ == (if has_prefix(s@, "https://"@) {
                "https"@
            } else {
                "http"@
            }),
            r matches Ok(c) ==> (c.from_url <==> (has_prefix(s@, "http://"@) || has_prefix(
                s@,
                "https://"@,
            ))),
            r matches Ok(c) ==> (!c.from_url ==> c.bind_address@ == s@),
            forall|n: u16|
                s@ == "http://localhost:"@ + #[trigger] decimal(n as nat) ==> (r matches Ok(c)
                    && c.port == n && c.bind_address@ == "127.0.0.1:"@ + decimal(n as nat) && c.host@
                    == "localhost"@ && c.scheme@ == "http"@ && c.from_url && c.full_url@ == s@),
    {
        proof {
            reveal_strlit("http://");
            reveal_strlit("https://");
            reveal_strlit("http");
            reveal_strlit("https");
            reveal_strlit("localhost");
            reveal_strlit("http://localhost:");
            reveal_strlit("127.0.0.1");
            reveal_strlit("127.0.0.1:");
            reveal_strlit(":");
            assert("http"@.len() == 4 && "https"@.len() == 5);
            assert(has_prefix(s@, "http://"@) ==> !has_prefix(s@, "https://"@)) by {
                if has_prefix(s@, "http://"@) && has_prefix(s@, "https://"@) {
                    assert(s@[4] == "http://"@[4]);
                    assert(s@[4] == "https://"@[4]);
                }
            }
            assert forall|n: u16| s@ == "http://localhost:"@ + #[trigger] decimal(n as nat) implies has_prefix(
                s@,
                "http://"@,
            ) by {
                assert(s@.subrange(0, 7) =~= "http://"@);
            }
        }
        if str_starts_with(s, "http://") || str_starts_with(s, "https://") {
            match parse_url(s) {
                Err(e) => {
                    let mut m = owned("Invalid URL: ");
                    push_str(&mut m, e.as_str());
                    Err(m)
                },
                Ok((scheme, host, port)) => match host {
                    None => Err(owned("Missing host in URL")),
                    Some(h) => {
                        let is_https = str_equal(scheme.as_str(), "https");
                        let is_http = str_equal(scheme.as_str(), "http");
                        if !is_https && !is_http {
                            return Err(owned("Unsupported scheme"));
                        }
                        let p: u16 = match port {
                            Some(p) => p,
                            None => if is_https { 443 } else { 80 },
                        };
                        let mut bind = if str_equal(h.as_str(), "localhost") {
                            owned("127.0.0.1")
                        } else {
                            owned(h.as_str())
                        };
                        push_str(&mut bind, ":");
                        push_decimal(&mut bind, p as u64);
                        assert(forall|n: u16| s@ == "http://localhost:"@ + #[trigger] decimal(n as nat) ==> p == n);
                        Ok(HostConfig {
                            scheme,
                            host: h,
                            port: p,
                            full_url: owned(s),
                            bind_address: bind,
                            from_url: true,
                        })
                    },
                },
            }
        } else {
            let chars = chars_of(s);
            match split_in_two_chars(chars.as_slice(), ':') {
                None => Err(owned("Host must be in format 'host:port' or a full URL")),
                Some((h, p)) => {
                    let mut ptext = String::new();
                    push_chars(&mut ptext, p.as_slice());
                    match parse_u16(ptext.as_str()) {
                        None => Err(owned("Invalid port number")),
                        Some(n) => {
                            let mut host = String::new();
                            push_chars(&mut host, h.as_slice());
                            let mut full = owned("http://");
                            push_chars(&mut full, h.as_slice());
                            push_str(&mut full, ":");
                            push_decimal(&mut full, n as u64);
                            Ok(HostConfig {
                                scheme: owned("http"),
                                host,
                                port: n,
                                full_url: full,
                                bind_address: owned(s),
                                from_url: false,
                            })
                        },
                    }
                },
            }
        }
    }

    /// The base URL clients should use: the full URL when the argument was
    /// one, `None` for `host:port`.
    pub open spec fn spec_base_url(self) -> Option<Seq<char>> {
        if self.from_url {
            Some(self.full_url@)
        } else {
            None
        }
    }

    /// The base URL clients should use: the full URL when the argument was
    /// one, `None` for `host:port`.
    pub fn base_url(&self) -> (r: Option<String>)
        ensures
            opt_string_view(r) == self.spec_base_url(),
    {
        if self.from_url {
            Some(self.full_url.clone())
        } else {
            None
        }
    }

    /// The address the server listens on.
    pub fn server_bind_address(&self) -> (r: &str)
        ensures
            r@ == self.bind_address@,
    {
        self.bind_address.as_str()
    }

    /// The server URL shown to users: the full URL when it names a scheme,
    /// otherwise `scheme://bind_address`.
    pub open spec fn spec_server_url(self) -> Seq<char> {
        if has_prefix(self.full_url@, "http://"@) || has_prefix(self.full_url@, "https://"@) {
            self.full_url@
        } else {
            self.scheme@ + "://"@ + self.bind_address@
        }
    }

    /// The server URL shown to users.
    pub fn server_url(&self) -> (r: String)
        ensures
            r@ == self.spec_server_url(),
    {
        if str_starts_with(self.full_url.as_str(), "http://") || str_starts_with(
            self.full_url.as_str(),
            "https://",
        ) {
            self.full_url.clone()
        } else {
            let mut u = owned(self.scheme.as_str());
            push_str(&mut u, "://");
            push_str(&mut u, self.bind_address.as_str());
            u
        }
    }

    /// The URL scheme.
    pub fn scheme(&self) -> (r: &str)
        ensures
            r@ == self.scheme@,
    {
        self.scheme.as_str()
    }

    /// Whether the scheme is `https`.
    pub fn is_https(&self) -> (r: bool)
        ensures
            r == (self.scheme@ == "https"@),
    {
        str_equal(self.scheme.as_str(), "https")
    }
}

/// The URL for an API path: `base` without trailing slashes when a base URL
/// is given; otherwise `host` without trailing slashes when it already names
/// an http or https scheme; otherwise `http://host:port`.  The path follows.
pub open spec fn spec_api_url(base_url: Option<Seq<char>>, host: Seq<char>, port: u16, path: Seq<char>) -> Seq<
    char,
> {
    match base_url {
        Some(b) => trim_end_char(b, '/') + path,
        None => if has_prefix(host, "http://"@) || has_prefix(host, "https://"@) {
            trim_end_char(host, '/') + path
        } else {
            "http://"@ + host + ":"@ + decimal(port as nat) + path
        },
    }
}

/// Removing trailing `c` keeps a prefix of `s` that does not end in `c`,
/// and everything removed is `c`.
proof fn lemma_trim_end_char(s: Seq<char>, c: char)
    ensures
        trim_end_char(s, c).len() <= s.len(),
        trim_end_char(s, c) == s.subrange(0, trim_end_char(s, c).len() as int),
        forall|i: int| trim_end_char(s, c).len() <= i < s.len() ==> s[i] == c,
        trim_end_char(s, c).len() == 0 || trim_end_char(s, c).last() != c,
    decreases s.len(),
{
    if s.len() > 0 && s.last() == c {
        lemma_trim_end_char(s.drop_last(), c);
        let t = trim_end_char(s.drop_last(), c);
        assert(s.drop_last().subrange(0, t.len() as int) =~= s.subrange(0, t.len() as int));
        assert forall|i: int| t.len() <= i < s.len() implies s[i] == c by {
            if i < s.len() - 1 {
                assert(s[i] == s.drop_last()[i]);
            }
        }
    } else {
        assert(s.subrange(0, s.len() as int) =~= s);
    }
}

/// `url` is the first `j` characters of `given` followed by `path`, where
/// only slashes follow those `j` characters and the last of them is not a
/// slash.
pub open spec fn given_without_trailing_slashes(url: Seq<char>, given: Seq<char>, path: Seq<char>, j: int) -> bool {
    &&& 0 <= j <= given.len()
    &&& url == given.subrange(0, j) + path
    &&& forall|i: int| j <= i < given.len() ==> given[i] == '/'
    &&& (j == 0 || given[j - 1] != '/')
}

/// The URL the caller gave: the base URL when there is one, else the host.
pub open spec fn given_url(base_url: Option<Seq<char>>, host: Seq<char>) -> Seq<char> {
    match base_url {
        Some(b) => b,
        None => host,
    }
}

/// A base URL, or else a host that already names `http://` or `https://`,
/// is used as given, only without trailing slashes, and the path follows
/// it: no scheme and no port are added.
pub proof fn api_url_keeps_a_given_url(base_url: Option<Seq<char>>, host: Seq<char>, port: u16, path: Seq<char>)
    requires
        base_url is Some || has_prefix(host, "http://"@) || has_prefix(host, "https://"@),
    ensures
        exists|j: int|
            #[trigger] given_without_trailing_slashes(
                spec_api_url(base_url, host, port, path),
                given_url(base_url, host),
                path,
                j,
            ),
{
    let given = given_url(base_url, host);
    lemma_trim_end_char(given, '/');
    let t = trim_end_char(given, '/');
    assert(spec_api_url(base_url, host, port, path) == t + path);
    let j = t.len() as int;
    assert(t == given.subrange(0, j));
    if j > 0 {
        assert(given[j - 1] == t.last());
    }
    assert(given_without_trailing_slashes(spec_api_url(base_url, host, port, path), given, path, j));
}

/// Without a base URL, a host that names no scheme is reached over plain
/// http at the given port: `http://<host>:<port>` followed by the path.
pub proof fn api_url_for_a_plain_host(host: Seq<char>, port: u16, path: Seq<char>)
    requires
        !has_prefix(host, "http://"@),
        !has_prefix(host, "https://"@),
    ensures
        spec_api_url(None, host, port, path) == "http://"@ + host + ":"@ + decimal(port as nat) + path,
{
}

/// The characters of an optional string slice.
pub open spec fn opt_str_view(s: Option<&str>) -> Option<Seq<char>> {
    match s {
        Some(t) => Some(t@),
        None => None,
    }
}

/// Builds the URL of an API path from either a base URL or a host and port.
pub fn build_api_url(base_url: Option<&str>, host: &str, port: u16, path: &str) -> (r: String)
    ensures
        r@ == spec_api_url(opt_str_view(base_url), host@, port, path@),
{
    match base_url {
        Some(b) => {
            let bc = chars_of(b);
            let t = trim_end_chars(bc.as_slice(), '/');
            let mut u = String::new();
            push_chars(&mut u, t.as_slice());
            push_str(&mut u, path);
            u
        },
        None => {
            if str_starts_with(host, "http://") || str_starts_with(host, "https://") {
                let hc = chars_of(host);
                let t = trim_end_chars(hc.as_slice(), '/');
                let mut u = String::new();
                push_chars(&mut u, t.as_slice());
                push_str(&mut u, path);
                u
            } else {
                let mut u = owned("http://");
                push_str(&mut u, host);
                push_str(&mut u, ":");
                push_decimal(&mut u, port as u64);
                push_str(&mut u, path);
                u
            }
        },
    }
}

} // verus!

verus! {

/// The port an environment value sets: its number when it parses as a
/// `u16`, `default` otherwise.
pub open spec fn spec_port_or(value: Option<Seq<char>>, default: u16) -> u16 {
    match value {
        Some(text) => match parse_unsigned(text, u16::MAX as nat) {
            Some(n) => n as u16,
            None => default,
        },
        None => default,
    }
}

/// The port from an environment value, or `default` when it is unset or
/// not a port number.
pub fn port_or(value: Option<&str>, default: u16) -> (r: u16)
    ensures
        r == spec_port_or(opt_str_view(value), default),
{
    match value {
        Some(t) => match parse_u16(t) {
            Some(p) => p,
            None => default,
        },
        None => default,
    }
}

/// The host from an environment value, or `default` when it is unset.
pub fn host_or(value: Option<&str>, default: &str) -> (r: String)
    ensures
        r@ == match opt_str_view(value) {
            Some(h) => h,
            None => default@,
        },
{
    match value {
        Some(h) => owned(h),
        None => owned(default),
    }
}

/// The host and port texts of a listen address of the form `host:port`
/// (exactly one `:`).
pub fn split_bind_address(bind: &str) -> (r: Option<(String, String)>)
    ensures
        match split_in_two(bind@, ':') {
            Some((h, p)) => r matches Some((a, b)) && a@ == h && b@ == p,
            None => r is None,
        },
{
    let chars = chars_of(bind);
    match split_in_two_chars(chars.as_slice(), ':') {
        Some((h, p)) => {
            let mut a = String::new();
            push_chars(&mut a, h.as_slice());
            let mut b = String::new();
            push_chars(&mut b, p.as_slice());
            Some((a, b))
        },
        None => None,
    }
}

/// The database file for a data path: the path itself when it names a
/// `.db` file, else `pulson.db` inside it.
pub fn database_file(path: &str) -> (r: String)
    ensures
        r@ == if has_suffix(path@, ".db"@) { path@ } else { path@ + "/pulson.db"@ },
{
    let v = chars_of(path);
    let suffix = chars_of(".db");
    if ends_with_chars(v.as_slice(), suffix.as_slice()) {
        owned(path)
    } else {
        let mut s = owned(path);
        push_str(&mut s, "/pulson.db");
        s
    }
}

} // verus!
