//! Proxy resolution. The decision logic is here, verified: reading the
//! platform proxy database's text output (host, port, enabled flag,
//! exception list, in HTTPS/HTTP/SOCKS priority) and falling back to the
//! proxy environment variables in their fixed priority order. Querying the
//! platform and reading the environment happen outside the library; their
//! raw values are handed in.
use crate::num::{parse_uint_spec, u64_digits};
use crate::text::{
    find_char, has_prefix, join_char, split_char, split_str_lines, str_find_char, str_has_prefix,
    trim_str, trimmed,
};
use vstd::prelude::*;

verus! {

/// Where a proxy decision came from.
#[derive(Clone, Copy, PartialEq, Eq, Structural)]
pub enum ProxySource {
    System,
    Env,
}

/// A resolved proxy: its URL, where it came from, and the hosts excepted
/// from it.
#[derive(Clone)]
pub struct ProxySetting {
    pub url: String,
    pub source: ProxySource,
    pub no_proxy: Option<String>,
}

#[verifier::ext_equal]
pub ghost struct ProxySettingView {
    pub url: Seq<char>,
    pub source: ProxySource,
    pub no_proxy: Option<Seq<char>>,
}

impl View for ProxySetting {
    type V = ProxySettingView;

    open spec fn view(&self) -> ProxySettingView {
        ProxySettingView {
            url: self.url@,
            source: self.source,
            no_proxy: self.no_proxy.deep_view(),
        }
    }
}

impl DeepView for ProxySetting {
    type V = ProxySettingView;

    open spec fn deep_view(&self) -> ProxySettingView {
        self.view()
    }
}

/// The value of the first line whose trimmed text starts with `key` and
/// carries a colon: what follows the colon, trimmed.
pub open spec fn scutil_value_lines(lines: Seq<Seq<char>>, key: Seq<char>) -> Option<Seq<char>>
    decreases lines.len(),
{
    if lines.len() == 0 {
        None
    } else {
        let l = trimmed(lines[0]);
        if has_prefix(l, key) && find_char(l, ':') >= 0 {
            Some(trimmed(l.subrange(find_char(l, ':') + 1, l.len() as int)))
        } else {
            scutil_value_lines(lines.drop_first(), key)
        }
    }
}

pub open spec fn scutil_value_spec(text: Seq<char>, key: Seq<char>) -> Option<Seq<char>> {
    scutil_value_lines(split_char(text, '\n'), key)
}

/// Reads one key's value out of the platform proxy database's text
/// output.
#[verifier::loop_isolation(false)]
pub fn scutil_value(text: &str, key: &str) -> (r: Option<String>)
    ensures
        r.deep_view() == scutil_value_spec(text@, key@),
{
    let lines = split_str_lines(text);
    let n = lines.len();
    let mut j: usize = 0;
    proof {
        assert(lines.deep_view().subrange(0, n as int) =~= lines.deep_view());
    }
    while j < n
        invariant
            0 <= j <= n,
            n == lines@.len(),
            scutil_value_spec(text@, key@) == scutil_value_lines(
                lines.deep_view().subrange(j as int, n as int),
                key@,
            ),
        decreases n - j,
    {
        let ghost suffix = lines.deep_view().subrange(j as int, n as int);
        proof {
            assert(suffix[0] == lines.deep_view()[j as int]);
            assert(suffix.drop_first() =~= lines.deep_view().subrange(j + 1, n as int));
        }
        let l = trim_str(lines[j].as_str());
        if str_has_prefix(l, key) {
            if let Some(p) = str_find_char(l, ':') {
                proof {
                    crate::text::lemma_find_char(l@, ':');
                }
                let ll = l.unicode_len();
                let v = trim_str(l.substring_char(p + 1, ll));
                return Some(v.to_owned());
            }
        }
        j = j + 1;
    }
    assert(lines.deep_view().subrange(n as int, n as int) =~= Seq::<Seq<char>>::empty());
    None
}

/// One proxy kind's URL from the database text: present only when its
/// enabled flag parses non-zero, its host is non-empty and its port
/// parses non-zero; then `scheme://host:port`.
pub open spec fn scutil_proxy_url_spec(
    text: Seq<char>,
    enabled_key: Seq<char>,
    host_key: Seq<char>,
    port_key: Seq<char>,
    scheme: Seq<char>,
) -> Option<Seq<char>> {
    match scutil_value_spec(text, enabled_key) {
        Some(e) => match parse_uint_spec(e, 255) {
            Some(en) => if en == 0 {
                None
            } else {
                match scutil_value_spec(text, host_key) {
                    Some(host) => if host.len() == 0 {
                        None
                    } else {
                        match scutil_value_spec(text, port_key) {
                            Some(p) => match parse_uint_spec(p, 65535) {
                                Some(port) => if port == 0 {
                                    None
                                } else {
                                    Some(
                                        scheme + "://"@ + host + ":"@ + u64_digits(port as int),
                                    )
                                },
                                None => None,
                            },
                            None => None,
                        }
                    },
                    None => None,
                }
            },
            None => None,
        },
        None => None,
    }
}

/// Reads one proxy kind out of the database text.
pub fn scutil_proxy_url(
    text: &str,
    enabled_key: &str,
    host_key: &str,
    port_key: &str,
    scheme: &str,
) -> (r: Option<String>)
    ensures
        r.deep_view() == scutil_proxy_url_spec(text@, enabled_key@, host_key@, port_key@, scheme@),
{
    let enabled = match scutil_value(text, enabled_key) {
        Some(e) => match crate::num::parse_uint(e.as_str(), 255) {
            Some(en) => en,
            None => {
                return None;
            },
        },
        None => {
            return None;
        },
    };
    if enabled == 0 {
        return None;
    }
    let host = match scutil_value(text, host_key) {
        Some(h) => h,
        None => {
            return None;
        },
    };
    if host.as_str().unicode_len() == 0 {
        return None;
    }
    let port = match scutil_value(text, port_key) {
        Some(p) => match crate::num::parse_uint(p.as_str(), 65535) {
            Some(port) => port,
            None => {
                return None;
            },
        },
        None => {
            return None;
        },
    };
    if port == 0 {
        return None;
    }
    let mut out = String::new();
    out.append(scheme);
    out.append("://");
    out.append(host.as_str());
    out.append(":");
    let digits = crate::num::u64_to_string(port);
    out.append(digits.as_str());
    assert(out@ =~= scheme@ + "://"@ + host@ + ":"@ + u64_digits(port as int));
    Some(out)
}

/// The system proxy in HTTPS, HTTP, SOCKS priority.
pub open spec fn parse_scutil_proxy_spec(text: Seq<char>) -> Option<Seq<char>> {
    match scutil_proxy_url_spec(
        text,
        "HTTPSEnable"@,
        "HTTPSProxy"@,
        "HTTPSPort"@,
        "http"@,
    ) {
        Some(u) => Some(u),
        None => match scutil_proxy_url_spec(
            text,
            "HTTPEnable"@,
            "HTTPProxy"@,
            "HTTPPort"@,
            "http"@,
        ) {
            Some(u) => Some(u),
            None => scutil_proxy_url_spec(
                text,
                "SOCKSEnable"@,
                "SOCKSProxy"@,
                "SOCKSPort"@,
                "socks5"@,
            ),
        },
    }
}

/// Picks the proxy URL out of the database text, trying HTTPS, then HTTP,
/// then SOCKS.
pub fn parse_scutil_proxy(text: &str) -> (r: Option<String>)
    ensures
        r.deep_view() == parse_scutil_proxy_spec(text@),
{
    if let Some(u) = scutil_proxy_url(text, "HTTPSEnable", "HTTPSProxy", "HTTPSPort", "http") {
        return Some(u);
    }
    if let Some(u) = scutil_proxy_url(text, "HTTPEnable", "HTTPProxy", "HTTPPort", "http") {
        return Some(u);
    }
    scutil_proxy_url(text, "SOCKSEnable", "SOCKSProxy", "SOCKSPort", "socks5")
}

/// The non-blank values listed after an `ExceptionsList` line, up to the
/// closing brace.
pub open spec fn exceptions_from(lines: Seq<Seq<char>>) -> Seq<Seq<char>>
    decreases lines.len(),
{
    if lines.len() == 0 {
        Seq::<Seq<char>>::empty()
    } else {
        let l = trimmed(lines[0]);
        if l.len() > 0 && l[0] == '}' {
            Seq::<Seq<char>>::empty()
        } else {
            let rest = exceptions_from(lines.drop_first());
            if find_char(l, ':') >= 0 && trimmed(
                l.subrange(find_char(l, ':') + 1, l.len() as int),
            ).len() > 0 {
                seq![trimmed(l.subrange(find_char(l, ':') + 1, l.len() as int))] + rest
            } else {
                rest
            }
        }
    }
}

pub open spec fn scutil_exceptions(lines: Seq<Seq<char>>) -> Seq<Seq<char>>
    decreases lines.len(),
{
    if lines.len() == 0 {
        Seq::<Seq<char>>::empty()
    } else if has_prefix(trimmed(lines[0]), "ExceptionsList"@) {
        exceptions_from(lines.drop_first())
    } else {
        scutil_exceptions(lines.drop_first())
    }
}

/// The database's proxy exception list as a comma-separated text, absent
/// when the list is missing or empty.
pub open spec fn parse_scutil_no_proxy_spec(text: Seq<char>) -> Option<Seq<char>> {
    let vals = scutil_exceptions(split_char(text, '\n'));
    if vals.len() == 0 {
        None
    } else {
        Some(join_char(vals, ','))
    }
}

/// Reads the proxy exception list out of the database text.
#[verifier::loop_isolation(false)]
pub fn parse_scutil_no_proxy(text: &str) -> (r: Option<String>)
    ensures
        r.deep_view() == parse_scutil_no_proxy_spec(text@),
{
    let lines = split_str_lines(text);
    let n = lines.len();
    let mut j: usize = 0;
    proof {
        assert(lines.deep_view().subrange(0, n as int) =~= lines.deep_view());
    }
    while j < n
        invariant
            0 <= j <= n,
            n == lines@.len(),
            scutil_exceptions(split_char(text@, '\n')) == scutil_exceptions(
                lines.deep_view().subrange(j as int, n as int),
            ),
        decreases n - j,
    {
        let ghost suffix = lines.deep_view().subrange(j as int, n as int);
        proof {
            assert(suffix[0] == lines.deep_view()[j as int]);
            assert(suffix.drop_first() =~= lines.deep_view().subrange(j + 1, n as int));
        }
        let l = trim_str(lines[j].as_str());
        if str_has_prefix(l, "ExceptionsList") {
            // Collect the values until the closing brace.
            let mut vals: Vec<String> = Vec::new();
            let mut k: usize = j + 1;
            while k < n
                invariant
                    j + 1 <= k <= n,
                    n == lines@.len(),
                    exceptions_from(lines.deep_view().subrange(j + 1, n as int)) == vals.deep_view()
                        + exceptions_from(lines.deep_view().subrange(k as int, n as int)),
                decreases n - k,
            {
                let ghost inner = lines.deep_view().subrange(k as int, n as int);
                proof {
                    assert(inner[0] == lines.deep_view()[k as int]);
                    assert(inner.drop_first() =~= lines.deep_view().subrange(k + 1, n as int));
                }
                let il = trim_str(lines[k].as_str());
                if il.unicode_len() > 0 && il.get_char(0) == '}' {
                    break ;
                }
                if let Some(p) = str_find_char(il, ':') {
                    proof {
                        crate::text::lemma_find_char(il@, ':');
                    }
                    let ill = il.unicode_len();
                    let item = trim_str(il.substring_char(p + 1, ill));
                    if item.unicode_len() > 0 {
                        let ghost before = vals.deep_view();
                        vals.push(item.to_owned());
                        proof {
                            assert(vals.deep_view() =~= before.push(item@));
                            assert(before.push(item@) + exceptions_from(
                                lines.deep_view().subrange(k + 1, n as int),
                            ) =~= before + (seq![item@] + exceptions_from(
                                lines.deep_view().subrange(k + 1, n as int),
                            )));
                        }
                    }
                }
                k = k + 1;
            }
            proof {
                if k == n {
                    assert(lines.deep_view().subrange(n as int, n as int)
                        =~= Seq::<Seq<char>>::empty());
                }
                assert(vals.deep_view() + Seq::<Seq<char>>::empty() =~= vals.deep_view());
            }
            assert(vals.deep_view() == scutil_exceptions(split_char(text@, '\n')));
            if vals.len() == 0 {
                return None;
            }
            let joined = crate::text::join_with_char(&vals, ',');
            return Some(joined);
        }
        j = j + 1;
    }
    assert(lines.deep_view().subrange(n as int, n as int) =~= Seq::<Seq<char>>::empty());
    None
}

/// Both parts of the platform proxy answer: the URL and the exception
/// list.
pub open spec fn macos_system_proxy_spec(text: Seq<char>) -> Option<
    (Seq<char>, Option<Seq<char>>),
> {
    match parse_scutil_proxy_spec(text) {
        Some(url) => Some((url, parse_scutil_no_proxy_spec(text))),
        None => None,
    }
}

/// Resolves the platform proxy database's text output into a proxy URL
/// and exception list.
pub fn macos_system_proxy_url(text: &str) -> (r: Option<(String, Option<String>)>)
    ensures
        match r {
            Some((url, np)) => macos_system_proxy_spec(text@) == Some(
                (url@, np.deep_view()),
            ),
            None => macos_system_proxy_spec(text@) is None,
        },
{
    match parse_scutil_proxy(text) {
        Some(url) => Some((url, parse_scutil_no_proxy(text))),
        None => None,
    }
}

/// The first set, non-blank proxy environment value, trimmed. The caller
/// hands the variables in their priority order.
pub open spec fn env_proxy_spec(values: Seq<Option<Seq<char>>>) -> Option<Seq<char>>
    decreases values.len(),
{
    if values.len() == 0 {
        None
    } else {
        match values[0] {
            Some(v) => if trimmed(v).len() > 0 {
                Some(trimmed(v))
            } else {
                env_proxy_spec(values.drop_first())
            },
            None => env_proxy_spec(values.drop_first()),
        }
    }
}

/// Picks the proxy URL out of the environment values, first non-blank
/// wins.
#[verifier::loop_isolation(false)]
pub fn env_proxy_setting(values: &Vec<Option<String>>) -> (r: Option<String>)
    ensures
        r.deep_view() == env_proxy_spec(values.deep_view()),
{
    let n = values.len();
    let mut j: usize = 0;
    proof {
        assert(values.deep_view().subrange(0, n as int) =~= values.deep_view());
    }
    while j < n
        invariant
            0 <= j <= n,
            n == values@.len(),
            env_proxy_spec(values.deep_view()) == env_proxy_spec(
                values.deep_view().subrange(j as int, n as int),
            ),
        decreases n - j,
    {
        let ghost suffix = values.deep_view().subrange(j as int, n as int);
        proof {
            assert(suffix[0] == values.deep_view()[j as int]);
            assert(suffix.drop_first() =~= values.deep_view().subrange(j + 1, n as int));
        }
        if let Some(v) = &values[j] {
            let t = trim_str(v.as_str());
            if t.unicode_len() > 0 {
                return Some(t.to_owned());
            }
        }
        j = j + 1;
    }
    assert(values.deep_view().subrange(n as int, n as int) =~= Seq::<Option<Seq<char>>>::empty());
    None
}

/// The proxy decision: the platform answer when the caller has one, else
/// the environment fallback, else direct.
pub open spec fn system_proxy_spec(
    scutil: Option<Seq<char>>,
    env: Seq<Option<Seq<char>>>,
) -> Option<ProxySettingView> {
    let from_env = match env_proxy_spec(env) {
        Some(u) => Some(ProxySettingView { url: u, source: ProxySource::Env, no_proxy: None }),
        None => None,
    };
    match scutil {
        Some(t) => match parse_scutil_proxy_spec(t) {
            Some(url) => Some(
                ProxySettingView {
                    url: url,
                    source: ProxySource::System,
                    no_proxy: parse_scutil_no_proxy_spec(t),
                },
            ),
            None => from_env,
        },
        None => from_env,
    }
}

/// Resolves the proxy to use: the platform proxy database's output when
/// available and conclusive, otherwise the proxy environment variables.
pub fn system_proxy_setting(scutil_output: Option<&str>, env_values: &Vec<Option<String>>) -> (r:
    Option<ProxySetting>)
    ensures
        r.deep_view() == system_proxy_spec(
            match scutil_output {
                Some(t) => Some(t@),
                None => None,
            },
            env_values.deep_view(),
        ),
{
    if let Some(text) = scutil_output {
        if let Some((url, no_proxy)) = macos_system_proxy_url(text) {
            return Some(ProxySetting { url, source: ProxySource::System, no_proxy });
        }
    }
    match env_proxy_setting(env_values) {
        Some(url) => Some(ProxySetting { url, source: ProxySource::Env, no_proxy: None }),
        None => None,
    }
}

pub open spec fn proxy_message_spec(p: Option<ProxySettingView>) -> Seq<char> {
    match p {
        Some(s) => match s.source {
            ProxySource::System => "[xau-tray] network mode: system proxy enabled (system)"@,
            ProxySource::Env => "[xau-tray] network mode: system proxy enabled (env)"@,
        },
        None => "[xau-tray] network mode: direct connection"@,
    }
}

/// The diagnostic line describing a proxy decision.
pub fn proxy_decision_message(p: Option<&ProxySetting>) -> (r: String)
    ensures
        r@ == proxy_message_spec(
            match p {
                Some(s) => Some(s@),
                None => None,
            },
        ),
{
    let text: &str = match p {
        Some(s) => match s.source {
            ProxySource::System => "[xau-tray] network mode: system proxy enabled (system)",
            ProxySource::Env => "[xau-tray] network mode: system proxy enabled (env)",
        },
        None => "[xau-tray] network mode: direct connection",
    };
    let mut out = String::new();
    out.append(text);
    assert(out@ =~= text@);
    out
}

/// Logs which way outbound requests will go.
pub fn log_proxy_decision(p: Option<&ProxySetting>) {
    let m = proxy_decision_message(p);
    crate::logging::log_line(m.as_str());
}

} // verus!
