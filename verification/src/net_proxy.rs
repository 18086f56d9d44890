//! The upstream proxy: how it is named on the command line or in the environment,
//! and what the rest of the program is told about it.
use crate::boundary;
use crate::boundary::{UrlParts, UrlView};
use crate::decimal;
use crate::text;
use vstd::prelude::*;

verus! {

/// The protocol that the upstream proxy speaks.
#[derive(Debug, Clone, Copy, PartialEq, Eq, Structural)]
pub enum ProxyKind {
    Socks5,
    Http,
}

/// An upstream proxy.
#[derive(Debug)]
pub struct ParsedProxy {
    /// The address as it was given.
    pub raw: String,
    pub kind: ProxyKind,
    pub host: String,
    pub port: u16,
    pub username: Option<String>,
    pub password: Option<String>,
}

/// What a [`ParsedProxy`] holds.
#[verifier::ext_equal]
pub struct ProxyView {
    pub raw: Seq<char>,
    pub kind: ProxyKind,
    pub host: Seq<char>,
    pub port: u16,
    pub username: Option<Seq<char>>,
    pub password: Option<Seq<char>>,
}

impl View for ParsedProxy {
    type V = ProxyView;

    open spec fn view(&self) -> ProxyView {
        ProxyView {
            raw: self.raw@,
            kind: self.kind,
            host: self.host@,
            port: self.port,
            username: text::opt_view(self.username),
            password: text::opt_view(self.password),
        }
    }
}

/// The view of an optional proxy.
pub open spec fn opt_proxy_view(p: Option<ParsedProxy>) -> Option<ProxyView> {
    match p {
        Some(proxy) => Some(proxy@),
        None => None,
    }
}

/// What the program knows about its way to the network: the upstream proxy, if one
/// is set, and the port of the local forwarder, once it listens.
#[derive(Debug)]
pub struct NetProxy {
    pub proxy: Option<ParsedProxy>,
    pub forwarder_port: Option<u16>,
}

/// What a [`NetProxy`] holds.
#[verifier::ext_equal]
pub struct NetView {
    pub proxy: Option<ProxyView>,
    pub forwarder_port: Option<u16>,
}

impl View for NetProxy {
    type V = NetView;

    open spec fn view(&self) -> NetView {
        NetView { proxy: opt_proxy_view(self.proxy), forwarder_port: self.forwarder_port }
    }
}

/// The view of an optional state.
pub open spec fn opt_net_view(net: Option<&NetProxy>) -> Option<NetView> {
    match net {
        Some(n) => Some(n@),
        None => None,
    }
}

/// The protocol that a URL scheme stands for.
pub open spec fn scheme_kind(scheme: Seq<char>) -> Option<ProxyKind> {
    if scheme == "socks"@ || scheme == "socks5"@ || scheme == "socks5h"@ {
        Some(ProxyKind::Socks5)
    } else if scheme == "http"@ || scheme == "https"@ {
        Some(ProxyKind::Http)
    } else {
        None
    }
}

/// The port of a proxy whose address has none.
pub open spec fn default_port(kind: ProxyKind) -> u16 {
    match kind {
        ProxyKind::Socks5 => 1080,
        ProxyKind::Http => 8080,
    }
}

/// The first entry of a list that is separated by semicolons, without white space
/// around it.
pub open spec fn first_entry(raw: Seq<char>) -> Seq<char> {
    text::trimmed(match text::find(raw, seq![';']) {
        Some(i) => raw.take(i),
        None => raw,
    })
}

/// An address with its scheme; one without a scheme is taken for an HTTP address.
pub open spec fn with_scheme(address: Seq<char>) -> Seq<char> {
    if text::contains(address, "://"@) {
        address
    } else {
        "http://"@ + address
    }
}

/// The proxy that an address names, from the URL that the address parses as.
pub open spec fn proxy_at(address: Seq<char>, url: UrlView) -> Option<ProxyView> {
    match (url.host, scheme_kind(text::lowered(url.scheme))) {
        (Some(host), Some(kind)) => Some(
            ProxyView {
                raw: address,
                kind,
                host,
                port: match url.port {
                    Some(port) => port,
                    None => default_port(kind),
                },
                username: if url.username.len() == 0 {
                    None
                } else {
                    Some(url.username)
                },
                password: url.password,
            },
        ),
        _ => None,
    }
}

/// The proxy that a list of addresses names: the first of them.
pub open spec fn proxy_named_by(raw: Seq<char>) -> Option<ProxyView> {
    let address = first_entry(raw);
    if address.len() == 0 {
        None
    } else {
        match boundary::url_parse(with_scheme(address)) {
            Some(url) => proxy_at(address, url),
            None => None,
        }
    }
}

/// The value of the option `--proxy-server` in a list of arguments: what stands
/// behind its equals sign, or the next argument.
pub open spec fn option_value(args: Seq<Seq<char>>) -> Option<Seq<char>>
    decreases args.len(),
{
    if args.len() == 0 {
        None
    } else if text::starts_with(args[0], "--proxy-server="@) {
        Some(args[0].skip("--proxy-server="@.len() as int))
    } else if args[0] == "--proxy-server"@ {
        if args.len() > 1 {
            Some(args[1])
        } else {
            None
        }
    } else {
        option_value(args.drop_first())
    }
}

/// The arguments behind the program's own name.
pub open spec fn behind_name(args: Seq<Seq<char>>) -> Seq<Seq<char>> {
    if args.len() > 0 {
        args.skip(1)
    } else {
        args
    }
}

/// What a program's arguments (its own name first) and its environment say about the
/// proxy; empty where they say nothing. The environment counts only where the arguments
/// say nothing.
pub open spec fn given_address(args: Seq<Seq<char>>, env: Option<Seq<char>>) -> Seq<char> {
    let given = option_value(behind_name(args));
    text::trimmed(
        if given is Some {
            given->0
        } else if env is Some {
            env->0
        } else {
            Seq::empty()
        },
    )
}

/// The proxy that a program's arguments (its own name first) and its environment
/// name.
pub open spec fn configured_proxy(
    args: Seq<Seq<char>>,
    env: Option<Seq<char>>,
) -> Option<ProxyView> {
    let raw = given_address(args, env);
    if raw.len() == 0 {
        None
    } else {
        proxy_named_by(raw)
    }
}

impl NetView {
    /// There is a forwarder only where there is a proxy.
    pub open spec fn wf(self) -> bool {
        self.forwarder_port is Some ==> self.proxy is Some
    }

    /// The state once a forwarder listens on `port`. The first forwarder stays, and
    /// without a proxy there is none.
    pub open spec fn with_forwarder(self, port: u16) -> NetView {
        if self.proxy is Some && self.forwarder_port is None {
            NetView { forwarder_port: Some(port), ..self }
        } else {
            self
        }
    }

    /// The variables that the web view is given, in order.
    pub open spec fn environment(self) -> Seq<(Seq<char>, Seq<char>)> {
        match self.forwarder_port {
            Some(port) => webview_env_at(forwarder_url(port)),
            None => Seq::empty(),
        }
    }
}

/// The state after the proxy was looked up: the one so far, where there is one.
pub open spec fn initialised(
    so_far: Option<NetView>,
    args: Seq<Seq<char>>,
    env: Option<Seq<char>>,
) -> NetView {
    match so_far {
        Some(net) => net,
        None => NetView { proxy: configured_proxy(args, env), forwarder_port: None },
    }
}

/// The state after the program's start: the proxy was looked up, and a forwarder may
/// have come to listen on the port `bound`.
pub open spec fn started(
    so_far: Option<NetView>,
    args: Seq<Seq<char>>,
    env: Option<Seq<char>>,
    bound: Option<u16>,
) -> NetView {
    let net = initialised(so_far, args, env);
    match bound {
        Some(port) => net.with_forwarder(port),
        None => net,
    }
}

/// The scheme of a URL, where it keeps the URL from naming a proxy: there is a host,
/// and the scheme stands for no protocol.
pub open spec fn refused_scheme(url: UrlView) -> Option<Seq<char>> {
    if url.host is Some && scheme_kind(text::lowered(url.scheme)) is None {
        Some(text::lowered(url.scheme))
    } else {
        None
    }
}

/// The scheme that keeps a list of addresses from naming a proxy.
pub open spec fn refused_scheme_in(raw: Seq<char>) -> Option<Seq<char>> {
    let address = first_entry(raw);
    if address.len() == 0 {
        None
    } else {
        match boundary::url_parse(with_scheme(address)) {
            Some(url) => refused_scheme(url),
            None => None,
        }
    }
}

/// The address of the local forwarder.
pub open spec fn forwarder_url(port: u16) -> Seq<char> {
    "http://127.0.0.1:"@ + decimal::decimal(port as nat)
}

/// The hosts that the web view reaches without the proxy: this machine, hosts with a
/// plain name, and the private networks.
pub const WEBVIEW_PROXY_BYPASS: &'static str =
    "127.0.0.1,localhost,::1,<local>,10.0.0.0/8,172.16.0.0/12,192.168.0.0/16";

/// Reads the protocol off a URL scheme.
fn kind_of_scheme(scheme: &str) -> (r: Option<ProxyKind>)
    ensures
        r == scheme_kind(text::lowered(scheme@)),
{
    let s = text::chars_of(scheme);
    let low = text::lower_text(s.as_slice());
    let l = low.as_slice();
    if text::is_text(l, "socks") || text::is_text(l, "socks5") || text::is_text(l, "socks5h") {
        Some(ProxyKind::Socks5)
    } else if text::is_text(l, "http") || text::is_text(l, "https") {
        Some(ProxyKind::Http)
    } else {
        None
    }
}

/// The proxy that an address names, from the URL that the address parses as.
pub fn proxy_from_url(address: &str, url: UrlParts) -> (r: Option<ParsedProxy>)
    ensures
        opt_proxy_view(r) == proxy_at(address@, url@),
{
    let host = match url.host {
        Some(host) => host,
        None => {
            return None;
        },
    };
    let kind = match kind_of_scheme(url.scheme.as_str()) {
        Some(kind) => kind,
        None => {
            return None;
        },
    };
    let port: u16 = match url.port {
        Some(port) => port,
        None => match kind {
            ProxyKind::Socks5 => 1080,
            ProxyKind::Http => 8080,
        },
    };
    let username = if url.username.as_str().is_empty() {
        None
    } else {
        Some(url.username)
    };
    Some(
        ParsedProxy {
            raw: address.to_owned(),
            kind,
            host,
            port,
            username,
            password: url.password,
        },
    )
}

/// The first address of a list, and the same with its scheme; none where it is empty.
fn read_first_entry(raw: &str) -> (r: Option<(String, String)>)
    ensures
        match r {
            Some((address, normalized)) => {
                &&& address@ == first_entry(raw@)
                &&& address@.len() > 0
                &&& normalized@ == with_scheme(address@)
            },
            None => first_entry(raw@).len() == 0,
        },
{
    let all = text::chars_of(raw);
    let s = all.as_slice();
    let entry: &[char] = match text::find_char(s, ';') {
        Some(i) => &s[0..i],
        None => s,
    };
    let first = text::trim(entry);
    assert(first@ == first_entry(raw@));
    if first.len() == 0 {
        return None;
    }
    let address = text::string_of(first);
    let normalized = if text::has(first, "://") {
        address.as_str().to_owned()
    } else {
        let mut url = "http://".to_owned();
        url.append(address.as_str());
        url
    };
    Some((address, normalized))
}

/// Reads a list of proxy addresses; the first one counts.
pub fn parse_proxy_url(raw: &str) -> (r: Option<ParsedProxy>)
    ensures
        opt_proxy_view(r) == proxy_named_by(raw@),
{
    match read_first_entry(raw) {
        Some((address, normalized)) => match boundary::parse_url(normalized.as_str()) {
            Some(url) => proxy_from_url(address.as_str(), url),
            None => None,
        },
        None => None,
    }
}

/// The scheme of a URL, where it keeps the URL from naming a proxy.
pub fn scheme_refused(url: &UrlParts) -> (r: Option<String>)
    ensures
        text::opt_view(r) == refused_scheme(url@),
{
    if url.host.is_none() || kind_of_scheme(url.scheme.as_str()).is_some() {
        return None;
    }
    let scheme = text::chars_of(url.scheme.as_str());
    let low = text::lower_text(scheme.as_slice());
    Some(text::string_of(low.as_slice()))
}

/// The scheme that keeps a list of addresses from naming a proxy, to be reported.
pub fn unsupported_scheme(raw: &str) -> (r: Option<String>)
    ensures
        text::opt_view(r) == refused_scheme_in(raw@),
{
    match read_first_entry(raw) {
        Some((_, normalized)) => match boundary::parse_url(normalized.as_str()) {
            Some(url) => scheme_refused(&url),
            None => None,
        },
        None => None,
    }
}

/// The value of the option `--proxy-server`, from argument `from` on.
fn find_option(args: &Vec<String>, from: usize) -> (r: Option<String>)
    requires
        from <= args@.len(),
    ensures
        text::opt_view(r) == option_value(text::string_views(args@).skip(from as int)),
{
    let ghost all = text::string_views(args@);
    let mut i: usize = from;
    while i < args.len()
        invariant
            from <= i <= args@.len(),
            all == text::string_views(args@),
            option_value(all.skip(from as int)) == option_value(all.skip(i as int)),
        decreases args@.len() - i,
    {
        let arg = text::chars_of(args[i].as_str());
        let s = arg.as_slice();
        let ghost rest = all.skip(i as int);
        assert(rest[0] == s@);
        if text::begins(s, "--proxy-server=") {
            proof {
                reveal_strlit("--proxy-server=");
            }
            let value: &[char] = &s[15..s.len()];
            assert(value@ == s@.skip(15));
            return Some(text::string_of(value));
        }
        if text::is_text(s, "--proxy-server") {
            if i + 1 < args.len() {
                assert(rest[1] == args@[i + 1]@);
                return Some(args[i + 1].as_str().to_owned());
            }
            return None;
        }
        assert(rest.drop_first() == all.skip(i + 1));
        i += 1;
    }
    None
}

/// What the program's arguments (its own name first) and the value of `DTV_PROXY` say
/// about the proxy.
pub fn configured_address(args: &Vec<String>, env: &Option<String>) -> (r: String)
    ensures
        r@ == given_address(text::string_views(args@), text::opt_view(*env)),
{
    let from_args = if args.len() > 0 {
        find_option(args, 1)
    } else {
        None
    };
    let given = match from_args {
        Some(value) => value,
        None => match env {
            Some(value) => value.as_str().to_owned(),
            None => String::new(),
        },
    };
    let g = text::chars_of(given.as_str());
    text::string_of(text::trim(g.as_slice()))
}

/// Reads the proxy from the program's arguments (its own name first) and from the
/// value of `DTV_PROXY`.
pub fn parse_proxy(args: &Vec<String>, env: &Option<String>) -> (r: Option<ParsedProxy>)
    ensures
        opt_proxy_view(r) == configured_proxy(text::string_views(args@), text::opt_view(*env)),
{
    let raw = configured_address(args, env);
    if raw.as_str().is_empty() {
        return None;
    }
    parse_proxy_url(raw.as_str())
}

/// A copy of an optional proxy.
fn copy_proxy(proxy: &Option<ParsedProxy>) -> (r: Option<ParsedProxy>)
    ensures
        opt_proxy_view(r) == opt_proxy_view(*proxy),
{
    match proxy {
        Some(p) => Some(
            ParsedProxy {
                raw: p.raw.as_str().to_owned(),
                kind: p.kind,
                host: p.host.as_str().to_owned(),
                port: p.port,
                username: text::copy_text(&p.username),
                password: text::copy_text(&p.password),
            },
        ),
        None => None,
    }
}

/// The state of the network side after the proxy was looked up. The first look is
/// final: where there is a state so far, it stays.
pub fn init(so_far: Option<&NetProxy>, args: &Vec<String>, env: &Option<String>) -> (net: NetProxy)
    ensures
        net@ == initialised(
            opt_net_view(so_far),
            text::string_views(args@),
            text::opt_view(*env),
        ),
{
    match so_far {
        Some(n) => NetProxy { proxy: copy_proxy(&n.proxy), forwarder_port: n.forwarder_port },
        None => NetProxy { proxy: parse_proxy(args, env), forwarder_port: None },
    }
}

impl NetProxy {
    /// Records the port of the local forwarder. The first record stays, and without a
    /// proxy nothing is recorded.
    pub fn record_forwarder_port(&mut self, port: u16)
        ensures
            final(self).proxy == old(self).proxy,
            final(self)@ == old(self)@.with_forwarder(port),
    {
        if self.proxy.is_some() && self.forwarder_port.is_none() {
            self.forwarder_port = Some(port);
        }
    }
}

/// The upstream proxy, if one is set.
pub fn current(net: &NetProxy) -> (r: Option<&ParsedProxy>)
    ensures
        match r {
            Some(proxy) => net.proxy == Some(*proxy),
            None => net.proxy is None,
        },
{
    net.proxy.as_ref()
}

/// The address of the upstream proxy as it was given.
pub fn raw_url(net: &NetProxy) -> (r: Option<String>)
    ensures
        text::opt_view(r) == (match net.proxy {
            Some(proxy) => Some(proxy.raw@),
            None => None,
        }),
{
    match current(net) {
        Some(proxy) => Some(proxy.raw.as_str().to_owned()),
        None => None,
    }
}

/// The address of a local forwarder.
pub fn forwarder_address(port: u16) -> (r: String)
    ensures
        r@ == forwarder_url(port),
{
    let mut url = "http://127.0.0.1:".to_owned();
    decimal::push_decimal(&mut url, port as u64);
    url
}

/// The address of the local forwarder, such as `http://127.0.0.1:43123`, once it
/// listens.
pub fn webview_proxy_url(net: &NetProxy) -> (r: Option<String>)
    ensures
        text::opt_view(r) == (match net.forwarder_port {
            Some(port) => Some(forwarder_url(port)),
            None => None,
        }),
{
    match net.forwarder_port {
        Some(port) => Some(forwarder_address(port)),
        None => None,
    }
}

/// A variable of the environment, with its value.
#[derive(Debug)]
pub struct EnvVar {
    pub name: String,
    pub value: String,
}

/// The views of a list of environment variables.
pub open spec fn env_views(vars: Seq<EnvVar>) -> Seq<(Seq<char>, Seq<char>)> {
    vars.map_values(|v: EnvVar| (v.name@, v.value@))
}

/// The environment that sends a web view through the forwarder at `url`.
pub open spec fn webview_env_at(url: Seq<char>) -> Seq<(Seq<char>, Seq<char>)> {
    seq![
        ("http_proxy"@, url),
        ("https_proxy"@, url),
        ("HTTP_PROXY"@, url),
        ("HTTPS_PROXY"@, url),
        ("all_proxy"@, url),
        ("ALL_PROXY"@, url),
        ("no_proxy"@, WEBVIEW_PROXY_BYPASS@),
        ("NO_PROXY"@, WEBVIEW_PROXY_BYPASS@),
    ]
}

fn env_var(name: &str, value: &str) -> (r: EnvVar)
    ensures
        r.name@ == name@,
        r.value@ == value@,
{
    EnvVar { name: name.to_owned(), value: value.to_owned() }
}

/// The variables to set, in order, so that the web view goes through the local
/// forwarder; none while there is no forwarder.
pub fn webview_env(net: &NetProxy) -> (r: Vec<EnvVar>)
    ensures
        env_views(r@) == net@.environment(),
{
    let mut vars: Vec<EnvVar> = Vec::new();
    if let Some(address) = webview_proxy_url(net) {
        let url = address.as_str();
        vars.push(env_var("http_proxy", url));
        vars.push(env_var("https_proxy", url));
        vars.push(env_var("HTTP_PROXY", url));
        vars.push(env_var("HTTPS_PROXY", url));
        vars.push(env_var("all_proxy", url));
        vars.push(env_var("ALL_PROXY", url));
        vars.push(env_var("no_proxy", WEBVIEW_PROXY_BYPASS));
        vars.push(env_var("NO_PROXY", WEBVIEW_PROXY_BYPASS));
        assert(env_views(vars@) == webview_env_at(url@));
    } else {
        assert(env_views(vars@) == Seq::<(Seq<char>, Seq<char>)>::empty());
    }
    vars
}

} // verus!
