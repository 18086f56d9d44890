//! The settings of the HTTP clients, as plain values.
//!
//! A client builder is described by the settings that its calls make; the program
//! builds the client from them.
use crate::boundary;
use crate::net_proxy;
use crate::net_proxy::{NetProxy, ParsedProxy, ProxyKind, ProxyView};
use crate::text;
use vstd::prelude::*;

verus! {

/// The hosts that a client reaches without the proxy: this machine and the local
/// network.
pub const CLIENT_PROXY_BYPASS: &'static str =
    "localhost,127.0.0.1,::1,10.0.0.0/8,172.16.0.0/12,192.168.0.0/16";

/// The user agent of the program's own client.
pub const MAIN_USER_AGENT: &'static str =
    "Mozilla/5.0 (Windows NT 10.0; Win64; x64) AppleWebKit/537.36 (KHTML, like Gecko) Chrome/91.0.4472.124 Safari/537.36";

/// A proxy for all of a client's requests, but for those to the hosts in `no_proxy`.
#[derive(Debug)]
pub struct ProxySetting {
    pub url: String,
    pub no_proxy: String,
}

/// What a [`ProxySetting`] holds.
#[verifier::ext_equal]
pub struct SettingView {
    pub url: Seq<char>,
    pub no_proxy: Seq<char>,
}

impl View for ProxySetting {
    type V = SettingView;

    open spec fn view(&self) -> SettingView {
        SettingView { url: self.url@, no_proxy: self.no_proxy@ }
    }
}

/// The views of a list of proxies.
pub open spec fn setting_views(v: Seq<ProxySetting>) -> Seq<SettingView> {
    v.map_values(|s: ProxySetting| s@)
}

/// The view of an optional proxy.
pub open spec fn opt_setting_view(s: Option<ProxySetting>) -> Option<SettingView> {
    match s {
        Some(setting) => Some(setting@),
        None => None,
    }
}

/// The address that a client is given for an upstream proxy. SOCKS addresses are
/// written so that the proxy resolves host names; an HTTP proxy is reached through
/// the local forwarder, once it listens.
pub open spec fn client_proxy_url(proxy: ProxyView, forwarder_port: Option<u16>) -> Seq<char> {
    match proxy.kind {
        ProxyKind::Socks5 => if text::starts_with(proxy.raw, "socks5://"@) {
            "socks5h://"@ + proxy.raw.skip("socks5://"@.len() as int)
        } else if text::starts_with(proxy.raw, "socks://"@) {
            "socks5h://"@ + proxy.raw.skip("socks://"@.len() as int)
        } else {
            proxy.raw
        },
        ProxyKind::Http => match forwarder_port {
            Some(port) => net_proxy::forwarder_url(port),
            None => proxy.raw,
        },
    }
}

/// The proxy setting of a client, where its address is accepted.
pub open spec fn accepted_setting(url: Seq<char>, accepted: bool) -> Option<SettingView> {
    if accepted {
        Some(SettingView { url, no_proxy: CLIENT_PROXY_BYPASS@ })
    } else {
        None
    }
}

/// The proxy setting of the program's clients.
pub open spec fn client_setting(net: NetProxy) -> Option<SettingView> {
    match net.proxy {
        Some(proxy) => {
            let url = client_proxy_url(proxy@, net.forwarder_port);
            accepted_setting(url, boundary::proxy_address_accepted(url))
        },
        None => None,
    }
}

/// The address that a client is given for an upstream proxy.
pub fn client_proxy_address(proxy: &ParsedProxy, forwarder_port: Option<u16>) -> (r: String)
    ensures
        r@ == client_proxy_url(proxy@, forwarder_port),
{
    match proxy.kind {
        ProxyKind::Socks5 => {
            let raw = text::chars_of(proxy.raw.as_str());
            let s = raw.as_slice();
            proof {
                reveal_strlit("socks5://");
                reveal_strlit("socks://");
            }
            let rest: &[char] = if text::begins(s, "socks5://") {
                &s[9..s.len()]
            } else if text::begins(s, "socks://") {
                &s[8..s.len()]
            } else {
                return proxy.raw.as_str().to_owned();
            };
            let mut url = "socks5h://".to_owned();
            text::push_chars(&mut url, rest);
            assert(text::starts_with(s@, "socks5://"@) ==> rest@ == s@.skip(9));
            assert(!text::starts_with(s@, "socks5://"@) ==> rest@ == s@.skip(8));
            url
        },
        ProxyKind::Http => match forwarder_port {
            Some(port) => net_proxy::forwarder_address(port),
            None => proxy.raw.as_str().to_owned(),
        },
    }
}

/// The proxy setting for an address, from whether the address is accepted.
pub fn setting_for(url: String, accepted: bool) -> (r: Option<ProxySetting>)
    ensures
        opt_setting_view(r) == accepted_setting(url@, accepted),
{
    if accepted {
        Some(ProxySetting { url, no_proxy: CLIENT_PROXY_BYPASS.to_owned() })
    } else {
        None
    }
}

/// The proxy setting of the program's clients; none without an upstream proxy, and
/// none where the client does not accept its address. An address that parses as a
/// URL is accepted exactly where it names a host, or does so with `http://` in front;
/// one that can have no scheme, exactly where it does so with `http://` in front.
pub fn reqwest_proxy(net: &NetProxy) -> (r: Option<ProxySetting>)
    ensures
        opt_setting_view(r) == client_setting(*net),
        net.proxy is None ==> r is None,
        net.proxy matches Some(proxy) ==> {
            let url = client_proxy_url(proxy@, net.forwarder_port);
            &&& boundary::url_parse(url) is Some ==> (r is Some) == (boundary::names_host(url)
                || boundary::names_host("http://"@ + url))
            &&& boundary::has_no_scheme(url) ==> (r is Some) == boundary::names_host(
                "http://"@ + url,
            )
            &&& r is Some ==> boundary::names_host(url) || boundary::names_host("http://"@ + url)
        },
{
    match net_proxy::current(net) {
        Some(proxy) => {
            let url = client_proxy_address(proxy, net.forwarder_port);
            let accepted = boundary::accepts_proxy_address(url.as_str());
            setting_for(url, accepted)
        },
        None => None,
    }
}

/// The settings of a client. `None` leaves what the client does by itself.
#[derive(Debug)]
pub struct ClientSettings {
    pub user_agent: Option<String>,
    pub http1_only: bool,
    pub pool_max_idle_per_host: Option<usize>,
    pub pool_idle_timeout_secs: Option<u64>,
    pub tcp_keepalive_secs: Option<u64>,
    pub connect_timeout_secs: Option<u64>,
    pub timeout_secs: Option<u64>,
    pub gzip: bool,
    pub brotli: bool,
    pub deflate: bool,
    /// The proxies to try, in order.
    pub proxies: Vec<ProxySetting>,
    /// Whether the proxy of the system is used.
    pub system_proxy: bool,
}

/// The settings of a client that blocks its thread.
#[derive(Debug)]
pub struct BlockingClientSettings {
    pub inner: ClientSettings,
}

/// The proxies of a client after the program's proxy setting is applied to it: one
/// more, or none at all.
pub open spec fn proxies_with(
    proxies: Seq<SettingView>,
    setting: Option<SettingView>,
) -> Seq<SettingView> {
    match setting {
        Some(s) => proxies.push(s),
        None => Seq::empty(),
    }
}

/// `proxies` after the program's proxy setting is applied.
fn with_setting(proxies: Vec<ProxySetting>, net: &NetProxy) -> (r: Vec<ProxySetting>)
    ensures
        setting_views(r@) == proxies_with(setting_views(proxies@), client_setting(*net)),
{
    match reqwest_proxy(net) {
        Some(setting) => {
            let mut r = proxies;
            r.push(setting);
            assert(setting_views(r@) == setting_views(proxies@).push(setting@));
            r
        },
        None => {
            let r: Vec<ProxySetting> = Vec::new();
            assert(setting_views(r@) == Seq::<SettingView>::empty());
            r
        },
    }
}

impl ClientSettings {
    /// The settings of a client before anything is set.
    pub fn builder() -> (r: ClientSettings)
        ensures
            r.user_agent is None,
            !r.http1_only,
            r.pool_max_idle_per_host is None,
            r.pool_idle_timeout_secs is None,
            r.tcp_keepalive_secs is None,
            r.connect_timeout_secs is None,
            r.timeout_secs is None,
            r.gzip && r.brotli && r.deflate,
            r.proxies@.len() == 0,
            r.system_proxy,
    {
        ClientSettings {
            user_agent: None,
            http1_only: false,
            pool_max_idle_per_host: None,
            pool_idle_timeout_secs: None,
            tcp_keepalive_secs: None,
            connect_timeout_secs: None,
            timeout_secs: None,
            gzip: true,
            brotli: true,
            deflate: true,
            proxies: Vec::new(),
            system_proxy: true,
        }
    }
}

/// Settings that the program's proxy can be applied to.
pub trait DtvProxyExt: Sized {
    /// `self` with the program's proxy applied gives `r`.
    spec fn proxied_as(self, net: NetProxy, r: Self) -> bool;

    /// Applies the program's proxy.
    fn dtv_proxy(self, net: &NetProxy) -> (r: Self)
        ensures
            self.proxied_as(*net, r),
    ;
}

impl DtvProxyExt for ClientSettings {
    open spec fn proxied_as(self, net: NetProxy, r: ClientSettings) -> bool {
        &&& r.http1_only
        &&& r.pool_max_idle_per_host == Some(2usize)
        &&& r.pool_idle_timeout_secs == Some(15u64)
        &&& setting_views(r.proxies@) == proxies_with(
            setting_views(self.proxies@),
            client_setting(net),
        )
        &&& !r.system_proxy
        &&& r.user_agent == self.user_agent
        &&& r.tcp_keepalive_secs == self.tcp_keepalive_secs
        &&& r.connect_timeout_secs == self.connect_timeout_secs
        &&& r.timeout_secs == self.timeout_secs
        &&& r.gzip == self.gzip
        &&& r.brotli == self.brotli
        &&& r.deflate == self.deflate
    }

    fn dtv_proxy(self, net: &NetProxy) -> (r: ClientSettings) {
        apply(self, net)
    }
}

impl DtvProxyExt for BlockingClientSettings {
    open spec fn proxied_as(self, net: NetProxy, r: BlockingClientSettings) -> bool {
        let before = self.inner;
        let after = r.inner;
        &&& after.http1_only
        &&& setting_views(after.proxies@) == proxies_with(
            setting_views(before.proxies@),
            client_setting(net),
        )
        &&& !after.system_proxy
        &&& after.user_agent == before.user_agent
        &&& after.pool_max_idle_per_host == before.pool_max_idle_per_host
        &&& after.pool_idle_timeout_secs == before.pool_idle_timeout_secs
        &&& after.tcp_keepalive_secs == before.tcp_keepalive_secs
        &&& after.connect_timeout_secs == before.connect_timeout_secs
        &&& after.timeout_secs == before.timeout_secs
        &&& after.gzip == before.gzip
        &&& after.brotli == before.brotli
        &&& after.deflate == before.deflate
    }

    fn dtv_proxy(self, net: &NetProxy) -> (r: BlockingClientSettings) {
        apply_blocking(self, net)
    }
}

/// Applies the program's proxy to a client: HTTP/1 only, a small pool of idle
/// connections, and the upstream proxy or none at all.
pub fn apply(builder: ClientSettings, net: &NetProxy) -> (r: ClientSettings)
    ensures
        builder.proxied_as(*net, r),
{
    ClientSettings {
        user_agent: builder.user_agent,
        http1_only: true,
        pool_max_idle_per_host: Some(2),
        pool_idle_timeout_secs: Some(15),
        tcp_keepalive_secs: builder.tcp_keepalive_secs,
        connect_timeout_secs: builder.connect_timeout_secs,
        timeout_secs: builder.timeout_secs,
        gzip: builder.gzip,
        brotli: builder.brotli,
        deflate: builder.deflate,
        proxies: with_setting(builder.proxies, net),
        system_proxy: false,
    }
}

/// Applies the program's proxy to a client that blocks its thread: HTTP/1 only, and
/// the upstream proxy or none at all.
pub fn apply_blocking(builder: BlockingClientSettings, net: &NetProxy) -> (r:
    BlockingClientSettings)
    ensures
        builder.proxied_as(*net, r),
{
    let mut inner = builder.inner;
    inner.http1_only = true;
    inner.proxies = with_setting(inner.proxies, net);
    inner.system_proxy = false;
    BlockingClientSettings { inner }
}

/// The settings that a client for streams or images has, but for its pool and its
/// time limit.
pub open spec fn is_relay_client(
    r: ClientSettings,
    net: NetProxy,
    max_idle: usize,
    timeout_secs: u64,
) -> bool {
    &&& r.user_agent is None
    &&& r.http1_only
    &&& r.pool_max_idle_per_host == Some(max_idle)
    &&& r.pool_idle_timeout_secs == Some(15u64)
    &&& r.tcp_keepalive_secs == Some(30u64)
    &&& r.connect_timeout_secs == Some(15u64)
    &&& r.timeout_secs == Some(timeout_secs)
    &&& !r.gzip && !r.brotli && !r.deflate
    &&& setting_views(r.proxies@) == proxies_with(Seq::empty(), client_setting(net))
    &&& !r.system_proxy
}

fn relay_client(net: &NetProxy, max_idle: usize, timeout_secs: u64) -> (r: ClientSettings)
    ensures
        is_relay_client(r, *net, max_idle, timeout_secs),
{
    let builder = ClientSettings::builder();
    assert(setting_views(builder.proxies@) == Seq::<SettingView>::empty());
    let mut r = builder.dtv_proxy(net);
    r.http1_only = true;
    r.gzip = false;
    r.brotli = false;
    r.deflate = false;
    r.pool_idle_timeout_secs = Some(15);
    r.pool_max_idle_per_host = Some(max_idle);
    r.tcp_keepalive_secs = Some(30);
    r.connect_timeout_secs = Some(15);
    r.timeout_secs = Some(timeout_secs);
    r
}

/// The client that fetches images and playlists.
pub fn build_image_proxy_client(net: &NetProxy) -> (r: ClientSettings)
    ensures
        is_relay_client(r, *net, 2, 30),
{
    relay_client(net, 2, 30)
}

/// The client that fetches live streams, which may run for hours.
pub fn build_flv_proxy_client(net: &NetProxy) -> (r: ClientSettings)
    ensures
        is_relay_client(r, *net, 1, 7200),
{
    relay_client(net, 1, 7200)
}

/// The report that the client for images and playlists could not be built.
pub fn image_client_failure(detail: &str) -> (r: String)
    ensures
        r@ == "failed to build image proxy client: "@ + detail@,
{
    let mut r = "failed to build image proxy client: ".to_owned();
    r.append(detail);
    r
}

/// The report that the client for live streams could not be built.
pub fn flv_client_failure(detail: &str) -> (r: String)
    ensures
        r@ == "failed to build flv proxy client: "@ + detail@,
{
    let mut r = "failed to build flv proxy client: ".to_owned();
    r.append(detail);
    r
}

/// The program's own client.
pub fn build_main_client(net: &NetProxy) -> (r: ClientSettings)
    ensures
        text::opt_view(r.user_agent) == Some(MAIN_USER_AGENT@),
        r.http1_only,
        r.pool_max_idle_per_host == Some(2usize),
        r.pool_idle_timeout_secs == Some(15u64),
        r.tcp_keepalive_secs is None,
        r.connect_timeout_secs == Some(15u64),
        r.timeout_secs == Some(45u64),
        r.gzip && r.brotli && r.deflate,
        setting_views(r.proxies@) == proxies_with(Seq::empty(), client_setting(*net)),
        !r.system_proxy,
{
    let mut builder = ClientSettings::builder();
    assert(setting_views(builder.proxies@) == Seq::<SettingView>::empty());
    builder.user_agent = Some(MAIN_USER_AGENT.to_owned());
    builder.http1_only = true;
    builder.connect_timeout_secs = Some(15);
    builder.timeout_secs = Some(45);
    apply(builder, net)
}

} // verus!
