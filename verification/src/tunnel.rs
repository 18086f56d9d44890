//! The way to a destination: directly, through a SOCKS proxy, or through a tunnel
//! that an HTTP proxy is asked for.
use crate::boundary;
use crate::http_head;
use crate::local;
use crate::net_proxy;
use crate::net_proxy::{NetProxy, ParsedProxy, ProxyKind, ProxyView};
use crate::text;
use vstd::prelude::*;

verus! {

/// A head that is this long is not read any further.
pub const HEAD_LIMIT: usize = 8192;

/// The bytes of an HTTP head, as they come in.
#[derive(Debug)]
pub struct HeadReader {
    pub buf: Vec<u8>,
}

/// Nothing more is read: the head has its blank line, or it is too long.
pub open spec fn head_is_read(buf: Seq<u8>) -> bool {
    text::contains(buf, http_head::head_end_mark()) || buf.len() >= HEAD_LIMIT
}

impl HeadReader {
    /// A reader that has read nothing.
    pub fn new() -> (r: HeadReader)
        ensures
            r.buf@.len() == 0,
    {
        HeadReader { buf: Vec::new() }
    }

    /// Takes in what one read gave, and tells whether the reading ends. A read that
    /// gave nothing is the end of the connection.
    pub fn feed(&mut self, chunk: &[u8]) -> (done: bool)
        ensures
            final(self).buf@ == old(self).buf@ + chunk@,
            done == (chunk@.len() == 0 || head_is_read(final(self).buf@)),
    {
        if chunk.len() == 0 {
            assert(self.buf@ == old(self).buf@ + chunk@);
            return true;
        }
        self.buf.extend_from_slice(chunk);
        assert(self.buf@ == old(self).buf@ + chunk@);
        proof {
            text::find_is_first(self.buf@, http_head::head_end_mark());
        }
        http_head::find_head_end(self.buf.as_slice()).is_some() || self.buf.len() >= HEAD_LIMIT
    }
}

/// What a proxy's status line says about a tunnel that it was asked for.
pub open spec fn tunnel_verdict(status_line: Seq<char>) -> Result<(), Seq<char>> {
    if http_head::is_status_ok(status_line) {
        Ok(())
    } else {
        Err("http proxy CONNECT failed: "@ + status_line)
    }
}

/// What the bytes that a proxy sent say about a tunnel that it was asked for, where
/// the whole head has to be there.
pub open spec fn tunnel_verdict_on(buf: Seq<u8>) -> Result<(), Seq<char>> {
    match http_head::head_len(buf) {
        Some(n) => tunnel_verdict(text::first_line(boundary::utf8_lossy(buf.take(n)))),
        None => Err("http proxy CONNECT failed: "@ + boundary::utf8_lossy(buf)),
    }
}

/// The view of a verdict.
pub open spec fn verdict_view(r: Result<(), String>) -> Result<(), Seq<char>> {
    match r {
        Ok(()) => Ok(()),
        Err(message) => Err(message@),
    }
}

fn tunnel_failure(detail: &str) -> (r: String)
    ensures
        r@ == "http proxy CONNECT failed: "@ + detail@,
{
    let mut r = "http proxy CONNECT failed: ".to_owned();
    r.append(detail);
    r
}

/// Judges the text of a proxy's reply by its first line.
pub fn judge_reply_text(reply: &str) -> (r: Result<(), String>)
    ensures
        verdict_view(r) == tunnel_verdict(text::first_line(reply@)),
{
    let all = text::chars_of(reply);
    let status = text::string_of(text::head_line(all.as_slice()));
    if http_head::connect_status_ok(status.as_str()) {
        Ok(())
    } else {
        Err(tunnel_failure(status.as_str()))
    }
}

/// Judges a proxy's reply, of which the whole head has to be there.
pub fn judge_whole_reply(buf: &[u8]) -> (r: Result<(), String>)
    ensures
        verdict_view(r) == tunnel_verdict_on(buf@),
        http_head::head_len(buf@) matches Some(n) ==> vstd::utf8::valid_utf8(buf@.take(n))
            ==> verdict_view(r) == tunnel_verdict(
            text::first_line(vstd::utf8::decode_utf8(buf@.take(n))),
        ),
        http_head::head_len(buf@) is None ==> vstd::utf8::valid_utf8(buf@) ==> verdict_view(r)
            == Err::<(), Seq<char>>(
            "http proxy CONNECT failed: "@ + vstd::utf8::decode_utf8(buf@),
        ),
{
    match http_head::split_http_headers(buf) {
        Some((_, head)) => judge_reply_text(head.as_str()),
        None => {
            let shown = boundary::lossy_text(buf);
            Err(tunnel_failure(shown.as_str()))
        },
    }
}

/// Judges what has come of a proxy's reply, whole or not.
pub fn judge_partial_reply(buf: &[u8]) -> (r: Result<(), String>)
    ensures
        verdict_view(r) == tunnel_verdict(text::first_line(boundary::utf8_lossy(buf@))),
        vstd::utf8::valid_utf8(buf@) ==> verdict_view(r) == tunnel_verdict(
            text::first_line(vstd::utf8::decode_utf8(buf@)),
        ),
{
    let shown = boundary::lossy_text(buf);
    judge_reply_text(shown.as_str())
}

/// The attempts at a tunnel: one for each value of the `Host` header.
#[derive(Debug)]
pub struct ConnectAttempts {
    pub dest_host: String,
    pub dest_port: u16,
    pub candidates: Vec<String>,
    /// The number of attempts that failed.
    pub failed: usize,
    /// What went wrong last.
    pub last_err: String,
}

/// What to do about a tunnel.
#[derive(Debug)]
pub enum ConnectStep {
    /// Send `request` to the proxy and judge the reply.
    Try { host_header: String, request: String },
    /// Report this failure.
    GiveUp(String),
}

/// What a [`ConnectStep`] holds.
#[verifier::ext_equal]
pub enum ConnectStepView {
    Try { host_header: Seq<char>, request: Seq<char> },
    GiveUp(Seq<char>),
}

impl View for ConnectStep {
    type V = ConnectStepView;

    open spec fn view(&self) -> ConnectStepView {
        match self {
            ConnectStep::Try { host_header, request } => ConnectStepView::Try {
                host_header: host_header@,
                request: request@,
            },
            ConnectStep::GiveUp(message) => ConnectStepView::GiveUp(message@),
        }
    }
}

/// What a [`ConnectAttempts`] holds.
#[verifier::ext_equal]
pub struct AttemptsView {
    pub dest_host: Seq<char>,
    pub dest_port: u16,
    pub failed: nat,
    pub last_err: Seq<char>,
}

impl AttemptsView {
    /// No attempt was made yet.
    pub open spec fn start(dest_host: Seq<char>, dest_port: u16) -> AttemptsView {
        AttemptsView { dest_host, dest_port, failed: 0, last_err: "http proxy CONNECT failed"@ }
    }

    /// One more attempt failed.
    pub open spec fn after_failure(self, message: Seq<char>) -> AttemptsView {
        AttemptsView { failed: self.failed + 1, last_err: message, ..self }
    }

    /// What to do next.
    pub open spec fn next_step(self, proxy: ProxyView) -> ConnectStepView {
        let headers = http_head::host_headers(self.dest_host, self.dest_port);
        if self.failed < headers.len() {
            let header = headers[self.failed as int];
            ConnectStepView::Try {
                host_header: header,
                request: http_head::connect_request(
                    self.dest_host,
                    self.dest_port,
                    header,
                    proxy,
                ),
            }
        } else {
            ConnectStepView::GiveUp(self.last_err)
        }
    }
}

impl View for ConnectAttempts {
    type V = AttemptsView;

    open spec fn view(&self) -> AttemptsView {
        AttemptsView {
            dest_host: self.dest_host@,
            dest_port: self.dest_port,
            failed: self.failed as nat,
            last_err: self.last_err@,
        }
    }
}

impl ConnectAttempts {
    /// The candidates are those of the destination, and no more attempts failed than
    /// there are candidates.
    pub open spec fn wf(self) -> bool {
        &&& text::string_views(self.candidates@) == http_head::host_headers(
            self.dest_host@,
            self.dest_port,
        )
        &&& self.failed <= self.candidates@.len()
    }

    /// The attempts at a tunnel to a destination.
    pub fn new(dest_host: &str, dest_port: u16) -> (r: ConnectAttempts)
        ensures
            r.wf(),
            r@ == AttemptsView::start(dest_host@, dest_port),
    {
        ConnectAttempts {
            dest_host: dest_host.to_owned(),
            dest_port,
            candidates: http_head::host_header_candidates(dest_host, dest_port),
            failed: 0,
            last_err: "http proxy CONNECT failed".to_owned(),
        }
    }

    /// What to do next.
    pub fn next_step(&self, proxy: &ParsedProxy) -> (r: ConnectStep)
        requires
            self.wf(),
        ensures
            r@ == self@.next_step(proxy@),
    {
        assert(text::string_views(self.candidates@).len() == self.candidates@.len());
        if self.failed < self.candidates.len() {
            let header = self.candidates[self.failed].as_str();
            assert(header@ == text::string_views(self.candidates@)[self.failed as int]);
            let request = http_head::build_connect_request(
                self.dest_host.as_str(),
                self.dest_port,
                header,
                proxy,
            );
            ConnectStep::Try { host_header: header.to_owned(), request }
        } else {
            ConnectStep::GiveUp(self.last_err.as_str().to_owned())
        }
    }

    /// Records that the attempt at hand failed.
    pub fn record_failure(&mut self, message: String)
        requires
            old(self).wf(),
            old(self).failed < old(self).candidates@.len(),
        ensures
            final(self).wf(),
            final(self)@ == old(self)@.after_failure(message@),
    {
        let count: usize = self.candidates.len();
        assert(self.failed < count);
        self.failed += 1;
        self.last_err = message;
    }
}

/// Both values of the `Host` header are tried, the bare host first; where both
/// fail, what is reported is what went wrong with the second.
pub proof fn both_host_headers_are_tried(
    dest_host: Seq<char>,
    dest_port: u16,
    proxy: ProxyView,
    first: Seq<char>,
    second: Seq<char>,
)
    ensures
        ({
            let s0 = AttemptsView::start(dest_host, dest_port);
            let s1 = s0.after_failure(first);
            let s2 = s1.after_failure(second);
            let bare = dest_host;
            let full = http_head::authority(dest_host, dest_port);
            &&& s0.next_step(proxy) == ConnectStepView::Try {
                host_header: bare,
                request: http_head::connect_request(dest_host, dest_port, bare, proxy),
            }
            &&& s1.next_step(proxy) == ConnectStepView::Try {
                host_header: full,
                request: http_head::connect_request(dest_host, dest_port, full, proxy),
            }
            &&& s2.next_step(proxy) == ConnectStepView::GiveUp(second)
        }),
{
}

/// The way to a destination.
#[derive(Debug)]
pub enum TcpRoute {
    /// Connect to the destination.
    Direct,
    /// Connect through a SOCKS proxy, with a name and a password where both are known.
    Socks5 { proxy_host: String, proxy_port: u16, credentials: Option<(String, String)> },
    /// Ask an HTTP proxy for a tunnel.
    Http { proxy_host: String, proxy_port: u16 },
}

/// What a [`TcpRoute`] holds.
#[verifier::ext_equal]
pub enum RouteView {
    Direct,
    Socks5 {
        proxy_host: Seq<char>,
        proxy_port: u16,
        credentials: Option<(Seq<char>, Seq<char>)>,
    },
    Http { proxy_host: Seq<char>, proxy_port: u16 },
}

/// The view of a name and a password.
pub open spec fn credentials_view(c: Option<(String, String)>) -> Option<(Seq<char>, Seq<char>)> {
    match c {
        Some((user, pass)) => Some((user@, pass@)),
        None => None,
    }
}

impl View for TcpRoute {
    type V = RouteView;

    open spec fn view(&self) -> RouteView {
        match self {
            TcpRoute::Direct => RouteView::Direct,
            TcpRoute::Socks5 { proxy_host, proxy_port, credentials } => RouteView::Socks5 {
                proxy_host: proxy_host@,
                proxy_port: *proxy_port,
                credentials: credentials_view(*credentials),
            },
            TcpRoute::Http { proxy_host, proxy_port } => RouteView::Http {
                proxy_host: proxy_host@,
                proxy_port: *proxy_port,
            },
        }
    }
}

/// The way that an upstream proxy, or the lack of one, makes.
pub open spec fn route_through(proxy: Option<ProxyView>) -> RouteView {
    match proxy {
        None => RouteView::Direct,
        Some(p) => match p.kind {
            ProxyKind::Socks5 => RouteView::Socks5 {
                proxy_host: p.host,
                proxy_port: p.port,
                credentials: match (p.username, p.password) {
                    (Some(user), Some(pass)) => Some((user, pass)),
                    _ => None,
                },
            },
            ProxyKind::Http => RouteView::Http { proxy_host: p.host, proxy_port: p.port },
        },
    }
}

/// The way to a destination: this machine and the private networks are reached
/// directly, whatever the proxy is.
pub open spec fn route_to(proxy: Option<ProxyView>, host: Seq<char>) -> RouteView {
    if local::is_local_destination(host) {
        RouteView::Direct
    } else {
        route_through(proxy)
    }
}

/// The way to the destination `host`.
pub fn tcp_route(net: &NetProxy, host: &str) -> (r: TcpRoute)
    ensures
        r@ == route_to(net_proxy::opt_proxy_view(net.proxy), host@),
{
    if local::is_local_host(host) {
        return TcpRoute::Direct;
    }
    match &net.proxy {
        None => TcpRoute::Direct,
        Some(proxy) => match proxy.kind {
            ProxyKind::Socks5 => {
                let credentials = match (&proxy.username, &proxy.password) {
                    (Some(user), Some(pass)) => Some(
                        (user.as_str().to_owned(), pass.as_str().to_owned()),
                    ),
                    _ => None,
                };
                TcpRoute::Socks5 {
                    proxy_host: proxy.host.as_str().to_owned(),
                    proxy_port: proxy.port,
                    credentials,
                }
            },
            ProxyKind::Http => TcpRoute::Http {
                proxy_host: proxy.host.as_str().to_owned(),
                proxy_port: proxy.port,
            },
        },
    }
}

/// The report that a SOCKS proxy gave no connection.
pub fn socks5_failure(detail: &str) -> (r: String)
    ensures
        r@ == "socks5 connect failed: "@ + detail@,
{
    let mut r = "socks5 connect failed: ".to_owned();
    r.append(detail);
    r
}

/// The report that an HTTP proxy could not be reached.
pub fn http_proxy_failure(detail: &str) -> (r: String)
    ensures
        r@ == "http proxy connect failed: "@ + detail@,
{
    let mut r = "http proxy connect failed: ".to_owned();
    r.append(detail);
    r
}

/// Where a web socket connects, and whether it speaks TLS there.
#[derive(Debug)]
pub struct WsTarget {
    pub host: String,
    pub port: u16,
    pub tls: bool,
}

/// A scheme that stands for TLS.
pub open spec fn is_tls_scheme(scheme: Seq<char>) -> bool {
    text::lowered(scheme) == text::lowered("wss"@) || text::lowered(scheme) == text::lowered(
        "https"@,
    )
}

/// Where a web socket connects, from the parts of its address: host, port, and
/// whether it speaks TLS. Without a scheme it is a plain one, without a port the
/// scheme's usual port counts.
pub open spec fn ws_destination(
    host: Option<Seq<char>>,
    scheme: Option<Seq<char>>,
    port: Option<u16>,
) -> Result<(Seq<char>, u16, bool), Seq<char>> {
    match host {
        Some(h) => {
            let tls = is_tls_scheme(
                match scheme {
                    Some(s) => s,
                    None => "ws"@,
                },
            );
            let p: u16 = match port {
                Some(p) => p,
                None => if tls {
                    443
                } else {
                    80
                },
            };
            Ok((h, p, tls))
        },
        None => Err("websocket url missing host"@),
    }
}

/// Where a web socket connects, from the parts of its address.
pub fn ws_target(host: Option<&str>, scheme: Option<&str>, port: Option<u16>) -> (r: Result<
    WsTarget,
    String,
>)
    ensures
        (match r {
            Ok(t) => Ok((t.host@, t.port, t.tls)),
            Err(message) => Err(message@),
        }) == ws_destination(text::opt_str_view(host), text::opt_str_view(scheme), port),
{
    let host = match host {
        Some(h) => h.to_owned(),
        None => {
            return Err("websocket url missing host".to_owned());
        },
    };
    let scheme = match scheme {
        Some(s) => s,
        None => "ws",
    };
    let s = text::chars_of(scheme);
    let tls = text::same_ignoring_case(s.as_slice(), "wss") || text::same_ignoring_case(
        s.as_slice(),
        "https",
    );
    let port: u16 = match port {
        Some(p) => p,
        None => if tls {
            443
        } else {
            80
        },
    };
    Ok(WsTarget { host, port, tls })
}

/// A web socket goes through the upstream proxy exactly where one is set and its host
/// is not local.
pub fn ws_is_proxied(net: &NetProxy, host: Option<&str>) -> (r: bool)
    ensures
        r == (net.proxy is Some && !(text::opt_str_view(host) matches Some(h)
            && local::is_local_destination(h))),
{
    let home = match host {
        Some(h) => local::is_local_host(h),
        None => false,
    };
    net.proxy.is_some() && !home
}

} // verus!
