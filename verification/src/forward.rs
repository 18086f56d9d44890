//! The local forwarder: what to do with a request that a client sends it.
use crate::boundary;
use crate::boundary::{UrlParts, UrlView};
use crate::http_head;
use crate::local;
use crate::net_proxy;
use crate::net_proxy::{NetProxy, ParsedProxy, ProxyKind, ProxyView};
use crate::text;
use crate::tunnel;
use vstd::prelude::*;

verus! {

/// What the client is told once its tunnel stands.
pub const TUNNEL_REPLY: &'static str = "HTTP/1.1 200 Connection established\r\n\r\n";

/// How a request is carried out: connect to `host` and `port` (by the way to that
/// destination, or directly, for the upstream proxy itself); once the connection stands,
/// send `reply` to the client and `data` to the other side, then copy both ways.
#[derive(Debug)]
pub struct ForwardPlan {
    pub routed: bool,
    pub host: String,
    pub port: u16,
    pub reply: Vec<u8>,
    pub data: Vec<u8>,
}

/// What a [`ForwardPlan`] holds.
#[verifier::ext_equal]
pub struct PlanView {
    pub routed: bool,
    pub host: Seq<char>,
    pub port: u16,
    pub reply: Seq<u8>,
    pub data: Seq<u8>,
}

impl View for ForwardPlan {
    type V = PlanView;

    open spec fn view(&self) -> PlanView {
        PlanView {
            routed: self.routed,
            host: self.host@,
            port: self.port,
            reply: self.reply@,
            data: self.data@,
        }
    }
}

/// The view of a plan, or of what is wrong.
pub open spec fn plan_result_view(r: Result<ForwardPlan, String>) -> Result<PlanView, Seq<char>> {
    match r {
        Ok(plan) => Ok(plan@),
        Err(message) => Err(message@),
    }
}

/// A request line asks for a tunnel.
pub open spec fn asks_for_tunnel(line: Seq<char>) -> bool {
    text::starts_with(text::raised(line), "CONNECT "@)
}

/// The destination of a tunnel that a request line asks for.
pub open spec fn tunnel_destination(line: Seq<char>) -> Result<(Seq<char>, u16), Seq<char>> {
    http_head::host_and_port(http_head::word_or(line, 1, Seq::empty()))
}

/// The host that a request is for, as a tunnel or in itself; none where it names none.
pub open spec fn requested_host(head: Seq<char>, url: Option<UrlView>) -> Option<Seq<char>> {
    let line = text::first_line(head);
    if asks_for_tunnel(line) {
        match tunnel_destination(line) {
            Ok((host, _)) => Some(host),
            Err(_) => None,
        }
    } else {
        match http_head::rewritten_request(head, url) {
            Ok((host, _, _)) => Some(host),
            Err(_) => None,
        }
    }
}

/// A plain request, turned into one for its own host, is for a local host.
pub open spec fn is_for_local_host(
    own: Result<(Seq<char>, u16, Seq<char>), Seq<char>>,
) -> bool {
    own matches Ok((host, _, _)) && local::is_local_destination(host)
}

/// The plan for a request with the head `head`, of which `url` is what its target
/// parses as. `buf` is all that the client sent so far, `leftover` what is behind
/// the head.
///
/// A request for a tunnel gets one, with `leftover` as its first bytes. Any other
/// request goes to an HTTP proxy as it is, unless it is for a local host; that one,
/// and every one where the proxy is a SOCKS proxy, is turned into a request for its
/// own host, and goes there.
pub open spec fn plan_for_head(
    proxy: ProxyView,
    head: Seq<char>,
    url: Option<UrlView>,
    buf: Seq<u8>,
    leftover: Seq<u8>,
) -> Result<PlanView, Seq<char>> {
    let line = text::first_line(head);
    let own = http_head::rewritten_request(head, url);
    if asks_for_tunnel(line) {
        match tunnel_destination(line) {
            Ok((host, port)) => Ok(
                PlanView {
                    routed: true,
                    host,
                    port,
                    reply: vstd::utf8::encode_utf8(TUNNEL_REPLY@),
                    data: leftover,
                },
            ),
            Err(message) => Err(message),
        }
    } else if proxy.kind == ProxyKind::Http && !is_for_local_host(own) {
        Ok(
            PlanView {
                routed: false,
                host: proxy.host,
                port: proxy.port,
                reply: Seq::empty(),
                data: buf,
            },
        )
    } else {
        match own {
            Ok((host, port, request)) => Ok(
                PlanView {
                    routed: true,
                    host,
                    port,
                    reply: Seq::empty(),
                    data: vstd::utf8::encode_utf8(request) + leftover,
                },
            ),
            Err(message) => Err(message),
        }
    }
}

/// The plan for a head of `n` bytes that reads as `head`.
pub open spec fn plan_for_text(
    proxy: ProxyView,
    head: Seq<char>,
    buf: Seq<u8>,
    n: int,
) -> Result<PlanView, Seq<char>> {
    plan_for_head(
        proxy,
        head,
        boundary::url_parse(http_head::request_target(head)),
        buf,
        buf.skip(n),
    )
}

/// The plan for what a client sent to the forwarder.
pub open spec fn forward_plan(
    proxy: Option<ProxyView>,
    buf: Seq<u8>,
) -> Result<PlanView, Seq<char>> {
    match proxy {
        Some(p) => match http_head::head_len(buf) {
            Some(n) => plan_for_text(p, boundary::utf8_lossy(buf.take(n)), buf, n),
            None => Err("incomplete http request from reqwest"@),
        },
        None => Err("proxy missing"@),
    }
}

/// Tells whether the request line of a head asks for a tunnel.
pub fn head_asks_for_tunnel(head: &str) -> (r: bool)
    ensures
        r == asks_for_tunnel(text::first_line(head@)),
{
    let all = text::chars_of(head);
    let line = text::upper_text(text::head_line(all.as_slice()));
    text::begins(line.as_slice(), "CONNECT ")
}

/// Plans a request with the head `head`, of which `url` is what its target parses
/// as. All that the client sent is in `buf`, the head in its first `head_len` bytes.
pub fn plan_head(
    proxy: &ParsedProxy,
    head: &str,
    url: Option<UrlParts>,
    buf: &[u8],
    head_len: usize,
) -> (r: Result<ForwardPlan, String>)
    requires
        head_len <= buf@.len(),
    ensures
        plan_result_view(r) == plan_for_head(
            proxy@,
            head@,
            boundary::opt_url_view(url),
            buf@,
            buf@.skip(head_len as int),
        ),
{
    let leftover: &[u8] = &buf[head_len..buf.len()];
    assert(leftover@ == buf@.skip(head_len as int));
    if head_asks_for_tunnel(head) {
        let all = text::chars_of(head);
        let line = text::head_line(all.as_slice());
        let dest = match text::word(line, 1) {
            Some(w) => text::string_of(w),
            None => String::new(),
        };
        return match http_head::parse_connect_authority(dest.as_str()) {
            Ok((host, port)) => Ok(
                ForwardPlan {
                    routed: true,
                    host,
                    port,
                    reply: vstd::slice::slice_to_vec(TUNNEL_REPLY.as_bytes()),
                    data: vstd::slice::slice_to_vec(leftover),
                },
            ),
            Err(message) => Err(message),
        };
    }
    let own = http_head::rewrite_request_for(head, url);
    let home = match &own {
        Ok((host, _, _)) => local::is_local_host(host.as_str()),
        Err(_) => false,
    };
    if proxy.kind == ProxyKind::Http && !home {
        return Ok(
            ForwardPlan {
                routed: false,
                host: proxy.host.as_str().to_owned(),
                port: proxy.port,
                reply: Vec::new(),
                data: vstd::slice::slice_to_vec(buf),
            },
        );
    }
    match own {
        Ok((host, port, request)) => {
            let mut data = vstd::slice::slice_to_vec(request.as_str().as_bytes());
            data.extend_from_slice(leftover);
            assert(data@ == vstd::utf8::encode_utf8(request@) + leftover@);
            Ok(ForwardPlan { routed: true, host, port, reply: Vec::new(), data })
        },
        Err(message) => Err(message),
    }
}

/// What goes out once the connection of a plan was tried: to the client and to the other
/// side, or else a report. Nothing goes out where the connection does not stand.
pub open spec fn sent_after(
    plan: PlanView,
    connected: Result<(), Seq<char>>,
) -> Result<(Seq<u8>, Seq<u8>), Seq<char>> {
    match connected {
        Ok(()) => Ok((plan.reply, plan.data)),
        Err(e) => if plan.routed {
            Err(e)
        } else {
            Err("http proxy connect failed: "@ + e)
        },
    }
}

/// The view of what goes out, or of a report.
pub open spec fn sent_view(r: Result<(Vec<u8>, Vec<u8>), String>) -> Result<
    (Seq<u8>, Seq<u8>),
    Seq<char>,
> {
    match r {
        Ok((reply, data)) => Ok((reply@, data@)),
        Err(message) => Err(message@),
    }
}

/// What to send to the client and what to the other side, from what came of connecting
/// as planned. The client is answered only where the connection stands; a connection
/// that failed is what the request comes to.
pub fn connection_made(plan: ForwardPlan, connected: Result<(), String>) -> (r: Result<
    (Vec<u8>, Vec<u8>),
    String,
>)
    ensures
        sent_view(r) == sent_after(plan@, tunnel::verdict_view(connected)),
{
    match connected {
        Ok(()) => Ok((plan.reply, plan.data)),
        Err(e) => if plan.routed {
            Err(e)
        } else {
            Err(tunnel::http_proxy_failure(e.as_str()))
        },
    }
}

/// Plans what a client sent to the forwarder.
pub fn handle_forwarded_conn(net: &NetProxy, buf: &[u8]) -> (r: Result<ForwardPlan, String>)
    ensures
        plan_result_view(r) == forward_plan(net_proxy::opt_proxy_view(net.proxy), buf@),
        net.proxy matches Some(proxy) ==> http_head::head_len(buf@) matches Some(n)
            ==> vstd::utf8::valid_utf8(buf@.take(n)) ==> plan_result_view(r) == plan_for_text(
            proxy@,
            vstd::utf8::decode_utf8(buf@.take(n)),
            buf@,
            n,
        ),
{
    let proxy = match net_proxy::current(net) {
        Some(proxy) => proxy,
        None => {
            return Err("proxy missing".to_owned());
        },
    };
    match http_head::split_http_headers(buf) {
        Some((end, head)) => {
            let url = boundary::parse_url(http_head::target_of(head.as_str()).as_str());
            plan_head(proxy, head.as_str(), url, buf, end)
        },
        None => Err("incomplete http request from reqwest".to_owned()),
    }
}

} // verus!
