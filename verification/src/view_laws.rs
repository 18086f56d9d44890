//! What the contracts speak of is what the values hold: a view leaves nothing of it out
//! and changes nothing.
use crate::boundary;
use crate::boundary::UrlParts;
use crate::client;
use crate::client::ProxySetting;
use crate::forward;
use crate::forward::ForwardPlan;
use crate::http_head;
use crate::net_proxy;
use crate::net_proxy::{EnvVar, NetProxy, ParsedProxy};
use crate::relay;
use crate::relay::{BodyView, Header, Reply, ReplyBody, UpstreamRequest};
use crate::server;
use crate::socks5;
use crate::socks5::{Phase, Socks5Connect, SocksAction, SocksError, SocksStep};
use crate::text;
use crate::tunnel;
use crate::tunnel::{ConnectAttempts, ConnectStep, ConnectStepView, RouteView, TcpRoute};
use vstd::prelude::*;

verus! {

/// An optional text is shown as the text that it is.
pub proof fn texts_show_themselves(s: String, t: &str, list: Seq<String>, rows: Seq<Vec<char>>, i: int)
    requires
        0 <= i < list.len(),
        i < rows.len(),
    ensures
        text::opt_view(Some(s)) == Some(s@),
        text::opt_view(None) is None,
        text::opt_str_view(Some(t)) == Some(t@),
        text::opt_str_view(None) is None,
        text::string_views(list).len() == list.len(),
        text::string_views(list)[i] == list[i]@,
        text::char_views(rows).len() == rows.len(),
        text::char_views(rows)[i] == rows[i]@,
{
}

/// The parts of a URL are shown as they are.
pub proof fn urls_show_their_parts(u: UrlParts)
    ensures
        u@.href == u.href@,
        u@.scheme == u.scheme@,
        u@.username == u.username@,
        u.password matches Some(p) ==> u@.password == Some(p@),
        u.password is None ==> u@.password is None,
        u.host matches Some(h) ==> u@.host == Some(h@),
        u.host is None ==> u@.host is None,
        u@.port == u.port,
        u@.known_port == u.known_port,
        u@.path == u.path@,
        u.query matches Some(q) ==> u@.query == Some(q@),
        u.query is None ==> u@.query is None,
        boundary::opt_url_view(Some(u)) == Some(u@),
        boundary::opt_url_view(None) is None,
{
}

/// A proxy and the state around it are shown as they are.
pub proof fn proxies_show_themselves(p: ParsedProxy, net: NetProxy, vars: Seq<EnvVar>, i: int)
    requires
        0 <= i < vars.len(),
    ensures
        p@.raw == p.raw@,
        p@.kind == p.kind,
        p@.host == p.host@,
        p@.port == p.port,
        p.username matches Some(u) ==> p@.username == Some(u@),
        p.username is None ==> p@.username is None,
        p.password matches Some(w) ==> p@.password == Some(w@),
        p.password is None ==> p@.password is None,
        net_proxy::opt_proxy_view(Some(p)) == Some(p@),
        net_proxy::opt_proxy_view(None) is None,
        net.proxy matches Some(q) ==> net@.proxy == Some(q@),
        net.proxy is None ==> net@.proxy is None,
        net@.forwarder_port == net.forwarder_port,
        net_proxy::opt_net_view(Some(&net)) == Some(net@),
        net_proxy::opt_net_view(None) is None,
        net_proxy::env_views(vars).len() == vars.len(),
        net_proxy::env_views(vars)[i] == (vars[i].name@, vars[i].value@),
{
}

/// The proxies of a client are shown as they are.
pub proof fn settings_show_themselves(s: ProxySetting, list: Seq<ProxySetting>, i: int)
    requires
        0 <= i < list.len(),
    ensures
        s@.url == s.url@,
        s@.no_proxy == s.no_proxy@,
        client::opt_setting_view(Some(s)) == Some(s@),
        client::opt_setting_view(None) is None,
        client::setting_views(list).len() == list.len(),
        client::setting_views(list)[i] == list[i]@,
{
}

/// A plan, and what goes out by it, are shown as they are.
pub proof fn plans_show_themselves(
    plan: ForwardPlan,
    reply: Vec<u8>,
    data: Vec<u8>,
    message: String,
)
    ensures
        plan@.routed == plan.routed,
        plan@.host == plan.host@,
        plan@.port == plan.port,
        plan@.reply == plan.reply@,
        plan@.data == plan.data@,
        forward::plan_result_view(Ok(plan)) == Ok::<forward::PlanView, Seq<char>>(plan@),
        forward::plan_result_view(Err(message)) == Err::<forward::PlanView, Seq<char>>(message@),
        forward::sent_view(Ok((reply, data))) == Ok::<(Seq<u8>, Seq<u8>), Seq<char>>(
            (reply@, data@),
        ),
        forward::sent_view(Err(message)) == Err::<(Seq<u8>, Seq<u8>), Seq<char>>(message@),
{
}

/// A destination, a rewritten request, a verdict and an address are shown as they are.
pub proof fn results_show_themselves(host: String, port: u16, request: String, message: String)
    ensures
        http_head::destination_view(Ok((host, port))) == Ok::<(Seq<char>, u16), Seq<char>>(
            (host@, port),
        ),
        http_head::destination_view(Err(message)) == Err::<(Seq<char>, u16), Seq<char>>(message@),
        http_head::rewritten_view(Ok((host, port, request))) == Ok::<
            (Seq<char>, u16, Seq<char>),
            Seq<char>,
        >((host@, port, request@)),
        http_head::rewritten_view(Err(message)) == Err::<(Seq<char>, u16, Seq<char>), Seq<char>>(
            message@,
        ),
        tunnel::verdict_view(Ok(())) == Ok::<(), Seq<char>>(()),
        tunnel::verdict_view(Err(message)) == Err::<(), Seq<char>>(message@),
        server::address_view(Ok(host)) == Ok::<Seq<char>, Seq<char>>(host@),
        server::address_view(Err(message)) == Err::<Seq<char>, Seq<char>>(message@),
{
}

/// Attempts, their steps and routes are shown as they are.
pub proof fn routes_show_themselves(
    attempts: ConnectAttempts,
    host_header: String,
    request: String,
    proxy_host: String,
    proxy_port: u16,
    user: String,
    pass: String,
)
    ensures
        attempts@.dest_host == attempts.dest_host@,
        attempts@.dest_port == attempts.dest_port,
        attempts@.failed == attempts.failed,
        attempts@.last_err == attempts.last_err@,
        (ConnectStep::Try { host_header, request })@ == (ConnectStepView::Try {
            host_header: host_header@,
            request: request@,
        }),
        ConnectStep::GiveUp(request)@ == ConnectStepView::GiveUp(request@),
        TcpRoute::Direct@ == RouteView::Direct,
        (TcpRoute::Http { proxy_host, proxy_port })@ == (RouteView::Http {
            proxy_host: proxy_host@,
            proxy_port,
        }),
        (TcpRoute::Socks5 { proxy_host, proxy_port, credentials: Some((user, pass)) })@ == (
        RouteView::Socks5 {
            proxy_host: proxy_host@,
            proxy_port,
            credentials: Some((user@, pass@)),
        }),
        (TcpRoute::Socks5 { proxy_host, proxy_port, credentials: None })@ == (RouteView::Socks5 {
            proxy_host: proxy_host@,
            proxy_port,
            credentials: None,
        }),
{
}

/// A handshake is shown as it is, and an action carries out the step that it stands for
/// and no other.
pub proof fn handshakes_show_themselves(
    s: Socks5Connect,
    send: Vec<u8>,
    read: usize,
    phase: Phase,
    bytes: Seq<u8>,
    e: SocksError,
    error: SocksError,
)
    ensures
        s.username matches Some(u) ==> s@.username == Some(u@),
        s.username is None ==> s@.username is None,
        s.password matches Some(p) ==> s@.password == Some(p@),
        s.password is None ==> s@.password is None,
        s@.dest_host == s.dest_host@,
        s@.dest_port == s.dest_port,
        socks5::carries_out(
            (SocksAction::Exchange { send, read }),
            (SocksStep::GoOn { phase, send: bytes }),
        ) <==> send@ == bytes && read == phase.expected(),
        socks5::carries_out(SocksAction::Done, SocksStep::Done),
        socks5::carries_out(SocksAction::Fail(e), SocksStep::Fail(error)) <==> e == error,
        !socks5::carries_out((SocksAction::Exchange { send, read }), SocksStep::Done),
        !socks5::carries_out((SocksAction::Exchange { send, read }), SocksStep::Fail(error)),
        !socks5::carries_out(SocksAction::Done, (SocksStep::GoOn { phase, send: bytes })),
        !socks5::carries_out(SocksAction::Done, SocksStep::Fail(error)),
        !socks5::carries_out(SocksAction::Fail(e), (SocksStep::GoOn { phase, send: bytes })),
        !socks5::carries_out(SocksAction::Fail(e), SocksStep::Done),
        (SocksStep::GoOn { phase, send: bytes }).phase() == phase,
        SocksStep::Done.phase() is Connected,
        SocksStep::Fail(error).phase() is Failed,
        phase.is_over() <==> phase is Connected || phase is Failed,
{
}

/// Requests and answers are shown as they are.
pub proof fn answers_show_themselves(
    request: UpstreamRequest,
    reply: Reply,
    message: String,
    headers: Seq<Header>,
    i: int,
)
    requires
        0 <= i < headers.len(),
    ensures
        request@.url == request.url@,
        request@.headers == relay::header_views(request.headers@),
        reply@.status == reply.status,
        reply.content_type matches Some(t) ==> reply@.content_type == Some(t@),
        reply.content_type is None ==> reply@.content_type is None,
        reply@.headers == relay::header_views(reply.headers@),
        reply@.body == reply.body@,
        ReplyBody::Text(message)@ == BodyView::Text(message@),
        ReplyBody::Whole@ == BodyView::Whole,
        ReplyBody::Stream@ == BodyView::Stream,
        relay::header_views(headers).len() == headers.len(),
        relay::header_views(headers)[i] == (headers[i].name@, headers[i].value@),
        relay::request_view(Ok(request)) == Ok::<relay::RequestView, relay::ReplyView>(request@),
        relay::request_view(Err(reply)) == Err::<relay::RequestView, relay::ReplyView>(reply@),
{
}

} // verus!
