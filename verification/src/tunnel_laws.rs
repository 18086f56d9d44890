//! What holds of tunnels, routes and the forwarder's plans as a whole.
use crate::boundary;
use crate::boundary::UrlView;
use crate::forward;
use crate::forward::PlanView;
use crate::http_head;
use crate::local;
use crate::net_proxy::{ProxyKind, ProxyView};
use crate::text;
use crate::text_laws;
use crate::tunnel;
use crate::tunnel::{AttemptsView, RouteView};
use vstd::prelude::*;

verus! {

/// A line of two words or more has these as its first two.
proof fn two_words(first: Seq<char>, second: Seq<char>, rest: Seq<char>)
    requires
        first.len() > 0,
        second.len() > 0,
        text::is_solid(first),
        text::is_solid(second),
        rest.len() > 0 ==> text::is_white_space(rest[0]),
    ensures
        text::nth_word(first + seq![' '] + second + rest, 0) == Some(first),
        text::nth_word(first + seq![' '] + second + rest, 1) == Some(second),
{
    let none = Seq::<char>::empty();
    let line = first + seq![' '] + second + rest;
    let behind = seq![' '] + second + rest;
    text_laws::words_are_read_in_turn(none, first, behind);
    assert(none + first + behind == line);
    text_laws::words_are_read_in_turn(seq![' '], second, rest);
    let words = text::words(line);
    assert(words == seq![first] + (seq![second] + text::words(rest)));
    assert(words[0] == first && words[1] == second);
}

/// A tunnel stands on code 200 and on no other: whatever the proxy's version and
/// whatever it says behind the code. A refusal is reported with the whole status line.
pub proof fn tunnels_stand_on_code_200(version: Seq<char>, code: Seq<char>, rest: Seq<char>)
    requires
        version.len() > 0,
        code.len() > 0,
        text::is_solid(version),
        text::is_solid(code),
        rest.len() > 0 ==> text::is_white_space(rest[0]),
    ensures
        ({
            let line = version + seq![' '] + code + rest;
            &&& http_head::is_status_ok(line) <==> code == "200"@
            &&& tunnel::tunnel_verdict(line) is Ok <==> code == "200"@
            &&& code != "200"@ ==> tunnel::tunnel_verdict(line) == Err::<(), Seq<char>>(
                "http proxy CONNECT failed: "@ + line,
            )
        }),
{
    two_words(version, code, rest);
}

/// No tunnel stands on a line without a second word.
pub proof fn tunnels_need_a_code(word: Seq<char>, space: Seq<char>)
    requires
        text::is_solid(word),
        text_laws::is_space(space),
    ensures
        tunnel::tunnel_verdict(word + space) == Err::<(), Seq<char>>(
            "http proxy CONNECT failed: "@ + (word + space),
        ),
{
    let none = Seq::<char>::empty();
    if word.len() > 0 {
        text_laws::words_are_read_in_turn(none, word, space);
        assert(none + word + space == word + space);
        text_laws::words_are_read_in_turn(space, word, none);
    } else {
        let some = seq!['x'];
        assert(word + space == space);
        text_laws::words_are_read_in_turn(space, some, none);
    }
}

/// A reply is judged by the first line of its head, and by nothing behind it; a reply
/// whose head has no end is a failure that shows all of it.
pub proof fn replies_are_judged_by_their_first_line(buf: Seq<u8>, line: Seq<char>, rest: Seq<char>)
    requires
        text_laws::is_one_line(line),
    ensures
        http_head::head_len(buf) is None ==> tunnel::tunnel_verdict_on(buf) == Err::<
            (),
            Seq<char>,
        >("http proxy CONNECT failed: "@ + boundary::utf8_lossy(buf)),
        http_head::head_len(buf) matches Some(n) ==> boundary::utf8_lossy(buf.take(n)) == line
            + seq!['\r', '\n'] + rest ==> tunnel::tunnel_verdict_on(buf) == tunnel::tunnel_verdict(
            line,
        ),
{
    text_laws::lines_are_read_in_turn(line, rest);
}

/// A head ends behind the first blank line, and where there is none it has no end.
pub proof fn heads_end_at_the_blank_line(front: Seq<u8>, mark: Seq<u8>, back: Seq<u8>)
    requires
        mark == seq![13u8, 10u8, 13u8, 10u8],
        forall|j: int|
            0 <= j < front.len() ==> !#[trigger] text::occurs_at(front + mark, mark, j),
    ensures
        http_head::head_len(front + mark + back) == Some(front.len() as int + 4),
        !text::contains(back, mark) <==> http_head::head_len(back) is None,
{
    assert(mark == http_head::head_end_mark());
    let s = front + mark + back;
    let n = front.len() as int;
    assert(s.subrange(n, n + 4) == mark);
    assert forall|j: int| 0 <= j < n implies !#[trigger] text::occurs_at(s, mark, j) by {
        if text::occurs_at(s, mark, j) {
            assert((front + mark).subrange(j, j + 4) == s.subrange(j, j + 4));
            assert(text::occurs_at(front + mark, mark, j));
        }
    }
    text::find_is_unique(s, mark, n);
    text::find_is_first(back, mark);
}

/// A head is read until it has its blank line or 8192 bytes.
pub proof fn heads_are_read_to_their_end(buf: Seq<u8>)
    ensures
        tunnel::head_is_read(buf) <==> http_head::head_len(buf) is Some || buf.len() >= 8192,
{
    text::find_is_first(buf, http_head::head_end_mark());
}

/// Every destination that is not local is reached through the proxy that is set, at its
/// own host and port, and directly where none is set. A SOCKS proxy is shown a name and a
/// password where both are known.
pub proof fn remote_destinations_go_through_the_proxy(proxy: ProxyView, host: Seq<char>)
    requires
        !local::is_local_destination(host),
    ensures
        tunnel::route_to(None, host) is Direct,
        match tunnel::route_to(Some(proxy), host) {
            RouteView::Direct => false,
            RouteView::Socks5 { proxy_host, proxy_port, credentials } => {
                &&& proxy.kind is Socks5
                &&& proxy_host == proxy.host
                &&& proxy_port == proxy.port
                &&& credentials is Some <==> proxy.username is Some && proxy.password is Some
                &&& credentials matches Some((user, pass)) ==> proxy.username == Some(user)
                    && proxy.password == Some(pass)
            },
            RouteView::Http { proxy_host, proxy_port } => {
                &&& proxy.kind is Http
                &&& proxy_host == proxy.host
                &&& proxy_port == proxy.port
            },
        },
{
}

/// A web socket connects to its own host, at the port that is written or else at 443
/// with TLS and at 80 without. It speaks TLS where its scheme is `wss` or `https`, in any
/// case of letters.
pub proof fn web_sockets_reach_their_host(
    host: Seq<char>,
    scheme: Option<Seq<char>>,
    port: Option<u16>,
)
    ensures
        tunnel::ws_destination(None, scheme, port) == Err::<(Seq<char>, u16, bool), Seq<char>>(
            "websocket url missing host"@,
        ),
        tunnel::ws_destination(Some(host), scheme, port) matches Ok((h, p, tls)) && h == host && (
        port matches Some(written) ==> p == written) && (port is None ==> p == (if tls {
            443u16
        } else {
            80u16
        })) && (tls <==> (scheme matches Some(s) && (text::lowered(s) == "wss"@ || text::lowered(s)
            == "https"@))),
{
    reveal_strlit("wss");
    reveal_strlit("https");
    reveal_strlit("ws");
    assert(text::lowered("wss"@) == "wss"@);
    assert(text::lowered("https"@) == "https"@);
    assert(text::lowered("ws"@).len() == 2);
}

/// The first attempt at a tunnel shows the bare host, the next one the host and the port,
/// and there is no third. What is reported in the end is the last failure.
pub proof fn attempts_show_host_and_port_in_turn(
    dest_host: Seq<char>,
    dest_port: u16,
    first: Seq<char>,
    second: Seq<char>,
)
    ensures
        http_head::host_headers(dest_host, dest_port).len() == 2,
        http_head::host_headers(dest_host, dest_port)[0] == dest_host,
        http_head::host_headers(dest_host, dest_port)[1] == http_head::authority(
            dest_host,
            dest_port,
        ),
        AttemptsView::start(dest_host, dest_port).last_err == "http proxy CONNECT failed"@,
        AttemptsView::start(dest_host, dest_port).after_failure(first).after_failure(second)
            == (AttemptsView { dest_host, dest_port, failed: 2, last_err: second }),
{
}

/// A request line asks for a tunnel exactly where its method is `CONNECT`, in any case of
/// letters.
pub proof fn tunnels_are_asked_for_by_method(method: Seq<char>, rest: Seq<char>)
    requires
        text::is_solid(method),
    ensures
        forward::asks_for_tunnel(method + seq![' '] + rest) <==> text::raised(method)
            == "CONNECT"@,
        !forward::asks_for_tunnel(method),
{
    reveal_strlit("CONNECT");
    reveal_strlit("CONNECT ");
    let line = method + seq![' '] + rest;
    let up = text::raised(line);
    let n = method.len() as int;
    assert(text::raised(method) == up.take(n));
    assert(up[n] == ' ');
    let word = "CONNECT "@;
    assert(word == "CONNECT"@ + seq![' ']);
    if text::starts_with(up, word) {
        let front = up.subrange(0, 8);
        assert(front[7] == ' ');
        assert(up[7] == ' ');
        if n > 7 {
            assert(line[7] == method[7]);
            assert(!text::is_white_space(method[7]));
        }
        if n < 7 {
            assert(front[n] == word[n]);
            assert("CONNECT"@[n] != ' ');
        }
        assert(n == 7);
        assert(text::raised(method) == "CONNECT"@) by {
            assert forall|i: int| 0 <= i < 7 implies text::raised(method)[i] == "CONNECT"@[i] by {
                assert(front[i] == word[i]);
            }
        }
    }
    if text::raised(method) == "CONNECT"@ {
        assert(n == 7);
        assert(up.subrange(0, 8) == word) by {
            assert forall|i: int| 0 <= i < 8 implies up[i] == word[i] by {
                if i < 7 {
                    assert(up[i] == text::raised(method)[i]);
                }
            }
        }
    }
    if forward::asks_for_tunnel(method) {
        let alone = text::raised(method);
        assert(alone.subrange(0, 8)[7] == ' ');
        assert(alone[7] == ' ');
        assert(!text::is_white_space(method[7]));
    }
}

/// The line of a request for a tunnel to `dest`, with any spelling of the method.
proof fn tunnel_line_names_its_destination(method: Seq<char>, dest: Seq<char>, rest: Seq<char>)
    requires
        text::raised(method) == "CONNECT"@,
        dest.len() > 0,
        text::is_solid(dest),
        rest.len() > 0 ==> text::is_white_space(rest[0]),
    ensures
        text::is_solid(method),
        forward::asks_for_tunnel(method + seq![' '] + dest + rest),
        forward::tunnel_destination(method + seq![' '] + dest + rest) == http_head::host_and_port(
            dest,
        ),
{
    reveal_strlit("CONNECT");
    assert(text::raised(method).len() == method.len());
    assert(method.len() == 7);
    assert forall|i: int| 0 <= i < method.len() implies !text::is_white_space(
        #[trigger] method[i],
    ) by {
        assert(text::raised(method)[i] == "CONNECT"@[i]);
    }
    tunnels_are_asked_for_by_method(method, dest + rest);
    assert(method + seq![' '] + dest + rest == method + seq![' '] + (dest + rest));
    two_words(method, dest, rest);
}

/// A request for a tunnel gets one, to the destination that it names and whatever the
/// kind of the proxy: by the way to that destination, with the answer that the tunnel
/// stands, and with what the client sent behind its head as the tunnel's first bytes. A
/// destination that cannot be read is reported.
pub proof fn tunnels_are_made_to_their_destination(
    proxy: ProxyView,
    method: Seq<char>,
    dest: Seq<char>,
    rest: Seq<char>,
    headers: Seq<char>,
    url: Option<UrlView>,
    buf: Seq<u8>,
    leftover: Seq<u8>,
)
    requires
        text::raised(method) == "CONNECT"@,
        dest.len() > 0,
        text::is_solid(dest),
        rest.len() > 0 ==> text::is_white_space(rest[0]),
        text_laws::is_one_line(rest),
    ensures
        ({
            let head = method + seq![' '] + dest + rest + seq!['\r', '\n'] + headers;
            let plan = forward::plan_for_head(proxy, head, url, buf, leftover);
            match http_head::host_and_port(dest) {
                Ok((host, port)) => {
                    &&& plan matches Ok(p) && p.routed && p.host == host && p.port == port
                        && p.data == leftover && p.reply == vstd::utf8::encode_utf8(
                        "HTTP/1.1 200 Connection established\r\n\r\n"@,
                    )
                },
                Err(message) => plan == Err::<PlanView, Seq<char>>(message),
            }
        }),
{
    tunnel_line_names_its_destination(method, dest, rest);
    let line = method + seq![' '] + dest + rest;
    assert(text_laws::is_one_line(line)) by {
        assert forall|i: int| 0 <= i < line.len() implies #[trigger] line[i] != '\n' by {
            let a = method.len() as int;
            let b = a + 1 + dest.len();
            if i < a {
                assert(line[i] == method[i]);
            } else if a < i < b {
                assert(line[i] == dest[i - a - 1]);
            } else if b <= i {
                assert(line[i] == rest[i - b]);
            }
        }
    }
    text_laws::lines_are_read_in_turn(line, headers);
}

/// A plan that does not go by the way to its destination is one for the upstream proxy
/// itself: an HTTP proxy, at its own host and port, which gets all that the client sent
/// and of which the client is told nothing.
pub proof fn unrouted_plans_are_for_the_proxy(
    proxy: ProxyView,
    head: Seq<char>,
    url: Option<UrlView>,
    buf: Seq<u8>,
    leftover: Seq<u8>,
    plan: PlanView,
)
    requires
        forward::plan_for_head(proxy, head, url, buf, leftover) == Ok::<PlanView, Seq<char>>(plan),
        !plan.routed,
    ensures
        proxy.kind is Http,
        plan.host == proxy.host,
        plan.port == proxy.port,
        plan.data == buf,
        plan.reply.len() == 0,
{
}

/// A plain request, one whose method is not `CONNECT`, reaches the host that it is for.
/// For a SOCKS proxy, and for a local host, it goes there rewritten and with what the
/// client sent behind its head; an HTTP proxy gets it as it is.
pub proof fn plain_requests_reach_their_host(
    proxy: ProxyView,
    method: Seq<char>,
    rest: Seq<char>,
    headers: Seq<char>,
    url: Option<UrlView>,
    buf: Seq<u8>,
    leftover: Seq<u8>,
)
    requires
        text::is_solid(method),
        text::raised(method) != "CONNECT"@,
        text_laws::is_one_line(rest),
    ensures
        ({
            let head = method + seq![' '] + rest + seq!['\r', '\n'] + headers;
            let plan = forward::plan_for_head(proxy, head, url, buf, leftover);
            match http_head::rewritten_request(head, url) {
                Ok((host, port, request)) => if proxy.kind is Socks5
                    || local::is_local_destination(host) {
                    plan matches Ok(p) && p.routed && p.host == host && p.port == port
                        && p.reply.len() == 0 && p.data == vstd::utf8::encode_utf8(request)
                        + leftover
                } else {
                    plan matches Ok(p) && !p.routed && p.host == proxy.host && p.port == proxy.port
                        && p.reply.len() == 0 && p.data == buf
                },
                Err(message) => if proxy.kind is Socks5 {
                    plan == Err::<PlanView, Seq<char>>(message)
                } else {
                    plan matches Ok(p) && !p.routed && p.host == proxy.host && p.port == proxy.port
                        && p.reply.len() == 0 && p.data == buf
                },
            }
        }),
{
    let line = method + seq![' '] + rest;
    assert(text_laws::is_one_line(line)) by {
        assert forall|i: int| 0 <= i < line.len() implies #[trigger] line[i] != '\n' by {
            let a = method.len() as int;
            if i < a {
                assert(line[i] == method[i]);
                assert(!text::is_white_space(method[i]));
            } else if a < i {
                assert(line[i] == rest[i - a - 1]);
            }
        }
    }
    text_laws::lines_are_read_in_turn(line, headers);
    tunnels_are_asked_for_by_method(method, rest);
}

/// Without a proxy, and without a whole head, the forwarder plans nothing; otherwise it
/// plans for the head and for what is behind it, as they were sent.
pub proof fn plans_need_a_proxy_and_a_head(proxy: ProxyView, buf: Seq<u8>)
    ensures
        forward::forward_plan(None, buf) == Err::<PlanView, Seq<char>>("proxy missing"@),
        match http_head::head_len(buf) {
            None => forward::forward_plan(Some(proxy), buf) == Err::<PlanView, Seq<char>>(
                "incomplete http request from reqwest"@,
            ),
            Some(n) => {
                let head = boundary::utf8_lossy(buf.take(n));
                forward::forward_plan(Some(proxy), buf) == forward::plan_for_head(
                    proxy,
                    head,
                    boundary::url_parse(http_head::request_target(head)),
                    buf,
                    buf.skip(n),
                )
            },
        },
{
}

/// Nothing is sent before the connection stands, and then both sides get what was
/// planned; a connection that fails is what the request comes to.
pub proof fn nothing_is_sent_before_the_connection(plan: PlanView, error: Seq<char>)
    ensures
        forward::sent_after(plan, Ok(())) == Ok::<(Seq<u8>, Seq<u8>), Seq<char>>(
            (plan.reply, plan.data),
        ),
        plan.routed ==> forward::sent_after(plan, Err(error)) == Err::<
            (Seq<u8>, Seq<u8>),
            Seq<char>,
        >(error),
        !plan.routed ==> forward::sent_after(plan, Err(error)) == Err::<
            (Seq<u8>, Seq<u8>),
            Seq<char>,
        >("http proxy connect failed: "@ + error),
{
}

} // verus!
