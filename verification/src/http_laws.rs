//! What holds of HTTP heads, tunnels and the forwarder as a whole.
use crate::boundary;
use crate::decimal;
use crate::forward;
use crate::forward::PlanView;
use crate::http_head;
use crate::net_proxy::{ProxyKind, ProxyView};
use crate::text;
use crate::text_laws;
use vstd::prelude::*;

verus! {

/// The last index of a character is the one with that character and none behind it.
proof fn rfind_is_unique(s: Seq<char>, c: char, i: int)
    requires
        0 <= i < s.len(),
        s[i] == c,
        forall|j: int| i < j < s.len() ==> s[j] != c,
    ensures
        text::rfind(s, c) == Some(i),
{
    text::rfind_is_last(s, c);
}

/// The decimal notation of a number holds no colon.
proof fn decimal_holds_digits(n: nat)
    ensures
        forall|i: int|
            0 <= i < decimal::decimal(n).len() ==> decimal::is_digit(
                #[trigger] decimal::decimal(n)[i],
            ),
        decimal::decimal(n).len() > 0,
{
    decimal::decimal_writes_number(n);
}

/// What stands behind a host's closing bracket is found there.
proof fn closing_bracket_is_found(host: Seq<char>, port: u16)
    requires
        !text::contains(host, "]:"@),
    ensures
        text::find(host + "]:"@ + decimal::decimal(port as nat), "]:"@) == Some(host.len() as int),
        (host + "]:"@ + decimal::decimal(port as nat)).skip(host.len() as int + 2) == decimal::decimal(
            port as nat,
        ),
        (host + "]:"@ + decimal::decimal(port as nat)).take(host.len() as int) == host,
{
    reveal_strlit("]:");
    let digits = decimal::decimal(port as nat);
    let rest = host + "]:"@ + digits;
    let n = host.len() as int;
    assert(rest.subrange(n, n + 2) == "]:"@);
    assert forall|j: int| 0 <= j < n implies !#[trigger] text::occurs_at(rest, "]:"@, j) by {
        if text::occurs_at(rest, "]:"@, j) {
            let w = rest.subrange(j, j + 2);
            assert(w[1] == rest[j + 1]);
            if j + 2 <= n {
                assert(host.subrange(j, j + 2) == w);
                assert(text::occurs_at(host, "]:"@, j));
            } else {
                assert(rest[j + 1] == ']');
            }
        }
    }
    text::find_is_unique(rest, "]:"@, n);
    assert(rest.skip(n + 2) == digits);
    assert(rest.take(n) == host);
}

/// A host and a port come back from their common text, where the host has no
/// brackets of its own.
pub proof fn authority_is_read_back(host: Seq<char>, port: u16)
    requires
        !text::starts_with(host, "["@),
        !text::contains(host, "]:"@),
    ensures
        http_head::host_and_port(http_head::authority(host, port)) == Ok::<
            (Seq<char>, u16),
            Seq<char>,
        >((host, port)),
{
    reveal_strlit("[");
    reveal_strlit(":");
    reveal_strlit("]:");
    let digits = decimal::decimal(port as nat);
    let s = http_head::authority(host, port);
    decimal::port_number_of_decimal(port);
    decimal_holds_digits(port as nat);
    if text::contains(host, ":"@) {
        closing_bracket_is_found(host, port);
        assert(s.subrange(0, 1) == "["@);
        assert(s.skip(1) == host + "]:"@ + digits);
    } else {
        let n = host.len() as int;
        assert(s[n] == ':');
        assert forall|j: int| n < j < s.len() implies s[j] != ':' by {
            assert(s[j] == digits[j - n - 1]);
            assert(decimal::is_digit(digits[j - n - 1]));
        }
        rfind_is_unique(s, ':', n);
        assert(s.skip(n + 1) == digits);
        assert(s.take(n) == host);
        if text::starts_with(s, "["@) {
            assert(s.subrange(0, 1)[0] == '[');
            assert(s[0] == '[');
            if n > 0 {
                assert(host.subrange(0, 1) == "["@);
            }
        }
    }
}

/// A host that is written in brackets comes back without them.
pub proof fn bracketed_authority_is_read_back(inner: Seq<char>, port: u16)
    requires
        !text::contains(inner, "]:"@),
    ensures
        http_head::host_and_port(http_head::authority("["@ + inner + "]"@, port)) == Ok::<
            (Seq<char>, u16),
            Seq<char>,
        >((inner, port)),
{
    reveal_strlit("[");
    reveal_strlit("]");
    reveal_strlit(":");
    reveal_strlit("]:");
    let host = "["@ + inner + "]"@;
    let digits = decimal::decimal(port as nat);
    let s = http_head::authority(host, port);
    decimal::port_number_of_decimal(port);
    closing_bracket_is_found(inner, port);
    assert(host.subrange(0, 1) == "["@);
    assert(s == host + ":"@ + digits);
    assert(s.subrange(0, 1) == "["@);
    assert(s.skip(1) == inner + "]:"@ + digits);
}
/// A solid text in front of white space, or of nothing, is a word of its own.
proof fn word_and_rest(w: Seq<char>, rest: Seq<char>)
    requires
        w.len() > 0,
        text::is_solid(w),
        rest.len() > 0 ==> text::is_white_space(rest[0]),
    ensures
        text::words(w + rest) == seq![w] + text::words(rest),
{
    let s = w + rest;
    assert(s[0] == w[0]);
    assert(text::trimmed_start(s) == s);
    word_len_of_solid(w, rest);
    assert(s.take(w.len() as int) == w);
    assert(s.skip(w.len() as int) == rest);
}

proof fn word_len_of_solid(w: Seq<char>, rest: Seq<char>)
    requires
        text::is_solid(w),
        rest.len() > 0 ==> text::is_white_space(rest[0]),
    ensures
        text::word_len(w + rest) == w.len(),
    decreases w.len(),
{
    if w.len() > 0 {
        let v = w.drop_first();
        assert forall|i: int| 0 <= i < v.len() implies !text::is_white_space(#[trigger] v[i]) by {
            assert(v[i] == w[i + 1]);
        }
        word_len_of_solid(v, rest);
        assert((w + rest).drop_first() == v + rest);
        assert((w + rest)[0] == w[0]);
    } else {
        assert(w + rest == rest);
    }
}

/// White space in front of a text changes nothing about its words.
proof fn words_behind_space(s: Seq<char>)
    ensures
        text::words(seq![' '] + s) == text::words(s),
{
    let t = seq![' '] + s;
    assert(t.drop_first() == s);
    text::trimmed_start_is_suffix(s);
    assert(text::trimmed_start(t) == text::trimmed_start(s));
}

/// A request line of three solid words has exactly these words.
proof fn three_words(a: Seq<char>, b: Seq<char>, c: Seq<char>)
    requires
        a.len() > 0,
        b.len() > 0,
        c.len() > 0,
        text::is_solid(a),
        text::is_solid(b),
        text::is_solid(c),
    ensures
        text::words(a + seq![' '] + b + seq![' '] + c) == seq![a, b, c],
{
    let none = Seq::<char>::empty();
    word_and_rest(c, none);
    assert(c + none == c);
    assert(text::words(none) == Seq::<Seq<char>>::empty());
    words_behind_space(c);
    let tail = seq![' '] + c;
    word_and_rest(b, tail);
    words_behind_space(b + tail);
    let rest = seq![' '] + (b + tail);
    word_and_rest(a, rest);
    assert(a + rest == a + seq![' '] + b + seq![' '] + c);
    assert(text::words(a + rest) == seq![a, b, c]);
}

/// Two solid texts make a solid text.
proof fn joined_is_solid(a: Seq<char>, b: Seq<char>)
    requires
        text::is_solid(a),
        text::is_solid(b),
    ensures
        text::is_solid(a + b),
{
    assert forall|i: int| 0 <= i < (a + b).len() implies !text::is_white_space(
        #[trigger] (a + b)[i],
    ) by {
        if i < a.len() {
            assert((a + b)[i] == a[i]);
        } else {
            assert((a + b)[i] == b[i - a.len()]);
        }
    }
}

proof fn authority_is_solid(host: Seq<char>, port: u16)
    requires
        text::is_solid(host),
    ensures
        text::is_solid(http_head::authority(host, port)),
        http_head::authority(host, port).len() > 0,
{
    reveal_strlit("[");
    reveal_strlit(":");
    reveal_strlit("]:");
    let digits = decimal::decimal(port as nat);
    decimal_holds_digits(port as nat);
    assert(text::is_solid(digits)) by {
        assert forall|i: int| 0 <= i < digits.len() implies !text::is_white_space(
            #[trigger] digits[i],
        ) by {
            assert(decimal::is_digit(digits[i]));
        }
    }
    joined_is_solid("["@, host);
    joined_is_solid("["@ + host, "]:"@);
    joined_is_solid("["@ + host + "]:"@, digits);
    joined_is_solid(host, ":"@);
    joined_is_solid(host + ":"@, digits);
}

/// The request line of the request for a tunnel.
pub open spec fn connect_line(dest_host: Seq<char>, dest_port: u16) -> Seq<char> {
    "CONNECT"@ + seq![' '] + http_head::authority(dest_host, dest_port) + seq![' '] + "HTTP/1.1"@
}

/// The first line of a text that starts with a line and its end.
proof fn first_line_is_found(line: Seq<char>, rest: Seq<char>)
    requires
        forall|i: int| 0 <= i < line.len() ==> #[trigger] line[i] != '\n' && line[i] != '\r',
    ensures
        text::first_line(line + seq!['\r', '\n'] + rest) == line,
{
    let s = line + seq!['\r', '\n'] + rest;
    let n = line.len() as int + 1;
    assert(s.subrange(n, n + 1) == seq!['\n']);
    assert forall|j: int| 0 <= j < n implies !#[trigger] text::occurs_at(s, seq!['\n'], j) by {
        assert(s.subrange(j, j + 1)[0] == s[j]);
        if j < line.len() {
            assert(s[j] == line[j]);
        }
    }
    text::find_is_unique(s, seq!['\n'], n);
    assert(s.take(n).last() == '\r');
    assert(s.take(n).drop_last() == line);
}

/// The forwarder understands the requests that the program itself makes: a request
/// for a tunnel reads as one, and its destination is the one that was asked for.
pub proof fn connect_request_is_understood(
    dest_host: Seq<char>,
    dest_port: u16,
    host_header: Seq<char>,
    proxy: ProxyView,
)
    requires
        text::is_solid(dest_host),
        !text::starts_with(dest_host, "["@),
        !text::contains(dest_host, "]:"@),
    ensures
        ({
            let head = http_head::connect_request(dest_host, dest_port, host_header, proxy);
            let line = text::first_line(head);
            &&& line == connect_line(dest_host, dest_port)
            &&& forward::asks_for_tunnel(line)
            &&& forward::tunnel_destination(line) == Ok::<(Seq<char>, u16), Seq<char>>(
                (dest_host, dest_port),
            )
        }),
{
    let head = http_head::connect_request(dest_host, dest_port, host_header, proxy);
    let line = connect_line(dest_host, dest_port);
    let dest = http_head::authority(dest_host, dest_port);
    authority_is_solid(dest_host, dest_port);
    reveal_strlit("CONNECT ");
    reveal_strlit("CONNECT");
    reveal_strlit("HTTP/1.1");
    reveal_strlit(" HTTP/1.1\r\nHost: ");
    assert("CONNECT "@ == "CONNECT"@ + seq![' ']);
    let after = seq!['H', 'o', 's', 't', ':', ' '] + host_header
        + "\r\nProxy-Connection: Keep-Alive\r\nUser-Agent: "@ + http_head::CONNECT_USER_AGENT@
        + "\r\n"@ + http_head::authorization(proxy) + "\r\n"@;
    assert(" HTTP/1.1\r\nHost: "@ == seq![' '] + "HTTP/1.1"@ + seq!['\r', '\n'] + seq![
        'H',
        'o',
        's',
        't',
        ':',
        ' ',
    ]);
    assert(head == line + seq!['\r', '\n'] + after);
    joined_is_solid("CONNECT"@, dest);
    assert forall|i: int| 0 <= i < line.len() implies #[trigger] line[i] != '\n' && line[i]
        != '\r' by {
        if i < 8 {
            assert(line[i] == "CONNECT "@[i]);
        } else if i < 8 + dest.len() {
            assert(line[i] == dest[i - 8]);
            assert(!text::is_white_space(dest[i - 8]));
        } else if i == 8 + dest.len() {
            assert(line[i] == ' ');
        } else {
            assert(line[i] == "HTTP/1.1"@[i - 9 - dest.len()]);
        }
    }
    first_line_is_found(line, after);
    three_words("CONNECT"@, dest, "HTTP/1.1"@);
    assert(text::nth_word(line, 1) == Some(dest));
    assert(text::raised(line).subrange(0, 8) == "CONNECT "@) by {
        assert forall|i: int| 0 <= i < 8 implies #[trigger] text::raised(line)[i]
            == "CONNECT "@[i] by {
            assert(line[i] == "CONNECT "@[i]);
        }
    }
    authority_is_read_back(dest_host, dest_port);
}

/// More bytes behind a head do not move its end.
pub proof fn head_end_is_final(buf: Seq<u8>, more: Seq<u8>, n: int)
    requires
        http_head::head_len(buf) == Some(n),
    ensures
        http_head::head_len(buf + more) == Some(n),
        (buf + more).take(n) == buf.take(n),
        (buf + more).skip(n) == buf.skip(n) + more,
{
    let mark = http_head::head_end_mark();
    let all = buf + more;
    text::find_is_first(buf, mark);
    let i = n - 4;
    assert(all.subrange(i, i + 4) == buf.subrange(i, i + 4));
    assert forall|j: int| 0 <= j < i implies !#[trigger] text::occurs_at(all, mark, j) by {
        assert(all.subrange(j, j + 4) == buf.subrange(j, j + 4));
        assert(!text::occurs_at(buf, mark, j));
    }
    text::find_is_unique(all, mark, i);
    assert(all.take(n) == buf.take(n));
    assert(all.skip(n) == buf.skip(n) + more);
}

/// The forwarder loses nothing that the client sent behind its head: it is the end
/// of what goes to the other side. And the client is answered only for a tunnel.
pub proof fn client_bytes_are_passed_on(proxy: ProxyView, buf: Seq<u8>, n: int, plan: PlanView)
    requires
        http_head::head_len(buf) == Some(n),
        forward::forward_plan(Some(proxy), buf) == Ok::<PlanView, Seq<char>>(plan),
    ensures
        0 <= n <= buf.len(),
        plan.data.len() >= buf.len() - n,
        plan.data.skip(plan.data.len() - (buf.len() - n)) == buf.skip(n),
        plan.reply.len() > 0 ==> forward::asks_for_tunnel(
            text::first_line(boundary::utf8_lossy(buf.take(n))),
        ),
{
    text::find_is_first(buf, http_head::head_end_mark());
    let rest = buf.skip(n);
    let k = plan.data.len() - rest.len();
    let head = boundary::utf8_lossy(buf.take(n));
    if forward::asks_for_tunnel(text::first_line(head)) {
        assert(rest.skip(0) == rest);
    } else if !plan.routed {
        assert(plan.data.skip(k) == rest);
    } else {
        let url = boundary::url_parse(http_head::request_target(head));
        let request = http_head::rewritten_request(head, url)->Ok_0.2;
        let bytes = vstd::utf8::encode_utf8(request);
        assert((bytes + rest).skip(bytes.len() as int) == rest);
    }
}

/// A request that is no request for a tunnel, and not for a local host, goes to an
/// HTTP proxy unchanged.
pub proof fn http_proxy_gets_request_unchanged(proxy: ProxyView, buf: Seq<u8>, n: int)
    requires
        http_head::head_len(buf) == Some(n),
        proxy.kind == ProxyKind::Http,
        !forward::asks_for_tunnel(text::first_line(boundary::utf8_lossy(buf.take(n)))),
        ({
            let head = boundary::utf8_lossy(buf.take(n));
            let url = boundary::url_parse(http_head::request_target(head));
            !forward::is_for_local_host(http_head::rewritten_request(head, url))
        }),
    ensures
        forward::forward_plan(Some(proxy), buf) == Ok::<PlanView, Seq<char>>(
            PlanView {
                routed: false,
                host: proxy.host,
                port: proxy.port,
                reply: Seq::empty(),
                data: buf,
            },
        ),
{
}

/// `s` holds no carriage return.
pub open spec fn holds_no_cr(s: Seq<char>) -> bool {
    forall|i: int| 0 <= i < s.len() ==> #[trigger] s[i] != '\r'
}

/// The end of a line in a head.
pub open spec fn crlf() -> Seq<char> {
    seq!['\r', '\n']
}

/// The head that consists of these lines and a blank one.
pub open spec fn head_of_lines(lines: Seq<Seq<char>>) -> Seq<char>
    decreases lines.len(),
{
    if lines.len() == 0 {
        crlf()
    } else {
        lines[0] + crlf() + head_of_lines(lines.drop_first())
    }
}

/// The blank line of a head is where its lines end, and nowhere before.
#[verifier::rlimit(30)]
proof fn blank_line_is_last(lines: Seq<Seq<char>>)
    requires
        lines.len() > 0,
        forall|i: int|
            0 <= i < lines.len() ==> (#[trigger] lines[i]).len() > 0 && holds_no_cr(lines[i]),
    ensures
        text::find(head_of_lines(lines), crlf() + crlf()) == Some(
            head_of_lines(lines).len() - 4,
        ),
    decreases lines.len(),
{
    let mark = crlf() + crlf();
    let x = lines[0];
    let tail = lines.drop_first();
    let rest = head_of_lines(tail);
    let s = head_of_lines(lines);
    let n = x.len() as int;
    assert(s == x + crlf() + rest);
    if tail.len() == 0 {
        assert(s.subrange(n, n + 4) == mark);
        assert forall|j: int| 0 <= j < n implies !#[trigger] text::occurs_at(s, mark, j) by {
            assert(s[j] == x[j]);
            assert(s.subrange(j, j + 4)[0] == s[j]);
        }
        text::find_is_unique(s, mark, n);
    } else {
        assert forall|i: int| 0 <= i < tail.len() implies (#[trigger] tail[i]).len() > 0
            && holds_no_cr(tail[i]) by {
            assert(tail[i] == lines[i + 1]);
        }
        blank_line_is_last(tail);
        text::find_is_first(rest, mark);
        let k = rest.len() - 4;
        assert(rest[0] == tail[0][0]);
        assert(s.subrange(n + 2 + k, n + 2 + k + 4) == rest.subrange(k, k + 4));
        assert forall|j: int| 0 <= j < n + 2 + k implies !#[trigger] text::occurs_at(
            s,
            mark,
            j,
        ) by {
            if text::occurs_at(s, mark, j) {
                let w = s.subrange(j, j + 4);
                assert(w[0] == s[j] && w[2] == s[j + 2]);
                assert(mark[0] == '\r' && mark[2] == '\r');
                if j < n {
                    assert(s[j] == x[j]);
                } else if j == n {
                    assert(s[j + 2] == rest[0]);
                } else if j == n + 1 {
                    assert(s[j] == '\n');
                } else {
                    assert(rest.subrange(j - n - 2, j - n - 2 + 4) == w);
                    assert(text::occurs_at(rest, mark, j - n - 2));
                }
            }
        }
        text::find_is_unique(s, mark, n + 2 + k);
    }
}

proof fn joined_holds_no_cr(a: Seq<char>, b: Seq<char>)
    requires
        holds_no_cr(a),
        holds_no_cr(b),
    ensures
        holds_no_cr(a + b),
{
    assert forall|i: int| 0 <= i < (a + b).len() implies #[trigger] (a + b)[i] != '\r' by {
        if i < a.len() {
            assert((a + b)[i] == a[i]);
        } else {
            assert((a + b)[i] == b[i - a.len()]);
        }
    }
}

proof fn base64_holds_no_cr(bytes: Seq<u8>)
    ensures
        holds_no_cr(boundary::base64(bytes)),
    decreases bytes.len(),
{
    if bytes.len() > 0 {
        let rest = if bytes.len() > 3 {
            bytes.skip(3)
        } else {
            Seq::empty()
        };
        base64_holds_no_cr(rest);
        let s = boundary::base64(bytes);
        let tail = boundary::base64(rest);
        let second = if bytes.len() > 1 {
            bytes[1] as int
        } else {
            0
        };
        let third = if bytes.len() > 2 {
            bytes[2] as int
        } else {
            0
        };
        let n = 65536 * bytes[0] + 256 * second + third;
        assert(0 <= n / 262144 < 64);
        assert forall|i: int| 0 <= i < s.len() implies #[trigger] s[i] != '\r' by {
            if i >= 4 {
                assert(s[i] == tail[i - 4]);
            }
        }
    }
}

proof fn authority_holds_no_cr(host: Seq<char>, port: u16)
    requires
        holds_no_cr(host),
    ensures
        holds_no_cr(http_head::authority(host, port)),
{
    reveal_strlit("[");
    reveal_strlit(":");
    reveal_strlit("]:");
    let digits = decimal::decimal(port as nat);
    decimal_holds_digits(port as nat);
    assert(holds_no_cr(digits)) by {
        assert forall|i: int| 0 <= i < digits.len() implies #[trigger] digits[i] != '\r' by {
            assert(decimal::is_digit(digits[i]));
        }
    }
    joined_holds_no_cr("["@, host);
    joined_holds_no_cr("["@ + host, "]:"@);
    joined_holds_no_cr("["@ + host + "]:"@, digits);
    joined_holds_no_cr(host, ":"@);
    joined_holds_no_cr(host + ":"@, digits);
}

/// The lines of the request for a tunnel.
pub open spec fn connect_lines(
    dest_host: Seq<char>,
    dest_port: u16,
    host_header: Seq<char>,
    proxy: ProxyView,
) -> Seq<Seq<char>> {
    let plain = seq![
        connect_line(dest_host, dest_port),
        "Host: "@ + host_header,
        "Proxy-Connection: Keep-Alive"@,
        "User-Agent: "@ + http_head::CONNECT_USER_AGENT@,
    ];
    match http_head::credentials(proxy) {
        Some(c) => plain.push(
            "Proxy-Authorization: Basic "@ + boundary::base64(vstd::utf8::encode_utf8(c)),
        ),
        None => plain,
    }
}

proof fn five_line_head(a: Seq<char>, b: Seq<char>, c: Seq<char>, d: Seq<char>, e: Seq<char>)
    ensures
        head_of_lines(seq![a, b, c, d, e]) == a + crlf() + b + crlf() + c + crlf() + d + crlf() + e
            + crlf() + crlf(),
{
    four_line_head(b, c, d, e);
    assert(seq![a, b, c, d, e].drop_first() == seq![b, c, d, e]);
}

proof fn four_line_head(a: Seq<char>, b: Seq<char>, c: Seq<char>, d: Seq<char>)
    ensures
        head_of_lines(seq![a, b, c, d]) == a + crlf() + b + crlf() + c + crlf() + d + crlf()
            + crlf(),
{
    let none = Seq::<Seq<char>>::empty();
    assert(head_of_lines(none) == crlf());
    assert(seq![d].drop_first() == none);
    assert(head_of_lines(seq![d]) == d + crlf() + crlf());
    assert(seq![c, d].drop_first() == seq![d]);
    assert(head_of_lines(seq![c, d]) == c + crlf() + (d + crlf() + crlf()));
    assert(seq![b, c, d].drop_first() == seq![c, d]);
    assert(head_of_lines(seq![b, c, d]) == b + crlf() + head_of_lines(seq![c, d]));
    assert(seq![a, b, c, d].drop_first() == seq![b, c, d]);
    assert(head_of_lines(seq![a, b, c, d]) == a + crlf() + head_of_lines(seq![b, c, d]));
}

/// The request for a tunnel is made of its lines and a blank one.
pub proof fn connect_request_is_its_lines(
    dest_host: Seq<char>,
    dest_port: u16,
    host_header: Seq<char>,
    proxy: ProxyView,
)
    ensures
        http_head::connect_request(dest_host, dest_port, host_header, proxy) == head_of_lines(
            connect_lines(dest_host, dest_port, host_header, proxy),
        ),
{
    reveal_strlit("CONNECT ");
    reveal_strlit("CONNECT");
    reveal_strlit("HTTP/1.1");
    reveal_strlit("\r\n");
    reveal_strlit("Host: ");
    reveal_strlit("Proxy-Connection: Keep-Alive");
    reveal_strlit("User-Agent: ");
    reveal_strlit(" HTTP/1.1\r\nHost: ");
    reveal_strlit("\r\nProxy-Connection: Keep-Alive\r\nUser-Agent: ");
    assert("\r\n"@ == crlf());
    assert("CONNECT "@ == "CONNECT"@ + seq![' ']);
    assert(" HTTP/1.1\r\nHost: "@ == seq![' '] + "HTTP/1.1"@ + crlf() + "Host: "@);
    assert("\r\nProxy-Connection: Keep-Alive\r\nUser-Agent: "@ == crlf()
        + "Proxy-Connection: Keep-Alive"@ + crlf() + "User-Agent: "@);
    let line = connect_line(dest_host, dest_port);
    let host = "Host: "@ + host_header;
    let keep = "Proxy-Connection: Keep-Alive"@;
    let agent = "User-Agent: "@ + http_head::CONNECT_USER_AGENT@;
    let request = http_head::connect_request(dest_host, dest_port, host_header, proxy);
    let lines = connect_lines(dest_host, dest_port, host_header, proxy);
    let front = line + crlf() + host + crlf() + keep + crlf() + agent + crlf();
    assert(request == front + http_head::authorization(proxy) + crlf());
    match http_head::credentials(proxy) {
        Some(c) => {
            let auth = "Proxy-Authorization: Basic "@ + boundary::base64(
                vstd::utf8::encode_utf8(c),
            );
            five_line_head(line, host, keep, agent, auth);
            assert(lines == seq![line, host, keep, agent, auth]);
            assert(http_head::authorization(proxy) == auth + crlf());
            assert(request == front + auth + crlf() + crlf());
        },
        None => {
            four_line_head(line, host, keep, agent);
            assert(lines == seq![line, host, keep, agent]);
            assert(request == front + crlf());
        },
    }
}

/// The request for a tunnel is one whole head: its only blank line is at its end.
/// No host, name or password without a carriage return can end it earlier.
pub proof fn connect_request_is_one_head(
    dest_host: Seq<char>,
    dest_port: u16,
    host_header: Seq<char>,
    proxy: ProxyView,
)
    requires
        holds_no_cr(dest_host),
        holds_no_cr(host_header),
    ensures
        ({
            let request = http_head::connect_request(dest_host, dest_port, host_header, proxy);
            text::find(request, crlf() + crlf()) == Some(request.len() - 4)
        }),
{
    let lines = connect_lines(dest_host, dest_port, host_header, proxy);
    connect_request_is_its_lines(dest_host, dest_port, host_header, proxy);
    authority_holds_no_cr(dest_host, dest_port);
    reveal_strlit("CONNECT");
    reveal_strlit("HTTP/1.1");
    reveal_strlit("Host: ");
    reveal_strlit("Proxy-Connection: Keep-Alive");
    reveal_strlit("User-Agent: ");
    reveal_strlit("Proxy-Authorization: Basic ");
    agent_holds_no_cr();
    let dest = http_head::authority(dest_host, dest_port);
    joined_holds_no_cr("CONNECT"@, seq![' ']);
    joined_holds_no_cr("CONNECT"@ + seq![' '], dest);
    joined_holds_no_cr("CONNECT"@ + seq![' '] + dest, seq![' ']);
    joined_holds_no_cr("CONNECT"@ + seq![' '] + dest + seq![' '], "HTTP/1.1"@);
    joined_holds_no_cr("Host: "@, host_header);
    joined_holds_no_cr("User-Agent: "@, http_head::CONNECT_USER_AGENT@);
    if let Some(c) = http_head::credentials(proxy) {
        let token = boundary::base64(vstd::utf8::encode_utf8(c));
        base64_holds_no_cr(vstd::utf8::encode_utf8(c));
        joined_holds_no_cr("Proxy-Authorization: Basic "@, token);
    }
    blank_line_is_last(lines);
}

proof fn agent_holds_no_cr()
    ensures
        holds_no_cr(http_head::CONNECT_USER_AGENT@),
{
    reveal_strlit(
        "Mozilla/5.0 (X11; Linux x86_64) AppleWebKit/537.36 (KHTML, like Gecko) Chrome/122.0.0.0 Safari/537.36",
    );
}

/// No word of a text holds white space.
proof fn words_are_solid(s: Seq<char>)
    ensures
        forall|i: int| 0 <= i < text::words(s).len() ==> text::is_solid(#[trigger] text::words(s)[i]),
    decreases s.len(),
{
    let t = text::trimmed_start(s);
    let n = text::word_len(t) as int;
    text::trimmed_start_is_suffix(s);
    text::word_len_bounds(t);
    if 0 < n && n <= t.len() && t.len() <= s.len() {
        words_are_solid(t.skip(n));
        let head = t.take(n);
        assert forall|i: int| 0 <= i < head.len() implies !text::is_white_space(
            #[trigger] head[i],
        ) by {
            assert(head[i] == t[i]);
        }
        let tail = text::words(t.skip(n));
        assert forall|i: int| 0 <= i < text::words(s).len() implies text::is_solid(
            #[trigger] text::words(s)[i],
        ) by {
            if i > 0 {
                assert(text::words(s)[i] == tail[i - 1]);
            }
        }
    }
}

proof fn picked_word_holds_no_cr(line: Seq<char>, n: int, default: Seq<char>)
    requires
        holds_no_cr(default),
    ensures
        holds_no_cr(http_head::word_or(line, n, default)),
{
    words_are_solid(line);
    if let Some(w) = text::nth_word(line, n) {
        assert(w == text::words(line)[n]);
        assert forall|i: int| 0 <= i < w.len() implies #[trigger] w[i] != '\r' by {
            assert(!text::is_white_space(w[i]));
        }
    }
}

/// Turning a plain request into one for its own host changes its request line only:
/// the headers behind it stay, to the letter. (The path of the URL holds no
/// carriage return, as is so of every URL.)
pub proof fn rewriting_keeps_headers(
    head: Seq<char>,
    url: Option<boundary::UrlView>,
    host: Seq<char>,
    port: u16,
    request: Seq<char>,
)
    requires
        url matches Some(u) ==> holds_no_cr(http_head::origin_form(u)),
        http_head::rewritten_request(head, url) == Ok::<(Seq<char>, u16, Seq<char>), Seq<char>>(
            (host, port, request),
        ),
    ensures
        http_head::behind_first_line(request) == http_head::behind_first_line(head),
{
    reveal_strlit("\r\n");
    reveal_strlit(" ");
    reveal_strlit("/");
    reveal_strlit("GET");
    reveal_strlit("HTTP/1.1");
    let line = text::first_line(head);
    let method = http_head::word_or(line, 0, "GET"@);
    let target = http_head::word_or(line, 1, "/"@);
    let version = http_head::word_or(line, 2, "HTTP/1.1"@);
    picked_word_holds_no_cr(line, 0, "GET"@);
    picked_word_holds_no_cr(line, 1, "/"@);
    picked_word_holds_no_cr(line, 2, "HTTP/1.1"@);
    let path = http_head::request_origin(target, url, http_head::host_header_of(head))->Ok_0.2;
    assert(holds_no_cr(path));
    let first = method + " "@ + path + " "@ + version;
    joined_holds_no_cr(method, " "@);
    joined_holds_no_cr(method + " "@, path);
    joined_holds_no_cr(method + " "@ + path, " "@);
    joined_holds_no_cr(method + " "@ + path + " "@, version);
    let rest = http_head::behind_first_line(head);
    assert(request == first + "\r\n"@ + rest);
    let n = first.len() as int;
    assert(request.subrange(n, n + 2) == "\r\n"@);
    assert forall|j: int| 0 <= j < n implies !#[trigger] text::occurs_at(request, "\r\n"@, j) by {
        assert(request[j] == first[j]);
        assert(request.subrange(j, j + 2)[0] == request[j]);
    }
    text::find_is_unique(request, "\r\n"@, n);
    assert(request.skip(n + 2) == rest);
}

/// The path and the query of a URL fit into a request line as one word that begins with
/// a slash.
pub proof fn request_path_is_solid(u: boundary::UrlView)
    requires
        boundary::has_request_path(u),
    ensures
        text::is_solid(http_head::origin_form(u)),
        text::starts_with(http_head::origin_form(u), "/"@),
{
    reveal_strlit("/");
    reveal_strlit("?");
    let path = if u.path.len() == 0 {
        "/"@
    } else {
        u.path
    };
    if let Some(query) = u.query {
        joined_is_solid(path, "?"@);
        joined_is_solid(path + "?"@, query);
    }
    assert(http_head::origin_form(u).subrange(0, 1) == "/"@);
}

proof fn picked_word_is_solid(line: Seq<char>, n: int, default: Seq<char>)
    requires
        text::is_solid(default),
        default.len() > 0,
    ensures
        text::is_solid(http_head::word_or(line, n, default)),
        http_head::word_or(line, n, default).len() > 0,
{
    words_are_solid(line);
    words_are_long(line);
}

/// No word of a text is empty.
proof fn words_are_long(s: Seq<char>)
    ensures
        forall|i: int| 0 <= i < text::words(s).len() ==> (#[trigger] text::words(s)[i]).len() > 0,
    decreases s.len(),
{
    let t = text::trimmed_start(s);
    let n = text::word_len(t) as int;
    if 0 < n && n <= t.len() && t.len() <= s.len() {
        words_are_long(t.skip(n));
        let rest = text::words(t.skip(n));
        assert(text::words(s) == seq![t.take(n)] + rest);
        assert forall|i: int| 0 <= i < text::words(s).len() implies (
        #[trigger] text::words(s)[i]).len() > 0 by {
            if i > 0 {
                assert(text::words(s)[i] == rest[i - 1]);
            }
        }
    }
}

/// A rewritten request has the method, the path and the version that it was given as
/// the three words of its first line.
pub proof fn rewritten_request_line(
    head: Seq<char>,
    url: Option<boundary::UrlView>,
    host: Seq<char>,
    port: u16,
    request: Seq<char>,
)
    requires
        url matches Some(u) ==> u.host is Some ==> text::is_solid(http_head::origin_form(u)),
        http_head::rewritten_request(head, url) == Ok::<(Seq<char>, u16, Seq<char>), Seq<char>>(
            (host, port, request),
        ),
    ensures
        ({
            let line = text::first_line(head);
            text::words(text::first_line(request)) == seq![
                http_head::word_or(line, 0, "GET"@),
                match url {
                    Some(u) => http_head::origin_form(u),
                    None => http_head::request_target(head),
                },
                http_head::word_or(line, 2, "HTTP/1.1"@),
            ]
        }),
{
    reveal_strlit("\r\n");
    reveal_strlit(" ");
    reveal_strlit("/");
    reveal_strlit("GET");
    reveal_strlit("HTTP/1.1");
    let line = text::first_line(head);
    let method = http_head::word_or(line, 0, "GET"@);
    let version = http_head::word_or(line, 2, "HTTP/1.1"@);
    let path = match url {
        Some(u) => http_head::origin_form(u),
        None => http_head::request_target(head),
    };
    picked_word_is_solid(line, 0, "GET"@);
    picked_word_is_solid(line, 1, "/"@);
    picked_word_is_solid(line, 2, "HTTP/1.1"@);
    let first = method + seq![' '] + path + seq![' '] + version;
    assert(" "@ == seq![' ']);
    assert("\r\n"@ == seq!['\r', '\n']);
    assert(request == first + seq!['\r', '\n'] + http_head::behind_first_line(head));
    assert forall|i: int| 0 <= i < first.len() implies #[trigger] first[i] != '\n' && first[i]
        != '\r' by {
        let a = method.len() as int;
        let b = a + 1 + path.len();
        if i < a {
            assert(first[i] == method[i]);
        } else if a < i < b {
            assert(first[i] == path[i - a - 1]);
        } else if b < i {
            assert(first[i] == version[i - b - 1]);
        }
    }
    first_line_is_found(first, http_head::behind_first_line(head));
    three_words(method, path, version);
}

/// The header lines of a text that starts with a line and its end are those of what
/// stands behind that end.
proof fn lines_behind_first(line: Seq<char>, rest: Seq<char>)
    requires
        forall|i: int| 0 <= i < line.len() ==> #[trigger] line[i] != '\n',
    ensures
        text::lines(line + seq!['\r', '\n'] + rest).len() > 0,
        text::lines(line + seq!['\r', '\n'] + rest).drop_first() == text::lines(rest),
{
    let s = line + seq!['\r', '\n'] + rest;
    let n = line.len() as int + 1;
    assert(s.subrange(n, n + 1) == seq!['\n']);
    assert forall|j: int| 0 <= j < n implies !#[trigger] text::occurs_at(s, seq!['\n'], j) by {
        assert(s.subrange(j, j + 1)[0] == s[j]);
        if j < line.len() {
            assert(s[j] == line[j]);
        }
    }
    text::find_is_unique(s, seq!['\n'], n);
    assert(s.skip(n + 1) == rest);
    assert(text::lines(s).drop_first() == text::lines(rest));
}

/// The first line of a head ends with a carriage return and a line feed.
pub open spec fn first_line_ends_in_crlf(head: Seq<char>) -> bool {
    text::find(head, crlf()) matches Some(i) && text::find(head, seq!['\n']) == Some(i + 1)
}

/// Where the first line of a head ends with a carriage return and a line feed, its
/// `Host` header is the one behind them.
pub proof fn host_header_stands_behind_first_line(head: Seq<char>)
    requires
        first_line_ends_in_crlf(head),
    ensures
        http_head::host_header_of(head) == http_head::host_header_in(
            text::lines(http_head::behind_first_line(head)),
        ),
{
    reveal_strlit("\r\n");
    assert("\r\n"@ == crlf());
    let i = text::find(head, crlf())->0;
    text::find_is_first(head, crlf());
    text::find_is_first(head, seq!['\n']);
    let line = head.take(i);
    let rest = head.skip(i + 2);
    assert(head == line + seq!['\r', '\n'] + rest) by {
        assert(head.subrange(i, i + 2) == crlf());
        assert(head =~= line + head.subrange(i, i + 2) + rest);
    }
    assert forall|j: int| 0 <= j < line.len() implies #[trigger] line[j] != '\n' by {
        if line[j] == '\n' {
            assert(head.subrange(j, j + 1) == seq!['\n']);
            assert(text::occurs_at(head, seq!['\n'], j));
        }
    }
    lines_behind_first(line, rest);
}

/// Rewriting a request that was rewritten before changes nothing: its target, which is
/// no URL any more, stays, and so does all the rest. The request has to have a `Host`
/// header behind its first line, for where it goes then.
#[verifier::rlimit(30)]
pub proof fn rewriting_twice_changes_nothing(
    head: Seq<char>,
    url: Option<boundary::UrlView>,
    host: Seq<char>,
    port: u16,
    request: Seq<char>,
)
    requires
        url matches Some(u) ==> u.host is Some ==> text::is_solid(http_head::origin_form(u)),
        http_head::rewritten_request(head, url) == Ok::<(Seq<char>, u16, Seq<char>), Seq<char>>(
            (host, port, request),
        ),
        http_head::host_header_in(text::lines(http_head::behind_first_line(head))) is Some,
    ensures
        http_head::rewritten_request(request, None) matches Ok((_, _, again)) && again == request,
{
    reveal_strlit("\r\n");
    reveal_strlit(" ");
    reveal_strlit("/");
    reveal_strlit("GET");
    reveal_strlit("HTTP/1.1");
    let line = text::first_line(head);
    let method = http_head::word_or(line, 0, "GET"@);
    let version = http_head::word_or(line, 2, "HTTP/1.1"@);
    let path = match url {
        Some(u) => http_head::origin_form(u),
        None => http_head::request_target(head),
    };
    picked_word_is_solid(line, 0, "GET"@);
    picked_word_is_solid(line, 1, "/"@);
    picked_word_is_solid(line, 2, "HTTP/1.1"@);
    rewritten_request_line(head, url, host, port, request);
    if let Some(u) = url {
        assert(holds_no_cr(http_head::origin_form(u))) by {
            assert forall|i: int| 0 <= i < path.len() implies #[trigger] path[i] != '\r' by {
                assert(!text::is_white_space(path[i]));
            }
        }
    }
    rewriting_keeps_headers(head, url, host, port, request);
    let rest = http_head::behind_first_line(head);
    let first = method + " "@ + path + " "@ + version;
    assert("\r\n"@ == seq!['\r', '\n']);
    assert(request == first + seq!['\r', '\n'] + rest);
    assert forall|i: int| 0 <= i < first.len() implies #[trigger] first[i] != '\n' by {
        let a = method.len() as int;
        let b = a + 1 + path.len();
        if i < a {
            assert(first[i] == method[i]);
        } else if a < i < b {
            assert(first[i] == path[i - a - 1]);
        } else if b < i {
            assert(first[i] == version[i - b - 1]);
        }
    }
    lines_behind_first(first, rest);
    let words = text::words(text::first_line(request));
    assert(words[0] == method && words[1] == path && words[2] == version);
}

/// The same of a head with proper line ends: where its first line ends with a carriage
/// return and a line feed and it has a `Host` header, its rewritten form stays.
pub proof fn rewritten_head_stays(
    head: Seq<char>,
    url: Option<boundary::UrlView>,
    host: Seq<char>,
    port: u16,
    request: Seq<char>,
)
    requires
        url matches Some(u) ==> u.host is Some ==> text::is_solid(http_head::origin_form(u)),
        http_head::rewritten_request(head, url) == Ok::<(Seq<char>, u16, Seq<char>), Seq<char>>(
            (host, port, request),
        ),
        first_line_ends_in_crlf(head),
        http_head::host_header_of(head) is Some,
    ensures
        http_head::rewritten_request(request, None) matches Ok((_, _, again)) && again == request,
{
    host_header_stands_behind_first_line(head);
    rewriting_twice_changes_nothing(head, url, host, port, request);
}

/// The six-bit number that a Base64 digit stands for.
pub open spec fn base64_value(c: char) -> int {
    if 'A' <= c <= 'Z' {
        c as int - 0x41
    } else if 'a' <= c <= 'z' {
        c as int - 0x61 + 26
    } else if '0' <= c <= '9' {
        c as int - 0x30 + 52
    } else if c == '+' {
        62
    } else if c == '/' {
        63
    } else {
        0
    }
}

/// The bytes that a text in Base64 stands for.
pub open spec fn base64_decoded(s: Seq<char>) -> Seq<u8>
    decreases s.len(),
{
    if s.len() < 4 {
        Seq::empty()
    } else {
        let n = 262144 * base64_value(s[0]) + 4096 * base64_value(s[1]) + 64 * base64_value(s[2])
            + base64_value(s[3]);
        let first = seq![(n / 65536) as u8];
        let second = if s[2] == '=' {
            Seq::empty()
        } else {
            seq![(n / 256 % 256) as u8]
        };
        let third = if s[3] == '=' {
            Seq::empty()
        } else {
            seq![(n % 256) as u8]
        };
        first + second + third + base64_decoded(s.skip(4))
    }
}

/// A Base64 digit stands for its number, and is not the padding.
proof fn base64_digit_has_its_value(n: int)
    requires
        0 <= n < 64,
    ensures
        base64_value(boundary::base64_digit(n)) == n,
        boundary::base64_digit(n) != '=',
{
}

/// A number that is a multiple of `d` and less than `d` more has that quotient and rest.
proof fn quotient_and_rest(x: int, d: int, q: int, r: int)
    requires
        0 <= r < d,
        x == q * d + r,
    ensures
        x / d == q,
        x % d == r,
{
    vstd::arithmetic::div_mod::lemma_fundamental_div_mod_converse(x, d, q, r);
}

/// Three bytes are one number, which its four digits write and which its bytes can be
/// read off.
proof fn base64_group(b0: int, b1: int, b2: int, n: int)
    requires
        0 <= b0 < 256,
        0 <= b1 < 256,
        0 <= b2 < 256,
        n == 65536 * b0 + 256 * b1 + b2,
    ensures
        0 <= n / 262144 < 64,
        262144 * (n / 262144) + 4096 * (n / 4096 % 64) + 64 * (n / 64 % 64) + n % 64 == n,
        n / 65536 == b0,
        n / 256 % 256 == b1,
        n % 256 == b2,
        b2 == 0 ==> n % 64 == 0,
        b1 == 0 && b2 == 0 ==> n / 64 % 64 == 0,
{
    let (h0, l0) = (b0 / 4, b0 % 4);
    let (h1, l1) = (b1 / 16, b1 % 16);
    let (h2, l2) = (b2 / 64, b2 % 64);
    let p = 16 * b0 + h1;
    let q = 1024 * b0 + 4 * b1 + h2;
    quotient_and_rest(n, 64, q, l2);
    quotient_and_rest(q, 64, p, 4 * l1 + h2);
    quotient_and_rest(p, 64, h0, 16 * l0 + h1);
    quotient_and_rest(n, 4096, p, 64 * (4 * l1 + h2) + l2);
    quotient_and_rest(n, 262144, h0, 4096 * (16 * l0 + h1) + 64 * (4 * l1 + h2) + l2);
    quotient_and_rest(n, 65536, b0, 256 * b1 + b2);
    quotient_and_rest(n, 256, 256 * b0 + b1, b2);
    quotient_and_rest(256 * b0 + b1, 256, b0, b1);
}

/// Decoding what Base64 made gives the bytes back.
#[verifier::rlimit(30)]
pub proof fn base64_is_undone(bytes: Seq<u8>)
    ensures
        base64_decoded(boundary::base64(bytes)) == bytes,
    decreases bytes.len(),
{
    let len = bytes.len();
    let s = boundary::base64(bytes);
    if len > 0 {
        let b1 = if len > 1 {
            bytes[1] as int
        } else {
            0
        };
        let b2 = if len > 2 {
            bytes[2] as int
        } else {
            0
        };
        let n = 65536 * bytes[0] + 256 * b1 + b2;
        let rest = if len > 3 {
            bytes.skip(3)
        } else {
            Seq::empty()
        };
        base64_is_undone(rest);
        base64_group(bytes[0] as int, b1, b2, n);
        base64_digit_has_its_value(n / 262144);
        base64_digit_has_its_value(n / 4096 % 64);
        base64_digit_has_its_value(n / 64 % 64);
        base64_digit_has_its_value(n % 64);
        let group = seq![
            boundary::base64_digit(n / 262144),
            boundary::base64_digit(n / 4096 % 64),
            if len > 1 {
                boundary::base64_digit(n / 64 % 64)
            } else {
                '='
            },
            if len > 2 {
                boundary::base64_digit(n % 64)
            } else {
                '='
            },
        ];
        assert(s == group + boundary::base64(rest));
        assert(s.skip(4) == boundary::base64(rest));
        let taken = if len > 3 {
            3
        } else {
            len as int
        };
        base64_group_is_undone(s, bytes.take(taken), n);
        assert(bytes.take(taken) + rest == bytes);
    }
}

/// A group of four digits stands for the one, two or three bytes of its number.
proof fn base64_group_is_undone(s: Seq<char>, part: Seq<u8>, n: int)
    requires
        s.len() >= 4,
        1 <= part.len() <= 3,
        262144 * base64_value(s[0]) + 4096 * base64_value(s[1]) + 64 * base64_value(s[2])
            + base64_value(s[3]) == n,
        s[2] == '=' <==> part.len() < 2,
        s[3] == '=' <==> part.len() < 3,
        n / 65536 == part[0],
        part.len() > 1 ==> n / 256 % 256 == part[1],
        part.len() > 2 ==> n % 256 == part[2],
    ensures
        base64_decoded(s) == part + base64_decoded(s.skip(4)),
{
    let second = if s[2] == '=' {
        Seq::<u8>::empty()
    } else {
        seq![(n / 256 % 256) as u8]
    };
    let third = if s[3] == '=' {
        Seq::<u8>::empty()
    } else {
        seq![(n % 256) as u8]
    };
    assert(part == seq![(n / 65536) as u8] + second + third);
}

/// An upstream proxy is shown the name and the password: what its authorization
/// header holds decodes to them, with a colon between.
pub proof fn credentials_reach_the_proxy(proxy: ProxyView, user: Seq<char>, pass: Seq<char>)
    requires
        proxy.username == Some(user),
        proxy.password == Some(pass),
    ensures
        ({
            let header = http_head::authorization(proxy);
            let start = "Proxy-Authorization: Basic "@.len() as int;
            &&& text::starts_with(header, "Proxy-Authorization: Basic "@)
            &&& base64_decoded(header.subrange(start, header.len() - 2))
                == vstd::utf8::encode_utf8(user + ":"@ + pass)
        }),
{
    reveal_strlit("\r\n");
    let name = "Proxy-Authorization: Basic "@;
    let header = http_head::authorization(proxy);
    let bytes = vstd::utf8::encode_utf8(user + ":"@ + pass);
    let token = boundary::base64(bytes);
    assert(header == name + token + "\r\n"@);
    assert(header.subrange(0, name.len() as int) == name);
    assert(header.subrange(name.len() as int, header.len() - 2) == token);
    base64_is_undone(bytes);
}

/// A host and a port are written with a colon between them, the port in decimal; a host
/// with colons of its own stands in brackets, unless it has them already.
pub proof fn authorities_are_written_out(host: Seq<char>, port: u16)
    ensures
        ({
            let digits = decimal::decimal(port as nat);
            &&& !text::contains(host, ":"@) ==> http_head::authority(host, port) == host + ":"@
                + digits
            &&& text::starts_with(host, "["@) ==> http_head::authority(host, port) == host + ":"@
                + digits
            &&& text::contains(host, ":"@) && !text::starts_with(host, "["@)
                ==> http_head::authority(host, port) == "["@ + host + "]:"@ + digits
        }),
{
}

/// A host without brackets is what stands in front of the last colon, and its port is
/// what the digits behind it write; anything else there is a bad port, and without a
/// colon there is no destination at all.
pub proof fn destinations_are_read_at_the_last_colon(host: Seq<char>, digits: Seq<char>)
    requires
        !text::starts_with(host, "["@),
        forall|i: int| 0 <= i < digits.len() ==> #[trigger] digits[i] != ':',
    ensures
        http_head::host_and_port(host + ":"@ + digits) == (match decimal::port_number(digits) {
            Some(port) => Ok::<(Seq<char>, u16), Seq<char>>((host, port)),
            None => Err("bad CONNECT port: "@ + (host + ":"@ + digits)),
        }),
        !text::starts_with(digits, "["@) ==> http_head::host_and_port(digits) == Err::<
            (Seq<char>, u16),
            Seq<char>,
        >("bad CONNECT authority: "@ + digits),
{
    reveal_strlit(":");
    reveal_strlit("[");
    let s = host + ":"@ + digits;
    let n = host.len() as int;
    assert(s[n] == ':');
    assert forall|j: int| n < j < s.len() implies s[j] != ':' by {
        assert(s[j] == digits[j - n - 1]);
    }
    rfind_is_unique(s, ':', n);
    assert(s.take(n) == host);
    assert(s.skip(n + 1) == digits);
    if text::starts_with(s, "["@) {
        assert(s.subrange(0, 1)[0] == s[0]);
        assert(s[0] == '[');
        assert(n > 0);
        assert(host[0] == '[');
        assert(host.subrange(0, 1) == "["@);
    }
    text::rfind_is_last(digits, ':');
}

/// A host in brackets is what stands between them, and its port is what the digits behind
/// them and a colon write; anything else there is a bad port, and without a closing
/// bracket and a colon there is no destination at all.
pub proof fn bracketed_destinations_are_read(inner: Seq<char>, digits: Seq<char>)
    requires
        !text::contains(inner, "]:"@),
    ensures
        http_head::host_and_port("["@ + inner + "]:"@ + digits) == (match decimal::port_number(
            digits,
        ) {
            Some(port) => Ok::<(Seq<char>, u16), Seq<char>>((inner, port)),
            None => Err("bad CONNECT port: "@ + ("["@ + inner + "]:"@ + digits)),
        }),
        http_head::host_and_port("["@ + inner) == Err::<(Seq<char>, u16), Seq<char>>(
            "bad CONNECT authority: "@ + ("["@ + inner),
        ),
{
    reveal_strlit("[");
    reveal_strlit("]:");
    let mark = "]:"@;
    let s = "["@ + inner + mark + digits;
    let rest = inner + mark + digits;
    let n = inner.len() as int;
    assert(s.subrange(0, 1) == "["@);
    assert(s.skip(1) == rest);
    assert(rest.subrange(n, n + 2) == mark);
    assert forall|j: int| 0 <= j < n implies !#[trigger] text::occurs_at(rest, mark, j) by {
        if text::occurs_at(rest, mark, j) {
            let found = rest.subrange(j, j + 2);
            assert(found[0] == ']' && found[1] == ':');
            assert(rest[j + 1] == ':');
            if j + 2 <= n {
                assert(inner.subrange(j, j + 2) == found);
                assert(text::occurs_at(inner, mark, j));
            } else {
                assert(rest[n] == ']');
            }
        }
    }
    text::find_is_unique(rest, mark, n);
    assert(rest.take(n) == inner);
    assert(rest.skip(n + 2) == digits);
    let open = "["@ + inner;
    assert(open.subrange(0, 1) == "["@);
    assert(open.skip(1) == inner);
    text::find_is_first(inner, mark);
}

/// A header line whose name is `Host`, in any case of letters, tells the host: all behind
/// its first colon, without white space around it. Other header lines are passed over,
/// and an empty line ends the search.
pub proof fn host_headers_are_found(
    name: Seq<char>,
    value: Seq<char>,
    other: Seq<char>,
    lines: Seq<Seq<char>>,
)
    requires
        forall|i: int| 0 <= i < name.len() ==> #[trigger] name[i] != ':',
        forall|i: int| 0 <= i < other.len() ==> #[trigger] other[i] != ':',
        other.len() > 0,
    ensures
        text::lowered(name) == "host"@ ==> http_head::host_header_in(
            seq![name + ":"@ + value] + lines,
        ) == Some(text::trimmed(value)),
        text::lowered(name) != "host"@ ==> http_head::host_header_in(
            seq![name + ":"@ + value] + lines,
        ) == http_head::host_header_in(lines),
        http_head::host_header_in(seq![other] + lines) == http_head::host_header_in(lines),
        http_head::host_header_in(seq![Seq::<char>::empty()] + lines) is None,
        http_head::host_header_in(Seq::<Seq<char>>::empty()) is None,
{
    reveal_strlit(":");
    reveal_strlit("host");
    assert(text::lowered("host"@) == "host"@);
    let line = name + ":"@ + value;
    let n = name.len() as int;
    assert(line.subrange(n, n + 1) == seq![':']);
    assert forall|j: int| 0 <= j < n implies !#[trigger] text::occurs_at(line, seq![':'], j) by {
        assert(line.subrange(j, j + 1)[0] == name[j]);
    }
    text::find_is_unique(line, seq![':'], n);
    assert(line.take(n) == name);
    assert(line.skip(n + 1) == value);
    let named = seq![line] + lines;
    assert(named[0] == line);
    assert(named.drop_first() == lines);
    text::find_is_first(other, seq![':']);
    if let Some(i) = text::find(other, seq![':']) {
        assert(other.subrange(i, i + 1)[0] == other[i]);
    }
    let plain = seq![other] + lines;
    assert(plain[0] == other);
    assert(plain.drop_first() == lines);
    assert((seq![Seq::<char>::empty()] + lines)[0].len() == 0);
}

/// The header lines of a head stand behind its first line.
pub proof fn headers_stand_behind_the_first_line(line: Seq<char>, rest: Seq<char>)
    requires
        text_laws::is_one_line(line),
        holds_no_cr(line),
    ensures
        http_head::host_header_of(line + "\r\n"@ + rest) == http_head::host_header_in(
            text::lines(rest),
        ),
        http_head::behind_first_line(line + "\r\n"@ + rest) == rest,
        http_head::behind_first_line(line).len() == 0,
{
    reveal_strlit("\r\n");
    assert("\r\n"@ == seq!['\r', '\n']);
    lines_behind_first(line, rest);
    let s = line + "\r\n"@ + rest;
    let n = line.len() as int;
    assert(s.subrange(n, n + 2) == "\r\n"@);
    assert forall|j: int| 0 <= j < n implies !#[trigger] text::occurs_at(s, "\r\n"@, j) by {
        assert(s.subrange(j, j + 2)[0] == line[j]);
    }
    text::find_is_unique(s, "\r\n"@, n);
    assert(s.skip(n + 2) == rest);
    text::find_is_first(line, "\r\n"@);
    if let Some(i) = text::find(line, "\r\n"@) {
        assert(line.subrange(i, i + 2)[0] == line[i]);
    }
}

/// A request for a URL asks its host for the path and the query, with a question mark
/// between them where there is a query, and for the root where there is no path.
pub proof fn request_paths_are_written_out(u: boundary::UrlView)
    ensures
        u.path.len() > 0 && u.query is None ==> http_head::origin_form(u) == u.path,
        u.path.len() == 0 && u.query is None ==> http_head::origin_form(u) == "/"@,
        u.query matches Some(query) ==> u.path.len() > 0 ==> http_head::origin_form(u) == u.path
            + "?"@ + query,
        u.query matches Some(query) ==> u.path.len() == 0 ==> http_head::origin_form(u) == "/"@
            + "?"@ + query,
{
}

/// A plain request goes where its target says, or else where its `Host` header says, at
/// port 80 where neither says more. It keeps its method, its version and all its headers,
/// and asks for the path of its URL, or for the target that it had.
pub proof fn plain_requests_are_rewritten_word_by_word(
    method: Seq<char>,
    target: Seq<char>,
    version: Seq<char>,
    rest: Seq<char>,
    url: Option<boundary::UrlView>,
)
    requires
        method.len() > 0,
        target.len() > 0,
        version.len() > 0,
        text::is_solid(method),
        text::is_solid(target),
        text::is_solid(version),
    ensures
        ({
            let head = method + seq![' '] + target + seq![' '] + version + "\r\n"@ + rest;
            let r = http_head::rewritten_request(head, url);
            &&& http_head::request_target(head) == target
            &&& url matches Some(u) ==> match u.host {
                Some(host) => r matches Ok((h, p, request)) && h == host && p == (
                match u.known_port {
                    Some(port) => port,
                    None => 80u16,
                }) && request == method + seq![' '] + http_head::origin_form(u) + seq![' ']
                    + version + "\r\n"@ + rest,
                None => r matches Err(m) && m == "plain HTTP request missing host: "@ + target,
            }
            &&& url is None ==> match http_head::host_header_in(text::lines(rest)) {
                Some(value) => match http_head::host_and_port(value) {
                    Ok((host, port)) => r matches Ok((h, p, request)) && h == host && p == port
                        && request == head,
                    Err(_) => r matches Ok((h, p, request)) && h == text::trimmed(value) && p == 80
                        && request == head,
                },
                None => r matches Err(m) && m == "plain HTTP request missing Host"@,
            }
        }),
{
    reveal_strlit("\r\n");
    reveal_strlit(" ");
    assert(" "@ == seq![' ']);
    assert("\r\n"@ == seq!['\r', '\n']);
    let line = method + seq![' '] + target + seq![' '] + version;
    assert forall|i: int| 0 <= i < line.len() implies #[trigger] line[i] != '\n' && line[i]
        != '\r' by {
        let a = method.len() as int;
        let b = a + 1 + target.len();
        if i < a {
            assert(line[i] == method[i]);
        } else if a < i < b {
            assert(line[i] == target[i - a - 1]);
        } else if b < i {
            assert(line[i] == version[i - b - 1]);
        }
    }
    let head = line + "\r\n"@ + rest;
    first_line_is_found(line, rest);
    assert(text::first_line(head) == line);
    three_words(method, target, version);
    assert(text::words(line)[0] == method && text::words(line)[1] == target && text::words(line)[2]
        == version);
    headers_stand_behind_the_first_line(line, rest);
}

/// Where a request line has no words, the request is one for the root, by the usual
/// method and version.
pub proof fn missing_words_have_defaults(rest: Seq<char>)
    ensures
        ({
            let head = "\r\n"@ + rest;
            &&& http_head::request_target(head) == "/"@
            &&& http_head::host_header_in(text::lines(rest)) is Some ==> (
            http_head::rewritten_request(head, None) matches Ok((_, _, request)) && request
                == "GET / HTTP/1.1\r\n"@ + rest)
        }),
{
    reveal_strlit("\r\n");
    reveal_strlit(" ");
    reveal_strlit("/");
    reveal_strlit("GET");
    reveal_strlit("HTTP/1.1");
    reveal_strlit("GET / HTTP/1.1\r\n");
    let none = Seq::<char>::empty();
    let head = "\r\n"@ + rest;
    assert(head == none + seq!['\r', '\n'] + rest);
    assert(head == none + "\r\n"@ + rest);
    first_line_is_found(none, rest);
    headers_stand_behind_the_first_line(none, rest);
    text_laws::words_are_read_in_turn(none, seq!['x'], none);
    assert("GET"@ + " "@ + "/"@ + " "@ + "HTTP/1.1"@ + "\r\n"@ + rest == "GET / HTTP/1.1\r\n"@
        + rest);
}

/// A proxy is shown credentials only where both the name and the password are known.
pub proof fn credentials_need_name_and_password(proxy: ProxyView)
    requires
        proxy.username is None || proxy.password is None,
    ensures
        http_head::authorization(proxy).len() == 0,
        http_head::credentials(proxy) is None,
{
}

/// The request for a tunnel is a `CONNECT` for its destination, shows the `Host` header
/// that it was given, and introduces itself as a browser.
pub proof fn connect_requests_show_their_host(
    dest_host: Seq<char>,
    dest_port: u16,
    host_header: Seq<char>,
    proxy: ProxyView,
)
    requires
        text_laws::is_one_line(dest_host),
        holds_no_cr(dest_host),
        text_laws::is_one_line(host_header),
        holds_no_cr(host_header),
    ensures
        ({
            let request = http_head::connect_request(dest_host, dest_port, host_header, proxy);
            &&& text::starts_with(
                request,
                "CONNECT "@ + http_head::authority(dest_host, dest_port) + " HTTP/1.1\r\n"@,
            )
            &&& http_head::host_header_of(request) == Some(text::trimmed(host_header))
            &&& http_head::CONNECT_USER_AGENT@
                == "Mozilla/5.0 (X11; Linux x86_64) AppleWebKit/537.36 (KHTML, like Gecko) Chrome/122.0.0.0 Safari/537.36"@
        }),
{
    reveal_strlit("CONNECT ");
    reveal_strlit(" HTTP/1.1\r\n");
    reveal_strlit(" HTTP/1.1");
    reveal_strlit("\r\n");
    reveal_strlit(" HTTP/1.1\r\nHost: ");
    reveal_strlit("Host: ");
    reveal_strlit("Host");
    reveal_strlit("host");
    reveal_strlit(":");
    reveal_strlit("\r\nProxy-Connection: Keep-Alive\r\nUser-Agent: ");
    reveal_strlit("Proxy-Connection: Keep-Alive\r\nUser-Agent: ");
    let dest = http_head::authority(dest_host, dest_port);
    let request = http_head::connect_request(dest_host, dest_port, host_header, proxy);
    let tail = "Proxy-Connection: Keep-Alive\r\nUser-Agent: "@ + http_head::CONNECT_USER_AGENT@
        + "\r\n"@ + http_head::authorization(proxy) + "\r\n"@;
    let line = "CONNECT "@ + dest + " HTTP/1.1"@;
    let value = seq![' '] + host_header;
    let header = "Host"@ + ":"@ + value;
    assert("Host: "@ == "Host"@ + ":"@ + seq![' ']);
    assert(" HTTP/1.1\r\nHost: "@ == " HTTP/1.1"@ + "\r\n"@ + "Host: "@);
    assert("\r\nProxy-Connection: Keep-Alive\r\nUser-Agent: "@ == "\r\n"@
        + "Proxy-Connection: Keep-Alive\r\nUser-Agent: "@);
    assert(" HTTP/1.1\r\n"@ == " HTTP/1.1"@ + "\r\n"@);
    let rest = header + "\r\n"@ + tail;
    assert(request == line + "\r\n"@ + rest);
    let front = "CONNECT "@ + dest + " HTTP/1.1\r\n"@;
    assert(front == line + "\r\n"@);
    assert(request == front + rest);
    text_laws::text_holds_its_parts(Seq::empty(), front, rest);
    authority_on_one_line(dest_host, dest_port);
    authority_holds_no_cr(dest_host, dest_port);
    assert(text_laws::is_one_line(line));
    assert(holds_no_cr(line)) by {
        joined_holds_no_cr("CONNECT "@, dest);
        joined_holds_no_cr("CONNECT "@ + dest, " HTTP/1.1"@);
    }
    headers_stand_behind_the_first_line(line, rest);
    assert(text_laws::is_one_line(header));
    assert("\r\n"@ == seq!['\r', '\n']);
    text_laws::lines_are_read_in_turn(header, tail);
    assert(text::lowered("Host"@) == "host"@);
    host_headers_are_found("Host"@, value, seq!['x'], text::lines(tail));
    space_in_front_does_not_count(host_header);
}

proof fn space_in_front_does_not_count(s: Seq<char>)
    ensures
        text::trimmed(seq![' '] + s) == text::trimmed(s),
{
    let t = seq![' '] + s;
    assert(t[0] == ' ');
    assert(t.drop_first() == s);
}

proof fn authority_on_one_line(host: Seq<char>, port: u16)
    requires
        text_laws::is_one_line(host),
    ensures
        text_laws::is_one_line(http_head::authority(host, port)),
{
    reveal_strlit("[");
    reveal_strlit("]:");
    reveal_strlit(":");
    let digits = decimal::decimal(port as nat);
    text_laws::numbers_are_written_short(port as nat);
    let s = http_head::authority(host, port);
    assert forall|i: int| 0 <= i < s.len() implies #[trigger] s[i] != '\n' by {
        let k = s.len() - digits.len();
        if i >= k {
            assert(s[i] == digits[i - k]);
            assert('0' <= digits[i - k] <= '9');
        } else if text::contains(host, ":"@) && !text::starts_with(host, "["@) {
            if 1 <= i <= host.len() {
                assert(s[i] == host[i - 1]);
            }
        } else if i < host.len() {
            assert(s[i] == host[i]);
        }
    }
}

/// A plain request for a URL goes to the port that is written in it, or else to the usual
/// one of its scheme: 80 for plain HTTP and web sockets, 443 with TLS, 21 for file
/// transfer, and 80 for any other.
pub proof fn urls_have_their_usual_port(u: boundary::UrlView)
    ensures
        u.port matches Some(port) ==> http_head::port_of_url(u) == port,
        u.port is None && (u.scheme == "https"@ || u.scheme == "wss"@) ==> http_head::port_of_url(
            u,
        ) == 443,
        u.port is None && u.scheme == "ftp"@ ==> http_head::port_of_url(u) == 21,
        u.port is None && u.scheme != "https"@ && u.scheme != "wss"@ && u.scheme != "ftp"@
            ==> http_head::port_of_url(u) == 80,
{
    reveal_strlit("https");
    reveal_strlit("wss");
    reveal_strlit("ftp");
    reveal_strlit("http");
    reveal_strlit("ws");
    assert("https"@.len() == 5 && "http"@.len() == 4 && "ws"@.len() == 2 && "wss"@.len() == 3);
    assert("ftp"@.len() == 3 && "ftp"@[0] == 'f' && "wss"@[0] == 'w');
}

} // verus!
