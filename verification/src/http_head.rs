//! HTTP heads: requests to a proxy, replies from one, and requests for one.
use crate::boundary;
use crate::boundary::{UrlParts, UrlView};
use crate::decimal;
use crate::http_laws;
use crate::net_proxy::{ParsedProxy, ProxyView};
use crate::text;
use vstd::prelude::*;

verus! {

/// The user agent that the program shows to an upstream proxy.
pub const CONNECT_USER_AGENT: &'static str =
    "Mozilla/5.0 (X11; Linux x86_64) AppleWebKit/537.36 (KHTML, like Gecko) Chrome/122.0.0.0 Safari/537.36";

/// A host and a port as one text. A host with colons of its own is put in brackets.
pub open spec fn authority(host: Seq<char>, port: u16) -> Seq<char> {
    if text::contains(host, ":"@) && !text::starts_with(host, "["@) {
        "["@ + host + "]:"@ + decimal::decimal(port as nat)
    } else {
        host + ":"@ + decimal::decimal(port as nat)
    }
}

/// A host and a port as one text.
pub fn connect_authority(host: &str, port: u16) -> (r: String)
    ensures
        r@ == authority(host@, port),
{
    let h = text::chars_of(host);
    if text::has(h.as_slice(), ":") && !text::begins(h.as_slice(), "[") {
        let mut r = "[".to_owned();
        r.append(host);
        r.append("]:");
        decimal::push_decimal(&mut r, port as u64);
        r
    } else {
        let mut r = host.to_owned();
        r.append(":");
        decimal::push_decimal(&mut r, port as u64);
        r
    }
}

/// A status line says that all is well: its second word is `200`.
pub open spec fn is_status_ok(status_line: Seq<char>) -> bool {
    text::nth_word(status_line, 1) == Some("200"@)
}

/// Tells whether a status line says that all is well.
pub fn connect_status_ok(status_line: &str) -> (r: bool)
    ensures
        r == is_status_ok(status_line@),
{
    let s = text::chars_of(status_line);
    match text::word(s.as_slice(), 1) {
        Some(code) => text::is_text(code, "200"),
        None => false,
    }
}

/// The values of the `Host` header to try with an upstream proxy, in order. Some
/// proxies look up the whole header as a host name, port and all, and find no such
/// domain: so the bare host comes first.
pub open spec fn host_headers(dest_host: Seq<char>, dest_port: u16) -> Seq<Seq<char>> {
    seq![dest_host, authority(dest_host, dest_port)]
}

/// The values of the `Host` header to try with an upstream proxy, in order.
pub fn host_header_candidates(dest_host: &str, dest_port: u16) -> (r: Vec<String>)
    ensures
        text::string_views(r@) == host_headers(dest_host@, dest_port),
{
    let mut r: Vec<String> = Vec::new();
    r.push(dest_host.to_owned());
    r.push(connect_authority(dest_host, dest_port));
    assert(text::string_views(r@) == host_headers(dest_host@, dest_port));
    r
}

/// The credentials of a proxy, as text for Basic authentication. There are some
/// only where both the name and the password are known.
pub open spec fn credentials(proxy: ProxyView) -> Option<Seq<char>> {
    match (proxy.username, proxy.password) {
        (Some(user), Some(pass)) => Some(user + ":"@ + pass),
        _ => None,
    }
}

/// The header that authenticates to a proxy; empty without credentials.
pub open spec fn authorization(proxy: ProxyView) -> Seq<char> {
    match credentials(proxy) {
        Some(c) => "Proxy-Authorization: Basic "@ + boundary::base64(vstd::utf8::encode_utf8(c))
            + "\r\n"@,
        None => Seq::empty(),
    }
}

/// The request that asks a proxy for a tunnel.
pub open spec fn connect_request(
    dest_host: Seq<char>,
    dest_port: u16,
    host_header: Seq<char>,
    proxy: ProxyView,
) -> Seq<char> {
    "CONNECT "@ + authority(dest_host, dest_port) + " HTTP/1.1\r\nHost: "@ + host_header
        + "\r\nProxy-Connection: Keep-Alive\r\nUser-Agent: "@ + CONNECT_USER_AGENT@ + "\r\n"@
        + authorization(proxy) + "\r\n"@
}

/// The request that asks a proxy for a tunnel to `dest_host` and `dest_port`.
pub fn build_connect_request(
    dest_host: &str,
    dest_port: u16,
    host_header: &str,
    proxy: &ParsedProxy,
) -> (r: String)
    ensures
        r@ == connect_request(dest_host@, dest_port, host_header@, proxy@),
{
    let dest = connect_authority(dest_host, dest_port);
    let mut header = "CONNECT ".to_owned();
    header.append(dest.as_str());
    header.append(" HTTP/1.1\r\nHost: ");
    header.append(host_header);
    header.append("\r\nProxy-Connection: Keep-Alive\r\nUser-Agent: ");
    header.append(CONNECT_USER_AGENT);
    header.append("\r\n");
    let ghost plain = header@;
    if let (Some(user), Some(pass)) = (&proxy.username, &proxy.password) {
        let mut pair = user.as_str().to_owned();
        pair.append(":");
        pair.append(pass.as_str());
        let token = boundary::base64_text(pair.as_str().as_bytes());
        let mut line = "Proxy-Authorization: Basic ".to_owned();
        line.append(token.as_str());
        line.append("\r\n");
        header.append(line.as_str());
    }
    assert(header@ == plain + authorization(proxy@));
    header.append("\r\n");
    header
}

/// The blank line that ends an HTTP head: two line ends in a row.
pub open spec fn head_end_mark() -> Seq<u8> {
    seq![13, 10, 13, 10]
}

/// The length of the HTTP head at the start of `buf`, blank line and all.
pub open spec fn head_len(buf: Seq<u8>) -> Option<int> {
    match text::find(buf, head_end_mark()) {
        Some(i) => Some(i + 4),
        None => None,
    }
}

/// The index behind the first blank line in `buf`.
pub fn find_head_end(buf: &[u8]) -> (r: Option<usize>)
    ensures
        match r {
            Some(end) => head_len(buf@) == Some(end as int) && 4 <= end <= buf@.len(),
            None => head_len(buf@) is None,
        },
{
    if buf.len() < 4 {
        return None;
    }
    let last: usize = buf.len() - 4;
    let mut i: usize = 0;
    loop
        invariant
            i <= last,
            last + 4 == buf@.len(),
            text::find(buf@, head_end_mark()) == text::find_from(
                buf@,
                head_end_mark(),
                i as int,
            ),
        decreases last - i,
    {
        let ghost window = buf@.subrange(i as int, i + 4);
        if buf[i] == 13 && buf[i + 1] == 10 && buf[i + 2] == 13 && buf[i + 3] == 10 {
            assert(window == head_end_mark());
            return Some(i + 4);
        }
        assert(window[0] == buf@[i as int] && window[1] == buf@[i + 1] && window[2] == buf@[i + 2]
            && window[3] == buf@[i + 3]);
        assert(!text::occurs_at(buf@, head_end_mark(), i as int));
        if i == last {
            assert(text::find_from(buf@, head_end_mark(), i + 1) is None);
            return None;
        }
        i += 1;
    }
}

/// The HTTP head at the start of `buf`: its length and its text.
pub fn split_http_headers(buf: &[u8]) -> (r: Option<(usize, String)>)
    ensures
        match r {
            Some((end, head)) => {
                &&& head_len(buf@) == Some(end as int)
                &&& 4 <= end <= buf@.len()
                &&& head@ == boundary::utf8_lossy(buf@.take(end as int))
                &&& vstd::utf8::valid_utf8(buf@.take(end as int)) ==> head@
                    == vstd::utf8::decode_utf8(buf@.take(end as int))
            },
            None => head_len(buf@) is None,
        },
{
    match find_head_end(buf) {
        Some(end) => {
            let head: &[u8] = &buf[0..end];
            assert(head@ == buf@.take(end as int));
            Some((end, boundary::lossy_text(head)))
        },
        None => None,
    }
}

/// The host and the port that `s` writes, or what is wrong with it.
pub open spec fn host_and_port(s: Seq<char>) -> Result<(Seq<char>, u16), Seq<char>> {
    if text::starts_with(s, "["@) {
        let rest = s.skip(1);
        match text::find(rest, "]:"@) {
            Some(i) => match decimal::port_number(rest.skip(i + 2)) {
                Some(port) => Ok((rest.take(i), port)),
                None => Err("bad CONNECT port: "@ + s),
            },
            None => Err("bad CONNECT authority: "@ + s),
        }
    } else {
        match text::rfind(s, ':') {
            Some(i) => match decimal::port_number(s.skip(i + 1)) {
                Some(port) => Ok((s.take(i), port)),
                None => Err("bad CONNECT port: "@ + s),
            },
            None => Err("bad CONNECT authority: "@ + s),
        }
    }
}

/// The view of a host and a port, or of what is wrong.
pub open spec fn destination_view(
    r: Result<(String, u16), String>,
) -> Result<(Seq<char>, u16), Seq<char>> {
    match r {
        Ok((host, port)) => Ok((host@, port)),
        Err(message) => Err(message@),
    }
}

fn message_with(message: &str, detail: &str) -> (r: String)
    ensures
        r@ == message@ + detail@,
{
    let mut r = message.to_owned();
    r.append(detail);
    r
}

/// Reads a host and a port, such as `example.com:443` or `[::1]:443`.
pub fn parse_connect_authority(authority: &str) -> (r: Result<(String, u16), String>)
    ensures
        destination_view(r) == host_and_port(authority@),
{
    let all = text::chars_of(authority);
    let s = all.as_slice();
    proof {
        reveal_strlit("[");
        reveal_strlit("]:");
    }
    if text::begins(s, "[") {
        let rest: &[char] = &s[1..s.len()];
        assert(rest@ == s@.skip(1));
        let mark = text::chars_of("]:");
        match text::find_text(rest, mark.as_slice()) {
            Some(i) => {
                let end: usize = rest.len();
                let digits: &[char] = &rest[i + 2..end];
                assert(digits@ == rest@.skip(i + 2));
                match decimal::parse_port(digits) {
                    Some(port) => {
                        let host: &[char] = &rest[0..i];
                        assert(host@ == rest@.take(i as int));
                        Ok((text::string_of(host), port))
                    },
                    None => Err(message_with("bad CONNECT port: ", authority)),
                }
            },
            None => Err(message_with("bad CONNECT authority: ", authority)),
        }
    } else {
        match text::rfind_char(s, ':') {
            Some(i) => {
                let digits: &[char] = &s[i + 1..s.len()];
                assert(digits@ == s@.skip(i + 1));
                match decimal::parse_port(digits) {
                    Some(port) => {
                        let host: &[char] = &s[0..i];
                        assert(host@ == s@.take(i as int));
                        Ok((text::string_of(host), port))
                    },
                    None => Err(message_with("bad CONNECT port: ", authority)),
                }
            },
            None => Err(message_with("bad CONNECT authority: ", authority)),
        }
    }
}

/// A word of a request line, or what stands for it where the line is shorter.
pub open spec fn word_or(line: Seq<char>, n: int, default: Seq<char>) -> Seq<char> {
    match text::nth_word(line, n) {
        Some(w) => w,
        None => default,
    }
}

/// The value of a header line, where its name is `Host`.
pub open spec fn host_value(line: Seq<char>) -> Option<Seq<char>> {
    match text::find(line, seq![':']) {
        Some(i) => if text::lowered(line.take(i)) == text::lowered("host"@) {
            Some(text::trimmed(line.skip(i + 1)))
        } else {
            None
        },
        None => None,
    }
}

/// The value of the first `Host` header among header lines that an empty line ends.
pub open spec fn host_header_in(lines: Seq<Seq<char>>) -> Option<Seq<char>>
    decreases lines.len(),
{
    if lines.len() == 0 || lines[0].len() == 0 {
        None
    } else if host_value(lines[0]) is Some {
        host_value(lines[0])
    } else {
        host_header_in(lines.drop_first())
    }
}

/// The value of the `Host` header of an HTTP head.
pub open spec fn host_header_of(head: Seq<char>) -> Option<Seq<char>> {
    if text::lines(head).len() > 0 {
        host_header_in(text::lines(head).drop_first())
    } else {
        None
    }
}

/// What stands behind the request line of an HTTP head.
pub open spec fn behind_first_line(head: Seq<char>) -> Seq<char> {
    match text::find(head, "\r\n"@) {
        Some(i) => head.skip(i + 2),
        None => Seq::empty(),
    }
}

/// The path and the query of a URL, as they stand in a request line.
pub open spec fn origin_form(url: UrlView) -> Seq<char> {
    let path = if url.path.len() == 0 {
        "/"@
    } else {
        url.path
    };
    match url.query {
        Some(query) => path + "?"@ + query,
        None => path,
    }
}

/// Where a plain request goes and what its request line asks for there: its host,
/// its port and its path. A target that is a URL (`url`) says so itself, for any
/// other the `Host` header says it.
pub open spec fn request_origin(
    target: Seq<char>,
    url: Option<UrlView>,
    host_header: Option<Seq<char>>,
) -> Result<(Seq<char>, u16, Seq<char>), Seq<char>> {
    match url {
        Some(u) => match u.host {
            Some(host) => Ok(
                (
                    host,
                    match u.known_port {
                        Some(port) => port,
                        None => 80,
                    },
                    origin_form(u),
                ),
            ),
            None => Err("plain HTTP request missing host: "@ + target),
        },
        None => match host_header {
            Some(value) => match host_and_port(value) {
                Ok((host, port)) => Ok((host, port, target)),
                Err(_) => Ok((text::trimmed(value), 80, target)),
            },
            None => Err("plain HTTP request missing Host"@),
        },
    }
}

/// A plain request turned into one for its own host, with `url` what its target
/// parses as: the host, the port, and the head with the new request line.
pub open spec fn rewritten_request(
    head: Seq<char>,
    url: Option<UrlView>,
) -> Result<(Seq<char>, u16, Seq<char>), Seq<char>> {
    let line = text::first_line(head);
    let target = word_or(line, 1, "/"@);
    match request_origin(target, url, host_header_of(head)) {
        Ok((host, port, path)) => Ok(
            (
                host,
                port,
                word_or(line, 0, "GET"@) + " "@ + path + " "@ + word_or(line, 2, "HTTP/1.1"@)
                    + "\r\n"@ + behind_first_line(head),
            ),
        ),
        Err(message) => Err(message),
    }
}

/// The target of the request line of an HTTP head.
pub open spec fn request_target(head: Seq<char>) -> Seq<char> {
    word_or(text::first_line(head), 1, "/"@)
}

/// The port that a plain request for a URL goes to: the one that is written, or
/// else the usual one of the scheme, or else that of plain HTTP.
pub open spec fn port_of_url(u: UrlView) -> u16 {
    match u.port {
        Some(port) => port,
        None => match boundary::usual_port(u.scheme) {
            Some(port) => port,
            None => 80,
        },
    }
}

/// The view of a rewritten request, or of what is wrong.
pub open spec fn rewritten_view(
    r: Result<(String, u16, String), String>,
) -> Result<(Seq<char>, u16, Seq<char>), Seq<char>> {
    match r {
        Ok((host, port, request)) => Ok((host@, port, request@)),
        Err(message) => Err(message@),
    }
}

/// A word of a request line, or what stands for it where the line is shorter.
fn pick_word(line: &[char], n: usize, default: &str) -> (r: String)
    ensures
        r@ == word_or(line@, n as int, default@),
{
    match text::word(line, n) {
        Some(w) => text::string_of(w),
        None => default.to_owned(),
    }
}

/// The value of a header line, where its name is `Host`.
fn read_host_value(line: &[char]) -> (r: Option<String>)
    ensures
        text::opt_view(r) == host_value(line@),
{
    match text::find_char(line, ':') {
        Some(i) => {
            let name: &[char] = &line[0..i];
            assert(name@ == line@.take(i as int));
            if text::same_ignoring_case(name, "host") {
                let end: usize = line.len();
                let value: &[char] = &line[i + 1..end];
                assert(value@ == line@.skip(i + 1));
                Some(text::string_of(text::trim(value)))
            } else {
                None
            }
        },
        None => None,
    }
}

/// The value of the `Host` header of an HTTP head.
pub fn find_host_header(head: &[char]) -> (r: Option<String>)
    ensures
        text::opt_view(r) == host_header_of(head@),
{
    let lines = text::split_lines(head);
    let ghost all = text::lines(head@);
    assert(all.len() == lines@.len());
    if lines.len() == 0 {
        return None;
    }
    let mut i: usize = 1;
    assert(all.skip(1) == all.drop_first());
    while i < lines.len()
        invariant
            1 <= i <= lines@.len(),
            all == text::char_views(lines@),
            all.len() == lines@.len(),
            all == text::lines(head@),
            host_header_of(head@) == host_header_in(all.skip(i as int)),
        decreases lines@.len() - i,
    {
        let line = lines[i].as_slice();
        assert(all.skip(i as int)[0] == line@);
        if line.len() == 0 {
            return None;
        }
        let value = read_host_value(line);
        if value.is_some() {
            return value;
        }
        assert(all.skip(i as int).drop_first() == all.skip(i + 1));
        i += 1;
    }
    None
}

/// The path and the query of a URL, as they stand in a request line.
pub fn origin_form_of(url: &UrlParts) -> (r: String)
    ensures
        r@ == origin_form(url@),
{
    let mut path = if url.path.as_str().is_empty() {
        "/".to_owned()
    } else {
        url.path.as_str().to_owned()
    };
    if let Some(query) = &url.query {
        path.append("?");
        path.append(query.as_str());
    }
    path
}

/// Where a plain request goes and what it asks for there, with `url` what its
/// target parses as.
pub fn find_request_origin(
    target: &str,
    url: Option<UrlParts>,
    host_header: Option<String>,
) -> (r: Result<(String, u16, String), String>)
    ensures
        rewritten_view(r) == request_origin(
            target@,
            boundary::opt_url_view(url),
            text::opt_view(host_header),
        ),
{
    match url {
        Some(u) => {
            let path = origin_form_of(&u);
            match u.host {
                Some(host) => {
                    let port: u16 = match u.known_port {
                        Some(port) => port,
                        None => 80,
                    };
                    Ok((host, port, path))
                },
                None => Err(message_with("plain HTTP request missing host: ", target)),
            }
        },
        None => match host_header {
            Some(value) => match parse_connect_authority(value.as_str()) {
                Ok((host, port)) => Ok((host, port, target.to_owned())),
                Err(_) => {
                    let v = text::chars_of(value.as_str());
                    let host = text::string_of(text::trim(v.as_slice()));
                    Ok((host, 80, target.to_owned()))
                },
            },
            None => Err("plain HTTP request missing Host".to_owned()),
        },
    }
}

/// Turns a plain request for a proxy into one for its own host, with `url` what its
/// target parses as.
pub fn rewrite_request_for(head: &str, url: Option<UrlParts>) -> (r: Result<
    (String, u16, String),
    String,
>)
    ensures
        rewritten_view(r) == rewritten_request(head@, boundary::opt_url_view(url)),
{
    let all = text::chars_of(head);
    let s = all.as_slice();
    let line = text::head_line(s);
    let method = pick_word(line, 0, "GET");
    let target = pick_word(line, 1, "/");
    let version = pick_word(line, 2, "HTTP/1.1");
    let host_header = find_host_header(s);
    match find_request_origin(target.as_str(), url, host_header) {
        Ok((host, port, path)) => {
            let mut request = method;
            request.append(" ");
            request.append(path.as_str());
            request.append(" ");
            request.append(version.as_str());
            request.append("\r\n");
            let mark = text::chars_of("\r\n");
            proof {
                reveal_strlit("\r\n");
            }
            let ghost before = request@;
            if let Some(i) = text::find_text(s, mark.as_slice()) {
                let end: usize = s.len();
                let rest: &[char] = &s[i + 2..end];
                assert(rest@ == s@.skip(i + 2));
                text::push_chars(&mut request, rest);
            }
            assert(request@ == before + behind_first_line(head@));
            Ok((host, port, request))
        },
        Err(message) => Err(message),
    }
}

/// The target of the request line of an HTTP head.
pub fn target_of(head: &str) -> (r: String)
    ensures
        r@ == request_target(head@),
{
    let all = text::chars_of(head);
    pick_word(text::head_line(all.as_slice()), 1, "/")
}

/// Turns a plain request for a proxy, whose target is a whole URL, into one for the
/// URL's own host. A target that is no URL goes where the `Host` header says. A request
/// that was rewritten before stays as it is.
pub fn rewrite_absolute_http_request(header_text: &str) -> (r: Result<
    (String, u16, String),
    String,
>)
    ensures
        rewritten_view(r) == rewritten_request(
            header_text@,
            boundary::url_parse(request_target(header_text@)),
        ),
        boundary::url_parse(request_target(header_text@)) matches Some(u) ==> u.host is Some
            ==> (r matches Ok((_, port, _)) && port == port_of_url(u)),
        text::starts_with(request_target(header_text@), "/"@) ==> rewritten_view(r)
            == rewritten_request(header_text@, None),
        rewritten_view(r) matches Ok((_, _, request)) ==> {
            &&& if boundary::url_parse(request_target(header_text@)) is Some {
                text::starts_with(request_target(request), "/"@)
            } else {
                request_target(request) == request_target(header_text@)
            }
            &&& host_header_in(text::lines(behind_first_line(header_text@))) is Some ==> (
            rewritten_request(request, None) matches Ok((_, _, again)) && again == request)
        },
{
    let target = target_of(header_text);
    let url = boundary::parse_url(target.as_str());
    let ghost named = boundary::opt_url_view(url);
    let r = rewrite_request_for(header_text, url);
    proof {
        if let Ok((host, port, request)) = rewritten_view(r) {
            if let Some(u) = named {
                http_laws::request_path_is_solid(u);
            }
            http_laws::rewritten_request_line(header_text@, named, host, port, request);
            if host_header_in(text::lines(behind_first_line(header_text@))) is Some {
                http_laws::rewriting_twice_changes_nothing(
                    header_text@,
                    named,
                    host,
                    port,
                    request,
                );
            }
        }
    }
    r
}

} // verus!
