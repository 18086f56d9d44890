//! What holds of the choice of an upstream proxy as a whole.
use crate::boundary;
use crate::boundary::UrlView;
use crate::client;
use crate::client::SettingView;
use crate::decimal;
use crate::forward;
use crate::http_head;
use crate::local;
use crate::net_proxy;
use crate::net_proxy::{NetProxy, NetView, ProxyKind, ProxyView};
use crate::text;
use crate::text_laws;
use crate::tunnel;
use vstd::prelude::*;

verus! {

/// An address on the command line counts, whatever the environment says.
pub proof fn arguments_override_environment(
    args: Seq<Seq<char>>,
    env: Option<Seq<char>>,
    other: Option<Seq<char>>,
)
    requires
        net_proxy::option_value(net_proxy::behind_name(args)) is Some,
    ensures
        net_proxy::configured_proxy(args, env) == net_proxy::configured_proxy(args, other),
{
}

/// An argument that is not the option `--proxy-server`, in either of its forms.
pub open spec fn is_other_argument(arg: Seq<char>) -> bool {
    !text::starts_with(arg, "--proxy-server="@) && arg != "--proxy-server"@
}

/// Arguments in front of the option change nothing about its value.
proof fn option_is_found_behind(before: Seq<Seq<char>>, rest: Seq<Seq<char>>)
    requires
        forall|i: int| 0 <= i < before.len() ==> is_other_argument(#[trigger] before[i]),
    ensures
        net_proxy::option_value(before + rest) == net_proxy::option_value(rest),
    decreases before.len(),
{
    if before.len() > 0 {
        let all = before + rest;
        assert(is_other_argument(before[0]));
        assert(all.drop_first() == before.drop_first() + rest);
        option_is_found_behind(before.drop_first(), rest);
    } else {
        assert(before + rest == rest);
    }
}

/// Both ways of writing the option on the command line mean the same, with an equals
/// sign and with the address as the next argument: the proxy is the one that the
/// address alone, in the environment, would name. The first option counts, whatever
/// stands behind it.
pub proof fn option_forms_agree(
    name: Seq<char>,
    before: Seq<Seq<char>>,
    address: Seq<char>,
    after: Seq<Seq<char>>,
    env: Option<Seq<char>>,
)
    requires
        forall|i: int| 0 <= i < before.len() ==> is_other_argument(#[trigger] before[i]),
    ensures
        net_proxy::configured_proxy(
            seq![name] + before + seq!["--proxy-server="@ + address] + after,
            env,
        ) == net_proxy::configured_proxy(seq![name], Some(address)),
        net_proxy::configured_proxy(
            seq![name] + before + seq!["--proxy-server"@, address] + after,
            env,
        ) == net_proxy::configured_proxy(seq![name], Some(address)),
{
    reveal_strlit("--proxy-server=");
    reveal_strlit("--proxy-server");
    let joined = "--proxy-server="@ + address;
    let one = seq![joined] + after;
    let two = seq!["--proxy-server"@, address] + after;
    assert((seq![name] + before + seq![joined] + after).skip(1) == before + one);
    assert((seq![name] + before + seq!["--proxy-server"@, address] + after).skip(1) == before
        + two);
    assert(seq![name].skip(1) == Seq::<Seq<char>>::empty());
    option_is_found_behind(before, one);
    option_is_found_behind(before, two);
    assert(joined.subrange(0, "--proxy-server="@.len() as int) == "--proxy-server="@);
    assert(joined.skip("--proxy-server="@.len() as int) == address);
    assert(one[0] == joined);
    assert(two[0] == "--proxy-server"@ && two[1] == address);
}

/// Without an address there is no proxy, and every connection is direct.
pub proof fn no_address_means_direct(args: Seq<Seq<char>>)
    requires
        net_proxy::option_value(net_proxy::behind_name(args)) is None,
    ensures
        net_proxy::configured_proxy(args, None) is None,
        tunnel::route_through(net_proxy::configured_proxy(args, None)) is Direct,
{
    assert(text::trimmed(Seq::<char>::empty()).len() == 0);
}

/// A proxy is taken only where its address has a host and a scheme that stands for
/// SOCKS5 or HTTP; its kind is the scheme's, and it always has a port.
pub proof fn proxy_kind_is_the_schemes(raw: Seq<char>, proxy: ProxyView)
    requires
        net_proxy::proxy_named_by(raw) == Some(proxy),
    ensures
        boundary::url_parse(net_proxy::with_scheme(net_proxy::first_entry(raw))) matches Some(u)
            && u.host == Some(proxy.host) && net_proxy::scheme_kind(text::lowered(u.scheme))
            == Some(proxy.kind) && (u.port is Some ==> proxy.port == u.port->0) && (u.port is None
            ==> proxy.port == net_proxy::default_port(proxy.kind)),
        proxy.raw == net_proxy::first_entry(raw),
{
}

/// Text without white space at either end stays as it is when it is trimmed.
proof fn trimmed_stays(s: Seq<char>)
    ensures
        text::trimmed(text::trimmed(s)) == text::trimmed(s),
{
    let t = text::trimmed_start(s);
    text::trimmed_start_is_suffix(s);
    trimmed_end_stays(t);
    let r = text::trimmed(s);
    if r.len() > 0 {
        assert(r[0] == t[0]);
    }
    assert(text::trimmed_start(r) == r);
}

proof fn trimmed_end_stays(s: Seq<char>)
    ensures
        text::trimmed_end(text::trimmed_end(s)) == text::trimmed_end(s),
        text::trimmed_end(s).len() <= s.len(),
        text::trimmed_end(s) == s.take(text::trimmed_end(s).len() as int),
    decreases s.len(),
{
    if s.len() > 0 && text::is_white_space(s.last()) {
        trimmed_end_stays(s.drop_last());
        let n = text::trimmed_end(s).len() as int;
        assert(s.drop_last().take(n) == s.take(n));
    } else {
        assert(s.take(s.len() as int) == s);
    }
}

/// `s` holds no semicolon.
spec fn holds_no_semicolon(s: Seq<char>) -> bool {
    forall|i: int| 0 <= i < s.len() ==> #[trigger] s[i] != ';'
}

/// Trimming adds no semicolon.
proof fn trimmed_holds_no_semicolon(s: Seq<char>)
    requires
        holds_no_semicolon(s),
    ensures
        holds_no_semicolon(text::trimmed(s)),
{
    let t = text::trimmed_start(s);
    text::trimmed_start_is_suffix(s);
    trimmed_end_stays(t);
    let r = text::trimmed(s);
    assert forall|i: int| 0 <= i < r.len() implies #[trigger] r[i] != ';' by {
        assert(r[i] == t[i]);
        assert(t[i] == s[s.len() - t.len() + i]);
    }
}

/// The first entry of a list is the only entry of itself.
proof fn first_entry_stays(raw: Seq<char>)
    ensures
        net_proxy::first_entry(net_proxy::first_entry(raw)) == net_proxy::first_entry(raw),
{
    let entry = match text::find(raw, seq![';']) {
        Some(i) => raw.take(i),
        None => raw,
    };
    text::find_is_first(raw, seq![';']);
    assert(holds_no_semicolon(entry)) by {
        assert forall|j: int| 0 <= j < entry.len() implies #[trigger] entry[j] != ';' by {
            if entry[j] == ';' {
                assert(raw.subrange(j, j + 1) == seq![';']);
                assert(text::occurs_at(raw, seq![';'], j));
            }
        }
    }
    trimmed_holds_no_semicolon(entry);
    trimmed_stays(entry);
    let first = net_proxy::first_entry(raw);
    text::find_is_first(first, seq![';']);
    if let Some(i) = text::find(first, seq![';']) {
        assert(first.subrange(i, i + 1)[0] == first[i]);
    }
}

/// Reading the address of a proxy again gives the same proxy.
pub proof fn address_is_read_back(raw: Seq<char>, proxy: ProxyView)
    requires
        net_proxy::proxy_named_by(raw) == Some(proxy),
    ensures
        net_proxy::proxy_named_by(proxy.raw) == Some(proxy),
{
    first_entry_stays(raw);
}

/// Entries in a row, with commas between them.
pub open spec fn comma_list(entries: Seq<Seq<char>>) -> Seq<char>
    decreases entries.len(),
{
    if entries.len() == 0 {
        Seq::empty()
    } else if entries.len() == 1 {
        entries[0]
    } else {
        comma_list(entries.drop_last()) + ","@ + entries.last()
    }
}

/// This machine and the private networks, as entries of a list of hosts.
pub open spec fn local_hosts() -> Seq<Seq<char>> {
    seq![
        "localhost"@,
        "127.0.0.1"@,
        "::1"@,
        "10.0.0.0/8"@,
        "172.16.0.0/12"@,
        "192.168.0.0/16"@,
    ]
}

/// Whatever the proxy is, a client reaches this machine and the private networks
/// without it: they are the entries of its list of exceptions, and the only ones.
pub proof fn local_hosts_bypass_the_proxy(net: NetProxy, setting: SettingView)
    requires
        client::client_setting(net) == Some(setting),
    ensures
        setting.no_proxy == comma_list(local_hosts()),
{
    reveal_strlit("localhost,127.0.0.1,::1,10.0.0.0/8,172.16.0.0/12,192.168.0.0/16");
    reveal_strlit("localhost");
    reveal_strlit("127.0.0.1");
    reveal_strlit("::1");
    reveal_strlit("10.0.0.0/8");
    reveal_strlit("172.16.0.0/12");
    reveal_strlit("192.168.0.0/16");
    reveal_strlit(",");
    let all = local_hosts();
    reveal_with_fuel(comma_list, 6);
    assert(all.drop_last() == all.take(5));
    assert(all.take(5).drop_last() == all.take(4));
    assert(all.take(4).drop_last() == all.take(3));
    assert(all.take(3).drop_last() == all.take(2));
    assert(all.take(2).drop_last() == all.take(1));
    assert(setting.no_proxy == comma_list(all));
}

/// The entries of the web view's list of exceptions.
pub open spec fn webview_exceptions() -> Seq<Seq<char>> {
    seq![
        "127.0.0.1"@,
        "localhost"@,
        "::1"@,
        "<local>"@,
        "10.0.0.0/8"@,
        "172.16.0.0/12"@,
        "192.168.0.0/16"@,
    ]
}

/// The web view reaches this machine and the private networks without the forwarder:
/// each of them is an entry of its list of exceptions, in both spellings of the
/// variable, and every other variable that it is given names the forwarder.
pub proof fn local_hosts_bypass_the_forwarder(port: u16, i: int)
    requires
        0 <= i < net_proxy::webview_env_at(net_proxy::forwarder_url(port)).len(),
    ensures
        ({
            let (name, value) = net_proxy::webview_env_at(net_proxy::forwarder_url(port))[i];
            if name == "no_proxy"@ || name == "NO_PROXY"@ {
                value == comma_list(webview_exceptions())
            } else {
                value == net_proxy::forwarder_url(port)
            }
        }),
        forall|k: int|
            0 <= k < local_hosts().len() ==> webview_exceptions().contains(
                #[trigger] local_hosts()[k],
            ),
{
    reveal_strlit("127.0.0.1,localhost,::1,<local>,10.0.0.0/8,172.16.0.0/12,192.168.0.0/16");
    reveal_strlit("127.0.0.1");
    reveal_strlit("localhost");
    reveal_strlit("::1");
    reveal_strlit("<local>");
    reveal_strlit("10.0.0.0/8");
    reveal_strlit("172.16.0.0/12");
    reveal_strlit("192.168.0.0/16");
    reveal_strlit(",");
    reveal_strlit("http_proxy");
    reveal_strlit("https_proxy");
    reveal_strlit("HTTP_PROXY");
    reveal_strlit("HTTPS_PROXY");
    reveal_strlit("all_proxy");
    reveal_strlit("ALL_PROXY");
    reveal_strlit("no_proxy");
    reveal_strlit("NO_PROXY");
    let all = webview_exceptions();
    reveal_with_fuel(comma_list, 7);
    assert(all.drop_last() == all.take(6));
    assert(all.take(6).drop_last() == all.take(5));
    assert(all.take(5).drop_last() == all.take(4));
    assert(all.take(4).drop_last() == all.take(3));
    assert(all.take(3).drop_last() == all.take(2));
    assert(all.take(2).drop_last() == all.take(1));
    assert(net_proxy::WEBVIEW_PROXY_BYPASS@ == comma_list(all));
    assert("http_proxy"@[0] == 'h');
    assert("https_proxy"@[0] == 'h');
    assert("HTTP_PROXY"@[0] == 'H');
    assert("HTTPS_PROXY"@[0] == 'H');
    assert("all_proxy"@[0] == 'a');
    assert("ALL_PROXY"@[0] == 'A');
    assert("no_proxy"@[0] == 'n');
    assert("NO_PROXY"@[0] == 'N');
    let home = local_hosts();
    assert(home[0] == all[1] && home[1] == all[0] && home[2] == all[2]);
    assert(home[3] == all[4] && home[4] == all[5] && home[5] == all[6]);
}

/// No local destination has a way that leads through the proxy.
pub proof fn local_destinations_skip_the_proxy(proxy: Option<ProxyView>, host: Seq<char>)
    requires
        local::is_local_destination(host),
    ensures
        tunnel::route_to(proxy, host) is Direct,
{
}

/// A local request that reaches the forwarder skips the proxy as well: the plan is to
/// connect to the requested host itself, and the way there is direct. This holds of
/// tunnels and of plain requests, whatever the proxy is.
pub proof fn local_requests_skip_the_proxy(
    proxy: ProxyView,
    head: Seq<char>,
    url: Option<UrlView>,
    buf: Seq<u8>,
    leftover: Seq<u8>,
    host: Seq<char>,
)
    requires
        forward::requested_host(head, url) == Some(host),
        local::is_local_destination(host),
    ensures
        forward::plan_for_head(proxy, head, url, buf, leftover) matches Ok(plan) && plan.routed
            && plan.host == host && tunnel::route_to(Some(proxy), plan.host) is Direct,
{
}

/// The same of what a client sent to the forwarder.
pub proof fn local_connections_skip_the_proxy(
    proxy: ProxyView,
    buf: Seq<u8>,
    n: int,
    host: Seq<char>,
)
    requires
        http_head::head_len(buf) == Some(n),
        ({
            let head = boundary::utf8_lossy(buf.take(n));
            let url = boundary::url_parse(http_head::request_target(head));
            forward::requested_host(head, url) == Some(host)
        }),
        local::is_local_destination(host),
    ensures
        forward::forward_plan(Some(proxy), buf) matches Ok(plan) && plan.routed && plan.host == host
            && tunnel::route_to(Some(proxy), plan.host) is Direct,
{
}

/// The first start is final. Another one, whatever the arguments and the environment
/// say by now and whether or not a forwarder comes to listen, keeps the proxy and the
/// forwarder that there is; and where the first start found no proxy, there is no
/// forwarder and no variable is set.
pub proof fn first_start_is_final(
    first: NetView,
    args: Seq<Seq<char>>,
    env: Option<Seq<char>>,
    bound: Option<u16>,
)
    requires
        first.wf(),
    ensures
        ({
            let again = net_proxy::started(Some(first), args, env, bound);
            &&& again.wf()
            &&& again.proxy == first.proxy
            &&& first.forwarder_port is Some ==> again == first
            &&& first.proxy is None ==> again == first && again.forwarder_port is None
                && again.environment() == Seq::<(Seq<char>, Seq<char>)>::empty()
        }),
{
}

/// The state after the first start is one in which a forwarder needs a proxy.
pub proof fn first_start_is_well_formed(
    args: Seq<Seq<char>>,
    env: Option<Seq<char>>,
    bound: Option<u16>,
)
    ensures
        net_proxy::started(None, args, env, bound).wf(),
        net_proxy::started(None, args, env, bound).proxy == net_proxy::configured_proxy(args, env),
        net_proxy::started(None, args, env, bound).forwarder_port == (
        if net_proxy::configured_proxy(args, env) is Some {
            bound
        } else {
            None
        }),
{
}

/// Once the local forwarder listens, clients reach an HTTP proxy through it alone.
pub proof fn http_proxy_is_reached_through_forwarder(proxy: ProxyView, port: u16)
    requires
        proxy.kind == ProxyKind::Http,
    ensures
        client::client_proxy_url(proxy, Some(port)) == net_proxy::forwarder_url(port),
{
}

/// A SOCKS5 proxy resolves host names: its address is handed to clients with the
/// scheme that says so.
pub proof fn socks_proxy_resolves_names(proxy: ProxyView, rest: Seq<char>, port: Option<u16>)
    requires
        proxy.kind == ProxyKind::Socks5,
        proxy.raw == "socks5://"@ + rest || proxy.raw == "socks://"@ + rest,
    ensures
        client::client_proxy_url(proxy, port) == "socks5h://"@ + rest,
{
    reveal_strlit("socks5://");
    reveal_strlit("socks://");
    let a = "socks5://"@ + rest;
    let b = "socks://"@ + rest;
    assert(a.subrange(0, 9) == "socks5://"@);
    assert(a.skip(9) == rest);
    assert(b.subrange(0, 8) == "socks://"@);
    assert(b.skip(8) == rest);
    if proxy.raw == b {
        assert(b[5] == ':');
        if text::starts_with(b, "socks5://"@) {
            assert(b.subrange(0, 9)[5] == '5');
        }
    }
}

/// Of a list of addresses the first one counts, without the white space around it and
/// whatever stands behind its semicolon.
pub proof fn first_address_counts(
    before: Seq<char>,
    address: Seq<char>,
    after: Seq<char>,
    others: Seq<char>,
)
    requires
        text_laws::is_space(before),
        text_laws::is_trim(address),
        text_laws::is_space(after),
        forall|i: int| 0 <= i < address.len() ==> #[trigger] address[i] != ';',
    ensures
        net_proxy::first_entry(before + address + after + seq![';'] + others) == address,
        net_proxy::first_entry(before + address + after) == address,
{
    let entry = before + address + after;
    let n = entry.len() as int;
    assert forall|i: int| 0 <= i < n implies #[trigger] entry[i] != ';' by {
        let a = before.len() as int;
        let b = a + address.len();
        if i < a {
            assert(entry[i] == before[i]);
        } else if i < b {
            assert(entry[i] == address[i - a]);
        } else {
            assert(entry[i] == after[i - b]);
        }
    }
    text_laws::trimming_takes_space_off(before, address, after);
    let s = entry + seq![';'] + others;
    assert(s.subrange(n, n + 1) == seq![';']);
    assert forall|j: int| 0 <= j < n implies !#[trigger] text::occurs_at(s, seq![';'], j) by {
        assert(s.subrange(j, j + 1)[0] == entry[j]);
    }
    text::find_is_unique(s, seq![';'], n);
    assert(s.take(n) == entry);
    text::find_is_first(entry, seq![';']);
    if let Some(i) = text::find(entry, seq![';']) {
        assert(entry.subrange(i, i + 1)[0] == entry[i]);
    }
}

/// An address with `://` in it is taken as it is, any other as an HTTP address.
pub proof fn addresses_get_a_scheme(address: Seq<char>, scheme: Seq<char>, rest: Seq<char>)
    ensures
        net_proxy::with_scheme(scheme + "://"@ + rest) == scheme + "://"@ + rest,
        !text::contains(address, "://"@) ==> net_proxy::with_scheme(address) == "http://"@
            + address,
{
    text_laws::text_holds_its_parts(scheme, "://"@, rest);
}

/// A proxy is what the URL of its address says. Its scheme, in any case of letters, has to
/// be one of SOCKS or of HTTP; its port is the one that is written, or else 1080 for SOCKS
/// and 8080 for HTTP; its name is the URL's, where there is one, and its password the
/// URL's. No other address names a proxy.
pub proof fn proxies_are_what_their_url_says(address: Seq<char>, url: UrlView)
    ensures
        ({
            let scheme = text::lowered(url.scheme);
            let socks = scheme == "socks"@ || scheme == "socks5"@ || scheme == "socks5h"@;
            let http = scheme == "http"@ || scheme == "https"@;
            match net_proxy::proxy_at(address, url) {
                Some(p) => {
                    &&& p.raw == address
                    &&& url.host == Some(p.host)
                    &&& (socks && p.kind is Socks5) || (http && p.kind is Http)
                    &&& url.port matches Some(port) ==> p.port == port
                    &&& url.port is None && p.kind is Socks5 ==> p.port == 1080
                    &&& url.port is None && p.kind is Http ==> p.port == 8080
                    &&& url.username.len() == 0 ==> p.username is None
                    &&& url.username.len() > 0 ==> p.username == Some(url.username)
                    &&& p.password == url.password
                },
                None => url.host is None || (!socks && !http),
            }
        }),
{
    reveal_strlit("socks");
    reveal_strlit("socks5");
    reveal_strlit("socks5h");
    reveal_strlit("http");
    reveal_strlit("https");
    assert("socks"@[0] == 's');
    assert("socks5"@[0] == 's');
    assert("socks5h"@[0] == 's');
    assert("http"@[0] == 'h');
    assert("https"@[0] == 'h');
}

/// An address names the proxy that its URL says, and none where it is empty or is refused
/// as a URL.
pub proof fn addresses_name_their_proxy(raw: Seq<char>)
    ensures
        ({
            let address = net_proxy::first_entry(raw);
            let url = boundary::url_parse(net_proxy::with_scheme(address));
            &&& address.len() == 0 ==> net_proxy::proxy_named_by(raw) is None
            &&& url is None ==> net_proxy::proxy_named_by(raw) is None
            &&& url matches Some(u) ==> address.len() > 0 ==> net_proxy::proxy_named_by(raw)
                == net_proxy::proxy_at(address, u)
        }),
{
}

/// Without the option on the command line, or with the option as the last word and no
/// address behind it, the environment names the proxy.
pub proof fn environment_counts_without_the_option(
    name: Seq<char>,
    others: Seq<Seq<char>>,
    before: Seq<char>,
    address: Seq<char>,
    after: Seq<char>,
)
    requires
        forall|i: int| 0 <= i < others.len() ==> is_other_argument(#[trigger] others[i]),
        text_laws::is_space(before),
        text_laws::is_trim(address),
        text_laws::is_space(after),
    ensures
        ({
            let env = Some(before + address + after);
            let named = if address.len() == 0 {
                None
            } else {
                net_proxy::proxy_named_by(address)
            };
            &&& net_proxy::configured_proxy(seq![name] + others, env) == named
            &&& net_proxy::configured_proxy(seq![name] + others + seq!["--proxy-server"@], env)
                == named
            &&& net_proxy::configured_proxy(Seq::empty(), env) == named
            &&& net_proxy::configured_proxy(seq![name] + others, None) is None
        }),
{
    reveal_strlit("--proxy-server");
    reveal_strlit("--proxy-server=");
    let none = Seq::<Seq<char>>::empty();
    let last = seq!["--proxy-server"@];
    assert((seq![name] + others).skip(1) == others + none);
    assert((seq![name] + others + last).skip(1) == others + last);
    option_is_found_behind(others, none);
    option_is_found_behind(others, last);
    assert(last[0] == "--proxy-server"@);
    text_laws::trimming_takes_space_off(before, address, after);
    assert(text::trimmed(Seq::<char>::empty()).len() == 0);
}

/// The address of the forwarder is on this machine, and its port is read back from it.
pub proof fn forwarder_address_names_its_port(port: u16)
    ensures
        text::starts_with(net_proxy::forwarder_url(port), "http://127.0.0.1:"@),
        decimal::port_number(
            net_proxy::forwarder_url(port).skip("http://127.0.0.1:"@.len() as int),
        ) == Some(port),
{
    let front = "http://127.0.0.1:"@;
    let digits = decimal::decimal(port as nat);
    decimal::port_number_of_decimal(port);
    assert((front + digits).subrange(0, front.len() as int) == front);
    assert((front + digits).skip(front.len() as int) == digits);
}

/// The web view is given all of its proxy variables, in small and in capital letters:
/// those for each protocol name the forwarder, and those for the exceptions the hosts
/// that it reaches without. None is given while there is no forwarder.
pub proof fn web_view_is_given_its_variables(net: NetView, port: u16)
    ensures
        net.forwarder_port is None ==> net.environment().len() == 0,
        net.forwarder_port == Some(port) ==> net.environment() == seq![
            ("http_proxy"@, net_proxy::forwarder_url(port)),
            ("https_proxy"@, net_proxy::forwarder_url(port)),
            ("HTTP_PROXY"@, net_proxy::forwarder_url(port)),
            ("HTTPS_PROXY"@, net_proxy::forwarder_url(port)),
            ("all_proxy"@, net_proxy::forwarder_url(port)),
            ("ALL_PROXY"@, net_proxy::forwarder_url(port)),
            ("no_proxy"@, net_proxy::WEBVIEW_PROXY_BYPASS@),
            ("NO_PROXY"@, net_proxy::WEBVIEW_PROXY_BYPASS@),
        ],
{
}

/// A forwarder that comes to listen is recorded where there is a proxy and no forwarder
/// yet.
pub proof fn forwarders_are_recorded(net: NetView, port: u16)
    requires
        net.proxy is Some,
        net.forwarder_port is None,
    ensures
        net.with_forwarder(port).forwarder_port == Some(port),
        net.with_forwarder(port).proxy == net.proxy,
{
}

/// A scheme is reported exactly where it alone keeps an address from naming a proxy: the
/// address is a URL with a host, and names none. What is reported is the scheme in small
/// letters.
pub proof fn refused_schemes_are_reported(raw: Seq<char>)
    ensures
        net_proxy::refused_scheme_in(raw) is Some <==> (net_proxy::first_entry(raw).len() > 0
            && boundary::names_host(net_proxy::with_scheme(net_proxy::first_entry(raw)))
            && net_proxy::proxy_named_by(raw) is None),
        net_proxy::refused_scheme_in(raw) matches Some(scheme) ==> (boundary::url_parse(
            net_proxy::with_scheme(net_proxy::first_entry(raw)),
        ) matches Some(u) && scheme == text::lowered(u.scheme)),
{
}

/// A client is given the address of its proxy as it was given, where nothing asks for
/// another form: an HTTP proxy without a forwarder, and a SOCKS proxy whose address begins
/// neither with `socks5://` nor with `socks://`.
pub proof fn other_addresses_stay(proxy: ProxyView, port: Option<u16>)
    ensures
        proxy.kind is Http && port is None ==> client::client_proxy_url(proxy, port) == proxy.raw,
        proxy.kind is Socks5 && !text::starts_with(proxy.raw, "socks5://"@) && !text::starts_with(
            proxy.raw,
            "socks://"@,
        ) ==> client::client_proxy_url(proxy, port) == proxy.raw,
{
}

/// A client's proxy has the address that the client accepts; without a proxy, and without
/// an address that it accepts, a client has no proxy.
pub proof fn clients_use_the_address_they_accept(net: NetProxy)
    ensures
        net.proxy is None ==> client::client_setting(net) is None,
        net.proxy matches Some(proxy) ==> {
            let url = client::client_proxy_url(proxy@, net.forwarder_port);
            match client::client_setting(net) {
                Some(setting) => boundary::proxy_address_accepted(url) && setting.url == url,
                None => !boundary::proxy_address_accepted(url),
            }
        },
{
}

/// Applying a proxy adds it behind those that a client has; applying none takes them all
/// away.
pub proof fn applied_proxies_come_last(proxies: Seq<SettingView>, setting: SettingView)
    ensures
        client::proxies_with(proxies, Some(setting)).len() == proxies.len() + 1,
        client::proxies_with(proxies, Some(setting)).last() == setting,
        client::proxies_with(proxies, Some(setting)).drop_last() == proxies,
        client::proxies_with(proxies, None).len() == 0,
{
    assert(client::proxies_with(proxies, Some(setting)).drop_last() == proxies);
}

/// The settings that the program's own clients have: HTTP/1 alone, connections that stay
/// idle for 15 seconds at most, a proxy of the system never, and the upstream proxy or
/// none.
pub proof fn relay_clients_keep_their_limits(
    r: client::ClientSettings,
    net: NetProxy,
    max_idle: usize,
    timeout_secs: u64,
)
    requires
        client::is_relay_client(r, net, max_idle, timeout_secs),
    ensures
        r.http1_only,
        !r.system_proxy,
        !r.gzip && !r.brotli && !r.deflate,
        r.user_agent is None,
        r.pool_max_idle_per_host == Some(max_idle),
        r.pool_idle_timeout_secs == Some(15u64),
        r.tcp_keepalive_secs == Some(30u64),
        r.connect_timeout_secs == Some(15u64),
        r.timeout_secs == Some(timeout_secs),
        match client::client_setting(net) {
            Some(setting) => client::setting_views(r.proxies@) == seq![setting],
            None => client::setting_views(r.proxies@).len() == 0,
        },
        client::MAIN_USER_AGENT@
            == "Mozilla/5.0 (Windows NT 10.0; Win64; x64) AppleWebKit/537.36 (KHTML, like Gecko) Chrome/91.0.4472.124 Safari/537.36"@,
{
    if let Some(setting) = client::client_setting(net) {
        assert(Seq::<SettingView>::empty().push(setting) == seq![setting]);
    }
}

/// Applying the program's proxy to a client changes its protocol, its pool and its
/// proxies, and nothing else; to a client that blocks, its protocol and its proxies.
pub proof fn applying_changes_no_more(
    before: client::ClientSettings,
    net: NetProxy,
    after: client::ClientSettings,
)
    ensures
        client::DtvProxyExt::proxied_as(before, net, after) ==> after.http1_only
            && !after.system_proxy && after.pool_max_idle_per_host == Some(2usize)
            && after.pool_idle_timeout_secs == Some(15u64) && after.user_agent == before.user_agent
            && after.tcp_keepalive_secs == before.tcp_keepalive_secs && after.connect_timeout_secs
            == before.connect_timeout_secs && after.timeout_secs == before.timeout_secs
            && after.gzip == before.gzip && after.brotli == before.brotli && after.deflate
            == before.deflate && client::setting_views(after.proxies@) == client::proxies_with(
            client::setting_views(before.proxies@),
            client::client_setting(net),
        ),
        client::DtvProxyExt::proxied_as(
            (client::BlockingClientSettings { inner: before }),
            net,
            (client::BlockingClientSettings { inner: after }),
        ) ==> after.http1_only && !after.system_proxy && after.pool_max_idle_per_host
            == before.pool_max_idle_per_host && after.pool_idle_timeout_secs
            == before.pool_idle_timeout_secs && after.user_agent == before.user_agent
            && after.tcp_keepalive_secs == before.tcp_keepalive_secs && after.connect_timeout_secs
            == before.connect_timeout_secs && after.timeout_secs == before.timeout_secs
            && after.gzip == before.gzip && after.brotli == before.brotli && after.deflate
            == before.deflate && client::setting_views(after.proxies@) == client::proxies_with(
            client::setting_views(before.proxies@),
            client::client_setting(net),
        ),
{
}

} // verus!
