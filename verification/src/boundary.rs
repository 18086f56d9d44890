//! The calls into other crates, each with what the library relies on.
//!
//! Everything here is believed, not proved: the URL parser, percent encoding,
//! Base64, lossy UTF-8 decoding and the HTTP client's reading of a proxy address.
use crate::text;
use vstd::prelude::*;

verus! {

/// A URL taken apart, as plain text and numbers.
#[derive(Debug)]
pub struct UrlParts {
    /// The whole URL in its normal form.
    pub href: String,
    pub scheme: String,
    pub username: String,
    pub password: Option<String>,
    pub host: Option<String>,
    /// The port, where it is written and is not the usual one of the scheme.
    pub port: Option<u16>,
    /// The port, or else the usual one of the scheme.
    pub known_port: Option<u16>,
    pub path: String,
    pub query: Option<String>,
}

/// What a [`UrlParts`] holds.
#[verifier::ext_equal]
pub struct UrlView {
    pub href: Seq<char>,
    pub scheme: Seq<char>,
    pub username: Seq<char>,
    pub password: Option<Seq<char>>,
    pub host: Option<Seq<char>>,
    pub port: Option<u16>,
    pub known_port: Option<u16>,
    pub path: Seq<char>,
    pub query: Option<Seq<char>>,
}

impl View for UrlParts {
    type V = UrlView;

    open spec fn view(&self) -> UrlView {
        UrlView {
            href: self.href@,
            scheme: self.scheme@,
            username: self.username@,
            password: text::opt_view(self.password),
            host: text::opt_view(self.host),
            port: self.port,
            known_port: self.known_port,
            path: self.path@,
            query: text::opt_view(self.query),
        }
    }
}

/// The usual port of a URL scheme.
pub open spec fn usual_port(scheme: Seq<char>) -> Option<u16> {
    if scheme == "http"@ || scheme == "ws"@ {
        Some(80)
    } else if scheme == "https"@ || scheme == "wss"@ {
        Some(443)
    } else if scheme == "ftp"@ {
        Some(21)
    } else {
        None
    }
}

/// The path and the query of a URL fit into a request line: the path is empty or begins
/// with a slash, and neither holds white space.
pub open spec fn has_request_path(u: UrlView) -> bool {
    &&& u.path.len() == 0 || u.path[0] == '/'
    &&& text::is_solid(u.path)
    &&& u.query matches Some(query) ==> text::is_solid(query)
}

/// What `url::Url::parse` makes of a text, `None` where it refuses it.
pub uninterp spec fn url_parse(input: Seq<char>) -> Option<UrlView>;

/// What `url::Url::join` makes of a reference against a base URL, as the text of
/// the URL that comes out; `None` where the base or the reference is refused.
pub uninterp spec fn url_join(base: Seq<char>, reference: Seq<char>) -> Option<Seq<char>>;

/// `reqwest::Proxy::all` accepts the address.
pub uninterp spec fn proxy_address_accepted(url: Seq<char>) -> bool;

/// What `String::from_utf8_lossy` makes of bytes.
pub uninterp spec fn utf8_lossy(bytes: Seq<u8>) -> Seq<char>;

/// The view of an optional URL.
pub open spec fn opt_url_view(u: Option<UrlParts>) -> Option<UrlView> {
    match u {
        Some(parts) => Some(parts@),
        None => None,
    }
}

/// `url::Url::parse`, with the parts of the URL read off by its accessors.
///
/// Believed: the outcome depends on the text alone (it is named `url_parse`), and
/// the known port is the written one or else the usual one of the scheme. A text that
/// begins with a slash has no scheme, and is refused. The path of a URL with a host is
/// empty or begins with a slash, and neither it nor the query holds white space, which
/// is percent encoded there.
#[verifier::external_body]
pub(crate) fn parse_url(input: &str) -> (r: Option<UrlParts>)
    ensures
        opt_url_view(r) == url_parse(input@),
        r matches Some(u) ==> u.known_port == (match u.port {
            Some(port) => Some(port),
            None => usual_port(u.scheme@),
        }),
        text::starts_with(input@, "/"@) ==> r is None,
        r matches Some(u) ==> u.host is Some ==> has_request_path(u@),
{
    let url = url::Url::parse(input).ok()?;
    Some(UrlParts {
        href: url.to_string(),
        scheme: url.scheme().to_string(),
        username: url.username().to_string(),
        password: url.password().map(str::to_string),
        host: url.host_str().map(str::to_string),
        port: url.port(),
        known_port: url.port_or_known_default(),
        path: url.path().to_string(),
        query: url.query().map(str::to_string),
    })
}

/// `url::Url::join`, on a base that is given as text.
///
/// Believed: the outcome depends on the two texts alone (it is named `url_join`).
#[verifier::external_body]
pub(crate) fn join_url(base: &str, reference: &str) -> (r: Option<String>)
    ensures
        text::opt_view(r) == url_join(base@, reference@),
{
    let url = url::Url::parse(base).ok()?;
    url.join(reference).ok().map(|joined| joined.to_string())
}

/// A text parses as a URL with a host.
pub open spec fn names_host(input: Seq<char>) -> bool {
    url_parse(input) matches Some(u) && u.host is Some
}

/// An address that can have no scheme: it holds no colon, or it begins with a digit.
pub open spec fn has_no_scheme(address: Seq<char>) -> bool {
    !text::contains(address, ":"@) || (address.len() > 0 && '0' <= address[0] <= '9')
}

/// `reqwest::Proxy::all`, asked only whether it takes the address.
///
/// Believed: the answer depends on the address alone (it is named
/// `proxy_address_accepted`). An address that parses as a URL is taken exactly where
/// it names a host, or names one with `http://` in front of it. One that can have no
/// scheme, for want of a colon or because it begins with a digit, is taken exactly where
/// it names a host with `http://` in front; any other address is taken only there. Which
/// of those others are refused all the same is left unsaid.
#[verifier::external_body]
pub(crate) fn accepts_proxy_address(url: &str) -> (r: bool)
    ensures
        r == proxy_address_accepted(url@),
        url_parse(url@) is Some ==> r == (names_host(url@) || names_host("http://"@ + url@)),
        has_no_scheme(url@) ==> r == names_host("http://"@ + url@),
        url_parse(url@) is None ==> r ==> names_host("http://"@ + url@),
{
    reqwest::Proxy::all(url).is_ok()
}

/// `String::from_utf8_lossy`.
///
/// Believed: the outcome depends on the bytes alone (it is named `utf8_lossy`),
/// and bytes that are UTF-8 are decoded as such. What stands in for bytes that are
/// not UTF-8 is left unsaid.
#[verifier::external_body]
pub(crate) fn lossy_text(bytes: &[u8]) -> (r: String)
    ensures
        r@ == utf8_lossy(bytes@),
        vstd::utf8::valid_utf8(bytes@) ==> r@ == vstd::utf8::decode_utf8(bytes@),
{
    String::from_utf8_lossy(bytes).into_owned()
}

/// The bytes that percent encoding leaves as they are.
pub open spec fn is_unreserved(b: u8) -> bool {
    ||| 0x30 <= b <= 0x39
    ||| 0x41 <= b <= 0x5a
    ||| 0x61 <= b <= 0x7a
    ||| b == 0x2d
    ||| b == 0x2e
    ||| b == 0x5f
    ||| b == 0x7e
}

/// The hexadecimal digit for `n`, with capital letters.
pub open spec fn hex_digit(n: int) -> char {
    if n < 10 {
        (0x30 + n) as char
    } else {
        (0x41 + n - 10) as char
    }
}

/// A byte in percent encoding: itself, or a percent sign and two digits.
pub open spec fn percent_encoded_byte(b: u8) -> Seq<char> {
    if is_unreserved(b) {
        seq![b as char]
    } else {
        seq!['%', hex_digit(b as int / 16), hex_digit(b as int % 16)]
    }
}

/// Bytes in percent encoding.
pub open spec fn percent_encoded(bytes: Seq<u8>) -> Seq<char>
    decreases bytes.len(),
{
    if bytes.len() == 0 {
        Seq::empty()
    } else {
        percent_encoded_byte(bytes[0]) + percent_encoded(bytes.drop_first())
    }
}

/// `urlencoding::encode`.
///
/// Believed: of the text's UTF-8 bytes, letters, digits, `-`, `.`, `_` and `~` stay,
/// and each other byte becomes a percent sign and two capital hexadecimal digits.
#[verifier::external_body]
pub(crate) fn url_encode(data: &str) -> (r: String)
    ensures
        r@ == percent_encoded(vstd::utf8::encode_utf8(data@)),
{
    urlencoding::encode(data).into_owned()
}

/// The Base64 digit for a six-bit number, in the standard alphabet.
pub open spec fn base64_digit(n: int) -> char {
    if n < 26 {
        (0x41 + n) as char
    } else if n < 52 {
        (0x61 + n - 26) as char
    } else if n < 62 {
        (0x30 + n - 52) as char
    } else if n == 62 {
        '+'
    } else {
        '/'
    }
}

/// Bytes in Base64: three bytes are one number of four digits, and the digits
/// that a last short group does not reach are written as `=`.
pub open spec fn base64(bytes: Seq<u8>) -> Seq<char>
    decreases bytes.len(),
{
    let len = bytes.len();
    if len == 0 {
        Seq::empty()
    } else {
        let second = if len > 1 { bytes[1] as int } else { 0 };
        let third = if len > 2 { bytes[2] as int } else { 0 };
        let n = 65536 * bytes[0] + 256 * second + third;
        seq![
            base64_digit(n / 262144),
            base64_digit(n / 4096 % 64),
            if len > 1 { base64_digit(n / 64 % 64) } else { '=' },
            if len > 2 { base64_digit(n % 64) } else { '=' },
        ] + base64(if len > 3 { bytes.skip(3) } else { Seq::empty() })
    }
}

/// `base64::Engine::encode` with `base64::engine::general_purpose::STANDARD`.
///
/// Believed: the outcome is the bytes in Base64, in the standard alphabet and with
/// padding.
#[verifier::external_body]
pub(crate) fn base64_text(data: &[u8]) -> (r: String)
    ensures
        r@ == base64(data@),
{
    base64::Engine::encode(&base64::engine::general_purpose::STANDARD, data)
}

} // verus!
