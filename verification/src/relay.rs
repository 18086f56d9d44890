//! The local server's requests to image, playlist and stream hosts, and its answers
//! to the player.
use crate::decimal;
use crate::hls;
use crate::text;
use vstd::prelude::*;

verus! {

/// The user agent that hosts are shown.
pub const BROWSER_USER_AGENT: &'static str =
    "Mozilla/5.0 (Windows NT 10.0; Win64; x64) AppleWebKit/537.36 (KHTML, like Gecko) Chrome/120.0.0.0 Safari/537.36";

/// The user agent that Huya's stream hosts expect.
pub const HUYA_HYSDK_UA: &'static str =
    "HYSDK(Windows,30000002)_APP(pc_exe&7080000&official)_SDK(trans&2.34.0.5795)";

/// A header, of a request or of an answer.
#[derive(Debug)]
pub struct Header {
    pub name: String,
    pub value: String,
}

/// The views of a list of headers.
pub open spec fn header_views(v: Seq<Header>) -> Seq<(Seq<char>, Seq<char>)> {
    v.map_values(|h: Header| (h.name@, h.value@))
}

/// Appends a header.
fn push_header(out: &mut Vec<Header>, name: &str, value: &str)
    ensures
        header_views(final(out)@) == header_views(old(out)@).push((name@, value@)),
{
    out.push(Header { name: name.to_owned(), value: value.to_owned() });
    assert(header_views(out@) == header_views(old(out)@).push((name@, value@)));
}

/// A list without headers.
fn no_headers() -> (r: Vec<Header>)
    ensures
        header_views(r@) == Seq::<(Seq<char>, Seq<char>)>::empty(),
{
    let r: Vec<Header> = Vec::new();
    assert(header_views(r@) == Seq::<(Seq<char>, Seq<char>)>::empty());
    r
}

/// A request to a host.
#[derive(Debug)]
pub struct UpstreamRequest {
    pub url: String,
    /// The headers to add, in order; a name may come twice.
    pub headers: Vec<Header>,
}

/// What a [`UpstreamRequest`] holds.
#[verifier::ext_equal]
pub struct RequestView {
    pub url: Seq<char>,
    pub headers: Seq<(Seq<char>, Seq<char>)>,
}

impl View for UpstreamRequest {
    type V = RequestView;

    open spec fn view(&self) -> RequestView {
        RequestView { url: self.url@, headers: header_views(self.headers@) }
    }
}

/// The body of an answer.
#[derive(Debug)]
pub enum ReplyBody {
    Text(String),
    /// What the host sent, in one piece.
    Whole,
    /// What the host sends, as it comes.
    Stream,
}

/// What a [`ReplyBody`] holds.
#[verifier::ext_equal]
pub enum BodyView {
    Text(Seq<char>),
    Whole,
    Stream,
}

impl View for ReplyBody {
    type V = BodyView;

    open spec fn view(&self) -> BodyView {
        match self {
            ReplyBody::Text(t) => BodyView::Text(t@),
            ReplyBody::Whole => BodyView::Whole,
            ReplyBody::Stream => BodyView::Stream,
        }
    }
}

/// An answer to the player.
#[derive(Debug)]
pub struct Reply {
    pub status: u16,
    pub content_type: Option<String>,
    pub headers: Vec<Header>,
    pub body: ReplyBody,
}

/// What a [`Reply`] holds.
#[verifier::ext_equal]
pub struct ReplyView {
    pub status: u16,
    pub content_type: Option<Seq<char>>,
    pub headers: Seq<(Seq<char>, Seq<char>)>,
    pub body: BodyView,
}

impl View for Reply {
    type V = ReplyView;

    open spec fn view(&self) -> ReplyView {
        ReplyView {
            status: self.status,
            content_type: text::opt_view(self.content_type),
            headers: header_views(self.headers@),
            body: self.body@,
        }
    }
}

/// An answer that is a status and a text.
pub open spec fn plain_reply(status: u16, message: Seq<char>) -> ReplyView {
    ReplyView {
        status,
        content_type: None,
        headers: Seq::empty(),
        body: BodyView::Text(message),
    }
}

fn text_reply(status: u16, message: String) -> (r: Reply)
    ensures
        r@ == plain_reply(status, message@),
{
    Reply { status, content_type: None, headers: no_headers(), body: ReplyBody::Text(message) }
}

/// What came of a request to a host. A host that answers with success gives a `B`.
#[derive(Debug)]
pub enum UpstreamEvent<B> {
    /// The host could not be reached.
    Unreachable { error: String },
    /// The host answered, and not with success. Its body is a text, or what went
    /// wrong when it was read.
    Refused { status: u16, status_text: String, body: Result<String, String> },
    /// The host answered with success.
    Fetched(B),
}

/// An image that was fetched: its type, if the host told it, and its length.
#[derive(Debug)]
pub struct FetchedImage {
    pub content_type: Option<String>,
    pub length: u64,
}

/// A status of success.
pub open spec fn is_success(status: u16) -> bool {
    200 <= status < 300
}

/// Tells whether a status is one of success.
pub fn status_is_success(status: u16) -> (r: bool)
    ensures
        r == is_success(status),
{
    200 <= status && status < 300
}

/// What came of a request that a host answered, where the answer is no success: its
/// status, and its body or what went wrong when it was read. An answer with success is
/// no refusal.
pub fn refused<B>(status: u16, status_text: String, body: Result<String, String>) -> (r: Option<
    UpstreamEvent<B>,
>)
    ensures
        r is None <==> is_success(status),
        r matches Some(event) ==> event == (UpstreamEvent::<B>::Refused {
            status,
            status_text,
            body,
        }),
{
    if status_is_success(status) {
        None
    } else {
        Some(UpstreamEvent::Refused { status, status_text, body })
    }
}

/// The status that the player is told: the host's, where it is one at all.
pub open spec fn relayed_status(status: u16, fallback: u16) -> u16 {
    if 100 <= status < 1000 {
        status
    } else {
        fallback
    }
}

fn relay_status(status: u16, fallback: u16) -> (r: u16)
    ensures
        r == relayed_status(status, fallback),
{
    if 100 <= status && status < 1000 {
        status
    } else {
        fallback
    }
}

/// The type of what a host sent; unknown data where it did not tell.
pub open spec fn type_or_unknown(content_type: Option<Seq<char>>) -> Seq<char> {
    match content_type {
        Some(t) => t,
        None => "application/octet-stream"@,
    }
}

fn known_type(content_type: Option<String>) -> (r: String)
    ensures
        r@ == type_or_unknown(text::opt_view(content_type)),
{
    match content_type {
        Some(t) => t,
        None => "application/octet-stream".to_owned(),
    }
}

/// The text of a refusal, or the report that it could not be read.
pub open spec fn refusal_details(body: Result<String, String>) -> Seq<char> {
    match body {
        Ok(t) => t@,
        Err(e) => "Failed to read error body from upstream: "@ + e@,
    }
}

fn details_of(body: Result<String, String>) -> (r: String)
    ensures
        r@ == refusal_details(body),
{
    match body {
        Ok(t) => t,
        Err(e) => {
            let mut r = "Failed to read error body from upstream: ".to_owned();
            r.append(e.as_str());
            r
        },
    }
}

/// The text of a refusal; empty where it could not be read.
pub open spec fn refusal_text(body: Result<String, String>) -> Seq<char> {
    match body {
        Ok(t) => t@,
        Err(_) => Seq::empty(),
    }
}

fn text_or_empty(body: Result<String, String>) -> (r: String)
    ensures
        r@ == refusal_text(body),
{
    match body {
        Ok(t) => t,
        Err(_) => String::new(),
    }
}

/// The answer to a request that names no URL.
pub open spec fn missing_url_reply() -> ReplyView {
    plain_reply(400, "Missing url query parameter"@)
}

/// The request that a URL stands for, or the answer that there is none.
pub open spec fn request_view(r: Result<UpstreamRequest, Reply>) -> Result<RequestView, ReplyView> {
    match r {
        Ok(request) => Ok(request@),
        Err(reply) => Err(reply@),
    }
}

/// A request for `url` with these headers, where there is a URL.
pub open spec fn request_or_missing(
    url: Seq<char>,
    headers: Seq<(Seq<char>, Seq<char>)>,
) -> Result<RequestView, ReplyView> {
    if url.len() == 0 {
        Err(missing_url_reply())
    } else {
        Ok(RequestView { url, headers })
    }
}

/// The headers with which an image host hands out its images.
pub open spec fn image_headers(url: Seq<char>) -> Seq<(Seq<char>, Seq<char>)> {
    let base = seq![
        ("User-Agent"@, BROWSER_USER_AGENT@),
        ("Accept"@, "image/avif,image/webp,image/apng,image/*;q=0.8,*/*;q=0.5"@),
    ];
    if text::contains(url, "hdslb.com"@) || text::contains(url, "bilibili.com"@) {
        base.push(("Referer"@, "https://live.bilibili.com/"@)).push(
            ("Origin"@, "https://live.bilibili.com"@),
        )
    } else if text::contains(url, "huya.com"@) {
        base.push(("Referer"@, "https://www.huya.com/"@)).push(
            ("Origin"@, "https://www.huya.com"@),
        )
    } else if text::contains(url, "douyin"@) || text::contains(url, "douyinpic.com"@) {
        base.push(("Referer"@, "https://www.douyin.com/"@))
    } else {
        base
    }
}

/// The request for an image.
pub fn image_request(url: &str) -> (r: Result<UpstreamRequest, Reply>)
    ensures
        request_view(r) == request_or_missing(url@, image_headers(url@)),
{
    if url.is_empty() {
        return Err(text_reply(400, "Missing url query parameter".to_owned()));
    }
    let u = text::chars_of(url);
    let s = u.as_slice();
    let mut headers = no_headers();
    push_header(&mut headers, "User-Agent", BROWSER_USER_AGENT);
    push_header(
        &mut headers,
        "Accept",
        "image/avif,image/webp,image/apng,image/*;q=0.8,*/*;q=0.5",
    );
    assert(header_views(headers@) == seq![
        ("User-Agent"@, BROWSER_USER_AGENT@),
        ("Accept"@, "image/avif,image/webp,image/apng,image/*;q=0.8,*/*;q=0.5"@),
    ]);
    if text::has(s, "hdslb.com") || text::has(s, "bilibili.com") {
        push_header(&mut headers, "Referer", "https://live.bilibili.com/");
        push_header(&mut headers, "Origin", "https://live.bilibili.com");
    } else if text::has(s, "huya.com") {
        push_header(&mut headers, "Referer", "https://www.huya.com/");
        push_header(&mut headers, "Origin", "https://www.huya.com");
    } else if text::has(s, "douyin") || text::has(s, "douyinpic.com") {
        push_header(&mut headers, "Referer", "https://www.douyin.com/");
    }
    Ok(UpstreamRequest { url: url.to_owned(), headers })
}

/// The answer to a request for an image.
pub open spec fn image_answer(
    url: Seq<char>,
    event: UpstreamEvent<Result<FetchedImage, String>>,
) -> ReplyView {
    match event {
        UpstreamEvent::Unreachable { error } => plain_reply(
            500,
            "Error connecting to upstream IMAGE "@ + url + ": "@ + error@,
        ),
        UpstreamEvent::Refused { status, status_text, body } => plain_reply(
            relayed_status(status, 500),
            "Error fetching IMAGE from upstream (reqwest): "@ + url + ". Status: "@ + status_text@
                + ". Details: "@ + refusal_details(body),
        ),
        UpstreamEvent::Fetched(Err(error)) => plain_reply(
            500,
            "Failed to read image bytes: "@ + error@,
        ),
        UpstreamEvent::Fetched(Ok(image)) => ReplyView {
            status: 200,
            content_type: Some(type_or_unknown(text::opt_view(image.content_type))),
            headers: seq![
                ("Content-Length"@, decimal::decimal(image.length as nat)),
                ("Cache-Control"@, "public, max-age=86400, immutable"@),
            ],
            body: BodyView::Whole,
        },
    }
}

/// The answer to a request for an image. What was fetched goes out in one piece,
/// and the player may keep it for a day.
pub fn image_reply(url: &str, event: UpstreamEvent<Result<FetchedImage, String>>) -> (r: Reply)
    ensures
        r@ == image_answer(url@, event),
{
    match event {
        UpstreamEvent::Unreachable { error } => {
            let mut m = "Error connecting to upstream IMAGE ".to_owned();
            m.append(url);
            m.append(": ");
            m.append(error.as_str());
            text_reply(500, m)
        },
        UpstreamEvent::Refused { status, status_text, body } => {
            let details = details_of(body);
            let mut m = "Error fetching IMAGE from upstream (reqwest): ".to_owned();
            m.append(url);
            m.append(". Status: ");
            m.append(status_text.as_str());
            m.append(". Details: ");
            m.append(details.as_str());
            text_reply(relay_status(status, 500), m)
        },
        UpstreamEvent::Fetched(Err(error)) => {
            let mut m = "Failed to read image bytes: ".to_owned();
            m.append(error.as_str());
            text_reply(500, m)
        },
        UpstreamEvent::Fetched(Ok(image)) => {
            let length = decimal::decimal_text(image.length);
            let mut headers = no_headers();
            push_header(&mut headers, "Content-Length", length.as_str());
            push_header(&mut headers, "Cache-Control", "public, max-age=86400, immutable");
            assert(header_views(headers@) == seq![
                ("Content-Length"@, decimal::decimal(image.length as nat)),
                ("Cache-Control"@, "public, max-age=86400, immutable"@),
            ]);
            Reply {
                status: 200,
                content_type: Some(known_type(image.content_type)),
                headers,
                body: ReplyBody::Whole,
            }
        },
    }
}

/// The headers of a request for a playlist or a segment.
pub open spec fn hls_headers(url: Seq<char>, accept: Seq<char>) -> Seq<(Seq<char>, Seq<char>)> {
    seq![
        ("User-Agent"@, BROWSER_USER_AGENT@),
        ("Accept"@, accept),
        ("Referer"@, hls::hls_referer(url).0),
        ("Origin"@, hls::hls_referer(url).1),
    ]
}

fn hls_request_accepting(url: &str, accept: &str) -> (r: Result<UpstreamRequest, Reply>)
    ensures
        request_view(r) == request_or_missing(url@, hls_headers(url@, accept@)),
{
    if url.is_empty() {
        return Err(text_reply(400, "Missing url query parameter".to_owned()));
    }
    let (referer, origin) = hls::hls_referer_headers(url);
    let mut headers = no_headers();
    push_header(&mut headers, "User-Agent", BROWSER_USER_AGENT);
    push_header(&mut headers, "Accept", accept);
    push_header(&mut headers, "Referer", referer);
    push_header(&mut headers, "Origin", origin);
    assert(header_views(headers@) == hls_headers(url@, accept@));
    Ok(UpstreamRequest { url: url.to_owned(), headers })
}

/// The request for a playlist.
pub fn hls_request(url: &str) -> (r: Result<UpstreamRequest, Reply>)
    ensures
        request_view(r) == request_or_missing(
            url@,
            hls_headers(url@, "application/vnd.apple.mpegurl,application/x-mpegURL,*/*"@),
        ),
{
    hls_request_accepting(url, "application/vnd.apple.mpegurl,application/x-mpegURL,*/*")
}

/// The request for a segment.
pub fn hls_seg_request(url: &str) -> (r: Result<UpstreamRequest, Reply>)
    ensures
        request_view(r) == request_or_missing(url@, hls_headers(url@, "*/*"@)),
{
    hls_request_accepting(url, "*/*")
}

/// The answer to a request for a playlist, with `host` the name under which the
/// player reaches the local server.
pub open spec fn hls_answer(
    url: Seq<char>,
    host: Seq<char>,
    event: UpstreamEvent<Result<String, String>>,
) -> ReplyView {
    match event {
        UpstreamEvent::Unreachable { error } => plain_reply(
            500,
            "Error connecting to upstream HLS playlist "@ + url + ": "@ + error@,
        ),
        UpstreamEvent::Refused { status, status_text, body } => plain_reply(
            relayed_status(status, 502),
            "Error fetching HLS playlist "@ + url + ": "@ + status_text@ + ". "@ + refusal_text(
                body,
            ),
        ),
        UpstreamEvent::Fetched(Err(error)) => plain_reply(
            500,
            "Failed to read HLS playlist: "@ + error@,
        ),
        UpstreamEvent::Fetched(Ok(body)) => ReplyView {
            status: 200,
            content_type: Some("application/vnd.apple.mpegurl"@),
            headers: seq![("Cache-Control"@, "no-store"@)],
            body: BodyView::Text(hls::rewritten_playlist(body@, url, "http://"@ + host)),
        },
    }
}

/// A list with the header that forbids the player to keep the answer.
fn no_store() -> (r: Vec<Header>)
    ensures
        header_views(r@) == seq![("Cache-Control"@, "no-store"@)],
{
    let mut headers = no_headers();
    push_header(&mut headers, "Cache-Control", "no-store");
    assert(header_views(headers@) == seq![("Cache-Control"@, "no-store"@)]);
    headers
}

/// The answer to a request for a playlist. A playlist goes out rewritten, so that
/// the player comes back to the local server for what it names.
pub fn hls_reply(url: &str, host: &str, event: UpstreamEvent<Result<String, String>>) -> (r: Reply)
    ensures
        r@ == hls_answer(url@, host@, event),
{
    match event {
        UpstreamEvent::Unreachable { error } => {
            let mut m = "Error connecting to upstream HLS playlist ".to_owned();
            m.append(url);
            m.append(": ");
            m.append(error.as_str());
            text_reply(500, m)
        },
        UpstreamEvent::Refused { status, status_text, body } => {
            let details = text_or_empty(body);
            let mut m = "Error fetching HLS playlist ".to_owned();
            m.append(url);
            m.append(": ");
            m.append(status_text.as_str());
            m.append(". ");
            m.append(details.as_str());
            text_reply(relay_status(status, 502), m)
        },
        UpstreamEvent::Fetched(Err(error)) => {
            let mut m = "Failed to read HLS playlist: ".to_owned();
            m.append(error.as_str());
            text_reply(500, m)
        },
        UpstreamEvent::Fetched(Ok(body)) => {
            let mut proxy_base = "http://".to_owned();
            proxy_base.append(host);
            let rewritten = hls::rewrite_hls_playlist(body.as_str(), url, proxy_base.as_str());
            Reply {
                status: 200,
                content_type: Some("application/vnd.apple.mpegurl".to_owned()),
                headers: no_store(),
                body: ReplyBody::Text(rewritten),
            }
        },
    }
}

/// The answer to a request for a segment.
pub open spec fn hls_seg_answer(url: Seq<char>, event: UpstreamEvent<Option<String>>) -> ReplyView {
    match event {
        UpstreamEvent::Unreachable { error } => plain_reply(
            500,
            "Error connecting to upstream HLS segment "@ + url + ": "@ + error@,
        ),
        UpstreamEvent::Refused { status, status_text, body } => plain_reply(
            relayed_status(status, 502),
            "Error fetching HLS segment "@ + url + ": "@ + status_text@ + ". "@ + refusal_text(
                body,
            ),
        ),
        UpstreamEvent::Fetched(content_type) => ReplyView {
            status: 200,
            content_type: Some(type_or_unknown(text::opt_view(content_type))),
            headers: seq![("Cache-Control"@, "no-store"@)],
            body: BodyView::Stream,
        },
    }
}

/// The answer to a request for a segment, whose type is the host's.
pub fn hls_seg_reply(url: &str, event: UpstreamEvent<Option<String>>) -> (r: Reply)
    ensures
        r@ == hls_seg_answer(url@, event),
{
    match event {
        UpstreamEvent::Unreachable { error } => {
            let mut m = "Error connecting to upstream HLS segment ".to_owned();
            m.append(url);
            m.append(": ");
            m.append(error.as_str());
            text_reply(500, m)
        },
        UpstreamEvent::Refused { status, status_text, body } => {
            let details = text_or_empty(body);
            let mut m = "Error fetching HLS segment ".to_owned();
            m.append(url);
            m.append(": ");
            m.append(status_text.as_str());
            m.append(". ");
            m.append(details.as_str());
            text_reply(relay_status(status, 502), m)
        },
        UpstreamEvent::Fetched(content_type) => Reply {
            status: 200,
            content_type: Some(known_type(content_type)),
            headers: no_store(),
            body: ReplyBody::Stream,
        },
    }
}

/// The headers with which a stream host hands out a live stream.
pub open spec fn flv_headers(url: Seq<char>) -> Seq<(Seq<char>, Seq<char>)> {
    let base = seq![
        ("User-Agent"@, BROWSER_USER_AGENT@),
        ("Accept"@, "video/x-flv,application/octet-stream,*/*"@),
        ("Range"@, "bytes=0-"@),
        ("Connection"@, "keep-alive"@),
    ];
    let huya = if text::contains(url, "huya.com"@) || text::contains(url, "hy-cdn.com"@)
        || text::contains(url, "huyaimg.com"@) {
        base.push(("User-Agent"@, HUYA_HYSDK_UA@)).push(
            ("Referer"@, "https://www.huya.com/"@),
        ).push(("Origin"@, "https://www.huya.com"@))
    } else {
        base
    };
    if text::contains(url, "bilivideo"@) || text::contains(url, "bilibili.com"@) || text::contains(
        url,
        "hdslb.com"@,
    ) {
        huya.push(("Referer"@, "https://live.bilibili.com/"@))
    } else {
        huya
    }
}

/// The request for a live stream, or the answer that no stream is set.
pub open spec fn flv_request_for(url: Seq<char>) -> Result<RequestView, ReplyView> {
    if url.len() == 0 {
        Err(plain_reply(404, "Stream URL is not set or empty."@))
    } else {
        Ok(RequestView { url, headers: flv_headers(url) })
    }
}

/// The request for a live stream.
pub fn flv_request(url: &str) -> (r: Result<UpstreamRequest, Reply>)
    ensures
        request_view(r) == flv_request_for(url@),
{
    if url.is_empty() {
        return Err(text_reply(404, "Stream URL is not set or empty.".to_owned()));
    }
    let u = text::chars_of(url);
    let s = u.as_slice();
    let mut headers = no_headers();
    push_header(&mut headers, "User-Agent", BROWSER_USER_AGENT);
    push_header(&mut headers, "Accept", "video/x-flv,application/octet-stream,*/*");
    push_header(&mut headers, "Range", "bytes=0-");
    push_header(&mut headers, "Connection", "keep-alive");
    assert(header_views(headers@) == seq![
        ("User-Agent"@, BROWSER_USER_AGENT@),
        ("Accept"@, "video/x-flv,application/octet-stream,*/*"@),
        ("Range"@, "bytes=0-"@),
        ("Connection"@, "keep-alive"@),
    ]);
    if text::has(s, "huya.com") || text::has(s, "hy-cdn.com") || text::has(s, "huyaimg.com") {
        push_header(&mut headers, "User-Agent", HUYA_HYSDK_UA);
        push_header(&mut headers, "Referer", "https://www.huya.com/");
        push_header(&mut headers, "Origin", "https://www.huya.com");
    }
    if text::has(s, "bilivideo") || text::has(s, "bilibili.com") || text::has(s, "hdslb.com") {
        push_header(&mut headers, "Referer", "https://live.bilibili.com/");
    }
    Ok(UpstreamRequest { url: url.to_owned(), headers })
}

/// The answer to a request for a live stream.
pub open spec fn flv_answer(url: Seq<char>, event: UpstreamEvent<()>) -> ReplyView {
    match event {
        UpstreamEvent::Unreachable { error } => plain_reply(
            500,
            "Error connecting to upstream FLV stream "@ + url + " with reqwest: "@ + error@,
        ),
        UpstreamEvent::Refused { status, status_text, body } => plain_reply(
            relayed_status(status, 500),
            "Error fetching FLV stream from upstream (reqwest): "@ + url + ". Status: "@
                + status_text@ + ". Details: "@ + refusal_details(body),
        ),
        UpstreamEvent::Fetched(()) => ReplyView {
            status: 200,
            content_type: Some("video/x-flv"@),
            headers: seq![
                ("Connection"@, "keep-alive"@),
                ("Cache-Control"@, "no-store"@),
                ("Accept-Ranges"@, "bytes"@),
            ],
            body: BodyView::Stream,
        },
    }
}

/// The answer to a request for a live stream.
pub fn flv_reply(url: &str, event: UpstreamEvent<()>) -> (r: Reply)
    ensures
        r@ == flv_answer(url@, event),
{
    match event {
        UpstreamEvent::Unreachable { error } => {
            let mut m = "Error connecting to upstream FLV stream ".to_owned();
            m.append(url);
            m.append(" with reqwest: ");
            m.append(error.as_str());
            text_reply(500, m)
        },
        UpstreamEvent::Refused { status, status_text, body } => {
            let details = details_of(body);
            let mut m = "Error fetching FLV stream from upstream (reqwest): ".to_owned();
            m.append(url);
            m.append(". Status: ");
            m.append(status_text.as_str());
            m.append(". Details: ");
            m.append(details.as_str());
            text_reply(relay_status(status, 500), m)
        },
        UpstreamEvent::Fetched(()) => {
            let mut headers = no_headers();
            push_header(&mut headers, "Connection", "keep-alive");
            push_header(&mut headers, "Cache-Control", "no-store");
            push_header(&mut headers, "Accept-Ranges", "bytes");
            assert(header_views(headers@) == seq![
                ("Connection"@, "keep-alive"@),
                ("Cache-Control"@, "no-store"@),
                ("Accept-Ranges"@, "bytes"@),
            ]);
            Reply {
                status: 200,
                content_type: Some("video/x-flv".to_owned()),
                headers,
                body: ReplyBody::Stream,
            }
        },
    }
}

/// The report that a stream broke off.
pub fn stream_failure(detail: &str) -> (r: String)
    ensures
        r@ == "Upstream stream error: "@ + detail@,
{
    let mut r = "Upstream stream error: ".to_owned();
    r.append(detail);
    r
}

} // verus!
