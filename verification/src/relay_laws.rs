//! What holds of the local servers' requests and answers as a whole.
use crate::decimal;
use crate::hls;
use crate::relay;
use crate::relay::{BodyView, FetchedImage, UpstreamEvent};
use crate::server;
use crate::server::BindOutcome;
use crate::text;
use vstd::prelude::*;

verus! {

/// Every request is for the URL that was asked for, unchanged. Without a URL there is no
/// request: a live stream is then not found, and anything else is a bad request.
pub proof fn requests_keep_their_url(url: Seq<char>, headers: Seq<(Seq<char>, Seq<char>)>)
    ensures
        url.len() > 0 ==> (relay::flv_request_for(url) matches Ok(r) && r.url == url),
        url.len() > 0 ==> (relay::request_or_missing(url, headers) matches Ok(r) && r.url == url
            && r.headers == headers),
        url.len() == 0 ==> (relay::flv_request_for(url) matches Err(a) && a.status == 404
            && a.content_type is None && a.headers.len() == 0 && a.body == BodyView::Text(
            "Stream URL is not set or empty."@,
        )),
        url.len() == 0 ==> (relay::request_or_missing(url, headers) matches Err(a) && a.status
            == 400 && a.content_type is None && a.headers.len() == 0 && a.body == BodyView::Text(
            "Missing url query parameter"@,
        )),
{
}

/// The user agents are those that the hosts know.
pub proof fn user_agents_are_known()
    ensures
        relay::BROWSER_USER_AGENT@
            == "Mozilla/5.0 (Windows NT 10.0; Win64; x64) AppleWebKit/537.36 (KHTML, like Gecko) Chrome/120.0.0.0 Safari/537.36"@,
        relay::HUYA_HYSDK_UA@
            == "HYSDK(Windows,30000002)_APP(pc_exe&7080000&official)_SDK(trans&2.34.0.5795)"@,
{
}

/// A URL of Huya's stream hosts.
pub open spec fn is_huya_stream(url: Seq<char>) -> bool {
    text::contains(url, "huya.com"@) || text::contains(url, "hy-cdn.com"@) || text::contains(
        url,
        "huyaimg.com"@,
    )
}

/// A URL of Bilibili's stream hosts.
pub open spec fn is_bilibili_stream(url: Seq<char>) -> bool {
    text::contains(url, "bilivideo"@) || text::contains(url, "bilibili.com"@) || text::contains(
        url,
        "hdslb.com"@,
    )
}

/// A live stream is asked for from its start, over a connection that stays open. Huya's
/// hosts see their own player and page besides, Bilibili's hosts their page, and no
/// other host is told of a page.
pub proof fn stream_hosts_see_their_page(url: Seq<char>)
    requires
        url.len() > 0,
    ensures
        relay::flv_request_for(url) matches Ok(r) && r.headers.take(4) == seq![
            ("User-Agent"@, relay::BROWSER_USER_AGENT@),
            ("Accept"@, "video/x-flv,application/octet-stream,*/*"@),
            ("Range"@, "bytes=0-"@),
            ("Connection"@, "keep-alive"@),
        ] && r.headers.skip(4) == (if is_huya_stream(url) {
            seq![
                ("User-Agent"@, relay::HUYA_HYSDK_UA@),
                ("Referer"@, "https://www.huya.com/"@),
                ("Origin"@, "https://www.huya.com"@),
            ]
        } else {
            Seq::empty()
        }) + (if is_bilibili_stream(url) {
            seq![("Referer"@, "https://live.bilibili.com/"@)]
        } else {
            Seq::empty()
        }),
{
    let headers = relay::flv_headers(url);
    assert(headers.take(4) == seq![
        ("User-Agent"@, relay::BROWSER_USER_AGENT@),
        ("Accept"@, "video/x-flv,application/octet-stream,*/*"@),
        ("Range"@, "bytes=0-"@),
        ("Connection"@, "keep-alive"@),
    ]);
    assert(headers.skip(4) == (if is_huya_stream(url) {
        seq![
            ("User-Agent"@, relay::HUYA_HYSDK_UA@),
            ("Referer"@, "https://www.huya.com/"@),
            ("Origin"@, "https://www.huya.com"@),
        ]
    } else {
        Seq::empty()
    }) + (if is_bilibili_stream(url) {
        seq![("Referer"@, "https://live.bilibili.com/"@)]
    } else {
        Seq::empty()
    }));
}

/// Image hosts see the page that their images belong to: Bilibili's and Huya's with its
/// origin, Douyin's without; no other host is told of a page.
pub proof fn image_hosts_see_their_page(url: Seq<char>)
    ensures
        relay::image_headers(url).take(2) == seq![
            ("User-Agent"@, relay::BROWSER_USER_AGENT@),
            ("Accept"@, "image/avif,image/webp,image/apng,image/*;q=0.8,*/*;q=0.5"@),
        ],
        relay::image_headers(url).skip(2) == (if text::contains(url, "hdslb.com"@)
            || text::contains(url, "bilibili.com"@) {
            seq![
                ("Referer"@, "https://live.bilibili.com/"@),
                ("Origin"@, "https://live.bilibili.com"@),
            ]
        } else if text::contains(url, "huya.com"@) {
            seq![
                ("Referer"@, "https://www.huya.com/"@),
                ("Origin"@, "https://www.huya.com"@),
            ]
        } else if text::contains(url, "douyin"@) || text::contains(url, "douyinpic.com"@) {
            seq![("Referer"@, "https://www.douyin.com/"@)]
        } else {
            Seq::empty()
        }),
{
}

/// The page that the host of a playlist or a segment belongs to: Huya's, Douyu's or
/// Douyin's, and Bilibili's for every other host.
pub open spec fn page_of(url: Seq<char>) -> Seq<char> {
    if is_huya_stream(url) {
        "https://www.huya.com"@
    } else if text::contains(url, "douyu.com"@) || text::contains(url, "douyucdn"@) {
        "https://www.douyu.com"@
    } else if text::contains(url, "douyin"@) || text::contains(url, "byteimg"@) {
        "https://www.douyin.com"@
    } else {
        "https://live.bilibili.com"@
    }
}

/// The host of a playlist or a segment sees the page that it belongs to: its origin is
/// that page, and what refers to it is the page with a slash behind it.
pub proof fn playlist_hosts_see_their_page(url: Seq<char>, accept: Seq<char>)
    ensures
        hls::hls_referer(url).1 == page_of(url),
        hls::hls_referer(url).0 == page_of(url) + "/"@,
        relay::hls_headers(url, accept) == seq![
            ("User-Agent"@, relay::BROWSER_USER_AGENT@),
            ("Accept"@, accept),
            ("Referer"@, page_of(url) + "/"@),
            ("Origin"@, page_of(url)),
        ],
{
    reveal_strlit("/");
    reveal_strlit("https://www.huya.com/");
    reveal_strlit("https://www.huya.com");
    reveal_strlit("https://www.douyu.com/");
    reveal_strlit("https://www.douyu.com");
    reveal_strlit("https://www.douyin.com/");
    reveal_strlit("https://www.douyin.com");
    reveal_strlit("https://live.bilibili.com/");
    reveal_strlit("https://live.bilibili.com");
    assert("https://www.huya.com/"@ == "https://www.huya.com"@ + "/"@);
    assert("https://www.douyu.com/"@ == "https://www.douyu.com"@ + "/"@);
    assert("https://www.douyin.com/"@ == "https://www.douyin.com"@ + "/"@);
    assert("https://live.bilibili.com/"@ == "https://live.bilibili.com"@ + "/"@);
}

/// A status counts as success from 200 to 299.
pub proof fn success_is_of_the_second_hundred(status: u16)
    ensures
        relay::is_success(status) <==> status / 100 == 2,
{
}

/// The answer to a request whose host could not be reached is a server error that tells
/// which URL it was and what went wrong.
pub proof fn unreachable_hosts_are_reported(url: Seq<char>, host: Seq<char>, error: String)
    ensures
        relay::image_answer(url, UpstreamEvent::Unreachable { error }) == relay::plain_reply(
            500,
            "Error connecting to upstream IMAGE "@ + url + ": "@ + error@,
        ),
        relay::hls_answer(url, host, UpstreamEvent::Unreachable { error }) == relay::plain_reply(
            500,
            "Error connecting to upstream HLS playlist "@ + url + ": "@ + error@,
        ),
        relay::hls_seg_answer(url, UpstreamEvent::Unreachable { error }) == relay::plain_reply(
            500,
            "Error connecting to upstream HLS segment "@ + url + ": "@ + error@,
        ),
        relay::flv_answer(url, UpstreamEvent::Unreachable { error }) == relay::plain_reply(
            500,
            "Error connecting to upstream FLV stream "@ + url + " with reqwest: "@ + error@,
        ),
{
}

/// An answer that is a text has that status and that text, and nothing else.
pub proof fn plain_replies_are_text(status: u16, message: Seq<char>)
    ensures
        relay::plain_reply(status, message).status == status,
        relay::plain_reply(status, message).body == BodyView::Text(message),
        relay::plain_reply(status, message).content_type is None,
        relay::plain_reply(status, message).headers.len() == 0,
{
}

/// A host's refusal is passed on: with its status, where that is one at all, and with a
/// text that tells which URL it was, the status and what the host said.
pub proof fn refusals_are_passed_on(
    url: Seq<char>,
    host: Seq<char>,
    status: u16,
    status_text: String,
    said: String,
)
    ensures
        ({
            let told = relay::image_answer(
                url,
                UpstreamEvent::Refused { status, status_text, body: Ok(said) },
            );
            &&& told.status == (if 100 <= status <= 999 {
                status
            } else {
                500
            })
            &&& told.body == BodyView::Text(
                "Error fetching IMAGE from upstream (reqwest): "@ + url + ". Status: "@
                    + status_text@ + ". Details: "@ + said@,
            )
            &&& told.content_type is None && told.headers.len() == 0
        }),
        ({
            let told = relay::hls_answer(
                url,
                host,
                UpstreamEvent::Refused { status, status_text, body: Ok(said) },
            );
            &&& told.status == (if 100 <= status <= 999 {
                status
            } else {
                502
            })
            &&& told.body == BodyView::Text(
                "Error fetching HLS playlist "@ + url + ": "@ + status_text@ + ". "@ + said@,
            )
            &&& told.content_type is None && told.headers.len() == 0
        }),
        ({
            let told = relay::hls_seg_answer(
                url,
                UpstreamEvent::Refused { status, status_text, body: Ok(said) },
            );
            &&& told.status == (if 100 <= status <= 999 {
                status
            } else {
                502
            })
            &&& told.body == BodyView::Text(
                "Error fetching HLS segment "@ + url + ": "@ + status_text@ + ". "@ + said@,
            )
            &&& told.content_type is None && told.headers.len() == 0
        }),
        ({
            let told = relay::flv_answer(
                url,
                UpstreamEvent::Refused { status, status_text, body: Ok(said) },
            );
            &&& told.status == (if 100 <= status <= 999 {
                status
            } else {
                500
            })
            &&& told.body == BodyView::Text(
                "Error fetching FLV stream from upstream (reqwest): "@ + url + ". Status: "@
                    + status_text@ + ". Details: "@ + said@,
            )
            &&& told.content_type is None && told.headers.len() == 0
        }),
{
}

/// A refusal whose text cannot be read is passed on all the same. Of an image or a
/// stream the player is told what went wrong with the text, of a playlist or a segment
/// it is told no text.
pub proof fn unread_refusals_are_passed_on(
    url: Seq<char>,
    host: Seq<char>,
    status: u16,
    status_text: String,
    error: String,
)
    ensures
        ({
            let told = relay::image_answer(
                url,
                UpstreamEvent::Refused { status, status_text, body: Err(error) },
            );
            &&& told.status == (if 100 <= status <= 999 {
                status
            } else {
                500
            })
            &&& told.body == BodyView::Text(
                "Error fetching IMAGE from upstream (reqwest): "@ + url + ". Status: "@
                    + status_text@ + ". Details: "@ + ("Failed to read error body from upstream: "@
                    + error@),
            )
        }),
        ({
            let told = relay::flv_answer(
                url,
                UpstreamEvent::Refused { status, status_text, body: Err(error) },
            );
            &&& told.status == (if 100 <= status <= 999 {
                status
            } else {
                500
            })
            &&& told.body == BodyView::Text(
                "Error fetching FLV stream from upstream (reqwest): "@ + url + ". Status: "@
                    + status_text@ + ". Details: "@ + ("Failed to read error body from upstream: "@
                    + error@),
            )
        }),
        ({
            let told = relay::hls_answer(
                url,
                host,
                UpstreamEvent::Refused { status, status_text, body: Err(error) },
            );
            &&& told.status == (if 100 <= status <= 999 {
                status
            } else {
                502
            })
            &&& told.body == BodyView::Text(
                "Error fetching HLS playlist "@ + url + ": "@ + status_text@ + ". "@,
            )
        }),
        ({
            let told = relay::hls_seg_answer(
                url,
                UpstreamEvent::Refused { status, status_text, body: Err(error) },
            );
            &&& told.status == (if 100 <= status <= 999 {
                status
            } else {
                502
            })
            &&& told.body == BodyView::Text(
                "Error fetching HLS segment "@ + url + ": "@ + status_text@ + ". "@,
            )
        }),
{
    let none = Seq::<char>::empty();
    let playlist = "Error fetching HLS playlist "@ + url + ": "@ + status_text@ + ". "@;
    let segment = "Error fetching HLS segment "@ + url + ": "@ + status_text@ + ". "@;
    assert(playlist + none == playlist);
    assert(segment + none == segment);
}

/// What a host sent, and what it said of it, reaches the player: an image whole, with
/// its own length, and to be kept for a day; a segment and a stream as they come, and not
/// to be kept. What a host did not name is unknown data.
pub proof fn fetched_data_reaches_the_player(
    url: Seq<char>,
    image: FetchedImage,
    content_type: Option<String>,
)
    ensures
        ({
            let told = relay::image_answer(url, UpstreamEvent::Fetched(Ok(image)));
            &&& told.status == 200
            &&& told.content_type == Some(
                match image.content_type {
                    Some(t) => t@,
                    None => "application/octet-stream"@,
                },
            )
            &&& told.body is Whole
            &&& told.headers.len() == 2
            &&& told.headers[0].0 == "Content-Length"@
            &&& decimal::number(told.headers[0].1) == image.length
            &&& told.headers[1] == ("Cache-Control"@, "public, max-age=86400, immutable"@)
        }),
        ({
            let told = relay::hls_seg_answer(url, UpstreamEvent::Fetched(content_type));
            &&& told.status == 200
            &&& told.content_type == Some(
                match content_type {
                    Some(t) => t@,
                    None => "application/octet-stream"@,
                },
            )
            &&& told.body is Stream
            &&& told.headers == seq![("Cache-Control"@, "no-store"@)]
        }),
        ({
            let told = relay::flv_answer(url, UpstreamEvent::Fetched(()));
            &&& told.status == 200
            &&& told.content_type == Some("video/x-flv"@)
            &&& told.body is Stream
            &&& told.headers == seq![
                ("Connection"@, "keep-alive"@),
                ("Cache-Control"@, "no-store"@),
                ("Accept-Ranges"@, "bytes"@),
            ]
        }),
{
    decimal::decimal_writes_number(image.length as nat);
}

/// A playlist reaches the player rewritten for the address under which the player
/// reaches the server, and is not to be kept; data that broke off while it was read is
/// a server error that tells what went wrong.
pub proof fn fetched_playlists_reach_the_player(
    url: Seq<char>,
    host: Seq<char>,
    body: String,
    error: String,
)
    ensures
        ({
            let told = relay::hls_answer(url, host, UpstreamEvent::Fetched(Ok(body)));
            &&& told.status == 200
            &&& told.content_type == Some("application/vnd.apple.mpegurl"@)
            &&& told.headers == seq![("Cache-Control"@, "no-store"@)]
            &&& told.body == BodyView::Text(
                hls::rewritten_playlist(body@, url, "http://"@ + host),
            )
        }),
        relay::hls_answer(url, host, UpstreamEvent::Fetched(Err(error))) == relay::plain_reply(
            500,
            "Failed to read HLS playlist: "@ + error@,
        ),
        relay::image_answer(url, UpstreamEvent::Fetched(Err(error))) == relay::plain_reply(
            500,
            "Failed to read image bytes: "@ + error@,
        ),
{
}

/// The address of a local server is on this machine, and its port is read back from it.
pub proof fn local_addresses_name_their_port(port: u16)
    ensures
        text::starts_with(server::local_url(port), "http://127.0.0.1:"@),
        decimal::port_number(server::local_url(port).skip("http://127.0.0.1:"@.len() as int))
            == Some(port),
{
    let front = "http://127.0.0.1:"@;
    let digits = decimal::decimal(port as nat);
    decimal::port_number_of_decimal(port);
    assert((front + digits).subrange(0, front.len() as int) == front);
    assert((front + digits).skip(front.len() as int) == digits);
}

/// The stream server is found at its address once it has its port, and only there; a
/// port that it cannot have is reported with what went wrong.
pub proof fn stream_server_is_found_at_its_port<H>(port: u16, handle: H, error: String)
    ensures
        server::stream_server_answer(port, BindOutcome::Bound(handle)) == Ok::<
            Seq<char>,
            Seq<char>,
        >("http://127.0.0.1:"@ + decimal::decimal(port as nat) + "/live.flv"@),
        server::stream_server_answer(port, BindOutcome::<H>::InUse(error)) == Err::<
            Seq<char>,
            Seq<char>,
        >(
            "[Rust/proxy.rs] Failed to bind server to port "@ + decimal::decimal(port as nat)
                + ": "@ + error@,
        ),
        server::stream_server_answer(port, BindOutcome::<H>::Failed(error)) == Err::<
            Seq<char>,
            Seq<char>,
        >(
            "[Rust/proxy.rs] Failed to bind server to port "@ + decimal::decimal(port as nat)
                + ": "@ + error@,
        ),
{
}

/// The server for images and playlists is found at its port whether it got the port now
/// or before; any other failure is reported with what went wrong.
pub proof fn static_server_is_found_at_its_port(error: String)
    ensures
        server::STATIC_PROXY_PORT == 34721,
        server::static_server_answer(BindOutcome::Bound(())) == Ok::<Seq<char>, Seq<char>>(
            "http://127.0.0.1:"@ + decimal::decimal(34721),
        ),
        server::static_server_answer(BindOutcome::InUse(error)) == Ok::<Seq<char>, Seq<char>>(
            "http://127.0.0.1:"@ + decimal::decimal(34721),
        ),
        server::static_server_answer(BindOutcome::Failed(error)) == Err::<Seq<char>, Seq<char>>(
            "[Rust/proxy.rs] Failed to bind server to port "@ + decimal::decimal(34721) + ": "@
                + error@,
        ),
{
}

/// The stream server starts exactly where a stream is set and its client was built. What
/// is reported otherwise is the missing stream first, and the client's own report next.
pub proof fn stream_server_needs_stream_and_client(url: Seq<char>, error: String)
    ensures
        server::start_refusal(url, Ok(())) is None <==> url.len() > 0,
        url.len() == 0 ==> server::start_refusal(url, Ok(())) == Some(
            "Stream URL is not set in store. Cannot start proxy."@,
        ),
        url.len() == 0 ==> server::start_refusal(url, Err(error)) == Some(
            "Stream URL is not set in store. Cannot start proxy."@,
        ),
        url.len() > 0 ==> server::start_refusal(url, Err(error)) == Some(error@),
{
}

} // verus!
