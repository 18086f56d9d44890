use dtv::commands::{
    open_in_default_browser, stop_result, stream_url_failure, stream_url_quality_failure,
    DouyuDanmakuHandles, StopSignal,
};
use dtv::relay::{
    flv_reply, flv_request, hls_reply, hls_request, hls_seg_reply, hls_seg_request, image_reply,
    image_request, refused as refusal_of, status_is_success, stream_failure, FetchedImage, Header, Reply, ReplyBody,
    UpstreamEvent, BROWSER_USER_AGENT, HUYA_HYSDK_UA,
};
use dtv::server::{
    find_free_port, start_proxy, start_static_proxy_server, static_server_may_bind, static_server_started,
    stop_proxy,
    stream_server_started, BindOutcome, ProxyServerHandle, StaticStep, StreamUrlStore,
};

fn pairs(headers: &[Header]) -> Vec<(&str, &str)> {
    headers.iter().map(|h| (h.name.as_str(), h.value.as_str())).collect()
}

fn message(reply: &Reply) -> (u16, &str) {
    assert!(reply.content_type.is_none());
    assert!(reply.headers.is_empty());
    match &reply.body {
        ReplyBody::Text(t) => (reply.status, t.as_str()),
        _ => panic!("no text"),
    }
}

fn refused<B>(status: u16, body: Result<&str, &str>) -> UpstreamEvent<B> {
    UpstreamEvent::Refused {
        status,
        status_text: format!("{status} Sorry"),
        body: body.map(|b| b.to_string()).map_err(|e| e.to_string()),
    }
}

fn unreachable_host<B>() -> UpstreamEvent<B> {
    UpstreamEvent::Unreachable { error: "down".to_string() }
}

#[test]
fn image_headers_follow_the_host() {
    let head = vec![
        ("User-Agent", BROWSER_USER_AGENT),
        ("Accept", "image/avif,image/webp,image/apng,image/*;q=0.8,*/*;q=0.5"),
    ];
    let with = |extra: &[(&'static str, &'static str)]| {
        let mut all = head.clone();
        all.extend_from_slice(extra);
        all
    };
    let bili = with(&[("Referer", "https://live.bilibili.com/"), ("Origin", "https://live.bilibili.com")]);
    let huya = with(&[("Referer", "https://www.huya.com/"), ("Origin", "https://www.huya.com")]);
    let douyin = with(&[("Referer", "https://www.douyin.com/")]);
    for (url, want) in [
        ("https://i0.hdslb.com/a.jpg", &bili),
        ("https://www.bilibili.com/a.jpg", &bili),
        ("https://huya.com/a.jpg", &huya),
        ("https://p3.douyinpic.com/a.jpg", &douyin),
        ("https://example.com/a.jpg", &head),
    ] {
        let request = image_request(url).unwrap();
        assert_eq!(request.url, url);
        assert_eq!(&pairs(&request.headers), want, "{}", url);
    }
    assert_eq!(message(&image_request("").unwrap_err()), (400, "Missing url query parameter"));
}

#[test]
fn image_answers() {
    let ok = image_reply(
        "u",
        UpstreamEvent::Fetched(Ok(FetchedImage { content_type: Some("image/png".to_string()), length: 1234 })),
    );
    assert_eq!((ok.status, ok.content_type.as_deref()), (200, Some("image/png")));
    assert_eq!(
        pairs(&ok.headers),
        vec![("Content-Length", "1234"), ("Cache-Control", "public, max-age=86400, immutable")]
    );
    assert!(matches!(ok.body, ReplyBody::Whole));
    let unknown = image_reply("u", UpstreamEvent::Fetched(Ok(FetchedImage { content_type: None, length: 0 })));
    assert_eq!(unknown.content_type.as_deref(), Some("application/octet-stream"));
    assert_eq!(
        message(&image_reply("u", UpstreamEvent::Fetched(Err("cut".to_string())))),
        (500, "Failed to read image bytes: cut")
    );
    assert_eq!(
        message(&image_reply("u", unreachable_host())),
        (500, "Error connecting to upstream IMAGE u: down")
    );
    assert_eq!(
        message(&image_reply("u", refused(404, Ok("gone")))),
        (404, "Error fetching IMAGE from upstream (reqwest): u. Status: 404 Sorry. Details: gone")
    );
    assert_eq!(
        message(&image_reply("u", refused(99, Err("cut")))),
        (500, "Error fetching IMAGE from upstream (reqwest): u. Status: 99 Sorry. Details: Failed to read error body from upstream: cut")
    );
}

#[test]
fn playlist_requests_and_answers() {
    let request = hls_request("https://a.huya.com/x.m3u8").unwrap();
    assert_eq!(
        pairs(&request.headers),
        vec![
            ("User-Agent", BROWSER_USER_AGENT),
            ("Accept", "application/vnd.apple.mpegurl,application/x-mpegURL,*/*"),
            ("Referer", "https://www.huya.com/"),
            ("Origin", "https://www.huya.com"),
        ]
    );
    assert_eq!(message(&hls_request("").unwrap_err()), (400, "Missing url query parameter"));
    let ok = hls_reply(
        "https://a.b/x.m3u8",
        "127.0.0.1:34719",
        UpstreamEvent::Fetched(Ok("#EXTM3U\ns.ts".to_string())),
    );
    assert_eq!((ok.status, ok.content_type.as_deref()), (200, Some("application/vnd.apple.mpegurl")));
    assert_eq!(pairs(&ok.headers), vec![("Cache-Control", "no-store")]);
    match ok.body {
        ReplyBody::Text(t) => assert_eq!(
            t,
            "#EXTM3U\nhttp://127.0.0.1:34719/hls-seg?url=https%3A%2F%2Fa.b%2Fs.ts\n"
        ),
        _ => panic!("no text"),
    }
    assert_eq!(
        message(&hls_reply("u", "h", UpstreamEvent::Fetched(Err("cut".to_string())))),
        (500, "Failed to read HLS playlist: cut")
    );
    assert_eq!(
        message(&hls_reply("u", "h", unreachable_host())),
        (500, "Error connecting to upstream HLS playlist u: down")
    );
    assert_eq!(
        message(&hls_reply("u", "h", refused(403, Ok("no")))),
        (403, "Error fetching HLS playlist u: 403 Sorry. no")
    );
    assert_eq!(
        message(&hls_reply("u", "h", refused(1000, Err("cut")))),
        (502, "Error fetching HLS playlist u: 1000 Sorry. ")
    );
}

#[test]
fn segment_requests_and_answers() {
    let request = hls_seg_request("https://x/s.ts").unwrap();
    assert_eq!(pairs(&request.headers)[1], ("Accept", "*/*"));
    assert_eq!(pairs(&request.headers)[2], ("Referer", "https://live.bilibili.com/"));
    assert_eq!(message(&hls_seg_request("").unwrap_err()), (400, "Missing url query parameter"));
    let ok = hls_seg_reply("u", UpstreamEvent::Fetched(None));
    assert_eq!((ok.status, ok.content_type.as_deref()), (200, Some("application/octet-stream")));
    assert_eq!(pairs(&ok.headers), vec![("Cache-Control", "no-store")]);
    assert!(matches!(ok.body, ReplyBody::Stream));
    assert_eq!(
        message(&hls_seg_reply("u", unreachable_host())),
        (500, "Error connecting to upstream HLS segment u: down")
    );
    assert_eq!(
        message(&hls_seg_reply("u", refused(503, Ok("busy")))),
        (503, "Error fetching HLS segment u: 503 Sorry. busy")
    );
}

#[test]
fn stream_requests_and_answers() {
    let base = vec![
        ("User-Agent", BROWSER_USER_AGENT),
        ("Accept", "video/x-flv,application/octet-stream,*/*"),
        ("Range", "bytes=0-"),
        ("Connection", "keep-alive"),
    ];
    let mut huya = base.clone();
    huya.push(("User-Agent", HUYA_HYSDK_UA));
    huya.push(("Referer", "https://www.huya.com/"));
    huya.push(("Origin", "https://www.huya.com"));
    let mut bili = base.clone();
    bili.push(("Referer", "https://live.bilibili.com/"));
    assert_eq!(pairs(&flv_request("https://al.flv.huya.com/x").unwrap().headers), huya);
    assert_eq!(pairs(&flv_request("https://d1.bilivideo.com/x").unwrap().headers), bili);
    assert_eq!(pairs(&flv_request("https://example.com/x").unwrap().headers), base);
    assert_eq!(message(&flv_request("").unwrap_err()), (404, "Stream URL is not set or empty."));
    let ok = flv_reply("u", UpstreamEvent::Fetched(()));
    assert_eq!((ok.status, ok.content_type.as_deref()), (200, Some("video/x-flv")));
    assert_eq!(
        pairs(&ok.headers),
        vec![("Connection", "keep-alive"), ("Cache-Control", "no-store"), ("Accept-Ranges", "bytes")]
    );
    assert!(matches!(ok.body, ReplyBody::Stream));
    assert_eq!(
        message(&flv_reply("u", unreachable_host())),
        (500, "Error connecting to upstream FLV stream u with reqwest: down")
    );
    assert_eq!(
        message(&flv_reply("u", refused(410, Ok("over")))),
        (410, "Error fetching FLV stream from upstream (reqwest): u. Status: 410 Sorry. Details: over")
    );
    assert_eq!(stream_failure("x"), "Upstream stream error: x");
}

#[test]
fn success_is_no_refusal() {
    let event = |status: u16| {
        refusal_of::<u8>(status, format!("{status} Text"), Ok("body".to_string()))
    };
    for status in [200, 204, 299] {
        assert!(event(status).is_none());
    }
    for status in [100, 199, 300, 404, 503] {
        match event(status) {
            Some(UpstreamEvent::Refused { status: s, status_text, body }) => {
                assert_eq!((s, status_text), (status, format!("{status} Text")));
                assert_eq!(body, Ok("body".to_string()));
            }
            _ => panic!("no refusal"),
        }
    }
}

#[test]
fn success_is_two_hundred_and_something() {
    assert!(status_is_success(200) && status_is_success(299));
    assert!(!status_is_success(199) && !status_is_success(300));
}

#[test]
fn stream_server_needs_a_stream() {
    let mut handles: ProxyServerHandle<u8> = ProxyServerHandle { handle: Some(1) };
    let mut store = StreamUrlStore::default();
    assert_eq!(
        start_proxy(&store, Ok(()), &mut handles).unwrap_err(),
        "Stream URL is not set in store. Cannot start proxy."
    );
    assert_eq!(
        start_proxy(&store, Err("no client".to_string()), &mut handles).unwrap_err(),
        "Stream URL is not set in store. Cannot start proxy."
    );
    store.set_stream_url("https://x/y.flv".to_string());
    assert_eq!(store.stream_url(), "https://x/y.flv");
    assert_eq!(
        start_proxy(&store, Err("no client".to_string()), &mut handles).unwrap_err(),
        "no client"
    );
    assert_eq!(handles.handle, Some(1));
    let start = start_proxy(&store, Ok(()), &mut handles).unwrap();
    assert_eq!((start.port, start.previous), (34719, Some(1)));
    assert_eq!(handles.handle, None);
    assert_eq!(find_free_port(), 34719);
}

#[test]
fn running_stream_server_is_recorded() {
    let mut handles: ProxyServerHandle<u8> = ProxyServerHandle::default();
    assert_eq!(handles.handle, None);
    let failure = "[Rust/proxy.rs] Failed to bind server to port 34719: taken".to_string();
    assert_eq!(
        stream_server_started(&mut handles, 34719, BindOutcome::InUse("taken".to_string())),
        Err(failure.clone())
    );
    assert_eq!(
        stream_server_started(&mut handles, 34719, BindOutcome::Failed("taken".to_string())),
        Err(failure)
    );
    assert_eq!(handles.handle, None);
    assert_eq!(
        stream_server_started(&mut handles, 34719, BindOutcome::Bound(2)),
        Ok("http://127.0.0.1:34719/live.flv".to_string())
    );
    assert_eq!(handles.handle, Some(2));
    assert_eq!(stop_proxy(&mut handles), Some(2));
    assert_eq!(stop_proxy(&mut handles), None);
}

#[test]
fn static_server_starts_once() {
    let address = "http://127.0.0.1:34721".to_string();
    match start_static_proxy_server(true) {
        StaticStep::Running(a) => assert_eq!(a, address),
        StaticStep::Start(_) => panic!("started twice"),
    }
    assert!(matches!(start_static_proxy_server(false), StaticStep::Start(34721)));
    assert_eq!(static_server_may_bind(Ok(())), Ok(34721));
    assert_eq!(static_server_may_bind(Err("no client".to_string())), Err("no client".to_string()));
    assert_eq!(static_server_started(BindOutcome::Bound(())), Ok(address.clone()));
    assert_eq!(static_server_started(BindOutcome::InUse("x".to_string())), Ok(address));
    assert_eq!(
        static_server_started(BindOutcome::Failed("no".to_string())),
        Err("[Rust/proxy.rs] Failed to bind server to port 34721: no".to_string())
    );
}

#[test]
fn one_listener_runs_at_a_time() {
    let mut handles: DouyuDanmakuHandles<u8> = DouyuDanmakuHandles::default();
    assert_eq!(handles.start_danmaku_listener(1), None);
    assert_eq!(handles.start_danmaku_listener(2), Some(1));
    assert_eq!(handles.stop_danmaku_listener(), Some(2));
    assert_eq!(handles.stop_danmaku_listener(), None);
    assert_eq!(stop_result("9", StopSignal::NoListener), Ok(()));
    assert_eq!(stop_result("9", StopSignal::Delivered), Ok(()));
    assert_eq!(
        stop_result("9", StopSignal::ReceiverDropped),
        Err("Failed to stop Douyu danmaku listener (requested room 9): receiver dropped.".to_string())
    );
}

#[test]
fn browser_urls_are_trimmed() {
    assert_eq!(open_in_default_browser(" https://x \n"), Ok("https://x".to_string()));
    assert_eq!(open_in_default_browser(" \t"), Err("URL is empty.".to_string()));
}

#[test]
fn reports_name_their_cause() {
    assert_eq!(stream_url_failure("x"), "Failed to get stream URL: x");
    assert_eq!(stream_url_quality_failure("x"), "Failed to get stream URL with quality: x");
}
