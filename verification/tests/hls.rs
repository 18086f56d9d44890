use dtv::hls::{
    choose_uri, hls_referer_headers, list_tag_uris, resolve_hls_uri, rewrite_hls_playlist,
    rewrite_tag_uris, splice_playlist, splice_tag_uris, wrap_hls_uri,
};
use dtv::text::{chars_of, split_lines};

const BASE: &str = "http://127.0.0.1:34719";
const PLAYLIST: &str = "https://cdn.example.com/live/room/index.m3u8?token=a";

#[test]
fn referer_follows_the_host() {
    let huya = ("https://www.huya.com/", "https://www.huya.com");
    let douyu = ("https://www.douyu.com/", "https://www.douyu.com");
    let douyin = ("https://www.douyin.com/", "https://www.douyin.com");
    let bilibili = ("https://live.bilibili.com/", "https://live.bilibili.com");
    assert_eq!(hls_referer_headers("https://al.hls.huya.com/x.m3u8"), huya);
    assert_eq!(hls_referer_headers("https://a.hy-cdn.com/"), huya);
    assert_eq!(hls_referer_headers("https://a.huyaimg.com/"), huya);
    assert_eq!(hls_referer_headers("https://hw.douyucdn2.cn/"), douyu);
    assert_eq!(hls_referer_headers("https://www.douyu.com/1"), douyu);
    assert_eq!(hls_referer_headers("https://pull.douyincdn.com/"), douyin);
    assert_eq!(hls_referer_headers("https://p3.byteimg.com/"), douyin);
    assert_eq!(hls_referer_headers("https://example.com/"), bilibili);
    assert_eq!(hls_referer_headers(""), bilibili);
}

#[test]
fn references_are_resolved() {
    assert_eq!(resolve_hls_uri(PLAYLIST, "  "), "");
    assert_eq!(resolve_hls_uri(PLAYLIST, " seg1.ts "), "https://cdn.example.com/live/room/seg1.ts");
    assert_eq!(resolve_hls_uri(PLAYLIST, "/a/../b.ts"), "https://cdn.example.com/b.ts");
    assert_eq!(resolve_hls_uri(PLAYLIST, "//other.example/c.ts"), "https://other.example/c.ts");
    assert_eq!(resolve_hls_uri(PLAYLIST, "HTTP://Other.Example"), "http://other.example/");
    assert_eq!(resolve_hls_uri(PLAYLIST, "//["), "//[");
}

#[test]
fn first_form_that_there_is_is_chosen() {
    let some = |s: &str| Some(s.to_string());
    assert_eq!(choose_uri("r", some("p"), some("j")), "p");
    assert_eq!(choose_uri("r", None, some("j")), "j");
    assert_eq!(choose_uri("r", None, None), "r");
}

#[test]
fn addresses_are_encoded() {
    assert_eq!(
        wrap_hls_uri(BASE, true, "https://a.b/c d?e=f&g=%20"),
        "http://127.0.0.1:34719/hls?url=https%3A%2F%2Fa.b%2Fc%20d%3Fe%3Df%26g%3D%2520"
    );
    assert_eq!(
        wrap_hls_uri(BASE, false, "A-z_0.9~"),
        "http://127.0.0.1:34719/hls-seg?url=A-z_0.9~"
    );
    assert_eq!(
        wrap_hls_uri("", false, "\u{e9}\u{4e2d}"),
        "/hls-seg?url=%C3%A9%E4%B8%AD"
    );
}

#[test]
fn address_decodes_to_its_target() {
    let target = "https://a.b/\u{4e2d}?x=1+2&y=%2F#z";
    let address = wrap_hls_uri(BASE, false, target);
    let (_, query) = address.split_once("?url=").unwrap();
    assert!(!query.contains('&') && !query.contains('#') && !query.contains('+'));
    assert_eq!(urlencoding::decode(query).unwrap(), target);
    assert_ne!(address, wrap_hls_uri(BASE, false, "https://a.b/"));
}

#[test]
fn tag_uris_are_listed_and_replaced() {
    let line = "#EXT-X-MAP:URI=\"init.mp4\",BYTERANGE=\"1@2\",URI=\"b\"";
    let chars = chars_of(line);
    let uris = list_tag_uris(&chars);
    assert_eq!(uris, vec![chars_of("init.mp4"), chars_of("b")]);
    let resolved = vec!["u1".to_string(), "u2.m3u8".to_string()];
    assert_eq!(
        splice_tag_uris(&chars, "P", false, &resolved),
        "#EXT-X-MAP:URI=\"P/hls-seg?url=u1\",BYTERANGE=\"1@2\",URI=\"P/hls?url=u2.m3u8\""
    );
    assert_eq!(
        rewrite_tag_uris("#EXT-X-KEY:METHOD=AES-128,URI=\"key\"", PLAYLIST, "P", false),
        "#EXT-X-KEY:METHOD=AES-128,URI=\"P/hls-seg?url=https%3A%2F%2Fcdn.example.com%2Flive%2Froom%2Fkey\""
    );
}

#[test]
fn open_quote_leaves_the_tag() {
    let line = "#EXT-X-KEY:URI=\"a\",URI=\"b";
    assert_eq!(
        rewrite_tag_uris(line, PLAYLIST, "P", true),
        "#EXT-X-KEY:URI=\"P/hls?url=https%3A%2F%2Fcdn.example.com%2Flive%2Froom%2Fa\",URI=\"b"
    );
    assert_eq!(rewrite_tag_uris("no uri", PLAYLIST, "P", true), "no uri");
}

#[test]
fn rewritten_tag_lists_the_addresses() {
    let line = "#X:URI=\"a\",URI=\"b.m3u8\",N=1,URI=\"\"";
    let rewritten = rewrite_tag_uris(line, PLAYLIST, BASE, false);
    let dir = "https%3A%2F%2Fcdn.example.com%2Flive%2Froom%2F";
    assert_eq!(
        list_tag_uris(&chars_of(&rewritten)),
        vec![
            chars_of(&format!("{BASE}/hls-seg?url={dir}a")),
            chars_of(&format!("{BASE}/hls?url={dir}b.m3u8")),
            chars_of(&format!("{BASE}/hls-seg?url=")),
        ]
    );
}

#[test]
fn master_playlist_is_rewritten() {
    let body = "#EXTM3U\n#EXT-X-MEDIA:TYPE=AUDIO,URI=\"audio\"\n#EXT-X-STREAM-INF:BANDWIDTH=1\n\n  low/stream  \nseg.ts\n";
    let dir = "https%3A%2F%2Fcdn.example.com%2Flive%2Froom%2F";
    let want = format!(
        "#EXTM3U\n#EXT-X-MEDIA:TYPE=AUDIO,URI=\"{BASE}/hls?url={dir}audio\"\n#EXT-X-STREAM-INF:BANDWIDTH=1\n\n{BASE}/hls?url={dir}low%2Fstream\n{BASE}/hls-seg?url={dir}seg.ts\n"
    );
    assert_eq!(rewrite_hls_playlist(body, PLAYLIST, BASE), want);
}

#[test]
fn media_playlist_is_rewritten() {
    let body = "#EXTM3U\r\n#EXTINF:4.0,\r\nseg1.ts?a=b\r\n#EXTINF:4.0,\r\nsub.m3u8\r\n#EXT-X-ENDLIST";
    let dir = "https%3A%2F%2Fcdn.example.com%2Flive%2Froom%2F";
    let want = format!(
        "#EXTM3U\n#EXTINF:4.0,\n{BASE}/hls-seg?url={dir}seg1.ts%3Fa%3Db\n#EXTINF:4.0,\n{BASE}/hls?url={dir}sub.m3u8\n#EXT-X-ENDLIST\n"
    );
    let got = rewrite_hls_playlist(body, PLAYLIST, BASE);
    assert_eq!(got, want);
    assert_eq!(got.lines().count(), body.lines().count());
}

#[test]
fn announcement_is_withdrawn_by_another_tag() {
    let lines = split_lines(&chars_of("#EXT-X-STREAM-INF\n#X\na\n#EXT-X-STREAM-INF\nb\nc"));
    let resolved = vec!["a".to_string(), "b".to_string(), "c".to_string()];
    assert_eq!(
        splice_playlist(&lines, "P", &resolved),
        "#EXT-X-STREAM-INF\n#X\nP/hls-seg?url=a\n#EXT-X-STREAM-INF\nP/hls?url=b\nP/hls-seg?url=c\n"
    );
}

#[test]
fn playlist_without_a_url_stays() {
    let body = "#EXTM3U\nseg.ts";
    assert_eq!(rewrite_hls_playlist(body, "not a url", BASE), body);
    assert_eq!(rewrite_hls_playlist("", PLAYLIST, BASE), "");
}
