//! HLS playlists: every URI in a playlist is rewritten to lead through the local proxy.
use crate::boundary;
use crate::text;
use vstd::prelude::*;

verus! {

/// The mark in front of a quoted URI in a playlist tag: `URI="`.
pub open spec fn uri_mark() -> Seq<char> {
    seq!['U', 'R', 'I', '=', '"']
}

/// The `Referer` and `Origin` that the host of a stream expects.
pub open spec fn hls_referer(url: Seq<char>) -> (Seq<char>, Seq<char>) {
    if text::contains(url, "huya.com"@) || text::contains(url, "hy-cdn.com"@) || text::contains(
        url,
        "huyaimg.com"@,
    ) {
        ("https://www.huya.com/"@, "https://www.huya.com"@)
    } else if text::contains(url, "douyu.com"@) || text::contains(url, "douyucdn"@) {
        ("https://www.douyu.com/"@, "https://www.douyu.com"@)
    } else if text::contains(url, "douyin"@) || text::contains(url, "byteimg"@) {
        ("https://www.douyin.com/"@, "https://www.douyin.com"@)
    } else {
        ("https://live.bilibili.com/"@, "https://live.bilibili.com"@)
    }
}

/// The `Referer` and `Origin` to send when fetching `url`.
pub fn hls_referer_headers(url: &str) -> (r: (&'static str, &'static str))
    ensures
        (r.0@, r.1@) == hls_referer(url@),
{
    let u = text::chars_of(url);
    let s = u.as_slice();
    if text::has(s, "huya.com") || text::has(s, "hy-cdn.com") || text::has(s, "huyaimg.com") {
        ("https://www.huya.com/", "https://www.huya.com")
    } else if text::has(s, "douyu.com") || text::has(s, "douyucdn") {
        ("https://www.douyu.com/", "https://www.douyu.com")
    } else if text::has(s, "douyin") || text::has(s, "byteimg") {
        ("https://www.douyin.com/", "https://www.douyin.com")
    } else {
        ("https://live.bilibili.com/", "https://live.bilibili.com")
    }
}

/// The outcome of resolving a reference, from what parsing it and joining it to
/// the playlist's URL gave: the first of the two that there is, or else the
/// reference as it stands.
pub open spec fn chosen_uri(
    reference: Seq<char>,
    parsed: Option<Seq<char>>,
    joined: Option<Seq<char>>,
) -> Seq<char> {
    match parsed {
        Some(href) => href,
        None => match joined {
            Some(href) => href,
            None => reference,
        },
    }
}

/// The text of the URL that `reference` parses as.
pub open spec fn parsed_href(reference: Seq<char>) -> Option<Seq<char>> {
    match boundary::url_parse(reference) {
        Some(u) => Some(u.href),
        None => None,
    }
}

/// The absolute form of a reference in the playlist at `playlist_url`.
pub open spec fn resolved_uri(playlist_url: Seq<char>, uri: Seq<char>) -> Seq<char> {
    let t = text::trimmed(uri);
    if t.len() == 0 {
        t
    } else {
        chosen_uri(t, parsed_href(t), boundary::url_join(playlist_url, t))
    }
}

/// Picks the absolute form of a reference.
pub fn choose_uri(reference: &str, parsed: Option<String>, joined: Option<String>) -> (r: String)
    ensures
        r@ == chosen_uri(reference@, text::opt_view(parsed), text::opt_view(joined)),
{
    match parsed {
        Some(href) => href,
        None => match joined {
            Some(href) => href,
            None => reference.to_owned(),
        },
    }
}

/// Resolves a reference of the playlist at `playlist_url`: an absolute URL is put
/// in normal form, another reference is joined to the playlist's URL, and what
/// neither takes stays as it is.
pub fn resolve_hls_uri(playlist_url: &str, uri: &str) -> (r: String)
    ensures
        r@ == resolved_uri(playlist_url@, uri@),
{
    let u = text::chars_of(uri);
    let trimmed = text::string_of(text::trim(u.as_slice()));
    if trimmed.as_str().is_empty() {
        return trimmed;
    }
    let parsed = match boundary::parse_url(trimmed.as_str()) {
        Some(parts) => Some(parts.href),
        None => None,
    };
    let joined = if parsed.is_some() {
        None
    } else {
        boundary::join_url(playlist_url, trimmed.as_str())
    };
    choose_uri(trimmed.as_str(), parsed, joined)
}

/// The proxy's address for an absolute URI.
pub open spec fn wrapped_uri(proxy_base: Seq<char>, playlist: bool, abs: Seq<char>) -> Seq<char> {
    proxy_base + "/"@ + (if playlist {
        "hls"@
    } else {
        "hls-seg"@
    }) + "?url="@ + boundary::percent_encoded(vstd::utf8::encode_utf8(abs))
}

/// The proxy's address for an absolute URI, of a playlist or of a segment.
pub fn wrap_hls_uri(proxy_base: &str, playlist: bool, abs: &str) -> (r: String)
    ensures
        r@ == wrapped_uri(proxy_base@, playlist, abs@),
{
    let mut r = proxy_base.to_owned();
    r.append("/");
    r.append(if playlist {
        "hls"
    } else {
        "hls-seg"
    });
    r.append("?url=");
    let encoded = boundary::url_encode(abs);
    r.append(encoded.as_str());
    r
}

/// An absolute URI leads to a playlist, by what stands around it or by its look.
pub open spec fn is_playlist_uri(expected: bool, abs: Seq<char>) -> bool {
    expected || text::contains(abs, ".m3u8"@)
}

/// The quoted URIs of a tag, in order.
pub open spec fn tag_uris(s: Seq<char>) -> Seq<Seq<char>>
    decreases s.len(),
{
    match text::find(s, uri_mark()) {
        Some(i) => {
            let after = s.skip(i + 5);
            match text::find(after, seq!['"']) {
                Some(e) => if 0 <= i && i + 5 <= s.len() && 0 <= e < after.len() {
                    seq![after.take(e)] + tag_uris(after.skip(e + 1))
                } else {
                    Seq::empty()
                },
                None => Seq::empty(),
            }
        },
        None => Seq::empty(),
    }
}

/// A tag with each quoted URI replaced by the proxy's address for the matching
/// entry of `resolved`.
pub open spec fn spliced_tag(
    s: Seq<char>,
    proxy_base: Seq<char>,
    as_playlist: bool,
    resolved: Seq<Seq<char>>,
) -> Seq<char>
    decreases s.len(),
{
    match text::find(s, uri_mark()) {
        Some(i) => {
            let after = s.skip(i + 5);
            match text::find(after, seq!['"']) {
                Some(e) => if 0 <= i && i + 5 <= s.len() && 0 <= e < after.len() {
                    let abs = resolved[0];
                    s.take(i) + uri_mark() + wrapped_uri(
                        proxy_base,
                        is_playlist_uri(as_playlist, abs),
                        abs,
                    ) + seq!['"'] + spliced_tag(
                        after.skip(e + 1),
                        proxy_base,
                        as_playlist,
                        resolved.drop_first(),
                    )
                } else {
                    s
                },
                None => s,
            }
        },
        None => s,
    }
}

/// Each of `uris` resolved against the playlist's URL.
pub open spec fn resolved_all(playlist_url: Seq<char>, uris: Seq<Seq<char>>) -> Seq<Seq<char>> {
    uris.map_values(|u: Seq<char>| resolved_uri(playlist_url, u))
}

/// The quoted URIs of a tag, in order.
pub fn list_tag_uris(s: &[char]) -> (r: Vec<Vec<char>>)
    ensures
        text::char_views(r@) == tag_uris(s@),
{
    let mark: Vec<char> = vec!['U', 'R', 'I', '=', '"'];
    assert(mark@ == uri_mark());
    let mut r: Vec<Vec<char>> = Vec::new();
    let mut rest: &[char] = s;
    assert(text::char_views(r@) + tag_uris(rest@) == tag_uris(s@));
    loop
        invariant
            mark@ == uri_mark(),
            text::char_views(r@) + tag_uris(rest@) == tag_uris(s@),
        decreases rest@.len(),
    {
        let ghost before = text::char_views(r@);
        let ghost whole = rest@;
        match text::find_text(rest, mark.as_slice()) {
            Some(i) => {
                let end: usize = rest.len();
                let after: &[char] = &rest[i + 5..end];
                assert(after@ == whole.skip(i + 5));
                match text::find_char(after, '"') {
                    Some(e) => {
                        let uri: &[char] = &after[0..e];
                        assert(uri@ == after@.take(e as int));
                        r.push(vstd::slice::slice_to_vec(uri));
                        rest = &after[e + 1..after.len()];
                        assert(rest@ == after@.skip(e + 1));
                        assert(text::char_views(r@) == before.push(uri@));
                        assert(before.push(uri@) + tag_uris(rest@) == before + tag_uris(whole));
                    },
                    None => {
                        assert(text::char_views(r@) == tag_uris(s@));
                        return r;
                    },
                }
            },
            None => {
                assert(text::char_views(r@) == tag_uris(s@));
                return r;
            },
        }
    }
}

/// Puts the proxy's addresses into a tag, in the place of its quoted URIs.
#[verifier::rlimit(30)]
pub fn splice_tag_uris(
    line: &[char],
    proxy_base: &str,
    as_playlist: bool,
    resolved: &[String],
) -> (r: String)
    requires
        resolved@.len() == tag_uris(line@).len(),
    ensures
        r@ == spliced_tag(line@, proxy_base@, as_playlist, text::string_views(resolved@)),
{
    let mark: Vec<char> = vec!['U', 'R', 'I', '=', '"'];
    assert(mark@ == uri_mark());
    let ghost all = text::string_views(resolved@);
    let mut out = String::new();
    let mut rest: &[char] = line;
    let mut k: usize = 0;
    assert(all.skip(0) == all);
    assert(out@ + spliced_tag(rest@, proxy_base@, as_playlist, all.skip(0)) == spliced_tag(
        line@,
        proxy_base@,
        as_playlist,
        all,
    ));
    loop
        invariant
            mark@ == uri_mark(),
            all == text::string_views(resolved@),
            k + tag_uris(rest@).len() == resolved@.len(),
            out@ + spliced_tag(rest@, proxy_base@, as_playlist, all.skip(k as int)) == spliced_tag(
                line@,
                proxy_base@,
                as_playlist,
                all,
            ),
        decreases rest@.len(),
    {
        let ghost whole = rest@;
        let ghost before = out@;
        match text::find_text(rest, mark.as_slice()) {
            Some(i) => {
                let end: usize = rest.len();
                let after: &[char] = &rest[i + 5..end];
                assert(after@ == whole.skip(i + 5));
                match text::find_char(after, '"') {
                    Some(e) => {
                        let head: &[char] = &rest[0..i];
                        assert(head@ == whole.take(i as int));
                        text::push_chars(&mut out, head);
                        text::push_chars(&mut out, mark.as_slice());
                        let ghost tail = after@.skip(e + 1);
                        assert(tag_uris(whole) == seq![after@.take(e as int)] + tag_uris(tail));
                        let abs: &String = &resolved[k];
                        let a = text::chars_of(abs.as_str());
                        let playlist = as_playlist || text::has(a.as_slice(), ".m3u8");
                        let address = wrap_hls_uri(proxy_base, playlist, abs.as_str());
                        out.append(address.as_str());
                        out.push('"');
                        rest = &after[e + 1..after.len()];
                        assert(rest@ == tail);
                        assert(all.skip(k as int)[0] == abs@);
                        assert(all.skip(k as int).drop_first() == all.skip(k + 1));
                        k += 1;
                        let ghost next = spliced_tag(
                            rest@,
                            proxy_base@,
                            as_playlist,
                            all.skip(k as int),
                        );
                        assert(out@ == before + (whole.take(i as int) + uri_mark() + address@
                            + seq!['"']));
                        assert(out@ + next == before + (whole.take(i as int) + uri_mark()
                            + address@ + seq!['"'] + next));
                    },
                    None => {
                        text::push_chars(&mut out, rest);
                        return out;
                    },
                }
            },
            None => {
                text::push_chars(&mut out, rest);
                return out;
            },
        }
    }
}

/// Resolves each of `uris`.
pub fn resolve_all(playlist_url: &str, uris: &Vec<Vec<char>>) -> (r: Vec<String>)
    ensures
        text::string_views(r@) == resolved_all(playlist_url@, text::char_views(uris@)),
{
    let mut r: Vec<String> = Vec::new();
    let mut i: usize = 0;
    while i < uris.len()
        invariant
            i <= uris@.len(),
            text::string_views(r@) == resolved_all(
                playlist_url@,
                text::char_views(uris@).take(i as int),
            ),
        decreases uris@.len() - i,
    {
        let uri = text::string_of(uris[i].as_slice());
        let abs = resolve_hls_uri(playlist_url, uri.as_str());
        let ghost before = text::string_views(r@);
        let ghost views = text::char_views(uris@);
        r.push(abs);
        i += 1;
        assert(text::string_views(r@) == before.push(abs@));
        assert(views.take(i as int) == views.take(i - 1).push(uri@));
        assert(resolved_all(playlist_url@, views.take(i as int)) == resolved_all(
            playlist_url@,
            views.take(i - 1),
        ).push(abs@));
    }
    assert(text::char_views(uris@).take(i as int) == text::char_views(uris@));
    r
}

/// Rewrites the quoted URIs of a tag of the playlist at `playlist_url`.
pub fn rewrite_tag_uris(
    line: &str,
    playlist_url: &str,
    proxy_base: &str,
    as_playlist: bool,
) -> (r: String)
    ensures
        r@ == spliced_tag(
            line@,
            proxy_base@,
            as_playlist,
            resolved_all(playlist_url@, tag_uris(line@)),
        ),
{
    let l = text::chars_of(line);
    let uris = list_tag_uris(l.as_slice());
    let resolved = resolve_all(playlist_url, &uris);
    assert(text::string_views(resolved@).len() == resolved@.len());
    assert(text::char_views(uris@).len() == uris@.len());
    splice_tag_uris(l.as_slice(), proxy_base, as_playlist, resolved.as_slice())
}

/// A line that has nothing but white space.
pub open spec fn is_blank(line: Seq<char>) -> bool {
    text::trimmed(line).len() == 0
}

/// A line that is a tag or a comment.
pub open spec fn is_tag(line: Seq<char>) -> bool {
    !is_blank(line) && text::trimmed(line)[0] == '#'
}

/// A line that holds a URI.
pub open spec fn is_uri_line(line: Seq<char>) -> bool {
    !is_blank(line) && !is_tag(line)
}

/// A tag whose next URI line is a playlist of its own.
pub open spec fn announces_playlist(line: Seq<char>) -> bool {
    text::starts_with(text::trimmed(line), "#EXT-X-STREAM-INF"@)
}

/// A tag whose quoted URIs are playlists, whatever they look like.
pub open spec fn quotes_playlist(line: Seq<char>) -> bool {
    let t = text::trimmed(line);
    text::starts_with(t, "#EXT-X-MEDIA"@) || text::starts_with(t, "#EXT-X-I-FRAME-STREAM-INF"@)
        || text::starts_with(t, "#EXT-X-SESSION-DATA"@)
}

/// The references on a line of a playlist.
pub open spec fn line_uris(line: Seq<char>) -> Seq<Seq<char>> {
    if is_blank(line) {
        Seq::empty()
    } else if is_tag(line) {
        tag_uris(text::trimmed(line))
    } else {
        seq![text::trimmed(line)]
    }
}

/// The references on the lines of a playlist, in order.
pub open spec fn playlist_uris(lines: Seq<Seq<char>>) -> Seq<Seq<char>>
    decreases lines.len(),
{
    if lines.len() == 0 {
        Seq::empty()
    } else {
        line_uris(lines[0]) + playlist_uris(lines.drop_first())
    }
}

/// A line of a playlist with its references replaced by the proxy's addresses for
/// `resolved`. `next_is_playlist` tells that a tag in front announced a playlist.
pub open spec fn spliced_line(
    line: Seq<char>,
    proxy_base: Seq<char>,
    next_is_playlist: bool,
    resolved: Seq<Seq<char>>,
) -> Seq<char> {
    if is_blank(line) {
        line
    } else if is_tag(line) {
        if text::contains(text::trimmed(line), uri_mark()) {
            spliced_tag(text::trimmed(line), proxy_base, quotes_playlist(line), resolved)
        } else {
            line
        }
    } else {
        wrapped_uri(proxy_base, is_playlist_uri(next_is_playlist, resolved[0]), resolved[0])
    }
}

/// Whether a playlist is announced behind `line`: a tag says so, a URI uses it up,
/// and a blank line changes nothing.
pub open spec fn announced_after(line: Seq<char>, next_is_playlist: bool) -> bool {
    if is_blank(line) {
        next_is_playlist
    } else {
        is_tag(line) && announces_playlist(line)
    }
}

/// A playlist with its references replaced by the proxy's addresses for
/// `resolved`: line for line, each with a line feed.
pub open spec fn spliced_playlist(
    lines: Seq<Seq<char>>,
    proxy_base: Seq<char>,
    next_is_playlist: bool,
    resolved: Seq<Seq<char>>,
) -> Seq<char>
    decreases lines.len(),
{
    if lines.len() == 0 {
        Seq::empty()
    } else {
        let n = line_uris(lines[0]).len() as int;
        spliced_line(lines[0], proxy_base, next_is_playlist, resolved.take(n)) + seq!['\n']
            + spliced_playlist(
            lines.drop_first(),
            proxy_base,
            announced_after(lines[0], next_is_playlist),
            resolved.skip(n),
        )
    }
}

/// The playlist that a client of the proxy is given for the one at `playlist_url`.
pub open spec fn rewritten_playlist(
    body: Seq<char>,
    playlist_url: Seq<char>,
    proxy_base: Seq<char>,
) -> Seq<char> {
    if boundary::url_parse(playlist_url) is None {
        body
    } else {
        spliced_playlist(
            text::lines(body),
            proxy_base,
            false,
            resolved_all(playlist_url, playlist_uris(text::lines(body))),
        )
    }
}

/// The references on a line of a playlist.
fn list_line_uris(line: &[char]) -> (r: Vec<Vec<char>>)
    ensures
        text::char_views(r@) == line_uris(line@),
{
    let trimmed = text::trim(line);
    if trimmed.len() == 0 {
        let r: Vec<Vec<char>> = Vec::new();
        assert(text::char_views(r@) == Seq::<Seq<char>>::empty());
        r
    } else if trimmed[0] == '#' {
        list_tag_uris(trimmed)
    } else {
        let mut r: Vec<Vec<char>> = Vec::new();
        r.push(vstd::slice::slice_to_vec(trimmed));
        assert(text::char_views(r@) == seq![trimmed@]);
        r
    }
}

/// The references in a playlist, in order.
pub fn list_playlist_uris(lines: &Vec<Vec<char>>) -> (r: Vec<Vec<char>>)
    ensures
        text::char_views(r@) == playlist_uris(text::char_views(lines@)),
{
    let ghost all = text::char_views(lines@);
    let mut r: Vec<Vec<char>> = Vec::new();
    let mut i: usize = 0;
    assert(all.skip(0) == all);
    assert(text::char_views(r@) + playlist_uris(all) == playlist_uris(all));
    while i < lines.len()
        invariant
            i <= lines@.len(),
            all == text::char_views(lines@),
            text::char_views(r@) + playlist_uris(all.skip(i as int)) == playlist_uris(all),
        decreases lines@.len() - i,
    {
        let ghost before = text::char_views(r@);
        let mut more = list_line_uris(lines[i].as_slice());
        let ghost added = text::char_views(more@);
        r.append(&mut more);
        assert(text::char_views(r@) == before + added);
        assert(all.skip(i as int)[0] == lines@[i as int]@);
        assert(all.skip(i as int).drop_first() == all.skip(i + 1));
        i += 1;
        assert(text::char_views(r@) + playlist_uris(all.skip(i as int)) == before + (added
            + playlist_uris(all.skip(i as int))));
    }
    assert(text::char_views(r@) + playlist_uris(all.skip(i as int)) == text::char_views(r@));
    r
}

/// Puts the proxy's addresses for `resolved` into a line of a playlist.
fn splice_line(
    line: &[char],
    proxy_base: &str,
    next_is_playlist: bool,
    resolved: &[String],
) -> (r: String)
    requires
        resolved@.len() == line_uris(line@).len(),
    ensures
        r@ == spliced_line(
            line@,
            proxy_base@,
            next_is_playlist,
            text::string_views(resolved@),
        ),
{
    let trimmed = text::trim(line);
    if trimmed.len() == 0 {
        return text::string_of(line);
    }
    if trimmed[0] == '#' {
        let mark: Vec<char> = vec!['U', 'R', 'I', '=', '"'];
        assert(mark@ == uri_mark());
        proof {
            text::find_is_first(trimmed@, uri_mark());
        }
        if text::find_text(trimmed, mark.as_slice()).is_some() {
            let as_playlist = text::begins(trimmed, "#EXT-X-MEDIA") || text::begins(
                trimmed,
                "#EXT-X-I-FRAME-STREAM-INF",
            ) || text::begins(trimmed, "#EXT-X-SESSION-DATA");
            return splice_tag_uris(trimmed, proxy_base, as_playlist, resolved);
        }
        return text::string_of(line);
    }
    let abs: &String = &resolved[0];
    let a = text::chars_of(abs.as_str());
    let playlist = next_is_playlist || text::has(a.as_slice(), ".m3u8");
    assert(text::string_views(resolved@)[0] == abs@);
    wrap_hls_uri(proxy_base, playlist, abs.as_str())
}

/// Puts the proxy's addresses for `resolved` into a playlist.
#[verifier::rlimit(30)]
pub fn splice_playlist(
    lines: &Vec<Vec<char>>,
    proxy_base: &str,
    resolved: &[String],
) -> (r: String)
    requires
        resolved@.len() == playlist_uris(text::char_views(lines@)).len(),
    ensures
        r@ == spliced_playlist(
            text::char_views(lines@),
            proxy_base@,
            false,
            text::string_views(resolved@),
        ),
{
    let ghost all = text::char_views(lines@);
    let ghost res = text::string_views(resolved@);
    let ghost goal = spliced_playlist(all, proxy_base@, false, res);
    let mut out = String::new();
    let mut next_is_playlist = false;
    let mut i: usize = 0;
    let mut k: usize = 0;
    assert(all.skip(0) == all);
    assert(res.skip(0) == res);
    assert(out@ + goal == goal);
    let total: usize = resolved.len();
    while i < lines.len()
        invariant
            i <= lines@.len(),
            total == resolved@.len(),
            k + playlist_uris(all.skip(i as int)).len() == resolved@.len(),
            all == text::char_views(lines@),
            res == text::string_views(resolved@),
            out@ + spliced_playlist(
                all.skip(i as int),
                proxy_base@,
                next_is_playlist,
                res.skip(k as int),
            ) == goal,
        decreases lines@.len() - i,
    {
        let line = lines[i].as_slice();
        let ghost rest = all.skip(i as int);
        assert(rest[0] == line@);
        assert(rest.drop_first() == all.skip(i + 1));
        let uris = list_line_uris(line);
        let n: usize = uris.len();
        assert(n == line_uris(line@).len()) by {
            assert(text::char_views(uris@).len() == uris@.len());
        }
        assert(k + n <= total);
        let part: &[String] = &resolved[k..k + n];
        assert(text::string_views(part@) == res.skip(k as int).take(n as int));
        let rewritten = splice_line(line, proxy_base, next_is_playlist, part);
        let ghost before = out@;
        out.append(rewritten.as_str());
        out.push('\n');
        let trimmed = text::trim(line);
        if trimmed.len() > 0 {
            next_is_playlist = trimmed[0] == '#' && text::begins(trimmed, "#EXT-X-STREAM-INF");
        }
        assert(res.skip(k as int).skip(n as int) == res.skip(k + n));
        k += n;
        i += 1;
        let ghost tail = spliced_playlist(
            all.skip(i as int),
            proxy_base@,
            next_is_playlist,
            res.skip(k as int),
        );
        assert(out@ + tail == before + (rewritten@ + seq!['\n'] + tail));
    }
    assert(out@ == goal);
    out
}

/// Rewrites the playlist at `playlist_url` so that its references lead through the
/// proxy. A playlist whose own URL is refused stays as it is.
pub fn rewrite_hls_playlist(body: &str, playlist_url: &str, proxy_base: &str) -> (r: String)
    ensures
        r@ == rewritten_playlist(body@, playlist_url@, proxy_base@),
{
    if boundary::parse_url(playlist_url).is_none() {
        return body.to_owned();
    }
    let b = text::chars_of(body);
    let lines = text::split_lines(b.as_slice());
    let uris = list_playlist_uris(&lines);
    let resolved = resolve_all(playlist_url, &uris);
    assert(text::string_views(resolved@).len() == resolved@.len());
    assert(text::char_views(uris@).len() == uris@.len());
    splice_playlist(&lines, proxy_base, resolved.as_slice())
}

} // verus!
