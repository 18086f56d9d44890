//! What holds of rewritten playlists as a whole.
use crate::boundary;
use crate::hls;
use crate::text;
use crate::text_laws;
use vstd::prelude::*;

verus! {

/// The number that a hexadecimal digit with capital letters writes.
pub open spec fn hex_value(c: char) -> int {
    if c <= '9' {
        c as int - 0x30
    } else {
        c as int - 0x41 + 10
    }
}

/// The bytes that a text in percent encoding stands for.
pub open spec fn percent_decoded(s: Seq<char>) -> Seq<u8>
    decreases s.len(),
{
    if s.len() == 0 {
        Seq::empty()
    } else if s[0] == '%' && s.len() >= 3 {
        seq![(16 * hex_value(s[1]) + hex_value(s[2])) as u8] + percent_decoded(s.skip(3))
    } else {
        seq![s[0] as u8] + percent_decoded(s.drop_first())
    }
}

/// The characters that have no meaning of their own inside a query.
pub open spec fn is_query_safe(c: char) -> bool {
    ||| '0' <= c <= '9'
    ||| 'A' <= c <= 'Z'
    ||| 'a' <= c <= 'z'
    ||| c == '-'
    ||| c == '.'
    ||| c == '_'
    ||| c == '~'
    ||| c == '%'
}

/// Decoding what percent encoding made gives the bytes back, and the encoding
/// holds no character that could end a query or separate its fields.
#[verifier::rlimit(30)]
pub proof fn percent_encoding_is_undone(bytes: Seq<u8>)
    ensures
        percent_decoded(boundary::percent_encoded(bytes)) == bytes,
        forall|i: int|
            0 <= i < boundary::percent_encoded(bytes).len() ==> is_query_safe(
                #[trigger] boundary::percent_encoded(bytes)[i],
            ),
    decreases bytes.len(),
{
    let s = boundary::percent_encoded(bytes);
    if bytes.len() > 0 {
        let b = bytes[0];
        let rest = bytes.drop_first();
        let tail = boundary::percent_encoded(rest);
        percent_encoding_is_undone(rest);
        let head = boundary::percent_encoded_byte(b);
        assert(s == head + tail);
        if boundary::is_unreserved(b) {
            assert(s.drop_first() == tail);
            assert(s[0] == b as char);
            assert(percent_decoded(s) == seq![b] + percent_decoded(tail));
        } else {
            let high = b as int / 16;
            let low = b as int % 16;
            assert(s.skip(3) == tail);
            assert(s[0] == '%');
            assert(s[1] == boundary::hex_digit(high));
            assert(s[2] == boundary::hex_digit(low));
            assert(hex_value(s[1]) == high);
            assert(hex_value(s[2]) == low);
            assert(percent_decoded(s) == seq![b] + percent_decoded(tail));
        }
        assert(seq![b] + rest == bytes);
        assert forall|i: int| 0 <= i < s.len() implies is_query_safe(#[trigger] s[i]) by {
            if i >= head.len() {
                assert(s[i] == tail[i - head.len()]);
            } else {
                assert(s[i] == head[i]);
            }
        }
    } else {
        assert(percent_decoded(s) == bytes);
    }
}

/// The part of the proxy's address in front of the encoded URI.
pub open spec fn address_head(proxy_base: Seq<char>, playlist: bool) -> Seq<char> {
    proxy_base + "/"@ + (if playlist {
        "hls"@
    } else {
        "hls-seg"@
    }) + "?url="@
}

/// The proxy's address carries its target: what stands behind `?url=` decodes to
/// the bytes of the absolute URI, and nothing in it ends the query early.
pub proof fn address_carries_target(proxy_base: Seq<char>, playlist: bool, abs: Seq<char>)
    ensures
        text::starts_with(
            hls::wrapped_uri(proxy_base, playlist, abs),
            address_head(proxy_base, playlist),
        ),
        percent_decoded(
            hls::wrapped_uri(proxy_base, playlist, abs).skip(
                address_head(proxy_base, playlist).len() as int,
            ),
        ) == vstd::utf8::encode_utf8(abs),
        forall|i: int|
            address_head(proxy_base, playlist).len() <= i < hls::wrapped_uri(
                proxy_base,
                playlist,
                abs,
            ).len() ==> is_query_safe(#[trigger] hls::wrapped_uri(proxy_base, playlist, abs)[i]),
{
    let w = hls::wrapped_uri(proxy_base, playlist, abs);
    let h = address_head(proxy_base, playlist);
    let bytes = vstd::utf8::encode_utf8(abs);
    let e = boundary::percent_encoded(bytes);
    percent_encoding_is_undone(bytes);
    assert(w == h + e);
    assert(w.subrange(0, h.len() as int) == h);
    assert(w.skip(h.len() as int) == e);
}

/// Different targets have different addresses.
pub proof fn addresses_tell_targets_apart(
    proxy_base: Seq<char>,
    playlist: bool,
    one: Seq<char>,
    other: Seq<char>,
)
    requires
        hls::wrapped_uri(proxy_base, playlist, one) == hls::wrapped_uri(
            proxy_base,
            playlist,
            other,
        ),
    ensures
        one == other,
{
    address_carries_target(proxy_base, playlist, one);
    address_carries_target(proxy_base, playlist, other);
    vstd::utf8::encode_utf8_decode_utf8(one);
    vstd::utf8::encode_utf8_decode_utf8(other);
}

/// `s` holds no line feed.
pub open spec fn on_one_line(s: Seq<char>) -> bool {
    forall|i: int| 0 <= i < s.len() ==> #[trigger] s[i] != '\n'
}

/// No line of a text holds a line feed.
pub proof fn lines_hold_no_line_feed(s: Seq<char>)
    ensures
        forall|i: int| 0 <= i < text::lines(s).len() ==> on_one_line(#[trigger] text::lines(s)[i]),
    decreases s.len(),
{
    if s.len() > 0 {
        text::find_is_first(s, seq!['\n']);
        match text::find(s, seq!['\n']) {
            Some(i) => {
                let head = s.take(i);
                assert forall|j: int| 0 <= j < i implies #[trigger] s[j] != '\n' by {
                    if s[j] == '\n' {
                        assert(s.subrange(j, j + 1) == seq!['\n']);
                        assert(text::occurs_at(s, seq!['\n'], j));
                    }
                }
                assert(on_one_line(text::without_cr(head)));
                lines_hold_no_line_feed(s.skip(i + 1));
                let tail = text::lines(s.skip(i + 1));
                assert forall|k: int| 0 <= k < text::lines(s).len() implies on_one_line(
                    #[trigger] text::lines(s)[k],
                ) by {
                    if k > 0 {
                        assert(text::lines(s)[k] == tail[k - 1]);
                    }
                }
            },
            None => {
                assert forall|j: int| 0 <= j < s.len() implies #[trigger] s[j] != '\n' by {
                    if s[j] == '\n' {
                        assert(s.subrange(j, j + 1) == seq!['\n']);
                        assert(text::occurs_at(s, seq!['\n'], j));
                    }
                }
            },
        }
    }
}

/// Text on one line with a line feed behind it is one line of the whole.
pub proof fn lines_of_line_and_rest(line: Seq<char>, rest: Seq<char>)
    requires
        on_one_line(line),
    ensures
        text::lines(line + seq!['\n'] + rest) == seq![text::without_cr(line)] + text::lines(rest),
{
    let s = line + seq!['\n'] + rest;
    let n = line.len() as int;
    assert(s.subrange(n, n + 1) == seq!['\n']);
    assert forall|j: int| 0 <= j < n implies !#[trigger] text::occurs_at(s, seq!['\n'], j) by {
        assert(s[j] == line[j]);
        assert(s.subrange(j, j + 1)[0] == s[j]);
    }
    text::find_is_unique(s, seq!['\n'], n);
    assert(s.take(n) == line);
    assert(s.skip(n + 1) == rest);
}

/// Trimming keeps a text on one line.
proof fn trimmed_on_one_line(s: Seq<char>)
    requires
        on_one_line(s),
    ensures
        on_one_line(text::trimmed(s)),
{
    text::trimmed_start_is_suffix(s);
    let t = text::trimmed_start(s);
    assert forall|i: int| 0 <= i < t.len() implies #[trigger] t[i] != '\n' by {
        assert(t[i] == s[i + s.len() - t.len()]);
    }
    trimmed_end_on_one_line(t);
}

proof fn trimmed_end_on_one_line(s: Seq<char>)
    requires
        on_one_line(s),
    ensures
        on_one_line(text::trimmed_end(s)),
    decreases s.len(),
{
    if s.len() > 0 && text::is_white_space(s.last()) {
        assert forall|i: int| 0 <= i < s.drop_last().len() implies #[trigger] s.drop_last()[i]
            != '\n' by {
            assert(s.drop_last()[i] == s[i]);
        }
        trimmed_end_on_one_line(s.drop_last());
    }
}

/// Two texts on one line make one text on one line.
proof fn joined_on_one_line(a: Seq<char>, b: Seq<char>)
    requires
        on_one_line(a),
        on_one_line(b),
    ensures
        on_one_line(a + b),
{
    assert forall|i: int| 0 <= i < (a + b).len() implies #[trigger] (a + b)[i] != '\n' by {
        if i < a.len() {
            assert((a + b)[i] == a[i]);
        } else {
            assert((a + b)[i] == b[i - a.len()]);
        }
    }
}

/// The proxy's address is on one line where the proxy's base is.
proof fn address_on_one_line(proxy_base: Seq<char>, playlist: bool, abs: Seq<char>)
    requires
        on_one_line(proxy_base),
    ensures
        on_one_line(hls::wrapped_uri(proxy_base, playlist, abs)),
{
    reveal_strlit("/");
    reveal_strlit("hls");
    reveal_strlit("hls-seg");
    reveal_strlit("?url=");
    let kind = if playlist {
        "hls"@
    } else {
        "hls-seg"@
    };
    let bytes = vstd::utf8::encode_utf8(abs);
    let e = boundary::percent_encoded(bytes);
    percent_encoding_is_undone(bytes);
    assert(on_one_line(e)) by {
        assert forall|i: int| 0 <= i < e.len() implies #[trigger] e[i] != '\n' by {
            assert(is_query_safe(e[i]));
        }
    }
    joined_on_one_line(proxy_base, "/"@);
    joined_on_one_line(proxy_base + "/"@, kind);
    joined_on_one_line(proxy_base + "/"@ + kind, "?url="@);
    joined_on_one_line(proxy_base + "/"@ + kind + "?url="@, e);
}

/// A rewritten tag is on one line where the tag and the proxy's base are.
proof fn spliced_tag_on_one_line(
    s: Seq<char>,
    proxy_base: Seq<char>,
    as_playlist: bool,
    resolved: Seq<Seq<char>>,
)
    requires
        on_one_line(s),
        on_one_line(proxy_base),
    ensures
        on_one_line(hls::spliced_tag(s, proxy_base, as_playlist, resolved)),
    decreases s.len(),
{
    if let Some(i) = text::find(s, hls::uri_mark()) {
        let after = s.skip(i + 5);
        if let Some(e) = text::find(after, seq!['"']) {
            if 0 <= i && i + 5 <= s.len() && 0 <= e < after.len() {
                let abs = resolved[0];
                let playlist = hls::is_playlist_uri(as_playlist, abs);
                let tail = after.skip(e + 1);
                assert forall|j: int| 0 <= j < tail.len() implies #[trigger] tail[j] != '\n' by {
                    assert(tail[j] == s[j + e + 1 + i + 5]);
                }
                assert forall|j: int| 0 <= j < i implies #[trigger] s.take(i)[j] != '\n' by {
                    assert(s.take(i)[j] == s[j]);
                }
                spliced_tag_on_one_line(tail, proxy_base, as_playlist, resolved.drop_first());
                address_on_one_line(proxy_base, playlist, abs);
                let w = hls::wrapped_uri(proxy_base, playlist, abs);
                let rest = hls::spliced_tag(tail, proxy_base, as_playlist, resolved.drop_first());
                joined_on_one_line(s.take(i), hls::uri_mark());
                joined_on_one_line(s.take(i) + hls::uri_mark(), w);
                joined_on_one_line(s.take(i) + hls::uri_mark() + w, seq!['"']);
                joined_on_one_line(s.take(i) + hls::uri_mark() + w + seq!['"'], rest);
            }
        }
    }
}

/// A rewritten line is one line.
proof fn spliced_line_on_one_line(
    line: Seq<char>,
    proxy_base: Seq<char>,
    next_is_playlist: bool,
    resolved: Seq<Seq<char>>,
)
    requires
        on_one_line(line),
        on_one_line(proxy_base),
    ensures
        on_one_line(hls::spliced_line(line, proxy_base, next_is_playlist, resolved)),
{
    trimmed_on_one_line(line);
    spliced_tag_on_one_line(
        text::trimmed(line),
        proxy_base,
        hls::quotes_playlist(line),
        resolved,
    );
    address_on_one_line(
        proxy_base,
        hls::is_playlist_uri(next_is_playlist, resolved[0]),
        resolved[0],
    );
}

/// Whether a playlist is announced in front of line `i`.
pub open spec fn announced_before(lines: Seq<Seq<char>>, i: int, at_start: bool) -> bool
    decreases i,
{
    if i <= 0 {
        at_start
    } else {
        hls::announced_after(lines[i - 1], announced_before(lines, i - 1, at_start))
    }
}

/// The place in the list of a playlist's references at which those of line `i` start.
pub open spec fn uris_before(lines: Seq<Seq<char>>, i: int) -> int
    decreases i,
{
    if i <= 0 {
        0
    } else {
        uris_before(lines, i - 1) + hls::line_uris(lines[i - 1]).len()
    }
}

proof fn announced_before_step(lines: Seq<Seq<char>>, i: int, at_start: bool)
    requires
        0 < i <= lines.len(),
    ensures
        announced_before(lines, i, at_start) == announced_before(
            lines.drop_first(),
            i - 1,
            hls::announced_after(lines[0], at_start),
        ),
        uris_before(lines, i) == hls::line_uris(lines[0]).len() + uris_before(
            lines.drop_first(),
            i - 1,
        ),
    decreases i,
{
    if i > 1 {
        announced_before_step(lines, i - 1, at_start);
        assert(lines.drop_first()[i - 2] == lines[i - 1]);
    } else {
        assert(announced_before(lines, 0, at_start) == at_start);
        assert(uris_before(lines, 0) == 0);
        assert(uris_before(lines.drop_first(), 0) == 0);
    }
}

/// The part of `resolved` that belongs to line `i`.
pub open spec fn resolved_on_line(
    lines: Seq<Seq<char>>,
    i: int,
    resolved: Seq<Seq<char>>,
) -> Seq<Seq<char>> {
    resolved.skip(uris_before(lines, i)).take(hls::line_uris(lines[i]).len() as int)
}

proof fn uris_before_bound(lines: Seq<Seq<char>>, i: int)
    requires
        0 <= i <= lines.len(),
    ensures
        0 <= uris_before(lines, i) <= hls::playlist_uris(lines).len(),
        i < lines.len() ==> uris_before(lines, i) + hls::line_uris(lines[i]).len()
            <= hls::playlist_uris(lines).len(),
    decreases lines.len(),
{
    if i > 0 {
        announced_before_step(lines, i, false);
        uris_before_bound(lines.drop_first(), i - 1);
        if i < lines.len() {
            assert(lines.drop_first()[i - 1] == lines[i]);
        }
    }
}

/// A playlist is rewritten line for line: it comes out with as many lines as it
/// had, and line `i` is line `i` of the playlist with its own references replaced,
/// under the announcement that stands in front of it. (A carriage return at a
/// line's end belongs to the line's end.)
#[verifier::rlimit(30)]
pub proof fn playlist_is_rewritten_line_for_line(
    lines: Seq<Seq<char>>,
    proxy_base: Seq<char>,
    at_start: bool,
    resolved: Seq<Seq<char>>,
)
    requires
        on_one_line(proxy_base),
        forall|i: int| 0 <= i < lines.len() ==> on_one_line(#[trigger] lines[i]),
        resolved.len() == hls::playlist_uris(lines).len(),
    ensures
        text::lines(hls::spliced_playlist(lines, proxy_base, at_start, resolved)).len()
            == lines.len(),
        forall|i: int|
            0 <= i < lines.len() ==> #[trigger] text::lines(
                hls::spliced_playlist(lines, proxy_base, at_start, resolved),
            )[i] == text::without_cr(
                hls::spliced_line(
                    lines[i],
                    proxy_base,
                    announced_before(lines, i, at_start),
                    resolved_on_line(lines, i, resolved),
                ),
            ),
    decreases lines.len(),
{
    let out = hls::spliced_playlist(lines, proxy_base, at_start, resolved);
    if lines.len() > 0 {
        let n = hls::line_uris(lines[0]).len() as int;
        let rest = lines.drop_first();
        let next = hls::announced_after(lines[0], at_start);
        let head = hls::spliced_line(lines[0], proxy_base, at_start, resolved.take(n));
        let tail = hls::spliced_playlist(rest, proxy_base, next, resolved.skip(n));
        assert forall|i: int| 0 <= i < rest.len() implies on_one_line(#[trigger] rest[i]) by {
            assert(rest[i] == lines[i + 1]);
        }
        playlist_is_rewritten_line_for_line(rest, proxy_base, next, resolved.skip(n));
        spliced_line_on_one_line(lines[0], proxy_base, at_start, resolved.take(n));
        lines_of_line_and_rest(head, tail);
        assert(out == head + seq!['\n'] + tail);
        assert forall|i: int| 0 <= i < lines.len() implies #[trigger] text::lines(out)[i]
            == text::without_cr(
            hls::spliced_line(
                lines[i],
                proxy_base,
                announced_before(lines, i, at_start),
                resolved_on_line(lines, i, resolved),
            ),
        ) by {
            if i == 0 {
                assert(resolved.skip(0) == resolved);
                assert(uris_before(lines, 0) == 0);
                assert(announced_before(lines, 0, at_start) == at_start);
            } else {
                announced_before_step(lines, i, at_start);
                assert(text::lines(out)[i] == text::lines(tail)[i - 1]);
                assert(rest[i - 1] == lines[i]);
                let k = uris_before(rest, i - 1);
                uris_before_bound(rest, i - 1);
                assert(resolved.skip(n).skip(k) == resolved.skip(n + k));
            }
        }
    }
}

/// The references of a playlist are those of its lines, one line after the other.
proof fn uris_stand_in_line_order(lines: Seq<Seq<char>>, i: int, j: int)
    requires
        0 <= i < lines.len(),
        0 <= j < hls::line_uris(lines[i]).len(),
    ensures
        0 <= uris_before(lines, i) + j < hls::playlist_uris(lines).len(),
        hls::playlist_uris(lines)[uris_before(lines, i) + j] == hls::line_uris(lines[i])[j],
    decreases lines.len(),
{
    uris_before_bound(lines, i);
    if i > 0 {
        let rest = lines.drop_first();
        announced_before_step(lines, i, false);
        assert(rest[i - 1] == lines[i]);
        uris_stand_in_line_order(rest, i - 1, j);
    } else {
        assert(uris_before(lines, 0) == 0);
    }
}

/// The proxy's address for a reference never ends in a carriage return.
proof fn address_has_no_line_end(proxy_base: Seq<char>, playlist: bool, abs: Seq<char>)
    ensures
        text::without_cr(hls::wrapped_uri(proxy_base, playlist, abs)) == hls::wrapped_uri(
            proxy_base,
            playlist,
            abs,
        ),
{
    reveal_strlit("?url=");
    let bytes = vstd::utf8::encode_utf8(abs);
    let e = boundary::percent_encoded(bytes);
    let w = hls::wrapped_uri(proxy_base, playlist, abs);
    percent_encoding_is_undone(bytes);
    if e.len() > 0 {
        assert(w.last() == e[e.len() - 1]);
        assert(is_query_safe(e[e.len() - 1]));
    } else {
        assert(w.last() == "?url="@[4]);
    }
}

/// Rewriting a playlist keeps its lines. Blank lines, comments and tags without a
/// URI stay as they are, a tag with URIs has the proxy's addresses in their place,
/// and a URI line becomes the proxy's address for the URI: that of a playlist where a
/// tag announced one or the URI names one, that of a segment otherwise.
#[verifier::rlimit(30)]
pub proof fn rewriting_keeps_lines(
    body: Seq<char>,
    playlist_url: Seq<char>,
    proxy_base: Seq<char>,
)
    requires
        boundary::url_parse(playlist_url) is Some,
        on_one_line(proxy_base),
    ensures
        text::lines(hls::rewritten_playlist(body, playlist_url, proxy_base)).len() == text::lines(
            body,
        ).len(),
        forall|i: int|
            0 <= i < text::lines(body).len() ==> {
                let line = text::lines(body)[i];
                let out = #[trigger] text::lines(
                    hls::rewritten_playlist(body, playlist_url, proxy_base),
                )[i];
                let abs = hls::resolved_uri(playlist_url, text::trimmed(line));
                &&& hls::is_blank(line) ==> out == text::without_cr(line)
                &&& hls::is_tag(line) && !text::contains(text::trimmed(line), hls::uri_mark())
                    ==> out == text::without_cr(line)
                &&& hls::is_tag(line) && text::contains(text::trimmed(line), hls::uri_mark())
                    ==> out == text::without_cr(
                    hls::spliced_tag(
                        text::trimmed(line),
                        proxy_base,
                        hls::quotes_playlist(line),
                        hls::resolved_all(playlist_url, hls::tag_uris(text::trimmed(line))),
                    ),
                )
                &&& hls::is_uri_line(line) ==> out == hls::wrapped_uri(
                    proxy_base,
                    hls::is_playlist_uri(announced_before(text::lines(body), i, false), abs),
                    abs,
                )
            },
{
    let lines = text::lines(body);
    let uris = hls::playlist_uris(lines);
    let resolved = hls::resolved_all(playlist_url, uris);
    lines_hold_no_line_feed(body);
    playlist_is_rewritten_line_for_line(lines, proxy_base, false, resolved);
    let result = hls::rewritten_playlist(body, playlist_url, proxy_base);
    assert forall|i: int| 0 <= i < lines.len() implies {
        let line = lines[i];
        let out = #[trigger] text::lines(result)[i];
        let abs = hls::resolved_uri(playlist_url, text::trimmed(line));
        &&& hls::is_blank(line) ==> out == text::without_cr(line)
        &&& hls::is_tag(line) && !text::contains(text::trimmed(line), hls::uri_mark()) ==> out
            == text::without_cr(line)
        &&& hls::is_tag(line) && text::contains(text::trimmed(line), hls::uri_mark()) ==> out
            == text::without_cr(
            hls::spliced_tag(
                text::trimmed(line),
                proxy_base,
                hls::quotes_playlist(line),
                hls::resolved_all(playlist_url, hls::tag_uris(text::trimmed(line))),
            ),
        )
        &&& hls::is_uri_line(line) ==> out == hls::wrapped_uri(
            proxy_base,
            hls::is_playlist_uri(announced_before(lines, i, false), abs),
            abs,
        )
    } by {
        let line = lines[i];
        let own = hls::resolved_all(playlist_url, hls::line_uris(line));
        uris_before_bound(lines, i);
        assert(resolved_on_line(lines, i, resolved) == own) by {
            assert forall|j: int| 0 <= j < own.len() implies resolved_on_line(
                lines,
                i,
                resolved,
            )[j] == own[j] by {
                uris_stand_in_line_order(lines, i, j);
            }
        }
        if hls::is_uri_line(line) {
            let abs = hls::resolved_uri(playlist_url, text::trimmed(line));
            assert(own[0] == abs);
            address_has_no_line_end(
                proxy_base,
                hls::is_playlist_uri(announced_before(lines, i, false), abs),
                abs,
            );
        }
    }
}

/// A playlist stays announced across blank lines.
proof fn announcement_outlasts_blank_lines(lines: Seq<Seq<char>>, i: int, j: int)
    requires
        0 <= i < j <= lines.len(),
        hls::is_tag(lines[i]),
        hls::announces_playlist(lines[i]),
        forall|k: int| i < k < j ==> hls::is_blank(#[trigger] lines[k]),
    ensures
        announced_before(lines, j, false),
    decreases j,
{
    if j > i + 1 {
        announcement_outlasts_blank_lines(lines, i, j - 1);
        assert(hls::is_blank(lines[j - 1]));
    }
}

/// The first URI behind a tag that announces a playlist leads to the proxy's
/// playlist address, whatever the URI looks like, with or without blank lines in
/// between.
pub proof fn announced_playlist_is_proxied_as_playlist(
    body: Seq<char>,
    playlist_url: Seq<char>,
    proxy_base: Seq<char>,
    i: int,
    j: int,
)
    requires
        boundary::url_parse(playlist_url) is Some,
        on_one_line(proxy_base),
        0 <= i < j < text::lines(body).len(),
        hls::is_tag(text::lines(body)[i]),
        hls::announces_playlist(text::lines(body)[i]),
        forall|k: int| i < k < j ==> hls::is_blank(#[trigger] text::lines(body)[k]),
        hls::is_uri_line(text::lines(body)[j]),
    ensures
        text::lines(hls::rewritten_playlist(body, playlist_url, proxy_base))[j]
            == hls::wrapped_uri(
            proxy_base,
            true,
            hls::resolved_uri(playlist_url, text::trimmed(text::lines(body)[j])),
        ),
{
    rewriting_keeps_lines(body, playlist_url, proxy_base);
    announcement_outlasts_blank_lines(text::lines(body), i, j);
}

/// `s` holds no quotation mark.
pub open spec fn holds_no_quote(s: Seq<char>) -> bool {
    forall|i: int| 0 <= i < s.len() ==> #[trigger] s[i] != '"'
}

/// The proxy's address holds no quotation mark where the proxy's base holds none.
proof fn address_holds_no_quote(proxy_base: Seq<char>, playlist: bool, abs: Seq<char>)
    requires
        holds_no_quote(proxy_base),
    ensures
        holds_no_quote(hls::wrapped_uri(proxy_base, playlist, abs)),
{
    reveal_strlit("/");
    reveal_strlit("hls");
    reveal_strlit("hls-seg");
    reveal_strlit("?url=");
    let w = hls::wrapped_uri(proxy_base, playlist, abs);
    let e = boundary::percent_encoded(vstd::utf8::encode_utf8(abs));
    let start = w.len() - e.len();
    percent_encoding_is_undone(vstd::utf8::encode_utf8(abs));
    assert forall|i: int| 0 <= i < w.len() implies #[trigger] w[i] != '"' by {
        if i >= start {
            assert(w[i] == e[i - start]);
            assert(is_query_safe(e[i - start]));
        } else if i >= proxy_base.len() {
            let middle = "/"@ + (if playlist {
                "hls"@
            } else {
                "hls-seg"@
            }) + "?url="@;
            assert(w[i] == middle[i - proxy_base.len()]);
        } else {
            assert(w[i] == proxy_base[i]);
        }
    }
}

/// The addresses that stand for references in a rewritten tag.
pub open spec fn addresses_of(
    proxy_base: Seq<char>,
    as_playlist: bool,
    resolved: Seq<Seq<char>>,
) -> Seq<Seq<char>> {
    resolved.map_values(
        |abs: Seq<char>|
            hls::wrapped_uri(proxy_base, hls::is_playlist_uri(as_playlist, abs), abs),
    )
}

/// The first quoted URI of a text that is made of a front, a mark, a quoted text and
/// the rest is that quoted text.
pub proof fn first_quoted_uri(front: Seq<char>, w: Seq<char>, rest: Seq<char>)
    requires
        forall|j: int|
            0 <= j < front.len() ==> !#[trigger] text::occurs_at(
                front + hls::uri_mark(),
                hls::uri_mark(),
                j,
            ),
        holds_no_quote(w),
    ensures
        hls::tag_uris(front + hls::uri_mark() + w + seq!['"'] + rest) == seq![w] + hls::tag_uris(
            rest,
        ),
{
    let mark = hls::uri_mark();
    let i = front.len() as int;
    let out = front + mark + w + seq!['"'] + rest;
    assert(out.subrange(i, i + 5) == mark);
    assert forall|j: int| 0 <= j < i implies !#[trigger] text::occurs_at(out, mark, j) by {
        if text::occurs_at(out, mark, j) {
            assert((front + mark).subrange(j, j + 5) == out.subrange(j, j + 5));
            assert(text::occurs_at(front + mark, mark, j));
        }
    }
    text::find_is_unique(out, mark, i);
    let behind = out.skip(i + 5);
    let n = w.len() as int;
    assert(behind == w + seq!['"'] + rest);
    assert(behind.subrange(n, n + 1) == seq!['"']);
    assert forall|j: int| 0 <= j < n implies !#[trigger] text::occurs_at(
        behind,
        seq!['"'],
        j,
    ) by {
        assert(behind.subrange(j, j + 1)[0] == w[j]);
    }
    text::find_is_unique(behind, seq!['"'], n);
    assert(behind.take(n) == w);
    assert(behind.skip(n + 1) == rest);
}

/// What a rewritten tag quotes are the proxy's addresses for what the tag quoted:
/// as many, and in the same order.
#[verifier::rlimit(30)]
pub proof fn rewritten_tag_quotes_addresses(
    s: Seq<char>,
    proxy_base: Seq<char>,
    as_playlist: bool,
    resolved: Seq<Seq<char>>,
)
    requires
        holds_no_quote(proxy_base),
        resolved.len() == hls::tag_uris(s).len(),
    ensures
        hls::tag_uris(hls::spliced_tag(s, proxy_base, as_playlist, resolved)) == addresses_of(
            proxy_base,
            as_playlist,
            resolved,
        ),
    decreases s.len(),
{
    let mark = hls::uri_mark();
    let out = hls::spliced_tag(s, proxy_base, as_playlist, resolved);
    text::find_is_first(s, mark);
    if let Some(i) = text::find(s, mark) {
        let after = s.skip(i + 5);
        text::find_is_first(after, seq!['"']);
        if let Some(e) = text::find(after, seq!['"']) {
            let abs = resolved[0];
            let w = hls::wrapped_uri(proxy_base, hls::is_playlist_uri(as_playlist, abs), abs);
            let tail = after.skip(e + 1);
            let rest = hls::spliced_tag(tail, proxy_base, as_playlist, resolved.drop_first());
            assert(hls::tag_uris(s) == seq![after.take(e)] + hls::tag_uris(tail));
            rewritten_tag_quotes_addresses(tail, proxy_base, as_playlist, resolved.drop_first());
            address_holds_no_quote(
                proxy_base,
                hls::is_playlist_uri(as_playlist, abs),
                abs,
            );
            let front = s.take(i);
            assert(out == front + mark + w + seq!['"'] + rest);
            assert(front + mark == s.take(i + 5)) by {
                assert(s.subrange(i, i + 5) == mark);
            }
            assert forall|j: int| 0 <= j < i implies !#[trigger] text::occurs_at(
                front + mark,
                mark,
                j,
            ) by {
                if text::occurs_at(front + mark, mark, j) {
                    assert(s.take(i + 5).subrange(j, j + 5) == s.subrange(j, j + 5));
                    assert(text::occurs_at(s, mark, j));
                }
            }
            first_quoted_uri(front, w, rest);
            assert(addresses_of(proxy_base, as_playlist, resolved) == seq![w] + addresses_of(
                proxy_base,
                as_playlist,
                resolved.drop_first(),
            ));
        } else {
            assert(addresses_of(proxy_base, as_playlist, resolved) == Seq::<Seq<char>>::empty());
        }
    } else {
        assert(addresses_of(proxy_base, as_playlist, resolved) == Seq::<Seq<char>>::empty());
    }
}

/// The mark of a quoted URI is `URI="`.
pub proof fn mark_is_written_out()
    ensures
        hls::uri_mark() == "URI=\""@,
{
    reveal_strlit("URI=\"");
}

/// A reference resolves to the whole text of the URL that it parses as; one that is no
/// URL of its own, to the URL that joining it to the playlist's URL gives; one that
/// neither takes stays as it is, without white space around it.
pub proof fn references_resolve_to_whole_urls(playlist_url: Seq<char>, uri: Seq<char>)
    ensures
        ({
            let t = text::trimmed(uri);
            let r = hls::resolved_uri(playlist_url, uri);
            &&& t.len() == 0 ==> r.len() == 0
            &&& t.len() > 0 ==> r == target_of(playlist_url, t)
        }),
{
}

/// What a reference that is trimmed and not empty leads to: the whole text of the URL
/// that it is, or that it makes with the playlist's URL, or else the reference itself.
pub open spec fn target_of(playlist_url: Seq<char>, t: Seq<char>) -> Seq<char> {
    match (boundary::url_parse(t), boundary::url_join(playlist_url, t)) {
        (Some(u), _) => u.href,
        (None, Some(joined)) => joined,
        (None, None) => t,
    }
}

/// `address` is the proxy's address of a playlist (or of a segment), and what stands
/// behind `?url=` in it decodes to `target`.
pub open spec fn leads_to(
    address: Seq<char>,
    proxy_base: Seq<char>,
    playlist: bool,
    target: Seq<char>,
) -> bool {
    let front = proxy_base + (if playlist {
        "/hls?url="@
    } else {
        "/hls-seg?url="@
    });
    &&& text::starts_with(address, front)
    &&& percent_decoded(address.skip(front.len() as int)) == vstd::utf8::encode_utf8(target)
    &&& forall|i: int|
        front.len() <= i < address.len() ==> is_query_safe(#[trigger] address[i])
}

/// The proxy's address of a URI leads to that URI.
pub proof fn address_leads_to_target(proxy_base: Seq<char>, playlist: bool, abs: Seq<char>)
    ensures
        leads_to(hls::wrapped_uri(proxy_base, playlist, abs), proxy_base, playlist, abs),
{
    reveal_strlit("/");
    reveal_strlit("hls");
    reveal_strlit("hls-seg");
    reveal_strlit("?url=");
    reveal_strlit("/hls?url=");
    reveal_strlit("/hls-seg?url=");
    let front = proxy_base + (if playlist {
        "/hls?url="@
    } else {
        "/hls-seg?url="@
    });
    assert(front == address_head(proxy_base, playlist));
    address_carries_target(proxy_base, playlist, abs);
}

/// Every URI line of a playlist leads through the proxy to what the URI stands for: a
/// URI that is a URL to the whole of that URL, with its port and its query, and any other
/// to the URL that it makes with the playlist's own. It leads there as a playlist where
/// its target names one.
pub proof fn uri_lines_lead_through_the_proxy(
    body: Seq<char>,
    playlist_url: Seq<char>,
    proxy_base: Seq<char>,
    i: int,
)
    requires
        boundary::url_parse(playlist_url) is Some,
        on_one_line(proxy_base),
        0 <= i < text::lines(body).len(),
        text::trimmed(text::lines(body)[i]).len() > 0,
        text::trimmed(text::lines(body)[i])[0] != '#',
    ensures
        ({
            let out = text::lines(hls::rewritten_playlist(body, playlist_url, proxy_base))[i];
            let target = target_of(playlist_url, text::trimmed(text::lines(body)[i]));
            &&& leads_to(out, proxy_base, true, target) || leads_to(
                out,
                proxy_base,
                false,
                target,
            )
            &&& text::contains(target, ".m3u8"@) ==> leads_to(out, proxy_base, true, target)
        }),
{
    rewriting_keeps_lines(body, playlist_url, proxy_base);
    let line = text::lines(body)[i];
    let t = text::trimmed(line);
    trimmed_again(line);
    let target = target_of(playlist_url, t);
    assert(hls::resolved_uri(playlist_url, t) == target);
    let playlist = hls::is_playlist_uri(announced_before(text::lines(body), i, false), target);
    let out = text::lines(hls::rewritten_playlist(body, playlist_url, proxy_base))[i];
    assert(hls::is_uri_line(line));
    assert(out == hls::wrapped_uri(proxy_base, playlist, target));
    address_leads_to_target(proxy_base, playlist, target);
}

proof fn trimmed_again(s: Seq<char>)
    ensures
        text::trimmed(text::trimmed(s)) == text::trimmed(s),
{
    let (from, to) = text_laws::trimming_leaves_the_middle(s);
    let t = text::trimmed(s);
    let none = Seq::<char>::empty();
    text_laws::trimming_takes_space_off(none, t, none);
    assert(none + t + none == t);
}

/// A URI line leads through the proxy as a playlist where the last line in front of it
/// that is not blank announces one, and as a segment where that line does not, or where
/// there is none, unless the target names a playlist.
pub proof fn announcements_choose_the_address(
    body: Seq<char>,
    playlist_url: Seq<char>,
    proxy_base: Seq<char>,
    i: int,
    j: int,
)
    requires
        boundary::url_parse(playlist_url) is Some,
        on_one_line(proxy_base),
        -1 <= j < i < text::lines(body).len(),
        text::trimmed(text::lines(body)[i]).len() > 0,
        text::trimmed(text::lines(body)[i])[0] != '#',
        j >= 0 ==> text::trimmed(text::lines(body)[j]).len() > 0,
        forall|k: int| j < k < i ==> text::trimmed(#[trigger] text::lines(body)[k]).len() == 0,
    ensures
        ({
            let out = text::lines(hls::rewritten_playlist(body, playlist_url, proxy_base))[i];
            let target = target_of(playlist_url, text::trimmed(text::lines(body)[i]));
            let announced = j >= 0 && text::starts_with(
                text::trimmed(text::lines(body)[j]),
                "#EXT-X-STREAM-INF"@,
            );
            leads_to(
                out,
                proxy_base,
                announced || text::contains(target, ".m3u8"@),
                target,
            )
        }),
{
    rewriting_keeps_lines(body, playlist_url, proxy_base);
    let lines = text::lines(body);
    let line = lines[i];
    let t = text::trimmed(line);
    trimmed_again(line);
    let target = target_of(playlist_url, t);
    assert(hls::resolved_uri(playlist_url, t) == target);
    let announced = j >= 0 && text::starts_with(text::trimmed(lines[j]), "#EXT-X-STREAM-INF"@);
    if announced {
        reveal_strlit("#EXT-X-STREAM-INF");
        let tag = text::trimmed(lines[j]);
        assert(tag.subrange(0, "#EXT-X-STREAM-INF"@.len() as int)[0] == '#');
        assert(tag[0] == '#');
    }
    announcement_is_the_last(lines, i, j);
    let playlist = hls::is_playlist_uri(announced_before(lines, i, false), target);
    assert(hls::is_uri_line(line));
    address_leads_to_target(proxy_base, playlist, target);
}

proof fn announcement_is_the_last(lines: Seq<Seq<char>>, i: int, j: int)
    requires
        -1 <= j < i <= lines.len(),
        j >= 0 ==> text::trimmed(lines[j]).len() > 0,
        forall|k: int| j < k < i ==> text::trimmed(#[trigger] lines[k]).len() == 0,
    ensures
        announced_before(lines, i, false) == (j >= 0 && text::trimmed(lines[j])[0] == '#'
            && text::starts_with(text::trimmed(lines[j]), "#EXT-X-STREAM-INF"@)),
    decreases i,
{
    if i - 1 > j {
        announcement_is_the_last(lines, i - 1, j);
        assert(hls::is_blank(lines[i - 1]));
    } else {
        assert(i - 1 == j);
        if j >= 0 {
            assert(!hls::is_blank(lines[j]));
        } else {
            assert(announced_before(lines, 0, false) == false);
        }
    }
}

/// Blank lines, and tags that hold no `URI="`, come out as they were.
pub proof fn other_lines_stay(
    body: Seq<char>,
    playlist_url: Seq<char>,
    proxy_base: Seq<char>,
    i: int,
)
    requires
        boundary::url_parse(playlist_url) is Some,
        on_one_line(proxy_base),
        0 <= i < text::lines(body).len(),
        ({
            let t = text::trimmed(text::lines(body)[i]);
            t.len() == 0 || (t[0] == '#' && !text::contains(t, "URI=\""@))
        }),
        text::lines(body)[i].len() > 0 ==> text::lines(body)[i].last() != '\r',
    ensures
        text::lines(hls::rewritten_playlist(body, playlist_url, proxy_base))[i] == text::lines(
            body,
        )[i],
{
    rewriting_keeps_lines(body, playlist_url, proxy_base);
    mark_is_written_out();
}

/// The rewritten form of a tag of the playlist at `playlist_url`.
pub open spec fn rewritten_tag(
    tag: Seq<char>,
    playlist_url: Seq<char>,
    proxy_base: Seq<char>,
    as_playlist: bool,
) -> Seq<char> {
    hls::spliced_tag(
        tag,
        proxy_base,
        as_playlist,
        hls::resolved_all(playlist_url, hls::tag_uris(tag)),
    )
}

/// A tag that quotes URIs comes out as the rewritten form of what is trimmed of it. What
/// it quotes are playlists where the tag is for media, for frames or for session data.
pub proof fn quoting_tags_are_rewritten(
    body: Seq<char>,
    playlist_url: Seq<char>,
    proxy_base: Seq<char>,
    i: int,
)
    requires
        boundary::url_parse(playlist_url) is Some,
        on_one_line(proxy_base),
        0 <= i < text::lines(body).len(),
        text::trimmed(text::lines(body)[i]).len() > 0,
        text::trimmed(text::lines(body)[i])[0] == '#',
        text::contains(text::trimmed(text::lines(body)[i]), "URI=\""@),
    ensures
        ({
            let out = text::lines(hls::rewritten_playlist(body, playlist_url, proxy_base))[i];
            let t = text::trimmed(text::lines(body)[i]);
            out == text::without_cr(
                rewritten_tag(
                    t,
                    playlist_url,
                    proxy_base,
                    text::starts_with(t, "#EXT-X-MEDIA"@) || text::starts_with(
                        t,
                        "#EXT-X-I-FRAME-STREAM-INF"@,
                    ) || text::starts_with(t, "#EXT-X-SESSION-DATA"@),
                ),
            )
        }),
{
    rewriting_keeps_lines(body, playlist_url, proxy_base);
    mark_is_written_out();
}

/// A tag is rewritten piece by piece: what stands in front of a quoted URI stays, the URI
/// gives way to the proxy's address of what it stands for, and the rest is rewritten in
/// turn. The address is that of a playlist where the tag says so or the target names one,
/// and that of a segment otherwise.
pub proof fn tags_are_rewritten_in_turn(
    front: Seq<char>,
    uri: Seq<char>,
    rest: Seq<char>,
    playlist_url: Seq<char>,
    proxy_base: Seq<char>,
    as_playlist: bool,
) -> (address: Seq<char>)
    requires
        forall|j: int|
            0 <= j < front.len() ==> !#[trigger] text::occurs_at(
                front + "URI=\""@,
                "URI=\""@,
                j,
            ),
        holds_no_quote(uri),
    ensures
        rewritten_tag(
            front + "URI=\""@ + uri + seq!['"'] + rest,
            playlist_url,
            proxy_base,
            as_playlist,
        ) == front + "URI=\""@ + address + seq!['"'] + rewritten_tag(
            rest,
            playlist_url,
            proxy_base,
            as_playlist,
        ),
        ({
            let t = text::trimmed(uri);
            let target = if t.len() == 0 {
                t
            } else {
                target_of(playlist_url, t)
            };
            leads_to(
                address,
                proxy_base,
                as_playlist || text::contains(target, ".m3u8"@),
                target,
            )
        }),
{
    mark_is_written_out();
    let mark = hls::uri_mark();
    let s = front + mark + uri + seq!['"'] + rest;
    let i = front.len() as int;
    let n = uri.len() as int;
    first_quoted_uri(front, uri, rest);
    let abs = hls::resolved_uri(playlist_url, uri);
    let uris = hls::tag_uris(s);
    let resolved = hls::resolved_all(playlist_url, uris);
    assert(uris[0] == uri);
    assert(uris.drop_first() == hls::tag_uris(rest));
    assert(resolved[0] == abs);
    assert(resolved.drop_first() == hls::resolved_all(playlist_url, hls::tag_uris(rest)));
    assert(s.subrange(i, i + 5) == mark);
    assert forall|j: int| 0 <= j < i implies !#[trigger] text::occurs_at(s, mark, j) by {
        if text::occurs_at(s, mark, j) {
            assert((front + mark).subrange(j, j + 5) == s.subrange(j, j + 5));
            assert(text::occurs_at(front + mark, mark, j));
        }
    }
    text::find_is_unique(s, mark, i);
    let after = s.skip(i + 5);
    assert(after == uri + seq!['"'] + rest);
    assert(after.subrange(n, n + 1) == seq!['"']);
    assert forall|j: int| 0 <= j < n implies !#[trigger] text::occurs_at(
        after,
        seq!['"'],
        j,
    ) by {
        assert(after.subrange(j, j + 1)[0] == uri[j]);
    }
    text::find_is_unique(after, seq!['"'], n);
    assert(s.take(i) == front);
    assert(after.skip(n + 1) == rest);
    let playlist = hls::is_playlist_uri(as_playlist, abs);
    address_leads_to_target(proxy_base, playlist, abs);
    let t = text::trimmed(uri);
    if t.len() == 0 {
        assert(abs == t);
    }
    hls::wrapped_uri(proxy_base, playlist, abs)
}

/// A tag without a quoted URI, or with one whose quotation mark is not closed, stays.
pub proof fn unquoted_tags_stay(
    front: Seq<char>,
    open: Seq<char>,
    playlist_url: Seq<char>,
    proxy_base: Seq<char>,
    as_playlist: bool,
)
    requires
        holds_no_quote(open),
        forall|j: int|
            0 <= j < front.len() ==> !#[trigger] text::occurs_at(
                front + "URI=\""@,
                "URI=\""@,
                j,
            ),
    ensures
        rewritten_tag(front + "URI=\""@ + open, playlist_url, proxy_base, as_playlist) == front
            + "URI=\""@ + open,
        !text::contains(front, "URI=\""@) ==> rewritten_tag(
            front,
            playlist_url,
            proxy_base,
            as_playlist,
        ) == front,
{
    mark_is_written_out();
    let mark = hls::uri_mark();
    let s = front + mark + open;
    let i = front.len() as int;
    assert(s.subrange(i, i + 5) == mark);
    assert forall|j: int| 0 <= j < i implies !#[trigger] text::occurs_at(s, mark, j) by {
        if text::occurs_at(s, mark, j) {
            assert((front + mark).subrange(j, j + 5) == s.subrange(j, j + 5));
            assert(text::occurs_at(front + mark, mark, j));
        }
    }
    text::find_is_unique(s, mark, i);
    let after = s.skip(i + 5);
    assert(after == open);
    text::find_is_first(open, seq!['"']);
    if let Some(e) = text::find(open, seq!['"']) {
        assert(open.subrange(e, e + 1)[0] == open[e]);
    }
    text::find_is_first(front, mark);
}

/// A playlist whose own URL is refused stays as it is.
pub proof fn playlists_without_url_stay(
    body: Seq<char>,
    playlist_url: Seq<char>,
    proxy_base: Seq<char>,
)
    requires
        boundary::url_parse(playlist_url) is None,
    ensures
        hls::rewritten_playlist(body, playlist_url, proxy_base) == body,
{
}

/// Every line of a rewritten playlist has its line feed, the last one too.
pub proof fn rewritten_lines_have_their_end(
    body: Seq<char>,
    playlist_url: Seq<char>,
    proxy_base: Seq<char>,
)
    requires
        boundary::url_parse(playlist_url) is Some,
    ensures
        ({
            let out = hls::rewritten_playlist(body, playlist_url, proxy_base);
            if text::lines(body).len() == 0 {
                out.len() == 0
            } else {
                out.len() > 0 && out.last() == '\n'
            }
        }),
{
    let lines = text::lines(body);
    spliced_lines_have_their_end(
        lines,
        proxy_base,
        false,
        hls::resolved_all(playlist_url, hls::playlist_uris(lines)),
    );
}

proof fn spliced_lines_have_their_end(
    lines: Seq<Seq<char>>,
    proxy_base: Seq<char>,
    at_start: bool,
    resolved: Seq<Seq<char>>,
)
    ensures
        ({
            let out = hls::spliced_playlist(lines, proxy_base, at_start, resolved);
            if lines.len() == 0 {
                out.len() == 0
            } else {
                out.len() > 0 && out.last() == '\n'
            }
        }),
    decreases lines.len(),
{
    if lines.len() > 0 {
        let n = hls::line_uris(lines[0]).len() as int;
        let next = hls::announced_after(lines[0], at_start);
        let rest = hls::spliced_playlist(lines.drop_first(), proxy_base, next, resolved.skip(n));
        spliced_lines_have_their_end(lines.drop_first(), proxy_base, next, resolved.skip(n));
        let out = hls::spliced_playlist(lines, proxy_base, at_start, resolved);
        if rest.len() > 0 {
            assert(out.last() == rest.last());
        }
    }
}

} // verus!
