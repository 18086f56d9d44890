//! Destinations that never go through a proxy: this machine and the private networks.
use crate::decimal;
use crate::text;
use vstd::prelude::*;

verus! {

/// The stretches of `s` between the occurrences of `c`.
pub open spec fn fields(s: Seq<char>, c: char) -> Seq<Seq<char>>
    decreases s.len(),
{
    match text::find(s, seq![c]) {
        Some(i) => if 0 <= i < s.len() {
            seq![s.take(i)] + fields(s.skip(i + 1), c)
        } else {
            seq![s]
        },
        None => seq![s],
    }
}

/// The number that `s` writes as one part of an IPv4 address: up to 255, and without
/// leading zeros.
pub open spec fn octet(s: Seq<char>) -> Option<u8> {
    if decimal::is_digits(s) && s.len() <= 3 && (s.len() > 1 ==> s[0] != '0') && decimal::number(s)
        <= u8::MAX {
        Some(decimal::number(s) as u8)
    } else {
        None
    }
}

/// The four parts of the IPv4 address that `s` writes.
pub open spec fn ipv4(s: Seq<char>) -> Option<(u8, u8, u8, u8)> {
    let f = fields(s, '.');
    if f.len() == 4 {
        match (octet(f[0]), octet(f[1]), octet(f[2]), octet(f[3])) {
            (Some(a), Some(b), Some(c), Some(d)) => Some((a, b, c, d)),
            _ => None,
        }
    } else {
        None
    }
}

/// An IPv4 address with these parts is this machine's own (127.0.0.1) or one of a
/// private network (10/8, 172.16/12, 192.168/16).
pub open spec fn is_local_ipv4(a: u8, b: u8, c: u8, d: u8) -> bool {
    (a == 127 && b == 0 && c == 0 && d == 1) || a == 10 || (a == 172 && 16 <= b <= 31) || (a == 192 && b == 168)
}

/// `host` without the brackets around it.
pub open spec fn unbracketed(host: Seq<char>) -> Seq<char> {
    if host.len() >= 2 && host[0] == '[' && host.last() == ']' {
        host.subrange(1, host.len() - 1)
    } else {
        host
    }
}

/// A host that is this machine or stands in a private network.
pub open spec fn is_local_destination(host: Seq<char>) -> bool {
    ||| text::lowered(host) == "localhost"@
    ||| unbracketed(host) == "::1"@
    ||| ipv4(host) matches Some((a, b, c, d)) && is_local_ipv4(a, b, c, d)
}

/// The stretches of `s` between the occurrences of `c`.
fn split_fields(s: &[char], c: char) -> (r: Vec<Vec<char>>)
    ensures
        text::char_views(r@) == fields(s@, c),
{
    let mut r: Vec<Vec<char>> = Vec::new();
    let mut rest: &[char] = s;
    assert(text::char_views(r@) + fields(rest@, c) == fields(s@, c));
    loop
        invariant
            text::char_views(r@) + fields(rest@, c) == fields(s@, c),
        decreases rest@.len(),
    {
        let ghost before = text::char_views(r@);
        let ghost whole = rest@;
        match text::find_char(rest, c) {
            Some(i) => {
                let field: &[char] = &rest[0..i];
                assert(field@ == whole.take(i as int));
                r.push(vstd::slice::slice_to_vec(field));
                let end: usize = rest.len();
                rest = &rest[i + 1..end];
                assert(rest@ == whole.skip(i + 1));
                assert(text::char_views(r@) == before.push(field@));
                assert(before.push(field@) + fields(rest@, c) == before + fields(whole, c));
            },
            None => {
                r.push(vstd::slice::slice_to_vec(rest));
                assert(text::char_views(r@) == before.push(whole));
                assert(before.push(whole) == before + fields(whole, c));
                return r;
            },
        }
    }
}

/// Reads one part of an IPv4 address.
fn read_octet(s: &[char]) -> (r: Option<u8>)
    ensures
        r == octet(s@),
{
    if s.len() == 0 || s.len() > 3 {
        return None;
    }
    if s[0] == '+' || (s.len() > 1 && s[0] == '0') {
        assert(s@[0] == '+' ==> !decimal::is_digit(s@[0]));
        return None;
    }
    match decimal::parse_port(s) {
        Some(n) => if n <= 255 {
            Some(n as u8)
        } else {
            None
        },
        None => None,
    }
}

/// The four parts of the IPv4 address that `s` writes.
fn read_ipv4(s: &[char]) -> (r: Option<(u8, u8, u8, u8)>)
    ensures
        r == ipv4(s@),
{
    let parts = split_fields(s, '.');
    assert(text::char_views(parts@).len() == parts@.len());
    if parts.len() != 4 {
        return None;
    }
    let ghost f = fields(s@, '.');
    assert(f[0] == parts@[0]@ && f[1] == parts@[1]@ && f[2] == parts@[2]@ && f[3] == parts@[3]@);
    match (
        read_octet(parts[0].as_slice()),
        read_octet(parts[1].as_slice()),
        read_octet(parts[2].as_slice()),
        read_octet(parts[3].as_slice()),
    ) {
        (Some(a), Some(b), Some(c), Some(d)) => Some((a, b, c, d)),
        _ => None,
    }
}

/// Takes the brackets off a host.
fn without_brackets(host: &[char]) -> (r: &[char])
    ensures
        r@ == unbracketed(host@),
{
    let n: usize = host.len();
    if n >= 2 && host[0] == '[' && host[n - 1] == ']' {
        &host[1..n - 1]
    } else {
        host
    }
}

/// The host to connect to, as the system's resolver takes it: an IPv6 address comes
/// without the brackets that a URL puts around it.
pub fn dial_host(host: &str) -> (r: String)
    ensures
        r@ == unbracketed(host@),
{
    let h = text::chars_of(host);
    text::string_of(without_brackets(h.as_slice()))
}

/// Tells whether a host is this machine or stands in a private network.
pub fn is_local_host(host: &str) -> (r: bool)
    ensures
        r == is_local_destination(host@),
{
    let h = text::chars_of(host);
    let s = h.as_slice();
    let low = text::lower_text(s);
    if text::is_text(low.as_slice(), "localhost") || text::is_text(without_brackets(s), "::1") {
        return true;
    }
    match read_ipv4(s) {
        Some((a, b, c, d)) => (a == 127 && b == 0 && c == 0 && d == 1) || a == 10 || (a == 172
            && 16 <= b && b <= 31) || (a == 192 && b == 168),
        None => false,
    }
}

/// An IPv4 address in its usual notation.
pub open spec fn dotted(a: u8, b: u8, c: u8, d: u8) -> Seq<char> {
    decimal::decimal(a as nat) + seq!['.'] + (decimal::decimal(b as nat) + seq!['.'] + (
    decimal::decimal(c as nat) + seq!['.'] + decimal::decimal(d as nat)))
}

proof fn octet_of_decimal(n: u8)
    ensures
        octet(decimal::decimal(n as nat)) == Some(n),
        text::find(decimal::decimal(n as nat), seq!['.']) is None,
        fields(decimal::decimal(n as nat), '.') == seq![decimal::decimal(n as nat)],
{
    let s = decimal::decimal(n as nat);
    decimal::decimal_writes_number(n as nat);
    reveal_with_fuel(decimal::decimal, 3);
    if n >= 100 {
        assert(s.len() == 3 && s[0] == decimal::digit((n / 100) as nat));
    } else if n >= 10 {
        assert(s.len() == 2 && s[0] == decimal::digit((n / 10) as nat));
    }
    text::find_is_first(s, seq!['.']);
    if let Some(i) = text::find(s, seq!['.']) {
        assert(s.subrange(i, i + 1)[0] == s[i]);
        assert(decimal::is_digit(s[i]));
    }
}

proof fn octet_and_rest(n: u8, rest: Seq<char>)
    ensures
        fields(decimal::decimal(n as nat) + seq!['.'] + rest, '.') == seq![
            decimal::decimal(n as nat),
        ] + fields(rest, '.'),
{
    let w = decimal::decimal(n as nat);
    let s = w + seq!['.'] + rest;
    let k = w.len() as int;
    decimal::decimal_writes_number(n as nat);
    assert(s.subrange(k, k + 1) == seq!['.']);
    assert forall|j: int| 0 <= j < k implies !#[trigger] text::occurs_at(s, seq!['.'], j) by {
        assert(s.subrange(j, j + 1)[0] == w[j]);
        assert(decimal::is_digit(w[j]));
    }
    text::find_is_unique(s, seq!['.'], k);
    assert(s.take(k) == w);
    assert(s.skip(k + 1) == rest);
}

/// An IPv4 address in its usual notation is read as what it is, and is local exactly
/// where it is this machine's own or one of a private network.
pub proof fn address_ranges_are_local(a: u8, b: u8, c: u8, d: u8)
    ensures
        ipv4(dotted(a, b, c, d)) == Some((a, b, c, d)),
        is_local_destination(dotted(a, b, c, d)) <==> ((a == 127 && b == 0 && c == 0 && d == 1) || a
            == 10 || (a == 172 && 16 <= b < 32) || (a == 192 && b == 168)),
{
    let s = dotted(a, b, c, d);
    let da = decimal::decimal(a as nat);
    let db = decimal::decimal(b as nat);
    let dc = decimal::decimal(c as nat);
    let dd = decimal::decimal(d as nat);
    octet_of_decimal(a);
    octet_of_decimal(b);
    octet_of_decimal(c);
    octet_of_decimal(d);
    octet_and_rest(c, dd);
    octet_and_rest(b, dc + seq!['.'] + dd);
    octet_and_rest(a, db + seq!['.'] + (dc + seq!['.'] + dd));
    assert(fields(s, '.') == seq![da, db, dc, dd]);
    decimal::decimal_writes_number(a as nat);
    assert(s[0] == da[0]);
    assert(decimal::is_digit(s[0]));
    reveal_strlit("localhost");
    reveal_strlit("::1");
    assert("localhost"@[0] == 'l');
    assert(text::lowered(s)[0] == s[0]);
    assert(unbracketed(s) == s);
    assert("::1"@[0] == ':');
}

/// This machine under its other names is local: `localhost` in any case, and `::1` with
/// or without brackets.
pub proof fn names_of_this_machine_are_local(host: Seq<char>)
    requires
        text::lowered(host) == "localhost"@ || host == "::1"@ || host == "["@ + "::1"@ + "]"@,
    ensures
        is_local_destination(host),
{
    reveal_strlit("::1");
    reveal_strlit("[");
    reveal_strlit("]");
    if host == "["@ + "::1"@ + "]"@ {
        assert(host.subrange(1, host.len() - 1) == "::1"@);
    }
}

/// Digits without leading zeros are the decimal notation of the number that they write.
proof fn octet_is_its_decimal(s: Seq<char>, n: u8)
    requires
        octet(s) == Some(n),
    ensures
        s == decimal::decimal(n as nat),
{
    reveal_with_fuel(decimal::number, 4);
    reveal_with_fuel(decimal::decimal, 3);
    assert(decimal::is_digit(s[0]));
    let x = s[0] as int - 48;
    if s.len() == 1 {
        assert(s.drop_last().len() == 0);
        assert(n == x);
        assert(s == seq![decimal::digit(n as nat)]);
    } else if s.len() == 2 {
        assert(decimal::is_digit(s[1]));
        let y = s[1] as int - 48;
        assert(s.drop_last() == seq![s[0]]);
        assert(s.drop_last().drop_last().len() == 0);
        assert(n == 10 * x + y);
        assert(n / 10 == x && n % 10 == y);
        assert(s == decimal::decimal(n as nat));
    } else {
        assert(decimal::is_digit(s[1]));
        assert(decimal::is_digit(s[2]));
        let y = s[1] as int - 48;
        let z = s[2] as int - 48;
        assert(s.drop_last() == seq![s[0], s[1]]);
        assert(s.drop_last().drop_last() == seq![s[0]]);
        assert(s.drop_last().drop_last().drop_last().len() == 0);
        assert(n == 10 * (10 * x + y) + z);
        assert(n / 10 == 10 * x + y && n % 10 == z);
        assert(s == decimal::decimal(n as nat));
    }
}

proof fn fields_make_the_whole(s: Seq<char>, c: char)
    ensures
        fields(s, c).len() > 0,
        fields(s, c).len() == 1 ==> s == fields(s, c)[0],
        fields(s, c).len() > 1 ==> {
            let rest = s.skip(fields(s, c)[0].len() as int + 1);
            &&& s == fields(s, c)[0] + seq![c] + rest
            &&& fields(rest, c) == fields(s, c).drop_first()
        },
    decreases s.len(),
{
    text::find_is_first(s, seq![c]);
    if let Some(i) = text::find(s, seq![c]) {
        assert(s.subrange(i, i + 1)[0] == s[i]);
        let rest = s.skip(i + 1);
        fields_make_the_whole(rest, c);
        assert(s == s.take(i) + seq![c] + rest);
        assert(fields(s, c).drop_first() == fields(rest, c));
    }
}

/// A host is local only where it is one of the names of this machine or an IPv4 address
/// in its usual notation.
pub proof fn local_hosts_are_names_or_addresses(host: Seq<char>)
    requires
        is_local_destination(host),
    ensures
        text::lowered(host) == "localhost"@ || host == "::1"@ || host == "["@ + "::1"@ + "]"@ || (
        ipv4(host) matches Some((a, b, c, d)) && host == dotted(a, b, c, d)),
{
    reveal_strlit("[");
    reveal_strlit("]");
    reveal_strlit("::1");
    if unbracketed(host) == "::1"@ && host != "::1"@ {
        assert(host == "["@ + host.subrange(1, host.len() - 1) + "]"@);
    }
    if let Some((a, b, c, d)) = ipv4(host) {
        let f = fields(host, '.');
        fields_make_the_whole(host, '.');
        let r1 = host.skip(f[0].len() as int + 1);
        fields_make_the_whole(r1, '.');
        let f1 = fields(r1, '.');
        assert(f1[0] == f[1] && f1[1] == f[2] && f1[2] == f[3]);
        let r2 = r1.skip(f1[0].len() as int + 1);
        fields_make_the_whole(r2, '.');
        let f2 = fields(r2, '.');
        assert(f2[0] == f[2] && f2[1] == f[3]);
        let r3 = r2.skip(f2[0].len() as int + 1);
        fields_make_the_whole(r3, '.');
        assert(fields(r3, '.')[0] == f[3]);
        octet_is_its_decimal(f[0], a);
        octet_is_its_decimal(f[1], b);
        octet_is_its_decimal(f[2], c);
        octet_is_its_decimal(f[3], d);
    }
}

/// Only a pair of brackets is taken off a host, and nothing else.
pub proof fn brackets_are_taken_off(inner: Seq<char>, host: Seq<char>)
    ensures
        unbracketed("["@ + inner + "]"@) == inner,
        host.len() > 0 && host[0] != '[' ==> unbracketed(host) == host,
        host.len() > 0 && host.last() != ']' ==> unbracketed(host) == host,
{
    reveal_strlit("[");
    reveal_strlit("]");
    let s = "["@ + inner + "]"@;
    assert(s.subrange(1, s.len() - 1) == inner);
}

} // verus!
