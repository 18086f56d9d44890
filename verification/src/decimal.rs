//! Numbers in decimal notation.
use vstd::prelude::*;

verus! {

/// `c` is one of the ten decimal digits.
pub open spec fn is_digit(c: char) -> bool {
    '0' <= c <= '9'
}

/// `s` holds at least one character, and digits only.
pub open spec fn is_digits(s: Seq<char>) -> bool {
    &&& s.len() > 0
    &&& forall|i: int| 0 <= i < s.len() ==> is_digit(#[trigger] s[i])
}

/// The number that the digits of `s` write.
pub open spec fn number(s: Seq<char>) -> nat
    decreases s.len(),
{
    if s.len() == 0 {
        0
    } else {
        10 * number(s.drop_last()) + ((s.last() as int - '0' as int) as nat)
    }
}

/// `s` without one leading plus sign.
pub open spec fn without_plus(s: Seq<char>) -> Seq<char> {
    if s.len() > 0 && s[0] == '+' {
        s.drop_first()
    } else {
        s
    }
}

/// The port number that `s` writes: digits, with one plus sign allowed in front,
/// of a value that sixteen bits hold.
pub open spec fn port_number(s: Seq<char>) -> Option<u16> {
    let d = without_plus(s);
    if is_digits(d) && number(d) <= u16::MAX {
        Some(number(d) as u16)
    } else {
        None
    }
}

/// The digit for `n`.
pub open spec fn digit(n: nat) -> char {
    (('0' as int) + (n % 10)) as char
}

/// `n` in decimal notation, without leading zeros.
pub open spec fn decimal(n: nat) -> Seq<char>
    decreases n,
{
    if n < 10 {
        seq![digit(n)]
    } else {
        decimal(n / 10).push(digit(n))
    }
}

/// The decimal notation of a number is digits only, and writes that number.
pub proof fn decimal_writes_number(n: nat)
    ensures
        is_digits(decimal(n)),
        number(decimal(n)) == n,
    decreases n,
{
    let d = decimal(n);
    assert(d.last() == digit(n));
    if n >= 10 {
        decimal_writes_number(n / 10);
        assert(d.drop_last() == decimal(n / 10));
    } else {
        assert(d.drop_last() == Seq::<char>::empty());
    }
    assert(number(d) == 10 * number(d.drop_last()) + (n % 10));
}

/// Reading the decimal notation of a port gives the port back.
pub proof fn port_number_of_decimal(port: u16)
    ensures
        port_number(decimal(port as nat)) == Some(port),
{
    decimal_writes_number(port as nat);
    assert(is_digit(decimal(port as nat)[0]));
    assert(without_plus(decimal(port as nat)) == decimal(port as nat));
}

/// Cutting digits off the end of a number does not make it larger.
proof fn number_of_prefix(s: Seq<char>, n: int)
    requires
        is_digits(s),
        0 <= n <= s.len(),
    ensures
        number(s.take(n)) <= number(s),
    decreases s.len() - n,
{
    if n < s.len() {
        number_of_prefix(s, n + 1);
        assert(s.take(n + 1).drop_last() == s.take(n));
        assert(is_digit(s[n]));
    } else {
        assert(s.take(n) == s);
    }
}

/// Reads a port number.
pub fn parse_port(s: &[char]) -> (r: Option<u16>)
    ensures
        r == port_number(s@),
{
    let d: &[char] = if s.len() > 0 && s[0] == '+' {
        &s[1..s.len()]
    } else {
        s
    };
    assert(d@ == without_plus(s@));
    if d.len() == 0 {
        return None;
    }
    let mut value: u32 = 0;
    let mut i: usize = 0;
    while i < d.len()
        invariant
            d@ == without_plus(s@),
            d@.len() > 0,
            i <= d@.len(),
            forall|j: int| 0 <= j < i ==> is_digit(#[trigger] d@[j]),
            value == number(d@.take(i as int)),
            value <= u16::MAX,
        decreases d@.len() - i,
    {
        let c = d[i];
        if !('0' <= c && c <= '9') {
            assert(!is_digit(d@[i as int]));
            return None;
        }
        value = value * 10 + (c as u32 - '0' as u32);
        proof {
            assert(d@.take(i + 1).drop_last() == d@.take(i as int));
        }
        if value > 65535 {
            proof {
                if is_digits(d@) {
                    number_of_prefix(d@, i + 1);
                }
            }
            return None;
        }
        i += 1;
    }
    assert(d@.take(i as int) == d@);
    Some(value as u16)
}

/// Appends the decimal notation of `n`.
pub fn push_decimal(out: &mut String, n: u64)
    ensures
        final(out)@ == old(out)@ + decimal(n as nat),
    decreases n,
{
    if n >= 10 {
        push_decimal(out, n / 10);
    }
    let d: u8 = (n % 10) as u8;
    out.push((48 + d) as char);
    assert(out@ == old(out)@ + decimal(n as nat));
}

/// `n` in decimal notation.
pub fn decimal_text(n: u64) -> (r: String)
    ensures
        r@ == decimal(n as nat),
{
    let mut r = String::new();
    push_decimal(&mut r, n);
    assert(Seq::<char>::empty() + decimal(n as nat) == decimal(n as nat));
    r
}

} // verus!
