//! What holds of searching, trimming, lines, words and numbers as a whole.
use crate::decimal;
use crate::text;
use vstd::prelude::*;

verus! {

/// A text holds each of its parts.
pub proof fn text_holds_its_parts(front: Seq<char>, part: Seq<char>, back: Seq<char>)
    ensures
        text::contains(front + part + back, part),
        text::starts_with(part + back, part),
{
    let s = front + part + back;
    let i = front.len() as int;
    assert(s.subrange(i, i + part.len()) == part);
    assert(text::occurs_at(s, part, i));
    assert((part + back).subrange(0, part.len() as int) == part);
}

/// What a text holds is one of its parts: there is something in front of it and
/// something behind it.
pub proof fn held_text_is_a_part(s: Seq<char>, part: Seq<char>) -> (front: Seq<char>)
    requires
        text::contains(s, part),
    ensures
        front.len() + part.len() <= s.len(),
        s == front + part + s.skip(front.len() + part.len() as int),
{
    let i = choose|i: int| #[trigger] text::occurs_at(s, part, i);
    assert(s == s.take(i) + s.subrange(i, i + part.len()) + s.skip(i + part.len()));
    s.take(i)
}

/// What a text begins with is its front.
pub proof fn begun_text_is_the_front(s: Seq<char>, part: Seq<char>)
    requires
        text::starts_with(s, part),
    ensures
        part.len() <= s.len(),
        s == part + s.skip(part.len() as int),
{
    assert(s == s.subrange(0, part.len() as int) + s.skip(part.len() as int));
}

/// `s` holds white space only.
pub open spec fn is_space(s: Seq<char>) -> bool {
    forall|i: int| 0 <= i < s.len() ==> text::is_white_space(#[trigger] s[i])
}

/// `s` is empty, or has no white space at either end.
pub open spec fn is_trim(s: Seq<char>) -> bool {
    s.len() > 0 ==> !text::is_white_space(s[0]) && !text::is_white_space(s.last())
}

proof fn start_is_trimmed(space: Seq<char>, s: Seq<char>)
    requires
        is_space(space),
        s.len() > 0 ==> !text::is_white_space(s[0]),
    ensures
        text::trimmed_start(space + s) == s,
    decreases space.len(),
{
    if space.len() > 0 {
        assert((space + s)[0] == space[0]);
        assert((space + s).drop_first() == space.drop_first() + s);
        start_is_trimmed(space.drop_first(), s);
    } else {
        assert(space + s == s);
    }
}

proof fn end_is_trimmed(s: Seq<char>, space: Seq<char>)
    requires
        is_space(space),
        s.len() > 0 ==> !text::is_white_space(s.last()),
    ensures
        text::trimmed_end(s + space) == s,
    decreases space.len(),
{
    if space.len() > 0 {
        assert((s + space).last() == space.last());
        assert((s + space).drop_last() == s + space.drop_last());
        end_is_trimmed(s, space.drop_last());
    } else {
        assert(s + space == s);
    }
}

/// Trimming takes white space off both ends, all of it and nothing else.
pub proof fn trimming_takes_space_off(before: Seq<char>, s: Seq<char>, after: Seq<char>)
    requires
        is_space(before),
        is_trim(s),
        is_space(after),
    ensures
        text::trimmed(before + s + after) == s,
{
    if s.len() > 0 {
        assert(before + s + after == before + (s + after));
        start_is_trimmed(before, s + after);
        end_is_trimmed(s, after);
    } else {
        let all = before + s + after;
        let none = Seq::<char>::empty();
        assert forall|i: int| 0 <= i < all.len() implies text::is_white_space(
            #[trigger] all[i],
        ) by {
            if i < before.len() {
                assert(all[i] == before[i]);
            } else {
                assert(all[i] == after[i - before.len()]);
            }
        }
        assert(all + none == all);
        start_is_trimmed(all, none);
        assert(text::trimmed_end(none) == none);
        assert(s == none);
    }
}

/// Every text is what trimming leaves of it, with white space around.
pub proof fn trimming_leaves_the_middle(s: Seq<char>) -> (r: (int, int))
    ensures
        0 <= r.0 <= r.1 <= s.len(),
        text::trimmed(s) == s.subrange(r.0, r.1),
        is_trim(s.subrange(r.0, r.1)),
        is_space(s.take(r.0)),
        is_space(s.skip(r.1)),
{
    let from = space_in_front(s);
    let t = s.skip(from);
    let len = solid_length(t);
    let middle = s.subrange(from, from + len);
    assert(t.take(len) == middle);
    assert(t.skip(len) == s.skip(from + len));
    assert(s == s.take(from) + middle + s.skip(from + len));
    if len > 0 {
        assert(middle[0] == t[0]);
    }
    trimming_takes_space_off(s.take(from), middle, s.skip(from + len));
    (from, from + len)
}

proof fn space_in_front(s: Seq<char>) -> (n: int)
    ensures
        0 <= n <= s.len(),
        is_space(s.take(n)),
        n < s.len() ==> !text::is_white_space(s[n]),
    decreases s.len(),
{
    if s.len() > 0 && text::is_white_space(s[0]) {
        let n = space_in_front(s.drop_first());
        let whole = s.take(n + 1);
        assert forall|i: int| 0 <= i < whole.len() implies text::is_white_space(
            #[trigger] whole[i],
        ) by {
            if i > 0 {
                assert(whole[i] == s.drop_first().take(n)[i - 1]);
            }
        }
        if n + 1 < s.len() {
            assert(s[n + 1] == s.drop_first()[n]);
        }
        n + 1
    } else {
        0
    }
}

proof fn solid_length(s: Seq<char>) -> (n: int)
    ensures
        0 <= n <= s.len(),
        is_space(s.skip(n)),
        n > 0 ==> !text::is_white_space(s[n - 1]),
    decreases s.len(),
{
    if s.len() > 0 && text::is_white_space(s.last()) {
        let t = s.drop_last();
        let n = solid_length(t);
        let rest = s.skip(n);
        assert forall|i: int| 0 <= i < rest.len() implies text::is_white_space(
            #[trigger] rest[i],
        ) by {
            if i < rest.len() - 1 {
                assert(rest[i] == t.skip(n)[i]);
            }
        }
        n
    } else {
        s.len() as int
    }
}

/// `s` holds no line feed.
pub open spec fn is_one_line(s: Seq<char>) -> bool {
    forall|i: int| 0 <= i < s.len() ==> #[trigger] s[i] != '\n'
}

proof fn feed_is_found(line: Seq<char>, rest: Seq<char>)
    requires
        is_one_line(line),
    ensures
        text::find(line + seq!['\n'] + rest, seq!['\n']) == Some(line.len() as int),
        (line + seq!['\n'] + rest).take(line.len() as int) == line,
        (line + seq!['\n'] + rest).skip(line.len() as int + 1) == rest,
{
    let s = line + seq!['\n'] + rest;
    let n = line.len() as int;
    assert(s.subrange(n, n + 1) == seq!['\n']);
    assert forall|j: int| 0 <= j < n implies !#[trigger] text::occurs_at(s, seq!['\n'], j) by {
        assert(s.subrange(j, j + 1)[0] == line[j]);
    }
    text::find_is_unique(s, seq!['\n'], n);
    assert(s.take(n) == line);
    assert(s.skip(n + 1) == rest);
}

/// A text is read line by line: what stands in front of a line feed is a line, without
/// the carriage return that may belong to its end; the last line may lack its end; and
/// an empty text has no line.
pub proof fn lines_are_read_in_turn(line: Seq<char>, rest: Seq<char>)
    requires
        is_one_line(line),
    ensures
        text::lines(line + seq!['\r', '\n'] + rest) == seq![line] + text::lines(rest),
        line.len() == 0 || line.last() != '\r' ==> text::lines(line + seq!['\n'] + rest) == seq![
            line,
        ] + text::lines(rest),
        line.len() > 0 ==> text::lines(line) == seq![line],
        text::lines(Seq::<char>::empty()) == Seq::<Seq<char>>::empty(),
        text::first_line(line + seq!['\r', '\n'] + rest) == line,
        line.len() == 0 || line.last() != '\r' ==> text::first_line(line + seq!['\n'] + rest)
            == line,
        text::first_line(line) == line,
{
    let ended = line.push('\r');
    assert(line + seq!['\r', '\n'] + rest == ended + seq!['\n'] + rest);
    feed_is_found(ended, rest);
    assert(ended.drop_last() == line);
    feed_is_found(line, rest);
    text::find_is_first(line, seq!['\n']);
    if let Some(i) = text::find(line, seq!['\n']) {
        assert(line.subrange(i, i + 1)[0] == line[i]);
    }
    if line.len() == 0 {
        assert(line == Seq::<char>::empty());
    }
}

/// A text is read word by word: white space in front of it does not count, what stands
/// in front of the next white space is a word, and white space alone has no word.
pub proof fn words_are_read_in_turn(space: Seq<char>, word: Seq<char>, rest: Seq<char>)
    requires
        is_space(space),
        word.len() > 0,
        text::is_solid(word),
        rest.len() > 0 ==> text::is_white_space(rest[0]),
    ensures
        text::words(space + word + rest) == seq![word] + text::words(rest),
        text::words(space) == Seq::<Seq<char>>::empty(),
{
    let s = space + word + rest;
    let t = word + rest;
    assert(s == space + t);
    start_is_trimmed(space, t);
    word_is_measured(word, rest);
    assert(t.take(word.len() as int) == word);
    assert(t.skip(word.len() as int) == rest);
    let none = Seq::<char>::empty();
    assert(space + none == space);
    start_is_trimmed(space, none);
}

proof fn word_is_measured(word: Seq<char>, rest: Seq<char>)
    requires
        text::is_solid(word),
        rest.len() > 0 ==> text::is_white_space(rest[0]),
    ensures
        text::word_len(word + rest) == word.len(),
    decreases word.len(),
{
    let t = word + rest;
    if word.len() > 0 {
        assert(t[0] == word[0]);
        assert(t.drop_first() == word.drop_first() + rest);
        assert forall|i: int| 0 <= i < word.drop_first().len() implies !text::is_white_space(
            #[trigger] word.drop_first()[i],
        ) by {
            assert(word.drop_first()[i] == word[i + 1]);
        }
        word_is_measured(word.drop_first(), rest);
    } else {
        assert(t == rest);
    }
}

/// Changing the case of a text changes its ASCII letters only, each into the letter
/// that is 32 places off.
pub proof fn case_is_that_of_letters(s: Seq<char>, i: int)
    requires
        0 <= i < s.len(),
    ensures
        text::lowered(s).len() == s.len(),
        text::raised(s).len() == s.len(),
        'A' <= s[i] <= 'Z' ==> text::lowered(s)[i] as int == s[i] as int + 32,
        !('A' <= s[i] <= 'Z') ==> text::lowered(s)[i] == s[i],
        'a' <= s[i] <= 'z' ==> text::raised(s)[i] as int == s[i] as int - 32,
        !('a' <= s[i] <= 'z') ==> text::raised(s)[i] == s[i],
{
}

/// Decimal notation is read place by place: one more digit makes ten times the number
/// and the digit's value more.
pub proof fn numbers_are_read_by_place(s: Seq<char>, c: char)
    requires
        '0' <= c <= '9',
    ensures
        decimal::number(s.push(c)) == 10 * decimal::number(s) + (c as int - 48),
        decimal::number(Seq::<char>::empty()) == 0,
{
    assert(s.push(c).drop_last() == s);
}

/// A number is written with digits only, without leading zeros.
pub proof fn numbers_are_written_short(n: nat)
    ensures
        decimal::decimal(n).len() > 0,
        forall|i: int|
            0 <= i < decimal::decimal(n).len() ==> '0' <= #[trigger] decimal::decimal(n)[i] <= '9',
        decimal::decimal(n)[0] == '0' ==> n == 0,
        n < 10 ==> decimal::decimal(n).len() == 1,
    decreases n,
{
    decimal::decimal_writes_number(n);
    let d = decimal::decimal(n);
    assert forall|i: int| 0 <= i < d.len() implies '0' <= #[trigger] d[i] <= '9' by {
        assert(decimal::is_digit(d[i]));
    }
    if n >= 10 {
        numbers_are_written_short(n / 10);
        assert(d[0] == decimal::decimal(n / 10)[0]);
    }
}

/// A port is read where digits write a number of sixteen bits, with or without a plus
/// sign in front, and nowhere else.
pub proof fn ports_are_read_from_digits(s: Seq<char>)
    ensures
        s.len() > 0 && (forall|i: int| 0 <= i < s.len() ==> '0' <= #[trigger] s[i] <= '9') ==> (
        decimal::port_number(s) == (if decimal::number(s) <= 65535 {
            Some(decimal::number(s) as u16)
        } else {
            None
        }) && decimal::port_number(seq!['+'] + s) == decimal::port_number(s)),
        decimal::port_number(s) is Some ==> s.len() > 0 && forall|i: int|
            1 <= i < s.len() ==> '0' <= #[trigger] s[i] <= '9',
        decimal::port_number(s) is Some ==> s[0] == '+' || '0' <= s[0] <= '9',
        decimal::port_number(Seq::<char>::empty()) is None,
        decimal::port_number(seq!['+']) is None,
{
    assert((seq!['+'] + s).drop_first() == s);
    assert(seq!['+'].drop_first() == Seq::<char>::empty());
    if s.len() > 0 && forall|i: int| 0 <= i < s.len() ==> '0' <= #[trigger] s[i] <= '9' {
        assert(decimal::is_digits(s)) by {
            assert forall|i: int| 0 <= i < s.len() implies decimal::is_digit(#[trigger] s[i]) by {
                assert('0' <= s[i] <= '9');
            }
        }
        assert('0' <= s[0]);
    }
    if decimal::port_number(s) is Some {
        let d = decimal::without_plus(s);
        assert(decimal::is_digit(d[0]));
        assert forall|i: int| 1 <= i < s.len() implies '0' <= #[trigger] s[i] <= '9' by {
            if s[0] == '+' {
                assert(decimal::is_digit(d[i - 1]));
            } else {
                assert(decimal::is_digit(d[i]));
            }
        }
    }
}

/// Words are counted from zero, and behind the last one there is none.
pub proof fn words_are_counted_from_zero(s: Seq<char>, n: int)
    ensures
        0 <= n < text::words(s).len() ==> text::nth_word(s, n) == Some(text::words(s)[n]),
        n >= text::words(s).len() ==> text::nth_word(s, n) is None,
{
}

} // verus!
