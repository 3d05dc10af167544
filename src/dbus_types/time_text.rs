use vstd::prelude::*;

use crate::program_monitor::TimeOfDay;

verus! {

pub open spec fn is_digit(c: char) -> bool {
    '0' <= c && c <= '9'
}

pub open spec fn digit_value(c: char) -> int {
    c as int - '0' as int
}

pub open spec fn digit_char(d: int) -> char {
    if d == 0 {
        '0'
    } else if d == 1 {
        '1'
    } else if d == 2 {
        '2'
    } else if d == 3 {
        '3'
    } else if d == 4 {
        '4'
    } else if d == 5 {
        '5'
    } else if d == 6 {
        '6'
    } else if d == 7 {
        '7'
    } else if d == 8 {
        '8'
    } else {
        '9'
    }
}

/// `n` in two decimal digits.
pub open spec fn two_digits(n: int) -> Seq<char> {
    seq![digit_char(n / 10), digit_char(n % 10)]
}

/// A time of day written `HH:MM:SS`.
pub open spec fn time_text(t: TimeOfDay) -> Seq<char> {
    two_digits(t.hour as int) + seq![':'] + two_digits(t.minute as int) + seq![':'] + two_digits(
        t.second as int,
    )
}

/// The value of the two digits of `s` at `i` and `i + 1`.
pub open spec fn pair_value(s: Seq<char>, i: int) -> int {
    digit_value(s[i]) * 10 + digit_value(s[i + 1])
}

/// The time of day that `s` writes as `HH:MM:SS`, if it is one.
pub open spec fn parse_time_text(s: Seq<char>) -> Option<TimeOfDay> {
    if s.len() == 8 && s[2] == ':' && s[5] == ':' && is_digit(s[0]) && is_digit(s[1]) && is_digit(
        s[3],
    ) && is_digit(s[4]) && is_digit(s[6]) && is_digit(s[7]) && pair_value(s, 0) < 24
        && pair_value(s, 3) < 60 && pair_value(s, 6) < 60 {
        Some(
            TimeOfDay {
                hour: pair_value(s, 0) as u8,
                minute: pair_value(s, 3) as u8,
                second: pair_value(s, 6) as u8,
            },
        )
    } else {
        None
    }
}

fn digit_text(d: u8) -> (r: &'static str)
    requires
        d < 10,
    ensures
        r@ == seq![digit_char(d as int)],
{
    proof {
        reveal_strlit("0");
        reveal_strlit("1");
        reveal_strlit("2");
        reveal_strlit("3");
        reveal_strlit("4");
        reveal_strlit("5");
        reveal_strlit("6");
        reveal_strlit("7");
        reveal_strlit("8");
        reveal_strlit("9");
    }
    if d == 0 {
        "0"
    } else if d == 1 {
        "1"
    } else if d == 2 {
        "2"
    } else if d == 3 {
        "3"
    } else if d == 4 {
        "4"
    } else if d == 5 {
        "5"
    } else if d == 6 {
        "6"
    } else if d == 7 {
        "7"
    } else if d == 8 {
        "8"
    } else {
        assert(seq!['9'] =~= "9"@);
        "9"
    }
}

fn push_two_digits(s: &mut String, n: u8)
    requires
        n < 100,
    ensures
        final(s)@ == old(s)@ + two_digits(n as int),
{
    s.append(digit_text(n / 10));
    s.append(digit_text(n % 10));
    assert(final(s)@ =~= old(s)@ + two_digits(n as int));
}

/// Writes a time of day as `HH:MM:SS`.
pub fn format_time(t: &TimeOfDay) -> (r: String)
    requires
        t.wf(),
    ensures
        r@ == time_text(*t),
{
    proof {
        reveal_strlit(":");
    }
    let mut s = String::new();
    push_two_digits(&mut s, t.hour);
    s.append(":");
    push_two_digits(&mut s, t.minute);
    s.append(":");
    push_two_digits(&mut s, t.second);
    assert(s@ =~= time_text(*t));
    s
}

fn digit_at(s: &str, i: usize) -> (r: Option<u8>)
    requires
        i < s@.len(),
    ensures
        r is Some <==> is_digit(s@[i as int]),
        r matches Some(d) ==> d as int == digit_value(s@[i as int]) && d < 10,
{
    let c = s.get_char(i);
    if '0' <= c && c <= '9' {
        Some((c as u32 - '0' as u32) as u8)
    } else {
        None
    }
}

/// Reads a time of day written `HH:MM:SS`.
pub fn parse_time(s: &str) -> (r: Option<TimeOfDay>)
    ensures
        r == parse_time_text(s@),
        r matches Some(t) ==> t.wf(),
{
    if s.unicode_len() != 8 || s.get_char(2) != ':' || s.get_char(5) != ':' {
        return None;
    }
    let h1 = digit_at(s, 0);
    let h2 = digit_at(s, 1);
    let m1 = digit_at(s, 3);
    let m2 = digit_at(s, 4);
    let s1 = digit_at(s, 6);
    let s2 = digit_at(s, 7);
    match (h1, h2, m1, m2, s1, s2) {
        (Some(h1), Some(h2), Some(m1), Some(m2), Some(s1), Some(s2)) => {
            let hour = h1 * 10 + h2;
            let minute = m1 * 10 + m2;
            let second = s1 * 10 + s2;
            if hour < 24 && minute < 60 && second < 60 {
                Some(TimeOfDay { hour, minute, second })
            } else {
                None
            }
        },
        _ => None,
    }
}

proof fn lemma_digit(d: int)
    requires
        0 <= d < 10,
    ensures
        is_digit(digit_char(d)),
        digit_value(digit_char(d)) == d,
{
}

proof fn lemma_two_digits(n: int)
    requires
        0 <= n < 100,
    ensures
        is_digit(two_digits(n)[0]),
        is_digit(two_digits(n)[1]),
        digit_value(two_digits(n)[0]) * 10 + digit_value(two_digits(n)[1]) == n,
{
    lemma_digit(n / 10);
    lemma_digit(n % 10);
    assert(n / 10 * 10 + n % 10 == n) by (nonlinear_arith);
}

/// Writing a valid time of day and reading it back gives it again.
pub proof fn law_time_round_trip(t: TimeOfDay)
    requires
        t.wf(),
    ensures
        parse_time_text(time_text(t)) == Some(t),
{
    let s = time_text(t);
    lemma_two_digits(t.hour as int);
    lemma_two_digits(t.minute as int);
    lemma_two_digits(t.second as int);
    assert(s[0] == two_digits(t.hour as int)[0]);
    assert(s[1] == two_digits(t.hour as int)[1]);
    assert(s[2] == ':');
    assert(s[3] == two_digits(t.minute as int)[0]);
    assert(s[4] == two_digits(t.minute as int)[1]);
    assert(s[5] == ':');
    assert(s[6] == two_digits(t.second as int)[0]);
    assert(s[7] == two_digits(t.second as int)[1]);
    assert(pair_value(s, 0) == t.hour as int);
    assert(pair_value(s, 3) == t.minute as int);
    assert(pair_value(s, 6) == t.second as int);
}

/// Text that reads as a time of day is exactly how that time is written.
pub proof fn law_time_text_canonical(s: Seq<char>)
    requires
        parse_time_text(s) is Some,
    ensures
        time_text(parse_time_text(s).unwrap()) == s,
{
    let t = parse_time_text(s).unwrap();
    assert(time_text(t) =~= s);
}

} // verus!
