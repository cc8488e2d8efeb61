//! Decimal rendering of counts and clock times, and string comparison.

use vstd::prelude::*;

verus! {

/// The ASCII digit for `d`, where `0 <= d < 10`.
pub open spec fn digit_char(d: int) -> char {
    if d == 0 {
        '0'
    } else if d == 1 {
        '1'
    } else if d == 2 {
        '2'
    } else if d == 3 {
        '3'
    } else if d == 4 {
        '4'
    } else if d == 5 {
        '5'
    } else if d == 6 {
        '6'
    } else if d == 7 {
        '7'
    } else if d == 8 {
        '8'
    } else {
        '9'
    }
}

/// The decimal digits of `n`, most significant first, without leading zeros.
pub open spec fn decimal(n: nat) -> Seq<char>
    decreases n,
{
    if n < 10 {
        seq![digit_char(n as int)]
    } else {
        decimal(n / 10) + seq![digit_char((n % 10) as int)]
    }
}

/// A clock reading `sec` as `[-]M:SS`: a minus sign for negative readings,
/// the whole minutes of its magnitude, a colon and two digits of seconds.
pub open spec fn clock_text(sec: int) -> Seq<char> {
    let mag: nat = if sec < 0 { (-sec) as nat } else { sec as nat };
    let s: nat = mag % 60;
    (if sec < 0 { seq!['-'] } else { Seq::<char>::empty() }) + decimal(mag / 60) + seq![':']
        + seq![digit_char((s / 10) as int), digit_char((s % 10) as int)]
}

fn digit_str(d: u64) -> (r: &'static str)
    requires
        d < 10,
    ensures
        r@ == seq![digit_char(d as int)],
{
    proof {
        reveal_strlit("0");
        reveal_strlit("1");
        reveal_strlit("2");
        reveal_strlit("3");
        reveal_strlit("4");
        reveal_strlit("5");
        reveal_strlit("6");
        reveal_strlit("7");
        reveal_strlit("8");
        reveal_strlit("9");
    }
    if d == 0 {
        "0"
    } else if d == 1 {
        "1"
    } else if d == 2 {
        "2"
    } else if d == 3 {
        "3"
    } else if d == 4 {
        "4"
    } else if d == 5 {
        "5"
    } else if d == 6 {
        "6"
    } else if d == 7 {
        "7"
    } else if d == 8 {
        "8"
    } else {
        "9"
    }
}

/// Appends the decimal digits of `n` to `s`.
pub fn push_decimal(s: &mut String, n: u64)
    ensures
        final(s)@ == old(s)@ + decimal(n as nat),
    decreases n,
{
    if n >= 10 {
        push_decimal(s, n / 10);
    }
    s.append(digit_str(n % 10));
    assert(final(s)@ == old(s)@ + decimal(n as nat)) by {
        if n >= 10 {
            assert(decimal(n as nat) == decimal((n / 10) as nat) + seq![digit_char((n % 10) as int)]);
        }
    }
}

/// The countdown text `"<n>s"` for a positive number of seconds.
pub fn seconds_text(n: u64) -> (r: String)
    ensures
        r@ == decimal(n as nat) + seq!['s'],
{
    let mut s = String::new();
    push_decimal(&mut s, n);
    proof {
        reveal_strlit("s");
    }
    s.append("s");
    s
}

/// Renders a clock reading in seconds as `[-]M:SS`.
pub fn format_time(sec: i64) -> (r: String)
    ensures
        r@ == clock_text(sec as int),
{
    let neg = sec < 0;
    let mag: u64 = if neg {
        ((-(sec + 1)) as u64) + 1
    } else {
        sec as u64
    };
    let mut s = String::new();
    proof {
        reveal_strlit("-");
        reveal_strlit(":");
    }
    if neg {
        s.append("-");
    }
    push_decimal(&mut s, mag / 60);
    s.append(":");
    let secs = mag % 60;
    s.append(digit_str(secs / 10));
    s.append(digit_str(secs % 10));
    s
}

/// Whether two strings hold the same characters.
pub fn str_eq(a: &str, b: &str) -> (r: bool)
    ensures
        r == (a@ == b@),
{
    let x = String::from_str(a);
    let y = String::from_str(b);
    x == y
}

} // verus!
