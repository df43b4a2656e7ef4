//! The instant a record was written, kept as plain calendar fields, and
//! its rendering in the `YYYY-MM-DD` and `YYYY-MM-DD HH:MM:SS` shapes
//! that listings and the editors show.

use vstd::prelude::*;
use vstd::string::StringExecFns;

verus! {

/// A calendar timestamp with second precision.
#[derive(Clone, Copy, Debug, PartialEq, Eq, Structural)]
pub struct Timestamp {
    pub year: u16,
    pub month: u8,
    pub day: u8,
    pub hour: u8,
    pub minute: u8,
    pub second: u8,
}

/// Whether `year` has a 29th of February.
pub open spec fn is_leap_year(year: int) -> bool {
    (year % 4 == 0 && year % 100 != 0) || year % 400 == 0
}

/// How many days `month` has in `year`.
pub open spec fn days_in_month(year: int, month: int) -> int {
    if month == 2 {
        if is_leap_year(year) {
            29
        } else {
            28
        }
    } else if month == 4 || month == 6 || month == 9 || month == 11 {
        30
    } else {
        31
    }
}

/// The decimal digit `d` as a character.
pub open spec fn digit_char(d: int) -> char {
    if d == 0 {
        '0'
    } else if d == 1 {
        '1'
    } else if d == 2 {
        '2'
    } else if d == 3 {
        '3'
    } else if d == 4 {
        '4'
    } else if d == 5 {
        '5'
    } else if d == 6 {
        '6'
    } else if d == 7 {
        '7'
    } else if d == 8 {
        '8'
    } else {
        '9'
    }
}

/// `n` zero-padded to two decimal digits.
pub open spec fn two_digit_chars(n: int) -> Seq<char> {
    seq![digit_char(n / 10 % 10), digit_char(n % 10)]
}

/// `n` zero-padded to four decimal digits.
pub open spec fn four_digit_chars(n: int) -> Seq<char> {
    seq![
        digit_char(n / 1000 % 10),
        digit_char(n / 100 % 10),
        digit_char(n / 10 % 10),
        digit_char(n % 10),
    ]
}

/// `t` rendered as `YYYY-MM-DD`.
pub open spec fn date_chars(t: Timestamp) -> Seq<char> {
    four_digit_chars(t.year as int) + seq!['-'] + two_digit_chars(t.month as int) + seq!['-']
        + two_digit_chars(t.day as int)
}

/// `t` rendered as `YYYY-MM-DD HH:MM:SS`.
pub open spec fn datetime_chars(t: Timestamp) -> Seq<char> {
    date_chars(t) + seq![' '] + two_digit_chars(t.hour as int) + seq![':'] + two_digit_chars(
        t.minute as int,
    ) + seq![':'] + two_digit_chars(t.second as int)
}

impl Timestamp {
    /// The fields name a real calendar instant that the renderings can show.
    pub open spec fn valid(self) -> bool {
        &&& self.year <= 9999
        &&& 1 <= self.month <= 12
        &&& 1 <= self.day <= days_in_month(self.year as int, self.month as int)
        &&& self.hour < 24
        &&& self.minute < 60
        &&& self.second < 60
    }

    /// Builds a timestamp, accepting exactly the real calendar instants.
    pub fn new(year: u16, month: u8, day: u8, hour: u8, minute: u8, second: u8) -> (r: Option<
        Timestamp,
    >)
        ensures
            ({
                let t = Timestamp { year, month, day, hour, minute, second };
                if t.valid() {
                    r == Some(t)
                } else {
                    r is None
                }
            }),
    {
        let t = Timestamp { year, month, day, hour, minute, second };
        if year <= 9999 && 1 <= month && month <= 12 && 1 <= day && day <= days_of(year, month)
            && hour < 24 && minute < 60 && second < 60 {
            Some(t)
        } else {
            None
        }
    }
}

/// How many days `month` has in `year`, for checking a candidate timestamp.
fn days_of(year: u16, month: u8) -> (r: u8)
    requires
        1 <= month <= 12,
    ensures
        r as int == days_in_month(year as int, month as int),
{
    if month == 2 {
        if (year % 4 == 0 && year % 100 != 0) || year % 400 == 0 {
            29
        } else {
            28
        }
    } else if month == 4 || month == 6 || month == 9 || month == 11 {
        30
    } else {
        31
    }
}

/// The decimal digit `d` as a one-character string.
fn digit_str(d: u8) -> (r: &'static str)
    requires
        d < 10,
    ensures
        r@ =~= seq![digit_char(d as int)],
{
    let r: &'static str = if d == 0 {
        "0"
    } else if d == 1 {
        "1"
    } else if d == 2 {
        "2"
    } else if d == 3 {
        "3"
    } else if d == 4 {
        "4"
    } else if d == 5 {
        "5"
    } else if d == 6 {
        "6"
    } else if d == 7 {
        "7"
    } else if d == 8 {
        "8"
    } else {
        "9"
    };
    proof {
        reveal_strlit("0");
        reveal_strlit("1");
        reveal_strlit("2");
        reveal_strlit("3");
        reveal_strlit("4");
        reveal_strlit("5");
        reveal_strlit("6");
        reveal_strlit("7");
        reveal_strlit("8");
        reveal_strlit("9");
    }
    r
}

/// Appends `n` zero-padded to two digits.
fn push_two_digits(s: &mut String, n: u8)
    requires
        n < 100,
    ensures
        final(s)@ == old(s)@ + two_digit_chars(n as int),
{
    s.append(digit_str(n / 10));
    s.append(digit_str(n % 10));
    proof {
        assert(s@ =~= old(s)@ + two_digit_chars(n as int));
    }
}

/// Appends `n` zero-padded to four digits.
fn push_four_digits(s: &mut String, n: u16)
    requires
        n < 10000,
    ensures
        final(s)@ == old(s)@ + four_digit_chars(n as int),
{
    s.append(digit_str((n / 1000) as u8));
    s.append(digit_str((n / 100 % 10) as u8));
    s.append(digit_str((n / 10 % 10) as u8));
    s.append(digit_str((n % 10) as u8));
    proof {
        assert(s@ =~= old(s)@ + four_digit_chars(n as int));
    }
}

/// Renders `t` as `YYYY-MM-DD`.
pub fn format_date(t: &Timestamp) -> (r: String)
    requires
        t.valid(),
    ensures
        r@ == date_chars(*t),
{
    let mut s = String::new();
    push_four_digits(&mut s, t.year);
    s.append("-");
    push_two_digits(&mut s, t.month);
    s.append("-");
    push_two_digits(&mut s, t.day);
    proof {
        reveal_strlit("-");
        assert(s@ =~= date_chars(*t));
    }
    s
}

/// Renders `t` as `YYYY-MM-DD HH:MM:SS`.
pub fn format_datetime(t: &Timestamp) -> (r: String)
    requires
        t.valid(),
    ensures
        r@ == datetime_chars(*t),
{
    let mut s = format_date(t);
    s.append(" ");
    push_two_digits(&mut s, t.hour);
    s.append(":");
    push_two_digits(&mut s, t.minute);
    s.append(":");
    push_two_digits(&mut s, t.second);
    proof {
        reveal_strlit(" ");
        reveal_strlit(":");
        assert(s@ =~= datetime_chars(*t));
    }
    s
}

} // verus!
