//! The publication timestamp: parsed from the metadata source's fixed
//! `YYYY-MM-DDTHH:MM:SSZ` form, validated against the calendar, and
//! rendered for the summary card.

use vstd::prelude::*;
use crate::text::{is_digit, digit_val, digit_char, str_to_chars, digit_to_str};

verus! {

/// A calendar-valid publication instant.
#[derive(Clone, Copy, PartialEq, Eq, Structural, Debug)]
pub struct Timestamp {
    pub year: u16,
    pub month: u8,
    pub day: u8,
    pub hour: u8,
    pub minute: u8,
    pub second: u8,
}

pub open spec fn is_leap_year(y: int) -> bool {
    y % 4 == 0 && (y % 100 != 0 || y % 400 == 0)
}

pub open spec fn days_in_month(y: int, m: int) -> int {
    if m == 2 {
        if is_leap_year(y) {
            29
        } else {
            28
        }
    } else if m == 4 || m == 6 || m == 9 || m == 11 {
        30
    } else {
        31
    }
}

impl Timestamp {
    /// Field ranges of a real calendar date and clock time, with a
    /// four-digit year.
    pub open spec fn wf(self) -> bool {
        &&& self.year <= 9999
        &&& 1 <= self.month <= 12
        &&& 1 <= self.day <= days_in_month(self.year as int, self.month as int)
        &&& self.hour < 24
        &&& self.minute < 60
        &&& self.second < 60
    }
}

/// Value of the two digits at position `i`.
pub open spec fn two_val(s: Seq<char>, i: int) -> int {
    digit_val(s[i]) * 10 + digit_val(s[i + 1])
}

/// Value of the four digits at position `i`.
pub open spec fn four_val(s: Seq<char>, i: int) -> int {
    digit_val(s[i]) * 1000 + digit_val(s[i + 1]) * 100 + digit_val(s[i + 2]) * 10 + digit_val(
        s[i + 3],
    )
}

/// Exactly twenty characters in the shape `YYYY-MM-DDTHH:MM:SSZ`.
pub open spec fn timestamp_shape(s: Seq<char>) -> bool {
    &&& s.len() == 20
    &&& is_digit(s[0]) && is_digit(s[1]) && is_digit(s[2]) && is_digit(s[3])
    &&& s[4] == '-'
    &&& is_digit(s[5]) && is_digit(s[6])
    &&& s[7] == '-'
    &&& is_digit(s[8]) && is_digit(s[9])
    &&& s[10] == 'T'
    &&& is_digit(s[11]) && is_digit(s[12])
    &&& s[13] == ':'
    &&& is_digit(s[14]) && is_digit(s[15])
    &&& s[16] == ':'
    &&& is_digit(s[17]) && is_digit(s[18])
    &&& s[19] == 'Z'
}

/// The shaped fields name a real date and time of day.
pub open spec fn timestamp_fields_valid(s: Seq<char>) -> bool {
    &&& 1 <= two_val(s, 5) <= 12
    &&& 1 <= two_val(s, 8) <= days_in_month(four_val(s, 0), two_val(s, 5))
    &&& two_val(s, 11) < 24
    &&& two_val(s, 14) < 60
    &&& two_val(s, 17) < 60
}

/// The text is an acceptable publication timestamp.
pub open spec fn parses_as_timestamp(s: Seq<char>) -> bool {
    timestamp_shape(s) && timestamp_fields_valid(s)
}

fn digit_at(v: &Vec<char>, i: usize) -> (r: Option<u8>)
    requires
        i < v@.len(),
    ensures
        r is Some <==> is_digit(v@[i as int]),
        r is Some ==> r->Some_0 == digit_val(v@[i as int]),
{
    let c = v[i];
    let u = c as u32;
    if u >= 48 && u <= 57 {
        Option::Some((u - 48) as u8)
    } else {
        Option::None
    }
}

fn two_at(v: &Vec<char>, i: usize) -> (r: Option<u8>)
    requires
        i + 2 <= v@.len(),
    ensures
        r is Some <==> is_digit(v@[i as int]) && is_digit(v@[i as int + 1]),
        r is Some ==> r->Some_0 == two_val(v@, i as int),
{
    let n = v.len();
    proof {
        assert(i + 2 <= n);
    }
    let a = digit_at(v, i);
    let b = digit_at(v, i + 1);
    match (a, b) {
        (Option::Some(x), Option::Some(y)) => Option::Some(x * 10 + y),
        _ => Option::None,
    }
}

fn four_at(v: &Vec<char>, i: usize) -> (r: Option<u16>)
    requires
        i + 4 <= v@.len(),
    ensures
        r is Some <==> is_digit(v@[i as int]) && is_digit(v@[i as int + 1]) && is_digit(
            v@[i as int + 2],
        ) && is_digit(v@[i as int + 3]),
        r is Some ==> r->Some_0 == four_val(v@, i as int),
{
    let n = v.len();
    proof {
        assert(i + 4 <= n);
    }
    let a = digit_at(v, i);
    let b = digit_at(v, i + 1);
    let c = digit_at(v, i + 2);
    let d = digit_at(v, i + 3);
    match (a, b, c, d) {
        (Option::Some(w), Option::Some(x), Option::Some(y), Option::Some(z)) => Option::Some(
            (w as u16) * 1000 + (x as u16) * 100 + (y as u16) * 10 + (z as u16),
        ),
        _ => Option::None,
    }
}

fn days_in_month_exec(y: u16, m: u8) -> (d: u8)
    requires
        1 <= m <= 12,
    ensures
        d == days_in_month(y as int, m as int),
{
    if m == 2 {
        if y % 4 == 0 && (y % 100 != 0 || y % 400 == 0) {
            29
        } else {
            28
        }
    } else if m == 4 || m == 6 || m == 9 || m == 11 {
        30
    } else {
        31
    }
}

/// Parses the metadata source's timestamp. `None` on any text that is not
/// exactly the fixed form naming a real instant; resolution treats that
/// as a terminal error.
pub fn parse_timestamp(s: &str) -> (r: Option<Timestamp>)
    ensures
        r is Some <==> parses_as_timestamp(s@),
        r is Some ==> {
            let t = r->Some_0;
            &&& t.wf()
            &&& t.year == four_val(s@, 0)
            &&& t.month == two_val(s@, 5)
            &&& t.day == two_val(s@, 8)
            &&& t.hour == two_val(s@, 11)
            &&& t.minute == two_val(s@, 14)
            &&& t.second == two_val(s@, 17)
        },
{
    let v = str_to_chars(s);
    if v.len() != 20 {
        return Option::None;
    }
    if !(v[4] == '-' && v[7] == '-' && v[10] == 'T' && v[13] == ':' && v[16] == ':' && v[19]
        == 'Z') {
        return Option::None;
    }
    let year = match four_at(&v, 0) {
        Option::Some(y) => y,
        Option::None => {
            return Option::None;
        },
    };
    let month = match two_at(&v, 5) {
        Option::Some(m) => m,
        Option::None => {
            return Option::None;
        },
    };
    let day = match two_at(&v, 8) {
        Option::Some(d) => d,
        Option::None => {
            return Option::None;
        },
    };
    let hour = match two_at(&v, 11) {
        Option::Some(h) => h,
        Option::None => {
            return Option::None;
        },
    };
    let minute = match two_at(&v, 14) {
        Option::Some(m) => m,
        Option::None => {
            return Option::None;
        },
    };
    let second = match two_at(&v, 17) {
        Option::Some(x) => x,
        Option::None => {
            return Option::None;
        },
    };
    if !(1 <= month && month <= 12) {
        return Option::None;
    }
    if !(1 <= day && day <= days_in_month_exec(year, month)) {
        return Option::None;
    }
    if !(hour < 24 && minute < 60 && second < 60) {
        return Option::None;
    }
    Option::Some(Timestamp { year, month, day, hour, minute, second })
}

/// Two digits, zero-padded.
pub open spec fn pad2(n: int) -> Seq<char> {
    seq![digit_char(n / 10), digit_char(n % 10)]
}

/// Four digits, zero-padded.
pub open spec fn pad4(n: int) -> Seq<char> {
    seq![
        digit_char(n / 1000),
        digit_char((n / 100) % 10),
        digit_char((n / 10) % 10),
        digit_char(n % 10),
    ]
}

/// The timestamp as the summary card shows it: `YYYY-MM-DD HH:MM:SS`.
pub open spec fn timestamp_display(t: Timestamp) -> Seq<char> {
    pad4(t.year as int) + seq!['-'] + pad2(t.month as int) + seq!['-'] + pad2(t.day as int)
        + seq![' '] + pad2(t.hour as int) + seq![':'] + pad2(t.minute as int) + seq![':'] + pad2(
        t.second as int,
    )
}

fn push_pad2(out: &mut String, n: u8)
    requires
        n < 100,
    ensures
        final(out)@ == old(out)@ + pad2(n as int),
{
    out.append(digit_to_str((n / 10) as u64));
    out.append(digit_to_str((n % 10) as u64));
    proof {
        assert(out@ =~= old(out)@ + pad2(n as int));
    }
}

impl Timestamp {
    /// Runtime check of `wf`, for callers outside verified code.
    pub fn is_wf(&self) -> (r: bool)
        ensures
            r == self.wf(),
    {
        self.year <= 9999 && 1 <= self.month && self.month <= 12 && 1 <= self.day && self.day
            <= days_in_month_exec(self.year, self.month) && self.hour < 24 && self.minute < 60
            && self.second < 60
    }

    /// Renders the timestamp for display on the summary card.
    pub fn to_display_string(&self) -> (r: String)
        requires
            self.wf(),
        ensures
            r@ == timestamp_display(*self),
    {
        let y = self.year;
        let mut out = String::from_str(digit_to_str((y / 1000) as u64));
        out.append(digit_to_str(((y / 100) % 10) as u64));
        out.append(digit_to_str(((y / 10) % 10) as u64));
        out.append(digit_to_str((y % 10) as u64));
        out.append("-");
        push_pad2(&mut out, self.month);
        out.append("-");
        push_pad2(&mut out, self.day);
        out.append(" ");
        push_pad2(&mut out, self.hour);
        out.append(":");
        push_pad2(&mut out, self.minute);
        out.append(":");
        push_pad2(&mut out, self.second);
        proof {
            reveal_strlit("-");
            reveal_strlit(" ");
            reveal_strlit(":");
            assert(("-")@ =~= seq!['-']);
            assert((" ")@ =~= seq![' ']);
            assert((":")@ =~= seq![':']);
            assert(out@ =~= timestamp_display(*self));
        }
        out
    }
}

} // verus!
