use vstd::prelude::*;

verus! {

/// The named time zones a source can be configured with. A timestamp is
/// always attached to one of these, never treated as a bare instant.
#[derive(Clone, Copy, Debug, PartialEq, Eq, Structural)]
pub enum Zone {
    Dublin,
}

/// A timezone-aware publication timestamp: calendar fields in the local
/// time of `zone`, together with the zone's UTC offset at that local time.
#[derive(Clone, Copy, Debug, PartialEq, Eq, Structural)]
pub struct Timestamp {
    pub year: u16,
    pub month: u8,
    pub day: u8,
    pub hour: u8,
    pub minute: u8,
    pub second: u8,
    /// Seconds to add to UTC to obtain the local time; strictly within one day.
    pub offset_seconds: i32,
    pub zone: Zone,
}

pub open spec fn spec_is_leap_year(y: int) -> bool {
    (y % 4 == 0 && y % 100 != 0) || y % 400 == 0
}

pub fn is_leap_year(y: u16) -> (r: bool)
    ensures
        r == spec_is_leap_year(y as int),
{
    (y % 4 == 0 && y % 100 != 0) || y % 400 == 0
}

pub open spec fn spec_days_in_month(y: int, m: int) -> int {
    if m == 2 {
        if spec_is_leap_year(y) {
            29
        } else {
            28
        }
    } else if m == 4 || m == 6 || m == 9 || m == 11 {
        30
    } else {
        31
    }
}

pub fn days_in_month(y: u16, m: u8) -> (r: u8)
    requires
        1 <= m <= 12,
    ensures
        r as int == spec_days_in_month(y as int, m as int),
        28 <= r <= 31,
{
    if m == 2 {
        if is_leap_year(y) {
            29
        } else {
            28
        }
    } else if m == 4 || m == 6 || m == 9 || m == 11 {
        30
    } else {
        31
    }
}

impl Timestamp {
    /// Well-formedness: real calendar fields and an offset within one day.
    pub open spec fn wf(self) -> bool {
        &&& self.year <= 9999
        &&& 1 <= self.month <= 12
        &&& 1 <= self.day
        &&& self.day as int <= spec_days_in_month(self.year as int, self.month as int)
        &&& self.hour < 24
        &&& self.minute < 60
        &&& self.second < 60
        &&& -86400 < self.offset_seconds < 86400
    }
}

/// Days in the proleptic Gregorian calendar strictly before January 1 of
/// year `y`, counted from year 0.
pub open spec fn spec_days_before_year(y: int) -> int
    decreases y,
{
    if y <= 0 {
        0
    } else {
        spec_days_before_year(y - 1) + if spec_is_leap_year(y - 1) {
            366int
        } else {
            365int
        }
    }
}

/// Days of year `y` strictly before the first day of month `m`.
pub open spec fn spec_days_before_month(y: int, m: int) -> int
    decreases m,
{
    if m <= 1 {
        0
    } else {
        spec_days_before_month(y, m - 1) + spec_days_in_month(y, m - 1)
    }
}

/// Day count of the given date, with 0000-01-01 as day 0.
pub open spec fn spec_day_number(y: int, m: int, d: int) -> int {
    spec_days_before_year(y) + spec_days_before_month(y, m) + d - 1
}

/// Weekday index of a date: 0 is Saturday (the weekday of 2000-01-01),
/// through 6 for Friday.
pub open spec fn spec_weekday(y: int, m: int, d: int) -> int {
    spec_day_number(y, m, d) % 7
}

pub fn days_before_year(y: u16) -> (r: u32)
    requires
        y <= 9999,
    ensures
        r as int == spec_days_before_year(y as int),
        r <= 366 * (y as u32),
{
    let mut acc: u32 = 0;
    let mut i: u16 = 0;
    while i < y
        invariant
            i <= y,
            y <= 9999,
            acc as int == spec_days_before_year(i as int),
            acc as int <= 366 * (i as int),
        decreases y - i,
    {
        if is_leap_year(i) {
            acc = acc + 366;
        } else {
            acc = acc + 365;
        }
        i = i + 1;
    }
    acc
}

pub fn days_before_month(y: u16, m: u8) -> (r: u32)
    requires
        1 <= m <= 12,
    ensures
        r as int == spec_days_before_month(y as int, m as int),
        r <= 341,
{
    let mut acc: u32 = 0;
    let mut i: u8 = 1;
    while i < m
        invariant
            1 <= i <= m,
            m <= 12,
            acc as int == spec_days_before_month(y as int, i as int),
            acc as int <= 31 * (i as int - 1),
        decreases m - i,
    {
        acc = acc + days_in_month(y, i) as u32;
        i = i + 1;
    }
    acc
}

pub fn weekday_index(y: u16, m: u8, d: u8) -> (r: u8)
    requires
        y <= 9999,
        1 <= m <= 12,
        1 <= d <= 31,
    ensures
        r as int == spec_weekday(y as int, m as int, d as int),
        r < 7,
{
    let before_year = days_before_year(y);
    let before_month = days_before_month(y, m);
    let total: u32 = before_year + before_month + (d as u32) - 1;
    (total % 7) as u8
}

/// The character for one decimal digit.
pub open spec fn spec_digit(d: int) -> char {
    if d == 0 {
        '0'
    } else if d == 1 {
        '1'
    } else if d == 2 {
        '2'
    } else if d == 3 {
        '3'
    } else if d == 4 {
        '4'
    } else if d == 5 {
        '5'
    } else if d == 6 {
        '6'
    } else if d == 7 {
        '7'
    } else if d == 8 {
        '8'
    } else {
        '9'
    }
}

/// Two decimal digits, zero padded.
pub open spec fn spec_dec2(n: int) -> Seq<char> {
    seq![spec_digit(n / 10), spec_digit(n % 10)]
}

/// Four decimal digits, zero padded.
pub open spec fn spec_dec4(n: int) -> Seq<char> {
    seq![
        spec_digit(n / 1000),
        spec_digit((n / 100) % 10),
        spec_digit((n / 10) % 10),
        spec_digit(n % 10),
    ]
}

/// A day of the month, without zero padding.
pub open spec fn spec_day_text(d: int) -> Seq<char> {
    if d < 10 {
        seq![spec_digit(d)]
    } else {
        spec_dec2(d)
    }
}

pub fn digit_str(d: u32) -> (r: &'static str)
    requires
        d < 10,
    ensures
        r@ == seq![spec_digit(d as int)],
{
    match d {
        0 => {
            proof {
                reveal_strlit("0");
            }
            assert("0"@ =~= seq![spec_digit(0int)]);
            "0"
        },
        1 => {
            proof {
                reveal_strlit("1");
            }
            assert("1"@ =~= seq![spec_digit(1int)]);
            "1"
        },
        2 => {
            proof {
                reveal_strlit("2");
            }
            assert("2"@ =~= seq![spec_digit(2int)]);
            "2"
        },
        3 => {
            proof {
                reveal_strlit("3");
            }
            assert("3"@ =~= seq![spec_digit(3int)]);
            "3"
        },
        4 => {
            proof {
                reveal_strlit("4");
            }
            assert("4"@ =~= seq![spec_digit(4int)]);
            "4"
        },
        5 => {
            proof {
                reveal_strlit("5");
            }
            assert("5"@ =~= seq![spec_digit(5int)]);
            "5"
        },
        6 => {
            proof {
                reveal_strlit("6");
            }
            assert("6"@ =~= seq![spec_digit(6int)]);
            "6"
        },
        7 => {
            proof {
                reveal_strlit("7");
            }
            assert("7"@ =~= seq![spec_digit(7int)]);
            "7"
        },
        8 => {
            proof {
                reveal_strlit("8");
            }
            assert("8"@ =~= seq![spec_digit(8int)]);
            "8"
        },
        _ => {
            proof {
                reveal_strlit("9");
            }
            assert("9"@ =~= seq![spec_digit(9int)]);
            "9"
        },
    }
}

pub fn push_dec2(out: &mut String, n: u32)
    requires
        n < 100,
    ensures
        final(out)@ == old(out)@ + spec_dec2(n as int),
{
    out.append(digit_str(n / 10));
    out.append(digit_str(n % 10));
    assert(out@ =~= old(out)@ + spec_dec2(n as int));
}

pub fn push_dec4(out: &mut String, n: u32)
    requires
        n < 10000,
    ensures
        final(out)@ == old(out)@ + spec_dec4(n as int),
{
    out.append(digit_str(n / 1000));
    out.append(digit_str((n / 100) % 10));
    out.append(digit_str((n / 10) % 10));
    out.append(digit_str(n % 10));
    assert(out@ =~= old(out)@ + spec_dec4(n as int));
}

pub fn push_day_text(out: &mut String, d: u32)
    requires
        d < 100,
    ensures
        final(out)@ == old(out)@ + spec_day_text(d as int),
{
    if d < 10 {
        out.append(digit_str(d));
        assert(out@ =~= old(out)@ + spec_day_text(d as int));
    } else {
        push_dec2(out, d);
    }
}

/// The three-letter weekday name of a weekday index (0 is Saturday).
pub open spec fn spec_weekday_abbrev(w: int) -> Seq<char> {
    if w == 0 {
        "Sat"@
    } else if w == 1 {
        "Sun"@
    } else if w == 2 {
        "Mon"@
    } else if w == 3 {
        "Tue"@
    } else if w == 4 {
        "Wed"@
    } else if w == 5 {
        "Thu"@
    } else {
        "Fri"@
    }
}

pub fn weekday_abbrev_str(w: u8) -> (r: &'static str)
    requires
        w < 7,
    ensures
        r@ == spec_weekday_abbrev(w as int),
{
    match w {
        0 => "Sat",
        1 => "Sun",
        2 => "Mon",
        3 => "Tue",
        4 => "Wed",
        5 => "Thu",
        _ => "Fri",
    }
}

/// The three-letter month name of a month number (1 through 12).
pub open spec fn spec_month_abbrev(m: int) -> Seq<char> {
    if m == 1 {
        "Jan"@
    } else if m == 2 {
        "Feb"@
    } else if m == 3 {
        "Mar"@
    } else if m == 4 {
        "Apr"@
    } else if m == 5 {
        "May"@
    } else if m == 6 {
        "Jun"@
    } else if m == 7 {
        "Jul"@
    } else if m == 8 {
        "Aug"@
    } else if m == 9 {
        "Sep"@
    } else if m == 10 {
        "Oct"@
    } else if m == 11 {
        "Nov"@
    } else {
        "Dec"@
    }
}

pub fn month_abbrev_str(m: u8) -> (r: &'static str)
    requires
        1 <= m <= 12,
    ensures
        r@ == spec_month_abbrev(m as int),
{
    match m {
        1 => "Jan",
        2 => "Feb",
        3 => "Mar",
        4 => "Apr",
        5 => "May",
        6 => "Jun",
        7 => "Jul",
        8 => "Aug",
        9 => "Sep",
        10 => "Oct",
        11 => "Nov",
        _ => "Dec",
    }
}

/// The textual zone offset, sign then hours then minutes.
pub open spec fn spec_offset_text(off: int) -> Seq<char> {
    let sign = if off < 0 {
        "-"@
    } else {
        "+"@
    };
    let a = if off < 0 {
        -off
    } else {
        off
    };
    let minutes = a / 60;
    sign + spec_dec2(minutes / 60) + spec_dec2(minutes % 60)
}

/// The RFC-2822 textual form of a timestamp, offset information included.
pub open spec fn spec_rfc2822(t: Timestamp) -> Seq<char> {
    spec_weekday_abbrev(spec_weekday(t.year as int, t.month as int, t.day as int)) + ", "@
        + spec_day_text(t.day as int) + " "@ + spec_month_abbrev(t.month as int) + " "@
        + spec_dec4(t.year as int) + " "@ + spec_dec2(t.hour as int) + ":"@ + spec_dec2(
        t.minute as int,
    ) + ":"@ + spec_dec2(t.second as int) + " "@ + spec_offset_text(t.offset_seconds as int)
}

impl Timestamp {
    /// Renders the timestamp in RFC-2822-compatible textual form, such as
    /// `Tue, 1 Jul 2003 10:52:37 +0200`.
    pub fn to_rfc2822(&self) -> (r: String)
        requires
            self.wf(),
        ensures
            r@ == spec_rfc2822(*self),
    {
        let mut out = String::new();
        let w = weekday_index(self.year, self.month, self.day);
        out.append(weekday_abbrev_str(w));
        out.append(", ");
        push_day_text(&mut out, self.day as u32);
        out.append(" ");
        out.append(month_abbrev_str(self.month));
        out.append(" ");
        push_dec4(&mut out, self.year as u32);
        out.append(" ");
        push_dec2(&mut out, self.hour as u32);
        out.append(":");
        push_dec2(&mut out, self.minute as u32);
        out.append(":");
        push_dec2(&mut out, self.second as u32);
        out.append(" ");
        let off = self.offset_seconds;
        if off < 0 {
            out.append("-");
        } else {
            out.append("+");
        }
        let a: i32 = if off < 0 {
            -off
        } else {
            off
        };
        let minutes: i32 = a / 60;
        push_dec2(&mut out, (minutes / 60) as u32);
        push_dec2(&mut out, (minutes % 60) as u32);
        assert(out@ =~= spec_rfc2822(*self));
        out
    }
}

} // verus!
