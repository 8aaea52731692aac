use vstd::prelude::*;
use vstd::string::*;
use crate::datetime::{
    days_in_month, month_abbrev_str, spec_day_text, spec_days_in_month, spec_dec2, spec_dec4,
    spec_digit, spec_month_abbrev, spec_weekday, weekday_index, Timestamp, Zone,
};
use crate::error::ScrapeError;
use crate::textparse::{
    digit_val, match_at, spec_digit_val, spec_is_digit, spec_is_space, spec_match_at, spec_trim,
    spec_trim_end, spec_trim_start, trim_str,
};
use crate::tz::{dublin_offset, dublin_offset_of};

verus! {

/// The calendar fields carried by a source's date text. The grammar has no
/// seconds, so none are recorded here.
#[derive(Clone, Copy, Debug, PartialEq, Eq, Structural)]
pub struct DateFields {
    pub year: u16,
    pub month: u8,
    pub day: u8,
    pub hour: u8,
    pub minute: u8,
}

impl DateFields {
    pub open spec fn valid(self) -> bool {
        &&& self.year <= 9999
        &&& 1 <= self.month <= 12
        &&& 1 <= self.day
        &&& self.day as int <= spec_days_in_month(self.year as int, self.month as int)
        &&& self.hour < 24
        &&& self.minute < 60
    }
}

/// The full weekday name of a weekday index (0 is Saturday).
pub open spec fn spec_weekday_name(w: int) -> Seq<char> {
    if w == 0 {
        "Saturday"@
    } else if w == 1 {
        "Sunday"@
    } else if w == 2 {
        "Monday"@
    } else if w == 3 {
        "Tuesday"@
    } else if w == 4 {
        "Wednesday"@
    } else if w == 5 {
        "Thursday"@
    } else {
        "Friday"@
    }
}

pub fn weekday_name_str(w: u8) -> (r: &'static str)
    requires
        w < 7,
    ensures
        r@ == spec_weekday_name(w as int),
{
    match w {
        0 => "Saturday",
        1 => "Sunday",
        2 => "Monday",
        3 => "Tuesday",
        4 => "Wednesday",
        5 => "Thursday",
        _ => "Friday",
    }
}

/// The canonical date text of a set of fields: the weekday name of the
/// date, then day, month name, year and time of day, as the configured
/// sources publish it.
pub open spec fn spec_date_text(f: DateFields) -> Seq<char> {
    "Updated / "@ + spec_weekday_name(
        spec_weekday(f.year as int, f.month as int, f.day as int),
    ) + ", "@ + spec_day_text(f.day as int) + " "@ + spec_month_abbrev(f.month as int) + " "@
        + spec_dec4(f.year as int) + " "@ + spec_dec2(f.hour as int) + ":"@ + spec_dec2(
        f.minute as int,
    )
}

/// The canonical date text with the day always written as two digits —
/// the zero-padded variant the grammar also accepts for days under ten.
pub open spec fn spec_date_text_zero_padded(f: DateFields) -> Seq<char> {
    "Updated / "@ + spec_weekday_name(
        spec_weekday(f.year as int, f.month as int, f.day as int),
    ) + ", "@ + spec_dec2(f.day as int) + " "@ + spec_month_abbrev(f.month as int) + " "@
        + spec_dec4(f.year as int) + " "@ + spec_dec2(f.hour as int) + ":"@ + spec_dec2(
        f.minute as int,
    )
}

/// The first weekday whose name appears at position `i`, with the position
/// just after it.
pub open spec fn sp_weekday(s: Seq<char>, i: int) -> Option<(int, int)> {
    if spec_match_at(s, i, spec_weekday_name(0)) {
        Some((0int, i + spec_weekday_name(0).len()))
    } else if spec_match_at(s, i, spec_weekday_name(1)) {
        Some((1int, i + spec_weekday_name(1).len()))
    } else if spec_match_at(s, i, spec_weekday_name(2)) {
        Some((2int, i + spec_weekday_name(2).len()))
    } else if spec_match_at(s, i, spec_weekday_name(3)) {
        Some((3int, i + spec_weekday_name(3).len()))
    } else if spec_match_at(s, i, spec_weekday_name(4)) {
        Some((4int, i + spec_weekday_name(4).len()))
    } else if spec_match_at(s, i, spec_weekday_name(5)) {
        Some((5int, i + spec_weekday_name(5).len()))
    } else if spec_match_at(s, i, spec_weekday_name(6)) {
        Some((6int, i + spec_weekday_name(6).len()))
    } else {
        None
    }
}

/// The first month whose name appears at position `i`, with the position
/// just after it.
pub open spec fn sp_month(s: Seq<char>, i: int) -> Option<(int, int)> {
    if spec_match_at(s, i, spec_month_abbrev(1)) {
        Some((1int, i + 3))
    } else if spec_match_at(s, i, spec_month_abbrev(2)) {
        Some((2int, i + 3))
    } else if spec_match_at(s, i, spec_month_abbrev(3)) {
        Some((3int, i + 3))
    } else if spec_match_at(s, i, spec_month_abbrev(4)) {
        Some((4int, i + 3))
    } else if spec_match_at(s, i, spec_month_abbrev(5)) {
        Some((5int, i + 3))
    } else if spec_match_at(s, i, spec_month_abbrev(6)) {
        Some((6int, i + 3))
    } else if spec_match_at(s, i, spec_month_abbrev(7)) {
        Some((7int, i + 3))
    } else if spec_match_at(s, i, spec_month_abbrev(8)) {
        Some((8int, i + 3))
    } else if spec_match_at(s, i, spec_month_abbrev(9)) {
        Some((9int, i + 3))
    } else if spec_match_at(s, i, spec_month_abbrev(10)) {
        Some((10int, i + 3))
    } else if spec_match_at(s, i, spec_month_abbrev(11)) {
        Some((11int, i + 3))
    } else if spec_match_at(s, i, spec_month_abbrev(12)) {
        Some((12int, i + 3))
    } else {
        None
    }
}

/// A day of the month at position `i`: one digit, or two digits not
/// followed by a third, with a nonzero value. A single leading zero is
/// tolerated, as the sources' feeds sometimes pad the day.
pub open spec fn sp_day(s: Seq<char>, i: int) -> Option<(int, int)> {
    if 0 <= i && i < s.len() && spec_is_digit(s[i]) {
        if i + 1 < s.len() && spec_is_digit(s[i + 1]) {
            if 10 * spec_digit_val(s[i]) + spec_digit_val(s[i + 1]) >= 1 {
                Some((10 * spec_digit_val(s[i]) + spec_digit_val(s[i + 1]), i + 2))
            } else {
                None
            }
        } else {
            if spec_digit_val(s[i]) >= 1 {
                Some((spec_digit_val(s[i]), i + 1))
            } else {
                None
            }
        }
    } else {
        None
    }
}

/// Exactly two digits at position `i`.
pub open spec fn sp_2digits(s: Seq<char>, i: int) -> Option<(int, int)> {
    if 0 <= i && i + 2 <= s.len() && spec_is_digit(s[i]) && spec_is_digit(s[i + 1]) {
        Some((10 * spec_digit_val(s[i]) + spec_digit_val(s[i + 1]), i + 2))
    } else {
        None
    }
}

/// Exactly four digits at position `i`.
pub open spec fn sp_4digits(s: Seq<char>, i: int) -> Option<(int, int)> {
    if 0 <= i && i + 4 <= s.len() && spec_is_digit(s[i]) && spec_is_digit(s[i + 1])
        && spec_is_digit(s[i + 2]) && spec_is_digit(s[i + 3]) {
        Some(
            (
                1000 * spec_digit_val(s[i]) + 100 * spec_digit_val(s[i + 1]) + 10 * spec_digit_val(
                    s[i + 2],
                ) + spec_digit_val(s[i + 3]),
                i + 4,
            ),
        )
    } else {
        None
    }
}

/// The date grammar: recognizes the canonical texts of valid fields
/// whose written weekday agrees with the date — the day at most zero
/// padded — and yields those fields.
pub open spec fn sp_parse(s: Seq<char>) -> Option<DateFields> {
    if !spec_match_at(s, 0, "Updated / "@) {
        None
    } else {
        match sp_weekday(s, 10) {
            None => None,
            Some(wp) => if !spec_match_at(s, wp.1, ", "@) {
                None
            } else {
                match sp_day(s, wp.1 + 2) {
                    None => None,
                    Some(dp) => if !spec_match_at(s, dp.1, " "@) {
                        None
                    } else {
                        match sp_month(s, dp.1 + 1) {
                            None => None,
                            Some(mp) => if !spec_match_at(s, mp.1, " "@) {
                                None
                            } else {
                                match sp_4digits(s, mp.1 + 1) {
                                    None => None,
                                    Some(yp) => if !spec_match_at(s, yp.1, " "@) {
                                        None
                                    } else {
                                        match sp_2digits(s, yp.1 + 1) {
                                            None => None,
                                            Some(hp) => if !spec_match_at(s, hp.1, ":"@) {
                                                None
                                            } else {
                                                match sp_2digits(s, hp.1 + 1) {
                                                    None => None,
                                                    Some(np) => sp_finish(
                                                        s,
                                                        wp.0,
                                                        dp.0,
                                                        mp.0,
                                                        yp.0,
                                                        hp.0,
                                                        np.0,
                                                        np.1,
                                                    ),
                                                }
                                            },
                                        }
                                    },
                                }
                            },
                        }
                    },
                }
            },
        }
    }
}

/// The final validity checks of the grammar: the text ends here, the
/// fields denote a real calendar date and time, and the written weekday is
/// the weekday of that date.
pub open spec fn sp_finish(
    s: Seq<char>,
    w: int,
    d: int,
    mo: int,
    y: int,
    h: int,
    mi: int,
    end: int,
) -> Option<DateFields> {
    if end == s.len() && 1 <= d <= spec_days_in_month(y, mo) && h < 24 && mi < 60 && y <= 9999 && w
        == spec_weekday(y, mo, d) {
        Some(
            DateFields {
                year: y as u16,
                month: mo as u8,
                day: d as u8,
                hour: h as u8,
                minute: mi as u8,
            },
        )
    } else {
        None
    }
}

fn exec_weekday_at(s: &str, n: usize, i: usize) -> (r: Option<(u8, usize)>)
    requires
        n == s@.len(),
        i <= n,
    ensures
        match r {
            Some(p) => sp_weekday(s@, i as int) == Some((p.0 as int, p.1 as int)) && p.1 <= n,
            None => sp_weekday(s@, i as int) is None,
        },
{
    let mut w: u8 = 0;
    while w < 7
        invariant
            w <= 7,
            n == s@.len(),
            i <= n,
            forall|v: int| 0 <= v < w ==> !spec_match_at(s@, i as int, spec_weekday_name(v)),
        decreases 7 - w,
    {
        let name = weekday_name_str(w);
        if match_at(s, n, i, name) {
            return Some((w, i + name.unicode_len()));
        }
        w = w + 1;
    }
    None
}

fn exec_month_at(s: &str, n: usize, i: usize) -> (r: Option<(u8, usize)>)
    requires
        n == s@.len(),
        i <= n,
    ensures
        match r {
            Some(p) => sp_month(s@, i as int) == Some((p.0 as int, p.1 as int)) && p.1 <= n,
            None => sp_month(s@, i as int) is None,
        },
{
    let mut m: u8 = 1;
    while m <= 12
        invariant
            1 <= m <= 13,
            n == s@.len(),
            i <= n,
            forall|v: int| 1 <= v < m ==> !spec_match_at(s@, i as int, spec_month_abbrev(v)),
        decreases 13 - m,
    {
        let name = month_abbrev_str(m);
        if match_at(s, n, i, name) {
            proof {
                reveal_strlit("Jan");
                reveal_strlit("Feb");
                reveal_strlit("Mar");
                reveal_strlit("Apr");
                reveal_strlit("May");
                reveal_strlit("Jun");
                reveal_strlit("Jul");
                reveal_strlit("Aug");
                reveal_strlit("Sep");
                reveal_strlit("Oct");
                reveal_strlit("Nov");
                reveal_strlit("Dec");
            }
            return Some((m, i + 3));
        }
        m = m + 1;
    }
    None
}

fn exec_day_at(s: &str, n: usize, i: usize) -> (r: Option<(u32, usize)>)
    requires
        n == s@.len(),
        i <= n,
    ensures
        match r {
            Some(p) => sp_day(s@, i as int) == Some((p.0 as int, p.1 as int)) && p.1 <= n && p.0
                < 100,
            None => sp_day(s@, i as int) is None,
        },
{
    if i >= n {
        return None;
    }
    let v1 = digit_val(s.get_char(i));
    if v1 >= 10 {
        return None;
    }
    if i + 1 < n {
        let v2 = digit_val(s.get_char(i + 1));
        if v2 < 10 {
            if 10 * v1 + v2 >= 1 {
                return Some((10 * v1 + v2, i + 2));
            }
            return None;
        }
    }
    if v1 >= 1 {
        Some((v1, i + 1))
    } else {
        None
    }
}

fn exec_2digits_at(s: &str, n: usize, i: usize) -> (r: Option<(u32, usize)>)
    requires
        n == s@.len(),
        i <= n,
    ensures
        match r {
            Some(p) => sp_2digits(s@, i as int) == Some((p.0 as int, p.1 as int)) && p.1 <= n && p.0
                < 100,
            None => sp_2digits(s@, i as int) is None,
        },
{
    if n - i < 2 {
        return None;
    }
    let v1 = digit_val(s.get_char(i));
    let v2 = digit_val(s.get_char(i + 1));
    if v1 >= 10 || v2 >= 10 {
        return None;
    }
    Some((10 * v1 + v2, i + 2))
}

fn exec_4digits_at(s: &str, n: usize, i: usize) -> (r: Option<(u32, usize)>)
    requires
        n == s@.len(),
        i <= n,
    ensures
        match r {
            Some(p) => sp_4digits(s@, i as int) == Some((p.0 as int, p.1 as int)) && p.1 <= n && p.0
                < 10000,
            None => sp_4digits(s@, i as int) is None,
        },
{
    if n - i < 4 {
        return None;
    }
    let v1 = digit_val(s.get_char(i));
    let v2 = digit_val(s.get_char(i + 1));
    let v3 = digit_val(s.get_char(i + 2));
    let v4 = digit_val(s.get_char(i + 3));
    if v1 >= 10 || v2 >= 10 || v3 >= 10 || v4 >= 10 {
        return None;
    }
    Some((1000 * v1 + 100 * v2 + 10 * v3 + v4, i + 4))
}

/// Parses date text against the grammar, returning its calendar fields
/// exactly when the text is the canonical form of a valid date, with the
/// day at most zero padded.
pub fn parse_date_fields(s: &str) -> (r: Option<DateFields>)
    ensures
        r == sp_parse(s@),
{
    let n = s.unicode_len();
    if !match_at(s, n, 0, "Updated / ") {
        return None;
    }
    proof {
        reveal_strlit("Updated / ");
    }
    let i0: usize = 10;
    let wp = match exec_weekday_at(s, n, i0) {
        Some(p) => p,
        None => {
            return None;
        },
    };
    let (w, i1) = wp;
    if !match_at(s, n, i1, ", ") {
        return None;
    }
    proof {
        reveal_strlit(", ");
    }
    let dp = match exec_day_at(s, n, i1 + 2) {
        Some(p) => p,
        None => {
            return None;
        },
    };
    let (d, i2) = dp;
    if !match_at(s, n, i2, " ") {
        return None;
    }
    proof {
        reveal_strlit(" ");
    }
    let mp = match exec_month_at(s, n, i2 + 1) {
        Some(p) => p,
        None => {
            return None;
        },
    };
    let (mo, i3) = mp;
    if !match_at(s, n, i3, " ") {
        return None;
    }
    let yp = match exec_4digits_at(s, n, i3 + 1) {
        Some(p) => p,
        None => {
            return None;
        },
    };
    let (y, i4) = yp;
    if !match_at(s, n, i4, " ") {
        return None;
    }
    let hp = match exec_2digits_at(s, n, i4 + 1) {
        Some(p) => p,
        None => {
            return None;
        },
    };
    let (h, i5) = hp;
    if !match_at(s, n, i5, ":") {
        return None;
    }
    proof {
        reveal_strlit(":");
    }
    let np = match exec_2digits_at(s, n, i5 + 1) {
        Some(p) => p,
        None => {
            return None;
        },
    };
    let (mi, i6) = np;
    if i6 != n {
        return None;
    }
    let y16: u16 = y as u16;
    let mo8: u8 = mo;
    let d8: u8 = d as u8;
    if d < 1 || d8 > days_in_month(y16, mo8) {
        return None;
    }
    if h >= 24 || mi >= 60 {
        return None;
    }
    let wd = weekday_index(y16, mo8, d8);
    if w != wd {
        return None;
    }
    Some(DateFields { year: y16, month: mo8, day: d8, hour: h as u8, minute: mi as u8 })
}

proof fn lemma_weekday_name_len(w: int)
    requires
        0 <= w < 7,
    ensures
        6 <= spec_weekday_name(w).len() <= 9,
{
    reveal_strlit("Saturday");
    reveal_strlit("Sunday");
    reveal_strlit("Monday");
    reveal_strlit("Tuesday");
    reveal_strlit("Wednesday");
    reveal_strlit("Thursday");
    reveal_strlit("Friday");
}

proof fn lemma_weekday_names_discriminate(v: int, w: int)
    requires
        0 <= v < 7,
        0 <= w < 7,
        v != w,
    ensures
        spec_weekday_name(v)[0] != spec_weekday_name(w)[0] || spec_weekday_name(v)[1]
            != spec_weekday_name(w)[1],
{
    reveal_strlit("Saturday");
    reveal_strlit("Sunday");
    reveal_strlit("Monday");
    reveal_strlit("Tuesday");
    reveal_strlit("Wednesday");
    reveal_strlit("Thursday");
    reveal_strlit("Friday");
}

proof fn lemma_month_abbrev_len(m: int)
    requires
        1 <= m <= 12,
    ensures
        spec_month_abbrev(m).len() == 3,
{
    reveal_strlit("Jan");
    reveal_strlit("Feb");
    reveal_strlit("Mar");
    reveal_strlit("Apr");
    reveal_strlit("May");
    reveal_strlit("Jun");
    reveal_strlit("Jul");
    reveal_strlit("Aug");
    reveal_strlit("Sep");
    reveal_strlit("Oct");
    reveal_strlit("Nov");
    reveal_strlit("Dec");
}

proof fn lemma_month_names_discriminate(v: int, w: int)
    requires
        1 <= v <= 12,
        1 <= w <= 12,
        v != w,
    ensures
        spec_month_abbrev(v)[0] != spec_month_abbrev(w)[0] || spec_month_abbrev(v)[1]
            != spec_month_abbrev(w)[1] || spec_month_abbrev(v)[2] != spec_month_abbrev(w)[2],
{
    reveal_strlit("Jan");
    reveal_strlit("Feb");
    reveal_strlit("Mar");
    reveal_strlit("Apr");
    reveal_strlit("May");
    reveal_strlit("Jun");
    reveal_strlit("Jul");
    reveal_strlit("Aug");
    reveal_strlit("Sep");
    reveal_strlit("Oct");
    reveal_strlit("Nov");
    reveal_strlit("Dec");
}

proof fn lemma_digit_roundtrip(x: int)
    requires
        0 <= x < 10,
    ensures
        spec_is_digit(spec_digit(x)),
        spec_digit_val(spec_digit(x)) == x,
{
}

proof fn lemma_dec4_value(y: int)
    requires
        0 <= y < 10000,
    ensures
        1000 * (y / 1000) + 100 * ((y / 100) % 10) + 10 * ((y / 10) % 10) + y % 10 == y,
{
    vstd::arithmetic::div_mod::lemma_fundamental_div_mod(y, 10);
    vstd::arithmetic::div_mod::lemma_fundamental_div_mod(y / 10, 10);
    vstd::arithmetic::div_mod::lemma_fundamental_div_mod(y / 100, 10);
    vstd::arithmetic::div_mod::lemma_mod_bound(y, 10);
    vstd::arithmetic::div_mod::lemma_mod_bound(y / 10, 10);
    vstd::arithmetic::div_mod::lemma_mod_bound(y / 100, 10);
    vstd::arithmetic::div_mod::lemma_fundamental_div_mod_converse(
        y,
        100,
        (y / 10) / 10,
        10 * ((y / 10) % 10) + y % 10,
    );
    vstd::arithmetic::div_mod::lemma_fundamental_div_mod_converse(
        y,
        1000,
        (y / 100) / 10,
        100 * ((y / 100) % 10) + y % 100,
    );
}

/// The grammar accepts every known-good date text: the canonical text of
/// any valid set of fields parses back to exactly those fields.
#[verifier::rlimit(100)]
pub proof fn lemma_date_text_roundtrip(f: DateFields)
    requires
        f.valid(),
    ensures
        sp_parse(spec_date_text(f)) == Some(f),
{
    let s = spec_date_text(f);
    let y = f.year as int;
    let mo = f.month as int;
    let d = f.day as int;
    let h = f.hour as int;
    let mi = f.minute as int;
    let w = spec_weekday(y, mo, d);
    let name = spec_weekday_name(w);
    let dt = spec_day_text(d);

    reveal_strlit("Updated / ");
    reveal_strlit(", ");
    reveal_strlit(" ");
    reveal_strlit(":");
    lemma_weekday_name_len(w);
    lemma_month_abbrev_len(mo);
    let nl = name.len() as int;
    let dl = dt.len() as int;

    let i1 = 10 + nl;
    let i2 = i1 + 2;
    let i3 = i2 + dl;
    let i4 = i3 + 1;
    let i5 = i4 + 3;
    let i6 = i5 + 1;
    let i7 = i6 + 4;
    let i8 = i7 + 1;
    let i9 = i8 + 2;
    let i10 = i9 + 1;
    let i11 = i10 + 2;
    assert(s.len() == i11);

    assert(s.subrange(0, 10) =~= "Updated / "@);
    assert(s.subrange(10, i1) =~= name);
    assert(s.subrange(i1, i2) =~= ", "@);
    assert(s.subrange(i2, i3) =~= dt);
    assert(s.subrange(i3, i4) =~= " "@);
    assert(s.subrange(i4, i5) =~= spec_month_abbrev(mo));
    assert(s.subrange(i5, i6) =~= " "@);
    assert(s.subrange(i6, i7) =~= spec_dec4(y));
    assert(s.subrange(i7, i8) =~= " "@);
    assert(s.subrange(i8, i9) =~= spec_dec2(h));
    assert(s.subrange(i9, i10) =~= ":"@);
    assert(s.subrange(i10, i11) =~= spec_dec2(mi));

    assert(spec_match_at(s, 0, "Updated / "@));

    assert(spec_match_at(s, 10, name));
    assert(s[10] == name[0]);
    assert(s[11] == name[1]);
    assert forall|v: int| 0 <= v < 7 && v != w implies !spec_match_at(
        s,
        10,
        spec_weekday_name(v),
    ) by {
        lemma_weekday_name_len(v);
        lemma_weekday_names_discriminate(v, w);
        if spec_match_at(s, 10, spec_weekday_name(v)) {
            let vn = spec_weekday_name(v);
            assert(s.subrange(10, 10 + vn.len() as int) == vn);
            assert(s[10] == vn[0]);
            assert(s[11] == vn[1]);
        }
    }
    assert(sp_weekday(s, 10) == Some((w, i1)));

    assert(spec_match_at(s, i1, ", "@));

    // the day's digits, and the space after them
    assert(s[i3] == ' ');
    if d < 10 {
        assert(s[i2] == spec_digit(d));
        lemma_digit_roundtrip(d);
        assert(!spec_is_digit(s[i2 + 1]));
        assert(sp_day(s, i2) == Some((d, i3)));
    } else {
        assert(s[i2] == spec_digit(d / 10));
        assert(s[i2 + 1] == spec_digit(d % 10));
        vstd::arithmetic::div_mod::lemma_fundamental_div_mod(d, 10);
        vstd::arithmetic::div_mod::lemma_mod_bound(d, 10);
        lemma_digit_roundtrip(d / 10);
        lemma_digit_roundtrip(d % 10);
        assert(sp_day(s, i2) == Some((d, i3)));
    }

    assert(spec_match_at(s, i3, " "@));

    assert(spec_match_at(s, i4, spec_month_abbrev(mo)));
    assert(s[i4] == spec_month_abbrev(mo)[0]);
    assert(s[i4 + 1] == spec_month_abbrev(mo)[1]);
    assert(s[i4 + 2] == spec_month_abbrev(mo)[2]);
    assert forall|v: int| 1 <= v <= 12 && v != mo implies !spec_match_at(
        s,
        i4,
        spec_month_abbrev(v),
    ) by {
        lemma_month_abbrev_len(v);
        lemma_month_names_discriminate(v, mo);
        if spec_match_at(s, i4, spec_month_abbrev(v)) {
            let vn = spec_month_abbrev(v);
            assert(s.subrange(i4, i4 + 3) == vn);
            assert(s[i4] == vn[0]);
            assert(s[i4 + 1] == vn[1]);
            assert(s[i4 + 2] == vn[2]);
        }
    }
    assert(sp_month(s, i4) == Some((mo, i5)));

    assert(spec_match_at(s, i5, " "@));

    assert(s[i6] == spec_digit(y / 1000));
    assert(s[i6 + 1] == spec_digit((y / 100) % 10));
    assert(s[i6 + 2] == spec_digit((y / 10) % 10));
    assert(s[i6 + 3] == spec_digit(y % 10));
    vstd::arithmetic::div_mod::lemma_mod_bound(y, 10);
    vstd::arithmetic::div_mod::lemma_mod_bound(y / 10, 10);
    vstd::arithmetic::div_mod::lemma_mod_bound(y / 100, 10);
    lemma_digit_roundtrip(y / 1000);
    lemma_digit_roundtrip((y / 100) % 10);
    lemma_digit_roundtrip((y / 10) % 10);
    lemma_digit_roundtrip(y % 10);
    lemma_dec4_value(y);
    assert(sp_4digits(s, i6) == Some((y, i7)));

    assert(spec_match_at(s, i7, " "@));

    assert(s[i8] == spec_digit(h / 10));
    assert(s[i8 + 1] == spec_digit(h % 10));
    vstd::arithmetic::div_mod::lemma_fundamental_div_mod(h, 10);
    vstd::arithmetic::div_mod::lemma_mod_bound(h, 10);
    lemma_digit_roundtrip(h / 10);
    lemma_digit_roundtrip(h % 10);
    assert(sp_2digits(s, i8) == Some((h, i9)));

    assert(spec_match_at(s, i9, ":"@));

    assert(s[i10] == spec_digit(mi / 10));
    assert(s[i10 + 1] == spec_digit(mi % 10));
    vstd::arithmetic::div_mod::lemma_fundamental_div_mod(mi, 10);
    vstd::arithmetic::div_mod::lemma_mod_bound(mi, 10);
    lemma_digit_roundtrip(mi / 10);
    lemma_digit_roundtrip(mi % 10);
    assert(sp_2digits(s, i10) == Some((mi, i11)));

    assert(sp_finish(s, w, d, mo, y, h, mi, i11) == Some(f));
    assert(sp_parse(s) == Some(f));
}

proof fn lemma_digit_char(c: char)
    requires
        spec_is_digit(c),
    ensures
        spec_digit(spec_digit_val(c)) == c,
{
}

/// The grammar accepts nothing but known-good date texts: whatever it
/// parses is a valid set of fields, and the input is that date's own
/// canonical text, at most with the day zero padded.
#[verifier::rlimit(100)]
pub proof fn lemma_grammar_only_canonical(s: Seq<char>, f: DateFields)
    requires
        sp_parse(s) == Some(f),
    ensures
        f.valid(),
        s == spec_date_text(f) || (f.day < 10 && s == spec_date_text_zero_padded(f)),
{
    reveal_strlit("Updated / ");
    reveal_strlit(", ");
    reveal_strlit(" ");
    reveal_strlit(":");
    assert(spec_match_at(s, 0, "Updated / "@));
    let wp = sp_weekday(s, 10)->Some_0;
    let w = wp.0;
    let i1 = wp.1;
    lemma_weekday_name_len(w);
    let name = spec_weekday_name(w);
    assert(spec_match_at(s, 10, name) && i1 == 10 + name.len());
    assert(spec_match_at(s, i1, ", "@));
    let i2 = i1 + 2;
    let dp = sp_day(s, i2)->Some_0;
    let d = dp.0;
    let i3 = dp.1;
    let v1 = spec_digit_val(s[i2]);
    lemma_digit_char(s[i2]);
    if i2 + 1 < s.len() && spec_is_digit(s[i2 + 1]) {
        let v2 = spec_digit_val(s[i2 + 1]);
        lemma_digit_char(s[i2 + 1]);
        vstd::arithmetic::div_mod::lemma_fundamental_div_mod_converse(d, 10, v1, v2);
        assert(s.subrange(i2, i3) =~= spec_dec2(d));
    } else {
        assert(s.subrange(i2, i3) =~= spec_day_text(d));
    }
    assert(spec_match_at(s, i3, " "@));
    let i4 = i3 + 1;
    let mp = sp_month(s, i4)->Some_0;
    let mo = mp.0;
    let i5 = mp.1;
    lemma_month_abbrev_len(mo);
    assert(spec_match_at(s, i4, spec_month_abbrev(mo)) && i5 == i4 + 3);
    assert(spec_match_at(s, i5, " "@));
    let i6 = i5 + 1;
    let yp = sp_4digits(s, i6)->Some_0;
    let y = yp.0;
    let i7 = yp.1;
    let y1 = spec_digit_val(s[i6]);
    let y2 = spec_digit_val(s[i6 + 1]);
    let y3 = spec_digit_val(s[i6 + 2]);
    let y4 = spec_digit_val(s[i6 + 3]);
    lemma_digit_char(s[i6]);
    lemma_digit_char(s[i6 + 1]);
    lemma_digit_char(s[i6 + 2]);
    lemma_digit_char(s[i6 + 3]);
    vstd::arithmetic::div_mod::lemma_fundamental_div_mod_converse(
        y,
        1000,
        y1,
        100 * y2 + 10 * y3 + y4,
    );
    vstd::arithmetic::div_mod::lemma_fundamental_div_mod_converse(
        y,
        100,
        10 * y1 + y2,
        10 * y3 + y4,
    );
    vstd::arithmetic::div_mod::lemma_fundamental_div_mod_converse(y, 10, 100 * y1 + 10 * y2 + y3, y4);
    vstd::arithmetic::div_mod::lemma_fundamental_div_mod_converse(y / 10, 10, 10 * y1 + y2, y3);
    vstd::arithmetic::div_mod::lemma_fundamental_div_mod_converse(y / 100, 10, y1, y2);
    assert(s.subrange(i6, i7) =~= spec_dec4(y));
    assert(spec_match_at(s, i7, " "@));
    let i8 = i7 + 1;
    let hp = sp_2digits(s, i8)->Some_0;
    let h = hp.0;
    let i9 = hp.1;
    lemma_digit_char(s[i8]);
    lemma_digit_char(s[i8 + 1]);
    vstd::arithmetic::div_mod::lemma_fundamental_div_mod_converse(
        h,
        10,
        spec_digit_val(s[i8]),
        spec_digit_val(s[i8 + 1]),
    );
    assert(s.subrange(i8, i9) =~= spec_dec2(h));
    assert(spec_match_at(s, i9, ":"@));
    let i10 = i9 + 1;
    let np = sp_2digits(s, i10)->Some_0;
    let mi = np.0;
    let i11 = np.1;
    lemma_digit_char(s[i10]);
    lemma_digit_char(s[i10 + 1]);
    vstd::arithmetic::div_mod::lemma_fundamental_div_mod_converse(
        mi,
        10,
        spec_digit_val(s[i10]),
        spec_digit_val(s[i10 + 1]),
    );
    assert(s.subrange(i10, i11) =~= spec_dec2(mi));
    assert(sp_finish(s, w, d, mo, y, h, mi, i11) == Some(f));
    assert(i11 == s.len());
    assert(w == spec_weekday(y, mo, d));
    assert(f.year as int == y && f.month as int == mo && f.day as int == d && f.hour as int == h
        && f.minute as int == mi);
    if i3 == i2 + 2 && d < 10 {
        assert(s =~= "Updated / "@ + spec_weekday_name(w) + ", "@ + spec_dec2(d) + " "@
            + spec_month_abbrev(mo) + " "@ + spec_dec4(y) + " "@ + spec_dec2(h) + ":"@
            + spec_dec2(mi));
    } else {
        assert(s =~= "Updated / "@ + spec_weekday_name(w) + ", "@ + spec_day_text(d) + " "@
            + spec_month_abbrev(mo) + " "@ + spec_dec4(y) + " "@ + spec_dec2(h) + ":"@
            + spec_dec2(mi));
    }
}

/// A known-good date text parses — with or without a fallback — to a
/// timestamp in the configured zone whose calendar fields are exactly
/// the text's own, whenever that local time exists in the zone.
#[verifier::rlimit(100)]
pub proof fn lemma_good_date_parses(fallback_now: bool, f: DateFields, now: Timestamp)
    requires
        f.valid(),
        dublin_offset_of(
            f.year as int,
            f.month as int,
            f.day as int,
            f.hour as int,
            f.minute as int,
            0,
        ) is Some,
    ensures
        spec_parse_date(fallback_now, spec_date_text(f), now) matches Ok(t) && t.year == f.year
            && t.month == f.month && t.day == f.day && t.hour == f.hour && t.minute == f.minute
            && t.second == 0 && t.zone == Zone::Dublin,
{
    let s = spec_date_text(f);
    lemma_date_text_roundtrip(f);
    reveal_strlit("Updated / ");
    assert(s[0] == 'U');
    assert(!spec_is_space(s[0]));
    let mi = f.minute as int;
    assert(s.last() == spec_dec2(mi)[1]);
    assert(s.last() == spec_digit(mi % 10));
    vstd::arithmetic::div_mod::lemma_mod_bound(mi, 10);
    assert(!spec_is_space(s.last()));
    assert(spec_trim_start(s) == s);
    assert(spec_trim_end(s) == s);
    assert(spec_trim(s) == s);
}

/// Attaching the Dublin zone to local calendar fields: the timestamp with
/// the zone's offset at that local time, or a date-parse failure when the
/// local time does not exist there.
pub open spec fn spec_zone_attach(y: int, mo: int, d: int, h: int, mi: int, s: int) -> Result<
    Timestamp,
    ScrapeError,
> {
    match dublin_offset_of(y, mo, d, h, mi, s) {
        Some(off) => Ok(
            Timestamp {
                year: y as u16,
                month: mo as u8,
                day: d as u8,
                hour: h as u8,
                minute: mi as u8,
                second: s as u8,
                offset_seconds: off as i32,
                zone: Zone::Dublin,
            },
        ),
        None => Err(ScrapeError::DateParse),
    }
}

/// The date rule of the configured sources: trim the text, read it
/// against the grammar, and attach the Dublin zone. When the text does
/// not match and the source falls back to the current time, the given
/// `now` stands in; without a fallback the parse fails.
pub open spec fn spec_parse_date(fallback_now: bool, text: Seq<char>, now: Timestamp) -> Result<
    Timestamp,
    ScrapeError,
> {
    match sp_parse(spec_trim(text)) {
        Some(f) => spec_zone_attach(
            f.year as int,
            f.month as int,
            f.day as int,
            f.hour as int,
            f.minute as int,
            0,
        ),
        None => if fallback_now {
            spec_zone_attach(
                now.year as int,
                now.month as int,
                now.day as int,
                now.hour as int,
                now.minute as int,
                now.second as int,
            )
        } else {
            Err(ScrapeError::DateParse)
        },
    }
}

/// Parses a source's publication-date text into a timezone-aware
/// timestamp.
pub fn parse_date(fallback_now: bool, text: &str, now: &Timestamp) -> (r: Result<
    Timestamp,
    ScrapeError,
>)
    requires
        now.wf(),
    ensures
        r == spec_parse_date(fallback_now, text@, *now),
        r matches Ok(t) ==> t.wf() && t.zone == Zone::Dublin,
{
    let trimmed = trim_str(text);
    match parse_date_fields(trimmed.as_str()) {
        Some(f) => {
            match dublin_offset(f.year, f.month, f.day, f.hour, f.minute, 0) {
                Some(off) => Ok(
                    Timestamp {
                        year: f.year,
                        month: f.month,
                        day: f.day,
                        hour: f.hour,
                        minute: f.minute,
                        second: 0,
                        offset_seconds: off,
                        zone: Zone::Dublin,
                    },
                ),
                None => Err(ScrapeError::DateParse),
            }
        },
        None => {
            if fallback_now {
                match dublin_offset(now.year, now.month, now.day, now.hour, now.minute, now.second)
                {
                    Some(off) => Ok(
                        Timestamp {
                            year: now.year,
                            month: now.month,
                            day: now.day,
                            hour: now.hour,
                            minute: now.minute,
                            second: now.second,
                            offset_seconds: off,
                            zone: Zone::Dublin,
                        },
                    ),
                    None => Err(ScrapeError::DateParse),
                }
            } else {
                Err(ScrapeError::DateParse)
            }
        },
    }
}

} // verus!
