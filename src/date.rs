use vstd::prelude::*;

verus! {

/// A calendar date of the proleptic Gregorian calendar with a four-digit year.
#[derive(Clone, Copy, Debug, PartialEq, Eq, Structural)]
pub struct Date {
    pub year: i32,
    pub month: u32,
    pub day: u32,
}

pub open spec fn is_leap_year(y: int) -> bool {
    (y % 4 == 0 && y % 100 != 0) || y % 400 == 0
}

pub open spec fn days_in_month(y: int, m: int) -> int {
    if m == 2 {
        if is_leap_year(y) {
            29
        } else {
            28
        }
    } else if m == 4 || m == 6 || m == 9 || m == 11 {
        30
    } else {
        31
    }
}

/// `(y, m, d)` names a day of the calendar.
pub open spec fn is_calendar_date(y: int, m: int, d: int) -> bool {
    1 <= m <= 12 && 1 <= d <= days_in_month(y, m)
}

impl Date {
    /// A date whose year is written with exactly four digits.
    pub open spec fn wf(&self) -> bool {
        0 <= self.year <= 9999 && is_calendar_date(self.year as int, self.month as int, self.day as int)
    }
}

pub open spec fn digit(n: int) -> char {
    ((n % 10) + ('0' as int)) as char
}

/// `n` written with exactly `width` decimal digits, zero-padded on the left.
pub open spec fn padded(n: int, width: nat) -> Seq<char>
    decreases width,
{
    if width == 0 {
        Seq::empty()
    } else {
        padded(n / 10, (width - 1) as nat).push(digit(n))
    }
}

/// The ISO form `YYYY-MM-DD` of a date.
pub open spec fn iso_text(d: Date) -> Seq<char> {
    padded(d.year as int, 4) + seq!['-'] + padded(d.month as int, 2) + seq!['-'] + padded(d.day as int, 2)
}

pub open spec fn month_abbrev(m: int) -> Seq<char> {
    if m == 1 {
        seq!['J', 'a', 'n']
    } else if m == 2 {
        seq!['F', 'e', 'b']
    } else if m == 3 {
        seq!['M', 'a', 'r']
    } else if m == 4 {
        seq!['A', 'p', 'r']
    } else if m == 5 {
        seq!['M', 'a', 'y']
    } else if m == 6 {
        seq!['J', 'u', 'n']
    } else if m == 7 {
        seq!['J', 'u', 'l']
    } else if m == 8 {
        seq!['A', 'u', 'g']
    } else if m == 9 {
        seq!['S', 'e', 'p']
    } else if m == 10 {
        seq!['O', 'c', 't']
    } else if m == 11 {
        seq!['N', 'o', 'v']
    } else {
        seq!['D', 'e', 'c']
    }
}

/// The listing form `DD Mon YYYY` of a date, as in `01 Apr 2023`.
pub open spec fn listing_text(d: Date) -> Seq<char> {
    padded(d.day as int, 2) + seq![' '] + month_abbrev(d.month as int) + seq![' '] + padded(
        d.year as int,
        4,
    )
}

/// Appends `n` written with `width` digits to `out`.
fn push_padded(out: &mut Vec<char>, n: u32, width: usize)
    requires
        width <= 4,
    ensures
        final(out)@ == old(out)@ + padded(n as int, width as nat),
    decreases width,
{
    if width > 0 {
        push_padded(out, n / 10, width - 1);
        let c = char_of_digit(n % 10);
        out.push(c);
        assert(padded(n as int, width as nat) == padded((n / 10) as int, (width - 1) as nat).push(
            digit(n as int),
        ));
    }
}

fn char_of_digit(k: u32) -> (c: char)
    requires
        k < 10,
    ensures
        c == digit(k as int),
{
    if k == 0 {
        '0'
    } else if k == 1 {
        '1'
    } else if k == 2 {
        '2'
    } else if k == 3 {
        '3'
    } else if k == 4 {
        '4'
    } else if k == 5 {
        '5'
    } else if k == 6 {
        '6'
    } else if k == 7 {
        '7'
    } else if k == 8 {
        '8'
    } else {
        '9'
    }
}

impl Date {
    /// Appends the ISO form `YYYY-MM-DD` of the date to `out`.
    pub fn push_iso(&self, out: &mut Vec<char>)
        requires
            self.wf(),
        ensures
            final(out)@ == old(out)@ + iso_text(*self),
    {
        push_padded(out, self.year as u32, 4);
        out.push('-');
        push_padded(out, self.month, 2);
        out.push('-');
        push_padded(out, self.day, 2);
    }

    /// Appends the listing form `DD Mon YYYY` of the date to `out`.
    pub fn push_listing(&self, out: &mut Vec<char>)
        requires
            self.wf(),
        ensures
            final(out)@ == old(out)@ + listing_text(*self),
    {
        push_padded(out, self.day, 2);
        out.push(' ');
        let m = self.month;
        let abbrev: [char; 3] = if m == 1 {
            ['J', 'a', 'n']
        } else if m == 2 {
            ['F', 'e', 'b']
        } else if m == 3 {
            ['M', 'a', 'r']
        } else if m == 4 {
            ['A', 'p', 'r']
        } else if m == 5 {
            ['M', 'a', 'y']
        } else if m == 6 {
            ['J', 'u', 'n']
        } else if m == 7 {
            ['J', 'u', 'l']
        } else if m == 8 {
            ['A', 'u', 'g']
        } else if m == 9 {
            ['S', 'e', 'p']
        } else if m == 10 {
            ['O', 'c', 't']
        } else if m == 11 {
            ['N', 'o', 'v']
        } else {
            ['D', 'e', 'c']
        };
        out.push(abbrev[0]);
        out.push(abbrev[1]);
        out.push(abbrev[2]);
        out.push(' ');
        push_padded(out, self.year as u32, 4);
    }

    /// Whether the date is a day of the calendar with a four-digit year.
    pub fn is_valid(&self) -> (r: bool)
        ensures
            r == self.wf(),
    {
        let y = self.year;
        let m = self.month;
        let leap = (y % 4 == 0 && y % 100 != 0) || y % 400 == 0;
        let last: u32 = if m == 2 {
            if leap {
                29
            } else {
                28
            }
        } else if m == 4 || m == 6 || m == 9 || m == 11 {
            30
        } else {
            31
        };
        0 <= y && y <= 9999 && 1 <= m && m <= 12 && 1 <= self.day && self.day <= last
    }

    /// The ISO form `YYYY-MM-DD` of the date.
    pub fn to_iso_string(&self) -> (r: String)
        requires
            self.wf(),
        ensures
            r@ == iso_text(*self),
    {
        let mut v: Vec<char> = Vec::new();
        self.push_iso(&mut v);
        crate::text::string_of(&v)
    }
}

} // verus!

use chrono::Datelike;

verus! {

/// The `(year, month, day)` that chrono reads from `s` in the format `%Y-%m-%d`.
pub uninterp spec fn iso_date_parse_of(s: Seq<char>) -> Option<(i32, u32, u32)>;

#[verifier::external_type_specification]
#[verifier::external_body]
pub struct ExChronoParseError(chrono::ParseError);

/// Relies on `chrono::NaiveDate::parse_from_str` with the format `%Y-%m-%d`.
#[verifier::external_body]
pub(crate) fn parse_ymd(s: &str) -> (r: Result<(i32, u32, u32), chrono::ParseError>)
    ensures
        r is Ok <==> iso_date_parse_of(s@) is Some,
        r matches Ok(t) ==> iso_date_parse_of(s@) == Some(t),
{
    chrono::NaiveDate::parse_from_str(s, "%Y-%m-%d").map(|d| (d.year(), d.month(), d.day()))
}

/// The date that a parsed `(year, month, day)` names, where it is a day of the calendar
/// with a four-digit year.
pub open spec fn date_of_parsed(t: Option<(i32, u32, u32)>) -> Option<Date> {
    match t {
        Some(t) => if 0 <= t.0 <= 9999 && is_calendar_date(t.0 as int, t.1 as int, t.2 as int) {
            Some(Date { year: t.0, month: t.1, day: t.2 })
        } else {
            None
        },
        None => None,
    }
}

/// The date that `s` spells in ISO form, if chrono reads one with a four-digit year.
pub open spec fn iso_date_of(s: Seq<char>) -> Option<Date> {
    date_of_parsed(iso_date_parse_of(s))
}

impl Date {
    /// The date named by a parsed `(year, month, day)`; `None` where there is none, or
    /// where it is no day of the calendar with a four-digit year.
    pub fn from_parsed(t: Option<(i32, u32, u32)>) -> (r: Option<Date>)
        ensures
            r == date_of_parsed(t),
            r matches Some(d) ==> d.wf(),
    {
        match t {
            Some(t) => {
                let d = Date { year: t.0, month: t.1, day: t.2 };
                if d.is_valid() {
                    Some(d)
                } else {
                    None
                }
            },
            None => None,
        }
    }

    /// Reads a date written `YYYY-MM-DD`; `None` where `s` names no such day.
    pub fn parse_iso(s: &str) -> (r: Option<Date>)
        ensures
            r == iso_date_of(s@),
            r matches Some(d) ==> d.wf(),
    {
        let t = match parse_ymd(s) {
            Ok(t) => Some(t),
            Err(_) => None,
        };
        Date::from_parsed(t)
    }
}

} // verus!
