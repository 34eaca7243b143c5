use vstd::prelude::*;
use vstd::string::StringExecFns;

use chrono::Datelike;

use crate::category::{trim_str, trimmed};

verus! {

/// A calendar date, without time of day.
#[derive(Debug, Clone, Copy, PartialEq, Eq, Structural)]
pub struct Date {
    pub year: i32,
    pub month: u32,
    pub day: u32,
}

/// The decimal digit for `d < 10`.
pub open spec fn digit_char(d: nat) -> char {
    seq!['0', '1', '2', '3', '4', '5', '6', '7', '8', '9'][d as int]
}

/// The decimal representation of `n`, without leading zeros.
pub open spec fn digits(n: nat) -> Seq<char>
    decreases n,
{
    if n < 10 {
        seq![digit_char(n)]
    } else {
        digits(n / 10).push(digit_char(n % 10))
    }
}

/// `n` in decimal, left-padded with zeros to at least `w` characters.
pub open spec fn padded(n: nat, w: nat) -> Seq<char> {
    if digits(n).len() < w {
        Seq::new((w - digits(n).len()) as nat, |i: int| '0') + digits(n)
    } else {
        digits(n)
    }
}

/// A year written with at least four characters, the sign included.
pub open spec fn year_text(y: int) -> Seq<char> {
    if y < 0 {
        seq!['-'] + padded((-y) as nat, 3)
    } else {
        padded(y as nat, 4)
    }
}

/// `YYYY-MM-DD`, each part zero-padded.
pub open spec fn date_text(d: Date) -> Seq<char> {
    year_text(d.year as int) + seq!['-'] + padded(d.month as nat, 2) + seq!['-'] + padded(
        d.day as nat,
        2,
    )
}

fn digit_str(d: u32) -> (r: &'static str)
    requires
        d < 10,
    ensures
        r@ == seq![digit_char(d as nat)],
{
    match d {
        0 => {
            proof {
                reveal_strlit("0");
            }
            "0"
        },
        1 => {
            proof {
                reveal_strlit("1");
            }
            "1"
        },
        2 => {
            proof {
                reveal_strlit("2");
            }
            "2"
        },
        3 => {
            proof {
                reveal_strlit("3");
            }
            "3"
        },
        4 => {
            proof {
                reveal_strlit("4");
            }
            "4"
        },
        5 => {
            proof {
                reveal_strlit("5");
            }
            "5"
        },
        6 => {
            proof {
                reveal_strlit("6");
            }
            "6"
        },
        7 => {
            proof {
                reveal_strlit("7");
            }
            "7"
        },
        8 => {
            proof {
                reveal_strlit("8");
            }
            "8"
        },
        _ => {
            proof {
                reveal_strlit("9");
            }
            "9"
        },
    }
}

fn push_digits(out: &mut String, n: u32)
    ensures
        final(out)@ == old(out)@ + digits(n as nat),
    decreases n,
{
    if n >= 10 {
        push_digits(out, n / 10);
    }
    out.append(digit_str(n % 10));
    assert(final(out)@ =~= old(out)@ + digits(n as nat));
}

fn count_digits(n: u32) -> (r: usize)
    ensures
        r == digits(n as nat).len(),
        r as nat <= n as nat + 1,
    decreases n,
{
    if n < 10 {
        1
    } else {
        count_digits(n / 10) + 1
    }
}

fn push_padded(out: &mut String, n: u32, w: usize)
    ensures
        final(out)@ == old(out)@ + padded(n as nat, w as nat),
{
    let c = count_digits(n);
    let mut k: usize = c;
    let ghost start = out@;
    while k < w
        invariant
            c <= k,
            c < w ==> k <= w,
            c >= w ==> k == c,
            start == old(out)@,
            out@ == start + Seq::new((k - c) as nat, |i: int| '0'),
        decreases w - k,
    {
        out.append("0");
        proof {
            reveal_strlit("0");
        }
        assert(out@ =~= start + Seq::new((k + 1 - c) as nat, |i: int| '0'));
        k = k + 1;
    }
    let ghost zeros = Seq::new((k - c) as nat, |i: int| '0');
    push_digits(out, n);
    assert(out@ == start + zeros + digits(n as nat));
    if c < w {
        assert(zeros =~= Seq::new((w - digits(n as nat).len()) as nat, |i: int| '0'));
    } else {
        assert(zeros =~= Seq::<char>::empty());
    }
    assert(out@ =~= old(out)@ + padded(n as nat, w as nat));
}

impl Date {
    /// A month of the year and a day of the month.
    pub open spec fn wf(self) -> bool {
        1 <= self.month <= 12 && 1 <= self.day <= 31
    }

    /// The date `year-month-day`; `None` where the month or the day is out of range.
    pub fn new(year: i32, month: u32, day: u32) -> (r: Option<Date>)
        ensures
            (1 <= month <= 12 && 1 <= day <= 31) <==> r is Some,
            r matches Some(d) ==> d.wf() && d.year == year && d.month == month && d.day == day,
    {
        if 1 <= month && month <= 12 && 1 <= day && day <= 31 {
            Some(Date { year, month, day })
        } else {
            None
        }
    }

    /// The date as `YYYY-MM-DD`, each part zero-padded.
    pub fn to_text(&self) -> (r: String)
        ensures
            r@ == date_text(*self),
    {
        let mut out = String::new();
        if self.year < 0 {
            out.append("-");
            proof {
                reveal_strlit("-");
            }
            let y: i64 = self.year as i64;
            push_padded(&mut out, (-y) as u32, 3);
        } else {
            push_padded(&mut out, self.year as u32, 4);
        }
        out.append("-");
        push_padded(&mut out, self.month, 2);
        out.append("-");
        push_padded(&mut out, self.day, 2);
        proof {
            reveal_strlit("-");
        }
        assert(out@ =~= date_text(*self));
        out
    }
}

/// The year, month and day that `chrono::NaiveDate::parse_from_str` reads.
pub uninterp spec fn naive_date_of(s: Seq<char>, fmt: Seq<char>) -> Option<(i32, u32, u32)>;

/// The date part of what `chrono::DateTime::parse_from_rfc3339` reads.
pub uninterp spec fn rfc3339_date_of(s: Seq<char>) -> Option<(i32, u32, u32)>;

/// The date part of what `chrono::NaiveDateTime::parse_from_str` reads.
pub uninterp spec fn naive_datetime_date_of(s: Seq<char>, fmt: Seq<char>) -> Option<(i32, u32, u32)>;

/// The date part, in its own offset, of what `chrono::DateTime::parse_from_str` reads.
pub uninterp spec fn zoned_date_of(s: Seq<char>, fmt: Seq<char>) -> Option<(i32, u32, u32)>;

/// Relies on `chrono::NaiveDate::parse_from_str`; the result depends on its
/// arguments alone.
#[verifier::external_body]
fn parse_naive_date(s: &str, fmt: &str) -> (r: Option<(i32, u32, u32)>)
    ensures
        r == naive_date_of(s@, fmt@),
{
    chrono::NaiveDate::parse_from_str(s, fmt).ok().map(|d| (d.year(), d.month(), d.day()))
}

/// Relies on `chrono::DateTime::parse_from_rfc3339`, keeping the local date.
#[verifier::external_body]
fn parse_rfc3339(s: &str) -> (r: Option<(i32, u32, u32)>)
    ensures
        r == rfc3339_date_of(s@),
{
    chrono::DateTime::parse_from_rfc3339(s).ok().map(|t| (t.year(), t.month(), t.day()))
}

/// Relies on `chrono::NaiveDateTime::parse_from_str`, keeping the date.
#[verifier::external_body]
fn parse_naive_datetime(s: &str, fmt: &str) -> (r: Option<(i32, u32, u32)>)
    ensures
        r == naive_datetime_date_of(s@, fmt@),
{
    chrono::NaiveDateTime::parse_from_str(s, fmt).ok().map(|t| (t.year(), t.month(), t.day()))
}

/// Relies on `chrono::DateTime::parse_from_str`, keeping the local date.
#[verifier::external_body]
fn parse_zoned(s: &str, fmt: &str) -> (r: Option<(i32, u32, u32)>)
    ensures
        r == zoned_date_of(s@, fmt@),
{
    chrono::DateTime::parse_from_str(s, fmt).ok().map(|t| (t.year(), t.month(), t.day()))
}

/// The first reading of a date text, tried in turn: `YYYY-MM-DD`, RFC 3339,
/// `YYYY-MM-DD hh:mm:ss`, then that followed by an offset.
pub open spec fn date_reading(t: Seq<char>) -> Option<(i32, u32, u32)> {
    if naive_date_of(t, "%Y-%m-%d"@) is Some {
        naive_date_of(t, "%Y-%m-%d"@)
    } else if rfc3339_date_of(t) is Some {
        rfc3339_date_of(t)
    } else if naive_datetime_date_of(t, "%Y-%m-%d %H:%M:%S"@) is Some {
        naive_datetime_date_of(t, "%Y-%m-%d %H:%M:%S"@)
    } else {
        zoned_date_of(t, "%Y-%m-%d %H:%M:%S %z"@)
    }
}

/// Reads the date of a metadata block, ignoring surrounding white space.
/// `None` where no reading fits or the month or day is out of range.
pub fn parse_date(s: &str) -> (r: Option<Date>)
    ensures
        match date_reading(trimmed(s@)) {
            Some(ymd) => if 1 <= ymd.1 <= 12 && 1 <= ymd.2 <= 31 {
                r == Some(Date { year: ymd.0, month: ymd.1, day: ymd.2 })
            } else {
                r is None
            },
            None => r is None,
        },
{
    let t = trim_str(s);
    let mut ymd = parse_naive_date(t, "%Y-%m-%d");
    if ymd.is_none() {
        ymd = parse_rfc3339(t);
    }
    if ymd.is_none() {
        ymd = parse_naive_datetime(t, "%Y-%m-%d %H:%M:%S");
    }
    if ymd.is_none() {
        ymd = parse_zoned(t, "%Y-%m-%d %H:%M:%S %z");
    }
    match ymd {
        Some((y, m, d)) => Date::new(y, m, d),
        None => None,
    }
}

} // verus!
