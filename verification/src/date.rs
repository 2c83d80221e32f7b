use vstd::prelude::*;
use vstd::string::StrSliceExecFns;

verus! {

/// A calendar date in the proleptic Gregorian calendar, held as plain
/// year / month / day numbers.
#[derive(Clone, Copy, Debug, PartialEq, Eq, Structural)]
pub struct Date {
    pub year: u16,
    pub month: u8,
    pub day: u8,
}

/// Whether `y` is a leap year in the Gregorian calendar.
pub open spec fn is_leap_year(y: int) -> bool {
    y % 4 == 0 && (y % 100 != 0 || y % 400 == 0)
}

/// Number of days in month `m` of year `y` (for `m` between 1 and 12).
pub open spec fn days_in_month(y: int, m: int) -> int {
    if m == 2 {
        if is_leap_year(y) {
            29
        } else {
            28
        }
    } else if m == 4 || m == 6 || m == 9 || m == 11 {
        30
    } else {
        31
    }
}

/// A well-formed calendar date: a real day of a real month.
pub open spec fn valid_date(d: Date) -> bool {
    1 <= d.month <= 12 && 1 <= d.day <= days_in_month(d.year as int, d.month as int)
}

impl Date {
    /// Checks that the date names a real day of the calendar.
    pub fn is_valid(&self) -> (r: bool)
        ensures
            r == valid_date(*self),
    {
        if !(1 <= self.month && self.month <= 12) {
            return false;
        }
        let days: u8 = if self.month == 2 {
            if (self.year % 4 == 0) && (self.year % 100 != 0 || self.year % 400 == 0) {
                29
            } else {
                28
            }
        } else if self.month == 4 || self.month == 6 || self.month == 9 || self.month == 11 {
            30
        } else {
            31
        };
        1 <= self.day && self.day <= days
    }
}

/// A decimal digit character.
pub open spec fn is_digit_char(c: char) -> bool {
    48 <= c as int <= 57
}

/// Numeric value of a decimal digit character.
pub open spec fn digit_val(c: char) -> int {
    c as int - 48
}

/// A date token: two digits, a slash, two digits, a slash, four digits.
pub open spec fn is_date_token(t: Seq<char>) -> bool {
    &&& t.len() == 10
    &&& is_digit_char(t[0])
    &&& is_digit_char(t[1])
    &&& t[2] == '/'
    &&& is_digit_char(t[3])
    &&& is_digit_char(t[4])
    &&& t[5] == '/'
    &&& is_digit_char(t[6])
    &&& is_digit_char(t[7])
    &&& is_digit_char(t[8])
    &&& is_digit_char(t[9])
}

/// All date tokens of a text, scanned left to right without overlap:
/// at each position, either the next ten characters form a token and the
/// scan resumes after them, or the scan moves on by one character.
pub open spec fn date_tokens(s: Seq<char>) -> Seq<Seq<char>>
    decreases s.len(),
{
    if s.len() < 10 {
        seq![]
    } else if is_date_token(s.take(10)) {
        seq![s.take(10)] + date_tokens(s.skip(10))
    } else {
        date_tokens(s.skip(1))
    }
}

/// The date written in a token, read as day / month / year.
pub open spec fn token_date(t: Seq<char>) -> Date {
    Date {
        year: (digit_val(t[6]) * 1000 + digit_val(t[7]) * 100 + digit_val(t[8]) * 10 + digit_val(
            t[9],
        )) as u16,
        month: (digit_val(t[3]) * 10 + digit_val(t[4])) as u8,
        day: (digit_val(t[0]) * 10 + digit_val(t[1])) as u8,
    }
}

/// Every token found in the text names a valid calendar date.
pub open spec fn all_tokens_valid(s: Seq<char>) -> bool {
    forall|i: int|
        0 <= i < date_tokens(s).len() ==> valid_date(token_date(#[trigger] date_tokens(s)[i]))
}

/// What a date-bearing text yields: either no token at all, or the range
/// from the first token to the last one, in text order.
#[derive(Clone, Copy, Debug, PartialEq, Eq, Structural)]
pub enum DateRange {
    NoDates,
    Range(Date, Date),
}

/// The date range a text denotes: `None` when some token is not a valid
/// calendar date (the fragment it came from is then dropped); otherwise
/// the first and last tokens in text order, unordered chronologically,
/// or `NoDates` when the text holds no token.
pub open spec fn range_spec(s: Seq<char>) -> Option<DateRange> {
    let toks = date_tokens(s);
    if toks.len() == 0 {
        Some(DateRange::NoDates)
    } else if all_tokens_valid(s) {
        Some(DateRange::Range(token_date(toks.first()), token_date(toks.last())))
    } else {
        None
    }
}

/// Reads the decimal value of a digit character, or nothing.
fn digit_of(c: char) -> (r: Option<u8>)
    ensures
        r is Some <==> is_digit_char(c),
        r matches Some(v) ==> v == digit_val(c),
{
    let u = c as u32;
    if 48 <= u && u <= 57 {
        Some((u - 48) as u8)
    } else {
        None
    }
}

/// Tries to read a date token at position `i` of the text and parse it as
/// day / month / year.
fn match_token_at(s: &str, i: usize) -> (r: Option<Date>)
    requires
        i + 10 <= s@.len() <= usize::MAX,
    ensures
        r is Some <==> is_date_token(s@.subrange(i as int, i as int + 10)),
        r matches Some(d) ==> d == token_date(s@.subrange(i as int, i as int + 10)),
{
    let ghost t = s@.subrange(i as int, i as int + 10);
    assert(forall|k: int| 0 <= k < 10 ==> t[k] == s@[i + k]);
    let d0 = digit_of(s.get_char(i));
    let d1 = digit_of(s.get_char(i + 1));
    let s2 = s.get_char(i + 2);
    let m0 = digit_of(s.get_char(i + 3));
    let m1 = digit_of(s.get_char(i + 4));
    let s5 = s.get_char(i + 5);
    let y0 = digit_of(s.get_char(i + 6));
    let y1 = digit_of(s.get_char(i + 7));
    let y2 = digit_of(s.get_char(i + 8));
    let y3 = digit_of(s.get_char(i + 9));
    match (d0, d1, m0, m1, y0, y1, y2, y3) {
        (
            Some(d0),
            Some(d1),
            Some(m0),
            Some(m1),
            Some(y0),
            Some(y1),
            Some(y2),
            Some(y3),
        ) if s2 == '/' && s5 == '/' => {
            let day: u8 = d0 * 10 + d1;
            let month: u8 = m0 * 10 + m1;
            let year: u16 = (y0 as u16) * 1000 + (y1 as u16) * 100 + (y2 as u16) * 10 + (y3 as u16);
            Some(Date { year, month, day })
        },
        _ => None,
    }
}

/// Scans a text for date tokens and parses them.
///
/// Returns `None` when some token of the text is not a valid calendar
/// date; `Some(DateRange::NoDates)` when the text holds no token; and
/// otherwise the range from the first token to the last, in text order.
pub fn parse_date_range(s: &str) -> (r: Option<DateRange>)
    ensures
        r == range_spec(s@),
{
    let n = s.unicode_len();
    let mut i: usize = 0;
    let mut dates: Vec<Date> = Vec::new();
    let ghost mut toks: Seq<Seq<char>> = seq![];
    proof {
        assert(s@.skip(0) =~= s@);
        assert(toks + date_tokens(s@) =~= date_tokens(s@));
    }
    while n - i >= 10
        invariant
            i <= n,
            n == s@.len(),
            date_tokens(s@) == toks + date_tokens(s@.skip(i as int)),
            dates@.len() == toks.len(),
            forall|j: int|
                0 <= j < toks.len() ==> dates@[j] == token_date(#[trigger] toks[j]) && valid_date(
                    dates@[j],
                ),
        decreases n - i,
    {
        let ghost rest = s@.skip(i as int);
        assert(rest.take(10) =~= s@.subrange(i as int, i as int + 10));
        match match_token_at(s, i) {
            Some(d) => {
                assert(date_tokens(rest) == seq![rest.take(10)] + date_tokens(rest.skip(10)));
                assert(rest.skip(10) =~= s@.skip(i as int + 10));
                if !d.is_valid() {
                    proof {
                        let k = toks.len() as int;
                        assert(date_tokens(s@)[k] == rest.take(10));
                        assert(!valid_date(token_date(date_tokens(s@)[k])));
                        assert(!all_tokens_valid(s@));
                        assert(date_tokens(s@).len() > 0);
                    }
                    return None;
                }
                proof {
                    let tok = rest.take(10);
                    assert(d == token_date(tok));
                    let tail = date_tokens(s@.skip(i as int + 10));
                    assert(toks + (seq![tok] + tail) =~= (toks + seq![tok]) + tail);
                    toks = toks + seq![tok];
                }
                dates.push(d);
                i = i + 10;
            },
            None => {
                assert(date_tokens(rest) == date_tokens(rest.skip(1)));
                assert(rest.skip(1) =~= s@.skip(i as int + 1));
                i = i + 1;
            },
        }
    }
    proof {
        assert(date_tokens(s@.skip(i as int)) =~= Seq::<Seq<char>>::empty());
        assert(date_tokens(s@) =~= toks);
    }
    if dates.len() == 0 {
        Some(DateRange::NoDates)
    } else {
        proof {
            assert(all_tokens_valid(s@));
        }
        let first = dates[0];
        let last = dates[dates.len() - 1];
        Some(DateRange::Range(first, last))
    }
}

} // verus!
