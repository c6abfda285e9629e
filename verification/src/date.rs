//! Publication dates: a plain year/month/day triple, ordered
//! chronologically, read from the `YYYY-MM-DD` front-matter form.

use core::cmp::Ordering;

use vstd::prelude::*;

use crate::numeral::{dec_val, is_dec_seq, parse_dec_u32};
use crate::text::{spec_split_sep, split_sep};

verus! {

/// A calendar date as the front matter carries it.
#[derive(Debug, Clone, Copy, PartialEq, Eq, Hash, Structural)]
pub struct PostDate {
    pub day: u32,
    pub month: u32,
    pub year: u32,
}

impl Default for PostDate {
    /// The all-zero date.
    fn default() -> (date: Self)
        ensures
            date == (PostDate { day: 0, month: 0, year: 0 }),
    {
        PostDate { day: 0, month: 0, year: 0 }
    }
}

/// Chronological order: by year, then month, then day.
pub open spec fn spec_date_le(a: PostDate, b: PostDate) -> bool {
    ||| a.year < b.year
    ||| (a.year == b.year && a.month < b.month)
    ||| (a.year == b.year && a.month == b.month && a.day <= b.day)
}

/// The chronological comparison of two dates.
pub open spec fn spec_date_cmp(a: PostDate, b: PostDate) -> Ordering {
    if a.year != b.year {
        if a.year < b.year {
            Ordering::Less
        } else {
            Ordering::Greater
        }
    } else if a.month != b.month {
        if a.month < b.month {
            Ordering::Less
        } else {
            Ordering::Greater
        }
    } else if a.day != b.day {
        if a.day < b.day {
            Ordering::Less
        } else {
            Ordering::Greater
        }
    } else {
        Ordering::Equal
    }
}

impl PartialOrd for PostDate {
    /// Dates compare chronologically.
    fn partial_cmp(&self, other: &Self) -> (ordering: Option<Ordering>)
        ensures
            ordering == Some(spec_date_cmp(*self, *other)),
    {
        if self.year != other.year {
            if self.year < other.year {
                Some(Ordering::Less)
            } else {
                Some(Ordering::Greater)
            }
        } else if self.month != other.month {
            if self.month < other.month {
                Some(Ordering::Less)
            } else {
                Some(Ordering::Greater)
            }
        } else if self.day != other.day {
            if self.day < other.day {
                Some(Ordering::Less)
            } else {
                Some(Ordering::Greater)
            }
        } else {
            Some(Ordering::Equal)
        }
    }
}

impl vstd::std_specs::cmp::PartialOrdSpecImpl for PostDate {
    open spec fn obeys_partial_cmp_spec() -> bool {
        true
    }

    open spec fn partial_cmp_spec(&self, other: &Self) -> Option<Ordering> {
        Some(spec_date_cmp(*self, *other))
    }
}

/// Whether `a` is on or before `b`.
pub fn date_le(a: &PostDate, b: &PostDate) -> (before: bool)
    ensures
        before == spec_date_le(*a, *b),
{
    if a.year != b.year {
        a.year < b.year
    } else if a.month != b.month {
        a.month < b.month
    } else {
        a.day <= b.day
    }
}

/// The short name of month `month`, for months one through twelve.
pub open spec fn spec_month_name(month: nat) -> Seq<char> {
    if month == 1 {
        "Jan"@
    } else if month == 2 {
        "Feb"@
    } else if month == 3 {
        "Mar"@
    } else if month == 4 {
        "Apr"@
    } else if month == 5 {
        "May"@
    } else if month == 6 {
        "Jun"@
    } else if month == 7 {
        "Jul"@
    } else if month == 8 {
        "Aug"@
    } else if month == 9 {
        "Sep"@
    } else if month == 10 {
        "Oct"@
    } else if month == 11 {
        "Nov"@
    } else {
        "Dec"@
    }
}

/// The short month name shown for a date.
pub fn month_name(month: u32) -> (name: &'static str)
    requires
        1 <= month <= 12,
    ensures
        name@ == spec_month_name(month as nat),
{
    if month == 1 {
        "Jan"
    } else if month == 2 {
        "Feb"
    } else if month == 3 {
        "Mar"
    } else if month == 4 {
        "Apr"
    } else if month == 5 {
        "May"
    } else if month == 6 {
        "Jun"
    } else if month == 7 {
        "Jul"
    } else if month == 8 {
        "Aug"
    } else if month == 9 {
        "Sep"
    } else if month == 10 {
        "Oct"
    } else if month == 11 {
        "Nov"
    } else {
        "Dec"
    }
}

/// How a date is displayed under a post: `Mon D, YYYY`.
pub open spec fn spec_date_display(date: PostDate) -> Seq<char> {
    spec_month_name(date.month as nat) + " "@ + crate::numeral::dec_digits(date.day as nat)
        + ", "@ + crate::numeral::dec_digits(date.year as nat)
}

/// Renders a date for display. The month must be a real one.
pub fn format_date(date: &PostDate) -> (shown: String)
    requires
        1 <= date.month <= 12,
    ensures
        shown@ == spec_date_display(*date),
{
    let mut shown = month_name(date.month).to_owned();
    shown.append(" ");
    let day = crate::numeral::usize_to_dec(date.day as usize);
    shown.append(day.as_str());
    shown.append(", ");
    let year = crate::numeral::usize_to_dec(date.year as usize);
    shown.append(year.as_str());
    shown
}

impl core::str::FromStr for PostDate {
    type Err = &'static str;

    fn from_str(s: &str) -> Result<Self, Self::Err> {
        PostDate::from_str(s)
    }
}

/// Whether a dash-separated piece reads as a `u32`.
pub open spec fn piece_is_number(pieces: Seq<Seq<char>>, i: int) -> bool {
    &&& pieces.len() > i
    &&& is_dec_seq(pieces[i])
    &&& dec_val(pieces[i]) <= u32::MAX
}

impl PostDate {
    /// Reads a `YYYY-MM-DD` date: the first three dash-separated
    /// pieces, each a decimal number (anything after them is
    /// ignored). The error names the first piece that is missing or
    /// unreadable.
    pub fn from_str(s: &str) -> (date: Result<Self, &'static str>)
        ensures
            ({
                let pieces = spec_split_sep(s@, '-');
                match date {
                    Ok(parsed) => {
                        &&& piece_is_number(pieces, 0)
                        &&& piece_is_number(pieces, 1)
                        &&& piece_is_number(pieces, 2)
                        &&& parsed.year == dec_val(pieces[0])
                        &&& parsed.month == dec_val(pieces[1])
                        &&& parsed.day == dec_val(pieces[2])
                    },
                    Err(message) => {
                        ||| (!piece_is_number(pieces, 0) && message@ == "could not parse year"@)
                        ||| (piece_is_number(pieces, 0) && !piece_is_number(pieces, 1) && message@
                            == "could not parse month"@)
                        ||| (piece_is_number(pieces, 0) && piece_is_number(pieces, 1)
                            && !piece_is_number(pieces, 2) && message@ == "could not parse date"@)
                    },
                }
            }),
    {
        let pieces = split_sep(s, '-');
        proof {
            crate::text::lemma_split_sep_nonempty(s@, '-');
            assert(pieces@.len() == spec_split_sep(s@, '-').len()) by {
                assert(pieces@.map_values(|piece: String| piece@).len() == pieces@.len());
            }
        }
        let year = match parse_dec_u32(pieces[0].as_str()) {
            Some(year) => year,
            None => {
                return Err("could not parse year");
            },
        };
        if pieces.len() < 2 {
            return Err("could not parse month");
        }
        let month = match parse_dec_u32(pieces[1].as_str()) {
            Some(month) => month,
            None => {
                return Err("could not parse month");
            },
        };
        if pieces.len() < 3 {
            return Err("could not parse date");
        }
        let day = match parse_dec_u32(pieces[2].as_str()) {
            Some(day) => day,
            None => {
                return Err("could not parse date");
            },
        };
        proof {
            let split = spec_split_sep(s@, '-');
            let views = pieces@.map_values(|piece: String| piece@);
            assert(views[0] == pieces@[0]@);
            assert(views[1] == pieces@[1]@);
            assert(views[2] == pieces@[2]@);
            crate::numeral::lemma_dec_seq_val_nonneg(split[0]);
            crate::numeral::lemma_dec_seq_val_nonneg(split[1]);
            crate::numeral::lemma_dec_seq_val_nonneg(split[2]);
        }
        Ok(PostDate { year, month, day })
    }
}

} // verus!
