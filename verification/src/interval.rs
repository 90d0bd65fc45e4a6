//! Classification of an elapsed day count into a human-scaled interval
//! (day/week/month/year/decade) and its presentation as words and badges.

use vstd::prelude::*;
use vstd::string::*;
use crate::{YEAR, MONTH, WEEK};

verus! {

/// The semantic unit and magnitude of an elapsed interval.
#[derive(PartialEq, Eq, Structural, Debug, Clone, Copy)]
pub enum IntervalEnum {
    Day(usize),
    Week(usize),
    Month(usize),
    Year(usize),
    Decade(usize),
}

/// A classified interval. `days` keeps the raw day count, which badge
/// tiering uses independently of the classified magnitude `e`.
#[derive(PartialEq, Eq, Structural, Debug, Clone, Copy)]
pub struct Interval {
    pub days: usize,
    pub e: IntervalEnum,
}

/// Classification picks the coarsest exact-division tier: a decade only
/// when the year count itself divides evenly by 10, a year only when the
/// day count divides by 365, then a month (30), then a week (7), else raw
/// days. A count of exactly 0 is the special `Day(0)` case.
pub open spec fn spec_classify(days: int) -> IntervalEnum
    recommends
        0 <= days <= usize::MAX,
{
    if days == 0 {
        IntervalEnum::Day(0)
    } else if days % 365 == 0 {
        if (days / 365) % 10 == 0 {
            IntervalEnum::Decade(((days / 365) / 10) as usize)
        } else {
            IntervalEnum::Year((days / 365) as usize)
        }
    } else if days % 30 == 0 {
        IntervalEnum::Month((days / 30) as usize)
    } else if days % 7 == 0 {
        IntervalEnum::Week((days / 7) as usize)
    } else {
        IntervalEnum::Day(days as usize)
    }
}

/// The decimal digit for a value in 0..=9.
pub open spec fn spec_digit_char(d: int) -> char
    recommends
        0 <= d <= 9,
{
    if d == 0 { '0' }
    else if d == 1 { '1' }
    else if d == 2 { '2' }
    else if d == 3 { '3' }
    else if d == 4 { '4' }
    else if d == 5 { '5' }
    else if d == 6 { '6' }
    else if d == 7 { '7' }
    else if d == 8 { '8' }
    else { '9' }
}

/// The usual decimal rendering of a non-negative integer, most
/// significant digit first, no leading zeros (a lone `0` for zero).
pub open spec fn spec_digits(n: int) -> Seq<char>
    recommends
        n >= 0,
    decreases n,
{
    if n < 10 {
        seq![spec_digit_char(n)]
    } else {
        spec_digits(n / 10) + seq![spec_digit_char(n % 10)]
    }
}

/// A character repeated `n` times.
pub open spec fn spec_repeat(c: char, n: int) -> Seq<char>
    recommends
        n >= 0,
{
    Seq::new(n as nat, |i: int| c)
}

/// The words for a classified interval; a magnitude of 1 gets special
/// phrasing, and a raw day count of 0 reads "Recently".
pub open spec fn spec_words(e: IntervalEnum) -> Seq<char> {
    match e {
        IntervalEnum::Decade(n) => if n == 1 {
            "1 decade, that's amazing"@
        } else {
            spec_digits(n as int) + " decades"@
        },
        IntervalEnum::Year(n) => if n == 1 {
            "1 year, happy anniversary!"@
        } else {
            spec_digits(n as int) + " years"@
        },
        IntervalEnum::Month(n) => if n == 1 {
            "1 month"@
        } else {
            spec_digits(n as int) + " months"@
        },
        IntervalEnum::Week(n) => if n == 1 {
            "1 week"@
        } else {
            spec_digits(n as int) + " weeks"@
        },
        IntervalEnum::Day(n) => if n == 0 {
            "Recently"@
        } else if n == 1 {
            "1 day"@
        } else {
            spec_digits(n as int) + " days"@
        },
    }
}

/// The badge string for a raw day count: the first matching tier from the
/// top wins, and its symbol repeats floor(days / tier length) times.
pub open spec fn spec_badges(days: int) -> Seq<char>
    recommends
        days >= 0,
{
    if days >= 3650 {
        spec_repeat('\u{1F48E}', days / 3650)
    } else if days >= 365 {
        spec_repeat('\u{1F31F}', days / 365)
    } else if days >= 30 {
        spec_repeat('\u{2B50}', days / 30)
    } else if days >= 7 {
        spec_repeat('\u{2605}', days / 7)
    } else if days >= 1 {
        spec_repeat('\u{2606}', days)
    } else {
        Seq::<char>::empty()
    }
}

/// The full rendering of an interval: words, one space, then the badge
/// string (so a trailing space remains when the badge string is empty).
pub open spec fn spec_render(iv: Interval) -> Seq<char> {
    spec_words(iv.e) + seq![' '] + spec_badges(iv.days as int)
}

fn digit_str(d: usize) -> (r: &'static str)
    requires
        d < 10,
    ensures
        r@ == seq![spec_digit_char(d as int)],
{
    match d {
        0 => { proof { reveal_strlit("0"); assert("0"@ =~= seq![spec_digit_char(0)]); } "0" },
        1 => { proof { reveal_strlit("1"); assert("1"@ =~= seq![spec_digit_char(1)]); } "1" },
        2 => { proof { reveal_strlit("2"); assert("2"@ =~= seq![spec_digit_char(2)]); } "2" },
        3 => { proof { reveal_strlit("3"); assert("3"@ =~= seq![spec_digit_char(3)]); } "3" },
        4 => { proof { reveal_strlit("4"); assert("4"@ =~= seq![spec_digit_char(4)]); } "4" },
        5 => { proof { reveal_strlit("5"); assert("5"@ =~= seq![spec_digit_char(5)]); } "5" },
        6 => { proof { reveal_strlit("6"); assert("6"@ =~= seq![spec_digit_char(6)]); } "6" },
        7 => { proof { reveal_strlit("7"); assert("7"@ =~= seq![spec_digit_char(7)]); } "7" },
        8 => { proof { reveal_strlit("8"); assert("8"@ =~= seq![spec_digit_char(8)]); } "8" },
        _ => { proof { reveal_strlit("9"); assert("9"@ =~= seq![spec_digit_char(9)]); } "9" },
    }
}

/// The decimal rendering of `n` as an owned string.
pub fn digits_string(n: usize) -> (r: String)
    ensures
        r@ == spec_digits(n as int),
    decreases n,
{
    if n < 10 {
        digit_str(n).to_owned()
    } else {
        let mut s = digits_string(n / 10);
        s.append(digit_str(n % 10));
        s
    }
}

/// A one-character symbol repeated `n` times with no separator.
fn repeat_symbol(sym: &str, n: usize) -> (r: String)
    requires
        sym@.len() == 1,
    ensures
        r@ == spec_repeat(sym@[0], n as int),
{
    let mut s = String::new();
    let mut i: usize = 0;
    proof {
        assert(s@ =~= spec_repeat(sym@[0], 0));
    }
    while i < n
        invariant
            i <= n,
            sym@.len() == 1,
            s@ == spec_repeat(sym@[0], i as int),
        decreases n - i,
    {
        s.append(sym);
        i = i + 1;
        proof {
            assert(sym@ =~= seq![sym@[0]]);
            assert(s@ =~= spec_repeat(sym@[0], i as int));
        }
    }
    s
}

impl Interval {
    /// Builds an `Interval` from a number of days: the raw count is kept
    /// beside its classification.
    pub fn from_days(days: usize) -> (r: Self)
        ensures
            r.days == days,
            r.e == spec_classify(days as int),
    {
        Self { days, e: Self::enum_from_days(days) }
    }

    /// Classifies a day count by the coarsest exact-division tier.
    pub fn enum_from_days(days: usize) -> (r: IntervalEnum)
        ensures
            r == spec_classify(days as int),
    {
        if days == 0 {
            return IntervalEnum::Day(0);
        }
        if days % YEAR == 0 {
            let years = days / YEAR;
            if years % 10 == 0 {
                let decades = years / 10;
                return IntervalEnum::Decade(decades);
            }
            return IntervalEnum::Year(years);
        }
        if days % MONTH == 0 {
            return IntervalEnum::Month(days / MONTH);
        }
        if days % WEEK == 0 {
            return IntervalEnum::Week(days / WEEK);
        }
        IntervalEnum::Day(days)
    }

    /// Converts the classified interval to words, accounting for
    /// singular/plural and the special phrasings for one decade, one
    /// year, and zero days.
    pub fn to_words(&self) -> (r: String)
        ensures
            r@ == spec_words(self.e),
    {
        match self.e {
            IntervalEnum::Decade(d) => {
                if d == 1 {
                    "1 decade, that's amazing".to_owned()
                } else {
                    let mut s = digits_string(d);
                    s.append(" decades");
                    s
                }
            },
            IntervalEnum::Year(y) => {
                if y == 1 {
                    "1 year, happy anniversary!".to_owned()
                } else {
                    let mut s = digits_string(y);
                    s.append(" years");
                    s
                }
            },
            IntervalEnum::Month(m) => {
                if m == 1 {
                    "1 month".to_owned()
                } else {
                    let mut s = digits_string(m);
                    s.append(" months");
                    s
                }
            },
            IntervalEnum::Week(w) => {
                if w == 1 {
                    "1 week".to_owned()
                } else {
                    let mut s = digits_string(w);
                    s.append(" weeks");
                    s
                }
            },
            IntervalEnum::Day(d) => {
                if d == 0 {
                    "Recently".to_owned()
                } else if d == 1 {
                    "1 day".to_owned()
                } else {
                    let mut s = digits_string(d);
                    s.append(" days");
                    s
                }
            },
        }
    }

    /// The badge string for the raw day count, independent of the word
    /// classification.
    pub fn badges(&self) -> (r: String)
        ensures
            r@ == spec_badges(self.days as int),
    {
        let d = self.days;
        if d >= 10 * YEAR {
            proof { reveal_strlit("\u{1F48E}"); }
            repeat_symbol("\u{1F48E}", d / (10 * YEAR))
        } else if d >= YEAR {
            proof { reveal_strlit("\u{1F31F}"); }
            repeat_symbol("\u{1F31F}", d / YEAR)
        } else if d >= MONTH {
            proof { reveal_strlit("\u{2B50}"); }
            repeat_symbol("\u{2B50}", d / MONTH)
        } else if d >= WEEK {
            proof { reveal_strlit("\u{2605}"); }
            repeat_symbol("\u{2605}", d / WEEK)
        } else if d >= 1 {
            proof { reveal_strlit("\u{2606}"); }
            repeat_symbol("\u{2606}", d)
        } else {
            let r = String::new();
            proof { assert(r@ =~= spec_badges(self.days as int)); }
            r
        }
    }

    /// Renders the interval as words, a space, then the badges. The space
    /// remains even when the badge string is empty.
    pub fn render(&self) -> (r: String)
        ensures
            r@ == spec_render(*self),
    {
        let mut s = self.to_words();
        s.append(" ");
        let b = self.badges();
        s.append(b.as_str());
        proof {
            reveal_strlit(" ");
            assert(" "@ =~= seq![' ']);
        }
        s
    }
}

/// One printed achievement line: the label, a colon and space, then the
/// rendered interval.
pub fn achievement_line(label: &str, interval: &Interval) -> (r: String)
    ensures
        r@ == label@ + ": "@ + spec_render(*interval),
{
    let mut s = label.to_owned();
    s.append(": ");
    let rendered = interval.render();
    s.append(rendered.as_str());
    s
}

/// Classification is deterministic and total: for every non-negative day
/// count exactly one tier applies, characterized by the divisibility
/// conditions below, in order of precedence.
pub proof fn lemma_classify_characterization(days: int)
    requires
        0 <= days <= usize::MAX,
    ensures
        days == 0 ==> spec_classify(days) == IntervalEnum::Day(0),
        days > 0 && days % 365 == 0 && (days / 365) % 10 == 0 ==> spec_classify(days)
            == IntervalEnum::Decade(((days / 365) / 10) as usize),
        days > 0 && days % 365 == 0 && (days / 365) % 10 != 0 ==> spec_classify(days)
            == IntervalEnum::Year((days / 365) as usize),
        days > 0 && days % 365 != 0 && days % 30 == 0 ==> spec_classify(days)
            == IntervalEnum::Month((days / 30) as usize),
        days > 0 && days % 365 != 0 && days % 30 != 0 && days % 7 == 0 ==> spec_classify(days)
            == IntervalEnum::Week((days / 7) as usize),
        days > 0 && days % 365 != 0 && days % 30 != 0 && days % 7 != 0 ==> spec_classify(days)
            == IntervalEnum::Day(days as usize),
{
}

} // verus!
