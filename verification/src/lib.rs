//! Elapsed-time achievements: classify a day count into a human-scaled
//! interval (day/week/month/year/decade), render it with celebratory
//! phrasing and a badge string, and keep a small store of labeled
//! milestone dates.

use vstd::prelude::*;

pub mod config;
pub mod elapsed;
pub mod interval;

pub use elapsed::{days_since, Timestamp};
pub use interval::{Interval, IntervalEnum};

verus! {

/// Days in an (approximate) year.
pub const YEAR: usize = 365;

/// Days in an (approximate) month.
pub const MONTH: usize = 30;

/// Days in a week.
pub const WEEK: usize = 7;

/// Seconds in a day.
pub const DAY_IN_SECONDS: usize = 24 * 60 * 60;

} // verus!
