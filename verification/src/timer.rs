//! The window of one day, and the windows of a year.

pub mod blend;
pub mod day;
pub mod year;
