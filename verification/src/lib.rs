//! Calendar-correct ownership durations: the civil (years, months, days) gap
//! between two dates, and the ranked table of item ages built from it.

pub mod calendar;
pub mod chrono_bridge;
pub mod date;
pub mod months;
pub mod delta;
pub mod parse;
pub mod label;
pub mod report;
