//! Detection of the dates on which the clock offset between two time zones changes.

pub mod zone;
pub mod disruption_time;
pub mod timezone_pair;
pub mod index_page;
pub mod disruption_calendar;
