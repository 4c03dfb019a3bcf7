//! Prayer-time status display: cache freshness, schedule resolution and
//! localized rendering of a day's prayer times.

pub mod cache;
pub mod clock;
pub mod hijri;
pub mod prayer;
pub mod render;
pub mod schedule;
pub mod text;
