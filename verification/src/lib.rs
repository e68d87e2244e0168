//! Attendance tracking core: turns an append-only log of clock-in/clock-out
//! events into a live "who is in" view and into monthly per-worker reports
//! rendered as HTML and CSV documents.

pub mod aggregate;
pub mod clock;
pub mod dates;
pub mod live;
pub mod model;
pub mod numfmt;
pub mod render;
pub mod reportgen;
pub mod sorting;
pub mod text;
