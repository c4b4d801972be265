//! Date and time values with a fully specified textual rendering.
//!
//! The crate models calendar dates, times of day and fixed-offset instants as
//! plain integer fields, states their validity as spec-level invariants, and
//! proves that the rendering functions produce exactly the character sequences
//! that the display specifications describe.

pub mod calendar;
pub mod chrono_bridge;
pub mod date_format;
pub mod digits;

pub use calendar::CivilDateTime;
pub use calendar::Date;
pub use calendar::Time;
pub use chrono_bridge::LocalInstant;
pub use chrono_bridge::OffsetInstant;
pub use chrono_bridge::UtcInstant;
pub use date_format::DateValue;
pub use date_format::ZonedDateTime;
