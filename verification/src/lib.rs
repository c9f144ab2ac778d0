//! Inspection of recorded agent sessions: classify each entry as active or
//! stopped, describe how long ago it was updated, and render the whole
//! registry as a fixed-width table.

pub mod clock;
pub mod digits;
pub mod messages;
pub mod sessions;
pub mod table;
pub mod time;
