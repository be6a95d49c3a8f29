//! Reading and writing commit and tag timestamps in the textual forms that a
//! repository's history holds: calendar formats, Unix seconds, the raw
//! `<seconds> <±HHMM>` form and relative phrases such as `2 weeks ago`.
pub mod laws;
pub mod parse;
pub mod text;
pub mod time;

pub use crate::parse::parse;
pub use crate::time::Time;
