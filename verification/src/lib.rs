//! A small compiler for compact date/time format specifications such as
//! `"DD-MM-YYYY hh:mm:ss.s TZD"`: it tokenizes a specification, compiles the
//! tokens into a regular expression with fixed named capture slots, extracts
//! epoch-millisecond timestamps from matching lines, and picks which of
//! several candidate specifications best fits a sampled file.

pub mod calendar;
pub mod detect;
pub mod digits;
pub mod errors;
pub mod extract;
pub mod pattern;
pub mod strutil;
pub mod timedline;
pub mod timezone;
pub mod tokenizer;

pub use detect::{detect_timestamp_format, detect_timestamp_format_with_limits};
pub use errors::{MandatoryField, ParseError};
pub use extract::{line_to_timed_line, timed_line_from_captures};
pub use pattern::{date_format_str_to_regex, line_matching_format_expression, LineCaptures};
pub use timedline::TimedLine;
pub use timezone::parse_timezone;
pub use tokenizer::{any_date_format, date_expression, FormatPiece};
