use vstd::prelude::*;

verus! {

/// The result of one successful extraction: the absolute timestamp in
/// milliseconds since the epoch (negative for pre-epoch dates), the line
/// verbatim, a caller-supplied tag, and the original line length, kept
/// separately so a caller may truncate `content` without losing it.
#[derive(Debug)]
pub struct TimedLine {
    pub timestamp: i64,
    pub content: String,
    pub tag: String,
    pub original_length: usize,
}

/// The mathematical model of a `TimedLine`.
pub ghost struct TimedLineModel {
    pub timestamp: int,
    pub content: Seq<char>,
    pub tag: Seq<char>,
    pub original_length: int,
}

pub open spec fn timed_line_model(t: TimedLine) -> TimedLineModel {
    TimedLineModel {
        timestamp: t.timestamp as int,
        content: t.content@,
        tag: t.tag@,
        original_length: t.original_length as int,
    }
}

} // verus!
