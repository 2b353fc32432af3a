use vstd::prelude::*;

verus! {

/// The capture slots that every extraction needs; an extraction that finds a
/// match without one of these reports which one was absent first.
#[derive(Debug, Clone, Copy, PartialEq, Eq, Structural)]
pub enum MandatoryField {
    Day,
    Month,
    Hour,
    Minute,
    Second,
}

/// Every failure the library can report. All of them are local, recoverable
/// conditions: no function of the library panics on data input.
#[derive(Debug, Clone, Copy, PartialEq, Eq, Structural)]
pub enum ParseError {
    /// The format specification string was empty.
    EmptyFormat,
    /// Tokenizing the format specification yielded no tokens.
    NoTokens,
    /// The assembled pattern was rejected by the regex engine
    /// (for example, a specification with two day fields repeats a
    /// capture name).
    InvalidRegex,
    /// The pattern did not match the line.
    NoMatch,
    /// The pattern matched but a mandatory capture slot was absent.
    MissingField(MandatoryField),
    /// No year was captured and no fallback year was supplied.
    MissingYear,
    /// No timezone was captured and no fallback offset was supplied.
    MissingOffset,
    /// The captured values do not form a valid calendar date and time.
    InvalidDate,
    /// The timezone designator could not be parsed.
    MalformedTimezone,
    /// No candidate specification matched enough sampled lines.
    NoFormatDetected,
}

} // verus!
