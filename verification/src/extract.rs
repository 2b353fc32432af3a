use vstd::prelude::*;

verus! {

use crate::calendar::{
    check_civil, chrono_epoch_millis, epoch_millis, lemma_epoch_millis_bounds, valid_civil,
    valid_hms,
};
use crate::digits::{parse_u32_digits, parse_year_digits, parsed_u32, parsed_year};
use crate::errors::{MandatoryField, ParseError};
use crate::pattern::{
    opt_view, re_pattern, regex_captures, regex_group, regex_is_match, LineCaptures,
};
use crate::timedline::{timed_line_model, TimedLine, TimedLineModel};
use crate::timezone::{lemma_tz_offset_bounds, parse_timezone, tz_offset_spec};

/// Largest fallback-offset magnitude the extractor accepts, in milliseconds;
/// it keeps the final subtraction inside `i64`.
pub const MAX_FALLBACK_OFFSET_MS: i64 = 1000000000000000;

/// The capture slots of one match, as sequences of characters.
pub ghost struct CapturesModel {
    pub day: Option<Seq<char>>,
    pub month: Option<Seq<char>>,
    pub year: Option<Seq<char>>,
    pub hour: Option<Seq<char>>,
    pub minute: Option<Seq<char>>,
    pub second: Option<Seq<char>>,
    pub millis: Option<Seq<char>>,
    pub timezone: Option<Seq<char>>,
}

pub open spec fn caps_model(c: LineCaptures) -> CapturesModel {
    CapturesModel {
        day: opt_view(c.day),
        month: opt_view(c.month),
        year: opt_view(c.year),
        hour: opt_view(c.hour),
        minute: opt_view(c.minute),
        second: opt_view(c.second),
        millis: opt_view(c.millis),
        timezone: opt_view(c.timezone),
    }
}

/// The capture slots a pattern yields on a line, named after what the regex
/// engine hands out for each fixed group name.
pub open spec fn groups_model(p: Seq<char>, line: Seq<char>) -> CapturesModel {
    CapturesModel {
        day: regex_group(p, line, "d"@),
        month: regex_group(p, line, "m"@),
        year: regex_group(p, line, "Y"@),
        hour: regex_group(p, line, "H"@),
        minute: regex_group(p, line, "M"@),
        second: regex_group(p, line, "S"@),
        millis: regex_group(p, line, "millis"@),
        timezone: regex_group(p, line, "timezone"@),
    }
}

pub open spec fn txt(o: Option<Seq<char>>) -> Seq<char> {
    match o {
        Some(s) => s,
        None => Seq::empty(),
    }
}

pub open spec fn val_of(o: Option<int>) -> int {
    match o {
        Some(v) => v,
        None => 0,
    }
}

/// The millisecond fraction: the parsed capture, or zero when the pattern
/// captured none.
pub open spec fn millis_value(captured: Option<Seq<char>>) -> Option<int> {
    match captured {
        Some(t) => parsed_u32(t),
        None => Some(0),
    }
}

/// The year an extraction uses: a captured year wins and must parse; only
/// with no year capture does the fallback year count.
pub open spec fn resolved_year(captured: Option<Seq<char>>, fallback: Option<i32>) -> Option<int> {
    match captured {
        Some(ytext) => parsed_year(ytext),
        None => match fallback {
            Some(y) => Some(y as int),
            None => None,
        },
    }
}

/// The offset an extraction subtracts: a supplied fallback offset wins
/// outright and any captured timezone text is then ignored; otherwise the
/// captured designator must parse.
pub open spec fn resolved_offset(captured: Option<Seq<char>>, fallback: Option<i64>) -> Option<
    int,
> {
    match fallback {
        Some(o) => Some(o as int),
        None => match captured {
            Some(t) => tz_offset_spec(t),
            None => None,
        },
    }
}

/// What extracting from one set of captures yields, step by step: the
/// mandatory day, month, hour, minute and second slots must be present and
/// numeric; the fraction defaults to zero; an offset must be available, and
/// a year; the calendar values must name a real date and clock reading; and
/// the timestamp is then the naive epoch reading minus the offset.
pub open spec fn spec_extract(
    g: CapturesModel,
    line: Seq<char>,
    tag: Seq<char>,
    olen: int,
    year: Option<i32>,
    time_offset: Option<i64>,
) -> Result<TimedLineModel, ParseError> {
    if g.day is None {
        Err(ParseError::MissingField(MandatoryField::Day))
    } else if g.month is None {
        Err(ParseError::MissingField(MandatoryField::Month))
    } else if parsed_u32(txt(g.day)) is None || parsed_u32(txt(g.month)) is None {
        Err(ParseError::InvalidDate)
    } else if g.hour is None {
        Err(ParseError::MissingField(MandatoryField::Hour))
    } else if g.minute is None {
        Err(ParseError::MissingField(MandatoryField::Minute))
    } else if g.second is None {
        Err(ParseError::MissingField(MandatoryField::Second))
    } else if parsed_u32(txt(g.hour)) is None || parsed_u32(txt(g.minute)) is None || parsed_u32(
        txt(g.second),
    ) is None || millis_value(g.millis) is None {
        Err(ParseError::InvalidDate)
    } else if time_offset is None && g.timezone is None {
        Err(ParseError::MissingOffset)
    } else {
        match (resolved_year(g.year, year), resolved_offset(g.timezone, time_offset)) {
            (None, _) => Err(ParseError::MissingYear),
            (Some(_), None) => Err(ParseError::MalformedTimezone),
            (Some(y), Some(off)) => {
                let d = val_of(parsed_u32(txt(g.day)));
                let mo = val_of(parsed_u32(txt(g.month)));
                let h = val_of(parsed_u32(txt(g.hour)));
                let mi = val_of(parsed_u32(txt(g.minute)));
                let sec = val_of(parsed_u32(txt(g.second)));
                let ms = val_of(millis_value(g.millis));
                if !valid_civil(y, mo, d) || !valid_hms(h, mi, sec, ms) {
                    Err(ParseError::InvalidDate)
                } else {
                    Ok(
                        TimedLineModel {
                            timestamp: epoch_millis(y, mo, d, h, mi, sec, ms) - off,
                            content: line,
                            tag: tag,
                            original_length: olen,
                        },
                    )
                }
            },
        }
    }
}

/// Turns one set of captures into a timed line, exactly as `spec_extract`
/// describes. Public so that a caller holding captures from any source gets
/// the extraction policy verified for every value of them.
pub fn timed_line_from_captures(
    caps: &LineCaptures,
    line: &str,
    original_line_length: usize,
    tag: &str,
    year: Option<i32>,
    time_offset: Option<i64>,
) -> (r: Result<TimedLine, ParseError>)
    requires
        time_offset matches Some(o) ==> -MAX_FALLBACK_OFFSET_MS <= o <= MAX_FALLBACK_OFFSET_MS,
    ensures
        match r {
            Ok(t) => spec_extract(
                caps_model(*caps),
                line@,
                tag@,
                original_line_length as int,
                year,
                time_offset,
            ) == Ok::<TimedLineModel, ParseError>(timed_line_model(t)),
            Err(e) => spec_extract(
                caps_model(*caps),
                line@,
                tag@,
                original_line_length as int,
                year,
                time_offset,
            ) == Err::<TimedLineModel, ParseError>(e),
        },
{
    let day_s: &String = match &caps.day {
        Some(s) => s,
        None => {
            return Err(ParseError::MissingField(MandatoryField::Day));
        },
    };
    let month_s: &String = match &caps.month {
        Some(s) => s,
        None => {
            return Err(ParseError::MissingField(MandatoryField::Month));
        },
    };
    let day_v: u32 = match parse_u32_digits(day_s.as_str()) {
        Some(v) => v,
        None => {
            return Err(ParseError::InvalidDate);
        },
    };
    let month_v: u32 = match parse_u32_digits(month_s.as_str()) {
        Some(v) => v,
        None => {
            return Err(ParseError::InvalidDate);
        },
    };
    let hour_s: &String = match &caps.hour {
        Some(s) => s,
        None => {
            return Err(ParseError::MissingField(MandatoryField::Hour));
        },
    };
    let minute_s: &String = match &caps.minute {
        Some(s) => s,
        None => {
            return Err(ParseError::MissingField(MandatoryField::Minute));
        },
    };
    let second_s: &String = match &caps.second {
        Some(s) => s,
        None => {
            return Err(ParseError::MissingField(MandatoryField::Second));
        },
    };
    let hour_v: u32 = match parse_u32_digits(hour_s.as_str()) {
        Some(v) => v,
        None => {
            return Err(ParseError::InvalidDate);
        },
    };
    let minute_v: u32 = match parse_u32_digits(minute_s.as_str()) {
        Some(v) => v,
        None => {
            return Err(ParseError::InvalidDate);
        },
    };
    let second_v: u32 = match parse_u32_digits(second_s.as_str()) {
        Some(v) => v,
        None => {
            return Err(ParseError::InvalidDate);
        },
    };
    let millis_v: u32 = match &caps.millis {
        Some(s) => match parse_u32_digits(s.as_str()) {
            Some(v) => v,
            None => {
                return Err(ParseError::InvalidDate);
            },
        },
        None => 0,
    };
    let offset_r: Result<i64, ParseError> = if let Some(o) = time_offset {
        Ok(o)
    } else if let Some(t) = &caps.timezone {
        parse_timezone(t.as_str())
    } else {
        return Err(ParseError::MissingOffset);
    };
    let year_r: Option<i32> = match &caps.year {
        Some(ytext) => parse_year_digits(ytext.as_str()),
        None => year,
    };
    let y: i32 = match year_r {
        Some(v) => v,
        None => {
            return Err(ParseError::MissingYear);
        },
    };
    let off: i64 = match offset_r {
        Ok(o) => o,
        Err(_) => {
            return Err(ParseError::MalformedTimezone);
        },
    };
    if !check_civil(y, month_v, day_v) {
        return Err(ParseError::InvalidDate);
    }
    if hour_v > 23 || minute_v > 59 || second_v > 59 {
        return Err(ParseError::InvalidDate);
    }
    if millis_v > 999 && !(second_v == 59 && millis_v <= 1999) {
        return Err(ParseError::InvalidDate);
    }
    let epoch = chrono_epoch_millis(y, month_v, day_v, hour_v, minute_v, second_v, millis_v);
    proof {
        lemma_epoch_millis_bounds(
            y as int,
            month_v as int,
            day_v as int,
            hour_v as int,
            minute_v as int,
            second_v as int,
            millis_v as int,
        );
        if time_offset is None {
            lemma_tz_offset_bounds(txt(caps_model(*caps).timezone));
        }
    }
    let ts: i64 = epoch - off;
    Ok(
        TimedLine {
            timestamp: ts,
            content: line.to_owned(),
            tag: tag.to_owned(),
            original_length: original_line_length,
        },
    )
}

/// Applies a compiled pattern to a line and extracts the timestamped line,
/// or the one failure that applies: `NoMatch` when the pattern does not
/// match, and otherwise exactly what `spec_extract` says of the captures the
/// pattern yields on the line.
pub fn line_to_timed_line(
    line: &str,
    original_line_length: usize,
    tag: &str,
    regex: &regex::Regex,
    year: Option<i32>,
    time_offset: Option<i64>,
) -> (r: Result<TimedLine, ParseError>)
    requires
        time_offset matches Some(o) ==> -MAX_FALLBACK_OFFSET_MS <= o <= MAX_FALLBACK_OFFSET_MS,
    ensures
        match r {
            Ok(t) => regex_is_match(re_pattern(*regex), line@) && spec_extract(
                groups_model(re_pattern(*regex), line@),
                line@,
                tag@,
                original_line_length as int,
                year,
                time_offset,
            ) == Ok::<TimedLineModel, ParseError>(timed_line_model(t)),
            Err(e) => if regex_is_match(re_pattern(*regex), line@) {
                spec_extract(
                    groups_model(re_pattern(*regex), line@),
                    line@,
                    tag@,
                    original_line_length as int,
                    year,
                    time_offset,
                ) == Err::<TimedLineModel, ParseError>(e)
            } else {
                e == ParseError::NoMatch
            },
        },
{
    let caps = match regex_captures(regex, line) {
        Some(c) => c,
        None => {
            return Err(ParseError::NoMatch);
        },
    };
    proof {
        assert(caps_model(caps) == groups_model(re_pattern(*regex), line@));
    }
    timed_line_from_captures(&caps, line, original_line_length, tag, year, time_offset)
}

} // verus!
