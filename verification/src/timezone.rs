use vstd::prelude::*;

verus! {

use crate::errors::ParseError;

/// `c` is an ASCII decimal digit.
pub open spec fn is_digit_char(c: char) -> bool {
    48 <= c as int && c as int <= 57
}

/// Numeric value of an ASCII decimal digit.
pub open spec fn digit_of(c: char) -> int {
    c as int - 48
}

/// The offset in milliseconds denoted by a timezone designator, or `None`
/// where the designator is malformed. The grammar is strict: a sign, then
/// exactly two digits of hours, then either nothing or an optional colon
/// followed by exactly two digits of minutes; nothing may trail, and any
/// other input — wrong digit counts, a missing sign, non-ASCII text — is
/// malformed.
pub open spec fn tz_offset_spec(s: Seq<char>) -> Option<int> {
    if s.len() < 3 || (s[0] != '+' && s[0] != '-') {
        None
    } else if !(is_digit_char(s[1]) && is_digit_char(s[2])) {
        None
    } else {
        let sign: int = if s[0] == '+' {
            1
        } else {
            -1
        };
        let h = 10 * digit_of(s[1]) + digit_of(s[2]);
        if s.len() == 3 {
            Some(sign * 1000 * (3600 * h))
        } else {
            let mstart: int = if s[3] == ':' {
                4
            } else {
                3
            };
            if s.len() == mstart + 2 && is_digit_char(s[mstart]) && is_digit_char(
                s[mstart + 1],
            ) {
                let m = 10 * digit_of(s[mstart]) + digit_of(s[mstart + 1]);
                Some(sign * 1000 * (3600 * h + 60 * m))
            } else {
                None
            }
        }
    }
}

/// Reads a two-digit window starting at `i`; `None` unless both characters
/// are ASCII digits.
fn read_window(input: &str, i: usize) -> (r: Option<u32>)
    requires
        i + 2 <= input@.len(),
        i + 2 <= usize::MAX,
    ensures
        match r {
            Some(v) => is_digit_char(input@[i as int]) && is_digit_char(input@[i as int + 1])
                && v as int == 10 * digit_of(input@[i as int]) + digit_of(input@[i as int + 1])
                && v <= 99,
            None => !(is_digit_char(input@[i as int]) && is_digit_char(input@[i as int + 1])),
        },
{
    let a = input.get_char(i) as u32;
    let b = input.get_char(i + 1) as u32;
    if 48 <= a && a <= 57 && 48 <= b && b <= 57 {
        Some(10 * (a - 48) + (b - 48))
    } else {
        None
    }
}

/// Parses a timezone designator — exactly `+hh`, `+hh:mm` or `+hhmm` (and
/// the `-` forms) — into a signed offset in milliseconds, positive east of
/// UTC. Any other input, ASCII or not, yields `MalformedTimezone`; this
/// function is total and never panics.
pub fn parse_timezone(input: &str) -> (r: Result<i64, ParseError>)
    ensures
        match r {
            Ok(v) => tz_offset_spec(input@) == Some(v as int),
            Err(e) => tz_offset_spec(input@) is None && e == ParseError::MalformedTimezone,
        },
{
    let n = input.unicode_len();
    if n < 3 {
        return Err(ParseError::MalformedTimezone);
    }
    let c0 = input.get_char(0);
    if c0 != '+' && c0 != '-' {
        return Err(ParseError::MalformedTimezone);
    }
    let hours: u32 = match read_window(input, 1) {
        Some(h) => h,
        None => {
            return Err(ParseError::MalformedTimezone);
        },
    };
    let minutes: u32 = if n == 3 {
        0
    } else {
        let mstart: usize = if input.get_char(3) == ':' {
            4
        } else {
            3
        };
        if n != mstart + 2 {
            return Err(ParseError::MalformedTimezone);
        }
        match read_window(input, mstart) {
            Some(m) => m,
            None => {
                return Err(ParseError::MalformedTimezone);
            },
        }
    };
    let magnitude: i64 = 1000 * (3600 * (hours as i64) + 60 * (minutes as i64));
    proof {
        let hm: int = 3600 * (hours as int) + 60 * (minutes as int);
        assert(1int * 1000 * hm == 1000 * hm) by (nonlinear_arith);
        assert(-1int * 1000 * hm == -1int * (1000 * hm)) by (nonlinear_arith);
        assert(magnitude as int == 1000 * hm);
        assert(tz_offset_spec(input@) == Some(
            (if c0 == '+' {
                1int
            } else {
                -1int
            }) * 1000 * hm,
        ));
    }
    if c0 == '+' {
        Ok(magnitude)
    } else {
        Ok(-magnitude)
    }
}

/// A parsed designator offset is at most 99 hours and 99 minutes from UTC.
pub proof fn lemma_tz_offset_bounds(s: Seq<char>)
    ensures
        tz_offset_spec(s) matches Some(v) ==> -362340000 <= v <= 362340000,
{
    if tz_offset_spec(s) is Some {
        let sign: int = if s[0] == '+' {
            1
        } else {
            -1
        };
        let h = 10 * digit_of(s[1]) + digit_of(s[2]);
        assert(0 <= h <= 99);
        let m: int = if s.len() == 3 {
            0
        } else {
            let mstart: int = if s[3] == ':' {
                4
            } else {
                3
            };
            10 * digit_of(s[mstart]) + digit_of(s[mstart + 1])
        };
        assert(0 <= m <= 99);
        let hm: int = 3600 * h + 60 * m;
        assert(-362340000 <= sign * 1000 * hm <= 362340000) by (nonlinear_arith)
            requires
                sign == 1 || sign == -1,
                0 <= hm <= 362340,
        ;
    }
}

/// The colon between hours and minutes of a designator is optional: with a
/// sign and four digits, the colon-bearing and colon-free spellings denote
/// the same offset, namely sign times 1000 * (3600 * hours + 60 * minutes).
pub proof fn lemma_timezone_colon_optional(sign: char, h1: char, h2: char, m1: char, m2: char)
    requires
        sign == '+' || sign == '-',
        is_digit_char(h1),
        is_digit_char(h2),
        is_digit_char(m1),
        is_digit_char(m2),
    ensures
        tz_offset_spec(seq![sign, h1, h2, ':', m1, m2]) == tz_offset_spec(
            seq![sign, h1, h2, m1, m2],
        ),
        tz_offset_spec(seq![sign, h1, h2, ':', m1, m2]) == Some(
            (if sign == '+' {
                1int
            } else {
                -1int
            }) * 1000 * (3600 * (10 * digit_of(h1) + digit_of(h2)) + 60 * (10 * digit_of(m1)
                + digit_of(m2))),
        ),
{
}

} // verus!
