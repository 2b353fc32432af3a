use vstd::prelude::*;

verus! {

use vstd::pervasive::VecAdditionalExecFns;

use crate::errors::ParseError;
use crate::pattern::{
    compile_result, date_format_str_to_regex, re_pattern, regex_is_match, regex_match,
};

/// How many non-blank lines detection inspects before it stops; as in the
/// scan itself, the line on which the bound is crossed is still inspected,
/// so up to one more line counts.
pub const LINES_TO_INSPECT: usize = 10;

/// How many inspected lines a candidate must match, capped by the number of
/// lines actually inspected.
pub const LINE_DETECTION_THRESHOLD: usize = 5;

/// A character with the Unicode `White_Space` property.
pub open spec fn is_ws_char(c: char) -> bool {
    let n = c as int;
    (9 <= n && n <= 13) || n == 32 || n == 0x85 || n == 0xa0 || n == 0x1680 || (0x2000 <= n && n
        <= 0x200a) || n == 0x2028 || n == 0x2029 || n == 0x202f || n == 0x205f || n == 0x3000
}

/// A line that holds nothing but whitespace.
pub open spec fn blank(l: Seq<char>) -> bool {
    forall|i: int| 0 <= i < l.len() ==> is_ws_char(#[trigger] l[i])
}

/// Whether `line` is blank.
pub fn is_blank(line: &str) -> (b: bool)
    ensures
        b == blank(line@),
{
    let n = line.unicode_len();
    let mut i: usize = 0;
    while i < n
        invariant
            0 <= i <= n,
            n == line@.len(),
            forall|k: int| 0 <= k < i ==> is_ws_char(#[trigger] line@[k]),
        decreases n - i,
    {
        let c = line.get_char(i) as u32;
        let ws: bool = (9 <= c && c <= 13) || c == 32 || c == 0x85 || c == 0xa0 || c == 0x1680 || (
        0x2000 <= c && c <= 0x200a) || c == 0x2028 || c == 0x2029 || c == 0x202f || c == 0x205f
            || c == 0x3000;
        if !ws {
            return false;
        }
        i = i + 1;
    }
    true
}

/// The first `budget` non-blank lines of `lines`, in order; blank lines are
/// passed over without counting.
pub open spec fn first_nonblank(lines: Seq<Seq<char>>, budget: int) -> Seq<Seq<char>>
    decreases lines.len(),
{
    if lines.len() == 0 || budget <= 0 {
        Seq::empty()
    } else if blank(lines[0]) {
        first_nonblank(lines.skip(1), budget)
    } else {
        seq![lines[0]] + first_nonblank(lines.skip(1), budget - 1)
    }
}

/// The lines one detection call inspects: the scan stops only after the
/// line that crosses `max`, so at most `max + 1` non-blank lines count.
pub open spec fn inspected(lines: Seq<Seq<char>>, max: int) -> Seq<Seq<char>> {
    first_nonblank(lines, max + 1)
}

/// How many of the inspected lines a pattern matches.
pub open spec fn match_count(p: Seq<char>, ins: Seq<Seq<char>>) -> int
    decreases ins.len(),
{
    if ins.len() == 0 {
        0
    } else {
        match_count(p, ins.drop_last()) + if regex_is_match(p, ins.last()) {
            1int
        } else {
            0int
        }
    }
}

pub proof fn lemma_match_count_bounds(p: Seq<char>, ins: Seq<Seq<char>>)
    ensures
        0 <= match_count(p, ins) <= ins.len(),
    decreases ins.len(),
{
    if ins.len() > 0 {
        lemma_match_count_bounds(p, ins.drop_last());
    }
}

/// The pattern text a candidate specification compiles to, or `None` for a
/// candidate that does not compile; such candidates are silently left out
/// of scoring.
pub open spec fn cand_pattern(f: Seq<char>) -> Option<Seq<char>> {
    match compile_result(f) {
        Ok(p) => Some(p),
        Err(_) => None,
    }
}

/// The winning candidate index and its match count: candidates are weighed
/// in the order given, and a later candidate displaces an earlier one only
/// with a strictly greater count, so the first of equally-scored candidates
/// wins; a candidate that matches nothing never wins.
pub open spec fn best_candidate(formats: Seq<Seq<char>>, ins: Seq<Seq<char>>) -> (Option<int>, int)
    decreases formats.len(),
{
    if formats.len() == 0 {
        (None, 0)
    } else {
        let prev = best_candidate(formats.drop_last(), ins);
        match cand_pattern(formats.last()) {
            Some(p) => {
                let v = match_count(p, ins);
                if prev.1 < v {
                    (Some(formats.len() - 1), v)
                } else {
                    prev
                }
            },
            None => prev,
        }
    }
}

pub open spec fn spec_min(a: int, b: int) -> int {
    if a < b {
        a
    } else {
        b
    }
}

/// Which candidate detection returns: the winner of `best_candidate` over
/// the inspected lines, accepted only when its count reaches the threshold
/// or, on shorter files, the number of lines actually inspected.
pub open spec fn detect_spec(
    formats: Seq<Seq<char>>,
    lines: Seq<Seq<char>>,
    max: int,
    threshold: int,
) -> Option<int> {
    let ins = inspected(lines, max);
    let best = best_candidate(formats, ins);
    match best.0 {
        Some(i) => if best.1 >= spec_min(threshold, ins.len() as int) {
            Some(i)
        } else {
            None
        },
        None => None,
    }
}

pub proof fn lemma_match_count_all(p: Seq<char>, ins: Seq<Seq<char>>)
    requires
        forall|i: int| 0 <= i < ins.len() ==> regex_is_match(p, #[trigger] ins[i]),
    ensures
        match_count(p, ins) == ins.len(),
    decreases ins.len(),
{
    if ins.len() > 0 {
        assert forall|i: int|
            0 <= i < ins.drop_last().len() implies regex_is_match(
            p,
            #[trigger] ins.drop_last()[i],
        ) by {
            assert(ins.drop_last()[i] == ins[i]);
        }
        lemma_match_count_all(p, ins.drop_last());
        assert(regex_is_match(p, ins[ins.len() - 1]));
    }
}

pub proof fn lemma_match_count_none(p: Seq<char>, ins: Seq<Seq<char>>)
    requires
        forall|i: int| 0 <= i < ins.len() ==> !regex_is_match(p, #[trigger] ins[i]),
    ensures
        match_count(p, ins) == 0,
    decreases ins.len(),
{
    if ins.len() > 0 {
        assert forall|i: int|
            0 <= i < ins.drop_last().len() implies !regex_is_match(
            p,
            #[trigger] ins.drop_last()[i],
        ) by {
            assert(ins.drop_last()[i] == ins[i]);
        }
        lemma_match_count_none(p, ins.drop_last());
        assert(!regex_is_match(p, ins[ins.len() - 1]));
    }
}

/// A detection scenario in general: of two candidates, the second compiles
/// and matches every inspected line while the first matches none of them
/// (or does not compile). With at least one line inspected, detection
/// returns the second candidate whatever the threshold: its count is the
/// inspected-line count, which always reaches the capped bar.
pub proof fn lemma_uniform_file_picks_matching_candidate(
    formats: Seq<Seq<char>>,
    lines: Seq<Seq<char>>,
    max: int,
    threshold: int,
    p2: Seq<char>,
)
    requires
        formats.len() == 2,
        inspected(lines, max).len() >= 1,
        cand_pattern(formats[1]) == Some(p2),
        forall|i: int|
            0 <= i < inspected(lines, max).len() ==> regex_is_match(
                p2,
                #[trigger] inspected(lines, max)[i],
            ),
        match cand_pattern(formats[0]) {
            Some(p1) => forall|i: int|
                0 <= i < inspected(lines, max).len() ==> !regex_is_match(
                    p1,
                    #[trigger] inspected(lines, max)[i],
                ),
            None => true,
        },
    ensures
        detect_spec(formats, lines, max, threshold) == Some(1int),
{
    let ins = inspected(lines, max);
    lemma_match_count_all(p2, ins);
    assert(best_candidate(Seq::<Seq<char>>::empty(), ins) == (None::<int>, 0int));
    assert(seq![formats[0]].drop_last() =~= Seq::<Seq<char>>::empty());
    assert(seq![formats[0]].last() == formats[0]);
    match cand_pattern(formats[0]) {
        Some(p1) => {
            lemma_match_count_none(p1, ins);
            assert(best_candidate(seq![formats[0]], ins) == (None::<int>, 0int));
        },
        None => {
            assert(best_candidate(seq![formats[0]], ins) == (None::<int>, 0int));
        },
    }
    assert(formats.drop_last() =~= seq![formats[0]]);
    assert(formats.last() == formats[1]);
    assert(best_candidate(formats, ins) == (Some(1int), ins.len() as int));
    assert(spec_min(threshold, ins.len() as int) <= ins.len() as int);
}

/// The winner's bar is the threshold capped by the number of inspected
/// lines: on input with fewer inspected lines than the threshold, a
/// candidate is accepted exactly when its count reaches that smaller
/// inspected-line count.
pub proof fn lemma_short_input_uses_inspected_count(
    formats: Seq<Seq<char>>,
    lines: Seq<Seq<char>>,
    max: int,
    threshold: int,
)
    requires
        inspected(lines, max).len() < threshold,
    ensures
        detect_spec(formats, lines, max, threshold) is Some <==> (best_candidate(
            formats,
            inspected(lines, max),
        ).0 is Some && best_candidate(formats, inspected(lines, max)).1 >= inspected(
            lines,
            max,
        ).len()),
{
}

/// Views of a vector of lines.
pub open spec fn line_views(lines: Seq<String>) -> Seq<Seq<char>> {
    lines.map_values(|l: String| l@)
}

/// Detects which of the candidate format specifications best matches the
/// given lines, inspecting at most `max_lines_to_inspect` non-blank lines
/// (plus the one that crosses the bound) and requiring the winner to match
/// at least `min_match_threshold` of them — or all of them, on files with
/// fewer inspected lines. Candidates that do not compile are silently
/// excluded; ties go to the first-listed candidate.
pub fn detect_timestamp_format_with_limits(
    lines: &Vec<String>,
    possible_formats: &Vec<String>,
    max_lines_to_inspect: usize,
    min_match_threshold: usize,
) -> (r: Result<String, ParseError>)
    ensures
        match r {
            Ok(s) => exists|i: int|
                detect_spec(
                    line_views(possible_formats@),
                    line_views(lines@),
                    max_lines_to_inspect as int,
                    min_match_threshold as int,
                ) == Some(i) && 0 <= i < possible_formats@.len() && s@ == possible_formats@[i]@,
            Err(e) => detect_spec(
                line_views(possible_formats@),
                line_views(lines@),
                max_lines_to_inspect as int,
                min_match_threshold as int,
            ) is None && e == ParseError::NoFormatDetected,
        },
{
    let ghost fviews = line_views(possible_formats@);
    let ghost lviews = line_views(lines@);
    let nf = possible_formats.len();
    // Compile each candidate once; a candidate that fails to compile stays,
    // unscored, so indexes line up with the given order.
    let mut regs: Vec<Option<regex::Regex>> = Vec::new();
    let mut fi: usize = 0;
    while fi < nf
        invariant
            0 <= fi <= nf,
            nf == possible_formats@.len(),
            fviews == line_views(possible_formats@),
            regs@.len() == fi as int,
            forall|j: int|
                0 <= j < fi ==> match #[trigger] regs@[j] {
                    Some(re) => cand_pattern(fviews[j]) == Some(re_pattern(re)),
                    None => cand_pattern(fviews[j]) is None,
                },
        decreases nf - fi,
    {
        match date_format_str_to_regex(possible_formats[fi].as_str()) {
            Ok(re) => regs.push(Some(re)),
            Err(_) => regs.push(None),
        }
        fi = fi + 1;
    }
    // Scan the lines, skipping blank ones, and count matches per candidate.
    let nl = lines.len();
    let mut counts: Vec<usize> = Vec::new();
    let mut ci: usize = 0;
    while ci < nf
        invariant
            counts@.len() == ci as int,
            0 <= ci <= nf,
            forall|j: int| 0 <= j < ci ==> #[trigger] counts@[j] == 0,
        decreases nf - ci,
    {
        counts.push(0);
        ci = ci + 1;
    }
    let mut inspected_ctr: usize = 0;
    let ghost mut ins: Seq<Seq<char>> = Seq::empty();
    let mut li: usize = 0;
    proof {
        assert(lviews.skip(0) =~= lviews);
        assert(forall|j: int|
            0 <= j < nf ==> match #[trigger] regs@[j] {
                Some(re) => counts@[j] as int == match_count(re_pattern(re), ins),
                None => counts@[j] == 0,
            });
    }
    while li < nl && inspected_ctr <= max_lines_to_inspect
        invariant
            0 <= li <= nl,
            nl == lines@.len(),
            lviews == line_views(lines@),
            fviews == line_views(possible_formats@),
            nf == possible_formats@.len(),
            regs@.len() == nf as int,
            counts@.len() == nf as int,
            forall|j: int|
                0 <= j < nf ==> match #[trigger] regs@[j] {
                    Some(re) => cand_pattern(fviews[j]) == Some(re_pattern(re)),
                    None => cand_pattern(fviews[j]) is None,
                },
            inspected_ctr as int == ins.len(),
            inspected_ctr <= li,
            inspected(lviews, max_lines_to_inspect as int) == ins + first_nonblank(
                lviews.skip(li as int),
                max_lines_to_inspect + 1 - inspected_ctr,
            ),
            forall|j: int|
                0 <= j < nf ==> match #[trigger] regs@[j] {
                    Some(re) => counts@[j] as int == match_count(re_pattern(re), ins),
                    None => counts@[j] == 0,
                },
        decreases nl - li,
    {
        let ghost rest = lviews.skip(li as int);
        proof {
            assert(rest.len() == nl - li);
            assert(rest[0] == lviews[li as int]);
            assert(lviews[li as int] == lines@[li as int]@);
            assert(rest.skip(1) =~= lviews.skip(li + 1));
        }
        let line = &lines[li];
        if !is_blank(line.as_str()) {
            let ghost ins0 = ins;
            proof {
                ins = ins.push(lviews[li as int]);
                assert(first_nonblank(rest, max_lines_to_inspect + 1 - inspected_ctr) == seq![
                    rest[0],
                ] + first_nonblank(rest.skip(1), max_lines_to_inspect - inspected_ctr));
                assert(ins =~= ins0 + seq![rest[0]]);
                assert(ins0 + (seq![rest[0]] + first_nonblank(
                    lviews.skip(li + 1),
                    max_lines_to_inspect - inspected_ctr,
                )) =~= (ins0 + seq![rest[0]]) + first_nonblank(
                    lviews.skip(li + 1),
                    max_lines_to_inspect - inspected_ctr,
                ));
            }
            let mut j: usize = 0;
            while j < nf
                invariant
                    0 <= j <= nf,
                    nf == possible_formats@.len(),
                    regs@.len() == nf as int,
                    counts@.len() == nf as int,
                    ins == ins0.push(lines@[li as int]@),
                    li < lines@.len(),
                    ins0.len() < nl as int,
                    nl == lines@.len(),
                    line@ == lines@[li as int]@,
                    lviews == line_views(lines@),
                    forall|k: int|
                        0 <= k < nf ==> match #[trigger] regs@[k] {
                            Some(re) => if k < j {
                                counts@[k] as int == match_count(re_pattern(re), ins)
                            } else {
                                counts@[k] as int == match_count(re_pattern(re), ins0)
                            },
                            None => counts@[k] == 0,
                        },
                decreases nf - j,
            {
                proof {
                    assert(ins.drop_last() =~= ins0);
                    assert(ins.last() == lines@[li as int]@);
                }
                match &regs[j] {
                    Some(re) => {
                        proof {
                            assert(regs@[j as int] == Some(*re));
                            assert(counts@[j as int] as int == match_count(re_pattern(*re), ins0));
                            lemma_match_count_bounds(re_pattern(*re), ins0);
                            assert(counts@[j as int] as int <= ins0.len());
                            assert(match_count(re_pattern(*re), ins) == match_count(
                                re_pattern(*re),
                                ins0,
                            ) + if regex_is_match(re_pattern(*re), ins.last()) {
                                1int
                            } else {
                                0int
                            });
                        }
                        if regex_match(re, line.as_str()) {
                            let cj = counts[j];
                            proof {
                                assert(cj as int <= ins0.len());
                                assert(ins0.len() < nl as int);
                            }
                            counts.set(j, cj + 1);
                            proof {
                                assert(counts@[j as int] as int == match_count(
                                    re_pattern(*re),
                                    ins,
                                ));
                            }
                        } else {
                            proof {
                                assert(counts@[j as int] as int == match_count(
                                    re_pattern(*re),
                                    ins,
                                ));
                            }
                        }
                    },
                    None => {
                    },
                }
                j = j + 1;
            }
            inspected_ctr = inspected_ctr + 1;
        } else {
            proof {
                assert(first_nonblank(rest, max_lines_to_inspect + 1 - inspected_ctr)
                    == first_nonblank(
                    lviews.skip(li + 1),
                    max_lines_to_inspect + 1 - inspected_ctr,
                ));
            }
        }
        li = li + 1;
    }
    proof {
        if li == nl {
            assert(lviews.skip(li as int).len() == 0);
        }
        assert(first_nonblank(
            lviews.skip(li as int),
            max_lines_to_inspect + 1 - inspected_ctr,
        ) =~= Seq::<Seq<char>>::empty());
        assert(ins + Seq::<Seq<char>>::empty() =~= ins);
        assert(inspected(lviews, max_lines_to_inspect as int) == ins);
    }
    // Pick the first candidate whose count strictly exceeds every earlier
    // one's.
    let mut best_idx: usize = 0;
    let mut best_found: bool = false;
    let mut best_val: usize = 0;
    let mut bi: usize = 0;
    proof {
        assert(fviews.take(0) =~= Seq::<Seq<char>>::empty());
    }
    while bi < nf
        invariant
            0 <= bi <= nf,
            nf == possible_formats@.len(),
            regs@.len() == nf as int,
            counts@.len() == nf as int,
            fviews == line_views(possible_formats@),
            forall|j: int|
                0 <= j < nf ==> match #[trigger] regs@[j] {
                    Some(re) => cand_pattern(fviews[j]) == Some(re_pattern(re)),
                    None => cand_pattern(fviews[j]) is None,
                },
            forall|j: int|
                0 <= j < nf ==> match #[trigger] regs@[j] {
                    Some(re) => counts@[j] as int == match_count(re_pattern(re), ins),
                    None => counts@[j] == 0,
                },
            best_found ==> best_candidate(fviews.take(bi as int), ins) == (
                Some(best_idx as int),
                best_val as int,
            ) && best_idx < nf,
            !best_found ==> best_candidate(fviews.take(bi as int), ins) == (
                None::<int>,
                0int,
            ) && best_val == 0,
        decreases nf - bi,
    {
        proof {
            assert(fviews.take(bi + 1).drop_last() =~= fviews.take(bi as int));
            assert(fviews.take(bi + 1).last() == fviews[bi as int]);
        }
        let scored: bool = regs[bi].is_some();
        if scored {
            let v = counts[bi];
            if best_val < v {
                best_idx = bi;
                best_val = v;
                best_found = true;
            }
        }
        bi = bi + 1;
    }
    proof {
        assert(fviews.take(nf as int) =~= fviews);
    }
    let bar: usize = if min_match_threshold < inspected_ctr {
        min_match_threshold
    } else {
        inspected_ctr
    };
    if best_found && best_val >= bar {
        return Ok(possible_formats[best_idx].clone());
    }
    Err(ParseError::NoFormatDetected)
}

/// Detection with the library's stock bounds: up to `LINES_TO_INSPECT`
/// non-blank lines, and a winner that matches at least
/// `LINE_DETECTION_THRESHOLD` of them (or all inspected lines on shorter
/// input).
pub fn detect_timestamp_format(lines: &Vec<String>, possible_formats: &Vec<String>) -> (r: Result<
    String,
    ParseError,
>)
    ensures
        match r {
            Ok(s) => exists|i: int|
                detect_spec(
                    line_views(possible_formats@),
                    line_views(lines@),
                    LINES_TO_INSPECT as int,
                    LINE_DETECTION_THRESHOLD as int,
                ) == Some(i) && 0 <= i < possible_formats@.len() && s@ == possible_formats@[i]@,
            Err(e) => detect_spec(
                line_views(possible_formats@),
                line_views(lines@),
                LINES_TO_INSPECT as int,
                LINE_DETECTION_THRESHOLD as int,
            ) is None && e == ParseError::NoFormatDetected,
        },
{
    detect_timestamp_format_with_limits(lines, possible_formats, LINES_TO_INSPECT, LINE_DETECTION_THRESHOLD)
}

} // verus!
