use vstd::prelude::*;

verus! {

use crate::errors::ParseError;
use crate::strutil::push_char;
use crate::tokenizer::{
    date_expression, piece_tok, spec_escape, spec_tokenize, FormatPiece, Tok,
};

#[verifier::external_type_specification]
#[verifier::external_body]
pub struct ExRegex(regex::Regex);

/// The pattern text a compiled regex was built from, as `Regex::as_str`
/// hands it back.
pub uninterp spec fn re_pattern(re: regex::Regex) -> Seq<char>;

/// Whether `Regex::new` accepts a pattern text.
pub uninterp spec fn regex_ok(pattern: Seq<char>) -> bool;

/// What `Regex::is_match` answers for a pattern text and a line.
pub uninterp spec fn regex_is_match(pattern: Seq<char>, line: Seq<char>) -> bool;

/// The text of the named capture group when the pattern is matched against
/// the line, as `Regex::captures` and `Captures::name` hand it out; `None`
/// when the group is absent from the pattern or took no part in the match.
pub uninterp spec fn regex_group(pattern: Seq<char>, line: Seq<char>, group: Seq<char>) -> Option<
    Seq<char>,
>;

/// Relies on `regex::Regex::new` and `regex::Regex::as_str`: `new` returns
/// `Ok` exactly when the pattern text is a valid expression, and `as_str` on
/// the built value returns that same text.
#[verifier::external_body]
fn regex_new(pattern: &str) -> (r: Option<regex::Regex>)
    ensures
        r is Some <==> regex_ok(pattern@),
        r matches Some(re) ==> re_pattern(re) == pattern@,
{
    regex::Regex::new(pattern).ok()
}

/// Relies on `regex::Regex::is_match`: whether the pattern matches anywhere
/// in the line, a function of the pattern text and the line alone.
#[verifier::external_body]
pub(crate) fn regex_match(re: &regex::Regex, line: &str) -> (r: bool)
    ensures
        r == regex_is_match(re_pattern(*re), line@),
{
    re.is_match(line)
}

/// The named capture slots an extraction reads, copied out of one match.
pub struct LineCaptures {
    pub day: Option<String>,
    pub month: Option<String>,
    pub year: Option<String>,
    pub hour: Option<String>,
    pub minute: Option<String>,
    pub second: Option<String>,
    pub millis: Option<String>,
    pub timezone: Option<String>,
}

pub open spec fn opt_view(o: Option<String>) -> Option<Seq<char>> {
    match o {
        Some(s) => Some(s@),
        None => None,
    }
}

/// Relies on `regex::Regex::captures` and `regex::Captures::name`:
/// `captures` returns `Some` exactly when `is_match` holds, and `name` hands
/// out the text of each named group that took part in the match.
#[verifier::external_body]
pub(crate) fn regex_captures(re: &regex::Regex, line: &str) -> (r: Option<LineCaptures>)
    ensures
        r is Some <==> regex_is_match(re_pattern(*re), line@),
        r matches Some(c) ==> opt_view(c.day) == regex_group(re_pattern(*re), line@, "d"@)
            && opt_view(c.month) == regex_group(re_pattern(*re), line@, "m"@)
            && opt_view(c.year) == regex_group(re_pattern(*re), line@, "Y"@)
            && opt_view(c.hour) == regex_group(re_pattern(*re), line@, "H"@)
            && opt_view(c.minute) == regex_group(re_pattern(*re), line@, "M"@)
            && opt_view(c.second) == regex_group(re_pattern(*re), line@, "S"@)
            && opt_view(c.millis) == regex_group(re_pattern(*re), line@, "millis"@)
            && opt_view(c.timezone) == regex_group(re_pattern(*re), line@, "timezone"@),
{
    let caps = re.captures(line)?;
    let group = |n: &str| caps.name(n).map(|m| m.as_str().to_string());
    Some(LineCaptures {
        day: group("d"),
        month: group("m"),
        year: group("Y"),
        hour: group("H"),
        minute: group("M"),
        second: group("S"),
        millis: group("millis"),
        timezone: group("timezone"),
    })
}

/// The fixed sub-pattern each token compiles to: every field kind always
/// carries the same named capture group, so extraction never depends on the
/// originating specification text.
pub open spec fn piece_regex(t: Tok) -> Seq<char> {
    match t {
        Tok::Day => "(?P<d>\\d{2})"@,
        Tok::Month => "(?P<m>\\d{2})"@,
        Tok::Year => "(?P<Y>\\d{4})"@,
        Tok::Hour => "(?P<H>\\d{2})"@,
        Tok::Minute => "(?P<M>\\d{2})"@,
        Tok::Second => "(?P<S>\\d{2})"@,
        Tok::Fraction => "(?P<millis>\\d+)"@,
        Tok::TimeZone => "(?P<timezone>[\\+\\-]\\d+)"@,
        Tok::Lit(text) => text,
    }
}

/// The whole pattern text of a token sequence: the concatenation, in order,
/// of each token's sub-pattern.
pub open spec fn spec_pattern(toks: Seq<Tok>) -> Seq<char>
    decreases toks.len(),
{
    if toks.len() == 0 {
        Seq::empty()
    } else {
        spec_pattern(toks.drop_last()) + piece_regex(toks.last())
    }
}

/// What compiling a format specification yields: the pattern text of its
/// tokens, or the one error that applies — an empty specification, a
/// specification without tokens (purely defensive: a non-empty
/// specification always yields tokens), or a pattern text the regex engine
/// refuses.
pub open spec fn compile_result(s: Seq<char>) -> Result<Seq<char>, ParseError> {
    if s.len() == 0 {
        Err(ParseError::EmptyFormat)
    } else if spec_tokenize(s).len() == 0 {
        Err(ParseError::NoTokens)
    } else if regex_ok(spec_pattern(spec_tokenize(s))) {
        Ok(spec_pattern(spec_tokenize(s)))
    } else {
        Err(ParseError::InvalidRegex)
    }
}

/// The sub-pattern one piece contributes to the assembled pattern text.
pub fn format_piece_as_regex_string(p: &FormatPiece) -> (r: String)
    ensures
        r@ == piece_regex(piece_tok(*p)),
{
    match p {
        FormatPiece::Day => String::from_str("(?P<d>\\d{2})"),
        FormatPiece::Month => String::from_str("(?P<m>\\d{2})"),
        FormatPiece::Year => String::from_str("(?P<Y>\\d{4})"),
        FormatPiece::Hour => String::from_str("(?P<H>\\d{2})"),
        FormatPiece::Minute => String::from_str("(?P<M>\\d{2})"),
        FormatPiece::Second => String::from_str("(?P<S>\\d{2})"),
        FormatPiece::Fraction => String::from_str("(?P<millis>\\d+)"),
        FormatPiece::TimeZone => String::from_str("(?P<timezone>[\\+\\-]\\d+)"),
        FormatPiece::SeperatorChar(c) => {
            let mut s = String::new();
            push_char(&mut s, *c);
            proof {
                assert(s@ =~= seq![*c]);
            }
            s
        },
        FormatPiece::Seperator(text) => text.clone(),
    }
}

/// Compiles a format specification string into a reusable matcher whose
/// named capture slots are fixed across all compiled patterns. Fails on an
/// empty specification, on one that yields no tokens (a guard that a
/// non-empty specification can never trip), and on a pattern text the
/// regex engine refuses.
pub fn date_format_str_to_regex(date_format: &str) -> (r: Result<regex::Regex, ParseError>)
    ensures
        match r {
            Ok(re) => compile_result(date_format@) matches Ok(p) && re_pattern(re) == p,
            Err(e) => compile_result(date_format@) matches Err(e2) && e == e2,
        },
{
    if date_format.unicode_len() == 0 {
        return Err(ParseError::EmptyFormat);
    }
    let pieces = date_expression(date_format);
    let ghost toks = spec_tokenize(date_format@);
    proof {
        assert(pieces@.map_values(|p: FormatPiece| piece_tok(p)).len() == pieces@.len());
    }
    if pieces.len() == 0 {
        return Err(ParseError::NoTokens);
    }
    let mut pat = String::new();
    let mut idx: usize = 0;
    proof {
        assert(toks.take(0) =~= Seq::<Tok>::empty());
    }
    while idx < pieces.len()
        invariant
            0 <= idx <= pieces@.len(),
            pieces@.map_values(|p: FormatPiece| piece_tok(p)) == toks,
            pat@ == spec_pattern(toks.take(idx as int)),
        decreases pieces@.len() - idx,
    {
        let frag = format_piece_as_regex_string(&pieces[idx]);
        pat.append(frag.as_str());
        proof {
            assert(toks.take(idx + 1).drop_last() =~= toks.take(idx as int));
            assert(toks.take(idx + 1).last() == toks[idx as int]);
            assert(piece_tok(pieces@[idx as int]) == toks[idx as int]);
        }
        idx = idx + 1;
    }
    proof {
        assert(toks.take(toks.len() as int) =~= toks);
    }
    match regex_new(pat.as_str()) {
        Some(re) => Ok(re),
        None => Err(ParseError::InvalidRegex),
    }
}

/// Whether a line contains a timestamp in the shape the format specification
/// describes; compiling failures of the specification are reported as with
/// `date_format_str_to_regex`.
pub fn line_matching_format_expression(format_expr: &str, line: &str) -> (r: Result<
    bool,
    ParseError,
>)
    ensures
        match r {
            Ok(b) => compile_result(format_expr@) matches Ok(p) && b == regex_is_match(p, line@),
            Err(e) => compile_result(format_expr@) matches Err(e2) && e == e2,
        },
{
    let regex = match date_format_str_to_regex(format_expr) {
        Ok(re) => re,
        Err(e) => {
            return Err(e);
        },
    };
    Ok(regex_match(&regex, line))
}

/// The escaped image of a raw literal run: the concatenation of each raw
/// character's escaped reading.
pub open spec fn escape_all(raw: Seq<char>) -> Seq<char>
    decreases raw.len(),
{
    if raw.len() == 0 {
        Seq::empty()
    } else {
        escape_all(raw.drop_last()) + spec_escape(raw.last())
    }
}

/// `text` is the escaped image of some non-empty raw run.
pub open spec fn escaped_run(text: Seq<char>) -> bool {
    exists|raw: Seq<char>| raw.len() >= 1 && text == escape_all(raw)
}

proof fn lemma_escape_all_push(raw: Seq<char>, c: char)
    ensures
        escape_all(raw.push(c)) == escape_all(raw) + spec_escape(c),
{
    assert(raw.push(c).drop_last() =~= raw);
    assert(raw.push(c).last() == c);
}

proof fn lemma_tokenize_rec_escapes(s: Seq<char>, pending: Seq<char>)
    requires
        pending.len() == 0 || escaped_run(pending),
    ensures
        forall|j: int|
            0 <= j < crate::tokenizer::tokenize_rec(s, pending).len() ==> escaped_lit(
                #[trigger] crate::tokenizer::tokenize_rec(s, pending)[j],
            ),
    decreases s.len(),
{
    crate::tokenizer::lemma_space_run_bounds(s);
    let toks = crate::tokenizer::tokenize_rec(s, pending);
    if s.len() == 0 {
        if pending.len() > 0 {
            assert(toks == seq![Tok::Lit(pending)]);
            assert(escaped_lit(toks[0]));
        }
    } else {
        match crate::tokenizer::next_marker(s) {
            Some((t, k)) => {
                lemma_tokenize_rec_escapes(s.skip(k), Seq::empty());
                let tail = crate::tokenizer::tokenize_rec(s.skip(k), Seq::empty());
                assert forall|j: int| 0 <= j < toks.len() implies escaped_lit(toks[j]) by {
                    if pending.len() == 0 {
                        assert(toks == seq![t] + tail);
                        if j >= 1 {
                            assert(toks[j] == tail[j - 1]);
                        }
                    } else {
                        assert(toks == seq![Tok::Lit(pending), t] + tail);
                        if j >= 2 {
                            assert(toks[j] == tail[j - 2]);
                        }
                    }
                }
            },
            None => {
                if s[0] == ' ' {
                    lemma_escaped_extend(pending, ' ');
                    lemma_tokenize_rec_escapes(
                        s.skip(crate::tokenizer::space_run(s)),
                        pending + spec_escape(' '),
                    );
                    let sub = crate::tokenizer::tokenize_rec(
                        s.skip(crate::tokenizer::space_run(s)),
                        pending + spec_escape(' '),
                    );
                    assert forall|j: int| 0 <= j < toks.len() implies escaped_lit(toks[j]) by {
                        assert(toks[j] == sub[j]);
                    }
                } else {
                    lemma_escaped_extend(pending, s[0]);
                    lemma_tokenize_rec_escapes(s.skip(1), pending + spec_escape(s[0]));
                    let sub = crate::tokenizer::tokenize_rec(s.skip(1), pending + spec_escape(s[0]));
                    assert forall|j: int| 0 <= j < toks.len() implies escaped_lit(toks[j]) by {
                        assert(toks[j] == sub[j]);
                    }
                }
            },
        }
    }
}

/// A token is either a field marker or an escaped literal run.
pub open spec fn escaped_lit(t: Tok) -> bool {
    match t {
        Tok::Lit(text) => escaped_run(text),
        _ => true,
    }
}

proof fn lemma_escaped_extend(pending: Seq<char>, c: char)
    requires
        pending.len() == 0 || escaped_run(pending),
    ensures
        escaped_run(pending + spec_escape(c)),
{
    if pending.len() == 0 {
        lemma_escape_all_push(Seq::empty(), c);
        assert(Seq::<char>::empty().push(c) =~= seq![c]);
        assert(escape_all(Seq::<char>::empty()) + spec_escape(c) =~= pending + spec_escape(c));
        assert(pending + spec_escape(c) == escape_all(seq![c]));
    } else {
        let raw = choose|raw: Seq<char>| raw.len() >= 1 && pending == escape_all(raw);
        lemma_escape_all_push(raw, c);
        assert(pending + spec_escape(c) == escape_all(raw.push(c)));
    }
}

/// Escaping is exhaustive: every literal token the tokenizer produces is the
/// escaped image of some raw run of specification characters, so the only
/// way compiling a tokenized, non-empty specification can fail is the
/// defensive rejection of the assembled pattern by the regex engine.
pub proof fn lemma_tokenizer_escapes(s: Seq<char>)
    ensures
        forall|j: int|
            0 <= j < spec_tokenize(s).len() ==> escaped_lit(#[trigger] spec_tokenize(s)[j]),
{
    lemma_tokenize_rec_escapes(s, Seq::empty());
    assert forall|j: int|
        0 <= j < spec_tokenize(s).len() implies escaped_lit(#[trigger] spec_tokenize(s)[j]) by {
        assert(spec_tokenize(s) == crate::tokenizer::tokenize_rec(s, Seq::empty()));
        assert(spec_tokenize(s)[j] == crate::tokenizer::tokenize_rec(s, Seq::empty())[j]);
    }
}

/// For a non-empty specification, the only failure compiling can report is
/// the defensive `InvalidRegex`: a non-empty specification always yields
/// tokens, so the empty-format and no-token rejections are ruled out, and
/// what remains is the regex engine's own verdict on the assembled pattern
/// (which it does refuse, for one, when a repeated field marker repeats a
/// capture name).
pub proof fn lemma_compile_fails_only_on_pattern(s: Seq<char>)
    requires
        s.len() > 0,
    ensures
        compile_result(s) matches Ok(p) ==> p == spec_pattern(spec_tokenize(s)),
        compile_result(s) is Err ==> compile_result(s) == Err::<Seq<char>, ParseError>(
            ParseError::InvalidRegex,
        ),
{
    crate::tokenizer::lemma_nonempty_spec_yields_tokens(s);
}

/// Compiling is a pure function of the specification text: two successful
/// compilations of the same specification yield the same pattern text, and
/// with it the same matching behaviour and the same capture groups on every
/// line.
pub proof fn lemma_compile_idempotent(s: Seq<char>, p1: Seq<char>, p2: Seq<char>, line: Seq<char>)
    requires
        compile_result(s) == Ok::<Seq<char>, ParseError>(p1),
        compile_result(s) == Ok::<Seq<char>, ParseError>(p2),
    ensures
        p1 == p2,
        regex_is_match(p1, line) == regex_is_match(p2, line),
        forall|g: Seq<char>| regex_group(p1, line, g) == regex_group(p2, line, g),
{
}

} // verus!
