use vstd::prelude::*;

verus! {

use crate::strutil::push_char;

/// One classified unit of a format specification. `SeperatorChar` is the raw
/// form a single scan step yields for a literal character (a run of spaces
/// yields one space); adjacent literal characters are later merged, escaped,
/// into one `Seperator` token.
#[derive(Debug, Clone, PartialEq, Eq)]
pub enum FormatPiece {
    Day,
    Month,
    Year,
    Hour,
    Minute,
    Second,
    Fraction,
    TimeZone,
    SeperatorChar(char),
    Seperator(String),
}

/// The mathematical model of a merged token: a field marker, or a literal
/// run already escaped for the pattern.
pub ghost enum Tok {
    Day,
    Month,
    Year,
    Hour,
    Minute,
    Second,
    Fraction,
    TimeZone,
    Lit(Seq<char>),
}

/// Model of a `FormatPiece`: a lone separator character stands for itself,
/// unescaped; escaping happens when characters are merged into `Seperator`
/// runs.
pub open spec fn piece_tok(p: FormatPiece) -> Tok {
    match p {
        FormatPiece::Day => Tok::Day,
        FormatPiece::Month => Tok::Month,
        FormatPiece::Year => Tok::Year,
        FormatPiece::Hour => Tok::Hour,
        FormatPiece::Minute => Tok::Minute,
        FormatPiece::Second => Tok::Second,
        FormatPiece::Fraction => Tok::Fraction,
        FormatPiece::TimeZone => Tok::TimeZone,
        FormatPiece::SeperatorChar(c) => Tok::Lit(seq![c]),
        FormatPiece::Seperator(s) => Tok::Lit(s@),
    }
}

/// How one literal character reads in the pattern: a space matches one or
/// more whitespace characters, the regex metacharacters are escaped, and
/// every other character stands for itself.
pub open spec fn spec_escape(c: char) -> Seq<char> {
    if c == ' ' {
        "\\s+"@
    } else if c == '.' {
        "\\."@
    } else if c == '|' {
        "\\|"@
    } else if c == '?' {
        "\\?"@
    } else if c == '+' {
        "\\+"@
    } else if c == '(' {
        "\\("@
    } else if c == ')' {
        "\\)"@
    } else if c == '[' {
        "\\["@
    } else if c == '{' {
        "\\{"@
    } else if c == '^' {
        "\\^"@
    } else if c == '$' {
        "\\$"@
    } else if c == '*' {
        "\\*"@
    } else {
        seq![c]
    }
}

/// The length of the run of space characters at the front of `s`.
pub open spec fn space_run(s: Seq<char>) -> int
    decreases s.len(),
{
    if s.len() == 0 || s[0] != ' ' {
        0
    } else {
        1 + space_run(s.skip(1))
    }
}

pub proof fn lemma_space_run_bounds(s: Seq<char>)
    ensures
        0 <= space_run(s) <= s.len(),
        s.len() > 0 && s[0] == ' ' ==> space_run(s) >= 1,
    decreases s.len(),
{
    if s.len() > 0 && s[0] == ' ' {
        lemma_space_run_bounds(s.skip(1));
    }
}

/// `space_run` is the index of the first non-space character (or the length
/// when there is none).
proof fn lemma_space_run_is_first_nonspace(s: Seq<char>, j: int)
    requires
        0 <= j <= s.len(),
        forall|k: int| 0 <= k < j ==> s[k] == ' ',
        j == s.len() || s[j] != ' ',
    ensures
        space_run(s) == j,
    decreases j,
{
    if j > 0 {
        assert(s[0] == ' ');
        assert(forall|k: int| 0 <= k < j - 1 ==> s.skip(1)[k] == s[k + 1]);
        lemma_space_run_is_first_nonspace(s.skip(1), j - 1);
    }
}

/// The field marker that starts at the front of `s`, with the number of
/// characters it spans; `None` when `s` starts with a literal character.
/// Two repeated marker characters make the two-digit fields, four make the
/// year, a single `s` the fraction, and the fixed text `TZD` the timezone;
/// a double `ss` reads as a second field, never as two fractions.
pub open spec fn next_marker(s: Seq<char>) -> Option<(Tok, int)> {
    if s.len() >= 2 && s[0] == 'D' && s[1] == 'D' {
        Some((Tok::Day, 2))
    } else if s.len() >= 2 && s[0] == 'M' && s[1] == 'M' {
        Some((Tok::Month, 2))
    } else if s.len() >= 4 && s[0] == 'Y' && s[1] == 'Y' && s[2] == 'Y' && s[3] == 'Y' {
        Some((Tok::Year, 4))
    } else if s.len() >= 2 && s[0] == 'h' && s[1] == 'h' {
        Some((Tok::Hour, 2))
    } else if s.len() >= 2 && s[0] == 'm' && s[1] == 'm' {
        Some((Tok::Minute, 2))
    } else if s.len() >= 2 && s[0] == 's' && s[1] == 's' {
        Some((Tok::Second, 2))
    } else if s.len() >= 1 && s[0] == 's' {
        Some((Tok::Fraction, 1))
    } else if s.len() >= 3 && s[0] == 'T' && s[1] == 'Z' && s[2] == 'D' {
        Some((Tok::TimeZone, 3))
    } else {
        None
    }
}

/// The token sequence read from `s` with an escaped literal run `pending`
/// waiting to be flushed: a field marker flushes the pending run and stands
/// on its own; a literal character joins the run, a space run joining as a
/// single space; a pending run left at the end of the input is flushed as a
/// final literal token, so no literal run is ever lost.
pub open spec fn tokenize_rec(s: Seq<char>, pending: Seq<char>) -> Seq<Tok>
    decreases s.len(),
    via tokenize_rec_decreases
{
    if s.len() == 0 {
        if pending.len() == 0 {
            Seq::empty()
        } else {
            seq![Tok::Lit(pending)]
        }
    } else {
        match next_marker(s) {
            Some((t, k)) => if pending.len() == 0 {
                seq![t] + tokenize_rec(s.skip(k), Seq::empty())
            } else {
                seq![Tok::Lit(pending), t] + tokenize_rec(s.skip(k), Seq::empty())
            },
            None => if s[0] == ' ' {
                tokenize_rec(s.skip(space_run(s)), pending + spec_escape(' '))
            } else {
                tokenize_rec(s.skip(1), pending + spec_escape(s[0]))
            },
        }
    }
}

#[via_fn]
proof fn tokenize_rec_decreases(s: Seq<char>, pending: Seq<char>) {
    lemma_space_run_bounds(s);
}

/// The token sequence of a whole format specification.
pub open spec fn spec_tokenize(s: Seq<char>) -> Seq<Tok> {
    tokenize_rec(s, Seq::empty())
}

/// The marker starting at position `i` of `input`, executably.
fn marker_at(input: &str, n: usize, i: usize) -> (r: Option<(FormatPiece, usize)>)
    requires
        n == input@.len(),
        i < n,
    ensures
        match r {
            Some((p, k)) => next_marker(input@.skip(i as int)) == Some((piece_tok(p), k as int))
                && i + k <= n && 1 <= k,
            None => next_marker(input@.skip(i as int)) is None,
        },
{
    proof {
        assert(input@.skip(i as int).len() == n - i);
        assert(forall|j: int| 0 <= j < n - i ==> input@.skip(i as int)[j] == input@[i as int + j]);
    }
    let c0 = input.get_char(i);
    if i + 1 < n {
        let c1 = input.get_char(i + 1);
        if c0 == 'D' && c1 == 'D' {
            return Some((FormatPiece::Day, 2));
        }
        if c0 == 'M' && c1 == 'M' {
            return Some((FormatPiece::Month, 2));
        }
        if n - i > 3 && c0 == 'Y' && c1 == 'Y' && input.get_char(i + 2) == 'Y' && input.get_char(
            i + 3,
        ) == 'Y' {
            return Some((FormatPiece::Year, 4));
        }
        if c0 == 'h' && c1 == 'h' {
            return Some((FormatPiece::Hour, 2));
        }
        if c0 == 'm' && c1 == 'm' {
            return Some((FormatPiece::Minute, 2));
        }
        if c0 == 's' && c1 == 's' {
            return Some((FormatPiece::Second, 2));
        }
    }
    if c0 == 's' {
        return Some((FormatPiece::Fraction, 1));
    }
    if n - i > 2 && c0 == 'T' && input.get_char(i + 1) == 'Z' && input.get_char(i + 2) == 'D' {
        return Some((FormatPiece::TimeZone, 3));
    }
    None
}

/// Reads the single piece at the front of `input`, as one scan step of the
/// tokenizer sees it: a field marker, or the literal character there (a run
/// of spaces reading as one space). Returns the rest of the input beside the
/// piece; `None` on empty input.
pub fn any_date_format(input: &str) -> (r: Option<(String, FormatPiece)>)
    ensures
        input@.len() == 0 <==> r is None,
        r matches Some((rest, p)) ==> match next_marker(input@) {
            Some((t, k)) => piece_tok(p) == t && rest@ == input@.skip(k),
            None => if input@[0] == ' ' {
                p == FormatPiece::SeperatorChar(' ') && rest@ == input@.skip(space_run(input@))
            } else {
                p == FormatPiece::SeperatorChar(input@[0]) && rest@ == input@.skip(1)
            },
        },
{
    let n = input.unicode_len();
    if n == 0 {
        return None;
    }
    proof {
        assert(input@.skip(0) =~= input@);
    }
    if let Some((p, k)) = marker_at(input, n, 0) {
        let rest = input.substring_char(k, n);
        proof {
            assert(input@.subrange(k as int, n as int) =~= input@.skip(k as int));
        }
        return Some((rest.to_owned(), p));
    }
    let c0 = input.get_char(0);
    if c0 == ' ' {
        let mut j: usize = 1;
        while j < n && input.get_char(j) == ' '
            invariant
                1 <= j <= n,
                n == input@.len(),
                forall|k: int| 0 <= k < j ==> input@[k] == ' ',
            decreases n - j,
        {
            j = j + 1;
        }
        proof {
            lemma_space_run_is_first_nonspace(input@, j as int);
        }
        let rest = input.substring_char(j, n);
        proof {
            assert(input@.subrange(j as int, n as int) =~= input@.skip(j as int));
        }
        Some((rest.to_owned(), FormatPiece::SeperatorChar(' ')))
    } else {
        let rest = input.substring_char(1, n);
        proof {
            assert(input@.subrange(1, n as int) =~= input@.skip(1));
        }
        Some((rest.to_owned(), FormatPiece::SeperatorChar(c0)))
    }
}

/// Tokenizes a whole format specification into its ordered pieces: field
/// markers stand alone, and every maximal run of literal characters —
/// including one at the very end of the specification — becomes one escaped
/// `Seperator` token, so a non-empty specification always yields tokens.
pub fn date_expression(input: &str) -> (r: Vec<FormatPiece>)
    ensures
        r@.map_values(|p: FormatPiece| piece_tok(p)) == spec_tokenize(input@),
        forall|j: int|
            0 <= j < r@.len() ==> !(#[trigger] r@[j] matches FormatPiece::SeperatorChar(_)),
{
    let n = input.unicode_len();
    let mut out: Vec<FormatPiece> = Vec::new();
    let mut pending: String = String::new();
    let mut i: usize = 0;
    proof {
        assert(input@.skip(0) =~= input@);
        assert(out@.map_values(|p: FormatPiece| piece_tok(p)) =~= Seq::<Tok>::empty());
        assert(Seq::<Tok>::empty() + spec_tokenize(input@) =~= spec_tokenize(input@));
    }
    while i < n
        invariant
            0 <= i <= n,
            n == input@.len(),
            spec_tokenize(input@) == out@.map_values(|p: FormatPiece| piece_tok(p)) + tokenize_rec(
                input@.skip(i as int),
                pending@,
            ),
            forall|j: int|
                0 <= j < out@.len() ==> !(#[trigger] out@[j] matches FormatPiece::SeperatorChar(_)),
        decreases n - i,
    {
        let ghost rem = input@.skip(i as int);
        let ghost om = out@.map_values(|p: FormatPiece| piece_tok(p));
        let ghost pend0 = pending@;
        proof {
            assert(rem.len() == n - i);
            assert(forall|k: int| 0 <= k < n - i ==> rem[k] == input@[i as int + k]);
        }
        if let Some((p, k)) = marker_at(input, n, i) {
            let ghost t = piece_tok(p);
            let ghost flushed: Seq<Tok> = if pend0.len() == 0 {
                seq![t]
            } else {
                seq![Tok::Lit(pend0), t]
            };
            proof {
                assert(tokenize_rec(rem, pend0) == flushed + tokenize_rec(
                    rem.skip(k as int),
                    Seq::empty(),
                ));
                assert(rem.skip(k as int) =~= input@.skip(i + k));
            }
            if pending.as_str().unicode_len() > 0 {
                out.push(FormatPiece::Seperator(pending));
                pending = String::new();
            }
            out.push(p);
            proof {
                assert(out@.map_values(|q: FormatPiece| piece_tok(q)) =~= om + flushed);
                assert(om + flushed + tokenize_rec(input@.skip(i + k), Seq::empty()) =~= om + (
                flushed + tokenize_rec(input@.skip(i + k), Seq::empty())));
            }
            i = i + k;
        } else {
            let c = input.get_char(i);
            if c == ' ' {
                let mut j: usize = i + 1;
                while j < n && input.get_char(j) == ' '
                    invariant
                        i + 1 <= j <= n,
                        n == input@.len(),
                        input@[i as int] == ' ',
                        forall|k: int| i <= k < j ==> input@[k] == ' ',
                    decreases n - j,
                {
                    j = j + 1;
                }
                proof {
                    assert(forall|k: int| 0 <= k < j - i ==> rem[k] == ' ');
                    lemma_space_run_is_first_nonspace(rem, j - i);
                    assert(rem.skip(j - i) =~= input@.skip(j as int));
                }
                pending.append("\\s+");
                proof {
                    assert(pending@ == pend0 + spec_escape(' '));
                }
                i = j;
            } else {
                proof {
                    assert(rem.skip(1) =~= input@.skip(i + 1));
                }
                if c == '.' {
                    pending.append("\\.");
                } else if c == '|' {
                    pending.append("\\|");
                } else if c == '?' {
                    pending.append("\\?");
                } else if c == '+' {
                    pending.append("\\+");
                } else if c == '(' {
                    pending.append("\\(");
                } else if c == ')' {
                    pending.append("\\)");
                } else if c == '[' {
                    pending.append("\\[");
                } else if c == '{' {
                    pending.append("\\{");
                } else if c == '^' {
                    pending.append("\\^");
                } else if c == '$' {
                    pending.append("\\$");
                } else if c == '*' {
                    pending.append("\\*");
                } else {
                    push_char(&mut pending, c);
                    proof {
                        assert(pending@ =~= pend0 + seq![c]);
                    }
                }
                proof {
                    assert(pending@ == pend0 + spec_escape(c));
                }
                i = i + 1;
            }
        }
    }
    proof {
        assert(input@.skip(n as int).len() == 0);
    }
    if pending.as_str().unicode_len() > 0 {
        let ghost om = out@.map_values(|p: FormatPiece| piece_tok(p));
        let ghost pend0 = pending@;
        out.push(FormatPiece::Seperator(pending));
        proof {
            assert(tokenize_rec(input@.skip(n as int), pend0) =~= seq![Tok::Lit(pend0)]);
            assert(out@.map_values(|q: FormatPiece| piece_tok(q)) =~= om + seq![Tok::Lit(pend0)]);
        }
        out
    } else {
        proof {
            assert(out@.map_values(|p: FormatPiece| piece_tok(p)) + Seq::<Tok>::empty()
                =~= out@.map_values(|p: FormatPiece| piece_tok(p)));
        }
        out
    }
}

/// The token sequence is empty exactly for the empty specification: every
/// character either starts a field marker or joins a literal run, and a run
/// still pending at the end of the input is flushed, never dropped.
pub proof fn lemma_nonempty_spec_yields_tokens(s: Seq<char>)
    ensures
        spec_tokenize(s).len() > 0 <==> s.len() > 0,
{
    if s.len() > 0 {
        lemma_tokenize_rec_nonempty(s, Seq::empty());
    }
}

proof fn lemma_tokenize_rec_nonempty(s: Seq<char>, pending: Seq<char>)
    requires
        s.len() > 0 || pending.len() > 0,
    ensures
        tokenize_rec(s, pending).len() > 0,
    decreases s.len(),
{
    lemma_space_run_bounds(s);
    if s.len() > 0 && next_marker(s) is None {
        lemma_spec_escape_nonempty(if s[0] == ' ' {
            ' '
        } else {
            s[0]
        });
        if s[0] == ' ' {
            lemma_tokenize_rec_nonempty(s.skip(space_run(s)), pending + spec_escape(' '));
        } else {
            lemma_tokenize_rec_nonempty(s.skip(1), pending + spec_escape(s[0]));
        }
    }
}

/// Token `j` of `toks` exists and is a literal run.
pub open spec fn lit_at(toks: Seq<Tok>, j: int) -> bool {
    0 <= j < toks.len() && (toks[j] matches Tok::Lit(_))
}

/// Adjacent literal characters always merge: no two consecutive tokens of a
/// tokenized specification are both literal runs, so every maximal run of
/// literal characters appears as exactly one token.
pub proof fn lemma_no_adjacent_literal_tokens(s: Seq<char>)
    ensures
        forall|j: int|
            !(#[trigger] lit_at(spec_tokenize(s), j) && lit_at(spec_tokenize(s), j + 1)),
{
    lemma_tokenize_rec_no_adjacent(s, Seq::empty());
}

proof fn lemma_tokenize_rec_no_adjacent(s: Seq<char>, pending: Seq<char>)
    ensures
        forall|j: int|
            !(#[trigger] lit_at(tokenize_rec(s, pending), j) && lit_at(
                tokenize_rec(s, pending),
                j + 1,
            )),
    decreases s.len(),
{
    let toks = tokenize_rec(s, pending);
    lemma_space_run_bounds(s);
    if s.len() == 0 {
        assert(toks.len() <= 1);
    } else {
        match next_marker(s) {
            Some((t, k)) => {
                lemma_tokenize_rec_no_adjacent(s.skip(k), Seq::empty());
                let tail = tokenize_rec(s.skip(k), Seq::empty());
                let flushed: Seq<Tok> = if pending.len() == 0 {
                    seq![t]
                } else {
                    seq![Tok::Lit(pending), t]
                };
                assert(!(t matches Tok::Lit(_)));
                assert(toks == flushed + tail);
                assert forall|j: int|
                    !(#[trigger] lit_at(toks, j) && lit_at(toks, j + 1)) by {
                    if 0 <= j && j + 1 < toks.len() {
                        let fl = flushed.len() as int;
                        assert(flushed[fl - 1] == t);
                        if j + 1 < fl {
                            assert(toks[j + 1] == flushed[j + 1]);
                        } else if j + 1 == fl {
                            assert(toks[j] == flushed[fl - 1]);
                        } else {
                            assert(toks[j] == tail[j - fl]);
                            assert(toks[j + 1] == tail[j + 1 - fl]);
                            assert(!(lit_at(tail, j - fl) && lit_at(tail, j - fl + 1)));
                        }
                    }
                }
            },
            None => {
                if s[0] == ' ' {
                    lemma_tokenize_rec_no_adjacent(
                        s.skip(space_run(s)),
                        pending + spec_escape(' '),
                    );
                    let sub = tokenize_rec(s.skip(space_run(s)), pending + spec_escape(' '));
                    assert forall|j: int|
                        !(#[trigger] lit_at(toks, j) && lit_at(toks, j + 1)) by {
                        assert(toks == sub);
                        assert(!(lit_at(sub, j) && lit_at(sub, j + 1)));
                    }
                } else {
                    lemma_tokenize_rec_no_adjacent(s.skip(1), pending + spec_escape(s[0]));
                    let sub = tokenize_rec(s.skip(1), pending + spec_escape(s[0]));
                    assert forall|j: int|
                        !(#[trigger] lit_at(toks, j) && lit_at(toks, j + 1)) by {
                        assert(toks == sub);
                        assert(!(lit_at(sub, j) && lit_at(sub, j + 1)));
                    }
                }
            },
        }
    }
}

/// Every character's escaped reading is at least one character long.
pub proof fn lemma_spec_escape_nonempty(c: char)
    ensures
        spec_escape(c).len() >= 1,
{
    reveal_strlit("\\s+");
    reveal_strlit("\\.");
    reveal_strlit("\\|");
    reveal_strlit("\\?");
    reveal_strlit("\\+");
    reveal_strlit("\\(");
    reveal_strlit("\\)");
    reveal_strlit("\\[");
    reveal_strlit("\\{");
    reveal_strlit("\\^");
    reveal_strlit("\\$");
    reveal_strlit("\\*");
}

} // verus!
