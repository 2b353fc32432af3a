use vstd::prelude::*;

verus! {

use crate::timezone::{digit_of, is_digit_char};

pub open spec fn all_digits(s: Seq<char>) -> bool {
    forall|i: int| 0 <= i < s.len() ==> is_digit_char(#[trigger] s[i])
}

/// The decimal value of a digit sequence, most significant first.
pub open spec fn digits_val(s: Seq<char>) -> int
    decreases s.len(),
{
    if s.len() == 0 {
        0
    } else {
        10 * digits_val(s.drop_last()) + digit_of(s.last())
    }
}

/// What parsing a capture as an unsigned 32-bit number yields: the decimal
/// value of a non-empty run of digits, when it fits.
pub open spec fn parsed_u32(s: Seq<char>) -> Option<int> {
    if s.len() >= 1 && all_digits(s) && digits_val(s) <= u32::MAX {
        Some(digits_val(s))
    } else {
        None
    }
}

/// What parsing a captured year yields: as above, but within the signed
/// 32-bit range.
pub open spec fn parsed_year(s: Seq<char>) -> Option<int> {
    if s.len() >= 1 && all_digits(s) && digits_val(s) <= i32::MAX {
        Some(digits_val(s))
    } else {
        None
    }
}

pub proof fn lemma_digits_val_nonneg(s: Seq<char>)
    requires
        all_digits(s),
    ensures
        digits_val(s) >= 0,
    decreases s.len(),
{
    if s.len() > 0 {
        assert(forall|i: int| 0 <= i < s.len() - 1 ==> s.drop_last()[i] == s[i]);
        lemma_digits_val_nonneg(s.drop_last());
    }
}

proof fn lemma_digits_val_take_step(s: Seq<char>, j: int)
    requires
        0 <= j < s.len(),
    ensures
        digits_val(s.take(j + 1)) == 10 * digits_val(s.take(j)) + digit_of(s[j]),
{
    assert(s.take(j + 1).drop_last() =~= s.take(j));
    assert(s.take(j + 1).last() == s[j]);
}

proof fn lemma_digits_val_prefix_le(s: Seq<char>, j: int)
    requires
        all_digits(s),
        0 <= j <= s.len(),
    ensures
        digits_val(s.take(j)) <= digits_val(s),
    decreases s.len() - j,
{
    if j < s.len() {
        lemma_digits_val_take_step(s, j);
        assert(all_digits(s.take(j)));
        lemma_digits_val_nonneg(s.take(j));
        assert(digits_val(s.take(j)) <= digits_val(s.take(j + 1)));
        lemma_digits_val_prefix_le(s, j + 1);
    } else {
        assert(s.take(j) =~= s);
    }
}

/// Parses a non-empty all-digit string into its value when that value fits
/// an unsigned 32-bit number; anything else — empty input, a non-digit
/// anywhere, or a value too large — yields `None`.
pub fn parse_u32_digits(input: &str) -> (r: Option<u32>)
    ensures
        match r {
            Some(v) => parsed_u32(input@) == Some(v as int),
            None => parsed_u32(input@) is None,
        },
{
    let n = input.unicode_len();
    if n == 0 {
        return None;
    }
    let mut acc: u64 = 0;
    let mut i: usize = 0;
    proof {
        assert(input@.take(0) =~= Seq::<char>::empty());
    }
    while i < n
        invariant
            0 <= i <= n,
            n == input@.len(),
            all_digits(input@.take(i as int)),
            acc as int == digits_val(input@.take(i as int)),
            acc <= u32::MAX,
        decreases n - i,
    {
        let c = input.get_char(i) as u32;
        if c < 48 || c > 57 {
            proof {
                assert(!is_digit_char(input@[i as int]));
            }
            return None;
        }
        let d: u64 = (c - 48) as u64;
        let next: u64 = acc * 10 + d;
        proof {
            lemma_digits_val_take_step(input@, i as int);
            assert(all_digits(input@.take(i as int + 1)));
        }
        if next > 0xffff_ffff {
            proof {
                if parsed_u32(input@) is Some {
                    lemma_digits_val_prefix_le(input@, i as int + 1);
                }
            }
            return None;
        }
        acc = next;
        i = i + 1;
    }
    proof {
        assert(input@.take(n as int) =~= input@);
    }
    Some(acc as u32)
}

/// Parses a captured year: the digit value when it fits a signed 32-bit
/// number, `None` otherwise.
pub fn parse_year_digits(input: &str) -> (r: Option<i32>)
    ensures
        match r {
            Some(v) => parsed_year(input@) == Some(v as int),
            None => parsed_year(input@) is None,
        },
{
    match parse_u32_digits(input) {
        Some(v) => if v <= 0x7fff_ffff {
            Some(v as i32)
        } else {
            None
        },
        None => None,
    }
}

} // verus!
