use vstd::prelude::*;

verus! {

/// Relies on `String::push`: appends exactly the one character to the end.
#[verifier::external_body]
pub fn push_char(s: &mut String, c: char)
    ensures
        final(s)@ == old(s)@.push(c),
{
    s.push(c);
}

} // verus!
