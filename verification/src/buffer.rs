//! Operations on the caller-owned expression buffer that need no
//! validation: conversions between text and character vectors, clearing,
//! backspace, and the display length governor.

use vstd::prelude::*;

use vstd::string::StrSliceExecFns;

verus! {

/// A buffer longer than this many characters is replaced by the overflow
/// sentinel.
pub const LENGTH_LIMIT: usize = 43;

/// The characters of `s`, in order.
pub fn string_to_chars(s: &str) -> (r: Vec<char>)
    ensures
        r@ == s@,
{
    let n = s.unicode_len();
    let mut r: Vec<char> = Vec::new();
    let mut i: usize = 0;
    while i < n
        invariant
            0 <= i <= n,
            n == s@.len(),
            r@ == s@.take(i as int),
        decreases n - i,
    {
        r.push(s.get_char(i));
        proof {
            assert(r@ =~= s@.take(i + 1 as int));
        }
        i = i + 1;
    }
    proof {
        assert(s@.take(n as int) =~= s@);
    }
    r
}

/// Relies on String's FromIterator implementation: collecting characters
/// yields the string with exactly those characters in order.
#[verifier::external_body]
pub fn chars_to_string(v: &Vec<char>) -> (r: String)
    ensures
        r@ == v@,
{
    v.iter().collect()
}

/// Empties the buffer.
pub fn clear_buffer(buf: &mut Vec<char>)
    ensures
        final(buf)@ == Seq::<char>::empty(),
{
    buf.clear();
    proof {
        assert(buf@ =~= Seq::<char>::empty());
    }
}

/// Removes the last character, if any; no validation is re-run.
pub fn backspace(buf: &mut Vec<char>)
    ensures
        old(buf)@.len() > 0 ==> final(buf)@ == old(buf)@.drop_last(),
        old(buf)@.len() == 0 ==> final(buf)@ == old(buf)@,
{
    if buf.len() > 0 {
        buf.pop();
    }
}

/// The display governor: a buffer past the length threshold is replaced
/// by the overflow sentinel; one at or under it is left untouched.
pub fn enforce_length_limit(buf: &mut Vec<char>)
    ensures
        old(buf)@.len() <= LENGTH_LIMIT ==> final(buf)@ == old(buf)@,
        old(buf)@.len() > LENGTH_LIMIT ==> final(buf)@ == "Length Overflow"@,
{
    if buf.len() > LENGTH_LIMIT {
        *buf = string_to_chars("Length Overflow");
    }
}

} // verus!
