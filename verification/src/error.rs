//! The one error of the crate: a tranche ran out before a request was met.

use vstd::prelude::*;
use vstd::string::StringExecFns;

verus! {

/// An error signalling that the end of a tranche was reached unexpectedly.
///
/// It records how many elements the failed operation asked for and how many
/// the tranche still held at that moment, so `needed() > len()` for every
/// error that the crate hands out.
#[derive(Clone, Copy, Debug)]
pub struct UnexpectedEndError {
    needed: usize,
    len: usize,
}

/// The character for a single decimal digit.
pub open spec fn digit(d: nat) -> char
    recommends
        d < 10,
{
    if d == 0 {
        '0'
    } else if d == 1 {
        '1'
    } else if d == 2 {
        '2'
    } else if d == 3 {
        '3'
    } else if d == 4 {
        '4'
    } else if d == 5 {
        '5'
    } else if d == 6 {
        '6'
    } else if d == 7 {
        '7'
    } else if d == 8 {
        '8'
    } else {
        '9'
    }
}

/// The decimal numeral of `n`, most significant digit first, without leading
/// zeros (`0` itself is the single digit `0`).
pub open spec fn decimal(n: nat) -> Seq<char>
    decreases n,
{
    if n < 10 {
        seq![digit(n)]
    } else {
        decimal(n / 10).push(digit(n % 10))
    }
}

/// A string holding just the digit `d`.
fn digit_str(d: usize) -> (s: &'static str)
    requires
        d < 10,
    ensures
        s@ == seq![digit(d as nat)],
{
    proof {
        reveal_strlit("0");
        reveal_strlit("1");
        reveal_strlit("2");
        reveal_strlit("3");
        reveal_strlit("4");
        reveal_strlit("5");
        reveal_strlit("6");
        reveal_strlit("7");
        reveal_strlit("8");
        reveal_strlit("9");
    }
    let s = if d == 0 {
        "0"
    } else if d == 1 {
        "1"
    } else if d == 2 {
        "2"
    } else if d == 3 {
        "3"
    } else if d == 4 {
        "4"
    } else if d == 5 {
        "5"
    } else if d == 6 {
        "6"
    } else if d == 7 {
        "7"
    } else if d == 8 {
        "8"
    } else {
        "9"
    };
    assert(s@ =~= seq![digit(d as nat)]);
    s
}

/// Appends the decimal numeral of `n` to `out`.
fn push_decimal(out: &mut String, n: usize)
    ensures
        final(out)@ == old(out)@ + decimal(n as nat),
    decreases n,
{
    if n >= 10 {
        push_decimal(out, n / 10);
    }
    out.append(digit_str(n % 10));
    assert(out@ =~= old(out)@ + decimal(n as nat));
}

impl UnexpectedEndError {
    /// The error of an operation that asked for `needed` elements of a
    /// tranche that held `len`.
    pub(crate) fn new(needed: usize, len: usize) -> (e: Self)
        ensures
            e.needed() == needed,
            e.len() == len,
        no_unwind
    {
        UnexpectedEndError { needed, len }
    }

    /// What [`needed`](Self::needed) returns.
    pub closed spec fn spec_needed(&self) -> usize {
        self.needed
    }

    /// What [`len`](Self::len) returns.
    pub closed spec fn spec_len(&self) -> usize {
        self.len
    }

    /// The text of the error: `unexpected end (needed N, got L)`, with both
    /// numbers in decimal.
    pub open spec fn message(&self) -> Seq<char> {
        "unexpected end (needed "@ + decimal(self.needed() as nat) + ", got "@ + decimal(
            self.len() as nat,
        ) + ")"@
    }

    /// Returns the number of elements that were needed from the tranche for
    /// the operation to succeed.
    #[verifier::when_used_as_spec(spec_needed)]
    pub fn needed(&self) -> (n: usize)
        ensures
            n == self.needed(),
    {
        self.needed
    }

    /// Returns the number of elements that were in the tranche when the
    /// operation failed.
    #[verifier::when_used_as_spec(spec_len)]
    pub fn len(&self) -> (n: usize)
        ensures
            n == self.len(),
    {
        self.len
    }

    /// Renders the error as a human-readable message.
    pub fn to_string(&self) -> (s: String)
        ensures
            s@ == self.message(),
    {
        let mut s = String::from_str("unexpected end (needed ");
        push_decimal(&mut s, self.needed);
        s.append(", got ");
        push_decimal(&mut s, self.len);
        s.append(")");
        s
    }
}

} // verus!
