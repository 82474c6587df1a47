//! Signs of the values of a Sturm sequence at one point, and the count of
//! sign changes along that sequence.
use vstd::prelude::*;

verus! {

/// The sign of one evaluated polynomial.
#[derive(Clone, Copy, Debug, PartialEq, Eq, Structural)]
pub enum Sign {
    Zero,
    Positive,
    Negative,
}

impl Sign {
    /// The opposite sign; zero stays zero.
    pub open spec fn spec_negate(self) -> Sign {
        match self {
            Sign::Zero => Sign::Zero,
            Sign::Positive => Sign::Negative,
            Sign::Negative => Sign::Positive,
        }
    }

    /// The opposite sign; zero stays zero.
    pub fn negate(self) -> (r: Sign)
        ensures
            r == self.spec_negate(),
    {
        match self {
            Sign::Zero => Sign::Zero,
            Sign::Positive => Sign::Negative,
            Sign::Negative => Sign::Positive,
        }
    }

    /// Sign of a polynomial of the given degree and leading sign as its
    /// argument tends to positive infinity (`toward_negative` false) or
    /// negative infinity (`toward_negative` true): the leading sign, flipped
    /// when the argument tends to negative infinity and the degree is odd.
    pub fn at_infinity(leading: Sign, degree: usize, toward_negative: bool) -> (r: Sign)
        ensures
            toward_negative && degree % 2 == 1 ==> r == leading.spec_negate(),
            !(toward_negative && degree % 2 == 1) ==> r == leading,
    {
        if toward_negative && degree % 2 == 1 {
            leading.negate()
        } else {
            leading
        }
    }
}

/// Sign changes in `s`, where `last` is the most recent non-zero sign seen
/// before `s` (`Sign::Zero` when none has been seen yet). Zero entries carry
/// the previous sign on, so they never count as a change.
pub open spec fn changes_after(s: Seq<Sign>, last: Sign) -> nat
    decreases s.len(),
{
    if s.len() == 0 {
        0
    } else {
        let h = s[0];
        let rest = s.drop_first();
        if h == Sign::Zero {
            changes_after(rest, last)
        } else if last == Sign::Zero || last == h {
            changes_after(rest, h)
        } else {
            1 + changes_after(rest, h)
        }
    }
}

/// Number of sign changes along `s`, skipping zeros.
pub open spec fn spec_sign_changes(s: Seq<Sign>) -> nat {
    changes_after(s, Sign::Zero)
}

/// Counts the sign changes between adjacent entries of `signs`, where a zero
/// continues the sign before it.
pub fn sign_changes(signs: &Vec<Sign>) -> (r: usize)
    ensures
        r == spec_sign_changes(signs@),
        r <= signs@.len(),
{
    let mut changes: usize = 0;
    let mut last = Sign::Zero;
    let mut i: usize = 0;
    proof {
        assert(signs@.subrange(0, signs@.len() as int) =~= signs@);
    }
    while i < signs.len()
        invariant
            i <= signs@.len(),
            changes + changes_after(signs@.subrange(i as int, signs@.len() as int), last)
                == spec_sign_changes(signs@),
            changes <= i,
            last == Sign::Zero ==> changes == 0,
        decreases signs@.len() - i,
    {
        let current = signs[i];
        proof {
            let tail = signs@.subrange(i as int, signs@.len() as int);
            assert(tail[0] == current);
            assert(tail.drop_first() =~= signs@.subrange(i + 1, signs@.len() as int));
        }
        if current != Sign::Zero {
            if last != Sign::Zero && last != current {
                changes = changes + 1;
            }
            last = current;
        }
        i = i + 1;
    }
    proof {
        assert(signs@.subrange(i as int, signs@.len() as int) =~= Seq::<Sign>::empty());
    }
    changes
}

} // verus!
