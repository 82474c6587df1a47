//! The order in which Newton refinement visits starting points inside an
//! isolating interval: coarse dyadic fractions before fine ones.
use vstd::arithmetic::power2::{lemma2_to64, lemma2_to64_rest, lemma_pow2_strictly_increases, lemma_pow2_unfold, pow2};
use vstd::prelude::*;

verus! {

/// Row `level` of the order: the odd multiples of `1 / 2^level` inside
/// `(0, 1)`, largest first, each as `(numerator, denominator)`.
pub open spec fn seed_row(level: nat) -> Seq<(u64, u64)> {
    Seq::new(
        pow2((level - 1) as nat),
        |i: int| ((pow2(level) - 1 - 2 * i) as u64, pow2(level) as u64),
    )
}

/// Rows `1..=levels` of the order, one after the other.
pub open spec fn seed_order(levels: nat) -> Seq<(u64, u64)>
    decreases levels,
{
    if levels == 0 {
        Seq::empty()
    } else {
        seed_order((levels - 1) as nat) + seed_row(levels)
    }
}

/// The interior fractions of an interval down to `1 / 2^levels`, in the
/// order 1/2; 3/4, 1/4; 7/8, 5/8, 3/8, 1/8; and so on. Every dyadic
/// fraction appears once, at the coarsest level that holds it.
pub fn binary_split_points(levels: u32) -> (r: Vec<(u64, u64)>)
    requires
        levels <= 62,
    ensures
        r@ == seed_order(levels as nat),
{
    let mut r: Vec<(u64, u64)> = Vec::new();
    let mut level: u32 = 0;
    let mut den: u64 = 1;
    proof {
        lemma2_to64();
    }
    while level < levels
        invariant
            level <= levels <= 62,
            den == pow2(level as nat),
            r@ == seed_order(level as nat),
        decreases levels - level,
    {
        proof {
            lemma_pow2_unfold((level + 1) as nat);
            lemma2_to64_rest();
            if level + 1 < 62 {
                lemma_pow2_strictly_increases((level + 1) as nat, 62);
            }
        }
        let next = den * 2;
        let ghost before = r@;
        let mut i: u64 = 0;
        while i < den
            invariant
                level < levels <= 62,
                den == pow2(level as nat),
                next == pow2((level + 1) as nat),
                next == 2 * den,
                i <= den,
                r@ == before + seed_row((level + 1) as nat).take(i as int),
            decreases den - i,
        {
            let item: (u64, u64) = (next - 1 - 2 * i, next);
            r.push(item);
            proof {
                assert(seed_row((level + 1) as nat).take(i + 1) =~= seed_row(
                    (level + 1) as nat,
                ).take(i as int).push(item));
            }
            i = i + 1;
        }
        proof {
            assert(seed_row((level + 1) as nat).take(i as int) =~= seed_row((level + 1) as nat));
        }
        level = level + 1;
        den = next;
    }
    r
}

} // verus!
