//! Ranking of nearest-point candidates.
//!
//! A candidate is ranked by its distance to the target, then by the index
//! of the curve or point it lies on, then by its curve parameter, then by
//! its coordinates. Each real-valued part is carried as the key that
//! `total_order_key` makes of the value's binary64 bit pattern: keys compare
//! as the values do in the IEEE 754 total order, so the ranking is a plain
//! lexicographic order on integers.
use vstd::prelude::*;

verus! {

/// The sign bit of a binary64 bit pattern.
pub const SIGN_BIT: u64 = 0x8000_0000_0000_0000;

/// The IEEE 754 total order on binary64 bit patterns: negative values (sign
/// bit set) before positive ones; among positives a larger pattern is a
/// larger value, among negatives a larger pattern is a smaller value.
pub open spec fn total_lt(a: u64, b: u64) -> bool {
    if (a >> 63u64) != (b >> 63u64) {
        (a >> 63u64) == 1
    } else if (a >> 63u64) == 0 {
        a < b
    } else {
        a > b
    }
}

/// Key of a bit pattern: the sign bit is set on a positive pattern, and
/// every bit is flipped on a negative one.
pub open spec fn spec_total_order_key(bits: u64) -> u64 {
    if (bits >> 63u64) == 0 {
        bits | SIGN_BIT
    } else {
        !bits
    }
}

/// The key of a binary64 bit pattern, ordered as the total order orders the
/// values.
pub fn total_order_key(bits: u64) -> (r: u64)
    ensures
        r == spec_total_order_key(bits),
{
    if (bits >> 63u64) == 0 {
        bits | SIGN_BIT
    } else {
        !bits
    }
}

/// Keys compare as the bit patterns do in the IEEE 754 total order, and two
/// patterns have the same key only when they are the same pattern.
pub proof fn lemma_total_order_key(a: u64, b: u64)
    ensures
        (spec_total_order_key(a) < spec_total_order_key(b)) == total_lt(a, b),
        (spec_total_order_key(a) == spec_total_order_key(b)) == (a == b),
{
    if (a >> 63u64) == 0 && (b >> 63u64) == 0 {
        assert(((a | 0x8000_0000_0000_0000u64) < (b | 0x8000_0000_0000_0000u64)) == (a < b)
            && ((a | 0x8000_0000_0000_0000u64) == (b | 0x8000_0000_0000_0000u64)) == (a == b))
            by (bit_vector)
            requires
                (a >> 63u64) == 0,
                (b >> 63u64) == 0,
        ;
    } else if (a >> 63u64) == 0 {
        assert((a | 0x8000_0000_0000_0000u64) > !b && (a | 0x8000_0000_0000_0000u64) != !b)
            by (bit_vector)
            requires
                (a >> 63u64) == 0,
                (b >> 63u64) != 0,
        ;
    } else if (b >> 63u64) == 0 {
        assert(!a < (b | 0x8000_0000_0000_0000u64) && (a >> 63u64) == 1) by (bit_vector)
            requires
                (a >> 63u64) != 0,
                (b >> 63u64) == 0,
        ;
        assert(a != b);
    } else {
        assert((!a < !b) == (a > b) && (!a == !b) == (a == b)) by (bit_vector);
        assert((a >> 63u64) == 1 && (b >> 63u64) == 1) by (bit_vector)
            requires
                (a >> 63u64) != 0,
                (b >> 63u64) != 0,
        ;
    }
}

/// Ranking key of one nearest-point candidate: the distance, the curve
/// parameter and the coordinates are keys made by `total_order_key`.
#[derive(Clone, Copy, Debug, PartialEq, Eq, Structural)]
pub struct NearestKey {
    pub distance: u64,
    pub index: usize,
    pub t: u64,
    pub x: u64,
    pub y: u64,
}

/// `a` ranks strictly before `b`.
pub open spec fn precedes(a: NearestKey, b: NearestKey) -> bool {
    if a.distance != b.distance {
        a.distance < b.distance
    } else if a.index != b.index {
        a.index < b.index
    } else if a.t != b.t {
        a.t < b.t
    } else if a.x != b.x {
        a.x < b.x
    } else {
        a.y < b.y
    }
}

/// The ranking is a strict total order: irreflexive, transitive, and any two
/// different keys are ranked one way or the other.
pub proof fn lemma_precedes_total(a: NearestKey, b: NearestKey, c: NearestKey)
    ensures
        !precedes(a, a),
        precedes(a, b) && precedes(b, c) ==> precedes(a, c),
        a != b ==> (precedes(a, b) || precedes(b, a)),
        !(precedes(a, b) && precedes(b, a)),
{
}

impl NearestKey {
    /// Compares two candidates by the ranking.
    pub fn cmp(&self, other: &NearestKey) -> (r: core::cmp::Ordering)
        ensures
            (r == core::cmp::Ordering::Less) == precedes(*self, *other),
            (r == core::cmp::Ordering::Greater) == precedes(*other, *self),
            (r == core::cmp::Ordering::Equal) == (*self == *other),
    {
        if self.distance != other.distance {
            if self.distance < other.distance {
                core::cmp::Ordering::Less
            } else {
                core::cmp::Ordering::Greater
            }
        } else if self.index != other.index {
            if self.index < other.index {
                core::cmp::Ordering::Less
            } else {
                core::cmp::Ordering::Greater
            }
        } else if self.t != other.t {
            if self.t < other.t {
                core::cmp::Ordering::Less
            } else {
                core::cmp::Ordering::Greater
            }
        } else if self.x != other.x {
            if self.x < other.x {
                core::cmp::Ordering::Less
            } else {
                core::cmp::Ordering::Greater
            }
        } else if self.y != other.y {
            if self.y < other.y {
                core::cmp::Ordering::Less
            } else {
                core::cmp::Ordering::Greater
            }
        } else {
            core::cmp::Ordering::Equal
        }
    }

    /// The key with its index replaced.
    pub fn with_index(self, index: usize) -> (r: NearestKey)
        ensures
            r == (NearestKey { index, ..self }),
    {
        NearestKey { index, ..self }
    }
}

/// Position of the best-ranked key: none for an empty list, else the first
/// key that no other key ranks before.
pub fn min_position(keys: &Vec<NearestKey>) -> (r: Option<usize>)
    ensures
        r.is_none() == (keys@.len() == 0),
        r matches Some(i) ==> {
            &&& i < keys@.len()
            &&& forall|j: int| 0 <= j < keys@.len() ==> !precedes(keys@[j], keys@[i as int])
            &&& forall|j: int| 0 <= j < i ==> precedes(keys@[i as int], keys@[j])
        },
{
    if keys.len() == 0 {
        return None;
    }
    let mut best: usize = 0;
    let mut i: usize = 1;
    while i < keys.len()
        invariant
            0 < i <= keys@.len(),
            best < i,
            forall|j: int| 0 <= j < i ==> !precedes(keys@[j], keys@[best as int]),
            forall|j: int| 0 <= j < best ==> precedes(keys@[best as int], keys@[j]),
        decreases keys@.len() - i,
    {
        if let core::cmp::Ordering::Less = keys[i].cmp(&keys[best]) {
            proof {
                assert forall|j: int| 0 <= j < i + 1 implies !precedes(keys@[j], keys@[i as int]) by {
                    lemma_precedes_total(keys@[j], keys@[i as int], keys@[best as int]);
                    lemma_precedes_total(keys@[i as int], keys@[j], keys@[best as int]);
                }
                assert forall|j: int| 0 <= j < i implies precedes(keys@[i as int], keys@[j]) by {
                    lemma_precedes_total(keys@[i as int], keys@[best as int], keys@[j]);
                    lemma_precedes_total(keys@[j], keys@[best as int], keys@[j]);
                    if keys@[j] == keys@[best as int] {
                    } else {
                        lemma_precedes_total(keys@[best as int], keys@[j], keys@[j]);
                    }
                }
            }
            best = i;
        }
        i = i + 1;
    }
    Some(best)
}

} // verus!
