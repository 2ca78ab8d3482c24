//! The numeric order of single-precision values, read off their bit patterns.
//!
//! A pattern is a sign bit followed by a magnitude of 31 bits. Magnitudes up to
//! [`INFINITY_BITS`] are numbers (infinity included) and grow with the value they
//! encode; larger magnitudes are no numbers and have no place in the order. Negative
//! and positive zero are equal.

use vstd::prelude::*;

verus! {

/// The bit that holds the sign.
pub const SIGN_BIT: u32 = 0x8000_0000;

/// The magnitude of infinity: every larger magnitude encodes no number.
pub const INFINITY_BITS: u32 = 0x7f80_0000;

/// The pattern without its sign bit.
pub open spec fn magnitude(bits: u32) -> int {
    if bits >= SIGN_BIT {
        bits - SIGN_BIT
    } else {
        bits as int
    }
}

/// Whether the pattern encodes a number, that is anything but a NaN.
pub open spec fn is_number(bits: u32) -> bool {
    magnitude(bits) <= INFINITY_BITS
}

/// The place of a number in the numeric order: `a` is below `b` exactly when
/// `order_key(a) < order_key(b)`, and both zeros have key 0.
pub open spec fn order_key(bits: u32) -> int {
    if bits >= SIGN_BIT {
        -magnitude(bits)
    } else {
        magnitude(bits)
    }
}

/// Whether every pattern of the sequence encodes a number.
pub open spec fn all_numbers(values: Seq<u32>) -> bool {
    forall|i: int| 0 <= i < values.len() ==> is_number(#[trigger] values[i])
}

/// Whether position `at` holds a least value and no earlier position holds one as small.
pub open spec fn is_first_minimum(values: Seq<u32>, at: int) -> bool {
    &&& 0 <= at < values.len()
    &&& forall|j: int|
        0 <= j < values.len() ==> order_key(values[at]) <= order_key(#[trigger] values[j])
    &&& forall|j: int| 0 <= j < at ==> order_key(values[at]) < order_key(#[trigger] values[j])
}

/// The position of the first least value, 0 for the empty sequence.
pub open spec fn first_minimum(values: Seq<u32>) -> int
    decreases values.len(),
{
    if values.len() <= 1 {
        0
    } else {
        let before = first_minimum(values.drop_last());
        if order_key(values.last()) < order_key(values[before]) {
            values.len() - 1
        } else {
            before
        }
    }
}

/// `first_minimum` names a first minimum of every sequence that is not empty.
pub proof fn first_minimum_is_first(values: Seq<u32>)
    requires
        values.len() > 0,
    ensures
        is_first_minimum(values, first_minimum(values)),
    decreases values.len(),
{
    if values.len() > 1 {
        let front = values.drop_last();
        first_minimum_is_first(front);
        let before = first_minimum(front);
        assert(forall|j: int| 0 <= j < front.len() ==> front[j] == values[j]);
        if order_key(values.last()) < order_key(values[before]) {
            let at = values.len() - 1;
            assert forall|j: int| 0 <= j < at implies order_key(values[at]) < order_key(
                #[trigger] values[j],
            ) by {
                assert(order_key(front[before]) <= order_key(front[j]));
            }
        } else {
            assert forall|j: int| 0 <= j < values.len() implies order_key(values[before])
                <= order_key(#[trigger] values[j]) by {
                if j < front.len() {
                    assert(order_key(front[before]) <= order_key(front[j]));
                }
            }
            assert forall|j: int| 0 <= j < before implies order_key(values[before]) < order_key(
                #[trigger] values[j],
            ) by {
                assert(order_key(front[before]) < order_key(front[j]));
            }
        }
    }
}

/// A sequence has one first minimum: two positions that both qualify are the same.
pub proof fn first_minimum_is_unique(values: Seq<u32>, a: int, b: int)
    requires
        is_first_minimum(values, a),
        is_first_minimum(values, b),
    ensures
        a == b,
{
    if a < b {
        assert(order_key(values[b]) < order_key(values[a]));
        assert(order_key(values[a]) <= order_key(values[b]));
    } else if b < a {
        assert(order_key(values[a]) < order_key(values[b]));
        assert(order_key(values[b]) <= order_key(values[a]));
    }
}

/// Where all values are equal in the numeric order, the first position wins.
pub proof fn first_minimum_of_equals(values: Seq<u32>)
    requires
        values.len() > 0,
        forall|i: int, j: int|
            0 <= i < values.len() && 0 <= j < values.len() ==> order_key(#[trigger] values[i])
                == order_key(#[trigger] values[j]),
    ensures
        first_minimum(values) == 0,
{
    first_minimum_is_first(values);
    assert(is_first_minimum(values, 0));
    first_minimum_is_unique(values, first_minimum(values), 0);
}

/// The key of a pattern, or `None` where it encodes no number.
pub fn key_of(bits: u32) -> (key: Option<i64>)
    ensures
        is_number(bits) ==> key == Some(order_key(bits) as i64),
        !is_number(bits) ==> key.is_none(),
{
    let negative = bits >= SIGN_BIT;
    let magnitude: u32 = if negative {
        bits - SIGN_BIT
    } else {
        bits
    };
    if magnitude > INFINITY_BITS {
        None
    } else if negative {
        Some(-(magnitude as i64))
    } else {
        Some(magnitude as i64)
    }
}

/// The position of the first least value of `values`, in the numeric order of the
/// patterns.
///
/// `None` exactly when the search has no answer: the sequence is empty, or one of its
/// patterns encodes no number.
pub fn argmin(values: &Vec<u32>) -> (at: Option<usize>)
    ensures
        at.is_some() <==> values.len() > 0 && all_numbers(values@),
        at matches Some(i) ==> i == first_minimum(values@) && is_first_minimum(values@, i as int),
{
    if values.len() == 0 {
        return None;
    }
    let mut best: usize = 0;
    let mut best_key: i64 = match key_of(values[0]) {
        Some(key) => key,
        None => {
            return None;
        },
    };
    let mut i: usize = 1;
    assert(values@.take(1).len() == 1);
    while i < values.len()
        invariant
            1 <= i <= values.len(),
            all_numbers(values@.take(i as int)),
            best == first_minimum(values@.take(i as int)),
            0 <= best < i,
            best_key == order_key(values[best as int]),
        decreases values.len() - i,
    {
        let ghost seen = values@.take(i as int);
        let ghost next = values@.take(i + 1);
        assert(next.drop_last() == seen);
        assert(next.last() == values[i as int]);
        assert(next[best as int] == values[best as int]);
        match key_of(values[i]) {
            Some(key) => {
                assert forall|j: int| 0 <= j < next.len() implies is_number(
                    #[trigger] next[j],
                ) by {
                    if j < i {
                        assert(seen[j] == next[j]);
                    }
                }
                if key < best_key {
                    best = i;
                    best_key = key;
                }
            },
            None => {
                assert(!is_number(values@[i as int]));
                return None;
            },
        }
        i += 1;
    }
    proof {
        assert(values@.take(values.len() as int) == values@);
        first_minimum_is_first(values@);
    }
    Some(best)
}

} // verus!
