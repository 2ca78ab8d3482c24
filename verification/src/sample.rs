//! Samples: flat vectors that are read as a run of chunks, each as wide as a weight
//! vector of the lattice.

use vstd::prelude::*;

verus! {

/// How many chunks of `width` values a sample of `len` values holds. Chunks do not
/// overlap, and values left over after the last whole chunk are not read. A width of
/// zero gives no chunk.
pub open spec fn chunks_in(len: nat, width: nat) -> nat {
    if width == 0 {
        0
    } else {
        len / width
    }
}

/// Where chunk `chunk` begins in its sample.
pub open spec fn chunk_start(chunk: nat, width: nat) -> nat {
    chunk * width
}

/// Every chunk that is counted lies within its sample.
pub proof fn chunk_in_sample(len: nat, width: nat, chunk: nat)
    requires
        chunk < chunks_in(len, width),
    ensures
        chunk_start(chunk, width) + width <= len,
{
    vstd::arithmetic::div_mod::lemma_fundamental_div_mod(len as int, width as int);
    assert((chunk + 1) * width <= (len / width) * width) by (nonlinear_arith)
        requires
            chunk + 1 <= len / width,
            width > 0,
    ;
    assert((chunk + 1) * width == chunk * width + width) by (nonlinear_arith);
    assert((len / width) * width == width * (len / width)) by (nonlinear_arith);
}

/// The chunk counts of a dataset, sample by sample.
pub open spec fn chunk_counts(lens: Seq<usize>, width: nat) -> Seq<nat> {
    Seq::new(lens.len(), |i: int| chunks_in(lens[i] as nat, width))
}

/// How many chunks a sample of `len` values holds.
pub fn chunk_count(len: usize, width: usize) -> (count: usize)
    ensures
        count == chunks_in(len as nat, width as nat),
{
    if width == 0 {
        0
    } else {
        len / width
    }
}

/// The greatest of the given lengths, 0 where there is none.
pub open spec fn longest(lens: Seq<usize>) -> nat
    decreases lens.len(),
{
    if lens.len() == 0 {
        0
    } else {
        let before = longest(lens.drop_last());
        if lens.last() > before {
            lens.last() as nat
        } else {
            before
        }
    }
}

/// `longest` is an upper bound of the lengths, and one of them unless there is none.
pub proof fn longest_is_greatest(lens: Seq<usize>)
    ensures
        forall|i: int| 0 <= i < lens.len() ==> #[trigger] lens[i] <= longest(lens),
        lens.len() > 0 ==> exists|i: int|
            0 <= i < lens.len() && #[trigger] lens[i] == longest(lens),
        lens.len() == 0 ==> longest(lens) == 0,
    decreases lens.len(),
{
    if lens.len() > 0 {
        let front = lens.drop_last();
        longest_is_greatest(front);
        assert forall|i: int| 0 <= i < lens.len() implies #[trigger] lens[i] <= longest(lens) by {
            if i < front.len() {
                assert(front[i] == lens[i]);
            }
        }
        if lens.last() > longest(front) {
            assert(lens[lens.len() - 1] == longest(lens));
        } else if front.len() > 0 {
            let i = choose|i: int| 0 <= i < front.len() && #[trigger] front[i] == longest(front);
            assert(lens[i] == longest(lens));
        } else {
            assert(lens[lens.len() - 1] == longest(lens));
        }
    }
}

/// The length to which vectors of the given lengths are padded before they are summed:
/// the greatest of them.
pub fn padded_len(lens: &Vec<usize>) -> (len: usize)
    ensures
        len == longest(lens@),
{
    let mut len: usize = 0;
    let mut i: usize = 0;
    while i < lens.len()
        invariant
            i <= lens.len(),
            len == longest(lens@.take(i as int)),
        decreases lens.len() - i,
    {
        assert(lens@.take(i + 1).drop_last() == lens@.take(i as int));
        if lens[i] > len {
            len = lens[i];
        }
        i += 1;
    }
    assert(lens@.take(lens.len() as int) == lens@);
    len
}

/// By how much two vectors are lengthened so that they can be added: the shorter one
/// grows to the length of the longer one, which stays as it is. The first number is for
/// the vector of length `current`, the second for the one of length `incoming`.
pub fn padding(current: usize, incoming: usize) -> (grow: (usize, usize))
    ensures
        current + grow.0 == incoming + grow.1,
        grow.0 == 0 || grow.1 == 0,
{
    if incoming > current {
        (incoming - current, 0)
    } else {
        (0, current - incoming)
    }
}

/// By what the sum of the vectors on a unit is divided for their mean: by their number,
/// and by one where the unit holds none, so that an empty unit gives zeros.
pub fn divisor(count: usize) -> (by: usize)
    ensures
        by == if count == 0 {
            1
        } else {
            count
        },
{
    if count == 0 {
        1
    } else {
        count
    }
}

} // verus!
