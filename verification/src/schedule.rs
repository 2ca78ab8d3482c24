//! The order in which a training run visits the chunks of its dataset: epoch after
//! epoch, within an epoch sample after sample as the dataset lists them, within a sample
//! chunk after chunk. A sample too short to hold a chunk is passed over.

use vstd::prelude::*;

verus! {

/// A place in a run: chunk `chunk` of sample `sample`, in epoch `epoch`.
pub struct Cursor {
    pub epoch: nat,
    pub sample: nat,
    pub chunk: nat,
}

/// What a run goes through: the number of chunks of each sample, and the number of
/// epochs.
pub struct Plan {
    pub chunks: Seq<nat>,
    pub iterations: nat,
}

/// The first sample at or after `from` that holds a chunk, or the number of samples
/// where there is none.
pub open spec fn first_nonempty(chunks: Seq<nat>, from: nat) -> nat
    decreases chunks.len() - from,
{
    if from >= chunks.len() {
        chunks.len()
    } else if chunks[from as int] > 0 {
        from
    } else {
        first_nonempty(chunks, from + 1)
    }
}

/// The number of chunks in the samples before `sample`.
pub open spec fn chunks_before(chunks: Seq<nat>, sample: nat) -> nat
    decreases sample,
{
    if sample == 0 || sample > chunks.len() {
        0
    } else {
        chunks_before(chunks, (sample - 1) as nat) + chunks[sample - 1]
    }
}

impl Plan {
    /// Where every run ends: past the last epoch.
    pub open spec fn end(self) -> Cursor {
        Cursor { epoch: self.iterations, sample: 0, chunk: 0 }
    }

    /// Whether the run comes by `at`: a chunk of a sample, in one of the epochs.
    pub open spec fn visits(self, at: Cursor) -> bool {
        &&& at.epoch < self.iterations
        &&& at.sample < self.chunks.len()
        &&& at.chunk < self.chunks[at.sample as int]
    }

    /// The number of chunks that one epoch goes through.
    pub open spec fn per_epoch(self) -> nat {
        chunks_before(self.chunks, self.chunks.len())
    }

    /// The number of chunks that the whole run goes through.
    pub open spec fn total(self) -> nat {
        self.iterations * self.per_epoch()
    }

    /// Where the run begins: at the first chunk of the first sample that has one, in the
    /// first epoch; at the end where there is no epoch or no chunk.
    pub open spec fn start(self) -> Cursor {
        let sample = first_nonempty(self.chunks, 0);
        if self.iterations > 0 && sample < self.chunks.len() {
            Cursor { epoch: 0, sample, chunk: 0 }
        } else {
            self.end()
        }
    }

    /// The place that follows `at`.
    pub open spec fn successor(self, at: Cursor) -> Cursor {
        if at.chunk + 1 < self.chunks[at.sample as int] {
            Cursor { chunk: at.chunk + 1, ..at }
        } else {
            let sample = first_nonempty(self.chunks, at.sample + 1);
            if sample < self.chunks.len() {
                Cursor { epoch: at.epoch, sample, chunk: 0 }
            } else if at.epoch + 1 < self.iterations {
                Cursor { epoch: at.epoch + 1, sample: first_nonempty(self.chunks, 0), chunk: 0 }
            } else {
                self.end()
            }
        }
    }

    /// How many chunks the run has been through when it stands at `at`.
    pub open spec fn rank(self, at: Cursor) -> nat {
        at.epoch * self.per_epoch() + chunks_before(self.chunks, at.sample) + at.chunk
    }

    /// Where the run stands after `steps` chunks: at the end once there is none left.
    pub open spec fn nth(self, steps: nat) -> Cursor
        decreases steps,
    {
        if steps == 0 {
            self.start()
        } else {
            let before = self.nth((steps - 1) as nat);
            if self.visits(before) {
                self.successor(before)
            } else {
                self.end()
            }
        }
    }
}

/// `first_nonempty` finds a sample with a chunk, passes over none, and says so when
/// there is none left.
pub proof fn first_nonempty_is_first(chunks: Seq<nat>, from: nat)
    requires
        from <= chunks.len(),
    ensures
        from <= first_nonempty(chunks, from) <= chunks.len(),
        first_nonempty(chunks, from) < chunks.len() ==> chunks[first_nonempty(chunks, from) as int]
            > 0,
        forall|s: int| from <= s < first_nonempty(chunks, from) ==> #[trigger] chunks[s] == 0,
        chunks_before(chunks, first_nonempty(chunks, from)) == chunks_before(chunks, from),
    decreases chunks.len() - from,
{
    if from < chunks.len() && chunks[from as int] == 0 {
        first_nonempty_is_first(chunks, from + 1);
    }
}

/// The chunks before a sample are no more than those before a later one, and fewer by
/// at least the chunks of the earlier sample itself.
pub proof fn chunks_before_grows(chunks: Seq<nat>, a: nat, b: nat)
    requires
        a < b <= chunks.len(),
    ensures
        chunks_before(chunks, a) + chunks[a as int] <= chunks_before(chunks, b),
    decreases b,
{
    if a + 1 < b {
        chunks_before_grows(chunks, a, (b - 1) as nat);
    }
}

impl Plan {
    /// The run begins at the first place it visits, having been through nothing; it
    /// begins at the end exactly when it has nothing to go through.
    pub proof fn start_is_first(self)
        ensures
            self.total() == 0 <==> self.start() == self.end(),
            self.total() > 0 ==> self.visits(self.start()) && self.rank(self.start()) == 0,
    {
        first_nonempty_is_first(self.chunks, 0);
        let sample = first_nonempty(self.chunks, 0);
        if sample < self.chunks.len() {
            chunks_before_grows(self.chunks, sample, self.chunks.len());
            assert(self.per_epoch() > 0);
            assert(self.iterations > 0 ==> self.iterations * self.per_epoch() > 0)
                by (nonlinear_arith)
                requires
                    self.per_epoch() > 0,
            ;
        } else {
            assert(self.per_epoch() == 0);
            assert(self.iterations * self.per_epoch() == 0) by (nonlinear_arith)
                requires
                    self.per_epoch() == 0,
            ;
        }
        assert(self.iterations == 0 ==> self.iterations * self.per_epoch() == 0)
            by (nonlinear_arith);
    }

    /// Each step takes the run through exactly one chunk: the place that follows a
    /// visited place is visited too and has a rank one higher, or it is the end, and
    /// then the run has been through all its chunks.
    pub proof fn successor_is_next(self, at: Cursor)
        requires
            self.visits(at),
        ensures
            self.visits(self.successor(at)) || self.successor(at) == self.end(),
            self.visits(self.successor(at)) ==> self.rank(self.successor(at)) == self.rank(at) + 1,
            self.successor(at) == self.end() ==> self.rank(at) + 1 == self.total(),
            self.successor(at).epoch == at.epoch || self.successor(at).chunk == 0,
    {
        let next = self.successor(at);
        let len = self.chunks.len();
        first_nonempty_is_first(self.chunks, at.sample + 1);
        first_nonempty_is_first(self.chunks, 0);
        assert(chunks_before(self.chunks, at.sample + 1) == chunks_before(self.chunks, at.sample)
            + self.chunks[at.sample as int]);
        if at.chunk + 1 < self.chunks[at.sample as int] {
        } else {
            let sample = first_nonempty(self.chunks, at.sample + 1);
            if sample < len {
            } else {
                assert(self.per_epoch() == chunks_before(self.chunks, at.sample) + at.chunk + 1);
                assert((at.epoch + 1) * self.per_epoch() == at.epoch * self.per_epoch()
                    + self.per_epoch()) by (nonlinear_arith);
                if at.epoch + 1 < self.iterations {
                    let first = first_nonempty(self.chunks, 0);
                    assert(first < len) by {
                        if first >= len {
                            assert(self.chunks[at.sample as int] == 0);
                        }
                    }
                } else {
                    assert(at.epoch + 1 == self.iterations);
                }
            }
        }
    }

    /// A place that is visited has a rank below the total.
    pub proof fn rank_is_below_total(self, at: Cursor)
        requires
            self.visits(at),
        ensures
            self.rank(at) < self.total(),
    {
        chunks_before_grows(self.chunks, at.sample, self.chunks.len());
        assert((at.epoch + 1) * self.per_epoch() <= self.iterations * self.per_epoch())
            by (nonlinear_arith)
            requires
                at.epoch + 1 <= self.iterations,
        ;
        assert((at.epoch + 1) * self.per_epoch() == at.epoch * self.per_epoch() + self.per_epoch())
            by (nonlinear_arith);
    }

    /// After `steps` chunks the run stands at the visited place of that rank, and at the
    /// end once it has been through all its chunks.
    pub proof fn nth_has_rank(self, steps: nat)
        ensures
            steps < self.total() ==> self.visits(self.nth(steps)) && self.rank(self.nth(steps))
                == steps,
            steps >= self.total() ==> self.nth(steps) == self.end(),
        decreases steps,
    {
        self.start_is_first();
        if steps > 0 {
            let before = self.nth((steps - 1) as nat);
            self.nth_has_rank((steps - 1) as nat);
            if self.visits(before) {
                self.successor_is_next(before);
                self.rank_is_below_total(before);
                if self.visits(self.successor(before)) {
                    self.rank_is_below_total(self.successor(before));
                }
            }
        }
    }

    /// No two visited places share a rank.
    pub proof fn rank_is_one_to_one(self, a: Cursor, b: Cursor)
        requires
            self.visits(a),
            self.visits(b),
            self.rank(a) == self.rank(b),
        ensures
            a == b,
    {
        if a.epoch < b.epoch || (a.epoch == b.epoch && (a.sample < b.sample || (a.sample
            == b.sample && a.chunk < b.chunk))) {
            self.rank_follows_order(a, b);
        } else if b.epoch < a.epoch || (b.epoch == a.epoch && (b.sample < a.sample || (b.sample
            == a.sample && b.chunk < a.chunk))) {
            self.rank_follows_order(b, a);
        }
    }

    /// Every chunk has its turn, once in each epoch: the run reaches each visited place,
    /// after as many chunks as the rank of the place says, and at no other time.
    pub proof fn every_chunk_has_its_turn(self, at: Cursor, steps: nat)
        requires
            self.visits(at),
        ensures
            self.nth(self.rank(at)) == at,
            self.nth(steps) == at ==> steps == self.rank(at),
    {
        self.rank_is_below_total(at);
        self.nth_has_rank(self.rank(at));
        self.rank_is_one_to_one(self.nth(self.rank(at)), at);
        self.nth_has_rank(steps);
    }

    /// The rank follows the order of the places: of two visited places, the one in the
    /// earlier epoch, or in the same epoch the one in the earlier sample, or in the same
    /// sample the earlier chunk, has the lower rank. So no two visited places share a
    /// rank.
    pub proof fn rank_follows_order(self, a: Cursor, b: Cursor)
        requires
            self.visits(a),
            self.visits(b),
            a.epoch < b.epoch || (a.epoch == b.epoch && (a.sample < b.sample || (a.sample
                == b.sample && a.chunk < b.chunk))),
        ensures
            self.rank(a) < self.rank(b),
    {
        if a.epoch < b.epoch {
            chunks_before_grows(self.chunks, a.sample, self.chunks.len());
            assert((a.epoch + 1) * self.per_epoch() <= b.epoch * self.per_epoch())
                by (nonlinear_arith)
                requires
                    a.epoch + 1 <= b.epoch,
            ;
            assert((a.epoch + 1) * self.per_epoch() == a.epoch * self.per_epoch()
                + self.per_epoch()) by (nonlinear_arith);
        } else if a.sample < b.sample {
            chunks_before_grows(self.chunks, a.sample, b.sample);
        }
    }
}

} // verus!
