//! The evaluation of one sample as a machine: chunk after chunk is scored against the
//! lattice and the context carried from the chunk before, and the unit that wins the
//! last chunk is the answer. The lattice is only read.

use crate::lattice::{
    lattice_fits, unit_of_index, unit_slice_in_bounds, zeros, Lattice, LatticeError, MSOM,
};
use crate::order::{all_numbers, first_minimum, first_minimum_is_first};
use crate::sample::{chunk_count, chunk_in_sample, chunk_start, chunks_in};
use crate::training::Action;
use vstd::prelude::*;

verus! {

/// The evaluation of a sample, as plain mathematics.
pub struct Walk {
    /// The lattice that the sample is held against.
    pub map: Lattice,
    /// The length of the sample.
    pub len: nat,
    /// The number of chunks scored so far.
    pub chunk: nat,
    /// The winner of the chunk scored last, unit `(0, 0)` before the first.
    pub unit: (nat, nat),
    /// The current weights of that winner, zeros before the first chunk.
    pub previous_w: Seq<u32>,
    /// The context weights of that winner, zeros before the first chunk.
    pub previous_c: Seq<u32>,
}

impl Walk {
    /// The number of chunks of the sample.
    pub open spec fn chunks(self) -> nat {
        chunks_in(self.len, self.map.width)
    }

    /// Whether every chunk has been scored.
    pub open spec fn finished(self) -> bool {
        self.chunk >= self.chunks()
    }

    /// What holds of every evaluation.
    pub open spec fn wf(self) -> bool {
        &&& self.map.wf()
        &&& self.len <= usize::MAX
        &&& self.chunk <= self.chunks()
        &&& self.map.has_unit(self.unit.0, self.unit.1)
        &&& self.previous_w.len() == self.map.width
        &&& self.previous_c.len() == self.map.width
    }

    /// An evaluation at its start.
    pub open spec fn begin(map: Lattice, len: nat) -> Walk {
        Walk {
            map,
            len,
            chunk: 0,
            unit: (0, 0),
            previous_w: zeros(map.width),
            previous_c: zeros(map.width),
        }
    }

    /// What the evaluation waits for: the errors of the next chunk, or nothing.
    pub open spec fn action(self) -> Action {
        if self.finished() {
            Action::Done
        } else {
            Action::Score {
                epoch: 0,
                sample: 0,
                chunk: self.chunk as usize,
                start: chunk_start(self.chunk, self.map.width) as usize,
            }
        }
    }

    /// Why errors are turned down, if they are.
    pub open spec fn refuses(self, errors: Seq<u32>) -> Option<LatticeError> {
        if self.finished() {
            Some(LatticeError::OutOfTurn)
        } else if errors.len() != self.map.units() {
            Some(LatticeError::ShapeMismatch)
        } else if !all_numbers(errors) {
            Some(LatticeError::UndefinedOrder)
        } else {
            None
        }
    }

    /// The evaluation after errors that it accepts: the first unit with the least error
    /// is the winner, and its weights are the context of the next chunk.
    pub open spec fn scored(self, errors: Seq<u32>) -> Walk {
        let (row, col) = self.map.unit_at(first_minimum(errors) as nat);
        Walk {
            chunk: self.chunk + 1,
            unit: (row, col),
            previous_w: self.map.current_of(row, col),
            previous_c: self.map.context_of(row, col),
            ..self
        }
    }

    /// The evaluation after errors: as it was where they are turned down.
    pub open spec fn after(self, errors: Seq<u32>) -> Walk {
        if self.refuses(errors).is_some() {
            self
        } else {
            self.scored(errors)
        }
    }

    /// What the evaluation answers to errors: why it turns them down, or what it asks
    /// for next.
    pub open spec fn answer(self, errors: Seq<u32>) -> Result<Action, LatticeError> {
        match self.refuses(errors) {
            Some(refusal) => Err(refusal),
            None => Ok(self.after(errors).action()),
        }
    }

    /// The evaluation after the errors of a series of chunks.
    pub open spec fn replay(self, scores: Seq<Seq<u32>>) -> Walk
        decreases scores.len(),
    {
        if scores.len() == 0 {
            self
        } else {
            self.replay(scores.drop_last()).after(scores.last())
        }
    }

    /// Errors leave an evaluation an evaluation.
    pub proof fn after_keeps_walk(self, errors: Seq<u32>)
        requires
            self.wf(),
        ensures
            self.after(errors).wf(),
    {
        if self.refuses(errors).is_none() {
            lattice_fits(self.map.n, self.map.m, self.map.width);
            first_minimum_is_first(errors);
            unit_of_index(self.map.n, self.map.m, first_minimum(errors) as nat);
            let (row, col) = self.map.unit_at(first_minimum(errors) as nat);
            unit_slice_in_bounds(self.map.n, self.map.m, self.map.width, row, col);
        }
    }

    /// An evaluation only reads: whatever it is handed, the lattice and the sample stay
    /// as they were.
    pub proof fn replay_reads_only(self, scores: Seq<Seq<u32>>)
        ensures
            self.replay(scores).map == self.map,
            self.replay(scores).len == self.len,
        decreases scores.len(),
    {
        if scores.len() > 0 {
            self.replay_reads_only(scores.drop_last());
        }
    }

    /// The last chunk decides: where the errors handed in last are accepted, the unit of
    /// the evaluation is their winner, whatever came before. Earlier chunks bear on the
    /// result only through the context against which the caller scored the last one.
    pub proof fn last_chunk_decides(self, scores: Seq<Seq<u32>>)
        requires
            scores.len() > 0,
            self.replay(scores.drop_last()).refuses(scores.last()).is_none(),
        ensures
            self.replay(scores).unit == self.map.unit_at(first_minimum(scores.last()) as nat),
    {
        self.replay_reads_only(scores.drop_last());
    }

    /// Evaluating twice gives the same unit: evaluations that start on the same lattice
    /// with samples of the same length, and are handed the same errors, end alike.
    pub proof fn replay_is_determined(self, other: Walk, scores: Seq<Seq<u32>>)
        requires
            self == Walk::begin(self.map, self.len),
            other == Walk::begin(other.map, other.len),
            self.map == other.map,
            self.len == other.len,
        ensures
            self.replay(scores).unit == other.replay(scores).unit,
            self.replay(scores).map == self.map,
    {
        self.replay_reads_only(scores);
    }
}

/// The evaluation of one sample against a lattice.
pub struct Evaluation<'a> {
    map: &'a MSOM,
    len: usize,
    chunk: usize,
    unit: (usize, usize),
    previous_w: Vec<u32>,
    previous_c: Vec<u32>,
}

impl<'a> View for Evaluation<'a> {
    type V = Walk;

    closed spec fn view(&self) -> Walk {
        Walk {
            map: self.map@,
            len: self.len as nat,
            chunk: self.chunk as nat,
            unit: (self.unit.0 as nat, self.unit.1 as nat),
            previous_w: self.previous_w@,
            previous_c: self.previous_c@,
        }
    }
}

impl MSOM {
    /// Starts the evaluation of a sample of `sample_len` values.
    pub fn evaluate(&self, sample_len: usize) -> (walk: Evaluation<'_>)
        ensures
            walk@ == Walk::begin(self@, sample_len as nat),
            walk@.wf(),
    {
        proof {
            use_type_invariant(self);
        }
        let width = self.map_input_size();
        let previous_w = vec![0u32; width];
        let previous_c = vec![0u32; width];
        assert(previous_w@ == zeros(width as nat));
        assert(previous_c@ == zeros(width as nat));
        Evaluation { map: self, len: sample_len, chunk: 0, unit: (0, 0), previous_w, previous_c }
    }
}

impl<'a> Evaluation<'a> {
    /// What holds of every value of this type.
    #[verifier::type_invariant]
    pub open spec fn inv(&self) -> bool {
        self@.wf()
    }

    /// What the evaluation waits for.
    pub fn action(&self) -> (action: Action)
        ensures
            action == self@.action(),
            self@.wf(),
    {
        proof {
            use_type_invariant(self);
        }
        let width = self.map.map_input_size();
        if self.chunk >= chunk_count(self.len, width) {
            Action::Done
        } else {
            proof {
                chunk_in_sample(self.len as nat, width as nat, self.chunk as nat);
            }
            Action::Score { epoch: 0, sample: 0, chunk: self.chunk, start: self.chunk * width }
        }
    }

    /// The winner of the chunk scored last: once the evaluation is over, the unit that
    /// the sample falls on. Unit `(0, 0)` while no chunk has been scored.
    pub fn unit(&self) -> (unit: (usize, usize))
        ensures
            unit.0 == self@.unit.0,
            unit.1 == self@.unit.1,
            self@.map.has_unit(unit.0 as nat, unit.1 as nat),
    {
        proof {
            use_type_invariant(self);
        }
        self.unit
    }

    /// The current weights that the next chunk is scored against as its context.
    pub fn previous_w(&self) -> (carried: &Vec<u32>)
        ensures
            carried@ == self@.previous_w,
            carried@.len() == self@.map.width,
    {
        proof {
            use_type_invariant(self);
        }
        &self.previous_w
    }

    /// The context weights that go with `previous_w`.
    pub fn previous_c(&self) -> (carried: &Vec<u32>)
        ensures
            carried@ == self@.previous_c,
            carried@.len() == self@.map.width,
    {
        proof {
            use_type_invariant(self);
        }
        &self.previous_c
    }

    /// Takes the errors of all units for the chunk asked for, in row-major order, and
    /// says what the evaluation asks for next.
    ///
    /// The errors are accepted while a chunk is left to score, if there is one for each
    /// unit and all are numbers. Errors that are turned down leave the evaluation as it
    /// was.
    pub fn step(&mut self, errors: &Vec<u32>) -> (next: Result<Action, LatticeError>)
        ensures
            final(self)@.wf(),
            final(self)@ == old(self)@.after(errors@),
            next == old(self)@.answer(errors@),
    {
        proof {
            use_type_invariant(&*self);
        }
        let width = self.map.map_input_size();
        if self.chunk >= chunk_count(self.len, width) {
            return Err(LatticeError::OutOfTurn);
        }
        let (row, col) = match self.map.winner(errors) {
            Ok(unit) => unit,
            Err(refusal) => {
                return Err(refusal);
            },
        };
        let (previous_w, previous_c) = self.map.weights_at(row, col);
        self.unit = (row, col);
        self.previous_w = previous_w;
        self.previous_c = previous_c;
        self.chunk = self.chunk + 1;
        Ok(self.action())
    }
}

} // verus!
