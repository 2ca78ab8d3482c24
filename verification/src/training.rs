//! A training run as a machine: it says what is to be computed next, takes the result and
//! moves on. The run owns the lattice from its start to its finish; it picks the
//! best-matching unit, keeps the context that is carried from chunk to chunk, resets it
//! at the start of every sample, and goes through the dataset in the order of the
//! schedule. The arithmetic on the weights is the caller's part.

use crate::lattice::{
    lattice_fits, unit_of_index, unit_slice_in_bounds, zeros, Lattice, LatticeError, MSOM,
};
use crate::order::{all_numbers, first_minimum, first_minimum_is_first};
use crate::sample::{chunk_count, chunk_counts, chunk_in_sample, chunk_start};
use crate::schedule::{first_nonempty, first_nonempty_is_first, Cursor, Plan};
use vstd::prelude::*;

verus! {

/// What a run asks its caller to do next.
#[derive(Clone, Copy, Debug, PartialEq, Eq, Structural)]
pub enum Action {
    /// Compute the error of every unit for the chunk that begins at `start` in sample
    /// `sample`, against the weights of the lattice and the carried context, and hand
    /// the errors in. `chunk` counts the chunks of the sample from zero, and so the
    /// chunks since the context was last reset; `epoch` counts the passes over the
    /// dataset.
    Score { epoch: usize, sample: usize, chunk: usize, start: usize },
    /// Move the weights of the lattice for the winner `(row, col)`, and hand the new
    /// weights in.
    Update { row: usize, col: usize },
    /// Nothing: the run is over.
    Done,
}

/// What the caller hands in.
#[derive(Clone, Debug)]
pub enum Event {
    /// The errors of all units for the chunk last asked for, in row-major order.
    Scored(Vec<u32>),
    /// The two weight arrays after the update last asked for.
    Updated { som: Vec<u32>, context: Vec<u32> },
}

/// What the caller hands in, as plain mathematics.
pub enum Handed {
    /// The errors of all units, in row-major order.
    Scored(Seq<u32>),
    /// The two weight arrays after an update.
    Updated { som: Seq<u32>, context: Seq<u32> },
}

impl View for Event {
    type V = Handed;

    open spec fn view(&self) -> Handed {
        match *self {
            Event::Scored(errors) => Handed::Scored(errors@),
            Event::Updated { som, context } => Handed::Updated { som: som@, context: context@ },
        }
    }
}

/// A training run, as plain mathematics.
pub struct Run {
    /// The lattice being trained.
    pub map: Lattice,
    /// The length of every sample of the dataset.
    pub lens: Seq<usize>,
    /// The number of passes over the dataset.
    pub iterations: nat,
    /// The chunk that is being worked on, or the end.
    pub at: Cursor,
    /// The winner of the chunk at hand, from the moment its errors came in until the
    /// updated weights do.
    pub winner: Option<(nat, nat)>,
    /// The current weights of the last winner in this sample, zeros at its start.
    pub previous_w: Seq<u32>,
    /// The context weights of the last winner in this sample, zeros at its start.
    pub previous_c: Seq<u32>,
}

impl Run {
    /// The schedule that the run follows.
    pub open spec fn plan(self) -> Plan {
        Plan { chunks: chunk_counts(self.lens, self.map.width), iterations: self.iterations }
    }

    /// Whether the run is over.
    pub open spec fn finished(self) -> bool {
        self.at == self.plan().end()
    }

    /// What holds of every run.
    pub open spec fn wf(self) -> bool {
        &&& self.map.wf()
        &&& self.iterations <= usize::MAX
        &&& self.finished() || self.plan().visits(self.at)
        &&& self.finished() ==> self.winner.is_none()
        &&& self.winner matches Some((row, col)) ==> self.map.has_unit(row, col)
        &&& self.previous_w.len() == self.map.width
        &&& self.previous_c.len() == self.map.width
    }

    /// A run at its start: nothing carried, no winner yet.
    pub open spec fn begin(map: Lattice, lens: Seq<usize>, iterations: nat) -> Run {
        let plan = Plan { chunks: chunk_counts(lens, map.width), iterations };
        Run {
            map,
            lens,
            iterations,
            at: plan.start(),
            winner: None,
            previous_w: zeros(map.width),
            previous_c: zeros(map.width),
        }
    }

    /// What the run waits for.
    pub open spec fn action(self) -> Action {
        if self.finished() {
            Action::Done
        } else {
            match self.winner {
                Some((row, col)) => Action::Update { row: row as usize, col: col as usize },
                None => Action::Score {
                    epoch: self.at.epoch as usize,
                    sample: self.at.sample as usize,
                    chunk: self.at.chunk as usize,
                    start: chunk_start(self.at.chunk, self.map.width) as usize,
                },
            }
        }
    }

    /// Why errors are turned down, if they are.
    pub open spec fn refuses_scores(self, errors: Seq<u32>) -> Option<LatticeError> {
        if self.finished() || self.winner.is_some() {
            Some(LatticeError::OutOfTurn)
        } else if errors.len() != self.map.units() {
            Some(LatticeError::ShapeMismatch)
        } else if !all_numbers(errors) {
            Some(LatticeError::UndefinedOrder)
        } else {
            None
        }
    }

    /// The run after errors that it accepts: the first unit with the least error is the
    /// winner.
    pub open spec fn scored(self, errors: Seq<u32>) -> Run {
        Run { winner: Some(self.map.unit_at(first_minimum(errors) as nat)), ..self }
    }

    /// Why new weights are turned down, if they are.
    pub open spec fn refuses_update(self, som: Seq<u32>, context: Seq<u32>) -> Option<
        LatticeError,
    > {
        if self.finished() || self.winner.is_none() {
            Some(LatticeError::OutOfTurn)
        } else if som.len() != self.map.weights() || context.len() != self.map.weights() {
            Some(LatticeError::ShapeMismatch)
        } else {
            None
        }
    }

    /// The run after new weights that it accepts: the lattice holds them, the run stands
    /// at the next chunk, and the context for that chunk is what the winner now holds,
    /// or zeros where the chunk begins a sample.
    pub open spec fn updated(self, som: Seq<u32>, context: Seq<u32>) -> Run {
        let map = self.map.with_weights(som, context);
        let at = self.plan().successor(self.at);
        let (row, col) = self.winner.unwrap();
        Run {
            map,
            at,
            winner: None,
            previous_w: if at.chunk == 0 {
                zeros(map.width)
            } else {
                map.current_of(row, col)
            },
            previous_c: if at.chunk == 0 {
                zeros(map.width)
            } else {
                map.context_of(row, col)
            },
            ..self
        }
    }

    /// Why an event is turned down, if it is.
    pub open spec fn refuses(self, event: Handed) -> Option<LatticeError> {
        match event {
            Handed::Scored(errors) => self.refuses_scores(errors),
            Handed::Updated { som, context } => self.refuses_update(som, context),
        }
    }

    /// The run after an event: as it was where the event is turned down.
    pub open spec fn after(self, event: Handed) -> Run {
        if self.refuses(event).is_some() {
            self
        } else {
            match event {
                Handed::Scored(errors) => self.scored(errors),
                Handed::Updated { som, context } => self.updated(som, context),
            }
        }
    }

    /// What the run answers to an event: why it turns it down, or what it asks for next.
    pub open spec fn answer(self, event: Handed) -> Result<Action, LatticeError> {
        match self.refuses(event) {
            Some(refusal) => Err(refusal),
            None => Ok(self.after(event).action()),
        }
    }

    /// The run after a series of events.
    pub open spec fn replay(self, events: Seq<Handed>) -> Run
        decreases events.len(),
    {
        if events.len() == 0 {
            self
        } else {
            self.replay(events.drop_last()).after(events.last())
        }
    }

    /// An event leaves a run a run, on a lattice of the same shape, with the same dataset
    /// and the same number of passes before it.
    pub proof fn after_keeps_run(self, event: Handed)
        requires
            self.wf(),
        ensures
            self.after(event).wf(),
            self.after(event).map.n == self.map.n,
            self.after(event).map.m == self.map.m,
            self.after(event).map.width == self.map.width,
            self.after(event).lens == self.lens,
            self.after(event).iterations == self.iterations,
    {
        if self.refuses(event).is_none() {
            match event {
                Handed::Scored(errors) => {
                    lattice_fits(self.map.n, self.map.m, self.map.width);
                    first_minimum_is_first(errors);
                    unit_of_index(self.map.n, self.map.m, first_minimum(errors) as nat);
                },
                Handed::Updated { som, context } => {
                    self.plan().successor_is_next(self.at);
                    let (row, col) = self.winner.unwrap();
                    unit_slice_in_bounds(self.map.n, self.map.m, self.map.width, row, col);
                },
            }
        }
    }

    /// Each update that is accepted takes the run through one chunk: it then stands at a
    /// place whose rank is one higher, or at the end with all chunks behind it.
    pub proof fn update_moves_on(self, som: Seq<u32>, context: Seq<u32>)
        requires
            self.wf(),
            self.refuses_update(som, context).is_none(),
        ensures
            ({
                let next = self.updated(som, context);
                if next.finished() {
                    self.plan().rank(self.at) + 1 == self.plan().total()
                } else {
                    next.plan().rank(next.at) == self.plan().rank(self.at) + 1
                }
            }),
    {
        self.plan().successor_is_next(self.at);
    }

    /// How many chunks a series of events takes the run through: the number of updates
    /// among them that are accepted.
    pub open spec fn progress(self, events: Seq<Handed>) -> nat
        decreases events.len(),
    {
        if events.len() == 0 {
            0
        } else {
            let before = self.replay(events.drop_last());
            let accepted = events.last() is Updated && before.refuses(events.last()).is_none();
            self.progress(events.drop_last()) + if accepted {
                1nat
            } else {
                0nat
            }
        }
    }

    /// A run at its start is a run.
    pub proof fn begin_is_run(map: Lattice, lens: Seq<usize>, iterations: nat)
        requires
            map.wf(),
            iterations <= usize::MAX,
        ensures
            Run::begin(map, lens, iterations).wf(),
    {
        let run = Run::begin(map, lens, iterations);
        run.plan().start_is_first();
    }

    /// The run follows its schedule, whatever it is handed: after any series of events
    /// it stands where the schedule stands after as many chunks as updates were
    /// accepted. So every chunk of every sample has its turn once in each epoch, in the
    /// order of the dataset, and the run ends after the last.
    pub proof fn replay_follows_plan(
        map: Lattice,
        lens: Seq<usize>,
        iterations: nat,
        events: Seq<Handed>,
    )
        requires
            map.wf(),
            iterations <= usize::MAX,
        ensures
            ({
                let start = Run::begin(map, lens, iterations);
                let run = start.replay(events);
                &&& run.wf()
                &&& run.plan() == start.plan()
                &&& run.at == start.plan().nth(start.progress(events))
            }),
        decreases events.len(),
    {
        let start = Run::begin(map, lens, iterations);
        Run::begin_is_run(map, lens, iterations);
        if events.len() > 0 {
            Run::replay_follows_plan(map, lens, iterations, events.drop_last());
            let before = start.replay(events.drop_last());
            before.after_keeps_run(events.last());
        }
    }

    /// Training is determined by where it starts and what it is handed: runs that start
    /// alike and are handed the same events end alike, weight for weight.
    pub proof fn replay_is_determined(self, other: Run, events: Seq<Handed>)
        requires
            self.map == other.map,
            self.lens == other.lens,
            self.iterations == other.iterations,
            self.at == other.at,
            self.winner == other.winner,
            self.previous_w == other.previous_w,
            self.previous_c == other.previous_c,
        ensures
            self.replay(events).map.current == other.replay(events).map.current,
            self.replay(events).map.context == other.replay(events).map.context,
            self.replay(events) == other.replay(events),
    {
    }
}

/// A place in a run, as the machine keeps it.
#[derive(Clone, Copy)]
struct Position {
    epoch: usize,
    sample: usize,
    chunk: usize,
}

impl View for Position {
    type V = Cursor;

    closed spec fn view(&self) -> Cursor {
        Cursor { epoch: self.epoch as nat, sample: self.sample as nat, chunk: self.chunk as nat }
    }
}

/// A training run on a lattice that it owns until `finish` hands it back.
pub struct Training {
    map: MSOM,
    lens: Vec<usize>,
    iterations: usize,
    at: Position,
    winner: Option<(usize, usize)>,
    previous_w: Vec<u32>,
    previous_c: Vec<u32>,
}

impl View for Training {
    type V = Run;

    closed spec fn view(&self) -> Run {
        Run {
            map: self.map@,
            lens: self.lens@,
            iterations: self.iterations as nat,
            at: self.at@,
            winner: match self.winner {
                Some((row, col)) => Some((row as nat, col as nat)),
                None => None,
            },
            previous_w: self.previous_w@,
            previous_c: self.previous_c@,
        }
    }
}

/// The first sample at or after `from` that holds a chunk of `width` values.
fn next_nonempty(lens: &Vec<usize>, width: usize, from: usize) -> (sample: usize)
    requires
        from <= lens.len(),
    ensures
        sample == first_nonempty(chunk_counts(lens@, width as nat), from as nat),
        sample <= lens.len(),
{
    let ghost chunks = chunk_counts(lens@, width as nat);
    let mut sample = from;
    while sample < lens.len() && chunk_count(lens[sample], width) == 0
        invariant
            from <= sample <= lens.len(),
            chunks == chunk_counts(lens@, width as nat),
            first_nonempty(chunks, sample as nat) == first_nonempty(chunks, from as nat),
        decreases lens.len() - sample,
    {
        sample += 1;
    }
    proof {
        first_nonempty_is_first(chunks, sample as nat);
    }
    sample
}

impl MSOM {
    /// Starts a training run of `train_iterations` passes over a dataset whose samples
    /// have the lengths `lens`. The run takes the lattice; `Training::finish` gives it
    /// back.
    pub fn fit(self, lens: Vec<usize>, train_iterations: usize) -> (run: Training)
        ensures
            run@ == Run::begin(self@, lens@, train_iterations as nat),
            run@.wf(),
    {
        proof {
            use_type_invariant(&self);
        }
        let width = self.map_input_size();
        let first = next_nonempty(&lens, width, 0);
        let at = if train_iterations > 0 && first < lens.len() {
            Position { epoch: 0, sample: first, chunk: 0 }
        } else {
            Position { epoch: train_iterations, sample: 0, chunk: 0 }
        };
        let previous_w = vec![0u32; width];
        let previous_c = vec![0u32; width];
        proof {
            let chunks = chunk_counts(lens@, width as nat);
            first_nonempty_is_first(chunks, 0);
            assert(previous_w@ == zeros(width as nat));
            assert(previous_c@ == zeros(width as nat));
        }
        Training {
            map: self,
            lens,
            iterations: train_iterations,
            at,
            winner: None,
            previous_w,
            previous_c,
        }
    }
}

impl Training {
    /// What holds of every value of this type.
    #[verifier::type_invariant]
    pub open spec fn inv(&self) -> bool {
        self@.wf()
    }

    /// What the run waits for.
    pub fn action(&self) -> (action: Action)
        ensures
            action == self@.action(),
            self@.wf(),
    {
        proof {
            use_type_invariant(self);
        }
        if self.at.epoch >= self.iterations {
            Action::Done
        } else {
            match self.winner {
                Some((row, col)) => Action::Update { row, col },
                None => {
                    let width = self.map.map_input_size();
                    proof {
                        chunk_in_sample(
                            self.lens@[self.at.sample as int] as nat,
                            width as nat,
                            self.at.chunk as nat,
                        );
                    }
                    Action::Score {
                        epoch: self.at.epoch,
                        sample: self.at.sample,
                        chunk: self.at.chunk,
                        start: self.at.chunk * width,
                    }
                },
            }
        }
    }

    /// The lattice as it stands.
    pub fn map(&self) -> (map: &MSOM)
        ensures
            map@ == self@.map,
    {
        &self.map
    }

    /// The current weights that the chunk at hand is scored against as its context: those
    /// of the last winner in this sample, zeros at the start of a sample.
    pub fn previous_w(&self) -> (carried: &Vec<u32>)
        ensures
            carried@ == self@.previous_w,
            carried@.len() == self@.map.width,
    {
        proof {
            use_type_invariant(self);
        }
        &self.previous_w
    }

    /// The context weights that go with `previous_w`.
    pub fn previous_c(&self) -> (carried: &Vec<u32>)
        ensures
            carried@ == self@.previous_c,
            carried@.len() == self@.map.width,
    {
        proof {
            use_type_invariant(self);
        }
        &self.previous_c
    }

    /// Ends the run where it stands and hands the lattice back.
    pub fn finish(self) -> (map: MSOM)
        ensures
            map@ == self@.map,
    {
        self.map
    }

    /// Takes the result of what the run asked for and says what it asks for next.
    ///
    /// Errors are accepted while the run waits for them, if there is one for each unit
    /// and all are numbers; the unit with the least error, the first such in row-major
    /// order, is then the winner, and the run asks for the update. New weights are
    /// accepted while the run waits for them, if both arrays have the shape of the
    /// lattice; the run then moves to the next chunk. An event that is turned down
    /// leaves the run as it was.
    pub fn step(&mut self, event: Event) -> (next: Result<Action, LatticeError>)
        ensures
            final(self)@.wf(),
            final(self)@ == old(self)@.after(event@),
            next == old(self)@.answer(event@),
    {
        proof {
            use_type_invariant(&*self);
        }
        match event {
            Event::Scored(errors) => {
                if self.at.epoch >= self.iterations || self.winner.is_some() {
                    return Err(LatticeError::OutOfTurn);
                }
                match self.map.winner(&errors) {
                    Ok(unit) => {
                        self.winner = Some(unit);
                    },
                    Err(refusal) => {
                        return Err(refusal);
                    },
                }
            },
            Event::Updated { som, context } => {
                let (row, col) = match self.winner {
                    Some(unit) => unit,
                    None => {
                        return Err(LatticeError::OutOfTurn);
                    },
                };
                match self.map.store(som, context) {
                    Ok(()) => {},
                    Err(refusal) => {
                        return Err(refusal);
                    },
                }
                let at = self.successor();
                let (previous_w, previous_c) = if at.chunk == 0 {
                    let width = self.map.map_input_size();
                    let previous_w = vec![0u32; width];
                    let previous_c = vec![0u32; width];
                    assert(previous_w@ == zeros(width as nat));
                    assert(previous_c@ == zeros(width as nat));
                    (previous_w, previous_c)
                } else {
                    self.map.weights_at(row, col)
                };
                self.winner = None;
                self.at = at;
                self.previous_w = previous_w;
                self.previous_c = previous_c;
            },
        }
        Ok(self.action())
    }

    /// The place that follows the one at hand.
    fn successor(&self) -> (next: Position)
        requires
            !self@.finished(),
        ensures
            next@ == self@.plan().successor(self@.at),
            self@.plan().visits(next@) || next@ == self@.plan().end(),
    {
        proof {
            use_type_invariant(self);
            self@.plan().successor_is_next(self@.at);
        }
        let width = self.map.map_input_size();
        let at = self.at;
        let samples = self.lens.len();
        assert(at.sample < samples);
        if at.chunk + 1 < chunk_count(self.lens[at.sample], width) {
            Position { epoch: at.epoch, sample: at.sample, chunk: at.chunk + 1 }
        } else {
            let sample = next_nonempty(&self.lens, width, at.sample + 1);
            if sample < samples {
                Position { epoch: at.epoch, sample, chunk: 0 }
            } else if at.epoch + 1 < self.iterations {
                let first = next_nonempty(&self.lens, width, 0);
                Position { epoch: at.epoch + 1, sample: first, chunk: 0 }
            } else {
                Position { epoch: self.iterations, sample: 0, chunk: 0 }
            }
        }
    }
}

} // verus!
