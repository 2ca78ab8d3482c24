//! The combinatorial core of a merge self-organizing map (MSOM): a two-dimensional
//! lattice of prototype vectors that clusters sequences of fixed-width chunks while a
//! context signal is carried from chunk to chunk.
//!
//! Everything in this crate is integer logic with machine-checked contracts: the shape
//! of the lattice and the layout of its weight arrays, the search for the best-matching
//! unit, the grid distances of the neighbourhood, the order in which a training run
//! visits its chunks, and the statistics that group samples by unit. Weights and errors
//! are held as the bit patterns of single-precision numbers; the arithmetic on the
//! numbers themselves is done by the caller, who is told at each step what to compute.
//!
//! # Training
//!
//! [`MSOM::fit`] turns a lattice into a [`Training`] run. The run says what it waits for
//! ([`Training::action`]) and is handed the result ([`Training::step`]):
//!
//! * [`Action::Score`]: the caller computes the error of every unit for the chunk named,
//!   from the weights of the lattice and the carried context, and hands in
//!   [`Event::Scored`]. The run picks the winner.
//! * [`Action::Update`]: the caller moves the weights for that winner, scaled over the
//!   lattice by the distances of [`MSOM::neighbourhood`], and hands in
//!   [`Event::Updated`]. The run stores the weights, moves to the next chunk and carries
//!   the winner's weights along as the context, or zeros where a new sample begins.
//! * [`Action::Done`]: [`Training::finish`] hands the lattice back.
//!
//! # Evaluation
//!
//! [`MSOM::evaluate`] starts the [`Evaluation`] of one sample in the same manner, without
//! updates: the unit that wins the last chunk is the unit of the sample.
//!
//! # Statistics
//!
//! [`MSOM::reception_field_count`] and [`MSOM::members`] take the units of the samples of
//! a dataset and say how many samples, and which, fall on each unit.

pub mod evaluation;
pub mod grid;
pub mod lattice;
pub mod order;
pub mod sample;
pub mod schedule;
pub mod stats;
pub mod training;

pub use evaluation::Evaluation;
pub use grid::CountGrid;
pub use lattice::{ConfigError, LatticeError, MSOM};
pub use order::{argmin, key_of};
pub use sample::{chunk_count, divisor, padded_len, padding};
pub use training::{Action, Event, Training};
