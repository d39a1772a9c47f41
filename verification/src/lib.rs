//! A verified core for Conway's Game of Life: a fixed-size toroidal grid of
//! binary cells advanced one generation at a time, with single-cell toggling,
//! wholesale re-seeding from caller-supplied draws, and state queries.
//!
//! The grid's bits live in a `fixedbitset::FixedBitSet`; the `bitset` module
//! is the trusted boundary around that crate. Everything else is verified:
//! `universe` holds the automaton and its contracts, `laws` the proofs of the
//! global properties (wraparound, determinism, extinction of sparse patterns).

pub mod bitset;
pub mod laws;
pub mod universe;
