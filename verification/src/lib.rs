//! Extraction of structured benchmark records from the free-form textual
//! output of a benchmarking harness.
//!
//! Most input lines are irrelevant (headers, summaries, prose); a line that
//! holds a result is recognized by the grammar in [`grammar`], its numeric
//! fields are normalized by [`numeric`], [`bench`] assembles the typed
//! [`Benchmark`] records in input order, and [`order`] defines their
//! name-based equality and ordering.

pub mod bench;
pub mod grammar;
pub mod numeric;
pub mod order;

pub use bench::{parse_lines, Benchmark};
pub use numeric::{drop_commas, parse_commas};
