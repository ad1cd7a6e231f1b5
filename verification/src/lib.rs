//! A transaction engine for a store of named references, written without I/O.
//!
//! The engine decides; the caller performs. Every step of a transaction takes
//! what the caller observed in the store and answers with what to do next, so
//! that the rules of the two-phase protocol are stated and proved here while
//! reading, locking and renaming stay with the caller.
//!
//! * [`target`] and [`hex`]: what a reference holds, and the text of a
//!   reference file.
//! * [`edit`]: what a caller asks for.
//! * [`store`]: where the file of a reference lies.
//! * [`transaction`]: preparing a batch of edits, step by step.
//! * [`plan`]: committing a prepared batch, operation by operation.
//! * [`laws`]: what holds of every transaction.
//! * [`create_dir`]: creating a directory with the directories above it.
//! * [`foreign`] and [`bytes`]: what the others lean on.
pub mod bytes;
pub mod create_dir;
pub mod edit;
pub mod foreign;
pub mod hex;
pub mod laws;
pub mod plan;
pub mod store;
pub mod target;
pub mod transaction;
