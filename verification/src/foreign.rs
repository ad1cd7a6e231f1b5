//! Types of other crates that the engine carries along without looking inside.
use vstd::prelude::*;

verus! {

/// `git_lock::acquire::Fail`: what to do where a lock is held by someone
/// else. The engine hands it on to whoever acquires the lock.
#[verifier::external_type_specification]
#[verifier::external_body]
pub struct ExFail(git_lock::acquire::Fail);

/// `std::io::Error`: why a file could not be read or written. The engine
/// reports it as the cause of a failure.
#[verifier::external_type_specification]
#[verifier::external_body]
pub struct ExIoError(std::io::Error);

} // verus!
