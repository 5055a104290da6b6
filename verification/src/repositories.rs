pub mod label;
pub mod todo;

use vstd::prelude::*;

verus! {

/// Failure taxonomy of the storage layer: a looked-up id that is absent is a
/// normal `NotFound` return, while an I/O or connectivity fault of a storage
/// adapter surfaces as `StoreError`.
#[derive(Clone, Copy, Debug, PartialEq, Eq, Structural)]
pub enum RepositoryError {
    NotFound(i32),
    StoreError,
}

} // verus!
