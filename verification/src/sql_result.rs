//! Typed results the execution layer reports back after running a
//! statement built from this layer's sets.

use vstd::prelude::*;

verus! {

/// The outcome of an INSERT: the last inserted row's generated id.
pub struct InsertResult(pub u64);

impl InsertResult {
    /// The generated id of the inserted row.
    pub fn last_insert_id(&self) -> (r: u64)
        ensures
            r == self.0,
    {
        self.0
    }
}

/// The outcome of an UPDATE or DELETE: how many rows were touched.
pub struct UpdateResult(pub u64);

impl UpdateResult {
    /// The number of rows the statement touched.
    pub fn affected_rows(&self) -> (r: u64)
        ensures
            r == self.0,
    {
        self.0
    }
}

} // verus!
