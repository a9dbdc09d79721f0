//! The typed failures this layer and its callers report.

use vstd::prelude::*;

verus! {

/// A lookup found no entity: the entity's name and the key that missed.
#[derive(Debug, PartialEq, Eq, Copy)]
pub struct EntityNotFoundError<Key> {
    pub entity_name: &'static str,
    pub key: Key,
}

impl<Key> EntityNotFoundError<Key> {
    /// Records which entity was looked up, and by which key.
    pub fn new(entity_name: &'static str, key: Key) -> (r: Self)
        ensures
            r == (EntityNotFoundError { entity_name, key }),
    {
        EntityNotFoundError { entity_name, key }
    }
}

impl<Key: Clone> Clone for EntityNotFoundError<Key> {
    /// A clone reports the same entity name and a clone of the key.
    fn clone(&self) -> (r: Self)
        ensures
            r.entity_name == self.entity_name,
            cloned(self.key, r.key),
    {
        EntityNotFoundError { entity_name: self.entity_name, key: self.key.clone() }
    }
}

/// A statement touched a different number of rows than expected.
#[derive(Debug, PartialEq, Eq, Clone, Copy)]
pub struct UnexpectedAffectedRowsError {
    pub expected: u64,
    pub actual: u64,
}

impl UnexpectedAffectedRowsError {
    /// Records the expected and the observed affected-row counts.
    pub fn new(expected: u64, actual: u64) -> (r: Self)
        ensures
            r == (UnexpectedAffectedRowsError { expected, actual }),
    {
        UnexpectedAffectedRowsError { expected, actual }
    }
}

/// A raw string could not be converted into the requested domain value;
/// the message carries the offending text and the target type's name.
#[derive(Debug)]
pub struct FromStrError {
    pub message: String,
}

impl From<String> for FromStrError {
    /// Wraps a ready-made message.
    fn from(message: String) -> (r: Self) {
        FromStrError { message }
    }
}

impl vstd::std_specs::convert::FromSpecImpl<String> for FromStrError {
    open spec fn obeys_from_spec() -> bool {
        true
    }

    open spec fn from_spec(message: String) -> Self {
        FromStrError { message }
    }
}

} // verus!
