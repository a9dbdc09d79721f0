//! The traits that generated entity code implements to plug into this
//! layer.

use vstd::prelude::*;

use crate::errors::EntityNotFoundError;

verus! {

/// A persisted entity: something with a key that a lookup can miss.
pub trait Entity: Send {
    type Key: Send + Sync;

    /// The entity's key.
    fn get_key(&self) -> Self::Key;

    /// The typed failure for a lookup of `key` that found nothing.
    fn not_found(key: Self::Key) -> EntityNotFoundError<Self::Key>;
}

/// A domain value with a fixed textual form, such as a string-backed
/// enumeration; the form is what gets bound and rendered.
pub trait AsStaticStr {
    /// The value's fixed textual form.
    fn as_str(&self) -> &'static str;
}

} // verus!
