//! A tri-state wrapper distinguishing "field not supplied" from "field
//! explicitly set", the foundation of partial-update semantics.

use vstd::prelude::*;

verus! {

/// Either a defined value or the explicit absence of one.
///
/// Unlike `Option`, absence here means "the caller said nothing about this
/// field", so a partial update leaves the field untouched rather than
/// clearing it.
#[derive(Debug, PartialEq)]
pub enum Definable<T> {
    Defined(T),
    Undefined,
}

impl<T> Definable<T> {
    /// True when no value has been supplied.
    pub fn is_undefined(&self) -> (r: bool)
        ensures
            r == (self is Undefined),
    {
        matches!(self, Definable::Undefined)
    }

    /// True when a value has been supplied.
    pub fn is_defined(&self) -> (r: bool)
        ensures
            r == (self is Defined),
    {
        matches!(self, Definable::Defined(_))
    }

    /// True when a value has been supplied and `f` accepts it.
    pub fn is_defined_and<F: FnOnce(&T) -> bool>(&self, f: F) -> (r: bool)
        requires
            self is Defined ==> f.requires((&self->Defined_0,)),
        ensures
            self is Undefined ==> r == false,
            self is Defined ==> f.ensures((&self->Defined_0,), r),
    {
        match self {
            Definable::Undefined => false,
            Definable::Defined(x) => f(x),
        }
    }

    /// Alias of `is_undefined`, for callers used to `Option` naming.
    pub fn is_none(&self) -> (r: bool)
        ensures
            r == (self is Undefined),
    {
        self.is_undefined()
    }

    /// Alias of `is_defined`, for callers used to `Option` naming.
    pub fn is_some(&self) -> (r: bool)
        ensures
            r == (self is Defined),
    {
        self.is_defined()
    }

    /// Alias of `is_defined_and`, for callers used to `Option` naming.
    pub fn is_some_and<F: FnOnce(&T) -> bool>(&self, f: F) -> (r: bool)
        requires
            self is Defined ==> f.requires((&self->Defined_0,)),
        ensures
            self is Undefined ==> r == false,
            self is Defined ==> f.ensures((&self->Defined_0,), r),
    {
        self.is_defined_and(f)
    }

    /// Maps the defined value through `f`, keeping `Undefined` as is.
    pub fn map<U, F: FnOnce(T) -> U>(self, f: F) -> (r: Definable<U>)
        requires
            self is Defined ==> f.requires((self->Defined_0,)),
        ensures
            self is Undefined ==> r is Undefined,
            self is Defined ==> r is Defined && f.ensures((self->Defined_0,), r->Defined_0),
    {
        match self {
            Definable::Defined(x) => Definable::Defined(f(x)),
            Definable::Undefined => Definable::Undefined,
        }
    }

    /// Borrows the defined value as an `Option`.
    pub fn as_option(&self) -> (r: Option<&T>)
        ensures
            self is Defined ==> r == Some(&self->Defined_0),
            self is Undefined ==> r is None,
    {
        match *self {
            Definable::Defined(ref x) => Some(x),
            Definable::Undefined => None,
        }
    }

    /// Borrows the defined value, keeping the tri-state shape.
    pub fn as_ref(&self) -> (r: Definable<&T>)
        ensures
            self is Defined ==> r == Definable::Defined(&self->Defined_0),
            self is Undefined ==> r is Undefined,
    {
        match *self {
            Definable::Defined(ref x) => Definable::Defined(x),
            Definable::Undefined => Definable::Undefined,
        }
    }

    /// Borrows the defined value mutably, keeping the tri-state shape:
    /// writes through the returned borrow land in the defined value.
    pub fn as_mut(&mut self) -> (r: Definable<&mut T>)
        ensures
            *old(self) is Undefined ==> r is Undefined && *final(self) is Undefined,
            *old(self) is Defined ==> r is Defined && *(r->Defined_0) == (*old(
                self,
            ))->Defined_0 && *final(self) == Definable::Defined(*final(r->Defined_0)),
    {
        match *self {
            Definable::Defined(ref mut x) => Definable::Defined(x),
            Definable::Undefined => Definable::Undefined,
        }
    }

    /// Supplies a value, replacing whatever state was there before.
    pub fn set(&mut self, value: T)
        ensures
            *final(self) == Definable::Defined(value),
    {
        *self = Definable::Defined(value);
    }

    /// Takes the value out, leaving `Undefined` behind.
    pub fn take(&mut self) -> (r: Option<T>)
        ensures
            *final(self) == Definable::<T>::Undefined,
            *old(self) is Defined ==> r == Some((*old(self))->Defined_0),
            *old(self) is Undefined ==> r is None,
    {
        let mut taken = Definable::Undefined;
        core::mem::swap(self, &mut taken);
        match taken {
            Definable::Defined(value) => Some(value),
            Definable::Undefined => None,
        }
    }
}

impl<T: Copy> Definable<T> {
    /// Copies the defined value out as an `Option`.
    pub fn get(&self) -> (r: Option<T>)
        ensures
            self is Defined ==> r == Some(self->Defined_0),
            self is Undefined ==> r is None,
    {
        match *self {
            Definable::Defined(value) => Some(value),
            Definable::Undefined => None,
        }
    }
}

impl<T: Clone> Clone for Definable<T> {
    /// A clone keeps the tri-state and clones the defined value, if any.
    fn clone(&self) -> (r: Self)
        ensures
            self is Undefined ==> r is Undefined,
            self is Defined ==> r is Defined && cloned(self->Defined_0, r->Defined_0),
    {
        match self {
            Definable::Defined(x) => Definable::Defined(x.clone()),
            Definable::Undefined => Definable::Undefined,
        }
    }
}

impl<T> Default for Definable<T> {
    /// The default state is `Undefined`: a field says nothing until set.
    fn default() -> (r: Self)
        ensures
            r is Undefined,
    {
        Definable::Undefined
    }
}

} // verus!
