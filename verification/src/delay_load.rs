//! A tri-state wrapper for lazily fetched fields.
//!
//! A field value can be "not yet fetched" or "fetched" (and then possibly
//! absent).  Collapsing this into a plain optional would conflate "confirmed
//! empty" with "never fetched", which the update classifier and the
//! sanitizer must distinguish.

use vstd::prelude::*;

verus! {

#[derive(Debug, PartialEq)]
pub enum DelayLoad<T> {
    NotLoaded,
    Loaded(T),
}

/// The shape of a `DelayLoad` over the payload's mathematical view; used by
/// the view structs of the entity model.
pub enum DelayLoadView<V> {
    NotLoaded,
    Loaded(V),
}

impl<V> DelayLoadView<V> {
    pub open spec fn is_loaded(self) -> bool {
        self is Loaded
    }

    pub open spec fn value(self) -> V
        recommends
            self is Loaded,
    {
        self->Loaded_0
    }
}

impl<T> DelayLoad<T> {
    /// Whether the value has been fetched.
    pub fn is_loaded(&self) -> (r: bool)
        ensures
            r == (*self is Loaded),
    {
        match self {
            DelayLoad::NotLoaded => false,
            DelayLoad::Loaded(_) => true,
        }
    }

    /// The fetched value.  Callers must know the value was fetched: the
    /// library never asks for a value that may still be pending.
    pub fn expect_loaded(&self) -> (r: &T)
        requires
            *self is Loaded,
        ensures
            *r == self->Loaded_0,
    {
        match self {
            DelayLoad::NotLoaded => unreached(),
            DelayLoad::Loaded(v) => v,
        }
    }

    /// Maps the fetched value, keeping the load state.
    pub fn map<U, F: Fn(&T) -> U>(&self, f: F) -> (r: DelayLoad<U>)
        requires
            *self is Loaded ==> call_requires(f, (&self->Loaded_0,)),
        ensures
            r is Loaded <==> *self is Loaded,
            r is Loaded ==> call_ensures(f, (&self->Loaded_0,), r->Loaded_0),
    {
        match self {
            DelayLoad::NotLoaded => DelayLoad::NotLoaded,
            DelayLoad::Loaded(v) => DelayLoad::Loaded(f(v)),
        }
    }
}

impl<T> DelayLoad<Option<T>> {
    /// Treats "not fetched" and "fetched but absent" alike: the value, if
    /// fetched and present.
    pub fn flatten(&self) -> (r: Option<&T>)
        ensures
            match r {
                Some(v) => *self is Loaded && self->Loaded_0 is Some && *v == self->Loaded_0->0,
                None => *self is NotLoaded || (*self is Loaded && self->Loaded_0 is None),
            },
    {
        match self {
            DelayLoad::NotLoaded => None,
            DelayLoad::Loaded(v) => v.as_ref(),
        }
    }
}

impl<T> From<T> for DelayLoad<T> {
    fn from(value: T) -> (r: Self) {
        DelayLoad::Loaded(value)
    }
}

impl<T> vstd::std_specs::convert::FromSpecImpl<T> for DelayLoad<T> {
    open spec fn obeys_from_spec() -> bool {
        true
    }

    open spec fn from_spec(value: T) -> Self {
        DelayLoad::Loaded(value)
    }
}

} // verus!
