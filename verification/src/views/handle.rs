//! Ids of the views in a group, and handles that name a child of a known type.
use vstd::prelude::*;
use core::marker::PhantomData;

verus! {

/// The id of a view inside its group.
#[derive(Clone, Copy, Debug, PartialEq, Eq, Structural, Hash)]
pub struct ViewId {
    pub value: u16,
}

impl ViewId {
    pub fn from_u16(value: u16) -> (id: ViewId)
        ensures
            id.value == value,
    {
        ViewId { value }
    }

    pub fn as_u16(self) -> (v: u16)
        ensures
            v == self.value,
    {
        self.value
    }
}

/// The id of a child view, typed by the kind of view it names.
pub struct Handle<T> {
    id: ViewId,
    marker: PhantomData<T>,
}

impl<T> Handle<T> {
    pub closed spec fn spec_id(&self) -> ViewId {
        self.id
    }

    pub fn from_id(id: ViewId) -> (h: Self)
        ensures
            h.spec_id() == id,
    {
        Handle { id, marker: PhantomData }
    }

    pub fn id(&self) -> (id: ViewId)
        ensures
            id == self.spec_id(),
    {
        self.id
    }
}

} // verus!
