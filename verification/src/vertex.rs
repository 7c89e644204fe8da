//! A named position in space.

use vstd::prelude::*;
use crate::base::{Id, Identifier};

verus! {

/// A vertex: an identifier and three coordinates of scalar type `S`. The
/// identifier is read with `get_id`; nothing outside this library can change
/// it.
#[derive(Clone, Copy, Debug)]
pub struct Vertex<S> {
    pub(crate) id: Identifier,
    pub x: S,
    pub y: S,
    pub z: S,
}

impl<S> Id for Vertex<S> {
    open(crate) spec fn id_spec(&self) -> Identifier {
        self.id
    }

    fn get_id(&self) -> (id: Identifier) {
        self.id
    }
}

impl<S> Vertex<S> {
    pub fn new(id: Identifier, x: S, y: S, z: S) -> (v: Vertex<S>)
        ensures
            v == Vertex::spec_new(id, x, y, z),
            v.id_spec() == id,
            v.position() == (x, y, z),
    {
        Vertex { id: id, x: x, y: y, z: z }
    }

    /// The vertex with the identifier `id` at `(x, y, z)`.
    pub open(crate) spec fn spec_new(id: Identifier, x: S, y: S, z: S) -> Vertex<S> {
        Vertex { id: id, x: x, y: y, z: z }
    }

    /// The three coordinates of this vertex.
    pub open(crate) spec fn position(self) -> (S, S, S) {
        (self.x, self.y, self.z)
    }

    /// This vertex's position under another identifier.
    pub open(crate) spec fn renamed(self, id: Identifier) -> Vertex<S> {
        Vertex { id: id, x: self.x, y: self.y, z: self.z }
    }
}

} // verus!
