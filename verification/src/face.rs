//! A polygon: an ordered list of vertex identifiers.

use vstd::prelude::*;
use crate::base::{Id, Identifier};

verus! {

/// A face. The order of `vertices` is its winding. The identifier is read
/// with `get_id`; nothing outside this library can change it.
#[derive(Debug)]
pub struct Face {
    pub(crate) id: Identifier,
    pub vertices: Vec<Identifier>,
}

impl Id for Face {
    open(crate) spec fn id_spec(&self) -> Identifier {
        self.id
    }

    fn get_id(&self) -> (id: Identifier) {
        self.id
    }
}

impl View for Face {
    type V = Seq<Identifier>;

    /// The vertex identifiers, in winding order.
    open(crate) spec fn view(&self) -> Seq<Identifier> {
        self.vertices@
    }
}

impl Face {
    pub fn new(id: Identifier, vertices: Vec<Identifier>) -> (f: Face)
        ensures
            f.id_spec() == id,
            f@ == vertices@,
    {
        Face { id: id, vertices: vertices }
    }
}

impl Clone for Face {
    fn clone(&self) -> (f: Face)
        ensures
            f.id_spec() == self.id_spec(),
            f@ == self@,
    {
        Face { id: self.id, vertices: self.vertices.clone() }
    }
}

} // verus!
