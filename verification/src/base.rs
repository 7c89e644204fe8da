//! Identifiers shared by vertices and faces.

use vstd::prelude::*;

verus! {

/// Internal mesh identifier.
pub type Identifier = i32;

/// What `duplicate_vertex` returns when the vertex to copy does not exist.
/// Identifiers issued by a mesh start at 0 and only grow, so this value never
/// names an entity.
pub const NO_VERTEX: Identifier = -1;

/// A type which carries a mesh identifier.
pub trait Id {
    /// The identifier, as contracts speak of it.
    spec fn id_spec(&self) -> Identifier;

    fn get_id(&self) -> (id: Identifier)
        ensures
            id == self.id_spec(),
    ;
}

} // verus!
