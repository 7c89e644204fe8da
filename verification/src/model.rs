//! The mathematical model of a mesh, and the operations on it.
//!
//! Every executable operation of [`crate::mesh::Mesh`] is specified as a
//! function or a relation on [`MeshView`].

use vstd::prelude::*;
use crate::base::{Id, Identifier, NO_VERTEX};
use crate::vector::{is_cross_product, is_difference, is_normalized, is_sum};
use crate::vertex::Vertex;

verus! {

/// What a mesh holds: the identifier counter, the vertex store, the face
/// store (each face as its ordered vertex list) and the adjacency index
/// (for each generated vertex, the faces that were created on it).
pub struct MeshView<S> {
    pub counter: int,
    pub vertices: Map<Identifier, Vertex<S>>,
    pub faces: Map<Identifier, Seq<Identifier>>,
    pub adjacency: Map<Identifier, Seq<Identifier>>,
}

/// How often `v` occurs in `ids`.
pub open spec fn occurrences(ids: Seq<Identifier>, v: Identifier) -> nat
    decreases ids.len(),
{
    if ids.len() == 0 {
        0
    } else {
        occurrences(ids.drop_last(), v) + if ids.last() == v {
            1nat
        } else {
            0nat
        }
    }
}

/// The adjacency index after a face `face` with vertex list `ids` was
/// created: every vertex that has an entry gains `face` once for each time
/// the face lists it. Entries are never created or removed here.
pub open spec fn attached(
    adjacency: Map<Identifier, Seq<Identifier>>,
    face: Identifier,
    ids: Seq<Identifier>,
) -> Map<Identifier, Seq<Identifier>> {
    Map::new(
        |v: Identifier| adjacency.contains_key(v),
        |v: Identifier| adjacency[v] + Seq::new(occurrences(ids, v), |j: int| face),
    )
}

/// The adjacency index after the faces `faces` (identifier and vertex list)
/// were created one after the other.
pub open spec fn attached_all(
    adjacency: Map<Identifier, Seq<Identifier>>,
    faces: Seq<(Identifier, Seq<Identifier>)>,
) -> Map<Identifier, Seq<Identifier>>
    decreases faces.len(),
{
    if faces.len() == 0 {
        adjacency
    } else {
        attached(attached_all(adjacency, faces.drop_last()), faces.last().0, faces.last().1)
    }
}

/// `after` is `before` edited by one call of `f`: the position that `f`
/// returns, under the identifier of `before`.
pub open spec fn moved<S, F: Fn(Vertex<S>) -> Vertex<S>>(
    f: F,
    before: Vertex<S>,
    after: Vertex<S>,
) -> bool {
    exists|r: Vertex<S>| #[trigger] f.ensures((before,), r) && after == r.renamed(before.id_spec())
}

/// `after` is `before` taken through `to_local`, then `f`, then `to_world`:
/// the position that the last of them returns, under the identifier of
/// `before`.
pub open spec fn moved_about<
    S,
    G: Fn(Vertex<S>) -> Vertex<S>,
    F: Fn(Vertex<S>) -> Vertex<S>,
    H: Fn(Vertex<S>) -> Vertex<S>,
>(to_local: G, f: F, to_world: H, before: Vertex<S>, after: Vertex<S>) -> bool {
    exists|a: Vertex<S>, b: Vertex<S>, c: Vertex<S>|
        #![trigger to_local.ensures((before,), a), f.ensures((a,), b), to_world.ensures((b,), c)]
        to_local.ensures((before,), a) && f.ensures((a,), b) && to_world.ensures((b,), c) && after
            == c.renamed(before.id_spec())
}

/// The rule that edits a vertex by one call of `f`.
pub open spec fn applying<S, F: Fn(Vertex<S>) -> Vertex<S>>(f: F) -> spec_fn(
    Vertex<S>,
    Vertex<S>,
) -> bool {
    |before: Vertex<S>, after: Vertex<S>| moved(f, before, after)
}

/// The rule that edits a vertex by `to_local`, then `f`, then `to_world`.
pub open spec fn applying_about<
    S,
    G: Fn(Vertex<S>) -> Vertex<S>,
    F: Fn(Vertex<S>) -> Vertex<S>,
    H: Fn(Vertex<S>) -> Vertex<S>,
>(to_local: G, f: F, to_world: H) -> spec_fn(Vertex<S>, Vertex<S>) -> bool {
    |before: Vertex<S>, after: Vertex<S>| moved_about(to_local, f, to_world, before, after)
}

/// `after` is the vertex store `before` with the vertex `id` edited by the
/// rule `edit`, or `before` itself where there is no such vertex.
pub open spec fn transformed_one<S>(
    edit: spec_fn(Vertex<S>, Vertex<S>) -> bool,
    id: Identifier,
    before: Map<Identifier, Vertex<S>>,
    after: Map<Identifier, Vertex<S>>,
) -> bool {
    if before.contains_key(id) {
        exists|w: Vertex<S>| #[trigger] edit(before[id], w) && after == before.insert(id, w)
    } else {
        after == before
    }
}

/// `states` are the vertex stores that editing the vertices `ids` by the
/// rule `edit`, one after the other, goes through: one before each edit, and
/// the last.
pub open spec fn is_trace<S>(
    edit: spec_fn(Vertex<S>, Vertex<S>) -> bool,
    ids: Seq<Identifier>,
    states: Seq<Map<Identifier, Vertex<S>>>,
) -> bool {
    &&& states.len() == ids.len() + 1
    &&& forall|i: int|
        0 <= i < ids.len() ==> transformed_one(edit, ids[i], #[trigger] states[i], states[i + 1])
}

/// `after` is the vertex store `before` with the vertices `ids` edited by
/// the rule `edit`, one after the other; a vertex listed twice is edited
/// twice.
pub open spec fn transformed<S>(
    edit: spec_fn(Vertex<S>, Vertex<S>) -> bool,
    ids: Seq<Identifier>,
    before: Map<Identifier, Vertex<S>>,
    after: Map<Identifier, Vertex<S>>,
) -> bool {
    exists|states: Seq<Map<Identifier, Vertex<S>>>|
        #![trigger is_trace(edit, ids, states)]
        is_trace(edit, ids, states) && states[0] == before && states.last() == after
}

/// The vertex store after the vertices `ids`, all of them stored, were
/// duplicated from the counter `c` on: the copy of `ids[j]` is `c + j`.
pub open spec fn with_copies<S>(
    vertices: Map<Identifier, Vertex<S>>,
    ids: Seq<Identifier>,
    c: int,
) -> Map<Identifier, Vertex<S>> {
    Map::new(
        |k: Identifier| vertices.contains_key(k) || c <= k < c + ids.len(),
        |k: Identifier|
            if c <= k < c + ids.len() {
                vertices[ids[k - c]].renamed(k)
            } else {
                vertices[k]
            },
    )
}

/// The adjacency index with an empty entry for each of the `n` identifiers
/// from `c` on.
pub open spec fn with_empty_entries(
    adjacency: Map<Identifier, Seq<Identifier>>,
    n: nat,
    c: int,
) -> Map<Identifier, Seq<Identifier>> {
    Map::new(
        |k: Identifier| adjacency.contains_key(k) || c <= k < c + n,
        |k: Identifier|
            if c <= k < c + n {
                Seq::empty()
            } else {
                adjacency[k]
            },
    )
}

/// The side face over the edge that ends at position `i` of the cap: the
/// previous and the current cap vertex, then the current and the previous
/// top vertex. The edge at position 0 starts at the last cap vertex. The top
/// vertex over position `j` of the cap is `first_top + j`.
pub open spec fn side_face(cap: Seq<Identifier>, first_top: int, i: int) -> Seq<Identifier> {
    let p = if i == 0 {
        cap.len() - 1
    } else {
        i - 1
    };
    seq![cap[p], cap[i], (first_top + i) as Identifier, (first_top + p) as Identifier]
}

/// The top face: the top vertices in the order of the cap.
pub open spec fn top_face(n: nat, first_top: int) -> Seq<Identifier> {
    Seq::new(n, |j: int| (first_top + j) as Identifier)
}

/// The faces that an extrusion creates, in the order of their creation, each
/// with its identifier: the side faces in edge order, then the top face. The
/// first side face is `first_top + cap.len()`.
pub open spec fn extrusion_faces(cap: Seq<Identifier>, first_top: int) -> Seq<
    (Identifier, Seq<Identifier>),
> {
    let n = cap.len();
    Seq::new(
        n + 1,
        |j: int|
            if j < n {
                ((first_top + n + j) as Identifier, side_face(cap, first_top, j))
            } else {
                ((first_top + 2 * n) as Identifier, top_face(n, first_top))
            },
    )
}

/// The face store after the face `face_id` was extruded at the counter `c`:
/// the face is gone, its side faces are stored under the identifiers from
/// `c + n` on, with `n` the number of its vertices, and the top face under
/// `c + 2n`.
pub open spec fn extruded_faces(
    faces: Map<Identifier, Seq<Identifier>>,
    face_id: Identifier,
    c: int,
) -> Map<Identifier, Seq<Identifier>> {
    let cap = faces[face_id];
    let n = cap.len();
    Map::new(
        |k: Identifier| (faces.contains_key(k) && k != face_id) || c + n <= k <= c + 2 * n,
        |k: Identifier|
            if c + n <= k < c + 2 * n {
                side_face(cap, c, k - (c + n))
            } else if k == c + 2 * n {
                top_face(n, c)
            } else {
                faces[k]
            },
    )
}

/// The rule that moves a vertex by the displacement `d`: `d` is added to its
/// coordinates by `plus`, and it keeps its identifier.
pub open spec fn translating<S, P: Fn(S, S) -> S>(plus: P, d: (S, S, S)) -> spec_fn(
    Vertex<S>,
    Vertex<S>,
) -> bool {
    |before: Vertex<S>, after: Vertex<S>|
        after.id_spec() == before.id_spec() && is_sum(plus, before.position(), d, after.position())
}

/// The rule that edits a vertex relative to the point `d`: `d` is subtracted
/// from its coordinates by `minus`, `f` is applied to the result, and `d` is
/// added to what `f` returns by `plus`. The vertex keeps its identifier, and
/// `f` sees it under that identifier.
pub open spec fn editing_about<S, M: Fn(S, S) -> S, F: Fn(Vertex<S>) -> Vertex<S>, P: Fn(S, S) -> S>(
    minus: M,
    f: F,
    plus: P,
    d: (S, S, S),
) -> spec_fn(Vertex<S>, Vertex<S>) -> bool {
    |before: Vertex<S>, after: Vertex<S>|
        exists|a: Vertex<S>, b: Vertex<S>|
            {
                &&& #[trigger] f.ensures((a,), b)
                &&& a.id_spec() == before.id_spec()
                &&& is_difference(minus, before.position(), d, a.position())
                &&& after.id_spec() == before.id_spec()
                &&& is_sum(plus, b.position(), d, after.position())
            }
}

/// `n` is the unit normal of a face whose first three vertices are at `v1`,
/// `v2` and `v3`: the cross product of the edges `v2 - v1` and `v3 - v2`,
/// normalized.
pub open spec fn is_normal<
    S,
    M: Fn(S, S) -> S,
    T: Fn(S, S) -> S,
    P: Fn(S, S) -> S,
    R: Fn(S) -> S,
    D: Fn(S, S) -> S,
>(
    minus: M,
    times: T,
    plus: P,
    root: R,
    over: D,
    v1: (S, S, S),
    v2: (S, S, S),
    v3: (S, S, S),
    n: (S, S, S),
) -> bool {
    exists|e1: (S, S, S), e2: (S, S, S), c: (S, S, S)|
        #![trigger is_difference(minus, v2, v1, e1), is_difference(minus, v3, v2, e2), is_cross_product(times, minus, e1, e2, c)]
        is_difference(minus, v2, v1, e1) && is_difference(minus, v3, v2, e2) && is_cross_product(
            times,
            minus,
            e1,
            e2,
            c,
        ) && is_normalized(times, plus, root, over, c, n)
}

impl<S> MeshView<S> {
    /// The invariant of a mesh: identifiers in use were issued, a vertex is
    /// stored under its own identifier, and only stored vertices have an
    /// adjacency entry.
    pub open spec fn wf(self) -> bool {
        &&& 0 <= self.counter <= i32::MAX
        &&& forall|k: Identifier|
            #![trigger self.vertices.contains_key(k)]
            self.vertices.contains_key(k) ==> 0 <= k < self.counter && self.vertices[k].id_spec()
                == k
        &&& forall|k: Identifier|
            #![trigger self.faces.contains_key(k)]
            self.faces.contains_key(k) ==> 0 <= k < self.counter
        &&& forall|k: Identifier|
            #![trigger self.adjacency.contains_key(k)]
            self.adjacency.contains_key(k) ==> self.vertices.contains_key(k)
    }

    /// The mesh without vertices and faces, that has issued no identifier.
    pub open spec fn empty() -> MeshView<S> {
        MeshView { counter: 0, vertices: Map::empty(), faces: Map::empty(), adjacency: Map::empty() }
    }

    /// The identifier that is issued next.
    pub open spec fn next_id(self) -> Identifier {
        self.counter as Identifier
    }

    /// Whether `id` has been issued.
    pub open spec fn issued(self, id: Identifier) -> bool {
        0 <= id < self.counter
    }

    pub open spec fn gen_id(self) -> MeshView<S> {
        MeshView { counter: self.counter + 1, ..self }
    }

    pub open spec fn gen_vertex(self, x: S, y: S, z: S) -> MeshView<S> {
        let id = self.next_id();
        MeshView {
            counter: self.counter + 1,
            vertices: self.vertices.insert(id, Vertex::spec_new(id, x, y, z)),
            faces: self.faces,
            adjacency: self.adjacency.insert(id, Seq::empty()),
        }
    }

    pub open spec fn gen_face(self, ids: Seq<Identifier>) -> MeshView<S> {
        let id = self.next_id();
        MeshView {
            counter: self.counter + 1,
            vertices: self.vertices,
            faces: self.faces.insert(id, ids),
            adjacency: attached(self.adjacency, id, ids),
        }
    }

    pub open spec fn update_vertex(self, v: Vertex<S>) -> MeshView<S> {
        MeshView { vertices: self.vertices.insert(v.id_spec(), v), ..self }
    }

    pub open spec fn delete_face(self, id: Identifier) -> MeshView<S> {
        MeshView { faces: self.faces.remove(id), ..self }
    }

    /// The same mesh with another vertex store.
    pub open spec fn with_vertices(self, vertices: Map<Identifier, Vertex<S>>) -> MeshView<S> {
        MeshView { vertices: vertices, ..self }
    }

    pub open spec fn duplicate_vertex(self, id: Identifier) -> MeshView<S> {
        if self.vertices.contains_key(id) {
            let at = self.vertices[id].position();
            self.gen_vertex(at.0, at.1, at.2)
        } else {
            self
        }
    }

    /// What `duplicate_vertex` returns: the new identifier, or `NO_VERTEX`.
    pub open spec fn duplicate_id(self, id: Identifier) -> Identifier {
        if self.vertices.contains_key(id) {
            self.next_id()
        } else {
            NO_VERTEX
        }
    }

    /// The mesh after the vertices `ids` were duplicated one after the other.
    pub open spec fn duplicate_vertices(self, ids: Seq<Identifier>) -> MeshView<S>
        decreases ids.len(),
    {
        if ids.len() == 0 {
            self
        } else {
            self.duplicate_vertices(ids.drop_last()).duplicate_vertex(ids.last())
        }
    }

    /// What `duplicate_vertices` returns: for each position the new
    /// identifier, or `NO_VERTEX` where there was nothing to copy.
    pub open spec fn duplicate_ids(self, ids: Seq<Identifier>) -> Seq<Identifier>
        decreases ids.len(),
    {
        if ids.len() == 0 {
            Seq::empty()
        } else {
            self.duplicate_ids(ids.drop_last()).push(
                self.duplicate_vertices(ids.drop_last()).duplicate_id(ids.last()),
            )
        }
    }

    /// Whether every vertex that the face `face_id` lists is stored.
    pub open spec fn face_is_closed(self, face_id: Identifier) -> bool {
        forall|i: int|
            0 <= i < self.faces[face_id].len() ==> self.vertices.contains_key(
                #[trigger] self.faces[face_id][i],
            )
    }

    /// The vertex identifiers that some stored face lists.
    pub open spec fn referenced(self, v: Identifier) -> bool {
        exists|f: Identifier, i: int|
            self.faces.contains_key(f) && 0 <= i < self.faces[f].len() && #[trigger] self.faces[f][i]
                == v
    }

    /// Whether the face `face_id` has a corner to take a normal from: it is
    /// stored, it has at least three vertices, and the first three that it
    /// lists are stored.
    pub open spec fn has_corner(self, face_id: Identifier) -> bool {
        &&& self.faces.contains_key(face_id)
        &&& self.faces[face_id].len() >= 3
        &&& self.vertices.contains_key(self.faces[face_id][0])
        &&& self.vertices.contains_key(self.faces[face_id][1])
        &&& self.vertices.contains_key(self.faces[face_id][2])
    }

    /// The position of the vertex that the face `face_id` lists at `i`.
    pub open spec fn corner(self, face_id: Identifier, i: int) -> (S, S, S) {
        self.vertices[self.faces[face_id][i]].position()
    }

    /// Whether the face `face_id` can be extruded: it is stored, it has at
    /// least one vertex, every vertex that it lists is stored, and the
    /// counter has room for the identifiers of what is created.
    pub open spec fn can_extrude(self, face_id: Identifier) -> bool {
        &&& self.faces.contains_key(face_id)
        &&& self.faces[face_id].len() >= 1
        &&& self.face_is_closed(face_id)
        &&& self.counter + 2 * self.faces[face_id].len() + 1 <= i32::MAX
    }

    /// `post` is this mesh after the face `face_id`, which is stored with at
    /// least one vertex and lists stored vertices only, was extruded, the
    /// copies of its vertices being moved by the rule `edit`.
    ///
    /// With `n` the number of the face's vertices and `c` the counter before:
    /// the top vertices are `c .. c + n`, each the copy of its cap vertex
    /// edited by `edit`; the side faces are `c + n .. c + 2n`, in edge order;
    /// the top face is `c + 2n`; the extruded face is gone; and the new faces
    /// have been entered into the adjacency index in the order of creation.
    pub open spec fn extruded(
        self,
        face_id: Identifier,
        edit: spec_fn(Vertex<S>, Vertex<S>) -> bool,
        post: MeshView<S>,
    ) -> bool {
        let cap = self.faces[face_id];
        let n = cap.len();
        let c = self.counter;
        &&& post.counter == c + 2 * n + 1
        &&& forall|k: Identifier|
            post.vertices.contains_key(k) <==> self.vertices.contains_key(k) || c <= k < c + n
        &&& forall|k: Identifier|
            self.vertices.contains_key(k) ==> #[trigger] post.vertices[k] == self.vertices[k]
        &&& forall|i: int|
            0 <= i < n ==> edit(
                self.vertices[cap[i]].renamed((c + i) as Identifier),
                #[trigger] post.vertices[(c + i) as Identifier],
            )
        &&& post.faces == extruded_faces(self.faces, face_id, c)
        &&& post.adjacency == attached_all(
            with_empty_entries(self.adjacency, n, c),
            extrusion_faces(cap, c),
        )
    }
}

} // verus!
