//! The mesh: identifier counter, vertex and face stores, adjacency index,
//! and the operations that edit them.

use std::collections::hash_map::Entry;
use std::collections::HashMap;
use std::collections::HashSet;
use vstd::prelude::*;
use vstd::slice::slice_to_vec;
use vstd::std_specs::hash::spec_hash_map_iter;
use vstd::std_specs::iter::IteratorSpec;
use crate::base::{Id, Identifier, NO_VERTEX};
use crate::face::Face;
use crate::lemmas::{
    lemma_applying_within, lemma_attached_all_step, lemma_duplicate_stored,
    lemma_extruded_by_wider_rule, lemma_transformed_by_wider_rule, lemma_transformed_distinct,
};
use crate::model::{
    MeshView, applying, applying_about, attached, attached_all, extruded_faces, extrusion_faces,
    editing_about, is_normal, is_trace, moved, moved_about, occurrences, side_face, top_face,
    transformed, transformed_one, translating, with_empty_entries,
};
use crate::vector::{
    Vector, VectorImpl, add_to, coordinates, cross_prod_to, is_cross_product, is_difference,
    is_normalized, is_scaled, is_sum, mult_scalar_to, normalize, sub_from,
};
use crate::vertex::Vertex;

verus! {

broadcast use vstd::std_specs::hash::group_hash_axioms;

/// An editable polygon mesh over coordinates of scalar type `S`.
pub struct Mesh<S> {
    id_counter: Identifier,
    faces: HashMap<Identifier, Face>,
    vertices: HashMap<Identifier, Vertex<S>>,
    vertex_face_map: HashMap<Identifier, Vec<Identifier>>,
}

/// What `extrude_face` created.
pub struct ExtrudeResult {
    pub top_face: Identifier,
    pub side_faces: Vec<Identifier>,
}

/// Whether one of the first `upto` of `faces` lists the vertex `v`.
spec fn listed_in(faces: Seq<Face>, upto: int, v: Identifier) -> bool {
    exists|x: int, y: int|
        0 <= x < upto && 0 <= y < faces[x]@.len() && (#[trigger] faces[x]@[y]) == v
}

impl<S> View for Mesh<S> {
    type V = MeshView<S>;

    closed spec fn view(&self) -> MeshView<S> {
        MeshView {
            counter: self.id_counter as int,
            vertices: self.vertices@,
            faces: Map::new(
                |k: Identifier| self.faces@.contains_key(k),
                |k: Identifier| self.faces@[k]@,
            ),
            adjacency: Map::new(
                |k: Identifier| self.vertex_face_map@.contains_key(k),
                |k: Identifier| self.vertex_face_map@[k]@,
            ),
        }
    }
}

impl<S: Copy> Mesh<S> {
    /// The invariant that every operation keeps: that of the model, stated
    /// of the stores as well, and each face is stored under its own
    /// identifier.
    pub closed spec fn wf(&self) -> bool {
        &&& self@.wf()
        &&& forall|k: Identifier|
            #![trigger self.faces@.contains_key(k)]
            self.faces@.contains_key(k) ==> self.faces@[k].id == k && 0 <= k < self.id_counter
        &&& forall|k: Identifier|
            #![trigger self.vertex_face_map@.contains_key(k)]
            self.vertex_face_map@.contains_key(k) ==> self.vertices@.contains_key(k)
    }

    /// A valid mesh has a valid model.
    pub proof fn lemma_wf_view(&self)
        requires
            self.wf(),
        ensures
            self@.wf(),
    {
    }

    /// How many identifiers have been issued: the identifier that is issued
    /// next.
    pub fn id_count(&self) -> (count: Identifier)
        requires
            self.wf(),
        ensures
            count == self@.counter,
            count == self@.next_id(),
    {
        self.id_counter
    }

    /// Issues the next identifier.
    pub fn gen_id(&mut self) -> (id: Identifier)
        requires
            old(self).wf(),
            old(self)@.counter < i32::MAX,
        ensures
            final(self).wf(),
            id == old(self)@.next_id(),
            final(self)@ == old(self)@.gen_id(),
    {
        let res = self.id_counter;
        self.id_counter = self.id_counter + 1;
        assert(self@.vertices == old(self)@.vertices);
        assert(self@.faces == old(self)@.faces);
        assert(self@.adjacency == old(self)@.adjacency);
        res
    }

    /// Creates a vertex at `(x, y, z)` with an empty adjacency entry and
    /// returns its identifier.
    pub fn gen_vertex(&mut self, x: S, y: S, z: S) -> (id: Identifier)
        requires
            old(self).wf(),
            old(self)@.counter < i32::MAX,
        ensures
            final(self).wf(),
            id == old(self)@.next_id(),
            final(self)@ == old(self)@.gen_vertex(x, y, z),
    {
        let new_id = self.gen_id();
        let vertex = Vertex::new(new_id, x, y, z);
        self.vertex_face_map.insert(new_id, Vec::new());
        self.vertices.insert(new_id, vertex);
        assert(self@.adjacency =~= old(self)@.gen_vertex(x, y, z).adjacency);
        assert(self@.faces =~= old(self)@.faces);
        new_id
    }

    /// Creates a face with the vertex list `vertices`, as given, and returns
    /// its identifier. The face is entered into the adjacency entry of each
    /// vertex it lists, once for each time it lists it; a listed identifier
    /// without an entry is stored in the face all the same.
    pub fn gen_face(&mut self, vertices: &[Identifier]) -> (id: Identifier)
        requires
            old(self).wf(),
            old(self)@.counter < i32::MAX,
        ensures
            final(self).wf(),
            id == old(self)@.next_id(),
            final(self)@ == old(self)@.gen_face(vertices@),
    {
        let new_id = self.gen_id();
        let face = Face::new(new_id, slice_to_vec(vertices));
        let mut i: usize = 0;
        while i < vertices.len()
            invariant
                i <= vertices.len(),
                self.wf(),
                self@.counter == old(self)@.counter + 1,
                new_id == old(self)@.counter,
                self@.faces == old(self)@.faces,
                self@.vertices == old(self)@.vertices,
                self@.adjacency.dom() == old(self)@.adjacency.dom(),
                forall|v: Identifier|
                    #![trigger self@.adjacency[v]]
                    self@.adjacency.contains_key(v) ==> self@.adjacency[v] == old(
                        self,
                    )@.adjacency[v] + Seq::new(
                        occurrences(vertices@.take(i as int), v),
                        |j: int| new_id,
                    ),
            decreases vertices.len() - i,
        {
            let v = vertices[i];
            let ghost before = self@;
            proof {
                assert(vertices@.take(i + 1).drop_last() =~= vertices@.take(i as int));
                assert(vertices@.take(i + 1).last() == v);
            }
            match self.vertex_face_map.remove(&v) {
                Some(mut list) => {
                    list.push(new_id);
                    self.vertex_face_map.insert(v, list);
                    proof {
                        assert(self@.adjacency.dom() =~= before.adjacency.dom());
                        assert(occurrences(vertices@.take(i + 1), v) == occurrences(
                            vertices@.take(i as int),
                            v,
                        ) + 1);
                        assert(before.adjacency.contains_key(v));
                        assert(self@.adjacency[v] == before.adjacency[v].push(new_id));
                        assert(Seq::new(occurrences(vertices@.take(i + 1), v), |j: int| new_id)
                            =~= Seq::new(
                            occurrences(vertices@.take(i as int), v),
                            |j: int| new_id,
                        ).push(new_id));
                        assert(self@.adjacency[v] =~= old(self)@.adjacency[v] + Seq::new(
                            occurrences(vertices@.take(i + 1), v),
                            |j: int| new_id,
                        ));
                        assert forall|w: Identifier|
                            #![trigger self@.adjacency[w]]
                            self@.adjacency.contains_key(w) implies self@.adjacency[w] == old(
                            self,
                        )@.adjacency[w] + Seq::new(
                            occurrences(vertices@.take(i + 1), w),
                            |j: int| new_id,
                        ) by {
                            if w != v {
                                assert(self@.adjacency[w] == before.adjacency[w]);
                            }
                        }
                    }
                },
                None => {
                    assert(self@.adjacency =~= before.adjacency);
                },
            }
            proof {
                assert(self@.vertices == before.vertices);
                assert(self@.faces =~= before.faces);
            }
            i += 1;
        }
        self.faces.insert(new_id, face);
        proof {
            assert(vertices@.take(vertices.len() as int) =~= vertices@);
            assert(self@.vertices == old(self)@.vertices);
            assert(self@.faces =~= old(self)@.faces.insert(new_id, vertices@));
            assert(self@.adjacency =~= attached(old(self)@.adjacency, new_id, vertices@));
        }
        new_id
    }

    /// Copies of the vertices of the face `id`, in the face's order; `None`
    /// where the face, or a vertex that it lists, is not stored.
    pub fn vertices_of_face(&self, id: Identifier) -> (vertices: Option<Vec<Vertex<S>>>)
        requires
            self.wf(),
        ensures
            vertices is Some <==> self@.faces.contains_key(id) && self@.face_is_closed(id),
            vertices is Some ==> vertices->0@ == Seq::new(
                self@.faces[id].len(),
                |i: int| self@.vertices[self@.faces[id][i]],
            ),
    {
        match self.faces.get(&id) {
            None => None,
            Some(face) => {
                let mut res: Vec<Vertex<S>> = Vec::new();
                let mut i: usize = 0;
                while i < face.vertices.len()
                    invariant
                        i <= face.vertices.len(),
                        face@ == self@.faces[id],
                        res@.len() == i,
                        forall|j: int|
                            0 <= j < i ==> self@.vertices.contains_key(#[trigger] face@[j])
                                && res@[j] == self@.vertices[face@[j]],
                    decreases face.vertices.len() - i,
                {
                    match self.vertices.get(&face.vertices[i]) {
                        Some(v) => {
                            res.push(*v);
                        },
                        None => {
                            return None;
                        },
                    }
                    i += 1;
                }
                assert(res@ =~= Seq::new(
                    self@.faces[id].len(),
                    |i: int| self@.vertices[self@.faces[id][i]],
                ));
                Some(res)
            },
        }
    }

    /// The vertex `id`, or `None` where the store has none.
    pub fn get_vertex(&self, id: Identifier) -> (vertex: Option<&Vertex<S>>)
        requires
            self.wf(),
        ensures
            match vertex {
                Some(v) => self@.vertices.contains_key(id) && *v == self@.vertices[id],
                None => !self@.vertices.contains_key(id),
            },
    {
        self.vertices.get(&id)
    }

    /// The vertex `id` for editing in place, or `None` where the store has
    /// none. The store holds what the caller leaves behind the reference; the
    /// mesh stays valid where the vertex keeps its identifier.
    pub fn get_vertex_mut(&mut self, id: Identifier) -> (vertex: Option<&mut Vertex<S>>)
        requires
            old(self).wf(),
        ensures
            match vertex {
                Some(v) => {
                    &&& old(self)@.vertices.contains_key(id)
                    &&& *v == old(self)@.vertices[id]
                    &&& final(self)@ == old(self)@.with_vertices(
                        old(self)@.vertices.insert(id, *final(v)),
                    )
                    &&& final(v).id_spec() == id ==> final(self).wf()
                },
                None => !old(self)@.vertices.contains_key(id) && final(self)@ == old(self)@
                    && final(self).wf(),
            },
    {
        if !self.vertices.contains_key(&id) {
            return None;
        }
        match self.vertices.entry(id) {
            Entry::Occupied(entry) => Some(entry.into_mut()),
            Entry::Vacant(_) => None,
        }
    }

    /// A copy of the vertex `id`, or `None` where the store has none.
    pub fn get_vertex_clone(&self, id: Identifier) -> (vertex: Option<Vertex<S>>)
        requires
            self.wf(),
        ensures
            match vertex {
                Some(v) => self@.vertices.contains_key(id) && v == self@.vertices[id],
                None => !self@.vertices.contains_key(id),
            },
    {
        match self.vertices.get(&id) {
            Some(v) => Some(*v),
            None => None,
        }
    }

    /// The face `id`, or `None` where the store has none.
    pub fn get_face(&self, id: Identifier) -> (face: Option<&Face>)
        requires
            self.wf(),
        ensures
            match face {
                Some(f) => self@.faces.contains_key(id) && f@ == self@.faces[id] && f.id_spec() == id,
                None => !self@.faces.contains_key(id),
            },
    {
        self.faces.get(&id)
    }

    /// The face `id` for editing in place, or `None` where the store has
    /// none. The store holds what the caller leaves behind the reference; the
    /// adjacency index is not brought up to date, and the mesh stays valid
    /// where the face keeps its identifier.
    pub fn get_face_mut(&mut self, id: Identifier) -> (face: Option<&mut Face>)
        requires
            old(self).wf(),
        ensures
            match face {
                Some(f) => {
                    &&& old(self)@.faces.contains_key(id)
                    &&& f@ == old(self)@.faces[id]
                    &&& f.id_spec() == id
                    &&& final(self)@.faces =~= old(self)@.faces.insert(id, final(f)@)
                    &&& final(self)@.counter == old(self)@.counter
                    &&& final(self)@.vertices == old(self)@.vertices
                    &&& final(self)@.adjacency =~= old(self)@.adjacency
                    &&& final(f).id_spec() == id ==> final(self).wf()
                },
                None => !old(self)@.faces.contains_key(id) && final(self)@ == old(self)@
                    && final(self).wf(),
            },
    {
        if !self.faces.contains_key(&id) {
            return None;
        }
        match self.faces.entry(id) {
            Entry::Occupied(entry) => Some(entry.into_mut()),
            Entry::Vacant(_) => None,
        }
    }

    /// A copy of the face `id`, or `None` where the store has none.
    pub fn get_face_clone(&self, id: Identifier) -> (face: Option<Face>)
        requires
            self.wf(),
        ensures
            match face {
                Some(f) => self@.faces.contains_key(id) && f@ == self@.faces[id] && f.id_spec() == id,
                None => !self@.faces.contains_key(id),
            },
    {
        match self.faces.get(&id) {
            Some(f) => Some(f.clone()),
            None => None,
        }
    }

    /// Stores `vertex` under its identifier, which has been issued, in place
    /// of what was stored there.
    pub fn update_vertex(&mut self, vertex: &Vertex<S>)
        requires
            old(self).wf(),
            old(self)@.issued(vertex.id_spec()),
        ensures
            final(self).wf(),
            final(self)@ == old(self)@.update_vertex(*vertex),
    {
        self.vertices.insert(vertex.id, *vertex);
        assert(self@.vertices == old(self)@.vertices.insert(vertex.id, *vertex));
        assert(self@.adjacency =~= old(self)@.adjacency);
        assert(self@.faces =~= old(self)@.faces);
    }

    /// Removes the face `id` from the face store. Vertices and adjacency
    /// entries stay as they are.
    pub fn delete_face(&mut self, id: Identifier)
        requires
            old(self).wf(),
        ensures
            final(self).wf(),
            final(self)@ == old(self)@.delete_face(id),
    {
        self.faces.remove(&id);
        assert(self@.vertices == old(self)@.vertices);
        assert(self@.adjacency =~= old(self)@.adjacency);
        assert(self@.faces =~= old(self)@.faces.remove(id));
    }

    /// Applies `f` to the vertex `id` and stores the position it returns
    /// under `id`; does nothing where the store has no such vertex.
    fn edit_vertex<F: Fn(Vertex<S>) -> Vertex<S>>(&mut self, id: Identifier, f: &F)
        requires
            old(self).wf(),
            forall|v: Vertex<S>| f.requires((v,)),
        ensures
            final(self).wf(),
            final(self)@ == old(self)@.with_vertices(final(self)@.vertices),
            transformed_one(applying(*f), id, old(self)@.vertices, final(self)@.vertices),
    {
        let found = match self.vertices.get(&id) {
            Some(v) => Some(*v),
            None => None,
        };
        match found {
            Some(v) => {
                let r = f(v);
                let w = Vertex::new(id, r.x, r.y, r.z);
                self.vertices.insert(id, w);
                proof {
                    assert(old(self)@.vertices.contains_key(id));
                    assert(v.id == id);
                    assert(w == r.renamed(v.id));
                    assert(moved(*f, old(self)@.vertices[id], w));
                    assert(applying(*f)(old(self)@.vertices[id], w));
                    assert(self@.vertices == old(self)@.vertices.insert(id, w));
                    assert(self@.faces =~= old(self)@.faces);
                    assert(self@.adjacency =~= old(self)@.adjacency);
                }
            },
            None => {},
        }
    }

    /// Moves the vertex `id` by the displacement `v`: adds `v` to its
    /// position, coordinate by coordinate. Does nothing where the store has
    /// no such vertex.
    pub fn move_vertex<V: Vector<S>, P: Fn(S, S) -> S>(&mut self, id: Identifier, v: &V, plus: &P)
        requires
            old(self).wf(),
            forall|a: S, b: S| plus.requires((a, b)),
        ensures
            final(self).wf(),
            final(self)@ == old(self)@.with_vertices(final(self)@.vertices),
            transformed_one(
                translating(*plus, coordinates(*v)),
                id,
                old(self)@.vertices,
                final(self)@.vertices,
            ),
    {
        let ghost rule = translating(*plus, coordinates(*v));
        let shift = |p: Vertex<S>| -> (w: Vertex<S>)
            ensures
                rule(p, w),
                w.id == p.id,
            {
                let mut q = VectorImpl::new(p.x, p.y, p.z);
                add_to(&mut q, v, plus);
                Vertex::new(p.id, q.x, q.y, q.z)
            };
        self.edit_vertex(id, &shift);
        proof {
            lemma_applying_within(shift, rule);
            if old(self)@.vertices.contains_key(id) {
                let w = choose|w: Vertex<S>| #[trigger]
                    applying(shift)(old(self)@.vertices[id], w) && self@.vertices == old(
                        self,
                    )@.vertices.insert(id, w);
                assert(rule(old(self)@.vertices[id], w));
            }
        }
    }

    /// Applies `f` to each of the vertices `ids` that is stored, in the order
    /// of `ids`, and skips the others. A vertex listed twice is edited twice.
    pub fn transform_vertices<F: Fn(Vertex<S>) -> Vertex<S>>(&mut self, ids: &[Identifier], f: F)
        requires
            old(self).wf(),
            forall|v: Vertex<S>| f.requires((v,)),
        ensures
            final(self).wf(),
            final(self)@ == old(self)@.with_vertices(final(self)@.vertices),
            transformed(applying(f), ids@, old(self)@.vertices, final(self)@.vertices),
    {
        let ghost mut states = seq![self@.vertices];
        let mut i: usize = 0;
        while i < ids.len()
            invariant
                i <= ids.len(),
                self.wf(),
                forall|v: Vertex<S>| f.requires((v,)),
                self@ == old(self)@.with_vertices(self@.vertices),
                is_trace(applying(f), ids@.take(i as int), states),
                states[0] == old(self)@.vertices,
                states.last() == self@.vertices,
            decreases ids.len() - i,
        {
            let ghost prev = states;
            self.edit_vertex(ids[i], &f);
            proof {
                states = states.push(self@.vertices);
                assert forall|j: int| 0 <= j < i + 1 implies transformed_one(
                    applying(f),
                    ids@.take(i + 1)[j],
                    #[trigger] states[j],
                    states[j + 1],
                ) by {
                    if j < i {
                        assert(transformed_one(applying(f), ids@.take(i as int)[j], prev[j], prev[j + 1]));
                    }
                }
            }
            i += 1;
        }
        proof {
            assert(ids@.take(ids.len() as int) =~= ids@);
            assert(is_trace(applying(f), ids@, states));
        }
    }

    /// Takes the vertex `id` through `to_local`, `f` and `to_world` and stores
    /// the position that comes out under `id`; does nothing where the store
    /// has no such vertex.
    fn edit_vertex_about<
        G: Fn(Vertex<S>) -> Vertex<S>,
        F: Fn(Vertex<S>) -> Vertex<S>,
        H: Fn(Vertex<S>) -> Vertex<S>,
    >(&mut self, id: Identifier, to_local: &G, f: &F, to_world: &H)
        requires
            old(self).wf(),
            forall|v: Vertex<S>| to_local.requires((v,)),
            forall|v: Vertex<S>| f.requires((v,)),
            forall|v: Vertex<S>| to_world.requires((v,)),
        ensures
            final(self).wf(),
            final(self)@ == old(self)@.with_vertices(final(self)@.vertices),
            transformed_one(
                applying_about(*to_local, *f, *to_world),
                id,
                old(self)@.vertices,
                final(self)@.vertices,
            ),
    {
        let found = match self.vertices.get(&id) {
            Some(v) => Some(*v),
            None => None,
        };
        match found {
            Some(v) => {
                let a = to_local(v);
                let b = f(a);
                let c = to_world(b);
                let w = Vertex::new(id, c.x, c.y, c.z);
                self.vertices.insert(id, w);
                proof {
                    assert(old(self)@.vertices.contains_key(id));
                    assert(v.id == id);
                    assert(w == c.renamed(v.id));
                    assert(to_local.ensures((v,), a) && f.ensures((a,), b) && to_world.ensures(
                        (b,),
                        c,
                    ));
                    assert(moved_about(*to_local, *f, *to_world, old(self)@.vertices[id], w));
                    assert(applying_about(*to_local, *f, *to_world)(old(self)@.vertices[id], w));
                    assert(self@.vertices == old(self)@.vertices.insert(id, w));
                    assert(self@.faces =~= old(self)@.faces);
                    assert(self@.adjacency =~= old(self)@.adjacency);
                }
            },
            None => {},
        }
    }

    /// Takes each of the vertices `ids` that is stored through `to_local`,
    /// `f` and `to_world`, in the order of `ids`, and skips the others.
    fn transform_about<
        G: Fn(Vertex<S>) -> Vertex<S>,
        F: Fn(Vertex<S>) -> Vertex<S>,
        H: Fn(Vertex<S>) -> Vertex<S>,
    >(&mut self, to_local: G, to_world: H, ids: &[Identifier], f: F)
        requires
            old(self).wf(),
            forall|v: Vertex<S>| to_local.requires((v,)),
            forall|v: Vertex<S>| f.requires((v,)),
            forall|v: Vertex<S>| to_world.requires((v,)),
        ensures
            final(self).wf(),
            final(self)@ == old(self)@.with_vertices(final(self)@.vertices),
            transformed(
                applying_about(to_local, f, to_world),
                ids@,
                old(self)@.vertices,
                final(self)@.vertices,
            ),
    {
        let ghost edit = applying_about(to_local, f, to_world);
        let ghost mut states = seq![self@.vertices];
        let mut i: usize = 0;
        while i < ids.len()
            invariant
                i <= ids.len(),
                self.wf(),
                forall|v: Vertex<S>| to_local.requires((v,)),
                forall|v: Vertex<S>| f.requires((v,)),
                forall|v: Vertex<S>| to_world.requires((v,)),
                edit == applying_about(to_local, f, to_world),
                self@ == old(self)@.with_vertices(self@.vertices),
                is_trace(edit, ids@.take(i as int), states),
                states[0] == old(self)@.vertices,
                states.last() == self@.vertices,
            decreases ids.len() - i,
        {
            let ghost prev = states;
            self.edit_vertex_about(ids[i], &to_local, &f, &to_world);
            proof {
                states = states.push(self@.vertices);
                assert forall|j: int| 0 <= j < i + 1 implies transformed_one(
                    edit,
                    ids@.take(i + 1)[j],
                    #[trigger] states[j],
                    states[j + 1],
                ) by {
                    if j < i {
                        assert(transformed_one(edit, ids@.take(i as int)[j], prev[j], prev[j + 1]));
                    }
                }
            }
            i += 1;
        }
        proof {
            assert(ids@.take(ids.len() as int) =~= ids@);
            assert(is_trace(edit, ids@, states));
        }
    }

    /// Edits each of the vertices `ids` that is stored relative to the point
    /// `v`, in the order of `ids`, and skips the others: `v` is subtracted
    /// from the vertex, `f` is applied, and `v` is added back. A vertex
    /// listed twice is edited twice.
    pub fn transform_vertices_to_point<
        V: Vector<S>,
        F: Fn(Vertex<S>) -> Vertex<S>,
        M: Fn(S, S) -> S,
        P: Fn(S, S) -> S,
    >(&mut self, v: &V, ids: &[Identifier], f: F, minus: &M, plus: &P)
        requires
            old(self).wf(),
            forall|p: Vertex<S>| f.requires((p,)),
            forall|a: S, b: S| minus.requires((a, b)),
            forall|a: S, b: S| plus.requires((a, b)),
        ensures
            final(self).wf(),
            final(self)@ == old(self)@.with_vertices(final(self)@.vertices),
            transformed(
                editing_about(*minus, f, *plus, coordinates(*v)),
                ids@,
                old(self)@.vertices,
                final(self)@.vertices,
            ),
    {
        let ghost d = coordinates(*v);
        let to_local = |p: Vertex<S>| -> (w: Vertex<S>)
            ensures
                w.id == p.id,
                is_difference(*minus, p.position(), d, w.position()),
            {
                let mut q = VectorImpl::new(p.x, p.y, p.z);
                sub_from(&mut q, v, minus);
                Vertex::new(p.id, q.x, q.y, q.z)
            };
        let to_world = |p: Vertex<S>| -> (w: Vertex<S>)
            ensures
                is_sum(*plus, p.position(), d, w.position()),
            {
                let mut q = VectorImpl::new(p.x, p.y, p.z);
                add_to(&mut q, v, plus);
                Vertex::new(p.id, q.x, q.y, q.z)
            };
        let ghost narrow = applying_about(to_local, f, to_world);
        let ghost rule = editing_about(*minus, f, *plus, d);
        proof {
            assert forall|x: Vertex<S>, y: Vertex<S>| #[trigger] narrow(x, y) implies rule(x, y) by {
                let (a, b, c) = choose|a: Vertex<S>, b: Vertex<S>, c: Vertex<S>|
                    #![trigger to_local.ensures((x,), a), f.ensures((a,), b), to_world.ensures((b,), c)]
                    to_local.ensures((x,), a) && f.ensures((a,), b) && to_world.ensures((b,), c)
                        && y == c.renamed(x.id);
                assert(f.ensures((a,), b) && a.id == x.id && is_difference(
                    *minus,
                    x.position(),
                    d,
                    a.position(),
                ) && y.id == x.id && is_sum(*plus, b.position(), d, y.position()));
            }
        }
        self.transform_about(to_local, to_world, ids, f);
        proof {
            lemma_transformed_by_wider_rule(
                narrow,
                rule,
                ids@,
                old(self)@.vertices,
                self@.vertices,
            );
        }
    }

    /// Moves every vertex that the face `id` lists by the displacement `v`,
    /// in the face's order; does nothing where the store has no such face. A
    /// vertex that the face lists twice is moved twice.
    pub fn move_face<V: Vector<S>, P: Fn(S, S) -> S>(&mut self, id: Identifier, v: &V, plus: &P)
        requires
            old(self).wf(),
            forall|a: S, b: S| plus.requires((a, b)),
        ensures
            final(self).wf(),
            final(self)@ == old(self)@.with_vertices(final(self)@.vertices),
            old(self)@.faces.contains_key(id) ==> transformed(
                translating(*plus, coordinates(*v)),
                old(self)@.faces[id],
                old(self)@.vertices,
                final(self)@.vertices,
            ),
            !old(self)@.faces.contains_key(id) ==> final(self)@ == old(self)@,
    {
        let ghost rule = translating(*plus, coordinates(*v));
        let shift = |p: Vertex<S>| -> (w: Vertex<S>)
            ensures
                rule(p, w),
                w.id == p.id,
            {
                let mut q = VectorImpl::new(p.x, p.y, p.z);
                add_to(&mut q, v, plus);
                Vertex::new(p.id, q.x, q.y, q.z)
            };
        match self.get_face_clone(id) {
            Some(face) => {
                self.transform_vertices(face.vertices.as_slice(), shift);
                proof {
                    lemma_applying_within(shift, rule);
                    lemma_transformed_by_wider_rule(
                        applying(shift),
                        rule,
                        old(self)@.faces[id],
                        old(self)@.vertices,
                        self@.vertices,
                    );
                }
            },
            None => {},
        }
    }

    /// Creates a vertex at the position of the vertex `id` and returns its
    /// identifier; returns `NO_VERTEX` and does nothing where the store has no
    /// vertex `id`. This is the one operation that reports a missing
    /// identifier by a reserved value and not by `None`.
    pub fn duplicate_vertex(&mut self, id: Identifier) -> (copy: Identifier)
        requires
            old(self).wf(),
            old(self)@.vertices.contains_key(id) ==> old(self)@.counter < i32::MAX,
        ensures
            final(self).wf(),
            copy == old(self)@.duplicate_id(id),
            final(self)@ == old(self)@.duplicate_vertex(id),
    {
        match self.get_vertex_clone(id) {
            Some(vertex) => self.gen_vertex(vertex.x, vertex.y, vertex.z),
            None => NO_VERTEX,
        }
    }

    /// Duplicates the vertices `ids` one after the other and returns what
    /// `duplicate_vertex` returned for each, in the order of `ids`.
    pub fn duplicate_vertices(&mut self, vertices: &[Identifier]) -> (copies: Vec<Identifier>)
        requires
            old(self).wf(),
            old(self)@.counter + vertices@.len() <= i32::MAX,
        ensures
            final(self).wf(),
            copies@ == old(self)@.duplicate_ids(vertices@),
            final(self)@ == old(self)@.duplicate_vertices(vertices@),
    {
        let mut copies: Vec<Identifier> = Vec::new();
        let mut i: usize = 0;
        while i < vertices.len()
            invariant
                i <= vertices.len(),
                self.wf(),
                old(self)@.counter + vertices@.len() <= i32::MAX,
                self@.counter <= old(self)@.counter + i,
                copies@ == old(self)@.duplicate_ids(vertices@.take(i as int)),
                self@ == old(self)@.duplicate_vertices(vertices@.take(i as int)),
            decreases vertices.len() - i,
        {
            proof {
                assert(vertices@.take(i + 1).drop_last() =~= vertices@.take(i as int));
                assert(vertices@.take(i + 1).last() == vertices@[i as int]);
            }
            let copy = self.duplicate_vertex(vertices[i]);
            copies.push(copy);
            i += 1;
        }
        proof {
            assert(vertices@.take(vertices.len() as int) =~= vertices@);
        }
        copies
    }

    /// Whether the face `face_id` can be extruded: it is stored, it has at
    /// least one vertex, every vertex that it lists is stored, and the
    /// counter has room for the identifiers of what would be created.
    pub fn can_extrude(&self, face_id: Identifier) -> (ok: bool)
        requires
            self.wf(),
        ensures
            ok == self@.can_extrude(face_id),
    {
        match self.faces.get(&face_id) {
            None => false,
            Some(face) => {
                let n = face.vertices.len();
                let room: i32 = i32::MAX - self.id_counter;
                n >= 1 && room >= 1 && n <= ((room - 1) / 2) as usize && self.vertices_of_face(
                    face_id,
                ).is_some()
            },
        }
    }

    /// Extrudes the face `face_id` by the displacement `v`: copies the face's
    /// vertices, moves the copies by `v`, joins each edge of the face to its
    /// copy by a side face, removes the face and creates the top face on the
    /// copies. Returns `None`, and changes nothing, where the store has no
    /// face `face_id`.
    ///
    /// A stored face must have at least one vertex and list stored vertices
    /// only.
    pub fn extrude_face<V: Vector<S>, P: Fn(S, S) -> S>(
        &mut self,
        face_id: Identifier,
        v: &V,
        plus: &P,
    ) -> (result: Option<ExtrudeResult>)
        requires
            old(self).wf(),
            forall|a: S, b: S| plus.requires((a, b)),
            old(self)@.faces.contains_key(face_id) ==> old(self)@.can_extrude(face_id),
        ensures
            final(self).wf(),
            match result {
                Some(r) => {
                    &&& old(self)@.faces.contains_key(face_id)
                    &&& old(self)@.extruded(
                        face_id,
                        translating(*plus, coordinates(*v)),
                        final(self)@,
                    )
                    &&& r.top_face == old(self)@.counter + 2 * old(self)@.faces[face_id].len()
                    &&& r.side_faces@ == Seq::new(
                        old(self)@.faces[face_id].len(),
                        |i: int|
                            (old(self)@.counter + old(self)@.faces[face_id].len() + i) as Identifier,
                    )
                },
                None => !old(self)@.faces.contains_key(face_id) && final(self)@ == old(self)@,
            },
    {
        let ghost rule = translating(*plus, coordinates(*v));
        let shift = |p: Vertex<S>| -> (w: Vertex<S>)
            ensures
                rule(p, w),
                w.id == p.id,
            {
                let mut q = VectorImpl::new(p.x, p.y, p.z);
                add_to(&mut q, v, plus);
                Vertex::new(p.id, q.x, q.y, q.z)
            };
        let result = self.extrude_with(face_id, shift);
        proof {
            if result is Some {
                lemma_applying_within(shift, rule);
                lemma_extruded_by_wider_rule(old(self)@, face_id, applying(shift), rule, self@);
            }
        }
        result
    }

    /// Extrudes the face `face_id`, moving the copies of its vertices by the
    /// function `shift`.
    fn extrude_with<F: Fn(Vertex<S>) -> Vertex<S>>(
        &mut self,
        face_id: Identifier,
        shift: F,
    ) -> (result: Option<ExtrudeResult>)
        requires
            old(self).wf(),
            forall|v: Vertex<S>| shift.requires((v,)),
            old(self)@.faces.contains_key(face_id) ==> old(self)@.can_extrude(face_id),
        ensures
            final(self).wf(),
            match result {
                Some(r) => {
                    &&& old(self)@.faces.contains_key(face_id)
                    &&& old(self)@.extruded(face_id, applying(shift), final(self)@)
                    &&& r.top_face == old(self)@.counter + 2 * old(self)@.faces[face_id].len()
                    &&& r.side_faces@ == Seq::new(
                        old(self)@.faces[face_id].len(),
                        |i: int|
                            (old(self)@.counter + old(self)@.faces[face_id].len() + i) as Identifier,
                    )
                },
                None => !old(self)@.faces.contains_key(face_id) && final(self)@ == old(self)@,
            },
    {
        let face = match self.get_face_clone(face_id) {
            Some(face) => face,
            None => {
                return None;
            },
        };
        let n = face.vertices.len();
        let ghost m0 = self@;
        let ghost cap = m0.faces[face_id];
        let ghost c = m0.counter;
        let ghost adj0 = with_empty_entries(m0.adjacency, n as nat, c);
        let ghost created = extrusion_faces(cap, c);
        proof {
            assert(0 <= face_id < c);
            assert forall|i: int| 0 <= i < cap.len() implies m0.vertices.contains_key(
                #[trigger] cap[i],
            ) by {}
            lemma_duplicate_stored(m0, cap);
        }

        let new_vertices = self.duplicate_vertices(face.vertices.as_slice());
        let ghost m1 = self@;
        proof {
            assert(new_vertices@ == top_face(n as nat, c));
            assert(new_vertices@.no_duplicates());
        }
        self.transform_vertices(new_vertices.as_slice(), shift);
        let ghost m2 = self@;
        proof {
            lemma_transformed_distinct(applying(shift), new_vertices@, m1.vertices, m2.vertices);
            assert forall|i: int| 0 <= i < n implies applying(shift)(
                m0.vertices[cap[i]].renamed((c + i) as Identifier),
                #[trigger] m2.vertices[(c + i) as Identifier],
            ) by {
                assert(new_vertices@[i] == (c + i) as Identifier);
                assert(m1.vertices.contains_key(new_vertices@[i]));
                assert(m1.vertices[(c + i) as Identifier] == m0.vertices[cap[i]].renamed(
                    (c + i) as Identifier,
                ));
            }
            assert forall|k: Identifier| m0.vertices.contains_key(k) implies #[trigger] m2.vertices[k]
                == m0.vertices[k] by {
                assert(0 <= k < c);
                assert(m1.vertices.contains_key(k));
                if new_vertices@.contains(k) {
                    let l = choose|l: int|
                        0 <= l < new_vertices@.len() && (#[trigger] new_vertices@[l]) == k;
                    assert(false);
                }
            }
        }

        let mut side_faces: Vec<Identifier> = Vec::new();
        let mut last_face_vertex = face.vertices[n - 1];
        let mut last_new_vertex = new_vertices[n - 1];
        let mut i: usize = 0;
        while i < n
            invariant
                i <= n,
                n == cap.len(),
                n >= 1,
                c + 2 * n + 1 <= i32::MAX,
                0 <= c,
                self.wf(),
                face@ == cap,
                new_vertices@ == top_face(n as nat, c),
                created == extrusion_faces(cap, c),
                self@.counter == c + n + i,
                self@.vertices == m2.vertices,
                self@.faces == Map::new(
                    |k: Identifier| m0.faces.contains_key(k) || c + n <= k < c + n + i,
                    |k: Identifier|
                        if c + n <= k < c + n + i {
                            side_face(cap, c, k - (c + n))
                        } else {
                            m0.faces[k]
                        },
                ),
                self@.adjacency == attached_all(adj0, created.take(i as int)),
                side_faces@ == Seq::new(i as nat, |j: int| (c + n + j) as Identifier),
                last_face_vertex == cap[if i == 0 { n - 1 } else { i - 1 }],
                last_new_vertex == (c + if i == 0 { n - 1 } else { i - 1 }) as Identifier,
            decreases n - i,
        {
            let ghost before = self@;
            let face_vertex = face.vertices[i];
            let new_vertex = new_vertices[i];
            let side_face_vertices = vec![last_face_vertex, face_vertex, new_vertex, last_new_vertex];
            proof {
                assert(side_face_vertices@ =~= side_face(cap, c, i as int));
                lemma_attached_all_step(adj0, created, i as int);
            }
            let side = self.gen_face(side_face_vertices.as_slice());
            side_faces.push(side);
            proof {
                assert(self@.faces =~= Map::new(
                    |k: Identifier| m0.faces.contains_key(k) || c + n <= k < c + n + i + 1,
                    |k: Identifier|
                        if c + n <= k < c + n + i + 1 {
                            side_face(cap, c, k - (c + n))
                        } else {
                            m0.faces[k]
                        },
                ));
                assert(side_faces@ =~= Seq::new((i + 1) as nat, |j: int| (c + n + j) as Identifier));
            }
            last_face_vertex = face_vertex;
            last_new_vertex = new_vertex;
            i += 1;
        }

        self.delete_face(face_id);
        proof {
            lemma_attached_all_step(adj0, created, n as int);
            assert(created.take(n + 1) =~= created);
        }
        let top = self.gen_face(new_vertices.as_slice());
        proof {
            assert(self@.faces =~= extruded_faces(m0.faces, face_id, c));
            assert(self@.counter == c + 2 * n + 1);
            assert(self@.vertices == m2.vertices);
            assert(m2.vertices.dom() == m1.vertices.dom());
            assert forall|k: Identifier|
                self@.vertices.contains_key(k) <==> m0.vertices.contains_key(k) || c <= k < c + n by {
                assert(m1.vertices.dom().contains(k) <==> m1.vertices.contains_key(k));
            }
            assert(self@.adjacency == attached_all(adj0, created));
            assert(m0.extruded(face_id, applying(shift), self@));
        }
        Some(ExtrudeResult { top_face: top, side_faces: side_faces })
    }

    /// Copies of all stored faces, each once, in the order in which the face
    /// store hands them out.
    pub fn all_faces(&self) -> (faces: Vec<Face>)
        requires
            self.wf(),
        ensures
            forall|i: int|
                0 <= i < faces@.len() ==> self@.faces.contains_key(#[trigger] faces@[i].id_spec())
                    && faces@[i]@ == self@.faces[faces@[i].id_spec()],
            forall|k: Identifier|
                self@.faces.contains_key(k) ==> exists|i: int|
                    0 <= i < faces@.len() && (#[trigger] faces@[i]).id_spec() == k,
            forall|i: int, j: int|
                0 <= i < j < faces@.len() ==> (#[trigger] faces@[i]).id_spec() != (#[trigger] faces@[j]).id_spec(),
    {
        let mut faces: Vec<Face> = Vec::new();
        let ghost entries = spec_hash_map_iter(&self.faces).remaining();
        for entry in it: self.faces.iter()
            invariant
                self.wf(),
                it.seq() == entries,
                entries == spec_hash_map_iter(&self.faces).remaining(),
                faces@.len() == it.index(),
                forall|i: int|
                    0 <= i < faces@.len() ==> (#[trigger] faces@[i]).id_spec() == *entries[i].0
                        && faces@[i]@ == (*entries[i].1)@,
        {
            let (_, face) = entry;
            proof {
                assert(self.faces@.contains_key(*entries[it.index()].0));
            }
            faces.push(face.clone());
        }
        proof {
            assert forall|i: int| 0 <= i < faces@.len() implies self@.faces.contains_key(
                #[trigger] faces@[i].id_spec(),
            ) && faces@[i]@ == self@.faces[faces@[i].id_spec()] by {
                assert(self.faces@.contains_key(*entries[i].0));
            }
            assert forall|k: Identifier| self@.faces.contains_key(k) implies exists|i: int|
                0 <= i < faces@.len() && (#[trigger] faces@[i]).id_spec() == k by {
                assert(self.faces@.contains_key(k));
                assert(entries.contains((&k, &self.faces@[k])));
                let i = choose|i: int| 0 <= i < entries.len() && entries[i] == (&k, &self.faces@[k]);
                assert(faces@[i].id_spec() == k);
            }
            assert forall|i: int, j: int| 0 <= i < j < faces@.len() implies (
            #[trigger] faces@[i]).id_spec() != (#[trigger] faces@[j]).id_spec() by {
                if faces@[i].id_spec() == faces@[j].id_spec() {
                    assert(self.faces@.contains_key(*entries[i].0));
                    assert(self.faces@.contains_key(*entries[j].0));
                    assert(entries[i] == entries[j]);
                }
            }
        }
        faces
    }

    /// The identifiers of the vertices that some stored face lists, each
    /// once. A vertex that no stored face lists is left out, though the store
    /// still holds it.
    pub fn all_vertices(&self) -> (ids: Vec<Identifier>)
        requires
            self.wf(),
        ensures
            ids@.no_duplicates(),
            forall|v: Identifier| ids@.contains(v) <==> self@.referenced(v),
    {
        let faces = self.all_faces();
        let mut seen: HashSet<Identifier> = HashSet::new();
        let mut ids: Vec<Identifier> = Vec::new();
        let mut a: usize = 0;
        while a < faces.len()
            invariant
                a <= faces.len(),
                ids@.no_duplicates(),
                forall|v: Identifier| seen@.contains(v) <==> ids@.contains(v),
                forall|v: Identifier| ids@.contains(v) <==> listed_in(faces@, a as int, v),
            decreases faces.len() - a,
        {
            let face = &faces[a];
            let mut b: usize = 0;
            while b < face.vertices.len()
                invariant
                    a < faces.len(),
                    face == faces@[a as int],
                    b <= face.vertices.len(),
                    ids@.no_duplicates(),
                    forall|v: Identifier| seen@.contains(v) <==> ids@.contains(v),
                    forall|v: Identifier|
                        ids@.contains(v) <==> listed_in(faces@, a as int, v) || face@.take(
                            b as int,
                        ).contains(v),
                decreases face.vertices.len() - b,
            {
                let id = face.vertices[b];
                let ghost before = ids@;
                let ghost seen_before = seen@;
                proof {
                    assert(face@.take(b + 1) =~= face@.take(b as int).push(id));
                }
                let fresh = seen.insert(id);
                proof {
                    assert(fresh == !seen_before.contains(id));
                    assert(seen@ == seen_before.insert(id));
                }
                if fresh {
                    ids.push(id);
                    proof {
                        assert(!before.contains(id));
                        assert(ids@ == before.push(id));
                        assert forall|v: Identifier| ids@.contains(v) <==> before.contains(v) || v
                            == id by {
                            if before.contains(v) {
                                let l = choose|l: int|
                                    0 <= l < before.len() && (#[trigger] before[l]) == v;
                                assert(ids@[l] == v);
                            }
                            if v == id {
                                assert(ids@[before.len() as int] == v);
                            }
                        }
                    }
                }
                proof {
                    assert forall|v: Identifier|
                        face@.take(b + 1).contains(v) <==> face@.take(b as int).contains(v) || v
                            == id by {
                        if face@.take(b as int).contains(v) {
                            let l = choose|l: int|
                                0 <= l < face@.take(b as int).len() && (#[trigger] face@.take(
                                    b as int,
                                )[l]) == v;
                            assert(face@.take(b + 1)[l] == v);
                        }
                        if v == id {
                            assert(face@.take(b + 1)[b as int] == v);
                        }
                    }
                    assert forall|v: Identifier|
                        ids@.contains(v) <==> listed_in(faces@, a as int, v) || face@.take(
                            b + 1,
                        ).contains(v) by {
                        assert(before.contains(v) <==> listed_in(faces@, a as int, v) || face@.take(
                            b as int,
                        ).contains(v));
                        assert(seen_before.contains(v) <==> before.contains(v));
                        if fresh {
                            assert(ids@.contains(v) <==> before.contains(v) || v == id);
                        } else {
                            assert(ids@ == before);
                            assert(before.contains(id));
                        }
                    }
                    assert forall|v: Identifier| seen@.contains(v) <==> ids@.contains(v) by {
                        assert(seen_before.contains(v) <==> before.contains(v));
                        if fresh {
                            assert(ids@.contains(v) <==> before.contains(v) || v == id);
                        } else {
                            assert(before.contains(id));
                        }
                    }
                }
                b += 1;
            }
            proof {
                assert(face@.take(face@.len() as int) =~= face@);
                assert forall|v: Identifier|
                    listed_in(faces@, a + 1, v) <==> listed_in(faces@, a as int, v)
                        || face@.contains(v) by {
                    if listed_in(faces@, a as int, v) {
                        let (x, y) = choose|x: int, y: int|
                            0 <= x < a && 0 <= y < faces@[x]@.len() && (#[trigger] faces@[x]@[y])
                                == v;
                        assert(0 <= x < a + 1 && faces@[x]@[y] == v);
                    }
                    if face@.contains(v) {
                        let y = choose|y: int| 0 <= y < face@.len() && (#[trigger] face@[y]) == v;
                        assert(faces@[a as int]@[y] == v);
                    }
                    if listed_in(faces@, a + 1, v) {
                        let (x, y) = choose|x: int, y: int|
                            0 <= x < a + 1 && 0 <= y < faces@[x]@.len() && (
                            #[trigger] faces@[x]@[y]) == v;
                        if x == a {
                            assert(face@[y] == v);
                        } else {
                            assert(0 <= x < a && faces@[x]@[y] == v);
                        }
                    }
                }
            }
            a += 1;
        }
        proof {
            assert forall|v: Identifier| listed_in(faces@, faces@.len() as int, v)
                <==> self@.referenced(v) by {
                if listed_in(faces@, faces@.len() as int, v) {
                    let (x, y) = choose|x: int, y: int|
                        0 <= x < faces@.len() && 0 <= y < faces@[x]@.len() && (
                        #[trigger] faces@[x]@[y]) == v;
                    let f = faces@[x].id_spec();
                    assert(self@.faces.contains_key(f) && self@.faces[f][y] == v);
                }
                if self@.referenced(v) {
                    let (f, y) = choose|f: Identifier, y: int|
                        self@.faces.contains_key(f) && 0 <= y < self@.faces[f].len() && (
                        #[trigger] self@.faces[f][y]) == v;
                    let x = choose|x: int| 0 <= x < faces@.len() && (#[trigger] faces@[x]).id_spec() == f;
                    assert(faces@[x]@[y] == v);
                }
            }
        }
        ids
    }

    /// Whether the face `face_id` has a corner to take a normal from: it is
    /// stored, it has at least three vertices, and the first three that it
    /// lists are stored.
    pub fn has_corner(&self, face_id: Identifier) -> (ok: bool)
        requires
            self.wf(),
        ensures
            ok == self@.has_corner(face_id),
    {
        match self.faces.get(&face_id) {
            None => false,
            Some(face) => {
                face.vertices.len() >= 3 && self.vertices.contains_key(&face.vertices[0])
                    && self.vertices.contains_key(&face.vertices[1])
                    && self.vertices.contains_key(&face.vertices[2])
            },
        }
    }

    /// The unit normal of the face `face_id`, by the right-hand rule over the
    /// first three vertices that it lists: the cross product of the edges
    /// from the first to the second and from the second to the third,
    /// normalized. It carries the identifier of the second vertex.
    ///
    /// The face must be stored with at least three vertices, the first three
    /// of them stored.
    pub fn face_normal<
        M: Fn(S, S) -> S,
        T: Fn(S, S) -> S,
        P: Fn(S, S) -> S,
        R: Fn(S) -> S,
        D: Fn(S, S) -> S,
    >(&self, face_id: Identifier, minus: &M, times: &T, plus: &P, root: &R, over: &D) -> (normal: Vertex<S>)
        requires
            self.wf(),
            self@.has_corner(face_id),
            forall|a: S, b: S| minus.requires((a, b)),
            forall|a: S, b: S| times.requires((a, b)),
            forall|a: S, b: S| plus.requires((a, b)),
            forall|a: S| root.requires((a,)),
            forall|a: S, b: S| over.requires((a, b)),
        ensures
            normal.id_spec() == self@.faces[face_id][1],
            is_normal(
                *minus,
                *times,
                *plus,
                *root,
                *over,
                self@.corner(face_id, 0),
                self@.corner(face_id, 1),
                self@.corner(face_id, 2),
                normal.position(),
            ),
    {
        let face = self.faces.get(&face_id).unwrap();
        let v1 = *self.vertices.get(&face.vertices[0]).unwrap();
        let v2 = *self.vertices.get(&face.vertices[1]).unwrap();
        let v3 = *self.vertices.get(&face.vertices[2]).unwrap();
        let mut edge1 = VectorImpl::new(v2.x, v2.y, v2.z);
        sub_from(&mut edge1, &v1, minus);
        let mut edge2 = VectorImpl::new(v3.x, v3.y, v3.z);
        sub_from(&mut edge2, &v2, minus);
        let ghost e1 = coordinates(edge1);
        let ghost e2 = coordinates(edge2);
        cross_prod_to(&mut edge1, &edge2, times, minus);
        let ghost c = coordinates(edge1);
        normalize(&mut edge1, times, plus, root, over);
        proof {
            assert(is_difference(*minus, self@.corner(face_id, 1), self@.corner(face_id, 0), e1));
            assert(is_difference(*minus, self@.corner(face_id, 2), self@.corner(face_id, 1), e2));
            assert(is_cross_product(*times, *minus, e1, e2, c));
            assert(is_normalized(*times, *plus, *root, *over, c, coordinates(edge1)));
        }
        Vertex::new(v2.id, edge1.x, edge1.y, edge1.z)
    }

    /// Extrudes the face `face_id` along its normal: the displacement is the
    /// face's unit normal with each coordinate multiplied by `length`.
    ///
    /// The face must be stored with at least three vertices and list stored
    /// vertices only.
    pub fn extrude_face_normal<
        M: Fn(S, S) -> S,
        T: Fn(S, S) -> S,
        P: Fn(S, S) -> S,
        R: Fn(S) -> S,
        D: Fn(S, S) -> S,
    >(
        &mut self,
        face_id: Identifier,
        length: S,
        minus: &M,
        times: &T,
        plus: &P,
        root: &R,
        over: &D,
    ) -> (result: Option<ExtrudeResult>)
        requires
            old(self).wf(),
            old(self)@.can_extrude(face_id),
            old(self)@.faces[face_id].len() >= 3,
            forall|a: S, b: S| minus.requires((a, b)),
            forall|a: S, b: S| times.requires((a, b)),
            forall|a: S, b: S| plus.requires((a, b)),
            forall|a: S| root.requires((a,)),
            forall|a: S, b: S| over.requires((a, b)),
        ensures
            final(self).wf(),
            result is Some,
            result->0.top_face == old(self)@.counter + 2 * old(self)@.faces[face_id].len(),
            result->0.side_faces@ == Seq::new(
                old(self)@.faces[face_id].len(),
                |i: int| (old(self)@.counter + old(self)@.faces[face_id].len() + i) as Identifier,
            ),
            exists|n: (S, S, S), d: (S, S, S)|
                {
                    &&& #[trigger] is_scaled(*times, n, length, d)
                    &&& is_normal(
                        *minus,
                        *times,
                        *plus,
                        *root,
                        *over,
                        old(self)@.corner(face_id, 0),
                        old(self)@.corner(face_id, 1),
                        old(self)@.corner(face_id, 2),
                        n,
                    )
                    &&& old(self)@.extruded(face_id, translating(*plus, d), final(self)@)
                },
    {
        proof {
            let cap = self@.faces[face_id];
            assert(self@.vertices.contains_key(cap[0]));
            assert(self@.vertices.contains_key(cap[1]));
            assert(self@.vertices.contains_key(cap[2]));
        }
        let normal = self.face_normal(face_id, minus, times, plus, root, over);
        let ghost n = normal.position();
        let mut by = VectorImpl::new(normal.x, normal.y, normal.z);
        mult_scalar_to(&mut by, length, times);
        let result = self.extrude_face(face_id, &by, plus);
        proof {
            assert(is_scaled(*times, n, length, coordinates(by)));
        }
        result
    }
}

impl<S: Copy> Default for Mesh<S> {
    /// The empty mesh.
    fn default() -> (mesh: Mesh<S>)
        ensures
            mesh.wf(),
            mesh@ == MeshView::<S>::empty(),
    {
        let mesh = Mesh {
            id_counter: 0,
            faces: HashMap::new(),
            vertices: HashMap::new(),
            vertex_face_map: HashMap::new(),
        };
        assert(mesh@.faces =~= Map::empty());
        assert(mesh@.adjacency =~= Map::empty());
        mesh
    }
}

} // verus!
