//! What holds of the mesh operations taken together, stated over the model.

use vstd::prelude::*;
use crate::base::{Id, Identifier};
use crate::model::{MeshView, side_face, top_face, transformed_one, translating};
use crate::vector::is_sum;
use crate::vertex::Vertex;
use crate::wavefrontexport::WavefrontLayout;

verus! {

/// A vertex that was just created is stored under the identifier that was
/// returned, with exactly the coordinates given, and that identifier was not
/// issued, nor in use for a vertex or a face, before.
pub proof fn law_new_vertex_is_stored_and_fresh<S>(m: MeshView<S>, x: S, y: S, z: S)
    requires
        m.wf(),
        m.counter < i32::MAX,
    ensures
        m.gen_vertex(x, y, z).wf(),
        m.gen_vertex(x, y, z).vertices.contains_key(m.next_id()),
        m.gen_vertex(x, y, z).vertices[m.next_id()] == Vertex::spec_new(m.next_id(), x, y, z),
        !m.issued(m.next_id()),
        !m.vertices.contains_key(m.next_id()),
        !m.faces.contains_key(m.next_id()),
        m.gen_vertex(x, y, z).issued(m.next_id()),
{
}

/// Each creation issues the counter's value and raises the counter by one,
/// for vertices and faces alike; no operation lowers the counter. So the
/// identifiers that a mesh issues are strictly increasing and none is issued
/// twice.
pub proof fn law_identifiers_increase<S>(
    m: MeshView<S>,
    x: S,
    y: S,
    z: S,
    ids: Seq<Identifier>,
    v: Vertex<S>,
    id: Identifier,
    vertices: Map<Identifier, Vertex<S>>,
)
    requires
        m.wf(),
        m.counter < i32::MAX,
    ensures
        m.next_id() == m.counter,
        m.gen_id().counter == m.counter + 1,
        m.gen_vertex(x, y, z).counter == m.counter + 1,
        m.gen_face(ids).counter == m.counter + 1,
        m.update_vertex(v).counter == m.counter,
        m.delete_face(id).counter == m.counter,
        m.with_vertices(vertices).counter == m.counter,
        m.counter <= m.duplicate_vertex(id).counter <= m.counter + 1,
        m.duplicate_id(id) == m.counter || !m.issued(m.duplicate_id(id)),
{
}

/// Duplicating a list of vertices never lowers the counter, and raises it by
/// at most one for each listed vertex.
pub proof fn law_duplicates_raise_counter<S>(m: MeshView<S>, ids: Seq<Identifier>)
    ensures
        m.counter <= m.duplicate_vertices(ids).counter <= m.counter + ids.len(),
    decreases ids.len(),
{
    if ids.len() > 0 {
        law_duplicates_raise_counter(m, ids.drop_last());
    }
}

/// A face that was just created is stored under the identifier that was
/// returned, with the vertex list as it was given.
pub proof fn law_new_face_keeps_vertex_list<S>(m: MeshView<S>, ids: Seq<Identifier>)
    requires
        m.wf(),
        m.counter < i32::MAX,
    ensures
        m.gen_face(ids).wf(),
        m.gen_face(ids).faces.contains_key(m.next_id()),
        m.gen_face(ids).faces[m.next_id()] == ids,
        !m.faces.contains_key(m.next_id()),
{
}

/// Moving a vertex is reading it, adding the displacement coordinate by
/// coordinate and writing the result back under the same identifier; moving
/// a vertex that is not stored leaves the mesh as it is.
pub proof fn law_move_is_read_add_write<S, P: Fn(S, S) -> S>(
    m: MeshView<S>,
    id: Identifier,
    plus: P,
    d: (S, S, S),
    after: Map<Identifier, Vertex<S>>,
)
    requires
        m.wf(),
        transformed_one(translating(plus, d), id, m.vertices, after),
    ensures
        !m.vertices.contains_key(id) ==> m.with_vertices(after) == m,
        m.vertices.contains_key(id) ==> exists|w: Vertex<S>|
            {
                &&& #[trigger] is_sum(plus, m.vertices[id].position(), d, w.position())
                &&& w.id_spec() == id
                &&& m.with_vertices(after) == m.update_vertex(w)
            },
{
    if m.vertices.contains_key(id) {
        let w = choose|w: Vertex<S>|
            #![trigger translating(plus, d)(m.vertices[id], w)]
            translating(plus, d)(m.vertices[id], w) && after == m.vertices.insert(id, w);
        assert(is_sum(plus, m.vertices[id].position(), d, w.position()) && w.id == id
            && m.with_vertices(after) == m.update_vertex(w));
    }
}

/// An extrusion of a face with `n` vertices issues `2n + 1` identifiers and
/// creates `n` side faces and one top face, all of them stored afterwards;
/// the extruded face is no longer stored, and every other face is as it
/// was; the top face lists `n` new vertices, each at the position of the cap
/// vertex under it, moved by the displacement.
pub proof fn law_extrusion<S>(
    m: MeshView<S>,
    face_id: Identifier,
    edit: spec_fn(Vertex<S>, Vertex<S>) -> bool,
    post: MeshView<S>,
)
    requires
        m.wf(),
        m.can_extrude(face_id),
        m.extruded(face_id, edit, post),
    ensures
        post.counter == m.counter + 2 * m.faces[face_id].len() + 1,
        !post.faces.contains_key(face_id),
        forall|k: Identifier|
            m.faces.contains_key(k) && k != face_id ==> post.faces.contains_key(k)
                && #[trigger] post.faces[k] == m.faces[k],
        forall|i: int|
            #![trigger side_face(m.faces[face_id], m.counter, i)]
            0 <= i < m.faces[face_id].len() ==> {
                let side = (m.counter + m.faces[face_id].len() + i) as Identifier;
                &&& !m.faces.contains_key(side)
                &&& post.faces.contains_key(side)
                &&& post.faces[side] == side_face(m.faces[face_id], m.counter, i)
            },
        ({
            let n = m.faces[face_id].len();
            let top = (m.counter + 2 * n) as Identifier;
            &&& !m.faces.contains_key(top)
            &&& post.faces.contains_key(top)
            &&& post.faces[top].len() == n
            &&& forall|i: int|
                0 <= i < n ==> {
                    &&& !m.vertices.contains_key(#[trigger] post.faces[top][i])
                    &&& post.vertices.contains_key(post.faces[top][i])
                    &&& edit(
                        m.vertices[m.faces[face_id][i]].renamed(post.faces[top][i]),
                        post.vertices[post.faces[top][i]],
                    )
                }
        }),
{
    let cap = m.faces[face_id];
    let n = cap.len();
    let c = m.counter;
    let top = (c + 2 * n) as Identifier;
    assert(post.faces[top] == top_face(n, c));
    assert forall|i: int| 0 <= i < n implies {
        &&& !m.vertices.contains_key(#[trigger] post.faces[top][i])
        &&& post.vertices.contains_key(post.faces[top][i])
        &&& edit(
            m.vertices[cap[i]].renamed(post.faces[top][i]),
            post.vertices[post.faces[top][i]],
        )
    } by {
        assert(post.faces[top][i] == (c + i) as Identifier);
        assert(edit(
            m.vertices[cap[i]].renamed((c + i) as Identifier),
            post.vertices[(c + i) as Identifier],
        ));
    }
}

/// After an extrusion by the displacement `d`, every vertex of the top face
/// is at the position of the cap vertex under it, plus `d`, and the cap
/// vertices are where they were.
pub proof fn law_extrusion_translates_top<S, P: Fn(S, S) -> S>(
    m: MeshView<S>,
    face_id: Identifier,
    plus: P,
    d: (S, S, S),
    post: MeshView<S>,
    i: int,
)
    requires
        m.wf(),
        m.can_extrude(face_id),
        m.extruded(face_id, translating(plus, d), post),
        0 <= i < m.faces[face_id].len(),
    ensures
        ({
            let top = (m.counter + 2 * m.faces[face_id].len()) as Identifier;
            let below = m.faces[face_id][i];
            &&& post.faces.contains_key(top)
            &&& post.faces[top].len() == m.faces[face_id].len()
            &&& post.vertices.contains_key(post.faces[top][i])
            &&& is_sum(
                plus,
                m.vertices[below].position(),
                d,
                post.vertices[post.faces[top][i]].position(),
            )
            &&& post.vertices[below] == m.vertices[below]
        }),
{
    law_extrusion(m, face_id, translating(plus, d), post);
    let top = (m.counter + 2 * m.faces[face_id].len()) as Identifier;
    let below = m.faces[face_id][i];
    assert(m.vertices.contains_key(below));
    assert(translating(plus, d)(
        m.vertices[below].renamed(post.faces[top][i]),
        post.vertices[post.faces[top][i]],
    ));
}

/// A vertex that was just created is listed by no stored face, where the
/// stored faces list stored vertices only.
pub proof fn law_new_vertex_is_unreferenced<S>(m: MeshView<S>, x: S, y: S, z: S)
    requires
        m.wf(),
        m.counter < i32::MAX,
        forall|f: Identifier| m.faces.contains_key(f) ==> m.face_is_closed(f),
    ensures
        !m.gen_vertex(x, y, z).referenced(m.next_id()),
{
    let post = m.gen_vertex(x, y, z);
    if post.referenced(m.next_id()) {
        let (f, i) = choose|f: Identifier, i: int|
            post.faces.contains_key(f) && 0 <= i < post.faces[f].len() && (
            #[trigger] post.faces[f][i]) == m.next_id();
        assert(m.face_is_closed(f));
        assert(m.vertices.contains_key(m.faces[f][i]));
    }
}

/// Deleting a face leaves a vertex unreferenced where no other stored face
/// lists it; a vertex that another stored face lists stays referenced.
pub proof fn law_delete_face_unreferences<S>(m: MeshView<S>, face_id: Identifier, v: Identifier)
    requires
        m.wf(),
    ensures
        (forall|g: Identifier, i: int|
            m.faces.contains_key(g) && g != face_id && 0 <= i < m.faces[g].len() ==> (
            #[trigger] m.faces[g][i]) != v) ==> !m.delete_face(face_id).referenced(v),
        m.delete_face(face_id).referenced(v) ==> m.referenced(v),
        !m.delete_face(face_id).faces.contains_key(face_id),
{
    let post = m.delete_face(face_id);
    if post.referenced(v) {
        let (g, i) = choose|g: Identifier, i: int|
            post.faces.contains_key(g) && 0 <= i < post.faces[g].len() && (
            #[trigger] post.faces[g][i]) == v;
        assert(m.faces.contains_key(g) && g != face_id && m.faces[g][i] == v);
    }
}

/// Reading a layout back gives the mesh's referenced geometry: the vertex
/// that a face of the layout names at a position, by its number, is the
/// vertex that the mesh stores for that position of the face, with its
/// coordinates; and two positions get the same number exactly where the mesh
/// lists the same vertex.
pub proof fn law_layout_round_trip<S>(
    layout: WavefrontLayout<S>,
    m: MeshView<S>,
    a: int,
    b: int,
    a2: int,
    b2: int,
)
    requires
        m.wf(),
        layout.lays_out(m),
        0 <= a < layout.faces@.len(),
        0 <= b < layout.faces@[a].indices@.len(),
        0 <= a2 < layout.faces@.len(),
        0 <= b2 < layout.faces@[a2].indices@.len(),
    ensures
        m.faces.contains_key(layout.faces@[a].id),
        layout.faces@[a].indices@.len() == m.faces[layout.faces@[a].id].len(),
        1 <= layout.faces@[a].indices@[b] <= layout.vertices@.len(),
        layout.vertices@[layout.faces@[a].indices@[b] - 1] == m.vertices[m.faces[layout.faces@[a].id][b]],
        layout.faces@[a].indices@[b] == layout.faces@[a2].indices@[b2] <==> m.faces[layout.faces@[a].id][b]
            == m.faces[layout.faces@[a2].id][b2],
{
    let face = layout.faces@[a];
    let face2 = layout.faces@[a2];
    let n = face.indices@[b];
    let n2 = face2.indices@[b2];
    assert(layout.vertices@[n - 1].id == m.faces[face.id][b]);
    assert(layout.vertices@[n2 - 1].id == m.faces[face2.id][b2]);
    let v = layout.vertices@[n - 1];
    assert(m.vertices[v.id] == v);
    if n != n2 {
        if n < n2 {
            assert(layout.vertices@[n - 1].id != layout.vertices@[n2 - 1].id);
        } else {
            assert(layout.vertices@[n2 - 1].id != layout.vertices@[n - 1].id);
        }
    }
}

} // verus!
