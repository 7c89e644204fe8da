//! Facts about the model that the operations of the mesh rest on.

use vstd::prelude::*;
use crate::base::{Id, Identifier};
use crate::model::{
    MeshView, applying, attached, attached_all, is_trace, top_face, transformed, transformed_one,
    with_copies, with_empty_entries,
};
use crate::vertex::Vertex;

verus! {

/// Duplicating vertices that are all stored issues one identifier for each,
/// in order, copies each position, gives each copy an empty adjacency entry,
/// and leaves the faces and the vertices that were there as they are.
pub proof fn lemma_duplicate_stored<S>(m: MeshView<S>, ids: Seq<Identifier>)
    requires
        m.wf(),
        forall|i: int| 0 <= i < ids.len() ==> m.vertices.contains_key(#[trigger] ids[i]),
        m.counter + ids.len() <= i32::MAX,
    ensures
        m.duplicate_vertices(ids).wf(),
        m.duplicate_vertices(ids).counter == m.counter + ids.len(),
        m.duplicate_vertices(ids).faces == m.faces,
        m.duplicate_vertices(ids).vertices == with_copies(m.vertices, ids, m.counter),
        m.duplicate_vertices(ids).adjacency == with_empty_entries(
            m.adjacency,
            ids.len(),
            m.counter,
        ),
        m.duplicate_ids(ids) == top_face(ids.len(), m.counter),
    decreases ids.len(),
{
    let c = m.counter;
    if ids.len() == 0 {
        assert(m.vertices =~= with_copies(m.vertices, ids, c));
        assert(m.adjacency =~= with_empty_entries(m.adjacency, ids.len(), c));
        assert(m.duplicate_ids(ids) =~= top_face(ids.len(), c));
    } else {
        let front = ids.drop_last();
        assert forall|i: int| 0 <= i < front.len() implies m.vertices.contains_key(
            #[trigger] front[i],
        ) by {
            assert(front[i] == ids[i]);
        }
        lemma_duplicate_stored(m, front);
        let mid = m.duplicate_vertices(front);
        let last = ids.last();
        assert(m.vertices.contains_key(last));
        assert(0 <= last < c);
        assert(mid.vertices.contains_key(last));
        assert(mid.vertices[last] == m.vertices[last]);
        let post = m.duplicate_vertices(ids);
        assert(post == mid.duplicate_vertex(last));
        assert(post.vertices =~= with_copies(m.vertices, ids, c)) by {
            assert forall|k: Identifier| #[trigger]
                post.vertices.contains_key(k) implies post.vertices[k] == with_copies(
                m.vertices,
                ids,
                c,
            )[k] by {
                if c <= k < c + front.len() {
                    assert(front[k - c] == ids[k - c]);
                }
            }
        }
        assert(post.adjacency =~= with_empty_entries(m.adjacency, ids.len(), c));
        assert(m.duplicate_ids(ids) =~= top_face(ids.len(), c));
    }
}

/// Entering one more face into the adjacency index: the index after the
/// first `i + 1` of `faces` is the index after the first `i`, with face `i`
/// attached.
pub proof fn lemma_attached_all_step(
    adjacency: Map<Identifier, Seq<Identifier>>,
    faces: Seq<(Identifier, Seq<Identifier>)>,
    i: int,
)
    requires
        0 <= i < faces.len(),
    ensures
        attached_all(adjacency, faces.take(i + 1)) == attached(
            attached_all(adjacency, faces.take(i)),
            faces[i].0,
            faces[i].1,
        ),
{
    assert(faces.take(i + 1).drop_last() =~= faces.take(i));
    assert(faces.take(i + 1).last() == faces[i]);
}

/// A function that keeps the identifier of its argument and edits within a
/// rule gives, applied to a vertex, an edit that the rule allows.
pub proof fn lemma_applying_within<S, F: Fn(Vertex<S>) -> Vertex<S>>(
    f: F,
    rule: spec_fn(Vertex<S>, Vertex<S>) -> bool,
)
    requires
        forall|p: Vertex<S>, w: Vertex<S>| #[trigger] f.ensures((p,), w) ==> rule(p, w) && w.id_spec() == p.id_spec(),
    ensures
        forall|a: Vertex<S>, b: Vertex<S>| #[trigger] applying(f)(a, b) ==> rule(a, b),
{
    assert forall|a: Vertex<S>, b: Vertex<S>| #[trigger] applying(f)(a, b) implies rule(a, b) by {
        let r = choose|r: Vertex<S>| #[trigger] f.ensures((a,), r) && b == r.renamed(a.id);
        assert(rule(a, r));
    }
}

/// Editing by a rule is editing by every rule that allows at least the same
/// edits.
pub proof fn lemma_transformed_by_wider_rule<S>(
    edit: spec_fn(Vertex<S>, Vertex<S>) -> bool,
    wider: spec_fn(Vertex<S>, Vertex<S>) -> bool,
    ids: Seq<Identifier>,
    before: Map<Identifier, Vertex<S>>,
    after: Map<Identifier, Vertex<S>>,
)
    requires
        transformed(edit, ids, before, after),
        forall|a: Vertex<S>, b: Vertex<S>| #[trigger] edit(a, b) ==> wider(a, b),
    ensures
        transformed(wider, ids, before, after),
{
    let states = choose|states: Seq<Map<Identifier, Vertex<S>>>|
        #![trigger is_trace(edit, ids, states)]
        is_trace(edit, ids, states) && states[0] == before && states.last() == after;
    assert forall|i: int| 0 <= i < ids.len() implies transformed_one(
        wider,
        ids[i],
        #[trigger] states[i],
        states[i + 1],
    ) by {
        assert(transformed_one(edit, ids[i], states[i], states[i + 1]));
        if states[i].contains_key(ids[i]) {
            let w = choose|w: Vertex<S>| #[trigger]
                edit(states[i][ids[i]], w) && states[i + 1] == states[i].insert(ids[i], w);
            assert(wider(states[i][ids[i]], w));
        }
    }
    assert(is_trace(wider, ids, states));
}

/// An extrusion by a rule is an extrusion by every rule that allows at least
/// the same edits.
pub proof fn lemma_extruded_by_wider_rule<S>(
    m: MeshView<S>,
    face_id: Identifier,
    edit: spec_fn(Vertex<S>, Vertex<S>) -> bool,
    wider: spec_fn(Vertex<S>, Vertex<S>) -> bool,
    post: MeshView<S>,
)
    requires
        m.extruded(face_id, edit, post),
        forall|a: Vertex<S>, b: Vertex<S>| #[trigger] edit(a, b) ==> wider(a, b),
    ensures
        m.extruded(face_id, wider, post),
{
}

/// Where no identifier is listed twice, editing the vertices `ids` edits each
/// listed vertex that is stored exactly once, and no other.
pub proof fn lemma_trace_distinct<S>(
    edit: spec_fn(Vertex<S>, Vertex<S>) -> bool,
    ids: Seq<Identifier>,
    states: Seq<Map<Identifier, Vertex<S>>>,
    j: int,
)
    requires
        is_trace(edit, ids, states),
        ids.no_duplicates(),
        0 <= j <= ids.len(),
    ensures
        states[j].dom() == states[0].dom(),
        forall|k: Identifier|
            states[0].contains_key(k) && !ids.take(j).contains(k) ==> #[trigger] states[j][k]
                == states[0][k],
        forall|l: int|
            0 <= l < j && states[0].contains_key(ids[l]) ==> edit(
                states[0][ids[l]],
                #[trigger] states[j][ids[l]],
            ),
    decreases j,
{
    if j > 0 {
        lemma_trace_distinct(edit, ids, states, j - 1);
        let id = ids[j - 1];
        let before = states[j - 1];
        let after = states[j];
        assert(transformed_one(edit, id, before, after));
        assert(ids.take(j).drop_last() =~= ids.take(j - 1));
        assert(!ids.take(j - 1).contains(id)) by {
            if ids.take(j - 1).contains(id) {
                let l = choose|l: int|
                    0 <= l < ids.take(j - 1).len() && (#[trigger] ids.take(j - 1)[l]) == id;
                assert(ids[l] == ids[j - 1]);
            }
        }
        assert(after.dom() =~= before.dom());
        assert forall|k: Identifier|
            states[0].contains_key(k) && !ids.take(j).contains(k) implies #[trigger] after[k]
            == states[0][k] by {
            assert(ids.take(j)[j - 1] == id);
            assert(k != id);
            if ids.take(j - 1).contains(k) {
                let l = choose|l: int|
                    0 <= l < ids.take(j - 1).len() && (#[trigger] ids.take(j - 1)[l]) == k;
                assert(ids.take(j)[l] == k);
            }
            assert(before[k] == states[0][k]);
        }
        assert forall|l: int| 0 <= l < j && states[0].contains_key(ids[l]) implies edit(
            states[0][ids[l]],
            #[trigger] after[ids[l]],
        ) by {
            if l < j - 1 {
                assert(ids[l] != id);
                assert(edit(states[0][ids[l]], before[ids[l]]));
            } else {
                assert(before[id] == states[0][id]);
            }
        }
    }
}

/// Where no identifier is listed twice, editing the vertices `ids` keeps the
/// set of stored vertices, leaves every vertex that is not listed as it is,
/// and edits each listed vertex that is stored once.
pub proof fn lemma_transformed_distinct<S>(
    edit: spec_fn(Vertex<S>, Vertex<S>) -> bool,
    ids: Seq<Identifier>,
    before: Map<Identifier, Vertex<S>>,
    after: Map<Identifier, Vertex<S>>,
)
    requires
        transformed(edit, ids, before, after),
        ids.no_duplicates(),
    ensures
        after.dom() == before.dom(),
        forall|k: Identifier|
            before.contains_key(k) && !ids.contains(k) ==> #[trigger] after[k] == before[k],
        forall|l: int|
            0 <= l < ids.len() && before.contains_key(ids[l]) ==> edit(
                before[ids[l]],
                #[trigger] after[ids[l]],
            ),
{
    let states = choose|states: Seq<Map<Identifier, Vertex<S>>>|
        #![trigger is_trace(edit, ids, states)]
        is_trace(edit, ids, states) && states[0] == before && states.last() == after;
    lemma_trace_distinct(edit, ids, states, ids.len() as int);
    assert(ids.take(ids.len() as int) =~= ids);
}

} // verus!
