//! The layout of a mesh in the plain polygon text format: numbered vertices,
//! then for each face the numbers of its vertices. Writing the lines is left
//! to the caller.

use std::collections::HashMap;
use vstd::prelude::*;
use crate::base::{Id, Identifier};
use crate::mesh::Mesh;
use crate::model::MeshView;
use crate::vertex::Vertex;

verus! {

broadcast use vstd::std_specs::hash::group_hash_axioms;

/// A face of the layout: the face's identifier in the mesh, and the numbers
/// of its vertices, in the face's order. Numbers count from 1.
pub struct WavefrontFace {
    pub id: Identifier,
    pub indices: Vec<usize>,
}

/// What an export writes: the vertices in the order of their numbers, the
/// first being number 1, and the faces.
pub struct WavefrontLayout<S> {
    pub vertices: Vec<Vertex<S>>,
    pub faces: Vec<WavefrontFace>,
}

/// Whether every vertex that a stored face lists is stored.
pub open spec fn exportable<S>(m: MeshView<S>) -> bool {
    forall|v: Identifier| m.referenced(v) ==> m.vertices.contains_key(v)
}

impl<S> WavefrontLayout<S> {
    /// Whether this is a layout of the mesh `m`: its vertices are the
    /// referenced vertices of `m`, each once and as stored; its faces are the
    /// stored faces of `m`, each once; and the
    /// number at each position of a face is that of the vertex that the face
    /// lists there.
    pub open spec fn lays_out(&self, m: MeshView<S>) -> bool {
        &&& forall|i: int, j: int|
            0 <= i < j < self.vertices@.len() ==> (#[trigger] self.vertices@[i]).id_spec() != (
            #[trigger] self.vertices@[j]).id_spec()
        &&& forall|i: int|
            0 <= i < self.vertices@.len() ==> {
                let v = #[trigger] self.vertices@[i];
                m.referenced(v.id_spec()) && m.vertices.contains_key(v.id_spec()) && m.vertices[v.id_spec()]
                    == v
            }
        &&& forall|v: Identifier|
            m.referenced(v) ==> exists|i: int|
                0 <= i < self.vertices@.len() && (#[trigger] self.vertices@[i]).id_spec() == v
        &&& forall|a: int|
            0 <= a < self.faces@.len() ==> {
                let face = #[trigger] self.faces@[a];
                &&& m.faces.contains_key(face.id)
                &&& face.indices@.len() == m.faces[face.id].len()
                &&& forall|b: int|
                    0 <= b < face.indices@.len() ==> {
                        &&& 1 <= (#[trigger] face.indices@[b]) <= self.vertices@.len()
                        &&& self.vertices@[face.indices@[b] - 1].id_spec() == m.faces[face.id][b]
                    }
            }
        &&& forall|k: Identifier|
            m.faces.contains_key(k) ==> exists|a: int|
                0 <= a < self.faces@.len() && (#[trigger] self.faces@[a]).id == k
        &&& forall|a: int, b: int|
            0 <= a < b < self.faces@.len() ==> (#[trigger] self.faces@[a]).id != (
            #[trigger] self.faces@[b]).id
    }
}

/// Lays the mesh out for export; `None` where a stored face lists a vertex
/// that is not stored.
pub fn export_layout<S: Copy>(mesh: &Mesh<S>) -> (layout: Option<WavefrontLayout<S>>)
    requires
        mesh.wf(),
    ensures
        layout is Some <==> exportable(mesh@),
        layout is Some ==> layout->0.lays_out(mesh@),
{
    proof {
        mesh.lemma_wf_view();
    }
    let ids = mesh.all_vertices();
    let mut index: HashMap<Identifier, usize> = HashMap::new();
    let mut vertices: Vec<Vertex<S>> = Vec::new();
    let mut i: usize = 0;
    while i < ids.len()
        invariant
            i <= ids.len(),
            mesh.wf(),
            mesh@.wf(),
            ids@.no_duplicates(),
            forall|v: Identifier| ids@.contains(v) <==> mesh@.referenced(v),
            vertices@.len() == i,
            forall|j: int| 0 <= j < i ==> mesh@.vertices.contains_key(#[trigger] ids@[j]),
            forall|j: int| 0 <= j < i ==> (#[trigger] vertices@[j]) == mesh@.vertices[ids@[j]],
            forall|v: Identifier| index@.contains_key(v) ==> ids@.contains(v),
            forall|j: int|
                0 <= j < i ==> index@.contains_key(#[trigger] ids@[j]) && index@[ids@[j]] == j + 1,
            forall|v: Identifier|
                index@.contains_key(v) ==> 1 <= (#[trigger] index@[v]) <= i && ids@[index@[v] - 1]
                    == v,
        decreases ids.len() - i,
    {
        let id = ids[i];
        let ghost index_before = index@;
        let ghost vertices_before = vertices@;
        match mesh.get_vertex_clone(id) {
            Some(v) => {
                vertices.push(v);
                index.insert(id, i + 1);
                proof {
                    assert(index@ == index_before.insert(id, (i + 1) as usize));
                    assert(!index_before.contains_key(id)) by {
                        if index_before.contains_key(id) {
                            assert(ids@[index_before[id] - 1] == id);
                        }
                    }
                    assert forall|j: int| 0 <= j < i + 1 implies (#[trigger] vertices@[j])
                        == mesh@.vertices[ids@[j]] by {
                        if j < i {
                            assert(vertices@[j] == vertices_before[j]);
                        }
                    }
                    assert forall|j: int| 0 <= j < i + 1 implies index@.contains_key(
                        #[trigger] ids@[j],
                    ) && index@[ids@[j]] == j + 1 by {
                        if j < i {
                            assert(index_before.contains_key(ids@[j]));
                            assert(ids@[j] != id);
                        }
                    }
                    assert forall|w: Identifier| index@.contains_key(w) implies 1 <= (
                    #[trigger] index@[w]) <= i + 1 && ids@[index@[w] - 1] == w by {
                        if w != id {
                            assert(index_before.contains_key(w));
                            assert(index@[w] == index_before[w]);
                        }
                    }
                }
            },
            None => {
                proof {
                    assert(ids@.contains(id));
                    assert(mesh@.referenced(id));
                }
                return None;
            },
        }
        i += 1;
    }
    let faces = mesh.all_faces();
    let mut out: Vec<WavefrontFace> = Vec::new();
    let mut a: usize = 0;
    while a < faces.len()
        invariant
            a <= faces.len(),
            mesh.wf(),
            mesh@.wf(),
            ids@.no_duplicates(),
            forall|v: Identifier| ids@.contains(v) <==> mesh@.referenced(v),
            vertices@.len() == ids@.len(),
            forall|j: int| 0 <= j < ids@.len() ==> mesh@.vertices.contains_key(#[trigger] ids@[j]),
            forall|j: int|
                0 <= j < ids@.len() ==> (#[trigger] vertices@[j]) == mesh@.vertices[ids@[j]],
            forall|j: int|
                0 <= j < ids@.len() ==> index@.contains_key(#[trigger] ids@[j]) && index@[ids@[j]]
                    == j + 1,
            forall|v: Identifier|
                index@.contains_key(v) ==> 1 <= (#[trigger] index@[v]) <= ids@.len() && ids@[index@[v]
                    - 1] == v,
            forall|x: int|
                0 <= x < faces@.len() ==> mesh@.faces.contains_key(#[trigger] faces@[x].id_spec())
                    && faces@[x]@ == mesh@.faces[faces@[x].id_spec()],
            out@.len() == a,
            forall|x: int|
                0 <= x < a ==> {
                    let face = #[trigger] out@[x];
                    &&& face.id == faces@[x].id_spec()
                    &&& face.indices@.len() == faces@[x]@.len()
                    &&& forall|b: int|
                        0 <= b < face.indices@.len() ==> {
                            &&& 1 <= (#[trigger] face.indices@[b]) <= vertices@.len()
                            &&& vertices@[face.indices@[b] - 1].id == faces@[x]@[b]
                        }
                },
        decreases faces.len() - a,
    {
        let face = &faces[a];
        let mut indices: Vec<usize> = Vec::new();
        let mut b: usize = 0;
        while b < face.vertices.len()
            invariant
                a < faces.len(),
                face == faces@[a as int],
                b <= face.vertices.len(),
                mesh@.wf(),
                mesh@.faces.contains_key(face.id_spec()),
                face@ == mesh@.faces[face.id_spec()],
                forall|v: Identifier| ids@.contains(v) <==> mesh@.referenced(v),
                vertices@.len() == ids@.len(),
                forall|j: int|
                    0 <= j < ids@.len() ==> mesh@.vertices.contains_key(#[trigger] ids@[j]),
                forall|j: int|
                    0 <= j < ids@.len() ==> (#[trigger] vertices@[j]) == mesh@.vertices[ids@[j]],
                forall|j: int|
                    0 <= j < ids@.len() ==> index@.contains_key(#[trigger] ids@[j])
                        && index@[ids@[j]] == j + 1,
                forall|v: Identifier|
                    index@.contains_key(v) ==> 1 <= (#[trigger] index@[v]) <= ids@.len()
                        && ids@[index@[v] - 1] == v,
                indices@.len() == b,
                forall|y: int|
                    0 <= y < b ==> {
                        &&& 1 <= (#[trigger] indices@[y]) <= vertices@.len()
                        &&& vertices@[indices@[y] - 1].id == face@[y]
                    },
            decreases face.vertices.len() - b,
        {
            let v = face.vertices[b];
            proof {
                assert(mesh@.faces[face.id_spec()][b as int] == v);
                assert(mesh@.referenced(v));
                assert(ids@.contains(v));
                let j = choose|j: int| 0 <= j < ids@.len() && (#[trigger] ids@[j]) == v;
                assert(index@.contains_key(ids@[j]));
            }
            match index.get(&v) {
                Some(number) => {
                    proof {
                        assert(*number == index@[v]);
                        assert(vertices@[*number - 1] == mesh@.vertices[ids@[*number - 1]]);
                    }
                    indices.push(*number);
                },
                None => {
                    return None;
                },
            }
            b += 1;
        }
        out.push(WavefrontFace { id: face.id, indices: indices });
        a += 1;
    }
    let layout = WavefrontLayout { vertices: vertices, faces: out };
    proof {
        assert forall|v: Identifier| mesh@.referenced(v) implies mesh@.vertices.contains_key(v) by {
            assert(ids@.contains(v));
            let j = choose|j: int| 0 <= j < ids@.len() && (#[trigger] ids@[j]) == v;
            assert(mesh@.vertices.contains_key(ids@[j]));
        }
        assert forall|v: Identifier| mesh@.referenced(v) implies exists|i: int|
            0 <= i < layout.vertices@.len() && (#[trigger] layout.vertices@[i]).id == v by {
            assert(ids@.contains(v));
            let j = choose|j: int| 0 <= j < ids@.len() && (#[trigger] ids@[j]) == v;
            assert(layout.vertices@[j].id == v);
        }
        assert forall|i: int| 0 <= i < layout.vertices@.len() implies {
            let v = #[trigger] layout.vertices@[i];
            mesh@.referenced(v.id) && mesh@.vertices.contains_key(v.id) && mesh@.vertices[v.id] == v
        } by {
            assert(layout.vertices@[i] == mesh@.vertices[ids@[i]]);
            assert(ids@.contains(ids@[i]));
        }
        assert forall|i: int, j: int| 0 <= i < j < layout.vertices@.len() implies (
        #[trigger] layout.vertices@[i]).id != (#[trigger] layout.vertices@[j]).id by {
            assert(layout.vertices@[i].id == ids@[i]);
            assert(layout.vertices@[j].id == ids@[j]);
        }
        assert forall|k: Identifier| mesh@.faces.contains_key(k) implies exists|a: int|
            0 <= a < layout.faces@.len() && (#[trigger] layout.faces@[a]).id == k by {
            let x = choose|x: int| 0 <= x < faces@.len() && (#[trigger] faces@[x]).id_spec() == k;
            assert(layout.faces@[x].id == k);
        }
        assert forall|a: int, b: int| 0 <= a < b < layout.faces@.len() implies (
        #[trigger] layout.faces@[a]).id != (#[trigger] layout.faces@[b]).id by {
            assert(faces@[a].id_spec() != faces@[b].id_spec());
        }
    }
    Some(layout)
}

} // verus!
