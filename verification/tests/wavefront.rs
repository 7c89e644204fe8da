use meshgen::base::{Id, Identifier};
use meshgen::mesh::Mesh;
use meshgen::vector::VectorImpl;
use meshgen::wavefrontexport::export_layout;

#[test]
fn layout_of_the_empty_mesh_is_empty() {
    let mesh: Mesh<f32> = Mesh::default();
    let layout = export_layout(&mesh).unwrap();
    assert_eq!(layout.vertices.len(), 0);
    assert_eq!(layout.faces.len(), 0);
}

#[test]
fn layout_numbers_referenced_vertices_from_one() {
    let mut mesh: Mesh<f32> = Mesh::default();
    let a = mesh.gen_vertex(0.0, 0.0, 0.0);
    let _unused = mesh.gen_vertex(7.0, 7.0, 7.0);
    let b = mesh.gen_vertex(1.0, 0.0, 0.0);
    let c = mesh.gen_vertex(0.0, 1.0, 0.0);
    let d = mesh.gen_vertex(0.0, 0.0, 1.0);
    let f = mesh.gen_face(&[a, b, c]);
    let g = mesh.gen_face(&[c, b, d, c]);
    let layout = export_layout(&mesh).unwrap();

    assert_eq!(layout.vertices.len(), 4);
    let mut order: Vec<Identifier> = layout.vertices.iter().map(|v| v.get_id()).collect();
    order.sort();
    assert_eq!(order, vec![a, b, c, d]);
    for v in layout.vertices.iter() {
        let stored = mesh.get_vertex(v.get_id()).unwrap();
        assert_eq!((v.x, v.y, v.z), (stored.x, stored.y, stored.z));
    }
    let number = |id: Identifier| -> usize {
        1 + layout.vertices.iter().position(|v| v.get_id() == id).unwrap()
    };

    assert_eq!(layout.faces.len(), 2);
    let first = layout.faces.iter().find(|face| face.id == f).unwrap();
    assert_eq!(first.indices, vec![number(a), number(b), number(c)]);
    let second = layout.faces.iter().find(|face| face.id == g).unwrap();
    assert_eq!(second.indices, vec![number(c), number(b), number(d), number(c)]);
    for face in layout.faces.iter() {
        for index in face.indices.iter() {
            assert!(1 <= *index && *index <= 4);
        }
    }
}

#[test]
fn layout_reads_back_to_the_same_geometry() {
    let mut mesh: Mesh<f32> = Mesh::default();
    let ids: Vec<Identifier> = vec![
        mesh.gen_vertex(-1.0, -1.0, 0.0),
        mesh.gen_vertex(1.0, -1.0, 0.0),
        mesh.gen_vertex(1.0, 1.0, 0.0),
        mesh.gen_vertex(-1.0, 1.0, 0.0),
    ];
    let f = mesh.gen_face(&ids);
    mesh.extrude_face(f, &VectorImpl::new(0.0f32, 0.0, 1.0), &|a: f32, b: f32| a + b)
        .unwrap();
    let layout = export_layout(&mesh).unwrap();
    assert_eq!(layout.vertices.len(), 8);
    assert_eq!(layout.faces.len(), 5);
    for face in layout.faces.iter() {
        let stored = mesh.get_face(face.id).unwrap();
        assert_eq!(face.indices.len(), stored.vertices.len());
        for (number, id) in face.indices.iter().zip(stored.vertices.iter()) {
            let written = layout.vertices[*number - 1];
            let v = mesh.get_vertex(*id).unwrap();
            assert_eq!((written.x, written.y, written.z), (v.x, v.y, v.z));
        }
    }
}

#[test]
fn layout_is_refused_where_a_face_lists_a_missing_vertex() {
    let mut mesh: Mesh<f32> = Mesh::default();
    let a = mesh.gen_vertex(0.0, 0.0, 0.0);
    let f = mesh.gen_face(&[a, 12]);
    assert!(export_layout(&mesh).is_none());
    mesh.delete_face(f);
    assert!(export_layout(&mesh).is_some());
}
