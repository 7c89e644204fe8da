use meshgen::base::{Id, Identifier, NO_VERTEX};
use meshgen::face::Face;
use meshgen::mesh::{ExtrudeResult, Mesh};
use meshgen::vector::VectorImpl;
use meshgen::vertex::Vertex;

fn plus(a: f32, b: f32) -> f32 {
    a + b
}

fn minus(a: f32, b: f32) -> f32 {
    a - b
}

fn times(a: f32, b: f32) -> f32 {
    a * b
}

fn over(a: f32, b: f32) -> f32 {
    a / b
}

fn root(a: f32) -> f32 {
    a.sqrt()
}

fn unit_square(mesh: &mut Mesh<f32>) -> (Vec<Identifier>, Identifier) {
    let v1 = mesh.gen_vertex(-1f32, -1f32, 0f32);
    let v2 = mesh.gen_vertex(1f32, -1f32, 0f32);
    let v3 = mesh.gen_vertex(1f32, 1f32, 0f32);
    let v4 = mesh.gen_vertex(-1f32, 1f32, 0f32);
    let ids = vec![v1, v2, v3, v4];
    let f = mesh.gen_face(ids.as_slice());
    (ids, f)
}

#[test]
fn it_works() {
}

#[test]
fn test() {
    let mut mesh: Mesh<f32> = Mesh::default();
    assert_eq!(0, mesh.all_faces().len());
    assert_eq!(true, mesh.get_vertex(1).is_none());

    let v1 = mesh.gen_vertex(-1f32, -1f32, 0f32);
    assert_eq!(-1f32, mesh.get_vertex(v1).unwrap().x);
    assert_eq!(-1f32, mesh.get_vertex(v1).unwrap().y);
    assert_eq!(0f32, mesh.get_vertex(v1).unwrap().z);
    let v2 = mesh.gen_vertex(1f32, -1f32, 0f32);
    let v3 = mesh.gen_vertex(1f32, 1f32, 0f32);
    let v4 = mesh.gen_vertex(-1f32, 1f32, 0f32);
    let ids: Vec<Identifier> = vec![v1, v2, v3, v4];
    let f = mesh.gen_face(ids.as_slice());
    assert_eq!(1, mesh.all_faces().len());
    assert_eq!(ids, mesh.get_face(f).unwrap().vertices);

    let vertices = mesh.vertices_of_face(f).unwrap();
    assert_eq!(-1f32, vertices[0].x);
    assert_eq!(-1f32, vertices[1].y);
    assert_eq!(0f32, vertices[2].z);

    assert_eq!(-1f32, mesh.get_vertex(v1).unwrap().x);
    mesh.move_vertex(v1, &VectorImpl::new(1f32, 0f32, 0f32), &plus);
    assert_eq!(0f32, mesh.get_vertex(v1).unwrap().x);

    let extrude_result = mesh.extrude_face(f, &VectorImpl::new(0f32, 0f32, 1f32), &plus).unwrap();
    {
        let top_face = mesh.get_face(extrude_result.top_face).unwrap();
        assert_eq!(1f32, mesh.get_vertex(top_face.vertices[0]).unwrap().z);
        assert_eq!(1f32, mesh.get_vertex(top_face.vertices[1]).unwrap().z);
        assert_eq!(1f32, mesh.get_vertex(top_face.vertices[2]).unwrap().z);
        assert_eq!(1f32, mesh.get_vertex(top_face.vertices[3]).unwrap().z);
    }
    let _extrude_result2 = mesh
        .extrude_face(extrude_result.top_face, &VectorImpl::new(1f32, 0f32, 3f32), &plus)
        .unwrap();
    mesh.extrude_face_normal(
        extrude_result.side_faces[0],
        3f32,
        &minus,
        &times,
        &plus,
        &root,
        &over,
    )
    .unwrap();
    assert_eq!(4, extrude_result.side_faces.len());
    assert_eq!(13, mesh.all_faces().len());

    mesh.gen_face(ids.as_slice());
    assert_eq!(14, mesh.all_faces().len());
}

#[test]
fn new_vertex_round_trips_with_a_fresh_identifier() {
    let mut mesh: Mesh<f32> = Mesh::default();
    let a = mesh.gen_vertex(0.5, -2.25, 1e-3);
    assert!(mesh.get_vertex(a).is_some());
    let b = mesh.gen_vertex(3.0, 4.0, 5.0);
    assert_ne!(a, b);
    let va = mesh.get_vertex_clone(a).unwrap();
    assert_eq!((va.get_id(), va.x, va.y, va.z), (a, 0.5, -2.25, 1e-3));
    let vb = mesh.get_vertex(b).unwrap();
    assert_eq!((vb.get_id(), vb.x, vb.y, vb.z), (b, 3.0, 4.0, 5.0));
}

#[test]
fn identifiers_start_at_zero_and_increase_across_vertices_and_faces() {
    let mut mesh: Mesh<f32> = Mesh::default();
    assert_eq!(mesh.gen_id(), 0);
    let v = mesh.gen_vertex(0.0, 0.0, 0.0);
    assert_eq!(v, 1);
    let f = mesh.gen_face(&[v]);
    assert_eq!(f, 2);
    let w = mesh.gen_vertex(0.0, 0.0, 0.0);
    assert_eq!(w, 3);
    mesh.delete_face(f);
    let g = mesh.gen_face(&[v, w]);
    assert_eq!(g, 4);
    assert_eq!(mesh.duplicate_vertex(v), 5);
    assert_eq!(mesh.gen_id(), 6);
}

#[test]
fn new_face_keeps_its_vertex_list() {
    let mut mesh: Mesh<f32> = Mesh::default();
    let a = mesh.gen_vertex(0.0, 0.0, 0.0);
    let b = mesh.gen_vertex(1.0, 0.0, 0.0);
    let c = mesh.gen_vertex(0.0, 1.0, 0.0);
    let ids = vec![c, a, b, a];
    let f = mesh.gen_face(&ids);
    assert_eq!(mesh.get_face(f).unwrap().vertices, ids);
    assert_eq!(mesh.get_face(f).unwrap().get_id(), f);
    let copy = mesh.get_face_clone(f).unwrap();
    assert_eq!(copy.vertices, ids);
    assert_eq!(copy.get_id(), f);
    assert!(mesh.get_face(f + 1).is_none());
    assert!(mesh.get_face_clone(a).is_none());
}

#[test]
fn face_may_list_an_identifier_without_a_vertex() {
    let mut mesh: Mesh<f32> = Mesh::default();
    let a = mesh.gen_vertex(0.0, 0.0, 0.0);
    let f = mesh.gen_face(&[a, 77]);
    assert_eq!(mesh.get_face(f).unwrap().vertices, vec![a, 77]);
    assert!(mesh.vertices_of_face(f).is_none());
    assert!(mesh.vertices_of_face(f + 1).is_none());
}

#[test]
fn face_new_holds_what_it_was_given() {
    let face = Face::new(7, vec![3, 1, 2]);
    assert_eq!(face.get_id(), 7);
    assert_eq!(face.vertices, vec![3, 1, 2]);
    let copy = face.clone();
    assert_eq!(copy.get_id(), 7);
    assert_eq!(copy.vertices, vec![3, 1, 2]);
}

#[test]
fn move_vertex_adds_the_displacement() {
    let mut mesh: Mesh<f32> = Mesh::default();
    let a = mesh.gen_vertex(1.0, 2.0, 3.0);
    let b = mesh.gen_vertex(10.0, 20.0, 30.0);
    mesh.move_vertex(a, &VectorImpl::new(0.5, -2.0, 4.0), &plus);
    let va = mesh.get_vertex(a).unwrap();
    assert_eq!((va.get_id(), va.x, va.y, va.z), (a, 1.5, 0.0, 7.0));
    let vb = mesh.get_vertex(b).unwrap();
    assert_eq!((vb.x, vb.y, vb.z), (10.0, 20.0, 30.0));
}

#[test]
fn transform_vertices_keeps_the_identifier_whatever_the_function_returns() {
    let mut mesh: Mesh<f32> = Mesh::default();
    let a = mesh.gen_vertex(1.0, 2.0, 3.0);
    mesh.transform_vertices(&[a], |v: Vertex<f32>| Vertex::new(99, v.x * 2.0, v.y, v.z));
    assert!(mesh.get_vertex(99).is_none());
    let va = mesh.get_vertex(a).unwrap();
    assert_eq!((va.get_id(), va.x), (a, 2.0));
}

#[test]
fn move_vertex_on_a_missing_identifier_changes_nothing() {
    let mut mesh: Mesh<f32> = Mesh::default();
    let a = mesh.gen_vertex(1.0, 2.0, 3.0);
    mesh.move_vertex(a + 5, &VectorImpl::new(1.0, 1.0, 1.0), &plus);
    mesh.move_vertex(NO_VERTEX, &VectorImpl::new(1.0, 1.0, 1.0), &plus);
    let va = mesh.get_vertex(a).unwrap();
    assert_eq!((va.x, va.y, va.z), (1.0, 2.0, 3.0));
    assert!(mesh.get_vertex(a + 5).is_none());
    assert_eq!(mesh.gen_id(), a + 1);
}

#[test]
fn move_face_moves_each_listed_vertex_once_per_listing() {
    let mut mesh: Mesh<f32> = Mesh::default();
    let a = mesh.gen_vertex(0.0, 0.0, 0.0);
    let b = mesh.gen_vertex(1.0, 0.0, 0.0);
    let c = mesh.gen_vertex(5.0, 5.0, 5.0);
    let f = mesh.gen_face(&[a, b, a]);
    mesh.move_face(f, &VectorImpl::new(1.0, 2.0, 3.0), &plus);
    let va = mesh.get_vertex(a).unwrap();
    assert_eq!((va.x, va.y, va.z), (2.0, 4.0, 6.0));
    let vb = mesh.get_vertex(b).unwrap();
    assert_eq!((vb.x, vb.y, vb.z), (2.0, 2.0, 3.0));
    let vc = mesh.get_vertex(c).unwrap();
    assert_eq!((vc.x, vc.y, vc.z), (5.0, 5.0, 5.0));
    mesh.move_face(f + 10, &VectorImpl::new(1.0, 2.0, 3.0), &plus);
    let va = mesh.get_vertex(a).unwrap();
    assert_eq!((va.x, va.y, va.z), (2.0, 4.0, 6.0));
}

#[test]
fn update_vertex_replaces_the_stored_value() {
    let mut mesh: Mesh<f32> = Mesh::default();
    let a = mesh.gen_vertex(1.0, 2.0, 3.0);
    mesh.update_vertex(&Vertex::new(a, 7.0, 8.0, 9.0));
    let va = mesh.get_vertex(a).unwrap();
    assert_eq!((va.get_id(), va.x, va.y, va.z), (a, 7.0, 8.0, 9.0));
}

#[test]
fn duplicate_vertex_copies_the_position_or_returns_the_sentinel() {
    let mut mesh: Mesh<f32> = Mesh::default();
    let a = mesh.gen_vertex(1.0, 2.0, 3.0);
    let b = mesh.duplicate_vertex(a);
    assert_eq!(b, a + 1);
    let vb = mesh.get_vertex(b).unwrap();
    assert_eq!((vb.get_id(), vb.x, vb.y, vb.z), (b, 1.0, 2.0, 3.0));
    assert_eq!(mesh.duplicate_vertex(40), -1);
    assert_eq!(NO_VERTEX, -1);
    assert_eq!(mesh.gen_id(), b + 1);
}

#[test]
fn duplicate_vertices_keeps_order_and_sentinels() {
    let mut mesh: Mesh<f32> = Mesh::default();
    let a = mesh.gen_vertex(1.0, 0.0, 0.0);
    let b = mesh.gen_vertex(2.0, 0.0, 0.0);
    let copies = mesh.duplicate_vertices(&[b, 50, a, b]);
    assert_eq!(copies, vec![2, -1, 3, 4]);
    assert_eq!(mesh.get_vertex(2).unwrap().x, 2.0);
    assert_eq!(mesh.get_vertex(3).unwrap().x, 1.0);
    assert_eq!(mesh.get_vertex(4).unwrap().x, 2.0);
    assert_eq!(mesh.duplicate_vertices(&[]), Vec::<Identifier>::new());
}

#[test]
fn transform_vertices_skips_missing_identifiers() {
    let mut mesh: Mesh<f32> = Mesh::default();
    let a = mesh.gen_vertex(1.0, 2.0, 3.0);
    let b = mesh.gen_vertex(4.0, 5.0, 6.0);
    mesh.transform_vertices(&[a, 30, b, a], |v: Vertex<f32>| {
        Vertex::new(v.get_id(), v.x * 2.0, v.y, -v.z)
    });
    let va = mesh.get_vertex(a).unwrap();
    assert_eq!((va.x, va.y, va.z), (4.0, 2.0, 3.0));
    let vb = mesh.get_vertex(b).unwrap();
    assert_eq!((vb.x, vb.y, vb.z), (8.0, 5.0, -6.0));
    assert!(mesh.get_vertex(30).is_none());
}

#[test]
fn delete_face_leaves_vertices_in_the_store() {
    let mut mesh: Mesh<f32> = Mesh::default();
    let (ids, f) = unit_square(&mut mesh);
    mesh.delete_face(f);
    assert!(mesh.get_face(f).is_none());
    assert_eq!(mesh.all_faces().len(), 0);
    for id in ids {
        assert!(mesh.get_vertex(id).is_some());
    }
    mesh.delete_face(f);
    mesh.delete_face(1000);
    assert_eq!(mesh.all_faces().len(), 0);
}

#[test]
fn all_faces_is_the_live_set() {
    let mut mesh: Mesh<f32> = Mesh::default();
    let a = mesh.gen_vertex(0.0, 0.0, 0.0);
    let f = mesh.gen_face(&[a]);
    let g = mesh.gen_face(&[a, a]);
    let h = mesh.gen_face(&[]);
    mesh.delete_face(g);
    let faces = mesh.all_faces();
    let mut got: Vec<(Identifier, Vec<Identifier>)> =
        faces.iter().map(|x| (x.get_id(), x.vertices.clone())).collect();
    got.sort();
    assert_eq!(got, vec![(f, vec![a]), (h, vec![])]);
}

#[test]
fn all_vertices_lists_only_what_a_live_face_references() {
    let mut mesh: Mesh<f32> = Mesh::default();
    let a = mesh.gen_vertex(0.0, 0.0, 0.0);
    let b = mesh.gen_vertex(1.0, 0.0, 0.0);
    let c = mesh.gen_vertex(0.0, 1.0, 0.0);
    let lonely = mesh.gen_vertex(9.0, 9.0, 9.0);
    let d = mesh.gen_vertex(0.0, 0.0, 1.0);
    let f = mesh.gen_face(&[a, b, c]);
    let g = mesh.gen_face(&[c, d, c]);
    let mut all = mesh.all_vertices();
    all.sort();
    assert_eq!(all, vec![a, b, c, d]);
    assert!(mesh.get_vertex(lonely).is_some());
    mesh.delete_face(g);
    let mut all = mesh.all_vertices();
    all.sort();
    assert_eq!(all, vec![a, b, c]);
    assert!(mesh.get_vertex(d).is_some());
    mesh.delete_face(f);
    assert_eq!(mesh.all_vertices(), Vec::<Identifier>::new());
}

#[test]
fn extrude_unit_square() {
    let mut mesh: Mesh<f32> = Mesh::default();
    let (ids, f) = unit_square(&mut mesh);
    assert_eq!(ids, vec![0, 1, 2, 3]);
    assert_eq!(f, 4);
    assert_eq!(mesh.all_faces().len(), 1);
    let ExtrudeResult { top_face, side_faces } =
        mesh.extrude_face(f, &VectorImpl::new(0.0, 0.0, 1.0), &plus).unwrap();
    assert_eq!(side_faces, vec![9, 10, 11, 12]);
    assert_eq!(top_face, 13);
    assert_eq!(mesh.all_faces().len(), 5);
    assert!(mesh.get_face(f).is_none());
    assert!(mesh.all_faces().iter().all(|x| x.get_id() != f));

    let top = mesh.get_face_clone(top_face).unwrap();
    assert_eq!(top.vertices, vec![5, 6, 7, 8]);
    let expected = [(-1.0, -1.0), (1.0, -1.0), (1.0, 1.0), (-1.0, 1.0)];
    for (i, id) in top.vertices.iter().enumerate() {
        let v = mesh.get_vertex(*id).unwrap();
        assert_eq!((v.x, v.y, v.z), (expected[i].0, expected[i].1, 1.0));
        let below = mesh.get_vertex(ids[i]).unwrap();
        assert_eq!((below.x, below.y, below.z), (expected[i].0, expected[i].1, 0.0));
    }
    assert_eq!(mesh.get_face(side_faces[0]).unwrap().vertices, vec![3, 0, 5, 8]);
    assert_eq!(mesh.get_face(side_faces[1]).unwrap().vertices, vec![0, 1, 6, 5]);
    assert_eq!(mesh.get_face(side_faces[2]).unwrap().vertices, vec![1, 2, 7, 6]);
    assert_eq!(mesh.get_face(side_faces[3]).unwrap().vertices, vec![2, 3, 8, 7]);
    assert_eq!(mesh.gen_id(), 14);
}

#[test]
fn extrude_missing_face_returns_none_and_changes_nothing() {
    let mut mesh: Mesh<f32> = Mesh::default();
    let (_, f) = unit_square(&mut mesh);
    assert!(mesh.extrude_face(f + 1, &VectorImpl::new(0.0, 0.0, 1.0), &plus).is_none());
    assert!(mesh.extrude_face(0, &VectorImpl::new(0.0, 0.0, 1.0), &plus).is_none());
    assert_eq!(mesh.all_faces().len(), 1);
    assert_eq!(mesh.gen_id(), f + 1);
}

#[test]
fn extrude_degenerate_faces() {
    let mut mesh: Mesh<f32> = Mesh::default();
    let a = mesh.gen_vertex(0.0, 0.0, 0.0);
    let b = mesh.gen_vertex(1.0, 0.0, 0.0);
    let one = mesh.gen_face(&[a]);
    let r = mesh.extrude_face(one, &VectorImpl::new(0.0, 0.0, 2.0), &plus).unwrap();
    assert_eq!(r.side_faces, vec![4]);
    assert_eq!(r.top_face, 5);
    assert_eq!(mesh.get_face(4).unwrap().vertices, vec![a, a, 3, 3]);
    assert_eq!(mesh.get_face(5).unwrap().vertices, vec![3]);
    let two = mesh.gen_face(&[a, b]);
    let r = mesh.extrude_face(two, &VectorImpl::new(0.0, 0.0, 2.0), &plus).unwrap();
    assert_eq!(r.side_faces.len(), 2);
    assert_eq!(mesh.get_face(r.side_faces[0]).unwrap().vertices, vec![b, a, 7, 8]);
    assert_eq!(mesh.get_face(r.side_faces[1]).unwrap().vertices, vec![a, b, 8, 7]);
    assert_eq!(mesh.get_face(r.top_face).unwrap().vertices, vec![7, 8]);
}

#[test]
fn unit_square_normal_is_a_unit_vector_along_z() {
    let mut mesh: Mesh<f32> = Mesh::default();
    let (ids, f) = unit_square(&mut mesh);
    let n = mesh.face_normal(f, &minus, &times, &plus, &root, &over);
    assert_eq!((n.x, n.y, n.z), (0.0, 0.0, 1.0));
    assert!(((n.x * n.x + n.y * n.y + n.z * n.z).sqrt() - 1.0).abs() < 1e-6);
    assert_eq!(n.get_id(), ids[1]);
    let back = mesh.gen_face(&[ids[3], ids[2], ids[1], ids[0]]);
    let n = mesh.face_normal(back, &minus, &times, &plus, &root, &over);
    assert_eq!((n.x, n.y, n.z), (0.0, 0.0, -1.0));
}

#[test]
fn face_normal_reads_the_first_three_vertices_only() {
    let mut mesh: Mesh<f32> = Mesh::default();
    let a = mesh.gen_vertex(0.0, 0.0, 0.0);
    let b = mesh.gen_vertex(2.0, 0.0, 0.0);
    let c = mesh.gen_vertex(2.0, 0.0, -3.0);
    let d = mesh.gen_vertex(50.0, 60.0, 70.0);
    let f = mesh.gen_face(&[a, b, c, d]);
    let n = mesh.face_normal(f, &minus, &times, &plus, &root, &over);
    assert_eq!((n.x, n.y, n.z), (0.0, 1.0, 0.0));
}

#[test]
fn extrude_face_normal_moves_the_top_along_the_normal() {
    let mut mesh: Mesh<f32> = Mesh::default();
    let (ids, f) = unit_square(&mut mesh);
    let r = mesh
        .extrude_face_normal(f, 2.5, &minus, &times, &plus, &root, &over)
        .unwrap();
    assert_eq!(r.side_faces, vec![9, 10, 11, 12]);
    assert_eq!(r.top_face, 13);
    let top = mesh.get_face_clone(r.top_face).unwrap();
    for (i, id) in top.vertices.iter().enumerate() {
        let v = mesh.get_vertex(*id).unwrap();
        let below = mesh.get_vertex(ids[i]).unwrap();
        assert_eq!((v.x, v.y, v.z), (below.x, below.y, 2.5));
    }
    assert_eq!(mesh.all_faces().len(), 5);
}

#[test]
fn transform_vertices_to_point_edits_relative_to_the_point() {
    let mut mesh: Mesh<f32> = Mesh::default();
    let a = mesh.gen_vertex(3.0, 1.0, 0.0);
    let b = mesh.gen_vertex(1.0, 5.0, 2.0);
    let c = mesh.gen_vertex(9.0, 9.0, 9.0);
    let origin = VectorImpl::new(1.0f32, 1.0f32, 0.0f32);
    mesh.transform_vertices_to_point(
        &origin,
        &[a, 44, b],
        |v: Vertex<f32>| Vertex::new(v.get_id(), v.x * 2.0, v.y * 2.0, v.z * 2.0),
        &minus,
        &plus,
    );
    let va = mesh.get_vertex(a).unwrap();
    assert_eq!((va.get_id(), va.x, va.y, va.z), (a, 5.0, 1.0, 0.0));
    let vb = mesh.get_vertex(b).unwrap();
    assert_eq!((vb.get_id(), vb.x, vb.y, vb.z), (b, 1.0, 9.0, 4.0));
    let vc = mesh.get_vertex(c).unwrap();
    assert_eq!((vc.x, vc.y, vc.z), (9.0, 9.0, 9.0));
    assert!(mesh.get_vertex(44).is_none());
}

#[test]
fn can_extrude_tells_which_faces_extrude() {
    let mut mesh: Mesh<f32> = Mesh::default();
    let a = mesh.gen_vertex(0.0, 0.0, 0.0);
    let good = mesh.gen_face(&[a, a]);
    let empty = mesh.gen_face(&[]);
    let open = mesh.gen_face(&[a, 500]);
    assert!(mesh.can_extrude(good));
    assert!(!mesh.can_extrude(empty));
    assert!(!mesh.can_extrude(open));
    assert!(!mesh.can_extrude(a));
    assert!(!mesh.can_extrude(open + 1));
    assert_eq!(mesh.id_count(), open + 1);
}

#[test]
fn adjacent_extrusions_share_the_cap_vertices() {
    let mut mesh: Mesh<f32> = Mesh::default();
    let (ids, f) = unit_square(&mut mesh);
    let r = mesh.extrude_face(f, &VectorImpl::new(0.0, 0.0, 1.0), &plus).unwrap();
    let mut all = mesh.all_vertices();
    all.sort();
    assert_eq!(all, vec![0, 1, 2, 3, 5, 6, 7, 8]);
    for side in r.side_faces.iter() {
        let face = mesh.get_face(*side).unwrap();
        assert_eq!(face.vertices.len(), 4);
        assert!(ids.contains(&face.vertices[0]));
        assert!(ids.contains(&face.vertices[1]));
    }
    mesh.move_face(r.top_face, &VectorImpl::new(0.0, 0.0, 1.0), &plus);
    for id in mesh.get_face_clone(r.top_face).unwrap().vertices {
        assert_eq!(mesh.get_vertex(id).unwrap().z, 2.0);
    }
    for id in ids {
        assert_eq!(mesh.get_vertex(id).unwrap().z, 0.0);
    }
}

#[test]
fn get_vertex_mut_edits_the_stored_vertex() {
    let mut mesh: Mesh<f32> = Mesh::default();
    let a = mesh.gen_vertex(1.0, 2.0, 3.0);
    assert!(mesh.get_vertex_mut(a + 1).is_none());
    {
        let v = mesh.get_vertex_mut(a).unwrap();
        assert_eq!((v.x, v.y, v.z), (1.0, 2.0, 3.0));
        v.x = 5.0;
        v.z = -1.0;
    }
    let v = mesh.get_vertex(a).unwrap();
    assert_eq!((v.get_id(), v.x, v.y, v.z), (a, 5.0, 2.0, -1.0));
}

#[test]
fn get_face_mut_edits_the_stored_face() {
    let mut mesh: Mesh<f32> = Mesh::default();
    let a = mesh.gen_vertex(1.0, 2.0, 3.0);
    let b = mesh.gen_vertex(1.0, 2.0, 3.0);
    let f = mesh.gen_face(&[a]);
    assert!(mesh.get_face_mut(f + 1).is_none());
    mesh.get_face_mut(f).unwrap().vertices.push(b);
    assert_eq!(mesh.get_face(f).unwrap().vertices, vec![a, b]);
    let mut all = mesh.all_vertices();
    all.sort();
    assert_eq!(all, vec![a, b]);
}

#[test]
fn has_corner_tells_which_faces_have_a_normal() {
    let mut mesh: Mesh<f32> = Mesh::default();
    let a = mesh.gen_vertex(0.0, 0.0, 0.0);
    let b = mesh.gen_vertex(1.0, 0.0, 0.0);
    let c = mesh.gen_vertex(0.0, 1.0, 0.0);
    let good = mesh.gen_face(&[a, b, c, 700]);
    let short = mesh.gen_face(&[a, b]);
    let open = mesh.gen_face(&[a, 700, c]);
    assert!(mesh.has_corner(good));
    assert!(!mesh.has_corner(short));
    assert!(!mesh.has_corner(open));
    assert!(!mesh.has_corner(open + 1));
    assert!(!mesh.can_extrude(good));
}
