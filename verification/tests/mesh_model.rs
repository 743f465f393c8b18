use mpm_core::mesh::create_2d_square_mesh;
use mpm_core::mesh::Connectivity;
use mpm_core::mesh::Quad2dConnectivity;
use mpm_core::rational::Rational;

fn rat(num: i128, den: i128) -> Rational {
    Rational::new(num, den)
}

#[test]
fn square_mesh_two_by_two() {
    let mesh = create_2d_square_mesh(2, 2, rat(1, 1));
    // (2+1)^2 = 9 vertices on {0,1,2} x {0,1,2}, row-major over i then j.
    assert_eq!(mesh.vertices().len(), 9);
    for i in 0..3usize {
        for j in 0..3usize {
            let v = &mesh.vertices()[i * 3 + j];
            assert!(v.x().is_eq(&rat(i as i128, 1)));
            assert!(v.y().is_eq(&rat(j as i128, 1)));
        }
    }
    let v0 = &mesh.vertices()[0];
    assert!(v0.x().is_eq(&rat(0, 1)) && v0.y().is_eq(&rat(0, 1)));
    let v8 = &mesh.vertices()[8];
    assert!(v8.x().is_eq(&rat(2, 1)) && v8.y().is_eq(&rat(2, 1)));
    // Exactly n^2 = 4 quadrilaterals with the fixed index formula.
    assert_eq!(mesh.connectivity().len(), 4);
    for i in 0..2usize {
        for j in 0..2usize {
            let quad = &mesh.connectivity()[i * 2 + j];
            let expect = vec![i * 3 + j, i * 3 + j + 1, (i + 1) * 3 + j, (i + 1) * 3 + j + 1];
            assert_eq!(quad.vertices(), expect);
        }
    }
}

#[test]
fn square_mesh_spacing_scales_coordinates() {
    let mesh = create_2d_square_mesh(2, 3, rat(1, 3));
    assert_eq!(mesh.vertices().len(), 16);
    assert_eq!(mesh.connectivity().len(), 9);
    // Vertex (2, 3) sits at (2/3, 1).
    let v = &mesh.vertices()[2 * 4 + 3];
    assert!(v.x().is_eq(&rat(2, 3)));
    assert!(v.y().is_eq(&rat(1, 1)));
}

#[test]
fn square_mesh_degenerate_zero_cells() {
    let mesh = create_2d_square_mesh(2, 0, rat(1, 1));
    assert_eq!(mesh.vertices().len(), 1);
    assert_eq!(mesh.connectivity().len(), 0);
}

#[test]
fn quad_faces_cycle_and_bounds() {
    let mesh = create_2d_square_mesh(2, 2, rat(1, 1));
    for quad in mesh.connectivity() {
        assert_eq!(quad.num_faces(), 4);
        let corners = quad.vertices();
        assert_eq!(corners.len(), 4);
        let mut faces: Vec<Vec<usize>> = Vec::new();
        for i in 0..4usize {
            let face = quad.get_face_connectivity(i).expect("face in range");
            let ends = face.vertices();
            assert_eq!(ends.len(), 2);
            // Each face joins corner i to corner (i+1) % 4.
            assert_eq!(ends[0], corners[i]);
            assert_eq!(ends[1], corners[(i + 1) % 4]);
            assert!(corners.contains(&ends[0]) && corners.contains(&ends[1]));
            faces.push(ends);
        }
        // The four segments are pairwise distinct.
        for a in 0..4usize {
            for b in 0..4usize {
                if a != b {
                    assert_ne!(faces[a], faces[b]);
                }
            }
        }
        assert!(quad.get_face_connectivity(4).is_none());
        assert!(quad.get_face_connectivity(100).is_none());
    }
}

#[test]
fn terminal_connectivity_is_empty() {
    let t = ();
    assert_eq!(t.num_faces(), 0);
    assert!(Connectivity::vertices(&t).is_empty());
    assert!(t.get_face_connectivity(0).is_none());
    assert!(t.get_face_connectivity(7).is_none());
}

#[test]
fn line_faces_of_quad_have_no_faces() {
    let quad = Quad2dConnectivity::new([4, 5, 6, 7]);
    assert_eq!(quad.vertices(), vec![4, 5, 6, 7]);
    let line = quad.get_face_connectivity(3).expect("face 3 exists");
    assert_eq!(line.vertices(), vec![7, 4]);
    assert_eq!(line.num_faces(), 0);
    assert!(line.get_face_connectivity(0).is_none());
}

#[test]
fn every_referenced_vertex_index_is_in_range() {
    for n in [0usize, 1, 2, 5] {
        let mesh = create_2d_square_mesh(2, n, rat(1, 2));
        let vertex_count = mesh.vertices().len();
        for record in mesh.connectivity() {
            for idx in record.vertices() {
                assert!(idx < vertex_count);
            }
        }
    }
}
