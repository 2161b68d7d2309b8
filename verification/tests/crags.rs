use bof::icosphere::{icosphere, triangles_for, CORNERS, MAX_SUBDIVISIONS};

#[test]
fn the_declared_triangle_count_matches_the_mesh() {
    for subdivisions in [0, 1, 2, 3, 4] {
        let mesh = icosphere(subdivisions);
        assert_eq!(mesh.indices.len() / 3, triangles_for(subdivisions));
    }
}

#[test]
fn every_index_names_a_vertex_and_every_midpoint_an_earlier_pair() {
    for subdivisions in 0..=3 {
        let mesh = icosphere(subdivisions);
        let vertices = CORNERS + mesh.midpoints.len();
        assert!(mesh.indices.iter().all(|i| *i < vertices));
        for (m, (a, b)) in mesh.midpoints.iter().enumerate() {
            assert!(*a < CORNERS + m && *b < CORNERS + m);
            assert_ne!(a, b);
        }
    }
}

#[test]
fn one_split_turns_each_face_into_four() {
    let mesh = icosphere(1);
    assert_eq!(mesh.midpoints.len(), 60);
    // The first face (0, 11, 5) with midpoints 12 (0-11), 13 (11-5), 14 (5-0).
    assert_eq!(&mesh.midpoints[..3], &[(0, 11), (11, 5), (5, 0)]);
    assert_eq!(&mesh.indices[..12], &[0, 12, 14, 11, 13, 12, 5, 14, 13, 12, 13, 14]);
}

#[test]
fn the_unsplit_icosphere_is_the_icosahedron() {
    let mesh = icosphere(0);
    assert!(mesh.midpoints.is_empty());
    assert_eq!(mesh.indices.len(), 60);
    assert_eq!(&mesh.indices[..6], &[0, 11, 5, 0, 5, 1]);
    assert!(MAX_SUBDIVISIONS >= 4);
}

#[test]
fn each_split_quadruples_the_declared_triangles() {
    assert_eq!(triangles_for(0), 20);
    assert_eq!(triangles_for(3), 1280);
    assert_eq!(triangles_for(4), 20 * 4_usize.pow(4));
}
