use mesh_to_sdf::{check_mesh_triangle_list, MeshCheckError, VertexKey};

const EXAMPLE_FULL_MESH_INDICES: &[u32] = &[0, 1, 2, 0, 2, 3, 0, 3, 1, 1, 3, 2];
const EXAMPLE_FULL_MESH_VERTICES: &[[f32; 3]] =
    &[[0.0, 0.0, 0.0], [1.0, 0.0, 0.0], [0.0, 1.0, 0.0], [0.0, 0.0, -1.0]];

fn key(v: &[f32; 3]) -> VertexKey {
    VertexKey::from_bits(v[0].to_bits(), v[1].to_bits(), v[2].to_bits())
}

fn keys(vertices: &[[f32; 3]]) -> Vec<VertexKey> {
    vertices.iter().map(key).collect()
}

#[test]
fn test_check_mesh_triangle_list_ok() {
    let vertices = EXAMPLE_FULL_MESH_VERTICES.to_vec();
    let faces = EXAMPLE_FULL_MESH_INDICES.to_vec();

    let result = check_mesh_triangle_list(&keys(&vertices), &faces);
    assert!(
        result.is_ok(),
        "{}",
        format!("Expected mesh to be ok, but got '{:?}'", result.unwrap_err())
    );
}

#[test]
fn test_check_mesh_triangle_list_duplicate_vertices() {
    let mut vertices = EXAMPLE_FULL_MESH_VERTICES.to_vec();
    let last_vertex = vertices[vertices.len() - 1];
    vertices.push(last_vertex); // add a duplicate vertex (not even using it, but still want to fail this check)
    let faces = EXAMPLE_FULL_MESH_INDICES.to_vec();

    let result = check_mesh_triangle_list(&keys(&vertices), &faces);
    assert!(result.is_err(), "Expected mesh to be err, but was ok");
}

#[test]
fn test_check_mesh_triangle_list_duplicate_faces() {
    let vertices = EXAMPLE_FULL_MESH_VERTICES.to_vec();
    let mut faces = EXAMPLE_FULL_MESH_INDICES.to_vec();
    let last_three: Vec<u32> = faces[faces.len() - 3..].to_vec();
    faces.extend_from_slice(&last_three); // make the last face turn up twice

    let result = check_mesh_triangle_list(&keys(&vertices), &faces);
    assert!(result.is_err(), "Expected mesh to be err, but was ok");
}

#[test]
fn test_check_mesh_triangle_list_not_waterproof() {
    let vertices = EXAMPLE_FULL_MESH_VERTICES.to_vec();
    let mut faces = EXAMPLE_FULL_MESH_INDICES.to_vec();
    let final_length = faces.len().saturating_sub(3);
    faces.truncate(final_length); // remove the last face

    let result = check_mesh_triangle_list(&keys(&vertices), &faces);
    assert!(result.is_err(), "Expected mesh to be err, but was ok");
}

#[test]
fn test_check_mesh_triangle_list_reversed_normal() {
    let mut indices = EXAMPLE_FULL_MESH_INDICES.to_vec();
    indices[0] = EXAMPLE_FULL_MESH_INDICES[2]; // reverse the normal of the last face
    indices[1] = EXAMPLE_FULL_MESH_INDICES[1];
    indices[2] = EXAMPLE_FULL_MESH_INDICES[0];
    let vertices = EXAMPLE_FULL_MESH_VERTICES.to_vec();

    let result = check_mesh_triangle_list(&keys(&vertices), &indices);
    assert!(result.is_err(), "Expected mesh to be err, but was ok");
}

#[test]
fn faces_not_multiple_of_three_is_reported_first() {
    // a duplicate vertex too, but the face count is checked first
    let mut vertices = EXAMPLE_FULL_MESH_VERTICES.to_vec();
    vertices.push(vertices[0]);
    let mut faces = EXAMPLE_FULL_MESH_INDICES.to_vec();
    faces.push(0);
    let result = check_mesh_triangle_list(&keys(&vertices), &faces);
    assert_eq!(result, Err(MeshCheckError::FacesNotMultipleOfThree));
}

#[test]
fn duplicate_vertex_reports_the_first_repeat() {
    let vertices = [
        [1.0, 2.0, 3.0],
        [4.0, 5.0, 6.0],
        [4.0, 5.0, 6.0],
        [1.0, 2.0, 3.0],
    ];
    let result = check_mesh_triangle_list(&keys(&vertices), &[]);
    assert_eq!(result, Err(MeshCheckError::DuplicateVertex(key(&[4.0, 5.0, 6.0]))));
}

#[test]
fn duplicate_face_is_reported_with_its_indices() {
    let vertices = EXAMPLE_FULL_MESH_VERTICES.to_vec();
    let mut faces = EXAMPLE_FULL_MESH_INDICES.to_vec();
    faces.extend_from_slice(&[1, 3, 2]);
    let result = check_mesh_triangle_list(&keys(&vertices), &faces);
    assert_eq!(result, Err(MeshCheckError::DuplicateFace(1, 3, 2)));
}

#[test]
fn removed_face_leaves_an_unmatched_edge() {
    let vertices = EXAMPLE_FULL_MESH_VERTICES.to_vec();
    let faces = &EXAMPLE_FULL_MESH_INDICES[..9];
    let result = check_mesh_triangle_list(&keys(&vertices), faces);
    assert_eq!(result, Err(MeshCheckError::NotWaterproof(3, 1)));
}

#[test]
fn reversed_face_gives_a_duplicate_edge() {
    let vertices = EXAMPLE_FULL_MESH_VERTICES.to_vec();
    let mut faces = EXAMPLE_FULL_MESH_INDICES.to_vec();
    faces.swap(0, 2);
    let result = check_mesh_triangle_list(&keys(&vertices), &faces);
    assert_eq!(result, Err(MeshCheckError::DuplicateEdge(2, 1)));
}

#[test]
fn closed_cube_passes() {
    let vertices = [
        [0.0, 0.0, 0.0],
        [1.0, 0.0, 0.0],
        [0.0, 1.0, 0.0],
        [0.0, 0.0, 1.0],
        [1.0, 1.0, 0.0],
        [1.0, 0.0, 1.0],
        [0.0, 1.0, 1.0],
        [1.0, 1.0, 1.0],
    ];
    let faces: Vec<u32> = vec![
        0, 2, 4, 0, 4, 1, 3, 5, 7, 3, 7, 6, 0, 1, 5, 0, 5, 3, 2, 6, 7, 2, 7, 4, 0, 3, 6, 0, 6, 2,
        1, 4, 7, 1, 7, 5,
    ];
    assert_eq!(check_mesh_triangle_list(&keys(&vertices), &faces), Ok(()));
    // every single face taken out breaks it
    for k in 0..faces.len() / 3 {
        let mut open = faces.clone();
        open.drain(3 * k..3 * k + 3);
        assert!(check_mesh_triangle_list(&keys(&vertices), &open).is_err(), "face {k}");
    }
    // every single face turned round breaks it
    for k in 0..faces.len() / 3 {
        let mut turned = faces.clone();
        turned.swap(3 * k, 3 * k + 2);
        assert!(check_mesh_triangle_list(&keys(&vertices), &turned).is_err(), "face {k}");
    }
}

#[test]
fn degenerate_face_is_not_waterproof() {
    let vertices = [[0.0, 0.0, 0.0], [1.0, 0.0, 0.0]];
    let result = check_mesh_triangle_list(&keys(&vertices), &[0, 1, 1]);
    assert_eq!(result, Err(MeshCheckError::NotWaterproof(1, 1)));
}

#[test]
fn empty_mesh_passes() {
    assert_eq!(check_mesh_triangle_list(&[], &[]), Ok(()));
}

#[test]
fn nan_coordinates_compare_equal() {
    let a = VertexKey::from_bits(0x7fc0_0001, 0, 0);
    let b = VertexKey::from_bits(0xffc0_0000, 0, 0);
    assert_eq!(a, b);
    assert_eq!(a.x, 0x7fc0_0000);
    assert_eq!(check_mesh_triangle_list(&[a, b], &[]), Err(MeshCheckError::DuplicateVertex(a)));
    // infinities are no NaN
    let inf = VertexKey::from_bits(f32::INFINITY.to_bits(), 0, 0);
    assert_eq!(inf.x, f32::INFINITY.to_bits());
}

#[test]
fn signed_zeros_are_distinct_vertices() {
    let vertices = [[0.0, 0.0, 0.0], [-0.0, 0.0, 0.0]];
    assert_eq!(check_mesh_triangle_list(&keys(&vertices), &[]), Ok(()));
}

#[test]
fn rotated_copy_of_a_face_is_not_a_duplicate_face() {
    // (2, 3, 4) and (3, 4, 2) are the same triangle written from another corner: the
    // face check compares index triples, and the edge pass only looks at the last
    // copy of each directed edge, so this mesh passes.
    let vertices: Vec<[f32; 3]> = (0..5).map(|i| [i as f32, 0.0, 0.0]).collect();
    let faces = [2, 3, 4, 3, 4, 2, 0, 3, 2, 0, 4, 3, 0, 2, 4];
    assert_eq!(check_mesh_triangle_list(&keys(&vertices), &faces), Ok(()));
}
