use mesh_to_sdf::{OwnedTopology, Topology};

#[test]
fn list_without_indices_takes_vertices_three_by_three() {
    let vertices = [0u8; 6];
    let triangles = Topology::<u32>::get_triangles(&vertices, Topology::TriangleList(None));
    assert_eq!(triangles, vec![(0, 1, 2), (3, 4, 5)]);
}

#[test]
fn strip_without_indices_takes_adjacent_vertices() {
    let vertices = [0u8; 6];
    let triangles = Topology::<u32>::get_triangles(&vertices, Topology::TriangleStrip(None));
    assert_eq!(triangles, vec![(0, 1, 2), (1, 2, 3), (2, 3, 4), (3, 4, 5)]);
}

#[test]
fn list_with_indices() {
    let vertices = [0u8; 4];
    let indices: Vec<u16> = vec![0, 1, 2, 0, 2, 3, 0, 3, 1, 1, 3, 2];
    let triangles = Topology::get_triangles(&vertices, Topology::TriangleList(Some(&indices)));
    assert_eq!(triangles, vec![(0, 1, 2), (0, 2, 3), (0, 3, 1), (1, 3, 2)]);
}

#[test]
fn strip_with_indices() {
    let vertices = [0u8; 10];
    let indices: Vec<u32> = vec![9, 7, 5, 3];
    let triangles = Topology::get_triangles(&vertices, Topology::TriangleStrip(Some(&indices)));
    assert_eq!(triangles, vec![(9, 7, 5), (7, 5, 3)]);
    let short: Vec<u32> = vec![1, 2];
    let triangles = Topology::get_triangles(&vertices, Topology::TriangleStrip(Some(&short)));
    assert!(triangles.is_empty());
}

#[test]
fn owned_topology_round_trip() {
    let vertices = [0u8; 5];
    let indices: Vec<u8> = vec![4, 3, 2, 1, 0];
    let topology = Topology::TriangleStrip(Some(&indices[..]));
    let owned = topology.convert_to_owned();
    match &owned {
        OwnedTopology::OwnedTriangleStrip(Some(copy)) => assert_eq!(copy, &indices),
        _ => panic!("the strip must stay a strip with its indices"),
    }
    let back = owned.as_topology();
    assert_eq!(
        Topology::get_triangles(&vertices, back),
        Topology::get_triangles(&vertices, topology)
    );
    assert_eq!(
        Topology::get_triangles(&vertices, back),
        vec![(4, 3, 2), (3, 2, 1), (2, 1, 0)]
    );

    let list: Topology<u32> = Topology::TriangleList(None);
    match list.convert_to_owned() {
        OwnedTopology::OwnedTriangleList(None) => {}
        _ => panic!("a list without indices must stay so"),
    }
}
