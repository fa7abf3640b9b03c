use mesh_to_sdf::rtree_bvh::{build_rtree_bvh_nodes, inside_by_ray_votes};
use mesh_to_sdf::{AccelerationMethod, SignMethod, Topology};

fn bounds(a: &[f32; 3], b: &[f32; 3], c: &[f32; 3]) -> ([f32; 3], [f32; 3]) {
    let mut lo = *a;
    let mut hi = *a;
    for p in [b, c] {
        for i in 0..3 {
            lo[i] = lo[i].min(p[i]);
            hi[i] = hi[i].max(p[i]);
        }
    }
    (lo, hi)
}

#[test]
fn nodes_follow_the_triangles() {
    let vertices = [[0.0, 0.0, 0.0], [1.0, 0.0, 0.0], [0.0, 1.0, 0.0], [0.0, 0.0, -1.0]];
    let indices: Vec<u32> = vec![0, 1, 2, 0, 2, 3, 0, 3, 1, 1, 3, 2];
    let nodes = build_rtree_bvh_nodes(&vertices, Topology::TriangleList(Some(&indices)), bounds)
        .expect("four triangles");
    assert_eq!(nodes.len(), 4);
    assert_eq!(nodes[1].vertex_indices(), (0, 2, 3));
    assert_eq!(*nodes[1].vertices(), (vertices[0], vertices[2], vertices[3]));
    assert_eq!(*nodes[1].bounding_box(), ([0.0, 0.0, -1.0], [0.0, 1.0, 0.0]));
    assert_eq!(nodes[3].bh_node_index(), 0);
}

#[test]
fn no_triangles_no_nodes() {
    let vertices = [[0.0f32, 0.0, 0.0], [1.0, 0.0, 0.0]];
    assert!(build_rtree_bvh_nodes(&vertices, Topology::<u32>::TriangleStrip(None), bounds).is_none());
}

#[test]
fn node_index_can_be_set() {
    let vertices = [[0.0f32, 0.0, 0.0], [1.0, 0.0, 0.0], [0.0, 1.0, 0.0]];
    let mut nodes = build_rtree_bvh_nodes(&vertices, Topology::<u16>::TriangleList(None), bounds).unwrap();
    nodes[0].set_bh_node_index(7);
    assert_eq!(nodes[0].bh_node_index(), 7);
    assert_eq!(nodes[0].vertex_indices(), (0, 1, 2));
    let copy = nodes[0].clone();
    assert_eq!(copy.bh_node_index(), 7);
}

#[test]
fn two_odd_rays_make_inside() {
    assert!(inside_by_ray_votes(1, 1, 0));
    assert!(inside_by_ray_votes(3, 2, 5));
    assert!(inside_by_ray_votes(1, 1, 1));
    assert!(!inside_by_ray_votes(1, 0, 0));
    assert!(!inside_by_ray_votes(0, 2, 4));
}

#[test]
fn default_methods() {
    assert_eq!(SignMethod::default(), SignMethod::Raycast);
    assert_eq!(AccelerationMethod::default(), AccelerationMethod::RtreeBvh);
    assert!(AccelerationMethod::NoAcceleration(SignMethod::Raycast) < AccelerationMethod::Rtree);
}
