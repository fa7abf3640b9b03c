//! The mesh side of the r-tree and bvh acceleration: one node per triangle, and
//! the inside/outside vote of the three axis-aligned rays.
use vstd::prelude::*;

use crate::topology::{topology_readable, topology_triangles, MeshIndex, Topology};

verus! {

/// `RtreeBvhNode` is a node for the r-tree and bvh acceleration structures: one
/// triangle of the mesh.
pub struct RtreeBvhNode<V> {
    vertices: (V, V, V),
    vertex_indices: (usize, usize, usize),
    bounding_box: (V, V),
    node_index: usize,
}

impl<V: Copy> Clone for RtreeBvhNode<V> {
    fn clone(&self) -> (copy: Self)
        ensures
            copy == *self,
    {
        RtreeBvhNode {
            vertices: self.vertices,
            vertex_indices: self.vertex_indices,
            bounding_box: self.bounding_box,
            node_index: self.node_index,
        }
    }
}

impl<V> RtreeBvhNode<V> {
    /// The three corners of the triangle.
    pub closed spec fn corners(self) -> (V, V, V) {
        self.vertices
    }

    /// The vertex positions of the three corners.
    pub closed spec fn corner_indices(self) -> (usize, usize, usize) {
        self.vertex_indices
    }

    /// The box (lowest corner, highest corner) that holds the triangle.
    pub closed spec fn bounds(self) -> (V, V) {
        self.bounding_box
    }

    /// The index of the node in the bounding volume hierarchy.
    pub closed spec fn hierarchy_index(self) -> usize {
        self.node_index
    }

    /// A node for the triangle with corners `vertices` at positions `vertex_indices`,
    /// held by `bounding_box`, at hierarchy index `node_index`.
    pub fn new(
        vertices: (V, V, V),
        vertex_indices: (usize, usize, usize),
        bounding_box: (V, V),
        node_index: usize,
    ) -> (node: Self)
        ensures
            node.corners() == vertices,
            node.corner_indices() == vertex_indices,
            node.bounds() == bounding_box,
            node.hierarchy_index() == node_index,
    {
        RtreeBvhNode { vertices, vertex_indices, bounding_box, node_index }
    }

    /// The three corners of the triangle.
    pub fn vertices(&self) -> (corners: &(V, V, V))
        ensures
            *corners == self.corners(),
    {
        &self.vertices
    }

    /// The vertex positions of the three corners.
    pub fn vertex_indices(&self) -> (indices: (usize, usize, usize))
        ensures
            indices == self.corner_indices(),
    {
        self.vertex_indices
    }

    /// The box (lowest corner, highest corner) that holds the triangle.
    pub fn bounding_box(&self) -> (bounds: &(V, V))
        ensures
            *bounds == self.bounds(),
    {
        &self.bounding_box
    }

    /// Records the index of the node in the bounding volume hierarchy.
    pub fn set_bh_node_index(&mut self, index: usize)
        ensures
            final(self).hierarchy_index() == index,
            final(self).corners() == old(self).corners(),
            final(self).corner_indices() == old(self).corner_indices(),
            final(self).bounds() == old(self).bounds(),
    {
        self.node_index = index;
    }

    /// The index of the node in the bounding volume hierarchy.
    pub fn bh_node_index(&self) -> (index: usize)
        ensures
            index == self.hierarchy_index(),
    {
        self.node_index
    }
}

/// Every triangle names vertices that exist.
pub open spec fn triangles_in_range(triangles: Seq<(usize, usize, usize)>, vertex_count: nat) -> bool {
    forall|k: int|
        0 <= k < triangles.len() ==> {
            &&& (#[trigger] triangles[k]).0 < vertex_count
            &&& triangles[k].1 < vertex_count
            &&& triangles[k].2 < vertex_count
        }
}

/// `node` stands for the triangle `t` of the mesh `vertices`, with the box that
/// `bounding_box` gives for its corners, and hierarchy index 0.
pub open spec fn node_for_triangle<V, F: Fn(&V, &V, &V) -> (V, V)>(
    node: RtreeBvhNode<V>,
    vertices: Seq<V>,
    t: (usize, usize, usize),
    bounding_box: F,
) -> bool {
    &&& node.corner_indices() == t
    &&& node.corners() == (vertices[t.0 as int], vertices[t.1 as int], vertices[t.2 as int])
    &&& call_ensures(
        bounding_box,
        (&vertices[t.0 as int], &vertices[t.1 as int], &vertices[t.2 as int]),
        node.bounds(),
    )
    &&& node.hierarchy_index() == 0
}

/// Builds one node per triangle of the mesh, in triangle order, each holding the
/// corners of its triangle, their vertex positions and the box that `bounding_box`
/// computes for them. A mesh without triangles gives `None`.
pub fn build_rtree_bvh_nodes<V: Copy, I: MeshIndex, F: Fn(&V, &V, &V) -> (V, V)>(
    vertices: &[V],
    indices: Topology<I>,
    bounding_box: F,
) -> (nodes: Option<Vec<RtreeBvhNode<V>>>)
    requires
        topology_readable(vertices@.len(), indices@),
        triangles_in_range(topology_triangles(vertices@.len(), indices@), vertices@.len()),
        forall|a: &V, b: &V, c: &V| call_requires(bounding_box, (a, b, c)),
    ensures
        nodes is None <==> topology_triangles(vertices@.len(), indices@).len() == 0,
        nodes matches Some(nodes) ==> {
            let t = topology_triangles(vertices@.len(), indices@);
            &&& nodes@.len() == t.len()
            &&& forall|k: int|
                0 <= k < t.len() ==> node_for_triangle(
                    #[trigger] nodes@[k],
                    vertices@,
                    t[k],
                    bounding_box,
                )
        },
{
    let triangles = Topology::get_triangles(vertices, indices);
    let ghost t = topology_triangles(vertices@.len(), indices@);
    let n = triangles.len();
    let mut nodes: Vec<RtreeBvhNode<V>> = Vec::new();
    let mut k: usize = 0;
    while k < n
        invariant
            triangles@ == t,
            n == t.len(),
            k <= n,
            triangles_in_range(t, vertices@.len()),
            forall|a: &V, b: &V, c: &V| call_requires(bounding_box, (a, b, c)),
            nodes@.len() == k,
            forall|j: int|
                0 <= j < k ==> node_for_triangle(#[trigger] nodes@[j], vertices@, t[j], bounding_box),
        decreases n - k,
    {
        let triangle = triangles[k];
        assert(t[k as int] == triangle);
        let a = vertices[triangle.0];
        let b = vertices[triangle.1];
        let c = vertices[triangle.2];
        let bounds = bounding_box(&a, &b, &c);
        nodes.push(
            RtreeBvhNode {
                vertices: (a, b, c),
                vertex_indices: triangle,
                bounding_box: bounds,
                node_index: 0,
            },
        );
        k = k + 1;
    }
    if nodes.len() == 0 {
        None
    } else {
        Some(nodes)
    }
}

/// The number of odd values among three ray intersection counts.
pub open spec fn odd_votes(x_count: usize, y_count: usize, z_count: usize) -> int {
    (if x_count % 2 == 1 {
        1int
    } else {
        0
    }) + (if y_count % 2 == 1 {
        1int
    } else {
        0
    }) + (if z_count % 2 == 1 {
        1int
    } else {
        0
    })
}

/// The sign vote of the raycast method. A ray along each axis is cast from the
/// query point; a ray that crosses the mesh an odd number of times votes for
/// inside. The point is inside when at least two of the three rays vote so.
pub fn inside_by_ray_votes(x_count: usize, y_count: usize, z_count: usize) -> (inside: bool)
    ensures
        inside == (odd_votes(x_count, y_count, z_count) >= 2),
        inside == ((x_count % 2) + (y_count % 2) + (z_count % 2) >= 2),
{
    let mut insides: usize = 0;
    if x_count % 2 == 1 {
        insides = insides + 1;
    }
    if y_count % 2 == 1 {
        insides = insides + 1;
    }
    if z_count % 2 == 1 {
        insides = insides + 1;
    }
    insides > 1
}

/// A ray's vote depends only on the parity of its intersection count, the same way
/// for all three rays: the vote is inside exactly when at least two counts are odd,
/// it does not change when a ray crosses the mesh twice more, and it does not depend
/// on which axis a count belongs to.
pub proof fn lemma_votes_follow_parity(x: usize, y: usize, z: usize)
    ensures
        (odd_votes(x, y, z) >= 2) == ((x % 2) + (y % 2) + (z % 2) >= 2),
        x + 2 <= usize::MAX ==> odd_votes((x + 2) as usize, y, z) == odd_votes(x, y, z),
        y + 2 <= usize::MAX ==> odd_votes(x, (y + 2) as usize, z) == odd_votes(x, y, z),
        z + 2 <= usize::MAX ==> odd_votes(x, y, (z + 2) as usize) == odd_votes(x, y, z),
        odd_votes(x, y, z) == odd_votes(y, x, z),
        odd_votes(x, y, z) == odd_votes(x, z, y),
        odd_votes(x, y, z) == odd_votes(z, y, x),
        odd_votes(x, y, z) == (x % 2) + (y % 2) + (z % 2),
{
}

} // verus!
