# mesh_to_sdf

Mesh topology handling and mesh validation for signed distance field generation,
verified with Verus.

- `src/` is the verified library: reading triangles from list and strip topologies,
  the watertightness check of a triangle list together with the laws that say what a
  passing check means, the triangle nodes of the r-tree/bvh acceleration, and the
  three-ray inside/outside vote.
- `app/` holds the `f32` side: turning float vertices into the keys the check
  compares, the text of the check's refusals, the float comparison of distances, and
  the r-tree and bvh built over the library's triangle nodes.
- `tests/` runs the library on concrete meshes.
