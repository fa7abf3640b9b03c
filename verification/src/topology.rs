//! Mesh topology: how the triangles of a mesh are read from its indices.
use vstd::prelude::*;

use itertools::Itertools;

verus! {

/// An index type of a mesh: a value that names a vertex.
pub trait MeshIndex: Copy {
    /// The vertex position this index names.
    spec fn index_value(self) -> usize;

    /// The vertex position this index names.
    fn to_index(self) -> (index: usize)
        ensures
            index == self.index_value(),
    ;
}

impl MeshIndex for u8 {
    open spec fn index_value(self) -> usize {
        self as usize
    }

    fn to_index(self) -> (index: usize)
        ensures
            index as int == self as int,
    {
        self as usize
    }
}

impl MeshIndex for u16 {
    open spec fn index_value(self) -> usize {
        self as usize
    }

    fn to_index(self) -> (index: usize)
        ensures
            index as int == self as int,
    {
        self as usize
    }
}

impl MeshIndex for u32 {
    open spec fn index_value(self) -> usize {
        self as usize
    }

    fn to_index(self) -> (index: usize)
        ensures
            index as int == self as int,
    {
        self as usize
    }
}

/// Mesh Topology: how indices are stored.
#[derive(Copy, Clone)]
pub enum Topology<'a, I> {
    /// Vertex data is a list of triangles. Each set of 3 vertices composes a new triangle.
    ///
    /// Vertices `0 1 2 3 4 5` create two triangles `0 1 2` and `3 4 5`
    /// If no indices are provided, they are supposed to be `0..vertices.len()`
    TriangleList(Option<&'a [I]>),
    /// Vertex data is a triangle strip. Each set of three adjacent vertices form a triangle.
    ///
    /// Vertices `0 1 2 3 4 5` create four triangles `0 1 2`, `1 2 3`, `2 3 4`, and `3 4 5`
    /// If no indices are provided, they are supposed to be `0..vertices.len()`
    TriangleStrip(Option<&'a [I]>),
}

/// Owned version of Topology that doesn't require lifetime parameters.
#[derive(Clone)]
pub enum OwnedTopology<I> {
    /// The same as a `TriangleList` but with indices owned.
    OwnedTriangleList(Option<Vec<I>>),
    /// The same as a `TriangleStrip` but with indices owned.
    OwnedTriangleStrip(Option<Vec<I>>),
}

/// What a topology is: a list or a strip, with or without its indices.
pub enum TopologyModel<I> {
    List(Option<Seq<I>>),
    Strip(Option<Seq<I>>),
}

impl<'a, I> View for Topology<'a, I> {
    type V = TopologyModel<I>;

    open spec fn view(&self) -> TopologyModel<I> {
        match *self {
            Topology::TriangleList(Some(s)) => TopologyModel::List(Some(s@)),
            Topology::TriangleList(None) => TopologyModel::List(None),
            Topology::TriangleStrip(Some(s)) => TopologyModel::Strip(Some(s@)),
            Topology::TriangleStrip(None) => TopologyModel::Strip(None),
        }
    }
}

impl<I> View for OwnedTopology<I> {
    type V = TopologyModel<I>;

    open spec fn view(&self) -> TopologyModel<I> {
        match *self {
            OwnedTopology::OwnedTriangleList(Some(v)) => TopologyModel::List(Some(v@)),
            OwnedTopology::OwnedTriangleList(None) => TopologyModel::List(None),
            OwnedTopology::OwnedTriangleStrip(Some(v)) => TopologyModel::Strip(Some(v@)),
            OwnedTopology::OwnedTriangleStrip(None) => TopologyModel::Strip(None),
        }
    }
}

/// Consecutive triples `(s[3k], s[3k + 1], s[3k + 2])`; a last incomplete group is
/// left out.
pub open spec fn triple_groups(s: Seq<usize>) -> Seq<(usize, usize, usize)> {
    Seq::new((s.len() / 3) as nat, |k: int| (s[3 * k], s[3 * k + 1], s[3 * k + 2]))
}

/// All windows `(s[k], s[k + 1], s[k + 2])` of three adjacent values.
pub open spec fn triple_windows(s: Seq<usize>) -> Seq<(usize, usize, usize)> {
    Seq::new(
        if s.len() >= 2 {
            (s.len() - 2) as nat
        } else {
            0
        },
        |k: int| (s[k], s[k + 1], s[k + 2]),
    )
}

/// The vertex positions named by `indices`.
pub open spec fn index_values<I: MeshIndex>(indices: Seq<I>) -> Seq<usize> {
    Seq::new(indices.len(), |i: int| indices[i].index_value())
}

/// The positions `0, 1, ..., n - 1`.
pub open spec fn vertex_order(n: nat) -> Seq<usize> {
    Seq::new(n, |i: int| i as usize)
}

/// The triangles (triples of vertex positions) of a mesh with `vertex_count`
/// vertices and topology `t`.
pub open spec fn topology_triangles<I: MeshIndex>(vertex_count: nat, t: TopologyModel<I>) -> Seq<
    (usize, usize, usize),
> {
    match t {
        TopologyModel::List(Some(s)) => triple_groups(index_values(s)),
        TopologyModel::List(None) => triple_groups(vertex_order(vertex_count)),
        TopologyModel::Strip(Some(s)) => triple_windows(index_values(s)),
        TopologyModel::Strip(None) => triple_windows(vertex_order(vertex_count)),
    }
}

/// The topology can be read with `vertex_count` vertices: a list's indices, or its
/// vertices when it has no indices, come in whole triangles.
pub open spec fn topology_readable<I>(vertex_count: nat, t: TopologyModel<I>) -> bool {
    match t {
        TopologyModel::List(Some(s)) => s.len() % 3 == 0,
        TopologyModel::List(None) => vertex_count % 3 == 0,
        _ => true,
    }
}

/// Groups `values` into consecutive triples with `Itertools::tuples`.
#[verifier::external_body]
fn tuples_of_three(values: Vec<usize>) -> (triples: Vec<(usize, usize, usize)>)
    ensures
        triples@ == triple_groups(values@),
{
    values.into_iter().tuples().collect()
}

/// The windows of three adjacent values, from `Itertools::tuple_windows`.
#[verifier::external_body]
fn tuple_windows_of_three(values: Vec<usize>) -> (windows: Vec<(usize, usize, usize)>)
    ensures
        windows@ == triple_windows(values@),
{
    values.into_iter().tuple_windows().collect()
}

fn collect_index_values<I: MeshIndex>(indices: &[I]) -> (values: Vec<usize>)
    ensures
        values@ == index_values(indices@),
{
    let mut values: Vec<usize> = Vec::new();
    let n = indices.len();
    let mut i: usize = 0;
    while i < n
        invariant
            n == indices@.len(),
            i <= n,
            values@ =~= index_values(indices@).take(i as int),
        decreases n - i,
    {
        values.push(indices[i].to_index());
        i = i + 1;
    }
    values
}

fn collect_vertex_order(n: usize) -> (values: Vec<usize>)
    ensures
        values@ == vertex_order(n as nat),
{
    let mut values: Vec<usize> = Vec::new();
    let mut i: usize = 0;
    while i < n
        invariant
            i <= n,
            values@ =~= vertex_order(n as nat).take(i as int),
        decreases n - i,
    {
        values.push(i);
        i = i + 1;
    }
    values
}

fn copy_indices<I: MeshIndex>(indices: &[I]) -> (copy: Vec<I>)
    ensures
        copy@ == indices@,
{
    let mut copy: Vec<I> = Vec::new();
    let n = indices.len();
    let mut i: usize = 0;
    while i < n
        invariant
            n == indices@.len(),
            i <= n,
            copy@ =~= indices@.take(i as int),
        decreases n - i,
    {
        copy.push(indices[i]);
        i = i + 1;
    }
    copy
}

impl<'a, I: MeshIndex> Topology<'a, I> {
    /// Computes the triangles of a mesh: the triples of vertex positions that make
    /// up each triangle, in order.
    ///
    /// A list without indices must have a number of vertices that is a multiple of
    /// 3, and a list with indices a number of indices that is a multiple of 3.
    pub fn get_triangles<V>(vertices: &'a [V], indices: Self) -> (triangles: Vec<
        (usize, usize, usize),
    >)
        requires
            topology_readable(vertices@.len(), indices@),
        ensures
            triangles@ == topology_triangles(vertices@.len(), indices@),
    {
        match indices {
            Topology::TriangleList(Some(indices)) => tuples_of_three(collect_index_values(indices)),
            Topology::TriangleList(None) => tuples_of_three(collect_vertex_order(vertices.len())),
            Topology::TriangleStrip(Some(indices)) => tuple_windows_of_three(
                collect_index_values(indices),
            ),
            Topology::TriangleStrip(None) => tuple_windows_of_three(
                collect_vertex_order(vertices.len()),
            ),
        }
    }

    /// The same topology with its indices copied into an owned vector.
    pub fn convert_to_owned(self) -> (owned: OwnedTopology<I>)
        ensures
            owned@ == self@,
    {
        match self {
            Topology::TriangleList(Some(indices)) => OwnedTopology::OwnedTriangleList(
                Some(copy_indices(indices)),
            ),
            Topology::TriangleList(None) => OwnedTopology::OwnedTriangleList(None),
            Topology::TriangleStrip(Some(indices)) => OwnedTopology::OwnedTriangleStrip(
                Some(copy_indices(indices)),
            ),
            Topology::TriangleStrip(None) => OwnedTopology::OwnedTriangleStrip(None),
        }
    }
}

impl<I: MeshIndex> OwnedTopology<I> {
    /// A borrowed view of the same topology.
    pub fn as_topology(&self) -> (topology: Topology<'_, I>)
        ensures
            topology@ == self@,
    {
        match self {
            OwnedTopology::OwnedTriangleList(Some(indices)) => Topology::TriangleList(
                Some(indices.as_slice()),
            ),
            OwnedTopology::OwnedTriangleList(None) => Topology::TriangleList(None),
            OwnedTopology::OwnedTriangleStrip(Some(indices)) => Topology::TriangleStrip(
                Some(indices.as_slice()),
            ),
            OwnedTopology::OwnedTriangleStrip(None) => Topology::TriangleStrip(None),
        }
    }
}

/// A topology without indices reads its vertices in order: it gives the same
/// triangles as indices `0, 1, ..., vertex_count - 1` would.
pub proof fn lemma_missing_indices_are_vertex_order<I: MeshIndex>(
    vertex_count: nat,
    indices: Seq<I>,
)
    requires
        indices.len() == vertex_count,
        forall|i: int| 0 <= i < indices.len() ==> #[trigger] indices[i].index_value() == i,
    ensures
        topology_triangles(vertex_count, TopologyModel::<I>::List(None)) == topology_triangles(
            vertex_count,
            TopologyModel::List(Some(indices)),
        ),
        topology_triangles(vertex_count, TopologyModel::<I>::Strip(None)) == topology_triangles(
            vertex_count,
            TopologyModel::Strip(Some(indices)),
        ),
{
    assert(index_values(indices) =~= vertex_order(vertex_count));
}

/// A list of `n` indices gives `n / 3` triangles and a strip gives `n - 2` (none
/// when `n < 3`); triangle `k` of a list is indices `3k, 3k + 1, 3k + 2`, and of a
/// strip indices `k, k + 1, k + 2`.
pub proof fn lemma_triangle_counts<I: MeshIndex>(indices: Seq<I>, vertex_count: nat)
    ensures
        topology_triangles(vertex_count, TopologyModel::List(Some(indices))).len() == indices.len()
            / 3,
        topology_triangles(vertex_count, TopologyModel::Strip(Some(indices))).len() == if indices.len()
            >= 3 {
            indices.len() - 2
        } else {
            0
        },
        forall|k: int|
            0 <= k < indices.len() / 3 ==> #[trigger] topology_triangles(
                vertex_count,
                TopologyModel::List(Some(indices)),
            )[k] == (
                indices[3 * k].index_value(),
                indices[3 * k + 1].index_value(),
                indices[3 * k + 2].index_value(),
            ),
        forall|k: int|
            0 <= k < indices.len() - 2 ==> #[trigger] topology_triangles(
                vertex_count,
                TopologyModel::Strip(Some(indices)),
            )[k] == (
                indices[k].index_value(),
                indices[k + 1].index_value(),
                indices[k + 2].index_value(),
            ),
{
}

/// An index of type `u8`, `u16` or `u32` names the vertex position equal to its
/// integer value: no index is truncated or changed.
pub proof fn lemma_index_value_is_the_integer()
    ensures
        forall|i: u8| #[trigger] i.index_value() as int == i as int,
        forall|i: u16| #[trigger] i.index_value() as int == i as int,
        forall|i: u32| #[trigger] i.index_value() as int == i as int,
{
}

/// The triangles of a `u32` (or `u16`) index list are the index triples themselves,
/// read as integers.
pub proof fn lemma_list_triangles_are_index_triples(indices: Seq<u32>, small: Seq<u16>, vertex_count: nat)
    ensures
        forall|k: int|
            0 <= k < indices.len() / 3 ==> {
                let t = #[trigger] topology_triangles(
                    vertex_count,
                    TopologyModel::List(Some(indices)),
                )[k];
                &&& t.0 as int == indices[3 * k] as int
                &&& t.1 as int == indices[3 * k + 1] as int
                &&& t.2 as int == indices[3 * k + 2] as int
            },
        forall|k: int|
            0 <= k < small.len() / 3 ==> {
                let t = #[trigger] topology_triangles(
                    vertex_count,
                    TopologyModel::List(Some(small)),
                )[k];
                &&& t.0 as int == small[3 * k] as int
                &&& t.1 as int == small[3 * k + 1] as int
                &&& t.2 as int == small[3 * k + 2] as int
            },
        forall|k: int|
            0 <= k < indices.len() - 2 ==> {
                let t = #[trigger] topology_triangles(
                    vertex_count,
                    TopologyModel::Strip(Some(indices)),
                )[k];
                &&& t.0 as int == indices[k] as int
                &&& t.1 as int == indices[k + 1] as int
                &&& t.2 as int == indices[k + 2] as int
            },
{
}

} // verus!
