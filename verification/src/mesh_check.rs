//! Mesh checking: a triangle list is accepted when it has no duplicate vertices or
//! faces and every directed edge `a -> b` is matched by an edge `b -> a`.
//!
//! Vertices are compared by the bit patterns of their three `f32` coordinates, with
//! every NaN pattern counted as one value, which is exactly when their `{:?}`
//! renderings agree.
use vstd::prelude::*;

verus! {

/// `bits` is the pattern of an `f32` NaN: exponent field all ones, fraction not zero.
pub open spec fn is_nan_bits(bits: u32) -> bool {
    &&& (bits / 0x80_0000) % 0x100 == 0xff
    &&& bits % 0x80_0000 != 0
}

/// The pattern that stands for a coordinate when vertices are compared: NaNs are
/// all mapped to one quiet NaN, every other pattern is kept.
pub open spec fn canonical_bits(bits: u32) -> u32 {
    if is_nan_bits(bits) {
        0x7fc0_0000
    } else {
        bits
    }
}

/// A vertex as the mesh check sees it: the bit patterns of its coordinates.
#[derive(Clone, Copy, Debug, PartialEq, Eq, Structural)]
pub struct VertexKey {
    pub x: u32,
    pub y: u32,
    pub z: u32,
}

fn canonical_component(bits: u32) -> (c: u32)
    ensures
        c == canonical_bits(bits),
        !((bits / 0x80_0000) % 0x100 == 0xff && bits % 0x80_0000 != 0) ==> c == bits,
{
    if (bits / 0x80_0000) % 0x100 == 0xff && bits % 0x80_0000 != 0 {
        0x7fc0_0000
    } else {
        bits
    }
}

impl VertexKey {
    /// The key of the vertex whose coordinates have the bit patterns `x`, `y`, `z`
    /// (as given by `f32::to_bits`).
    pub fn from_bits(x: u32, y: u32, z: u32) -> (key: VertexKey)
        ensures
            key.x == canonical_bits(x),
            key.y == canonical_bits(y),
            key.z == canonical_bits(z),
            !((x / 0x80_0000) % 0x100 == 0xff && x % 0x80_0000 != 0) ==> key.x == x,
            !((y / 0x80_0000) % 0x100 == 0xff && y % 0x80_0000 != 0) ==> key.y == y,
            !((z / 0x80_0000) % 0x100 == 0xff && z % 0x80_0000 != 0) ==> key.z == z,
    {
        VertexKey { x: canonical_component(x), y: canonical_component(y), z: canonical_component(z) }
    }
}

/// Why a mesh was refused by [`check_mesh_triangle_list`].
#[derive(Clone, Copy, Debug, PartialEq, Eq, Structural)]
pub enum MeshCheckError {
    /// The number of face indices is not a multiple of 3.
    FacesNotMultipleOfThree,
    /// This vertex occurs more than once.
    DuplicateVertex(VertexKey),
    /// The face with these three indices occurs more than once.
    DuplicateFace(u32, u32, u32),
    /// The directed edge `a -> b` occurs more than once.
    DuplicateEdge(u32, u32),
    /// The directed edge `a -> b` has no matching edge `b -> a`.
    NotWaterproof(u32, u32),
}

/// `s[j]` equals an element before it.
pub open spec fn repeats_earlier<T>(s: Seq<T>, j: int) -> bool {
    &&& 0 <= j < s.len()
    &&& exists|i: int| 0 <= i < j && s[i] == s[j]
}

/// `j` is the first position of `s` that repeats an earlier element.
pub open spec fn is_first_repeat<T>(s: Seq<T>, j: int) -> bool {
    &&& repeats_earlier(s, j)
    &&& forall|k: int| 0 <= k < j ==> !#[trigger] repeats_earlier(s, k)
}

/// Some element of `s` occurs twice.
pub open spec fn has_repeat<T>(s: Seq<T>) -> bool {
    exists|j: int| repeats_earlier(s, j)
}

/// The first position of `s` that repeats an earlier element (meaningful when
/// `has_repeat(s)`).
pub open spec fn first_repeat<T>(s: Seq<T>) -> int {
    choose|j: int| is_first_repeat(s, j)
}

/// The faces of a triangle list: consecutive triples of indices.
pub open spec fn face_triples(faces: Seq<u32>) -> Seq<(u32, u32, u32)> {
    Seq::new((faces.len() / 3) as nat, |k: int| (faces[3 * k], faces[3 * k + 1], faces[3 * k + 2]))
}

/// Side `side` (0, 1 or 2) of the triangle `t`, as a directed edge.
pub open spec fn triangle_edge(t: (u32, u32, u32), side: int) -> (u32, u32) {
    if side == 0 {
        (t.0, t.1)
    } else if side == 1 {
        (t.1, t.2)
    } else {
        (t.2, t.0)
    }
}

/// The directed edges of all faces, three per face, in face order.
pub open spec fn face_edges(faces: Seq<u32>) -> Seq<(u32, u32)> {
    let t = face_triples(faces);
    Seq::new(3 * t.len(), |i: int| triangle_edge(t[i / 3], i % 3))
}

/// The edge in the other direction.
pub open spec fn reversed(e: (u32, u32)) -> (u32, u32) {
    (e.1, e.0)
}

/// The predicate "differs from `e`".
pub open spec fn differs_from(e: (u32, u32)) -> spec_fn((u32, u32)) -> bool {
    |x: (u32, u32)| x != e
}

/// `s` with every copy of `e` taken out.
pub open spec fn without_edge(s: Seq<(u32, u32)>, e: (u32, u32)) -> Seq<(u32, u32)> {
    s.filter(differs_from(e))
}

pub proof fn lemma_without_edge_len(s: Seq<(u32, u32)>, e: (u32, u32))
    ensures
        without_edge(s, e).len() <= s.len(),
{
    s.lemma_filter_len(differs_from(e));
}

/// The edge pass of the mesh check. The last edge is taken off; it must not occur
/// again among the others, its reverse must occur among them, and then every copy
/// of its reverse is taken out before the rest is checked the same way.
pub open spec fn edge_check(edges: Seq<(u32, u32)>) -> Result<(), MeshCheckError>
    decreases edges.len(),
{
    if edges.len() == 0 {
        Ok(())
    } else {
        let e = edges.last();
        let rest = edges.drop_last();
        if rest.contains(e) {
            Err(MeshCheckError::DuplicateEdge(e.0, e.1))
        } else if !rest.contains(reversed(e)) {
            Err(MeshCheckError::NotWaterproof(e.0, e.1))
        } else {
            proof {
                lemma_without_edge_len(rest, reversed(e));
            }
            edge_check(without_edge(rest, reversed(e)))
        }
    }
}

/// What [`check_mesh_triangle_list`] answers for `vertices` and `faces`.
pub open spec fn mesh_check_result(vertices: Seq<VertexKey>, faces: Seq<u32>) -> Result<
    (),
    MeshCheckError,
> {
    if faces.len() % 3 != 0 {
        Err(MeshCheckError::FacesNotMultipleOfThree)
    } else if has_repeat(vertices) {
        Err(MeshCheckError::DuplicateVertex(vertices[first_repeat(vertices)]))
    } else if has_repeat(face_triples(faces)) {
        let t = face_triples(faces)[first_repeat(face_triples(faces))];
        Err(MeshCheckError::DuplicateFace(t.0, t.1, t.2))
    } else {
        edge_check(face_edges(faces))
    }
}

proof fn lemma_first_repeat_exists<T>(s: Seq<T>, j: int)
    requires
        repeats_earlier(s, j),
    ensures
        exists|m: int| is_first_repeat(s, m),
    decreases j,
{
    if exists|k: int| 0 <= k < j && repeats_earlier(s, k) {
        let k = choose|k: int| 0 <= k < j && repeats_earlier(s, k);
        lemma_first_repeat_exists(s, k);
    } else {
        assert(is_first_repeat(s, j));
    }
}

/// The first repeating position is unique, and `first_repeat` finds it.
proof fn lemma_first_repeat_is<T>(s: Seq<T>, j: int)
    requires
        is_first_repeat(s, j),
    ensures
        first_repeat(s) == j,
{
    lemma_first_repeat_exists(s, j);
    let m = first_repeat(s);
    assert(is_first_repeat(s, m));
    if m < j {
        assert(!repeats_earlier(s, m));
    } else if j < m {
        assert(!repeats_earlier(s, j));
    }
}

/// Three 32-bit values packed into one 128-bit code.
pub open spec fn triple_code(a: u32, b: u32, c: u32) -> u128 {
    ((a as u128) << 64u128) | ((b as u128) << 32u128) | (c as u128)
}

proof fn lemma_triple_code_injective(a: u32, b: u32, c: u32, d: u32, e: u32, f: u32)
    requires
        triple_code(a, b, c) == triple_code(d, e, f),
    ensures
        a == d && b == e && c == f,
{
    assert(a == d && b == e && c == f) by (bit_vector)
        requires
            ((a as u128) << 64u128) | ((b as u128) << 32u128) | (c as u128) == ((d as u128)
                << 64u128) | ((e as u128) << 32u128) | (f as u128),
    ;
}

fn pack_triple(a: u32, b: u32, c: u32) -> (code: u128)
    ensures
        code == triple_code(a, b, c),
{
    ((a as u128) << 64u128) | ((b as u128) << 32u128) | (c as u128)
}

/// The code under which a vertex is remembered.
pub open spec fn vertex_code(k: VertexKey) -> u128 {
    triple_code(k.x, k.y, k.z)
}

/// The code under which a face is remembered.
pub open spec fn face_code(t: (u32, u32, u32)) -> u128 {
    triple_code(t.0, t.1, t.2)
}

/// One step of the scan for repeats with a set of seen codes: when codes tell
/// elements apart, `s[j]`'s code was seen exactly when `s[j]` repeats an earlier
/// element, and adding it gives the codes of the first `j + 1` elements.
proof fn lemma_seen_codes_step<T>(
    s: Seq<T>,
    code: spec_fn(T) -> u128,
    seen: Set<u128>,
    j: int,
)
    requires
        0 <= j < s.len(),
        forall|x: T, y: T| #[trigger] code(x) == #[trigger] code(y) ==> x == y,
        seen == Set::new(|c: u128| exists|i: int| 0 <= i < j && code(s[i]) == c),
    ensures
        seen.contains(code(s[j])) <==> repeats_earlier(s, j),
        seen.insert(code(s[j])) == Set::new(
            |c: u128| exists|i: int| 0 <= i < j + 1 && code(s[i]) == c,
        ),
{
    if seen.contains(code(s[j])) {
        let i = choose|i: int| 0 <= i < j && code(s[i]) == code(s[j]);
        assert(s[i] == s[j]);
    }
    if repeats_earlier(s, j) {
        let i = choose|i: int| 0 <= i < j && s[i] == s[j];
        assert(code(s[i]) == code(s[j]));
    }
    assert(seen.insert(code(s[j])) =~= Set::new(
        |c: u128| exists|i: int| 0 <= i < j + 1 && code(s[i]) == c,
    ));
}

/// The first vertex that repeats an earlier one, if any.
fn find_repeated_vertex(vertices: &[VertexKey]) -> (found: Option<usize>)
    ensures
        match found {
            Some(j) => is_first_repeat(vertices@, j as int),
            None => !has_repeat(vertices@),
        },
{
    broadcast use vstd::std_specs::hash::group_hash_axioms;

    let ghost code = |k: VertexKey| vertex_code(k);
    proof {
        assert forall|x: VertexKey, y: VertexKey| #[trigger] code(x) == #[trigger] code(y) implies x
            == y by {
            lemma_triple_code_injective(x.x, x.y, x.z, y.x, y.y, y.z);
        }
    }
    let n = vertices.len();
    let mut seen: std::collections::HashSet<u128> = std::collections::HashSet::new();
    let mut j: usize = 0;
    assert(seen@ =~= Set::new(|c: u128| exists|i: int| 0 <= i < 0 && code(vertices@[i]) == c));
    while j < n
        invariant
            n == vertices@.len(),
            j <= n,
            forall|x: VertexKey, y: VertexKey| #[trigger] code(x) == #[trigger] code(y) ==> x == y,
            code == (|k: VertexKey| vertex_code(k)),
            seen@ == Set::new(|c: u128| exists|i: int| 0 <= i < j && code(vertices@[i]) == c),
            forall|k: int| 0 <= k < j ==> !#[trigger] repeats_earlier(vertices@, k),
        decreases n - j,
    {
        let v = vertices[j];
        proof {
            lemma_seen_codes_step(vertices@, code, seen@, j as int);
        }
        if !seen.insert(pack_triple(v.x, v.y, v.z)) {
            return Some(j);
        }
        j = j + 1;
    }
    None
}

/// The first face (triple of indices) that repeats an earlier one, if any.
fn find_repeated_face(faces: &[u32]) -> (found: Option<usize>)
    ensures
        match found {
            Some(j) => is_first_repeat(face_triples(faces@), j as int),
            None => !has_repeat(face_triples(faces@)),
        },
{
    broadcast use vstd::std_specs::hash::group_hash_axioms;

    let ghost t = face_triples(faces@);
    let ghost code = |f: (u32, u32, u32)| face_code(f);
    proof {
        assert forall|x: (u32, u32, u32), y: (u32, u32, u32)| #[trigger] code(x) == #[trigger] code(
            y,
        ) implies x == y by {
            lemma_triple_code_injective(x.0, x.1, x.2, y.0, y.1, y.2);
        }
    }
    let n = faces.len() / 3;
    let mut seen: std::collections::HashSet<u128> = std::collections::HashSet::new();
    let mut j: usize = 0;
    assert(seen@ =~= Set::new(|c: u128| exists|i: int| 0 <= i < 0 && code(t[i]) == c));
    while j < n
        invariant
            n == t.len(),
            3 * n <= faces@.len() <= usize::MAX,
            t == face_triples(faces@),
            j <= n,
            forall|x: (u32, u32, u32), y: (u32, u32, u32)| #[trigger] code(x) == #[trigger] code(y)
                ==> x == y,
            code == (|f: (u32, u32, u32)| face_code(f)),
            seen@ == Set::new(|c: u128| exists|i: int| 0 <= i < j && code(t[i]) == c),
            forall|k: int| 0 <= k < j ==> !#[trigger] repeats_earlier(t, k),
        decreases n - j,
    {
        proof {
            lemma_seen_codes_step(t, code, seen@, j as int);
        }
        let c = pack_triple(faces[3 * j], faces[3 * j + 1], faces[3 * j + 2]);
        assert(c == code(t[j as int]));
        if !seen.insert(c) {
            return Some(j);
        }
        j = j + 1;
    }
    None
}

/// The directed edges of all faces, three per face.
fn collect_face_edges(faces: &[u32]) -> (edges: Vec<(u32, u32)>)
    requires
        faces@.len() % 3 == 0,
    ensures
        edges@ == face_edges(faces@),
{
    let ghost target = face_edges(faces@);
    let n = faces.len() / 3;
    let mut edges: Vec<(u32, u32)> = Vec::new();
    let mut k: usize = 0;
    while k < n
        invariant
            n == faces@.len() / 3,
            faces@.len() == 3 * n <= usize::MAX,
            target == face_edges(faces@),
            target.len() == 3 * n,
            k <= n,
            edges@.len() == 3 * k,
            forall|i: int| 0 <= i < 3 * k ==> edges@[i] == target[i],
        decreases n - k,
    {
        let a = faces[3 * k];
        let b = faces[3 * k + 1];
        let c = faces[3 * k + 2];
        edges.push((a, b));
        edges.push((b, c));
        edges.push((c, a));
        assert forall|i: int| 0 <= i < 3 * (k + 1) implies edges@[i] == target[i] by {
            if i >= 3 * k {
                assert(i / 3 == k as int);
            }
        }
        k = k + 1;
    }
    assert(edges@ =~= target);
    edges
}

/// Whether `edges` holds `e`.
fn contains_edge(edges: &Vec<(u32, u32)>, e: (u32, u32)) -> (found: bool)
    ensures
        found == edges@.contains(e),
{
    let n = edges.len();
    let mut i: usize = 0;
    while i < n
        invariant
            n == edges@.len(),
            i <= n,
            forall|m: int| 0 <= m < i ==> edges@[m] != e,
        decreases n - i,
    {
        let x = edges[i];
        if x.0 == e.0 && x.1 == e.1 {
            assert(edges@[i as int] == e);
            return true;
        }
        i = i + 1;
    }
    false
}

/// `edges` with every copy of `e` taken out.
fn remove_edge(edges: &Vec<(u32, u32)>, e: (u32, u32)) -> (kept: Vec<(u32, u32)>)
    ensures
        kept@ == without_edge(edges@, e),
        kept@.len() <= edges@.len(),
{
    let n = edges.len();
    let mut kept: Vec<(u32, u32)> = Vec::new();
    let mut i: usize = 0;
    assert(edges@.take(0) =~= Seq::<(u32, u32)>::empty());
    proof {
        reveal(Seq::filter);
    }
    while i < n
        invariant
            n == edges@.len(),
            i <= n,
            kept@ == without_edge(edges@.take(i as int), e),
            kept@.len() <= i,
        decreases n - i,
    {
        let x = edges[i];
        proof {
            assert(edges@.take(i + 1) =~= edges@.take(i as int).push(x));
            edges@.take(i as int).lemma_filter_push(x, differs_from(e));
        }
        if !(x.0 == e.0 && x.1 == e.1) {
            kept.push(x);
        }
        i = i + 1;
    }
    assert(edges@.take(n as int) =~= edges@);
    kept
}

/// Checks that a triangle list describes a watertight mesh with no duplicate
/// vertices or faces. It does not check that the normals point outwards.
///
/// The checks come in this order: the number of face indices must be a multiple of
/// 3; no vertex may occur twice (the first one that repeats an earlier vertex is
/// reported); no face may occur twice (likewise); and then the edge pass of
/// [`edge_check`] runs over the directed edges of the faces.
pub fn check_mesh_triangle_list(vertices: &[VertexKey], faces: &[u32]) -> (result: Result<
    (),
    MeshCheckError,
>)
    ensures
        result == mesh_check_result(vertices@, faces@),
{
    if faces.len() % 3 != 0 {
        return Err(MeshCheckError::FacesNotMultipleOfThree);
    }
    match find_repeated_vertex(vertices) {
        Some(j) => {
            proof {
                lemma_first_repeat_is(vertices@, j as int);
            }
            return Err(MeshCheckError::DuplicateVertex(vertices[j]));
        },
        None => {},
    }
    match find_repeated_face(faces) {
        Some(j) => {
            proof {
                lemma_first_repeat_is(face_triples(faces@), j as int);
            }
            return Err(MeshCheckError::DuplicateFace(faces[3 * j], faces[3 * j + 1], faces[3 * j + 2]));
        },
        None => {},
    }
    let mut edges = collect_face_edges(faces);
    loop
        invariant
            edge_check(edges@) == mesh_check_result(vertices@, faces@),
        decreases edges@.len(),
    {
        let ghost before = edges@;
        match edges.pop() {
            None => {
                return Ok(());
            },
            Some(edge) => {
                assert(edges@ =~= before.drop_last());
                if contains_edge(&edges, edge) {
                    return Err(MeshCheckError::DuplicateEdge(edge.0, edge.1));
                }
                let opposite = (edge.1, edge.0);
                if !contains_edge(&edges, opposite) {
                    return Err(MeshCheckError::NotWaterproof(edge.0, edge.1));
                }
                edges = remove_edge(&edges, opposite);
            },
        }
    }
}

/// A NaN pattern: exponent bits (23 to 30) all set and a fraction that is not zero.
pub open spec fn nan_pattern(b: u32) -> bool {
    (b / 0x80_0000) % 0x100 == 0xff && b % 0x80_0000 != 0
}

/// The vertex key keeps every bit pattern that is not a NaN, sign bit included, and
/// maps every NaN to one pattern that is itself a NaN.
pub proof fn lemma_canonical_bits_keeps_non_nan(b: u32)
    ensures
        !nan_pattern(b) ==> canonical_bits(b) == b,
        nan_pattern(b) ==> canonical_bits(b) == 0x7fc0_0000u32,
{
}

/// Two coordinates get the same key exactly when they are the same pattern or both
/// NaN: the keys of vertices agree exactly when their `{:?}` renderings agree.
pub proof fn lemma_canonical_bits_equal_iff(a: u32, b: u32)
    ensures
        canonical_bits(a) == canonical_bits(b) <==> (a == b || (nan_pattern(a) && nan_pattern(b))),
{
    assert(nan_pattern(0x7fc0_0000u32));
}

} // verus!
