//! What the mesh check guarantees, and which meshes it accepts.
use vstd::prelude::*;

use crate::mesh_check::{
    differs_from,
    edge_check,
    face_edges,
    face_triples,
    has_repeat,
    lemma_without_edge_len,
    mesh_check_result,
    repeats_earlier,
    reversed,
    without_edge,
    MeshCheckError,
    VertexKey,
};

verus! {

/// Every edge is a proper edge (two distinct ends) whose reverse is also an edge.
pub open spec fn every_edge_matched(edges: Seq<(u32, u32)>) -> bool {
    forall|i: int|
        0 <= i < edges.len() ==> #[trigger] edges[i].0 != edges[i].1 && edges.contains(
            reversed(edges[i]),
        )
}

/// The directed edges of a closed, consistently oriented surface: no edge occurs
/// twice, and every edge is matched by its reverse.
pub open spec fn closed_edge_set(edges: Seq<(u32, u32)>) -> bool {
    &&& edges.no_duplicates()
    &&& every_edge_matched(edges)
}

proof fn lemma_filter_no_duplicates<A>(s: Seq<A>, p: spec_fn(A) -> bool)
    requires
        s.no_duplicates(),
    ensures
        s.filter(p).no_duplicates(),
    decreases s.len(),
{
    reveal(Seq::filter);
    if s.len() > 0 {
        let rest = s.drop_last();
        assert(rest.no_duplicates());
        lemma_filter_no_duplicates(rest, p);
        if p(s.last()) {
            let f = rest.filter(p);
            if f.contains(s.last()) {
                rest.lemma_filter_contains_rev(p, s.last());
                let k = choose|k: int| 0 <= k < rest.len() && rest[k] == s.last();
                assert(s[k] == s[s.len() - 1]);
            }
            let g = f.push(s.last());
            assert forall|i: int, j: int| 0 <= i < g.len() && 0 <= j < g.len() && i != j implies g[i]
                != g[j] by {
                if i == g.len() - 1 {
                    assert(f[j] == g[j]);
                } else if j == g.len() - 1 {
                    assert(f[i] == g[i]);
                }
            }
        }
    }
}

proof fn lemma_without_edge_members(s: Seq<(u32, u32)>, e: (u32, u32), x: (u32, u32))
    ensures
        without_edge(s, e).contains(x) <==> (s.contains(x) && x != e),
{
    if without_edge(s, e).contains(x) {
        s.lemma_filter_contains_rev(differs_from(e), x);
        let i = choose|i: int| 0 <= i < without_edge(s, e).len() && without_edge(s, e)[i] == x;
        s.lemma_filter_pred(differs_from(e), i);
    }
    if s.contains(x) && x != e {
        let i = choose|i: int| 0 <= i < s.len() && s[i] == x;
        s.lemma_filter_contains(differs_from(e), i);
    }
}

/// Every closed, consistently oriented set of directed edges passes the edge pass
/// of the mesh check.
pub proof fn lemma_closed_edges_pass(edges: Seq<(u32, u32)>)
    requires
        closed_edge_set(edges),
    ensures
        edge_check(edges) == Ok::<(), MeshCheckError>(()),
    decreases edges.len(),
{
    if edges.len() > 0 {
        let n = edges.len() - 1;
        let e = edges.last();
        let rest = edges.drop_last();
        if rest.contains(e) {
            let k = choose|k: int| 0 <= k < rest.len() && rest[k] == e;
            assert(edges[k] == edges[n]);
        }
        assert(edges[n].0 != edges[n].1 && edges.contains(reversed(edges[n])));
        let m = choose|m: int| 0 <= m < edges.len() && edges[m] == reversed(e);
        assert(m != n);
        assert(rest[m] == reversed(e));
        assert(rest.contains(reversed(e)));
        let next = without_edge(rest, reversed(e));
        lemma_without_edge_len(rest, reversed(e));
        assert(rest.no_duplicates());
        lemma_filter_no_duplicates(rest, differs_from(reversed(e)));
        assert forall|i: int| 0 <= i < next.len() implies #[trigger] next[i].0 != next[i].1
            && next.contains(reversed(next[i])) by {
            let x = next[i];
            assert(next.contains(x));
            lemma_without_edge_members(rest, reversed(e), x);
            let j = choose|j: int| 0 <= j < rest.len() && rest[j] == x;
            assert(edges[j] == x);
            assert(x.0 != x.1 && edges.contains(reversed(x)));
            let r = choose|r: int| 0 <= r < edges.len() && edges[r] == reversed(x);
            assert(r != n);
            assert(rest[r] == reversed(x));
            lemma_without_edge_members(rest, reversed(e), reversed(x));
        }
        lemma_closed_edges_pass(next);
    }
}

/// Every edge that survives the edge pass has distinct ends and a reverse: a set of
/// directed edges that passes describes a watertight surface.
pub proof fn lemma_passing_edges_are_matched(edges: Seq<(u32, u32)>)
    requires
        edge_check(edges) is Ok,
    ensures
        every_edge_matched(edges),
    decreases edges.len(),
{
    if edges.len() > 0 {
        let n = edges.len() - 1;
        let e = edges.last();
        let rest = edges.drop_last();
        let next = without_edge(rest, reversed(e));
        lemma_without_edge_len(rest, reversed(e));
        lemma_passing_edges_are_matched(next);
        let k = choose|k: int| 0 <= k < rest.len() && rest[k] == reversed(e);
        assert(edges[k] == reversed(e));
        assert forall|i: int| 0 <= i < edges.len() implies #[trigger] edges[i].0 != edges[i].1
            && edges.contains(reversed(edges[i])) by {
            let x = edges[i];
            if i == n {
                assert(x == e);
            } else if x == reversed(e) {
                assert(edges[n] == reversed(x));
            } else {
                assert(rest[i] == x);
                lemma_without_edge_members(rest, reversed(e), x);
                let j = choose|j: int| 0 <= j < next.len() && next[j] == x;
                assert(next[j].0 != next[j].1 && next.contains(reversed(next[j])));
                lemma_without_edge_members(rest, reversed(e), reversed(x));
                let r = choose|r: int| 0 <= r < rest.len() && rest[r] == reversed(x);
                assert(edges[r] == reversed(x));
            }
        }
    }
}

/// Having no repeating position is having no duplicates.
pub proof fn lemma_has_repeat_iff<T>(s: Seq<T>)
    ensures
        has_repeat(s) <==> !s.no_duplicates(),
{
    if !s.no_duplicates() {
        let (i, j) = choose|i: int, j: int|
            0 <= i < s.len() && 0 <= j < s.len() && i != j && s[i] == s[j];
        if i < j {
            assert(repeats_earlier(s, j));
        } else {
            assert(repeats_earlier(s, i));
        }
    }
}

/// A mesh with distinct vertices whose directed face edges form a closed,
/// consistently oriented surface passes the mesh check.
pub proof fn lemma_closed_mesh_passes(vertices: Seq<VertexKey>, faces: Seq<u32>)
    requires
        faces.len() % 3 == 0,
        vertices.no_duplicates(),
        closed_edge_set(face_edges(faces)),
    ensures
        mesh_check_result(vertices, faces) == Ok::<(), MeshCheckError>(()),
{
    let t = face_triples(faces);
    let e = face_edges(faces);
    lemma_has_repeat_iff(vertices);
    lemma_has_repeat_iff(t);
    if !t.no_duplicates() {
        let (i, j) = choose|i: int, j: int|
            0 <= i < t.len() && 0 <= j < t.len() && i != j && t[i] == t[j];
        assert((3 * i) / 3 == i);
        assert((3 * j) / 3 == j);
        assert(e[3 * i] == e[3 * j]);
    }
    lemma_closed_edges_pass(e);
}

/// A mesh that passes the mesh check has a number of face indices that is a
/// multiple of 3, distinct vertices, distinct faces, and directed face edges that
/// each have two distinct ends and are matched by their reverse (it is watertight).
pub proof fn lemma_passing_mesh_is_watertight(vertices: Seq<VertexKey>, faces: Seq<u32>)
    requires
        mesh_check_result(vertices, faces) is Ok,
    ensures
        faces.len() % 3 == 0,
        vertices.no_duplicates(),
        face_triples(faces).no_duplicates(),
        every_edge_matched(face_edges(faces)),
{
    lemma_has_repeat_iff(vertices);
    lemma_has_repeat_iff(face_triples(faces));
    lemma_passing_edges_are_matched(face_edges(faces));
}

/// The face indices with face `k` taken out.
pub open spec fn remove_face(faces: Seq<u32>, k: int) -> Seq<u32> {
    faces.subrange(0, 3 * k) + faces.subrange(3 * k + 3, faces.len() as int)
}

/// The face indices with face `k` turned the other way round (its first and third
/// index swapped).
pub open spec fn reverse_face(faces: Seq<u32>, k: int) -> Seq<u32> {
    faces.update(3 * k, faces[3 * k + 2]).update(3 * k + 2, faces[3 * k])
}

proof fn lemma_remove_face_edges(faces: Seq<u32>, k: int)
    requires
        faces.len() % 3 == 0,
        0 <= k < faces.len() / 3,
    ensures
        face_edges(remove_face(faces, k)) =~= face_edges(faces).subrange(0, 3 * k) + face_edges(
            faces,
        ).subrange(3 * k + 3, faces.len() as int),
{
    let f = faces;
    let g = remove_face(f, k);
    assert(g.len() == f.len() - 3);
    assert(face_edges(f).len() == f.len());
    assert(face_edges(g).len() == g.len());
    assert forall|i: int| 0 <= i < g.len() implies face_edges(g)[i] == (face_edges(f).subrange(
        0,
        3 * k,
    ) + face_edges(f).subrange(3 * k + 3, f.len() as int))[i] by {
        let q = i / 3;
        if i < 3 * k {
            assert(3 * q + 2 < 3 * k);
            assert(face_triples(g)[q] == face_triples(f)[q]);
        } else {
            assert((i + 3) / 3 == q + 1);
            assert((i + 3) % 3 == i % 3);
            assert(3 * q >= 3 * k);
            assert(g[3 * q] == f[3 * q + 3]);
            assert(g[3 * q + 1] == f[3 * q + 4]);
            assert(g[3 * q + 2] == f[3 * q + 5]);
            assert(face_triples(g)[q] == face_triples(f)[q + 1]);
        }
    }
}

proof fn lemma_reverse_face_edges(faces: Seq<u32>, k: int)
    requires
        faces.len() % 3 == 0,
        0 <= k < faces.len() / 3,
    ensures
        face_edges(reverse_face(faces, k)).len() == faces.len(),
        forall|i: int|
            0 <= i < faces.len() && !(3 * k <= i < 3 * k + 3) ==> #[trigger] face_edges(
                reverse_face(faces, k),
            )[i] == face_edges(faces)[i],
        face_edges(reverse_face(faces, k))[3 * k] == (faces[3 * k + 2], faces[3 * k + 1]),
        face_edges(reverse_face(faces, k))[3 * k + 1] == (faces[3 * k + 1], faces[3 * k]),
        face_edges(reverse_face(faces, k))[3 * k + 2] == (faces[3 * k], faces[3 * k + 2]),
{
    let f = faces;
    let g = reverse_face(f, k);
    assert((3 * k) / 3 == k && (3 * k + 1) / 3 == k && (3 * k + 2) / 3 == k);
    assert forall|i: int|
        0 <= i < faces.len() && !(3 * k <= i < 3 * k + 3) implies #[trigger] face_edges(g)[i]
        == face_edges(f)[i] by {
        let q = i / 3;
        assert(q != k);
        assert(face_triples(g)[q] == face_triples(f)[q]);
    }
}

/// Taking any face out of a closed, consistently oriented mesh makes the mesh check
/// fail: the mesh is no longer watertight.
pub proof fn lemma_removing_face_fails(vertices: Seq<VertexKey>, faces: Seq<u32>, k: int)
    requires
        faces.len() % 3 == 0,
        0 <= k < faces.len() / 3,
        closed_edge_set(face_edges(faces)),
    ensures
        mesh_check_result(vertices, remove_face(faces, k)) is Err,
{
    let e = face_edges(faces);
    let g = remove_face(faces, k);
    if mesh_check_result(vertices, g) is Ok {
        lemma_passing_mesh_is_watertight(vertices, g);
        lemma_remove_face_edges(faces, k);
        let e2 = face_edges(g);
        let ab = e[3 * k];
        assert((3 * k) / 3 == k && (3 * k + 1) / 3 == k && (3 * k + 2) / 3 == k);
        assert(e[3 * k].0 != e[3 * k].1 && e.contains(reversed(e[3 * k])));
        assert(e[3 * k + 1].0 != e[3 * k + 1].1);
        assert(e[3 * k + 2].0 != e[3 * k + 2].1);
        let m = choose|m: int| 0 <= m < e.len() && e[m] == reversed(ab);
        assert(!(3 * k <= m < 3 * k + 3));
        let m2 = if m < 3 * k {
            m
        } else {
            m - 3
        };
        assert(e2[m2] == reversed(ab));
        assert(e2[m2].0 != e2[m2].1 && e2.contains(reversed(e2[m2])));
        let p = choose|p: int| 0 <= p < e2.len() && e2[p] == ab;
        let q = if p < 3 * k {
            p
        } else {
            p + 3
        };
        assert(e[q] == ab);
        assert(q != 3 * k);
    }
}

/// Turning any face of a closed, consistently oriented mesh the other way round
/// makes the mesh check fail.
pub proof fn lemma_reversing_face_fails(vertices: Seq<VertexKey>, faces: Seq<u32>, k: int)
    requires
        faces.len() % 3 == 0,
        0 <= k < faces.len() / 3,
        closed_edge_set(face_edges(faces)),
    ensures
        mesh_check_result(vertices, reverse_face(faces, k)) is Err,
{
    let e = face_edges(faces);
    let g = reverse_face(faces, k);
    if mesh_check_result(vertices, g) is Ok {
        lemma_passing_mesh_is_watertight(vertices, g);
        lemma_reverse_face_edges(faces, k);
        let e2 = face_edges(g);
        assert((3 * k) / 3 == k && (3 * k + 1) / 3 == k && (3 * k + 2) / 3 == k);
        let ab = e[3 * k];
        assert(e[3 * k].0 != e[3 * k].1 && e.contains(reversed(e[3 * k])));
        assert(e[3 * k + 1].0 != e[3 * k + 1].1);
        assert(e[3 * k + 2].0 != e[3 * k + 2].1);
        assert(e2[3 * k + 1] == reversed(ab));
        assert(e2[3 * k + 1].0 != e2[3 * k + 1].1 && e2.contains(reversed(e2[3 * k + 1])));
        let p = choose|p: int| 0 <= p < e2.len() && e2[p] == ab;
        assert(!(3 * k <= p < 3 * k + 3));
        assert(e[p] == ab);
        assert(p != 3 * k);
    }
}

} // verus!
