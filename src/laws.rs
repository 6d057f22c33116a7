use vstd::prelude::*;
use crate::configs::CellConfigs;
use crate::cube::Edge;
use crate::grid::{edge_key, key_lt, sorted_edges, SignGrid};
use crate::index::Index;
use crate::topology::{
    emits_quad, interior, is_quad_faces, quad_cell, quad_corner, quad_key, DualMesh,
};

verus! {

/// What `DualMesh::build` promises of a mesh it returns.
pub open spec fn built_from(m: DualMesh, g: SignGrid, cfg: CellConfigs) -> bool {
    &&& m.wf(g, cfg)
    &&& sorted_edges(m.quads@)
    &&& forall|q: (Edge, Index)| #[trigger] m.quads@.contains(q) <==> emits_quad(g, q)
}

/// The vertex id at corner `j` of quad `i`.
pub open spec fn corner_id(m: DualMesh, g: SignGrid, i: int, j: int) -> int {
    let q = m.quads@[i];
    quad_corner(
        g.spec_inside(q.1[0] as int, q.1[1] as int, q.1[2] as int),
        m.faces@[2 * i],
        m.faces@[2 * i + 1],
        j,
    )
}

/// The four cells round a base edge away from the boundary are distinct.
pub proof fn lemma_quad_cells_distinct(e: Edge, idx: Index, j: int, k: int)
    requires
        e.is_base(),
        interior((e, idx)),
        0 <= j < 4,
        0 <= k < 4,
        j != k,
    ensures
        quad_cell(e, idx, j) != quad_cell(e, idx, k),
{
    let a = quad_cell(e, idx, j);
    let b = quad_cell(e, idx, k);
    assert(a[0] != b[0] || a[1] != b[1] || a[2] != b[2]);
}

/// The four corners of every quad are four distinct vertices.
pub proof fn lemma_quad_corners_distinct(m: DualMesh, g: SignGrid, cfg: CellConfigs, i: int)
    requires
        m.wf(g, cfg),
        0 <= i < m.quads@.len(),
    ensures
        forall|j: int| 0 <= j < 4 ==> 0 <= #[trigger] corner_id(m, g, i, j) < m.vertices@.len(),
        forall|j: int, k: int|
            0 <= j < 4 && 0 <= k < 4 && j != k ==> #[trigger] corner_id(m, g, i, j) != #[trigger] corner_id(
                m,
                g,
                i,
                k,
            ),
{
    reveal(DualMesh::quads_ok);
    let q = m.quads@[i];
    let flip = g.spec_inside(q.1[0] as int, q.1[1] as int, q.1[2] as int);
    assert(emits_quad(g, q));
    assert(is_quad_faces(g, cfg, m.vertices@, q, m.faces@[2 * i], m.faces@[2 * i + 1]));
    assert forall|j: int| 0 <= j < 4 implies 0 <= #[trigger] corner_id(m, g, i, j) < m.vertices@.len() by {
        assert(corner_id(m, g, i, j) == quad_corner(flip, m.faces@[2 * i], m.faces@[2 * i + 1], j));
    };
    assert forall|j: int, k: int|
        0 <= j < 4 && 0 <= k < 4 && j != k implies #[trigger] corner_id(m, g, i, j) != #[trigger] corner_id(
            m,
            g,
            i,
            k,
        ) by {
        assert(corner_id(m, g, i, j) == quad_corner(flip, m.faces@[2 * i], m.faces@[2 * i + 1], j));
        assert(corner_id(m, g, i, k) == quad_corner(flip, m.faces@[2 * i], m.faces@[2 * i + 1], k));
        lemma_quad_cells_distinct(q.0, q.1, j, k);
        assert(quad_key(g, cfg, q, j) != quad_key(g, cfg, q, k));
    };
}

/// Every triangle of the mesh indexes three distinct vertices of the mesh.
pub proof fn lemma_faces_valid(m: DualMesh, g: SignGrid, cfg: CellConfigs)
    requires
        m.wf(g, cfg),
    ensures
        forall|f: int|
            0 <= f < m.faces@.len() ==> {
                let t = #[trigger] m.faces@[f];
                &&& t[0] < m.vertices@.len()
                &&& t[1] < m.vertices@.len()
                &&& t[2] < m.vertices@.len()
                &&& t[0] != t[1]
                &&& t[1] != t[2]
                &&& t[2] != t[0]
            },
{
    reveal(DualMesh::quads_ok);
    assert forall|f: int| 0 <= f < m.faces@.len() implies {
        let t = #[trigger] m.faces@[f];
        &&& t[0] < m.vertices@.len()
        &&& t[1] < m.vertices@.len()
        &&& t[2] < m.vertices@.len()
        &&& t[0] != t[1]
        &&& t[1] != t[2]
        &&& t[2] != t[0]
    } by {
        let i = f / 2;
        assert(0 <= i < m.quads@.len());
        lemma_quad_corners_distinct(m, g, cfg, i);
        let q = m.quads@[i];
        assert(emits_quad(g, q));
        assert(is_quad_faces(g, cfg, m.vertices@, q, m.faces@[2 * i], m.faces@[2 * i + 1]));
        let c0 = corner_id(m, g, i, 0);
        let c1 = corner_id(m, g, i, 1);
        let c2 = corner_id(m, g, i, 2);
        let c3 = corner_id(m, g, i, 3);
        assert(c0 != c1 && c0 != c2 && c0 != c3 && c1 != c2 && c1 != c3 && c2 != c3);
    };
}

/// Each crossing edge away from the boundary has exactly one quad, whose four
/// corners are four distinct vertices.
pub proof fn lemma_one_quad_per_crossing(
    m: DualMesh,
    g: SignGrid,
    cfg: CellConfigs,
    q: (Edge, Index),
)
    requires
        built_from(m, g, cfg),
        emits_quad(g, q),
    ensures
        exists|i: int|
            0 <= i < m.quads@.len() && m.quads@[i] == q && (forall|k: int|
                0 <= k < m.quads@.len() && #[trigger] m.quads@[k] == q ==> k == i) && (forall|
                j: int,
                l: int,
            |
                0 <= j < 4 && 0 <= l < 4 && j != l ==> #[trigger] corner_id(m, g, i, j)
                    != #[trigger] corner_id(m, g, i, l)),
        m.faces@.len() == 2 * m.quads@.len(),
{
    reveal(DualMesh::quads_ok);
    assert(m.quads@.contains(q));
    let i = choose|i: int| 0 <= i < m.quads@.len() && m.quads@[i] == q;
    lemma_quad_corners_distinct(m, g, cfg, i);
    assert forall|k: int| 0 <= k < m.quads@.len() && #[trigger] m.quads@[k] == q implies k == i by {
        if k < i {
            assert(crate::grid::key_lt(
                crate::grid::edge_key(m.quads@[k]),
                crate::grid::edge_key(m.quads@[i]),
            ));
        } else if k > i {
            assert(crate::grid::key_lt(
                crate::grid::edge_key(m.quads@[i]),
                crate::grid::edge_key(m.quads@[k]),
            ));
        }
    };
}

/// Each (edge set, cell) pair gets at most one vertex.
pub proof fn lemma_one_vertex_per_partition(m: DualMesh, g: SignGrid, cfg: CellConfigs)
    requires
        m.wf(g, cfg),
    ensures
        forall|i: int, j: int|
            0 <= i < m.vertices@.len() && 0 <= j < m.vertices@.len() && #[trigger] m.vertices@[i]
                == #[trigger] m.vertices@[j] ==> i == j,
{
}

/// Two sequences in strict sort order with the same elements are equal.
pub proof fn lemma_sorted_unique(s1: Seq<(Edge, Index)>, s2: Seq<(Edge, Index)>)
    requires
        sorted_edges(s1),
        sorted_edges(s2),
        forall|q: (Edge, Index)| s1.contains(q) <==> s2.contains(q),
    ensures
        s1 == s2,
    decreases s1.len(),
{
    if s1.len() == 0 {
        if s2.len() > 0 {
            assert(s2.contains(s2[0]));
        }
        assert(s1 =~= s2);
    } else {
        assert(s1.contains(s1[0]));
        assert(s2.len() > 0);
        assert(s2.contains(s2[0]));
        let a = s1[0];
        let b = s2[0];
        let j = choose|j: int| 0 <= j < s2.len() && s2[j] == a;
        let k = choose|k: int| 0 <= k < s1.len() && s1[k] == b;
        if j > 0 {
            assert(key_lt(edge_key(s2[0]), edge_key(s2[j])));
            if k > 0 {
                assert(key_lt(edge_key(s1[0]), edge_key(s1[k])));
            }
        }
        if k > 0 {
            assert(key_lt(edge_key(s1[0]), edge_key(s1[k])));
        }
        assert(a == b);
        let t1 = s1.drop_first();
        let t2 = s2.drop_first();
        assert forall|q: (Edge, Index)| t1.contains(q) <==> t2.contains(q) by {
            if t1.contains(q) {
                let i = choose|i: int| 0 <= i < t1.len() && t1[i] == q;
                assert(s1[i + 1] == q);
                assert(key_lt(edge_key(s1[0]), edge_key(s1[i + 1])));
                assert(s2.contains(q));
                let i2 = choose|i2: int| 0 <= i2 < s2.len() && s2[i2] == q;
                assert(i2 != 0);
                assert(t2[i2 - 1] == q);
            }
            if t2.contains(q) {
                let i = choose|i: int| 0 <= i < t2.len() && t2[i] == q;
                assert(s2[i + 1] == q);
                assert(key_lt(edge_key(s2[0]), edge_key(s2[i + 1])));
                assert(s1.contains(q));
                let i1 = choose|i1: int| 0 <= i1 < s1.len() && s1[i1] == q;
                assert(i1 != 0);
                assert(t1[i1 - 1] == q);
            }
        };
        assert forall|x: int, y: int| 0 <= x < y < t1.len() implies key_lt(
            edge_key(#[trigger] t1[x]),
            edge_key(#[trigger] t1[y]),
        ) by {
            assert(t1[x] == s1[x + 1] && t1[y] == s1[y + 1]);
        };
        assert forall|x: int, y: int| 0 <= x < y < t2.len() implies key_lt(
            edge_key(#[trigger] t2[x]),
            edge_key(#[trigger] t2[y]),
        ) by {
            assert(t2[x] == s2[x + 1] && t2[y] == s2[y + 1]);
        };
        lemma_sorted_unique(t1, t2);
        assert(s1 =~= s2) by {
            assert forall|i: int| 0 <= i < s1.len() implies s1[i] == s2[i] by {
                if i > 0 {
                    assert(s1[i] == t1[i - 1]);
                    assert(s2[i] == t2[i - 1]);
                }
            };
        };
    }
}

/// Two meshes built from the same grid and configurations are the same up to
/// vertex ids: they have the same quads in the same order, and the corners of
/// each quad stand for the same (edge set, cell) pairs in both.
pub proof fn lemma_build_congruent(m1: DualMesh, m2: DualMesh, g: SignGrid, cfg: CellConfigs)
    requires
        built_from(m1, g, cfg),
        built_from(m2, g, cfg),
    ensures
        m1.quads@ == m2.quads@,
        m1.faces@.len() == m2.faces@.len(),
        forall|i: int, j: int|
            0 <= i < m1.quads@.len() && 0 <= j < 4 ==> m1.vertices@[#[trigger] corner_id(m1, g, i, j)]
                == m2.vertices@[corner_id(m2, g, i, j)],
{
    reveal(DualMesh::quads_ok);
    assert forall|q: (Edge, Index)| m1.quads@.contains(q) <==> m2.quads@.contains(q) by {
        assert(m1.quads@.contains(q) <==> emits_quad(g, q));
        assert(m2.quads@.contains(q) <==> emits_quad(g, q));
    };
    lemma_sorted_unique(m1.quads@, m2.quads@);
    assert forall|i: int, j: int|
        0 <= i < m1.quads@.len() && 0 <= j < 4 implies m1.vertices@[#[trigger] corner_id(m1, g, i, j)]
            == m2.vertices@[corner_id(m2, g, i, j)] by {
        let q = m1.quads@[i];
        let flip = g.spec_inside(q.1[0] as int, q.1[1] as int, q.1[2] as int);
        assert(is_quad_faces(g, cfg, m1.vertices@, q, m1.faces@[2 * i], m1.faces@[2 * i + 1]));
        assert(is_quad_faces(g, cfg, m2.vertices@, q, m2.faces@[2 * i], m2.faces@[2 * i + 1]));
        assert(corner_id(m1, g, i, j) == quad_corner(flip, m1.faces@[2 * i], m1.faces@[2 * i + 1], j));
        assert(corner_id(m2, g, i, j) == quad_corner(flip, m2.faces@[2 * i], m2.faces@[2 * i + 1], j));
    };
}

} // verus!
