use vstd::prelude::*;
use crate::configs::CellConfigs;
use crate::cube::Edge;
use crate::grid::{edge_key, key_lt, lin, lemma_lin_bound, sorted_edges, SignGrid};
use crate::index::{neg_offset, Index};

verus! {

/// What a dual vertex stands for: one edge set (surface sheet) of one cell.
pub type VertexKey = (u16, Index);

#[derive(Clone, Copy, Debug)]
pub enum TopologyError {
    /// The cell configurations list no edge set that holds `edge` for the sign
    /// pattern `mask` of cell `cell`.
    MissingPartition { edge: Edge, cell: Index, mask: u8 },
}

/// The `j`-th of the four cells round base edge `e` of cell `idx`.
pub open spec fn quad_cell(e: Edge, idx: Index, j: int) -> Index {
    let o = e.spec_quad()[j].spec_cell_offset();
    [(idx[0] - o.0) as usize, (idx[1] - o.1) as usize, (idx[2] - o.2) as usize]
}

/// All four cells round the edge exist: the edge is not on the grid's boundary.
pub open spec fn interior(q: (Edge, Index)) -> bool {
    q.1[0] >= 1 && q.1[1] >= 1 && q.1[2] >= 1
}

/// A crossing that gets a quad.
pub open spec fn emits_quad(g: SignGrid, q: (Edge, Index)) -> bool {
    g.is_crossing(q) && interior(q)
}

/// The edge set of the `j`-th cell round `q` that holds the crossing edge.
pub open spec fn quad_partition(g: SignGrid, cfg: CellConfigs, q: (Edge, Index), j: int) -> Option<
    u16,
> {
    cfg.spec_connected(q.0.spec_quad()[j], g.cell_mask(quad_cell(q.0, q.1, j)))
}

/// The key of the vertex that the `j`-th cell round `q` gives the quad.
pub open spec fn quad_key(g: SignGrid, cfg: CellConfigs, q: (Edge, Index), j: int) -> VertexKey {
    (quad_partition(g, cfg, q, j).unwrap(), quad_cell(q.0, q.1, j))
}

/// Whether every cell round `q` lists an edge set for the crossing edge.
pub open spec fn quad_resolved(g: SignGrid, cfg: CellConfigs, q: (Edge, Index)) -> bool {
    forall|j: int| 0 <= j < 4 ==> (#[trigger] quad_partition(g, cfg, q, j)).is_some()
}

/// The `j`-th corner `p_j` of the quad whose triangles are `a` and `b`: they
/// are `(p0, p1, p2)` and `(p2, p3, p0)`, or where `flip` holds the reverse,
/// `(p3, p2, p1)` and `(p1, p0, p3)`.
pub open spec fn quad_corner(flip: bool, a: [usize; 3], b: [usize; 3], j: int) -> int {
    if !flip {
        if j == 0 {
            a[0] as int
        } else if j == 1 {
            a[1] as int
        } else if j == 2 {
            a[2] as int
        } else {
            b[1] as int
        }
    } else {
        if j == 0 {
            b[1] as int
        } else if j == 1 {
            a[2] as int
        } else if j == 2 {
            a[1] as int
        } else {
            a[0] as int
        }
    }
}

/// The triangles `a`, `b` form the quad of `q` over `vertices`, reversed
/// where the edge's lower sample lies inside.
pub open spec fn is_quad_faces(
    g: SignGrid,
    cfg: CellConfigs,
    vertices: Seq<VertexKey>,
    q: (Edge, Index),
    a: [usize; 3],
    b: [usize; 3],
) -> bool {
    let flip = g.spec_inside(q.1[0] as int, q.1[1] as int, q.1[2] as int);
    &&& quad_resolved(g, cfg, q)
    &&& forall|j: int|
        0 <= j < 4 ==> 0 <= #[trigger] quad_corner(flip, a, b, j) < vertices.len()
            && vertices[quad_corner(flip, a, b, j)] == quad_key(g, cfg, q, j)
    &&& b[0] == a[2]
    &&& b[2] == a[0]
}

/// Appending vertices keeps the faces of a quad what they were.
pub proof fn lemma_quad_faces_extend(
    g: SignGrid,
    cfg: CellConfigs,
    vs: Seq<VertexKey>,
    ws: Seq<VertexKey>,
    q: (Edge, Index),
    a: [usize; 3],
    b: [usize; 3],
)
    requires
        is_quad_faces(g, cfg, vs, q, a, b),
        vs.is_prefix_of(ws),
    ensures
        is_quad_faces(g, cfg, ws, q, a, b),
{
    let flip = g.spec_inside(q.1[0] as int, q.1[1] as int, q.1[2] as int);
    assert forall|j: int| 0 <= j < 4 implies 0 <= #[trigger] quad_corner(flip, a, b, j) < ws.len()
        && ws[quad_corner(flip, a, b, j)] == quad_key(g, cfg, q, j) by {
        assert(vs[quad_corner(flip, a, b, j)] == quad_key(g, cfg, q, j));
    };
}

/// The dual mesh of a sign grid, without positions: each vertex is named by
/// the (edge set, cell) pair it stands for, and triangles index the vertices.
/// Quad `i` covers the edge `quads[i]` and is made of faces `2 i` and `2 i + 1`.
pub struct DualMesh {
    pub vertices: Vec<VertexKey>,
    pub faces: Vec<[usize; 3]>,
    pub quads: Vec<(Edge, Index)>,
    /// For each sample position, the vertices of the cell with that origin,
    /// as (edge set, cell, vertex id).
    pub cache: Vec<Vec<(u16, Index, usize)>>,
}

impl DualMesh {
    /// The vertex cache agrees with the vertex list, both ways.
    #[verifier::opaque]
    pub open spec fn cache_ok(&self, g: SignGrid) -> bool {
        &&& self.cache@.len() == g.inside@.len()
        &&& forall|c: int, k: int|
            0 <= c < self.cache@.len() && 0 <= k < self.cache@[c]@.len() ==> {
                let ent = #[trigger] self.cache@[c]@[k];
                &&& ent.2 < self.vertices@.len()
                &&& self.vertices@[ent.2 as int] == (ent.0, ent.1)
            }
        &&& forall|v: int|
            0 <= v < self.vertices@.len() ==> {
                let (p, cell) = #[trigger] self.vertices@[v];
                &&& g.is_cell(cell)
                &&& exists|k: int|
                    0 <= k < self.cache@[lin(g.dims, cell[0] as int, cell[1] as int, cell[2] as int)]@.len()
                        && #[trigger] self.cache@[lin(
                        g.dims,
                        cell[0] as int,
                        cell[1] as int,
                        cell[2] as int,
                    )]@[k] == (p, cell, v as usize)
            }
    }

    /// The cache invariant reads the cache and the vertex list alone.
    pub proof fn lemma_cache_ok_frame(&self, other: &DualMesh, g: SignGrid)
        requires
            self.cache_ok(g),
            other.cache@ == self.cache@,
            other.vertices@ == self.vertices@,
        ensures
            other.cache_ok(g),
    {
        reveal(DualMesh::cache_ok);
    }

    /// Each (edge set, cell) pair has at most one vertex.
    pub open spec fn vertices_unique(&self) -> bool {
        forall|i: int, j: int|
            0 <= i < j < self.vertices@.len() ==> self.vertices@[i] != self.vertices@[j]
    }

    /// Quad `i` is made of faces `2 i` and `2 i + 1` and covers `quads[i]`.
    #[verifier::opaque]
    pub open spec fn quads_ok(&self, g: SignGrid, cfg: CellConfigs) -> bool {
        &&& self.faces@.len() == 2 * self.quads@.len()
        &&& forall|i: int|
            0 <= i < self.quads@.len() ==> {
                &&& emits_quad(g, #[trigger] self.quads@[i])
                &&& is_quad_faces(
                    g,
                    cfg,
                    self.vertices@,
                    self.quads@[i],
                    self.faces@[2 * i],
                    self.faces@[2 * i + 1],
                )
            }
    }

    pub open spec fn wf(&self, g: SignGrid, cfg: CellConfigs) -> bool {
        &&& g.wf()
        &&& cfg.wf()
        &&& self.cache_ok(g)
        &&& self.vertices_unique()
        &&& self.quads_ok(g, cfg)
    }

    /// An empty mesh for grid `g`.
    pub fn new(g: &SignGrid, cfg: &CellConfigs) -> (r: DualMesh)
        requires
            g.wf(),
            cfg.wf(),
        ensures
            r.wf(*g, *cfg),
            r.vertices@.len() == 0,
            r.quads@.len() == 0,
    {
        let mut cache: Vec<Vec<(u16, Index, usize)>> = Vec::new();
        let n = g.inside.len();
        let mut i: usize = 0;
        while i < n
            invariant
                i <= n,
                n == g.inside@.len(),
                cache@.len() == i,
                forall|c: int| 0 <= c < i ==> (#[trigger] cache@[c])@.len() == 0,
            decreases n - i,
        {
            cache.push(Vec::new());
            i = i + 1;
        }
        let r = DualMesh { vertices: Vec::new(), faces: Vec::new(), quads: Vec::new(), cache };
        proof {
            reveal(DualMesh::cache_ok);
            reveal(DualMesh::quads_ok);
        }
        r
    }

    /// The id of the vertex for the edge set of cell `cell` that holds `edge`,
    /// added to the mesh if the cell has none for that set yet.
    pub fn lookup_cell_point(
        &mut self,
        g: &SignGrid,
        cfg: &CellConfigs,
        edge: Edge,
        cell: Index,
    ) -> (r: Result<usize, TopologyError>)
        requires
            old(self).wf(*g, *cfg),
            g.is_cell(cell),
        ensures
            final(self).wf(*g, *cfg),
            final(self).faces@ == old(self).faces@,
            final(self).quads@ == old(self).quads@,
            old(self).vertices@.is_prefix_of(final(self).vertices@),
            r.is_ok() <==> cfg.spec_connected(edge, g.cell_mask(cell)).is_some(),
            r matches Ok(v) ==> {
                &&& v < final(self).vertices@.len()
                &&& final(self).vertices@[v as int] == (
                    cfg.spec_connected(edge, g.cell_mask(cell)).unwrap(),
                    cell,
                )
                &&& old(self).vertices@.contains(final(self).vertices@[v as int])
                    ==> final(self).vertices@ == old(self).vertices@
                &&& !old(self).vertices@.contains(final(self).vertices@[v as int])
                    ==> final(self).vertices@ == old(self).vertices@.push(
                    final(self).vertices@[v as int],
                )
            },
            r.is_err() ==> final(self).vertices@ == old(self).vertices@,
    {
        proof {
            reveal(DualMesh::cache_ok);
        }
        let mask = g.bitset_for_cell(cell);
        let p = match cfg.get_connected_edges(edge, mask) {
            Some(p) => p,
            None => {
                proof {
                    assert(old(self).vertices@.is_prefix_of(self.vertices@));
                }
                return Err(TopologyError::MissingPartition { edge, cell, mask });
            },
        };
        let c = g.lin_index(cell[0], cell[1], cell[2]);
        let ghost key = (p, cell);
        let mut k: usize = 0;
        while k < self.cache[c].len()
            invariant
                self.wf(*g, *cfg),
                *self == *old(self),
                cfg.spec_connected(edge, g.cell_mask(cell)) == Some(p),
                key == (p, cell),
                c < self.cache@.len(),
                c == lin(g.dims, cell[0] as int, cell[1] as int, cell[2] as int),
                k <= self.cache@[c as int]@.len(),
                forall|k2: int|
                    0 <= k2 < k ==> (#[trigger] self.cache@[c as int]@[k2]).0 != p || self.cache@[c as int]@[k2].1 != cell,
            decreases self.cache@[c as int]@.len() - k,
        {
            proof {
                reveal(DualMesh::cache_ok);
            }
            let ent = self.cache[c][k];
            if ent.0 == p && ent.1[0] == cell[0] && ent.1[1] == cell[1] && ent.1[2] == cell[2] {
                proof {
                    assert(ent == self.cache@[c as int]@[k as int]);
                    assert(ent.1 =~= cell);
                    assert(self.vertices@.contains(key)) by {
                        assert(self.vertices@[ent.2 as int] == key);
                    }
                    assert(old(self).vertices@.is_prefix_of(self.vertices@));
                }
                return Ok(ent.2);
            }
            k = k + 1;
        }
        proof {
            reveal(DualMesh::cache_ok);
            reveal(DualMesh::quads_ok);
            assert(!self.vertices@.contains(key)) by {
                if self.vertices@.contains(key) {
                    let v = choose|v: int| 0 <= v < self.vertices@.len() && self.vertices@[v] == key;
                    let kk = choose|kk: int|
                        0 <= kk < self.cache@[c as int]@.len() && #[trigger] self.cache@[c as int]@[kk]
                            == (p, cell, v as usize);
                    assert(self.cache@[c as int]@[kk].0 == p);
                }
            }
        }
        let v = self.vertices.len();
        let ghost old_vertices = self.vertices@;
        let ghost old_cache = self.cache@;
        self.vertices.push((p, cell));
        self.cache[c].push((p, cell, v));
        proof {
            assert(self.vertices@ == old_vertices.push(key));
            assert(forall|c2: int| 0 <= c2 < self.cache@.len() && c2 != c ==> #[trigger] self.cache@[c2] == old_cache[c2]);
            assert(self.cache@[c as int]@ == old_cache[c as int]@.push((p, cell, v)));
            assert forall|i: int, j: int|
                0 <= i < j < self.vertices@.len() implies self.vertices@[i] != self.vertices@[j] by {
                if j == v {
                    assert(old_vertices[i] == self.vertices@[i]);
                }
            };
            assert forall|c2: int, k2: int|
                0 <= c2 < self.cache@.len() && 0 <= k2 < self.cache@[c2]@.len() implies {
                let ent = #[trigger] self.cache@[c2]@[k2];
                &&& ent.2 < self.vertices@.len()
                &&& self.vertices@[ent.2 as int] == (ent.0, ent.1)
            } by {
                if c2 != c || k2 < old_cache[c as int]@.len() {
                    assert(self.cache@[c2]@[k2] == old_cache[c2]@[k2]);
                }
            };
            assert forall|v2: int|
                0 <= v2 < self.vertices@.len() implies {
                let (p2, cell2) = #[trigger] self.vertices@[v2];
                &&& g.is_cell(cell2)
                &&& exists|k2: int|
                    0 <= k2 < self.cache@[lin(g.dims, cell2[0] as int, cell2[1] as int, cell2[2] as int)]@.len()
                        && #[trigger] self.cache@[lin(
                        g.dims,
                        cell2[0] as int,
                        cell2[1] as int,
                        cell2[2] as int,
                    )]@[k2] == (p2, cell2, v2 as usize)
            } by {
                let (p2, cell2) = self.vertices@[v2];
                let c2 = lin(g.dims, cell2[0] as int, cell2[1] as int, cell2[2] as int);
                if v2 == v {
                    assert(self.cache@[c2]@[old_cache[c as int]@.len() as int] == (p2, cell2, v2 as usize));
                } else {
                    assert(old_vertices[v2] == (p2, cell2));
                    lemma_lin_bound(g.dims, cell2[0] as int, cell2[1] as int, cell2[2] as int);
                    let k2 = choose|k2: int|
                        0 <= k2 < old_cache[c2]@.len() && #[trigger] old_cache[c2]@[k2] == (p2, cell2, v2 as usize);
                    if c2 == c {
                        assert(self.cache@[c2]@[k2] == old_cache[c2]@[k2]);
                    } else {
                        assert(self.cache@[c2] == old_cache[c2]);
                    }
                    assert(self.cache@[c2]@[k2] == (p2, cell2, v2 as usize));
                }
            };
            assert forall|i: int|
                0 <= i < self.quads@.len() implies {
                &&& emits_quad(*g, #[trigger] self.quads@[i])
                &&& is_quad_faces(
                    *g,
                    *cfg,
                    self.vertices@,
                    self.quads@[i],
                    self.faces@[2 * i],
                    self.faces@[2 * i + 1],
                )
            } by {
                assert(is_quad_faces(*g, *cfg, old_vertices, self.quads@[i], self.faces@[2 * i], self.faces@[2 * i + 1]));
                lemma_quad_faces_extend(*g, *cfg, old_vertices, self.vertices@, self.quads@[i], self.faces@[2 * i], self.faces@[2 * i + 1]);
            };
            assert(old(self).vertices@.is_prefix_of(self.vertices@));
        }
        Ok(v)
    }

    /// The vertex that the `j`-th cell round crossing `(edge, idx)` gives its quad.
    fn quad_point(
        &mut self,
        g: &SignGrid,
        cfg: &CellConfigs,
        edge: Edge,
        idx: Index,
        j: usize,
    ) -> (r: Result<usize, TopologyError>)
        requires
            old(self).wf(*g, *cfg),
            emits_quad(*g, (edge, idx)),
            j < 4,
        ensures
            final(self).wf(*g, *cfg),
            final(self).faces@ == old(self).faces@,
            final(self).quads@ == old(self).quads@,
            old(self).vertices@.is_prefix_of(final(self).vertices@),
            r.is_ok() <==> quad_partition(*g, *cfg, (edge, idx), j as int).is_some(),
            r matches Ok(v) ==> v < final(self).vertices@.len() && final(self).vertices@[v as int]
                == quad_key(*g, *cfg, (edge, idx), j as int),
    {
        let e = edge.quad()[j];
        let cell = neg_offset(idx, e.cell_offset());
        assert(cell =~= quad_cell(edge, idx, j as int));
        self.lookup_cell_point(g, cfg, e, cell)
    }

    /// Adds the quad of crossing `(edge, idx)`: the vertices of the four cells
    /// round the edge, as two triangles.
    #[verifier::rlimit(40)]
    pub fn compute_quad(
        &mut self,
        g: &SignGrid,
        cfg: &CellConfigs,
        edge: Edge,
        idx: Index,
    ) -> (r: Result<(), TopologyError>)
        requires
            old(self).wf(*g, *cfg),
            emits_quad(*g, (edge, idx)),
        ensures
            final(self).wf(*g, *cfg),
            old(self).vertices@.is_prefix_of(final(self).vertices@),
            r.is_ok() <==> quad_resolved(*g, *cfg, (edge, idx)),
            r.is_ok() ==> final(self).quads@ == old(self).quads@.push((edge, idx)),
            r.is_err() ==> final(self).quads@ == old(self).quads@,
    {
        let ghost v0 = self.vertices@;
        let ghost q = (edge, idx);
        let p0 = match self.quad_point(g, cfg, edge, idx, 0) {
            Ok(v) => v,
            Err(e) => { return Err(e); },
        };
        let ghost v1 = self.vertices@;
        let p1 = match self.quad_point(g, cfg, edge, idx, 1) {
            Ok(v) => v,
            Err(e) => { return Err(e); },
        };
        let ghost v2 = self.vertices@;
        let p2 = match self.quad_point(g, cfg, edge, idx, 2) {
            Ok(v) => v,
            Err(e) => { return Err(e); },
        };
        let ghost v3 = self.vertices@;
        let p3 = match self.quad_point(g, cfg, edge, idx, 3) {
            Ok(v) => v,
            Err(e) => { return Err(e); },
        };
        let ghost vs = self.vertices@;
        proof {
            assert(v1.is_prefix_of(vs));
            assert(v2.is_prefix_of(vs));
            assert(v3.is_prefix_of(vs));
            assert(vs[p0 as int] == quad_key(*g, *cfg, q, 0));
            assert(vs[p1 as int] == quad_key(*g, *cfg, q, 1));
            assert(vs[p2 as int] == quad_key(*g, *cfg, q, 2));
            assert(vs[p3 as int] == quad_key(*g, *cfg, q, 3));
            assert(quad_resolved(*g, *cfg, q));
        }
        self.push_quad(g, cfg, edge, idx, [p0, p1, p2, p3]);
        Ok(())
    }

    /// Appends the two triangles of the quad of crossing `(edge, idx)`,
    /// whose corners are the vertices `p`.
    fn push_quad(&mut self, g: &SignGrid, cfg: &CellConfigs, edge: Edge, idx: Index, p: [usize; 4])
        requires
            old(self).wf(*g, *cfg),
            emits_quad(*g, (edge, idx)),
            quad_resolved(*g, *cfg, (edge, idx)),
            forall|j: int|
                0 <= j < 4 ==> #[trigger] p[j] < old(self).vertices@.len() && old(self).vertices@[p[j] as int]
                    == quad_key(*g, *cfg, (edge, idx), j),
        ensures
            final(self).wf(*g, *cfg),
            final(self).vertices@ == old(self).vertices@,
            final(self).quads@ == old(self).quads@.push((edge, idx)),
    {
        let ghost q = (edge, idx);
        let ghost vs = self.vertices@;
        let ghost old_faces = self.faces@;
        let ghost old_quads = self.quads@;
        let ghost old_self = *self;
        let flip = g.at(idx[0], idx[1], idx[2]);
        let (a, b) = if flip {
            ([p[3], p[2], p[1]], [p[1], p[0], p[3]])
        } else {
            ([p[0], p[1], p[2]], [p[2], p[3], p[0]])
        };
        proof {
            assert forall|j: int| 0 <= j < 4 implies 0 <= #[trigger] quad_corner(flip, a, b, j) < vs.len()
                && vs[quad_corner(flip, a, b, j)] == quad_key(*g, *cfg, q, j) by {
                assert(quad_corner(flip, a, b, j) == p[j]);
            };
            assert(is_quad_faces(*g, *cfg, vs, q, a, b));
        }
        self.faces.push(a);
        self.faces.push(b);
        self.quads.push((edge, idx));
        proof {
            reveal(DualMesh::quads_ok);
            old_self.lemma_cache_ok_frame(self, *g);
            let n = old_quads.len() as int;
            assert(self.faces@[2 * n] == a);
            assert(self.faces@[2 * n + 1] == b);
            assert forall|i: int|
                0 <= i < self.quads@.len() implies {
                &&& emits_quad(*g, #[trigger] self.quads@[i])
                &&& is_quad_faces(
                    *g,
                    *cfg,
                    self.vertices@,
                    self.quads@[i],
                    self.faces@[2 * i],
                    self.faces@[2 * i + 1],
                )
            } by {
                if i < n {
                    assert(self.faces@[2 * i] == old_faces[2 * i]);
                    assert(self.faces@[2 * i + 1] == old_faces[2 * i + 1]);
                }
            };
        }
    }

    /// The dual mesh of grid `g`: one quad for each crossing edge that is not
    /// on the grid's boundary, in the order of `find_crossings`. Fails where a
    /// cell round such an edge has no edge set for it in `cfg`.
    pub fn build(g: &SignGrid, cfg: &CellConfigs) -> (r: Result<DualMesh, TopologyError>)
        requires
            g.wf(),
            cfg.wf(),
        ensures
            r.is_err() <==> exists|q: (Edge, Index)| emits_quad(*g, q) && !quad_resolved(*g, *cfg, q),
            r matches Ok(m) ==> {
                &&& m.wf(*g, *cfg)
                &&& sorted_edges(m.quads@)
                &&& forall|q: (Edge, Index)| #[trigger] m.quads@.contains(q) <==> emits_quad(*g, q)
            },
    {
        let crossings = g.find_crossings();
        let mut m = DualMesh::new(g, cfg);
        let mut i: usize = 0;
        while i < crossings.len()
            invariant
                g.wf(),
                cfg.wf(),
                i <= crossings@.len(),
                sorted_edges(crossings@),
                forall|k: int| 0 <= k < crossings@.len() ==> g.is_crossing(#[trigger] crossings@[k]),
                forall|q: (Edge, Index)| #[trigger] g.is_crossing(q) ==> crossings@.contains(q),
                m.wf(*g, *cfg),
                sorted_edges(m.quads@),
                forall|k: int|
                    0 <= k < m.quads@.len() ==> exists|j: int|
                        0 <= j < i && crossings@[j] == #[trigger] m.quads@[k],
                forall|j: int|
                    0 <= j < i && emits_quad(*g, #[trigger] crossings@[j]) ==> m.quads@.contains(
                        crossings@[j],
                    ),
            decreases crossings@.len() - i,
        {
            let (e, idx) = crossings[i];
            if idx[0] >= 1 && idx[1] >= 1 && idx[2] >= 1 {
                let ghost old_quads = m.quads@;
                match m.compute_quad(g, cfg, e, idx) {
                    Err(x) => {
                        return Err(x);
                    },
                    Ok(()) => {},
                }
                proof {
                    let n = old_quads.len() as int;
                    assert(m.quads@[n] == crossings@[i as int]);
                    assert forall|k: int|
                        0 <= k < m.quads@.len() implies exists|j: int|
                            0 <= j < i + 1 && crossings@[j] == #[trigger] m.quads@[k] by {
                        if k < n {
                            assert(m.quads@[k] == old_quads[k]);
                        }
                    };
                    assert forall|a: int, b: int|
                        0 <= a < b < m.quads@.len() implies key_lt(
                        edge_key(#[trigger] m.quads@[a]),
                        edge_key(#[trigger] m.quads@[b]),
                    ) by {
                        if b == n {
                            let j = choose|j: int| 0 <= j < i && crossings@[j] == #[trigger] old_quads[a];
                            assert(m.quads@[a] == old_quads[a]);
                        } else {
                            assert(m.quads@[a] == old_quads[a]);
                            assert(m.quads@[b] == old_quads[b]);
                        }
                    };
                    assert forall|j: int|
                        0 <= j < i + 1 && emits_quad(*g, #[trigger] crossings@[j]) implies m.quads@.contains(
                            crossings@[j],
                        ) by {
                        if j < i {
                            let k = choose|k: int| 0 <= k < old_quads.len() && old_quads[k] == crossings@[j];
                            assert(m.quads@[k] == old_quads[k]);
                        }
                    };
                }
            }
            i = i + 1;
        }
        proof {
            reveal(DualMesh::quads_ok);
            assert forall|q: (Edge, Index)| #[trigger] m.quads@.contains(q) <==> emits_quad(*g, q) by {
                if m.quads@.contains(q) {
                    let k = choose|k: int| 0 <= k < m.quads@.len() && m.quads@[k] == q;
                    assert(emits_quad(*g, m.quads@[k]));
                }
                if emits_quad(*g, q) {
                    assert(g.is_crossing(q));
                    let j = choose|j: int| 0 <= j < crossings@.len() && crossings@[j] == q;
                    assert(emits_quad(*g, crossings@[j]));
                }
            };
            assert forall|q: (Edge, Index)| emits_quad(*g, q) implies quad_resolved(*g, *cfg, q) by {
                assert(m.quads@.contains(q));
                let k = choose|k: int| 0 <= k < m.quads@.len() && m.quads@[k] == q;
                assert(is_quad_faces(*g, *cfg, m.vertices@, m.quads@[k], m.faces@[2 * k], m.faces@[2 * k + 1]));
            };
        }
        Ok(m)
    }
}

} // verus!
