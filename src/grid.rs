use vstd::prelude::*;
use crate::cube::{end_offset, spec_end_offset, Corner, Edge};
use crate::index::Index;

verus! {

/// Linear position of sample `(x, y, z)` in a grid of `d[0] * d[1] * d[2]`
/// samples stored x fastest, then y, then z.
pub open spec fn lin(d: Index, x: int, y: int, z: int) -> int {
    (z * d[1] + y) * d[0] + x
}

pub proof fn lemma_lin_bound(d: Index, x: int, y: int, z: int)
    requires
        0 <= x < d[0],
        0 <= y < d[1],
        0 <= z < d[2],
    ensures
        0 <= z * d[1] <= z * d[1] + y < d[2] * d[1] <= d[0] * d[1] * d[2],
        0 <= (z * d[1] + y) * d[0] <= lin(d, x, y, z) < d[0] * d[1] * d[2],
{
    let d0 = d[0] as int;
    let d1 = d[1] as int;
    let d2 = d[2] as int;
    assert(0 <= z * d1 <= z * d1 + y < d2 * d1 <= d0 * d1 * d2) by (nonlinear_arith)
        requires
            0 <= y < d1,
            0 <= z < d2,
            1 <= d0,
    ;
    let zy = z * d1 + y;
    assert(0 <= zy * d0 <= zy * d0 + x < d0 * d1 * d2) by (nonlinear_arith)
        requires
            0 <= x < d0,
            0 <= zy < d2 * d1,
    ;
}

/// Which samples of a scalar grid lie inside the solid (value below zero).
///
/// The grid has `dims[0] * dims[1] * dims[2]` samples; `inside` lists them x
/// fastest, then y, then z.
pub struct SignGrid {
    pub dims: Index,
    pub inside: Vec<bool>,
}

/// Sort key of a base-edge position: z, then y, then x, then the edge.
pub open spec fn edge_key(q: (Edge, Index)) -> (int, int, int, int) {
    (q.1[2] as int, q.1[1] as int, q.1[0] as int, q.0.spec_index() as int)
}

/// Lexicographic order on sort keys.
pub open spec fn key_lt(a: (int, int, int, int), b: (int, int, int, int)) -> bool {
    a.0 < b.0 || (a.0 == b.0 && (a.1 < b.1 || (a.1 == b.1 && (a.2 < b.2 || (a.2 == b.2 && a.3
        < b.3)))))
}

/// Strictly increasing by sort key, hence free of repetitions.
pub open spec fn sorted_edges(s: Seq<(Edge, Index)>) -> bool {
    forall|i: int, j: int| 0 <= i < j < s.len() ==> key_lt(edge_key(#[trigger] s[i]), edge_key(#[trigger] s[j]))
}

/// The bit of corner `c` in a cell's sign pattern.
pub open spec fn corner_bit(c: Corner) -> u8 {
    match c {
        Corner::A => 1,
        Corner::B => 2,
        Corner::C => 4,
        Corner::D => 8,
        Corner::E => 16,
        Corner::F => 32,
        Corner::G => 64,
        Corner::H => 128,
    }
}

/// Bit `k` of a sum of distinct powers of two is set exactly where `2^k` is in the sum.
pub proof fn lemma_mask_bits(b0: bool, b1: bool, b2: bool, b3: bool, b4: bool, b5: bool, b6: bool, b7: bool)
    ensures
        ({
            let m: u8 = ((if b0 { 1u8 } else { 0u8 }) + (if b1 { 2u8 } else { 0u8 }) + (if b2 { 4u8 } else { 0u8 })
                + (if b3 { 8u8 } else { 0u8 }) + (if b4 { 16u8 } else { 0u8 }) + (if b5 { 32u8 } else { 0u8 })
                + (if b6 { 64u8 } else { 0u8 }) + (if b7 { 128u8 } else { 0u8 })) as u8;
            &&& (m & 1u8 != 0u8) == b0
            &&& (m & 2u8 != 0u8) == b1
            &&& (m & 4u8 != 0u8) == b2
            &&& (m & 8u8 != 0u8) == b3
            &&& (m & 16u8 != 0u8) == b4
            &&& (m & 32u8 != 0u8) == b5
            &&& (m & 64u8 != 0u8) == b6
            &&& (m & 128u8 != 0u8) == b7
        }),
{
    assert(({
            let m: u8 = ((if b0 { 1u8 } else { 0u8 }) + (if b1 { 2u8 } else { 0u8 }) + (if b2 { 4u8 } else { 0u8 })
                + (if b3 { 8u8 } else { 0u8 }) + (if b4 { 16u8 } else { 0u8 }) + (if b5 { 32u8 } else { 0u8 })
                + (if b6 { 64u8 } else { 0u8 }) + (if b7 { 128u8 } else { 0u8 })) as u8;
            &&& (m & 1u8 != 0u8) == b0
            &&& (m & 2u8 != 0u8) == b1
            &&& (m & 4u8 != 0u8) == b2
            &&& (m & 8u8 != 0u8) == b3
            &&& (m & 16u8 != 0u8) == b4
            &&& (m & 32u8 != 0u8) == b5
            &&& (m & 64u8 != 0u8) == b6
            &&& (m & 128u8 != 0u8) == b7
        })) by (bit_vector);
}

impl SignGrid {
    pub open spec fn wf(&self) -> bool {
        self.inside@.len() == self.dims[0] * self.dims[1] * self.dims[2]
    }

    /// Whether sample `(x, y, z)` lies inside the solid.
    pub open spec fn spec_inside(&self, x: int, y: int, z: int) -> bool {
        self.inside@[lin(self.dims, x, y, z)]
    }

    /// `idx` is the origin of a cell: all eight of its corners are samples.
    pub open spec fn is_cell(&self, idx: Index) -> bool {
        idx[0] + 1 < self.dims[0] && idx[1] + 1 < self.dims[1] && idx[2] + 1 < self.dims[2]
    }

    /// Whether corner `c` of cell `idx` lies inside the solid.
    pub open spec fn corner_inside(&self, idx: Index, c: Corner) -> bool {
        self.spec_inside(
            idx[0] + c.spec_offset().0,
            idx[1] + c.spec_offset().1,
            idx[2] + c.spec_offset().2,
        )
    }

    /// The sign pattern of cell `idx`: bit `k` is set where corner `k` is inside.
    pub open spec fn cell_mask(&self, idx: Index) -> nat {
        (if self.corner_inside(idx, Corner::A) { 1nat } else { 0 }) + (if self.corner_inside(
            idx,
            Corner::B,
        ) {
            2nat
        } else {
            0
        }) + (if self.corner_inside(idx, Corner::C) { 4nat } else { 0 }) + (
        if self.corner_inside(idx, Corner::D) {
            8nat
        } else {
            0
        }) + (if self.corner_inside(idx, Corner::E) { 16nat } else { 0 }) + (
        if self.corner_inside(idx, Corner::F) {
            32nat
        } else {
            0
        }) + (if self.corner_inside(idx, Corner::G) { 64nat } else { 0 }) + (
        if self.corner_inside(idx, Corner::H) {
            128nat
        } else {
            0
        })
    }

    /// Base edge `q.0` of cell `q.1` joins a sample inside to one outside.
    pub open spec fn is_crossing(&self, q: (Edge, Index)) -> bool {
        let (e, idx) = q;
        let o = spec_end_offset(e);
        &&& e.is_base()
        &&& self.is_cell(idx)
        &&& self.spec_inside(idx[0] as int, idx[1] as int, idx[2] as int) != self.spec_inside(
            idx[0] + o.0,
            idx[1] + o.1,
            idx[2] + o.2,
        )
    }

    /// `r` holds, in sort order, exactly the crossings whose key is below `cur`.
    pub open spec fn collected(&self, r: Seq<(Edge, Index)>, cur: (int, int, int, int)) -> bool {
        &&& sorted_edges(r)
        &&& forall|i: int|
            0 <= i < r.len() ==> self.is_crossing(#[trigger] r[i]) && key_lt(edge_key(r[i]), cur)
        &&& forall|q: (Edge, Index)|
            #![trigger self.is_crossing(q)]
            self.is_crossing(q) && key_lt(edge_key(q), cur) ==> r.contains(q)
    }

    /// A grid of the given dimensions, or `None` where `inside` does not hold
    /// exactly one flag per sample.
    pub fn new(dims: Index, inside: Vec<bool>) -> (r: Option<SignGrid>)
        ensures
            r.is_some() <==> inside@.len() == dims[0] * dims[1] * dims[2],
            r matches Some(g) ==> g.wf() && g.dims == dims && g.inside@ == inside@,
    {
        let len = inside.len();
        if dims[0] == 0 || dims[1] == 0 || dims[2] == 0 {
            proof {
                let d0 = dims[0] as int;
                let d1 = dims[1] as int;
                let d2 = dims[2] as int;
                assert(d0 * d1 * d2 == 0) by (nonlinear_arith)
                    requires
                        d0 == 0 || d1 == 0 || d2 == 0,
                ;
            }
            if inside.len() == 0 {
                return Some(SignGrid { dims, inside });
            } else {
                return None;
            }
        }
        proof {
            let d0 = dims[0] as int;
            let d1 = dims[1] as int;
            let d2 = dims[2] as int;
            assert(d0 * d1 <= d0 * d1 * d2 && inside@.len() == len) by (nonlinear_arith)
                requires
                    d0 >= 1,
                    d1 >= 1,
                    d2 >= 1,
                    inside@.len() == len,
            ;
        }
        match dims[0].checked_mul(dims[1]) {
            None => None,
            Some(a) => match a.checked_mul(dims[2]) {
                None => None,
                Some(n) => {
                    if n == inside.len() {
                        Some(SignGrid { dims, inside })
                    } else {
                        None
                    }
                },
            },
        }
    }

    /// The position of sample `(x, y, z)` in `inside`.
    pub fn lin_index(&self, x: usize, y: usize, z: usize) -> (r: usize)
        requires
            self.wf(),
            x < self.dims[0],
            y < self.dims[1],
            z < self.dims[2],
        ensures
            r == lin(self.dims, x as int, y as int, z as int),
            r < self.inside@.len(),
    {
        proof {
            lemma_lin_bound(self.dims, x as int, y as int, z as int);
        }
        // The position is below the length of `inside`, hence fits in `usize`.
        let n = self.inside.len();
        proof {
            assert(lin(self.dims, x as int, y as int, z as int) < n);
        }
        (z * self.dims[1] + y) * self.dims[0] + x
    }

    /// Whether sample `(x, y, z)` lies inside the solid.
    pub fn at(&self, x: usize, y: usize, z: usize) -> (r: bool)
        requires
            self.wf(),
            x < self.dims[0],
            y < self.dims[1],
            z < self.dims[2],
        ensures
            r == self.spec_inside(x as int, y as int, z as int),
    {
        self.inside[self.lin_index(x, y, z)]
    }

    /// The sign pattern of cell `idx`: bit `z << 2 | y << 1 | x` is set where
    /// the corner at offset `(x, y, z)` lies inside.
    pub fn bitset_for_cell(&self, idx: Index) -> (r: u8)
        requires
            self.wf(),
            self.is_cell(idx),
        ensures
            r == self.cell_mask(idx),
            forall|c: Corner| (r & corner_bit(c) != 0u8) == #[trigger] self.corner_inside(idx, c),
    {
        proof {
            self.lemma_cell_mask_bits(idx);
        }
        let x = idx[0];
        let y = idx[1];
        let z = idx[2];
        let mut r: u8 = 0;
        if self.at(x, y, z) {
            r = r + 1;
        }
        if self.at(x + 1, y, z) {
            r = r + 2;
        }
        if self.at(x, y + 1, z) {
            r = r + 4;
        }
        if self.at(x + 1, y + 1, z) {
            r = r + 8;
        }
        if self.at(x, y, z + 1) {
            r = r + 16;
        }
        if self.at(x + 1, y, z + 1) {
            r = r + 32;
        }
        if self.at(x, y + 1, z + 1) {
            r = r + 64;
        }
        if self.at(x + 1, y + 1, z + 1) {
            r = r + 128;
        }
        r
    }

    /// Bit `k` of the sign pattern of cell `idx` is set exactly where corner
    /// `k` lies inside.
    pub proof fn lemma_cell_mask_bits(&self, idx: Index)
        ensures
            self.cell_mask(idx) < 256,
            forall|c: Corner|
                ((self.cell_mask(idx) as u8) & corner_bit(c) != 0u8) == #[trigger] self.corner_inside(idx, c),
    {
        lemma_mask_bits(
            self.corner_inside(idx, Corner::A),
            self.corner_inside(idx, Corner::B),
            self.corner_inside(idx, Corner::C),
            self.corner_inside(idx, Corner::D),
            self.corner_inside(idx, Corner::E),
            self.corner_inside(idx, Corner::F),
            self.corner_inside(idx, Corner::G),
            self.corner_inside(idx, Corner::H),
        );
    }

    /// Appends base edge `e` of cell `idx` to `r` if the field changes sign along it.
    fn push_if_crossing(&self, r: &mut Vec<(Edge, Index)>, e: Edge, idx: Index)
        requires
            self.wf(),
            e.is_base(),
            self.is_cell(idx),
            self.collected(
                old(r)@,
                (idx[2] as int, idx[1] as int, idx[0] as int, e.spec_index() as int),
            ),
        ensures
            self.collected(
                final(r)@,
                (idx[2] as int, idx[1] as int, idx[0] as int, e.spec_index() as int + 1),
            ),
    {
        let o = end_offset(e);
        let a = self.at(idx[0], idx[1], idx[2]);
        let b = self.at(idx[0] + o[0], idx[1] + o[1], idx[2] + o[2]);
        if a != b {
            let ghost before = r@;
            r.push((e, idx));
            proof {
                assert(r@[before.len() as int] == (e, idx));
                assert forall|q: (Edge, Index)|
                    #![trigger self.is_crossing(q)]
                    self.is_crossing(q) && key_lt(
                        edge_key(q),
                        (idx[2] as int, idx[1] as int, idx[0] as int, e.spec_index() as int + 1),
                    ) implies r@.contains(q) by {
                    if key_lt(
                        edge_key(q),
                        (idx[2] as int, idx[1] as int, idx[0] as int, e.spec_index() as int),
                    ) {
                        let i = choose|i: int| 0 <= i < before.len() && before[i] == q;
                        assert(r@[i] == q);
                    } else {
                        assert(q.1 =~= idx);
                        assert(q == (e, idx));
                    }
                };
            }
        } else {
            proof {
                assert forall|q: (Edge, Index)|
                    #![trigger self.is_crossing(q)]
                    self.is_crossing(q) && key_lt(
                        edge_key(q),
                        (idx[2] as int, idx[1] as int, idx[0] as int, e.spec_index() as int + 1),
                    ) implies r@.contains(q) by {
                    if !key_lt(
                        edge_key(q),
                        (idx[2] as int, idx[1] as int, idx[0] as int, e.spec_index() as int),
                    ) {
                        assert(q.1 =~= idx);
                        assert(q == (e, idx));
                    }
                };
            }
        }
    }

    /// The base edges of all cells along which the field changes sign, ordered
    /// by z, then y, then x, then edge.
    pub fn find_crossings(&self) -> (r: Vec<(Edge, Index)>)
        requires
            self.wf(),
        ensures
            sorted_edges(r@),
            forall|i: int| 0 <= i < r.len() ==> self.is_crossing(#[trigger] r@[i]),
            forall|q: (Edge, Index)| #[trigger] self.is_crossing(q) ==> r@.contains(q),
    {
        let mut r: Vec<(Edge, Index)> = Vec::new();
        let mut z: usize = 0;
        while z + 1 < self.dims[2]
            invariant
                self.wf(),
                z + 1 <= self.dims[2] || z == 0,
                self.collected(r@, (z as int, 0, 0, 0)),
            decreases self.dims[2] - z,
        {
            let mut y: usize = 0;
            while y + 1 < self.dims[1]
                invariant
                    self.wf(),
                    z + 1 < self.dims[2],
                    y + 1 <= self.dims[1] || y == 0,
                    self.collected(r@, (z as int, y as int, 0, 0)),
                decreases self.dims[1] - y,
            {
                let mut x: usize = 0;
                while x + 1 < self.dims[0]
                    invariant
                        self.wf(),
                        z + 1 < self.dims[2],
                        y + 1 < self.dims[1],
                        x + 1 <= self.dims[0] || x == 0,
                        self.collected(r@, (z as int, y as int, x as int, 0)),
                    decreases self.dims[0] - x,
                {
                    self.push_if_crossing(&mut r, Edge::A, [x, y, z]);
                    self.push_if_crossing(&mut r, Edge::B, [x, y, z]);
                    self.push_if_crossing(&mut r, Edge::C, [x, y, z]);
                    x = x + 1;
                }
                y = y + 1;
            }
            z = z + 1;
        }
        r
    }
}

} // verus!
