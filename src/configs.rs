use vstd::prelude::*;
use crate::cube::{spec_edge, Edge};
use crate::index::{offset, Index};

verus! {

/// Bit `e` of the edge set `p` is set.
pub open spec fn has_edge(p: u16, e: nat) -> bool {
    e < 16 && (p >> (e as u16)) & 1u16 == 1u16
}

/// The first edge set in `parts` that holds edge `e`.
pub open spec fn connected_edges(parts: Seq<u16>, e: nat) -> Option<u16>
    decreases parts.len(),
{
    if parts.len() == 0 {
        None
    } else if has_edge(parts[0], e) {
        Some(parts[0])
    } else {
        connected_edges(parts.drop_first(), e)
    }
}

/// For each of the 256 sign patterns of a cell, the sets of its edges (bit `e`
/// for edge `e`) that belong to one sheet of the surface inside the cell, and so
/// share one vertex.
pub struct CellConfigs {
    pub table: Vec<Vec<u16>>,
}

impl CellConfigs {
    pub open spec fn wf(&self) -> bool {
        self.table@.len() == 256
    }

    /// The edge set that holds `e` in cells of sign pattern `mask`.
    pub open spec fn spec_connected(&self, e: Edge, mask: nat) -> Option<u16> {
        connected_edges(self.table@[mask as int]@, e.spec_index())
    }

    /// A table with one list of edge sets per sign pattern, or `None` where
    /// `table` does not hold exactly 256 lists.
    pub fn new(table: Vec<Vec<u16>>) -> (r: Option<CellConfigs>)
        ensures
            r.is_some() <==> table@.len() == 256,
            r matches Some(c) ==> c.wf() && c.table@ == table@,
    {
        if table.len() == 256 {
            Some(CellConfigs { table })
        } else {
            None
        }
    }

    /// The first edge set listed for sign pattern `cell` that holds `edge`,
    /// or `None` where none does.
    pub fn get_connected_edges(&self, edge: Edge, cell: u8) -> (r: Option<u16>)
        requires
            self.wf(),
        ensures
            r == self.spec_connected(edge, cell as nat),
    {
        let parts = &self.table[cell as usize];
        let e = edge.index();
        let mut i: usize = 0;
        assert(parts@.subrange(0, parts@.len() as int) =~= parts@);
        while i < parts.len()
            invariant
                self.wf(),
                parts@ == self.table@[cell as int]@,
                e == edge.spec_index(),
                e < 12,
                i <= parts@.len(),
                connected_edges(parts@, e as nat) == connected_edges(
                    parts@.subrange(i as int, parts@.len() as int),
                    e as nat,
                ),
            decreases parts@.len() - i,
        {
            let p = parts[i];
            let ghost rest = parts@.subrange(i as int, parts@.len() as int);
            assert(rest[0] == p);
            assert(rest.drop_first() =~= parts@.subrange(i + 1, parts@.len() as int));
            if (p >> (e as u16)) & 1u16 == 1u16 {
                assert(has_edge(p, e as nat));
                return Some(p);
            }
            i = i + 1;
        }
        assert(parts@.subrange(i as int, parts@.len() as int).len() == 0);
        None
    }
}

/// The edges of the set `p`, in increasing order.
pub fn partition_edges(p: u16) -> (r: Vec<Edge>)
    ensures
        forall|i: int, j: int|
            0 <= i < j < r.len() ==> (#[trigger] r@[i]).spec_index() < (#[trigger] r@[j]).spec_index(),
        forall|i: int| 0 <= i < r.len() ==> has_edge(p, (#[trigger] r@[i]).spec_index()),
        forall|e: nat| e < 12 && #[trigger] has_edge(p, e) ==> r@.contains(spec_edge(e)),
{
    let mut r: Vec<Edge> = Vec::new();
    let mut e: usize = 0;
    while e < 12
        invariant
            e <= 12,
            forall|i: int|
                0 <= i < r.len() ==> (#[trigger] r@[i]).spec_index() < e,
            forall|i: int, j: int|
                0 <= i < j < r.len() ==> (#[trigger] r@[i]).spec_index() < (
                #[trigger] r@[j]).spec_index(),
            forall|i: int| 0 <= i < r.len() ==> has_edge(p, (#[trigger] r@[i]).spec_index()),
            forall|k: nat| k < e && #[trigger] has_edge(p, k) ==> r@.contains(spec_edge(k)),
        decreases 12 - e,
    {
        if (p >> (e as u16)) & 1u16 == 1u16 {
            let ghost before = r@;
            let edge = Edge::from_usize(e);
            r.push(edge);
            proof {
                assert(r@[before.len() as int] == edge);
                assert forall|k: nat| k < e + 1 && #[trigger] has_edge(p, k) implies r@.contains(
                    spec_edge(k),
                ) by {
                    if k < e {
                        let i = choose|i: int| 0 <= i < before.len() && before[i] == spec_edge(k);
                        assert(r@[i] == spec_edge(k));
                    }
                };
            }
        }
        e = e + 1;
    }
    r
}

/// Where the crossing data of edge `edge` of cell `cell` is kept: the base edge
/// along the same axis, of the cell that has it as one of its own base edges.
pub fn edge_data_key(edge: Edge, cell: Index) -> (r: (Edge, Index))
    requires
        cell[0] < usize::MAX,
        cell[1] < usize::MAX,
        cell[2] < usize::MAX,
    ensures
        r.0 == edge.spec_base(),
        r.1[0] == cell[0] + edge.spec_cell_offset().0,
        r.1[1] == cell[1] + edge.spec_cell_offset().1,
        r.1[2] == cell[2] + edge.spec_cell_offset().2,
{
    (edge.base(), offset(cell, edge.cell_offset()))
}

} // verus!
