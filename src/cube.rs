use vstd::prelude::*;
use crate::index::Index;

verus! {

//  Corners of a cell (bit 0: +x, bit 1: +y, bit 2: +z from the cell origin o = A)
//
//      G---------------H
//     /|              /|
//    E---------------F |
//    | C-------------|-D
//    |/              |/
//    A---------------B
#[derive(Clone, Copy, Debug, PartialEq, Eq, Structural)]
pub enum Corner {
    A,
    B,
    C,
    D,
    E,
    F,
    G,
    H,
}

/// Two corners are joined by an edge of the cube when their positions differ
/// along exactly one axis.
pub open spec fn adjacent(a: Corner, b: Corner) -> bool {
    let (ax, ay, az) = a.spec_offset();
    let (bx, by, bz) = b.spec_offset();
    (if ax == bx { 0int } else { 1int }) + (if ay == by { 0int } else { 1int }) + (if az == bz {
        0int
    } else {
        1int
    }) == 1
}

impl Corner {
    /// The label's number, 0 for `A` up to 7 for `H`.
    pub open spec fn spec_index(self) -> nat {
        match self {
            Corner::A => 0,
            Corner::B => 1,
            Corner::C => 2,
            Corner::D => 3,
            Corner::E => 4,
            Corner::F => 5,
            Corner::G => 6,
            Corner::H => 7,
        }
    }

    pub fn index(&self) -> (r: usize)
        ensures
            r == self.spec_index(),
    {
        match self {
            Corner::A => 0,
            Corner::B => 1,
            Corner::C => 2,
            Corner::D => 3,
            Corner::E => 4,
            Corner::F => 5,
            Corner::G => 6,
            Corner::H => 7,
        }
    }

    /// Position of the corner relative to the cell origin: bit 0 of its
    /// number is the x step, bit 1 the y step, bit 2 the z step.
    pub open spec fn spec_offset(self) -> (nat, nat, nat) {
        let i = self.spec_index();
        (i % 2, (i / 2) % 2, i / 4)
    }

    pub fn offset(&self) -> (r: Index)
        ensures
            r[0] == self.spec_offset().0,
            r[1] == self.spec_offset().1,
            r[2] == self.spec_offset().2,
    {
        match self {
            Corner::A => [0, 0, 0],
            Corner::B => [1, 0, 0],
            Corner::C => [0, 1, 0],
            Corner::D => [1, 1, 0],
            Corner::E => [0, 0, 1],
            Corner::F => [1, 0, 1],
            Corner::G => [0, 1, 1],
            Corner::H => [1, 1, 1],
        }
    }

    /// The three corners joined to this one by an edge of the cube.
    pub fn connections(&self) -> (r: [Corner; 3])
        ensures
            forall|k: int|
                0 <= k < 3 ==> adjacent(*self, #[trigger] r[k]),
            r[0].spec_index() < r[1].spec_index() < r[2].spec_index(),
    {
        match self {
            Corner::A => [Corner::B, Corner::C, Corner::E],
            Corner::B => [Corner::A, Corner::D, Corner::F],
            Corner::C => [Corner::A, Corner::D, Corner::G],
            Corner::D => [Corner::B, Corner::C, Corner::H],
            Corner::E => [Corner::A, Corner::F, Corner::G],
            Corner::F => [Corner::B, Corner::E, Corner::H],
            Corner::G => [Corner::C, Corner::E, Corner::H],
            Corner::H => [Corner::D, Corner::F, Corner::G],
        }
    }
}

//  Edges of a cell
//
//      +-------9-------+
//     /|              /|
//    7 |            10 |
//   /  8            /  11
//  +-------6-------+   |
//  |   |           |   |
//  |   +-------3---|---+
//  2  /            5  /
//  | 1             | 4
//  |/              |/
//  o-------0-------+
//
// Edges A, B, C (0, 1, 2) leave the cell origin o along +x, +y, +z; every
// other edge is one of these three moved to a neighbouring cell. All edges run
// from lower to higher indexes.
#[derive(Clone, Copy, Debug, PartialEq, Eq, Hash, Structural)]
pub enum Edge {
    A,
    B,
    C,
    D,
    E,
    F,
    G,
    H,
    I,
    J,
    K,
    L,
}

/// The edge numbered `e`, for `e < 12`.
pub open spec fn spec_edge(e: nat) -> Edge {
    if e == 0 {
        Edge::A
    } else if e == 1 {
        Edge::B
    } else if e == 2 {
        Edge::C
    } else if e == 3 {
        Edge::D
    } else if e == 4 {
        Edge::E
    } else if e == 5 {
        Edge::F
    } else if e == 6 {
        Edge::G
    } else if e == 7 {
        Edge::H
    } else if e == 8 {
        Edge::I
    } else if e == 9 {
        Edge::J
    } else if e == 10 {
        Edge::K
    } else {
        Edge::L
    }
}

impl Edge {
    /// The label's number, 0 for `A` up to 11 for `L`.
    pub open spec fn spec_index(self) -> nat {
        match self {
            Edge::A => 0,
            Edge::B => 1,
            Edge::C => 2,
            Edge::D => 3,
            Edge::E => 4,
            Edge::F => 5,
            Edge::G => 6,
            Edge::H => 7,
            Edge::I => 8,
            Edge::J => 9,
            Edge::K => 10,
            Edge::L => 11,
        }
    }

    /// One of the three edges that leave the cell origin.
    pub open spec fn is_base(self) -> bool {
        self.spec_index() < 3
    }

    pub fn index(&self) -> (r: usize)
        ensures
            r == self.spec_index(),
    {
        match self {
            Edge::A => 0,
            Edge::B => 1,
            Edge::C => 2,
            Edge::D => 3,
            Edge::E => 4,
            Edge::F => 5,
            Edge::G => 6,
            Edge::H => 7,
            Edge::I => 8,
            Edge::J => 9,
            Edge::K => 10,
            Edge::L => 11,
        }
    }

    /// The edge numbered `e`.
    pub fn from_usize(e: usize) -> (r: Edge)
        requires
            e < 12,
        ensures
            r.spec_index() == e,
            r == spec_edge(e as nat),
    {
        match e {
            0 => Edge::A,
            1 => Edge::B,
            2 => Edge::C,
            3 => Edge::D,
            4 => Edge::E,
            5 => Edge::F,
            6 => Edge::G,
            7 => Edge::H,
            8 => Edge::I,
            9 => Edge::J,
            10 => Edge::K,
            _ => Edge::L,
        }
    }

    /// The edge among `A`, `B`, `C` that runs along the same axis.
    pub open spec fn spec_base(self) -> Edge {
        spec_edge(self.spec_index() % 3)
    }

    pub fn base(&self) -> (r: Edge)
        ensures
            r == self.spec_base(),
            r.spec_index() == self.spec_index() % 3,
    {
        Edge::from_usize(self.index() % 3)
    }

    /// The offset of the cell that owns this edge as one of its base edges.
    pub open spec fn spec_cell_offset(self) -> (nat, nat, nat) {
        match self {
            Edge::A => (0, 0, 0),
            Edge::B => (0, 0, 0),
            Edge::C => (0, 0, 0),
            Edge::D => (0, 1, 0),
            Edge::E => (1, 0, 0),
            Edge::F => (1, 0, 0),
            Edge::G => (0, 0, 1),
            Edge::H => (0, 0, 1),
            Edge::I => (0, 1, 0),
            Edge::J => (0, 1, 1),
            Edge::K => (1, 0, 1),
            Edge::L => (1, 1, 0),
        }
    }

    pub fn cell_offset(&self) -> (r: Index)
        ensures
            r[0] == self.spec_cell_offset().0,
            r[1] == self.spec_cell_offset().1,
            r[2] == self.spec_cell_offset().2,
    {
        match self {
            Edge::A => [0, 0, 0],
            Edge::B => [0, 0, 0],
            Edge::C => [0, 0, 0],
            Edge::D => [0, 1, 0],
            Edge::E => [1, 0, 0],
            Edge::F => [1, 0, 0],
            Edge::G => [0, 0, 1],
            Edge::H => [0, 0, 1],
            Edge::I => [0, 1, 0],
            Edge::J => [0, 1, 1],
            Edge::K => [1, 0, 1],
            Edge::L => [1, 1, 0],
        }
    }

    /// The two corners that the edge joins, the lower one first.
    pub open spec fn spec_corners(self) -> (Corner, Corner) {
        match self {
            Edge::A => (Corner::A, Corner::B),
            Edge::B => (Corner::A, Corner::C),
            Edge::C => (Corner::A, Corner::E),
            Edge::D => (Corner::C, Corner::D),
            Edge::E => (Corner::B, Corner::D),
            Edge::F => (Corner::B, Corner::F),
            Edge::G => (Corner::E, Corner::F),
            Edge::H => (Corner::E, Corner::G),
            Edge::I => (Corner::C, Corner::G),
            Edge::J => (Corner::G, Corner::H),
            Edge::K => (Corner::F, Corner::H),
            Edge::L => (Corner::D, Corner::H),
        }
    }

    pub fn corners(&self) -> (r: (Corner, Corner))
        ensures
            r == self.spec_corners(),
    {
        match self {
            Edge::A => (Corner::A, Corner::B),
            Edge::B => (Corner::A, Corner::C),
            Edge::C => (Corner::A, Corner::E),
            Edge::D => (Corner::C, Corner::D),
            Edge::E => (Corner::B, Corner::D),
            Edge::F => (Corner::B, Corner::F),
            Edge::G => (Corner::E, Corner::F),
            Edge::H => (Corner::E, Corner::G),
            Edge::I => (Corner::C, Corner::G),
            Edge::J => (Corner::G, Corner::H),
            Edge::K => (Corner::F, Corner::H),
            Edge::L => (Corner::D, Corner::H),
        }
    }

    /// The four edges, one in each cell round a base edge, that are this base
    /// edge seen from those cells, in the order in which they form a quad.
    pub open spec fn spec_quad(self) -> Seq<Edge> {
        match self {
            Edge::A => seq![Edge::A, Edge::G, Edge::J, Edge::D],
            Edge::B => seq![Edge::B, Edge::E, Edge::K, Edge::H],
            _ => seq![Edge::C, Edge::I, Edge::L, Edge::F],
        }
    }

    pub fn quad(&self) -> (r: [Edge; 4])
        requires
            self.is_base(),
        ensures
            r@ == self.spec_quad(),
    {
        match self {
            Edge::A => [Edge::A, Edge::G, Edge::J, Edge::D],
            Edge::B => [Edge::B, Edge::E, Edge::K, Edge::H],
            _ => [Edge::C, Edge::I, Edge::L, Edge::F],
        }
    }
}

/// The sample offset of the far end of a base edge.
pub open spec fn spec_end_offset(e: Edge) -> (nat, nat, nat) {
    match e {
        Edge::A => (1, 0, 0),
        Edge::B => (0, 1, 0),
        _ => (0, 0, 1),
    }
}

pub fn end_offset(e: Edge) -> (r: Index)
    requires
        e.is_base(),
    ensures
        r[0] == spec_end_offset(e).0,
        r[1] == spec_end_offset(e).1,
        r[2] == spec_end_offset(e).2,
{
    match e {
        Edge::A => [1, 0, 0],
        Edge::B => [0, 1, 0],
        _ => [0, 0, 1],
    }
}

} // verus!
