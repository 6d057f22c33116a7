use vstd::prelude::*;

verus! {

/// A grid position `(x, y, z)`, addressing samples or cells.
pub type Index = [usize; 3];

/// Componentwise sum of a position and an offset.
pub fn offset(idx: Index, off: Index) -> (r: Index)
    requires
        idx[0] + off[0] <= usize::MAX,
        idx[1] + off[1] <= usize::MAX,
        idx[2] + off[2] <= usize::MAX,
    ensures
        r[0] == idx[0] + off[0],
        r[1] == idx[1] + off[1],
        r[2] == idx[2] + off[2],
{
    [idx[0] + off[0], idx[1] + off[1], idx[2] + off[2]]
}

/// Componentwise difference of a position and an offset.
pub fn neg_offset(idx: Index, off: Index) -> (r: Index)
    requires
        off[0] <= idx[0],
        off[1] <= idx[1],
        off[2] <= idx[2],
    ensures
        r[0] == idx[0] - off[0],
        r[1] == idx[1] - off[1],
        r[2] == idx[2] - off[2],
{
    [idx[0] - off[0], idx[1] - off[1], idx[2] - off[2]]
}

} // verus!
