use dual_contour::configs::{edge_data_key, partition_edges, CellConfigs};
use dual_contour::cube::{end_offset, Corner, Edge};
use dual_contour::grid::SignGrid;
use dual_contour::index::{neg_offset, offset};
use dual_contour::topology::{DualMesh, TopologyError};

fn grid_with(dims: [usize; 3], inside: &[[usize; 3]]) -> SignGrid {
    let mut flags = vec![false; dims[0] * dims[1] * dims[2]];
    for p in inside {
        flags[(p[2] * dims[1] + p[1]) * dims[0] + p[0]] = true;
    }
    SignGrid::new(dims, flags).unwrap()
}

fn single_sheet_configs() -> CellConfigs {
    CellConfigs::new(vec![vec![0xFFF]; 256]).unwrap()
}

fn check_faces(m: &DualMesh) {
    for f in &m.faces {
        for k in 0..3 {
            assert!(f[k] < m.vertices.len());
        }
        assert_ne!(f[0], f[1]);
        assert_ne!(f[1], f[2]);
        assert_ne!(f[2], f[0]);
    }
}

#[test]
fn edge_from_usize_and_base() {
    assert_eq!(Edge::from_usize(0), Edge::A);
    assert_eq!(Edge::from_usize(7), Edge::H);
    assert_eq!(Edge::from_usize(11), Edge::L);
    assert_eq!(Edge::L.base(), Edge::C);
    assert_eq!(Edge::J.base(), Edge::A);
    assert_eq!(Edge::E.base(), Edge::B);
    assert_eq!(Edge::B.base(), Edge::B);
    for e in 0..12 {
        assert_eq!(Edge::from_usize(e).index(), e);
        assert_eq!(Edge::from_usize(e).base().index(), e % 3);
    }
}

#[test]
fn corner_tables() {
    assert_eq!(Corner::A.offset(), [0, 0, 0]);
    assert_eq!(Corner::F.offset(), [1, 0, 1]);
    assert_eq!(Corner::G.offset(), [0, 1, 1]);
    assert_eq!(Corner::D.connections().map(|c| c.index()), [1, 2, 7]);
    assert_eq!(Edge::K.corners().0.index(), Corner::F.index());
    assert_eq!(Edge::K.corners().1.index(), Corner::H.index());
    assert_eq!(end_offset(Edge::B), [0, 1, 0]);
}

#[test]
fn index_offsets() {
    assert_eq!(offset([1, 2, 3], [1, 0, 1]), [2, 2, 4]);
    assert_eq!(neg_offset([1, 2, 3], [1, 0, 1]), [0, 2, 2]);
    assert_eq!(edge_data_key(Edge::L, [4, 5, 6]), (Edge::C, [5, 6, 6]));
    assert_eq!(edge_data_key(Edge::A, [4, 5, 6]), (Edge::A, [4, 5, 6]));
}

#[test]
fn sign_grid_rejects_wrong_length() {
    assert!(SignGrid::new([2, 2, 2], vec![false; 7]).is_none());
    assert!(SignGrid::new([2, 2, 2], vec![false; 8]).is_some());
    assert!(SignGrid::new([0, 5, 5], vec![]).is_some());
    assert!(SignGrid::new([usize::MAX, 2, 0], vec![]).is_some());
    assert!(SignGrid::new([usize::MAX, 2, 1], vec![]).is_none());
}

#[test]
fn cell_mask_bits() {
    let g = grid_with([3, 3, 3], &[[1, 1, 1], [2, 1, 2]]);
    // Cell (1,1,1): corner A is (1,1,1), corner F is (2,1,2).
    assert_eq!(g.bitset_for_cell([1, 1, 1]), 1 + 32);
    // Cell (0,0,0): its corner H is (1,1,1).
    assert_eq!(g.bitset_for_cell([0, 0, 0]), 128);
    assert_eq!(g.bitset_for_cell([1, 0, 0]), 64);
}

#[test]
fn crossings_of_single_sample() {
    let g = grid_with([3, 3, 3], &[[1, 1, 1]]);
    let c = g.find_crossings();
    assert_eq!(
        c,
        vec![
            (Edge::C, [1, 1, 0]),
            (Edge::B, [1, 0, 1]),
            (Edge::A, [0, 1, 1]),
            (Edge::A, [1, 1, 1]),
            (Edge::B, [1, 1, 1]),
            (Edge::C, [1, 1, 1]),
        ]
    );
}

#[test]
fn no_crossings_without_sign_change() {
    let g = grid_with([3, 3, 3], &[]);
    assert!(g.find_crossings().is_empty());
    let m = DualMesh::build(&g, &single_sheet_configs()).unwrap();
    assert!(m.faces.is_empty());
    assert!(m.vertices.is_empty());
}

#[test]
fn connected_edges_first_match() {
    let mut table = vec![vec![0xFFFu16]; 256];
    table[5] = vec![0b0000_0000_0011, 0b0000_0000_0110, 0b1000_0000_0000];
    table[6] = vec![];
    let cfg = CellConfigs::new(table).unwrap();
    assert_eq!(cfg.get_connected_edges(Edge::B, 5), Some(0b11));
    assert_eq!(cfg.get_connected_edges(Edge::C, 5), Some(0b110));
    assert_eq!(cfg.get_connected_edges(Edge::L, 5), Some(0x800));
    assert_eq!(cfg.get_connected_edges(Edge::D, 5), None);
    assert_eq!(cfg.get_connected_edges(Edge::A, 6), None);
    assert!(CellConfigs::new(vec![vec![]; 255]).is_none());
}

#[test]
fn partition_edge_list() {
    let e = partition_edges(0b1000_0010_0101);
    assert_eq!(e, vec![Edge::A, Edge::C, Edge::F, Edge::L]);
    assert!(partition_edges(0).is_empty());
}

#[test]
fn single_inside_sample_gives_three_quads() {
    let g = grid_with([3, 3, 3], &[[1, 1, 1]]);
    let m = DualMesh::build(&g, &single_sheet_configs()).unwrap();
    // Only the three edges leaving (1,1,1) are away from the boundary.
    assert_eq!(m.quads, vec![(Edge::A, [1, 1, 1]), (Edge::B, [1, 1, 1]), (Edge::C, [1, 1, 1])]);
    assert_eq!(m.faces.len(), 6);
    // The cells round those edges: all eight round (1,1,1) but cell (0,0,0).
    assert_eq!(m.vertices.len(), 7);
    assert!(!m.vertices.iter().any(|v| v.1 == [0, 0, 0]));
    check_faces(&m);
    // The lower sample is inside, so the quad of edge A is reversed:
    // corners (1,1,1) (1,1,0) (1,0,0) (1,0,1) become faces (p3 p2 p1), (p1 p0 p3).
    let cell = |v: usize| m.vertices[v].1;
    assert_eq!(cell(m.faces[0][0]), [1, 0, 1]);
    assert_eq!(cell(m.faces[0][1]), [1, 0, 0]);
    assert_eq!(cell(m.faces[0][2]), [1, 1, 0]);
    assert_eq!(cell(m.faces[1][0]), [1, 1, 0]);
    assert_eq!(cell(m.faces[1][1]), [1, 1, 1]);
    assert_eq!(cell(m.faces[1][2]), [1, 0, 1]);
}

#[test]
fn single_outside_sample_keeps_winding() {
    let mut all = Vec::new();
    for z in 0..3 {
        for y in 0..3 {
            for x in 0..3 {
                if [x, y, z] != [1, 1, 1] {
                    all.push([x, y, z]);
                }
            }
        }
    }
    let g = grid_with([3, 3, 3], &all);
    let m = DualMesh::build(&g, &single_sheet_configs()).unwrap();
    assert_eq!(m.faces.len(), 6);
    let cell = |v: usize| m.vertices[v].1;
    assert_eq!(cell(m.faces[0][0]), [1, 1, 1]);
    assert_eq!(cell(m.faces[0][1]), [1, 1, 0]);
    assert_eq!(cell(m.faces[0][2]), [1, 0, 0]);
    assert_eq!(cell(m.faces[1][1]), [1, 0, 1]);
    check_faces(&m);
}

#[test]
fn shared_vertices_are_cached() {
    let g = grid_with([3, 3, 3], &[[1, 1, 1]]);
    let m = DualMesh::build(&g, &single_sheet_configs()).unwrap();
    for i in 0..m.vertices.len() {
        for j in 0..i {
            assert_ne!(m.vertices[i], m.vertices[j]);
        }
    }
    // Cell (1,1,1) touches all three quads and has one vertex.
    let n = m.vertices.iter().filter(|v| v.1 == [1, 1, 1]).count();
    assert_eq!(n, 1);
}

#[test]
fn two_sheets_in_one_cell() {
    // Corners A and H of cell (1,1,1) are inside: two sheets, two vertices.
    let g = grid_with([4, 4, 4], &[[1, 1, 1], [2, 2, 2]]);
    assert_eq!(g.bitset_for_cell([1, 1, 1]), 129);
    let mut table = vec![vec![0xFFFu16]; 256];
    table[129] = vec![0b0000_0000_0111, 0b1110_0000_0000];
    let cfg = CellConfigs::new(table).unwrap();
    let m = DualMesh::build(&g, &cfg).unwrap();
    let in_cell: Vec<_> = m.vertices.iter().filter(|v| v.1 == [1, 1, 1]).collect();
    assert_eq!(in_cell.len(), 2);
    assert!(in_cell.contains(&&(0b111u16, [1, 1, 1])));
    assert!(in_cell.contains(&&(0xE00u16, [1, 1, 1])));
    assert_eq!(m.faces.len(), 2 * m.quads.len());
    check_faces(&m);
}

#[test]
fn build_twice_is_identical() {
    let g = grid_with([4, 4, 4], &[[1, 1, 1], [2, 1, 1], [2, 2, 2]]);
    let a = DualMesh::build(&g, &single_sheet_configs()).unwrap();
    let b = DualMesh::build(&g, &single_sheet_configs()).unwrap();
    assert_eq!(a.quads, b.quads);
    assert_eq!(a.faces, b.faces);
    assert_eq!(a.vertices, b.vertices);
}

#[test]
fn missing_partition_is_reported() {
    let g = grid_with([3, 3, 3], &[[1, 1, 1]]);
    let cfg = CellConfigs::new(vec![vec![]; 256]).unwrap();
    match DualMesh::build(&g, &cfg) {
        Err(TopologyError::MissingPartition { edge, cell, mask }) => {
            assert_eq!(edge, Edge::A);
            assert_eq!(cell, [1, 1, 1]);
            assert_eq!(mask, 1);
        }
        Ok(_) => panic!("expected an error"),
    }
}
