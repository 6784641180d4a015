//! The geometry deriver: computing the neighbour relation from the cell
//! collection and a table of pairwise distances.
//!
//! The kernel does not fix a distance model: the caller supplies the
//! pairwise distances (in the examples, geodesic distances in metres) and
//! the adjacency threshold.  Deriving the relation is O(N^2) in the number
//! of cells, which is acceptable only for small collections; a spatial
//! index may replace the scan as long as it preserves the adjacency
//! predicate and the ordering stated here.

use vstd::prelude::*;

use crate::state::CellIndex;
use crate::state::CellState;
use crate::state::cells_linked;
use crate::state::distances_square;

verus! {

/// The adjacency predicate: two cells are neighbours when they are
/// distinct and no farther apart than the threshold.
pub open spec fn spec_adjacent(a: CellState, b: CellState, distance: u64, threshold: u64) -> bool {
    a.id != b.id && distance <= threshold
}

/// The neighbour list of the cell at offset `a`, restricted to candidates
/// among the first `n` cells: the indices of the adjacent cells, in the
/// order of the cell collection itself, not sorted by distance.
pub open spec fn spec_network_row_upto(
    cells: Seq<CellState>,
    a: int,
    drow: Seq<u64>,
    threshold: u64,
    n: int,
) -> Seq<CellIndex>
    decreases n,
{
    if n <= 0 {
        Seq::empty()
    } else {
        let prev = spec_network_row_upto(cells, a, drow, threshold, n - 1);
        if spec_adjacent(cells[a], cells[n - 1], drow[n - 1], threshold) {
            prev.push(cells[n - 1].id)
        } else {
            prev
        }
    }
}

/// The full neighbour list of the cell at offset `a`.
pub open spec fn spec_network_row(
    cells: Seq<CellState>,
    a: int,
    drow: Seq<u64>,
    threshold: u64,
) -> Seq<CellIndex> {
    spec_network_row_upto(cells, a, drow, threshold, cells.len() as int)
}

/// The derived network: one neighbour list per cell, in cell order.
pub open spec fn spec_network(
    cells: Seq<CellState>,
    distances: Seq<Seq<u64>>,
    threshold: u64,
) -> Seq<Seq<CellIndex>> {
    Seq::new(cells.len(), |i: int| spec_network_row(cells, i, distances[i], threshold))
}

/// Whether the distance table is symmetric, as any table computed from a
/// distance function is.
pub open spec fn distances_symmetric(distances: Seq<Seq<u64>>, n: int) -> bool {
    forall|i: int, j: int|
        0 <= i < n && 0 <= j < n ==> #[trigger] distances[i][j] == distances[j][i]
}

/// An index is in a neighbour list exactly when it names a candidate cell
/// adjacent to the listed cell.
pub proof fn lemma_network_row_membership(
    cells: Seq<CellState>,
    a: int,
    drow: Seq<u64>,
    threshold: u64,
    n: int,
    ci: CellIndex,
)
    requires
        0 <= a < cells.len(),
        0 <= n <= cells.len(),
    ensures
        spec_network_row_upto(cells, a, drow, threshold, n).contains(ci) <==> (exists|j: int|
            0 <= j < n && spec_adjacent(cells[a], #[trigger] cells[j], drow[j], threshold) && ci
                == cells[j].id),
    decreases n,
{
    if n > 0 {
        lemma_network_row_membership(cells, a, drow, threshold, n - 1, ci);
        let prev = spec_network_row_upto(cells, a, drow, threshold, n - 1);
        let row = spec_network_row_upto(cells, a, drow, threshold, n);
        if spec_adjacent(cells[a], cells[n - 1], drow[n - 1], threshold) {
            assert(row == prev.push(cells[n - 1].id));
            if row.contains(ci) {
                let k = choose|k: int| 0 <= k < row.len() && row[k] == ci;
                if k < prev.len() {
                    assert(prev.contains(ci));
                } else {
                    assert(ci == cells[n - 1].id);
                }
            }
            if ci == cells[n - 1].id {
                assert(row[row.len() - 1] == ci);
                assert(row.contains(ci));
            }
            if prev.contains(ci) {
                let k = choose|k: int| 0 <= k < prev.len() && prev[k] == ci;
                assert(row[k] == ci);
                assert(row.contains(ci));
            }
        }
    }
}

/// Every index in a derived neighbour list is a valid offset into the cell
/// collection.
pub proof fn lemma_network_row_in_range(
    cells: Seq<CellState>,
    a: int,
    drow: Seq<u64>,
    threshold: u64,
    n: int,
)
    requires
        cells_linked(cells),
        0 <= n <= cells.len(),
    ensures
        forall|k: int|
            0 <= k < spec_network_row_upto(cells, a, drow, threshold, n).len() ==> 0 <= (
            #[trigger] spec_network_row_upto(cells, a, drow, threshold, n)[k]).0 < cells.len(),
    decreases n,
{
    if n > 0 {
        lemma_network_row_in_range(cells, a, drow, threshold, n - 1);
        let prev = spec_network_row_upto(cells, a, drow, threshold, n - 1);
        let row = spec_network_row_upto(cells, a, drow, threshold, n);
        if spec_adjacent(cells[a], cells[n - 1], drow[n - 1], threshold) {
            assert(row == prev.push(cells[n - 1].id));
            assert(cells[n - 1].id.0 == n - 1);
            assert forall|k: int| 0 <= k < row.len() implies 0 <= (#[trigger] row[k]).0
                < cells.len() by {
                if k < prev.len() {
                    assert(row[k] == prev[k]);
                } else {
                    assert(row[k] == cells[n - 1].id);
                }
            }
        }
    }
}

/// No cell is its own neighbour.
pub proof fn lemma_network_no_self(
    cells: Seq<CellState>,
    distances: Seq<Seq<u64>>,
    threshold: u64,
    a: int,
)
    requires
        0 <= a < cells.len(),
    ensures
        !spec_network(cells, distances, threshold)[a].contains(cells[a].id),
{
    lemma_network_row_membership(
        cells,
        a,
        distances[a],
        threshold,
        cells.len() as int,
        cells[a].id,
    );
}

/// The derived relation is symmetric whenever the distance table is: one
/// cell lists another exactly when the other lists it back.
pub proof fn lemma_network_symmetric(
    cells: Seq<CellState>,
    distances: Seq<Seq<u64>>,
    threshold: u64,
    a: int,
    b: int,
)
    requires
        cells_linked(cells),
        distances_square(distances, cells.len() as int),
        distances_symmetric(distances, cells.len() as int),
        0 <= a < cells.len(),
        0 <= b < cells.len(),
    ensures
        spec_network(cells, distances, threshold)[a].contains(cells[b].id) <==> spec_network(
            cells,
            distances,
            threshold,
        )[b].contains(cells[a].id),
{
    lemma_network_row_membership(
        cells,
        a,
        distances[a],
        threshold,
        cells.len() as int,
        cells[b].id,
    );
    lemma_network_row_membership(
        cells,
        b,
        distances[b],
        threshold,
        cells.len() as int,
        cells[a].id,
    );
    if spec_network(cells, distances, threshold)[a].contains(cells[b].id) {
        let j = choose|j: int|
            0 <= j < cells.len() && spec_adjacent(cells[a], #[trigger] cells[j], distances[a][j],
                threshold) && cells[b].id == cells[j].id;
        assert(j == b);
        assert(spec_adjacent(cells[b], cells[a], distances[b][a], threshold));
    }
    if spec_network(cells, distances, threshold)[b].contains(cells[a].id) {
        let j = choose|j: int|
            0 <= j < cells.len() && spec_adjacent(cells[b], #[trigger] cells[j], distances[b][j],
                threshold) && cells[a].id == cells[j].id;
        assert(j == a);
        assert(spec_adjacent(cells[a], cells[b], distances[a][b], threshold));
    }
}

/// Deriving the network is deterministic: it is a function of the cell
/// collection, the distance table and the threshold alone, so identical
/// inputs always reproduce identical ordered neighbour lists.
pub proof fn lemma_network_deterministic(
    cells: Seq<CellState>,
    distances: Seq<Seq<u64>>,
    threshold: u64,
    first: Seq<Seq<CellIndex>>,
    second: Seq<Seq<CellIndex>>,
)
    requires
        first == spec_network(cells, distances, threshold),
        second == spec_network(cells, distances, threshold),
    ensures
        first == second,
{
}

/// Decide the adjacency predicate for one ordered pair of cells, given
/// their distance.
pub fn check_is_neighbour(
    cell_a: &CellState,
    cell_b: &CellState,
    distance: u64,
    threshold: u64,
) -> (r: bool)
    ensures
        r == spec_adjacent(*cell_a, *cell_b, distance, threshold),
{
    if cell_a.id == cell_b.id {
        return false;
    }
    if distance > threshold {
        return false;
    }
    true
}

/// Derive the network from the cell collection and the pairwise distance
/// table: for every ordered pair of distinct cells, the second is listed
/// as a neighbour of the first exactly when the adjacency predicate holds,
/// and each neighbour list keeps the order of the cell collection.
pub fn get_network_map(cells: &Vec<CellState>, distances: &Vec<Vec<u64>>, threshold: u64) -> (r:
    Vec<Vec<CellIndex>>)
    requires
        distances_square(distances.deep_view(), cells@.len() as int),
    ensures
        r.deep_view() == spec_network(cells@, distances.deep_view(), threshold),
{
    let ghost dist = distances.deep_view();
    let mut network: Vec<Vec<CellIndex>> = Vec::new();
    let mut i: usize = 0;
    while i < cells.len()
        invariant
            0 <= i <= cells.len(),
            dist == distances.deep_view(),
            distances_square(dist, cells@.len() as int),
            network.deep_view().len() == i,
            forall|k: int|
                0 <= k < i ==> #[trigger] network.deep_view()[k] == spec_network_row(
                    cells@,
                    k,
                    dist[k],
                    threshold,
                ),
        decreases cells.len() - i,
    {
        let drow = &distances[i];
        proof {
            assert(drow@ == dist[i as int]);
        }
        let mut cell_network: Vec<CellIndex> = Vec::new();
        let mut j: usize = 0;
        while j < cells.len()
            invariant
                0 <= j <= cells.len(),
                0 <= i < cells.len(),
                drow@ == dist[i as int],
                drow@.len() == cells@.len(),
                cell_network@ == spec_network_row_upto(
                    cells@,
                    i as int,
                    dist[i as int],
                    threshold,
                    j as int,
                ),
            decreases cells.len() - j,
        {
            if check_is_neighbour(&cells[i], &cells[j], drow[j], threshold) {
                cell_network.push(cells[j].id);
            }
            j += 1;
        }
        let ghost prev_view = network@;
        let ghost prev_dv = network.deep_view();
        network.push(cell_network);
        proof {
            assert(network@ == prev_view.push(cell_network));
            assert(network.deep_view()[i as int] == spec_network_row(
                cells@,
                i as int,
                dist[i as int],
                threshold,
            ));
            assert forall|k: int| 0 <= k < i implies #[trigger] network.deep_view()[k]
                == spec_network_row(cells@, k, dist[k], threshold) by {
                assert(network@[k] == prev_view[k]);
                assert(network.deep_view()[k] == prev_dv[k]);
            }
        }
        i += 1;
    }
    proof {
        assert(network.deep_view() =~= spec_network(cells@, dist, threshold));
    }
    network
}

/// The network with every index as a bare integer, the form it crosses the
/// host boundary in.
pub open spec fn spec_network_as_ids(network: Seq<Seq<CellIndex>>) -> Seq<Seq<u32>> {
    network.map_values(|row: Seq<CellIndex>| row.map_values(|ci: CellIndex| ci.0))
}

/// Express the network as plain integers for the host.
pub fn network_as_ids(network: &Vec<Vec<CellIndex>>) -> (r: Vec<Vec<u32>>)
    ensures
        r.deep_view() == spec_network_as_ids(network.deep_view()),
{
    let mut r: Vec<Vec<u32>> = Vec::new();
    let mut i: usize = 0;
    while i < network.len()
        invariant
            0 <= i <= network.len(),
            r.deep_view() =~= spec_network_as_ids(network.deep_view()).take(i as int),
        decreases network.len() - i,
    {
        let row = &network[i];
        let mut ids: Vec<u32> = Vec::new();
        let mut j: usize = 0;
        while j < row.len()
            invariant
                0 <= j <= row.len(),
                ids@ =~= row@.take(j as int).map_values(|ci: CellIndex| ci.0),
            decreases row.len() - j,
        {
            ids.push(u32::from(row[j]));
            proof {
                assert(row@.take(j + 1) =~= row@.take(j as int).push(row@[j as int]));
                assert(ids@ =~= row@.take(j + 1).map_values(|ci: CellIndex| ci.0));
            }
            j += 1;
        }
        let ghost prev = r.deep_view();
        let ghost prev_view = r@;
        r.push(ids);
        proof {
            assert(row@.take(row@.len() as int) =~= row@);
            assert(ids@ =~= row@.map_values(|ci: CellIndex| ci.0));
            assert(network.deep_view()[i as int] =~= row@);
            assert(ids@ =~= network.deep_view()[i as int].map_values(|ci: CellIndex| ci.0));
            assert(r@ == prev_view.push(ids));
            assert forall|k: int| 0 <= k < prev.len() implies #[trigger] r.deep_view()[k] == prev[k] by {
                assert(r@[k] == prev_view[k]);
            }
            assert(r.deep_view()[i as int] =~= ids@);
            assert(r.deep_view() =~= spec_network_as_ids(network.deep_view()).take(i + 1));
        }
        i += 1;
    }
    proof {
        assert(spec_network_as_ids(network.deep_view()).take(network@.len() as int)
            =~= spec_network_as_ids(network.deep_view()));
    }
    r
}

} // verus!
