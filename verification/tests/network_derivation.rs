//! Deriving the neighbour network from real geodesic distances.

use cellular_automata::network::check_is_neighbour;
use cellular_automata::network::get_network_map;
use cellular_automata::state::CellIndex;
use cellular_automata::state::CellState;
use cellular_automata::state::Position;
use geo::Distance;
use geo::Geodesic;
use geo::Point;

const THRESHOLD_M: u64 = 80_000;

fn position(x_deg: f64, y_deg: f64) -> Position {
    Position {
        x_micro_deg: (x_deg * 1_000_000.0).round() as i64,
        y_micro_deg: (y_deg * 1_000_000.0).round() as i64,
    }
}

fn to_point(p: &Position) -> Point<f64> {
    Point::new(
        p.x_micro_deg as f64 / 1_000_000.0,
        p.y_micro_deg as f64 / 1_000_000.0,
    )
}

fn geodesic_m(a: &CellState, b: &CellState) -> u64 {
    Geodesic.distance(to_point(&a.position), to_point(&b.position)) as u64
}

fn distance_matrix(cells: &[CellState]) -> Vec<Vec<u64>> {
    cells
        .iter()
        .map(|a| cells.iter().map(|b| geodesic_m(a, b)).collect())
        .collect()
}

fn demo_cells() -> Vec<CellState> {
    vec![
        CellState::new(0, position(5.54, -0.19), 12),
        CellState::new(1, position(5.77, -0.02), 40),
        CellState::new(2, position(5.94, 0.42), 40),
    ]
}

#[test]
fn returns_a_network() {
    let cells = demo_cells();
    let distances = distance_matrix(&cells);
    let network = get_network_map(&cells, &distances, THRESHOLD_M);
    assert_eq!(
        network,
        vec![
            vec![CellIndex(1)],
            vec![CellIndex(0), CellIndex(2)],
            vec![CellIndex(1)]
        ]
    );
}

#[test]
fn checks_if_is_neighbour() {
    let cells = demo_cells();
    let cell_a = &cells[0];
    let cell_b = &cells[1];
    let cell_c = &cells[2];
    let are_neighbours = check_is_neighbour(cell_a, cell_b, geodesic_m(cell_a, cell_b), THRESHOLD_M);
    assert_eq!(are_neighbours, true);
    let are_neighbours = check_is_neighbour(cell_a, cell_c, geodesic_m(cell_a, cell_c), THRESHOLD_M);
    assert_eq!(are_neighbours, false);
    let are_neighbours = check_is_neighbour(cell_b, cell_c, geodesic_m(cell_b, cell_c), THRESHOLD_M);
    assert_eq!(are_neighbours, true);
}

/// Deriving the network twice from identical inputs yields identical
/// ordered neighbour lists.
#[test]
fn derivation_is_deterministic() {
    let cells = demo_cells();
    let distances = distance_matrix(&cells);
    let first = get_network_map(&cells, &distances, THRESHOLD_M);
    let second = get_network_map(&cells, &distances, THRESHOLD_M);
    assert_eq!(first, second);
}

/// One cell lists another exactly when the other lists it back.
#[test]
fn derived_relation_is_symmetric() {
    let cells = demo_cells();
    let distances = distance_matrix(&cells);
    let network = get_network_map(&cells, &distances, THRESHOLD_M);
    for a in 0..cells.len() {
        for b in 0..cells.len() {
            let a_lists_b = network[a].contains(&CellIndex(b as u32));
            let b_lists_a = network[b].contains(&CellIndex(a as u32));
            assert_eq!(a_lists_b, b_lists_a);
        }
    }
}

/// No cell ever appears in its own neighbour list.
#[test]
fn no_cell_is_its_own_neighbour() {
    let cells = demo_cells();
    let distances = distance_matrix(&cells);
    let network = get_network_map(&cells, &distances, THRESHOLD_M);
    for a in 0..cells.len() {
        assert!(!network[a].contains(&CellIndex(a as u32)));
    }
}

/// At the host boundary the network is a table of bare integers.
#[test]
fn network_crosses_boundary_as_plain_integers() {
    let cells = demo_cells();
    let distances = distance_matrix(&cells);
    let network = get_network_map(&cells, &distances, THRESHOLD_M);
    let ids = cellular_automata::network::network_as_ids(&network);
    assert_eq!(ids, vec![vec![1], vec![0, 2], vec![1]]);
}

/// An empty collection derives an empty network.
#[test]
fn empty_collection_has_empty_network() {
    let cells: Vec<CellState> = Vec::new();
    let distances: Vec<Vec<u64>> = Vec::new();
    let network = get_network_map(&cells, &distances, THRESHOLD_M);
    assert!(network.is_empty());
}
