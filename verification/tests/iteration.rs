//! Full iteration steps through the orchestrator.

use cellular_automata::cells::Process as CellProcess;
use cellular_automata::examples::ExampleCellProcess;
use cellular_automata::examples::ExampleGlobalProcess;
use cellular_automata::examples::default_cell_processes;
use cellular_automata::examples::default_global_processes;
use cellular_automata::global::Process as GlobalProcess;
use cellular_automata::run::run_iteration;
use cellular_automata::run::setup_initial_state;
use cellular_automata::state::CellState;
use cellular_automata::state::GlobalState;
use cellular_automata::state::IterationState;
use cellular_automata::state::Position;
use geo::Distance;
use geo::Geodesic;
use geo::Point;

const THRESHOLD_M: u64 = 80_000;

fn position(x_deg: f64, y_deg: f64) -> Position {
    Position {
        x_micro_deg: (x_deg * 1_000_000.0).round() as i64,
        y_micro_deg: (y_deg * 1_000_000.0).round() as i64,
    }
}

fn to_point(p: &Position) -> Point<f64> {
    Point::new(
        p.x_micro_deg as f64 / 1_000_000.0,
        p.y_micro_deg as f64 / 1_000_000.0,
    )
}

fn distance_matrix(cells: &[CellState]) -> Vec<Vec<u64>> {
    cells
        .iter()
        .map(|a| {
            cells
                .iter()
                .map(|b| Geodesic.distance(to_point(&a.position), to_point(&b.position)) as u64)
                .collect()
        })
        .collect()
}

/// Three cells; the third sits far away from the other two.
fn get_demo_cells() -> Vec<CellState> {
    vec![
        CellState::new(0, position(5.54, -0.19), 12),
        CellState::new(1, position(5.77, -0.02), 40),
        CellState::new(2, position(99.99, -0.42), 40),
    ]
}

#[test]
fn should_run_a_model_iteration_and_update_the_state() {
    let cells = get_demo_cells();
    let distances = distance_matrix(&cells);
    let initial_state = IterationState {
        global_state: GlobalState {
            iterations: 0,
            population: 0,
        },
        cells,
        network: vec![vec![]], // the network is derived inside the iteration
    };
    let cell_processes = default_cell_processes();
    let global_processes = default_global_processes();

    let final_state = run_iteration(
        &cell_processes,
        &global_processes,
        initial_state,
        false,
        &distances,
        THRESHOLD_M,
    );
    assert_eq!(final_state.cells.len(), 3);
    assert_eq!(final_state.cells[0].population, 17); // initially 12
    assert_eq!(final_state.cells[1].population, 46); // initially 40
    assert_eq!(final_state.cells[2].population, 44); // initially 40
    assert_eq!(final_state.global_state.iterations, 1); // initially 0
}

#[test]
fn should_run_processes_in_series() {
    let mut cells = get_demo_cells();
    cells[0].population = 5;
    let distances = distance_matrix(&cells);
    let initial_state = IterationState {
        global_state: GlobalState {
            iterations: 0,
            population: 0,
        },
        cells,
        network: vec![vec![]],
    };

    // The first process raises the population; the conditional reset then
    // runs against the already-committed value, so the raise survives.
    let cell_processes = vec![
        CellProcess::new(0, ExampleCellProcess::SetPopulationTo100),
        CellProcess::new(8, ExampleCellProcess::ConditionalPopReset),
    ];
    let global_processes = default_global_processes();
    let final_state = run_iteration(
        &cell_processes,
        &global_processes,
        initial_state,
        true,
        &distances,
        THRESHOLD_M,
    );
    assert_eq!(final_state.cells.len(), 3);
    assert_eq!(final_state.cells[0].population, 100); // initially 5
}

/// Under batch order the conditional reset decides from the pre-iteration
/// snapshot: even though an earlier process in the same pass raises the
/// population above the threshold, the cell ends at 0.
#[test]
fn batch_conditional_reset_decides_from_snapshot() {
    let mut cells = get_demo_cells();
    cells[0].population = 5;
    let distances = distance_matrix(&cells);
    let initial_state = IterationState {
        global_state: GlobalState {
            iterations: 0,
            population: 0,
        },
        cells,
        network: vec![vec![]],
    };
    let cell_processes = vec![
        CellProcess::new(0, ExampleCellProcess::SetPopulationTo100),
        CellProcess::new(8, ExampleCellProcess::ConditionalPopReset),
    ];
    let global_processes = default_global_processes();
    let final_state = run_iteration(
        &cell_processes,
        &global_processes,
        initial_state,
        false,
        &distances,
        THRESHOLD_M,
    );
    assert_eq!(final_state.cells[0].population, 0);
}

/// The scenario of the two default processes on a line-shaped network:
/// under batch order the first cell gains one tenth of itself (rounded
/// down) and one tenth of its single neighbour (rounded up).
#[test]
fn batch_mode_line_network_populations() {
    let cells = vec![
        CellState::new(0, position(0.0, 0.0), 12),
        CellState::new(1, position(0.5, 0.0), 40),
        CellState::new(2, position(1.0, 0.0), 40),
    ];
    let distances = distance_matrix(&cells);
    // Half a degree at the equator is within 80 km; a full degree is not.
    assert!(distances[0][1] <= THRESHOLD_M);
    assert!(distances[0][2] > THRESHOLD_M);
    let initial_state = IterationState {
        global_state: GlobalState {
            iterations: 0,
            population: 0,
        },
        cells,
        network: vec![vec![]],
    };
    let final_state = run_iteration(
        &default_cell_processes(),
        &default_global_processes(),
        initial_state,
        false,
        &distances,
        THRESHOLD_M,
    );
    assert_eq!(final_state.cells[0].population, 12 + 1 + 4);
    assert_eq!(final_state.cells[1].population, 40 + 4 + 2 + 4);
    assert_eq!(final_state.cells[2].population, 40 + 4 + 4);
}

fn ten_default_cells() -> Vec<CellState> {
    (0..10).map(|i| CellState::new(i, Position { x_micro_deg: 0, y_micro_deg: 0 }, 100)).collect()
}

#[test]
fn should_run_iteration() {
    let cells = ten_default_cells();
    let distances = distance_matrix(&cells);
    let initial_state = IterationState {
        cells: cells.clone(),
        global_state: GlobalState::default(),
        network: vec![vec![]],
    };
    let cell_processes = vec![CellProcess {
        id: 0,
        func: ExampleCellProcess::IncreasePopulationByTenth,
    }];
    let global_processes = vec![GlobalProcess {
        id: 0,
        func: ExampleGlobalProcess::Report,
    }];
    let state_out = run_iteration(
        &cell_processes,
        &global_processes,
        initial_state,
        false,
        &distances,
        THRESHOLD_M,
    );
    assert_ne!(cells, state_out.cells);
}

#[test]
fn should_return_initial_state() {
    let cells = ten_default_cells();
    let distances = distance_matrix(&cells);
    let cell_setup_processes: Vec<CellProcess<ExampleCellProcess>> = vec![];
    let global_setup_processes: Vec<GlobalProcess<ExampleGlobalProcess>> = vec![];
    let initial_state = setup_initial_state(
        Some(cell_setup_processes),
        Some(global_setup_processes),
        Some(cells.clone()),
        None,
        &distances,
        THRESHOLD_M,
    );
    assert_eq!(initial_state.cells.len(), cells.len());
}

/// A setup pass with a real setup process applies it before the first
/// regular iteration.
#[test]
fn setup_pass_runs_setup_processes() {
    let cells = ten_default_cells();
    let distances = distance_matrix(&cells);
    let cell_setup_processes = vec![CellProcess::new(0, ExampleCellProcess::SetPopulationTo100)];
    let global_setup_processes = vec![GlobalProcess::new(0, ExampleGlobalProcess::CountIteration)];
    let initial_state = setup_initial_state(
        Some(cell_setup_processes),
        Some(global_setup_processes),
        Some(cells),
        None,
        &distances,
        THRESHOLD_M,
    );
    assert!(initial_state.cells.iter().all(|c| c.population == 100));
    assert_eq!(initial_state.global_state.iterations, 1);
    // All ten cells sit at the same spot, so each lists the nine others.
    assert!(initial_state.network.iter().all(|row| row.len() == 9));
}

/// The demo coupling process counts one global act per cell and process
/// registration.
#[test]
fn global_population_counts_cell_acts() {
    let cells = ten_default_cells();
    let distances = distance_matrix(&cells);
    let initial_state = IterationState {
        cells,
        global_state: GlobalState::default(),
        network: vec![vec![]],
    };
    let cell_processes = vec![
        CellProcess::new(0, ExampleCellProcess::AddGlobalPopulation),
        CellProcess::new(1, ExampleCellProcess::AddGlobalPopulation),
    ];
    let global_processes: Vec<GlobalProcess<ExampleGlobalProcess>> = vec![];
    let state_out = run_iteration(
        &cell_processes,
        &global_processes,
        initial_state,
        false,
        &distances,
        THRESHOLD_M,
    );
    assert_eq!(state_out.global_state.population, 20);
}

/// An iteration with no registered processes returns the cells and the
/// global record unchanged: nothing advances the iteration counter by
/// itself.
#[test]
fn iteration_without_processes_changes_nothing() {
    let cells = ten_default_cells();
    let distances = distance_matrix(&cells);
    let initial_state = IterationState {
        cells: cells.clone(),
        global_state: GlobalState {
            iterations: 7,
            population: 3,
        },
        network: vec![vec![]],
    };
    let cell_processes: Vec<CellProcess<ExampleCellProcess>> = vec![];
    let global_processes: Vec<GlobalProcess<ExampleGlobalProcess>> = vec![];
    let state_out = run_iteration(
        &cell_processes,
        &global_processes,
        initial_state,
        true,
        &distances,
        THRESHOLD_M,
    );
    assert_eq!(state_out.cells, cells);
    assert_eq!(
        state_out.global_state,
        GlobalState {
            iterations: 7,
            population: 3,
        }
    );
}
