//! Running cell processes and applying cell updates.

use cellular_automata::cells::Process;
use cellular_automata::cells::apply_cell_updates;
use cellular_automata::cells::run_process;
use cellular_automata::cells::run_processes;
use cellular_automata::examples::ExampleCellProcess;
use cellular_automata::process::Action;
use cellular_automata::process::CellUpdate;
use cellular_automata::process::Value;
use cellular_automata::state::CellIndex;
use cellular_automata::state::CellState;
use cellular_automata::state::GlobalState;
use cellular_automata::state::Position;

fn origin() -> Position {
    Position {
        x_micro_deg: 0,
        y_micro_deg: 0,
    }
}

fn demo_cells() -> Vec<CellState> {
    vec![
        CellState::new(0, origin(), 100),
        CellState::new(1, origin(), 100),
        CellState::new(2, origin(), 100),
    ]
}

fn demo_network() -> Vec<Vec<CellIndex>> {
    vec![
        vec![CellIndex(1), CellIndex(2)],
        vec![CellIndex(0), CellIndex(2)],
        vec![CellIndex(0), CellIndex(1)],
    ]
}

fn demo_neighbours(cells: &[CellState]) -> Vec<CellState> {
    vec![cells[1], cells[2]]
}

/// Two registrations of the demo process: it couples the observed global
/// population back into the cell and counts one global act per cell.
fn demo_processes() -> Vec<Process<ExampleCellProcess>> {
    vec![
        Process::new(0, ExampleCellProcess::AddGlobalPopulation),
        Process::new(1, ExampleCellProcess::AddGlobalPopulation),
    ]
}

fn add_population(target: u32, amount: i64) -> CellUpdate {
    CellUpdate {
        action: Action::ADD,
        target_cell: CellIndex(target),
        target_field: "population".to_owned(),
        value: Value::NumberI(amount),
    }
}

fn demo_cell_updates() -> Vec<CellUpdate> {
    vec![
        add_population(0, 11),
        add_population(0, 11),
        add_population(1, 11),
        add_population(1, 11),
        add_population(2, 11),
        add_population(2, 11),
    ]
}

fn run_demo_process() -> (
    Vec<CellUpdate>,
    Vec<cellular_automata::global::GlobalUpdate>,
) {
    let cells = demo_cells();
    let neighbours = demo_neighbours(&cells);
    let processes = demo_processes();
    let global_state = GlobalState::new(0);
    run_process(&cells[0], &processes[0], &neighbours, &global_state)
}

fn run_demo_processes() -> (
    Vec<CellUpdate>,
    Vec<cellular_automata::global::GlobalUpdate>,
) {
    let cells = demo_cells();
    let network = demo_network();
    let processes = demo_processes();
    let global_state = GlobalState::new(0);
    run_processes(&cells, &network, &processes, &global_state)
}

#[test]
fn can_run_process() {
    run_demo_process();
}

#[test]
fn can_get_cell_state_updates_from_process() {
    let updates = run_demo_process();
    assert_eq!(updates.0.len(), 1);
    assert_eq!(updates.0[0].target_cell, CellIndex(0));
    assert_eq!(updates.0[0], add_population(0, 0));
}

#[test]
fn can_get_global_state_updates_from_process() {
    let updates = run_demo_process();
    assert_eq!(updates.1.len(), 1);
    assert_eq!(updates.1[0].id, "Global act for 0".to_owned());
}

#[test]
fn run_can_run_process() {
    run_demo_processes();
}

#[test]
fn run_can_get_cell_state_updates_from_process() {
    let updates = run_demo_processes();
    assert_eq!(updates.0.len(), 6);
    let targets: Vec<u32> = updates.0.iter().map(|u| u.target_cell.0).collect();
    assert_eq!(targets, vec![0, 0, 1, 1, 2, 2]);
}

#[test]
fn run_can_get_global_state_updates_from_process() {
    let updates = run_demo_processes();
    assert_eq!(updates.1.len(), 6);
    let ids: Vec<String> = updates.1.iter().map(|u| u.id.clone()).collect();
    assert_eq!(
        ids,
        vec![
            "Global act for 0".to_owned(),
            "Global act for 0".to_owned(),
            "Global act for 1".to_owned(),
            "Global act for 1".to_owned(),
            "Global act for 2".to_owned(),
            "Global act for 2".to_owned(),
        ]
    );
}

#[test]
fn should_apply_population_addition_update_to_cell_and_increase_population() {
    let cells_in = demo_cells();
    let updates = vec![add_population(0, 99)];
    let updated_cells = apply_cell_updates(cells_in, updates);
    assert_eq!(updated_cells[0].population, 199);
}

#[test]
fn should_get_example_updates_and_apply_to_cells_changing_population() {
    let cells_in = demo_cells();
    let cell_updates = demo_cell_updates();
    let updated_cells = apply_cell_updates(cells_in, cell_updates);
    assert_eq!(updated_cells[0].population, 122);
}
