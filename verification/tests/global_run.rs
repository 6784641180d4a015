//! Running global processes and applying global updates.

use cellular_automata::global::GlobalUpdate;
use cellular_automata::global::Process;
use cellular_automata::global::apply_global_updates;
use cellular_automata::global::run_processes;
use cellular_automata::examples::ExampleGlobalProcess;
use cellular_automata::process::Action;
use cellular_automata::process::Value;
use cellular_automata::state::CellIndex;
use cellular_automata::state::CellState;
use cellular_automata::state::GlobalState;
use cellular_automata::state::Position;

fn origin() -> Position {
    Position {
        x_micro_deg: 0,
        y_micro_deg: 0,
    }
}

fn demo_cells() -> Vec<CellState> {
    vec![
        CellState::new(0, origin(), 100),
        CellState::new(1, origin(), 100),
        CellState::new(2, origin(), 100),
    ]
}

fn demo_network() -> Vec<Vec<CellIndex>> {
    vec![
        vec![CellIndex(1), CellIndex(2)],
        vec![CellIndex(0), CellIndex(2)],
        vec![CellIndex(0), CellIndex(1)],
    ]
}

fn demo_processes() -> Vec<Process<ExampleGlobalProcess>> {
    vec![
        Process::new(0, ExampleGlobalProcess::Report),
        Process::new(1, ExampleGlobalProcess::CountIteration),
    ]
}

fn add_global_population(id: &str, amount: i64) -> GlobalUpdate {
    GlobalUpdate {
        id: id.to_owned(),
        action: Action::ADD,
        target_field: "population".to_owned(),
        value: Value::NumberI(amount),
    }
}

fn run_demo_processes() -> Vec<GlobalUpdate> {
    let cells = demo_cells();
    let network = demo_network();
    let processes = demo_processes();
    let global_state = GlobalState::new(0);
    run_processes(&cells, &network, &processes, &global_state)
}

#[test]
fn global_run_can_run_process() {
    run_demo_processes();
}

#[test]
fn global_run_can_get_global_state_updates_from_process() {
    let updates = run_demo_processes();
    assert_eq!(updates.len(), 2);
    assert_eq!(updates[0].id, "Example global process".to_owned());
    assert_eq!(updates[1].id, "Example global process iter".to_owned());
}

#[test]
fn should_apply_population_addition_update_to_global_and_increase_population() {
    let global_data = GlobalState::new(0);
    let updates = vec![add_global_population("Global act for 0", 11)];
    let updated_state = apply_global_updates(global_data, updates);
    assert_eq!(updated_state.population, 11);
}

#[test]
fn should_get_example_updates_and_apply_to_globalstate_changing_population() {
    let global_data = GlobalState::new(0);
    let updates = vec![
        add_global_population("Example global process", 11),
        add_global_population("Example global process iter", 11),
    ];
    let updated_state = apply_global_updates(global_data, updates);
    assert_eq!(updated_state.population, 22);
}
