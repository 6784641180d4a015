//! The iteration orchestrator: one discrete time step, composed of network
//! derivation, the cell process phase, and the global process phase, in
//! either batch or per-process (serial) execution order.

use vstd::prelude::*;

use crate::cells;
use crate::cells::cell_updates_ok;
use crate::cells::lemma_apply_cell_updates_preserves_identity;
use crate::cells::network_in_range;
use crate::cells::spec_apply_cell_updates;
use crate::cells::spec_run_process_on_cells;
use crate::cells::spec_run_processes;
use crate::global;
use crate::global::global_updates_ok;
use crate::global::spec_apply_global_updates;
use crate::global::spec_run_global_processes;
use crate::network::get_network_map;
use crate::network::lemma_network_row_in_range;
use crate::network::spec_network;
use crate::process::CellProcessBase;
use crate::process::GlobalProcessBase;
use crate::state::CellIndex;
use crate::state::CellState;
use crate::state::GlobalState;
use crate::state::IterationState;
use crate::state::cells_linked;
use crate::state::distances_square;

verus! {

/// The cell phase in batch order: every process is evaluated on the
/// pre-phase snapshot of every cell, and only then is the whole update
/// queue applied.
pub open spec fn spec_batch_cell_phase<P: CellProcessBase>(
    cells: Seq<CellState>,
    network: Seq<Seq<CellIndex>>,
    processes: Seq<cells::Process<P>>,
    global: GlobalState,
) -> (Seq<CellState>, GlobalState) {
    let updates = spec_run_processes(cells, network, processes, global);
    (spec_apply_cell_updates(cells, updates.0), spec_apply_global_updates(global, updates.1))
}

/// Whether every update queued in the batch cell phase can be applied.
pub open spec fn spec_batch_cell_phase_ok<P: CellProcessBase>(
    cells: Seq<CellState>,
    network: Seq<Seq<CellIndex>>,
    processes: Seq<cells::Process<P>>,
    global: GlobalState,
) -> bool {
    let updates = spec_run_processes(cells, network, processes, global);
    cell_updates_ok(updates.0, cells.len() as int) && global_updates_ok(updates.1)
}

/// The cell phase in per-process (serial) order, after its first `n`
/// processes: each process is evaluated on all cells and its updates are
/// applied before the next process runs, so a later process observes the
/// effects of an earlier one.
pub open spec fn spec_serial_cell_phase<P: CellProcessBase>(
    cells: Seq<CellState>,
    network: Seq<Seq<CellIndex>>,
    processes: Seq<cells::Process<P>>,
    global: GlobalState,
    n: int,
) -> (Seq<CellState>, GlobalState)
    decreases n,
{
    if n <= 0 {
        (cells, global)
    } else {
        let prev = spec_serial_cell_phase(cells, network, processes, global, n - 1);
        let updates = spec_run_process_on_cells(prev.0, network, processes[n - 1], prev.1);
        (
            spec_apply_cell_updates(prev.0, updates.0),
            spec_apply_global_updates(prev.1, updates.1),
        )
    }
}

/// Whether every update queued during the first `n` serial steps can be
/// applied to the state that step observes.
pub open spec fn spec_serial_cell_phase_ok<P: CellProcessBase>(
    cells: Seq<CellState>,
    network: Seq<Seq<CellIndex>>,
    processes: Seq<cells::Process<P>>,
    global: GlobalState,
    n: int,
) -> bool
    decreases n,
{
    if n <= 0 {
        true
    } else {
        let prev = spec_serial_cell_phase(cells, network, processes, global, n - 1);
        let updates = spec_run_process_on_cells(prev.0, network, processes[n - 1], prev.1);
        spec_serial_cell_phase_ok(cells, network, processes, global, n - 1) && cell_updates_ok(
            updates.0,
            prev.0.len() as int,
        ) && global_updates_ok(updates.1)
    }
}

/// The global phase in batch order: every global process is evaluated on
/// the same snapshot, then the whole queue is applied.
pub open spec fn spec_batch_global_phase<Q: GlobalProcessBase>(
    cells: Seq<CellState>,
    processes: Seq<global::Process<Q>>,
    global: GlobalState,
) -> GlobalState {
    spec_apply_global_updates(global, spec_run_global_processes(cells, processes, global))
}

/// Whether every update queued in the batch global phase can be applied.
pub open spec fn spec_batch_global_phase_ok<Q: GlobalProcessBase>(
    cells: Seq<CellState>,
    processes: Seq<global::Process<Q>>,
    global: GlobalState,
) -> bool {
    global_updates_ok(spec_run_global_processes(cells, processes, global))
}

/// The global phase in per-process (serial) order, after its first `n`
/// processes: each global process sees the record as the previous one left
/// it.
pub open spec fn spec_serial_global_phase<Q: GlobalProcessBase>(
    cells: Seq<CellState>,
    processes: Seq<global::Process<Q>>,
    global: GlobalState,
    n: int,
) -> GlobalState
    decreases n,
{
    if n <= 0 {
        global
    } else {
        let prev = spec_serial_global_phase(cells, processes, global, n - 1);
        spec_apply_global_updates(prev, processes[n - 1].func.spec_global_updates(cells, prev))
    }
}

/// Whether every update queued during the first `n` serial global steps
/// can be applied.
pub open spec fn spec_serial_global_phase_ok<Q: GlobalProcessBase>(
    cells: Seq<CellState>,
    processes: Seq<global::Process<Q>>,
    global: GlobalState,
    n: int,
) -> bool
    decreases n,
{
    if n <= 0 {
        true
    } else {
        let prev = spec_serial_global_phase(cells, processes, global, n - 1);
        spec_serial_global_phase_ok(cells, processes, global, n - 1) && global_updates_ok(
            processes[n - 1].func.spec_global_updates(cells, prev),
        )
    }
}

/// The cells and global record produced by one full iteration step in the
/// given execution order, before the derived network is attached.
pub open spec fn spec_run_iteration<P: CellProcessBase, Q: GlobalProcessBase>(
    cell_processes: Seq<cells::Process<P>>,
    global_processes: Seq<global::Process<Q>>,
    cells: Seq<CellState>,
    global: GlobalState,
    network: Seq<Seq<CellIndex>>,
    update_per_process: bool,
) -> (Seq<CellState>, GlobalState) {
    if update_per_process {
        let phase = spec_serial_cell_phase(
            cells,
            network,
            cell_processes,
            global,
            cell_processes.len() as int,
        );
        (
            phase.0,
            spec_serial_global_phase(phase.0, global_processes, phase.1, global_processes.len() as int),
        )
    } else {
        let phase = spec_batch_cell_phase(cells, network, cell_processes, global);
        (phase.0, spec_batch_global_phase(phase.0, global_processes, phase.1))
    }
}

/// Whether every update queued anywhere in one full iteration step can be
/// applied to the state it targets.  A process whose updates name an
/// offset outside the collection, or coerce the reserved payload on a
/// known field, is a programmer error, excluded here rather than handled.
pub open spec fn spec_run_iteration_ok<P: CellProcessBase, Q: GlobalProcessBase>(
    cell_processes: Seq<cells::Process<P>>,
    global_processes: Seq<global::Process<Q>>,
    cells: Seq<CellState>,
    global: GlobalState,
    network: Seq<Seq<CellIndex>>,
    update_per_process: bool,
) -> bool {
    if update_per_process {
        let phase = spec_serial_cell_phase(
            cells,
            network,
            cell_processes,
            global,
            cell_processes.len() as int,
        );
        spec_serial_cell_phase_ok(cells, network, cell_processes, global, cell_processes.len() as int)
            && spec_serial_global_phase_ok(
            phase.0,
            global_processes,
            phase.1,
            global_processes.len() as int,
        )
    } else {
        let phase = spec_batch_cell_phase(cells, network, cell_processes, global);
        spec_batch_cell_phase_ok(cells, network, cell_processes, global)
            && spec_batch_global_phase_ok(phase.0, global_processes, phase.1)
    }
}

/// Every index of the derived network is a valid offset into the cell
/// collection.
pub proof fn lemma_network_in_range(
    cells: Seq<CellState>,
    distances: Seq<Seq<u64>>,
    threshold: u64,
)
    requires
        cells_linked(cells),
    ensures
        network_in_range(spec_network(cells, distances, threshold), cells.len() as int),
{
    let net = spec_network(cells, distances, threshold);
    assert forall|i: int, j: int|
        0 <= i < net.len() && 0 <= j < net[i].len() implies (#[trigger] net[i][j]).0
        < cells.len() by {
        lemma_network_row_in_range(cells, i, distances[i], threshold, cells.len() as int);
    }
}

/// The serial cell phase keeps the collection's length, identities and
/// positions at every step, and being applicable for all processes means
/// being applicable after any prefix of them.
proof fn lemma_serial_cell_phase_invariants<P: CellProcessBase>(
    cells: Seq<CellState>,
    network: Seq<Seq<CellIndex>>,
    processes: Seq<cells::Process<P>>,
    global: GlobalState,
    n: int,
)
    requires
        spec_serial_cell_phase_ok(cells, network, processes, global, n),
    ensures
        spec_serial_cell_phase(cells, network, processes, global, n).0.len() == cells.len(),
        forall|i: int|
            0 <= i < cells.len() ==> (#[trigger] spec_serial_cell_phase(
                cells,
                network,
                processes,
                global,
                n,
            ).0[i]).id == cells[i].id,
    decreases n,
{
    if n > 0 {
        lemma_serial_cell_phase_invariants(cells, network, processes, global, n - 1);
        let prev = spec_serial_cell_phase(cells, network, processes, global, n - 1);
        let updates = spec_run_process_on_cells(prev.0, network, processes[n - 1], prev.1);
        lemma_apply_cell_updates_preserves_identity(prev.0, updates.0, updates.0.len() as int);
    }
}

/// Run a single iteration of the simulation.
///
/// The network is derived afresh from the current cells and the supplied
/// distance table.  In batch order every cell process is evaluated against
/// the pre-iteration snapshot and all updates are applied at once; in
/// per-process order the updates of each process are applied before the
/// next process runs.  The global processes then run against the updated
/// cells, in the matching order.
pub fn run_iteration<P: CellProcessBase, Q: GlobalProcessBase>(
    cell_processes: &Vec<cells::Process<P>>,
    global_processes: &Vec<global::Process<Q>>,
    input_state: IterationState,
    update_per_process: bool,
    distances: &Vec<Vec<u64>>,
    threshold: u64,
) -> (r: IterationState)
    requires
        cells_linked(input_state.cells@),
        distances_square(distances.deep_view(), input_state.cells@.len() as int),
        spec_run_iteration_ok(
            cell_processes@,
            global_processes@,
            input_state.cells@,
            input_state.global_state,
            spec_network(input_state.cells@, distances.deep_view(), threshold),
            update_per_process,
        ),
    ensures
        r.network.deep_view() == spec_network(
            input_state.cells@,
            distances.deep_view(),
            threshold,
        ),
        (r.cells@, r.global_state) == spec_run_iteration(
            cell_processes@,
            global_processes@,
            input_state.cells@,
            input_state.global_state,
            spec_network(input_state.cells@, distances.deep_view(), threshold),
            update_per_process,
        ),
{
    let ghost cells0 = input_state.cells@;
    let ghost global0 = input_state.global_state;
    let ghost net = spec_network(cells0, distances.deep_view(), threshold);
    let network = get_network_map(&input_state.cells, distances, threshold);
    proof {
        lemma_network_in_range(cells0, distances.deep_view(), threshold);
        assert(network@.len() == net.len());
    }
    let current_state = input_state;

    let mut updated_cells = current_state.cells;
    let mut updated_global_state = current_state.global_state;
    if update_per_process {
        let mut k: usize = 0;
        while k < cell_processes.len()
            invariant
                0 <= k <= cell_processes.len(),
                net == network.deep_view(),
                net.len() == cells0.len(),
                network@.len() == cells0.len(),
                cells_linked(cells0),
                network_in_range(net, cells0.len() as int),
                spec_serial_cell_phase_ok(
                    cells0,
                    net,
                    cell_processes@,
                    global0,
                    cell_processes@.len() as int,
                ),
                (updated_cells@, updated_global_state) == spec_serial_cell_phase(
                    cells0,
                    net,
                    cell_processes@,
                    global0,
                    k as int,
                ),
            decreases cell_processes.len() - k,
        {
            proof {
                lemma_serial_ok_prefix(cells0, net, cell_processes@, global0, k + 1,
                    cell_processes@.len() as int);
                lemma_serial_cell_phase_invariants(cells0, net, cell_processes@, global0, k as int);
            }
            let (cell_updates, global_updates) = cells::run_process_on_cells(
                &updated_cells,
                &network,
                &cell_processes[k],
                &updated_global_state,
            );
            updated_cells = cells::apply_cell_updates(updated_cells, cell_updates);
            updated_global_state = global::apply_global_updates(
                updated_global_state,
                global_updates,
            );
            k += 1;
        }
        proof {
            lemma_serial_cell_phase_invariants(cells0, net, cell_processes@, global0,
                cell_processes@.len() as int);
        }
        let ghost cells1 = updated_cells@;
        let ghost global1 = updated_global_state;
        let mut k: usize = 0;
        while k < global_processes.len()
            invariant
                0 <= k <= global_processes.len(),
                updated_cells@ == cells1,
                spec_serial_global_phase_ok(
                    cells1,
                    global_processes@,
                    global1,
                    global_processes@.len() as int,
                ),
                updated_global_state == spec_serial_global_phase(
                    cells1,
                    global_processes@,
                    global1,
                    k as int,
                ),
            decreases global_processes.len() - k,
        {
            proof {
                lemma_serial_global_ok_prefix(cells1, global_processes@, global1, k + 1,
                    global_processes@.len() as int);
            }
            let update_global_actions = global_processes[k].func.run(
                &updated_cells,
                &updated_global_state,
            );
            updated_global_state = global::apply_global_updates(
                updated_global_state,
                update_global_actions,
            );
            k += 1;
        }
    } else {
        let (cell_updates, global_updates) = cells::run_processes(
            &updated_cells,
            &network,
            cell_processes,
            &updated_global_state,
        );
        updated_cells = cells::apply_cell_updates(updated_cells, cell_updates);
        updated_global_state = global::apply_global_updates(updated_global_state, global_updates);
        let update_global_actions = global::run_processes(
            &updated_cells,
            &network,
            global_processes,
            &updated_global_state,
        );
        updated_global_state = global::apply_global_updates(
            updated_global_state,
            update_global_actions,
        );
    }

    IterationState { cells: updated_cells, global_state: updated_global_state, network }
}

/// Applicability of a serial cell phase passes down to every prefix of the
/// process list.
proof fn lemma_serial_ok_prefix<P: CellProcessBase>(
    cells: Seq<CellState>,
    network: Seq<Seq<CellIndex>>,
    processes: Seq<cells::Process<P>>,
    global: GlobalState,
    k: int,
    n: int,
)
    requires
        0 <= k <= n,
        spec_serial_cell_phase_ok(cells, network, processes, global, n),
    ensures
        spec_serial_cell_phase_ok(cells, network, processes, global, k),
    decreases n,
{
    if k < n {
        lemma_serial_ok_prefix(cells, network, processes, global, k, n - 1);
    }
}

/// Applicability of a serial global phase passes down to every prefix of
/// the process list.
proof fn lemma_serial_global_ok_prefix<Q: GlobalProcessBase>(
    cells: Seq<CellState>,
    processes: Seq<global::Process<Q>>,
    global: GlobalState,
    k: int,
    n: int,
)
    requires
        0 <= k <= n,
        spec_serial_global_phase_ok(cells, processes, global, n),
    ensures
        spec_serial_global_phase_ok(cells, processes, global, k),
    decreases n,
{
    if k < n {
        lemma_serial_global_ok_prefix(cells, processes, global, k, n - 1);
    }
}

/// The state produced by the one-time setup pass: the setup processes run
/// in batch order over the supplied cells, and the network is derived from
/// the updated collection.
pub open spec fn spec_setup_initial_state<P: CellProcessBase, Q: GlobalProcessBase>(
    cell_setup_processes: Seq<cells::Process<P>>,
    global_setup_processes: Seq<global::Process<Q>>,
    cells: Seq<CellState>,
    global: GlobalState,
    network: Seq<Seq<CellIndex>>,
) -> (Seq<CellState>, GlobalState) {
    let phase = spec_batch_cell_phase(cells, network, cell_setup_processes, global);
    (phase.0, spec_batch_global_phase(phase.0, global_setup_processes, phase.1))
}

/// Run the one-time setup pass and return the initial iteration state.
///
/// Missing inputs fall back to their defaults: no cells, a default global
/// record, no processes.  The cell setup processes run in batch order;
/// the global setup processes then run against the updated cells and the
/// network derived from them.
pub fn setup_initial_state<P: CellProcessBase, Q: GlobalProcessBase>(
    cell_setup_processes: Option<Vec<cells::Process<P>>>,
    global_setup_processes: Option<Vec<global::Process<Q>>>,
    cells_data: Option<Vec<CellState>>,
    global_state: Option<GlobalState>,
    distances: &Vec<Vec<u64>>,
    threshold: u64,
) -> (r: IterationState)
    requires
        cells_linked(spec_unwrap_cells(cells_data)),
        distances_square(distances.deep_view(), spec_unwrap_cells(cells_data).len() as int),
        ({
            let cells = spec_unwrap_cells(cells_data);
            let global = spec_unwrap_global(global_state);
            let net = spec_network(cells, distances.deep_view(), threshold);
            let procs = spec_unwrap_cell_processes(cell_setup_processes);
            let phase = spec_batch_cell_phase(cells, net, procs, global);
            &&& spec_batch_cell_phase_ok(cells, net, procs, global)
            &&& spec_batch_global_phase_ok(
                phase.0,
                spec_unwrap_global_processes(global_setup_processes),
                phase.1,
            )
        }),
    ensures
        ({
            let cells = spec_unwrap_cells(cells_data);
            let global = spec_unwrap_global(global_state);
            let net = spec_network(cells, distances.deep_view(), threshold);
            let result = spec_setup_initial_state(
                spec_unwrap_cell_processes(cell_setup_processes),
                spec_unwrap_global_processes(global_setup_processes),
                cells,
                global,
                net,
            );
            &&& r.cells@ == result.0
            &&& r.global_state == result.1
            &&& r.network.deep_view() == spec_network(result.0, distances.deep_view(), threshold)
        }),
{
    let initial_cells: Vec<CellState> = match cells_data {
        Some(cells) => cells,
        None => Vec::new(),
    };
    let initial_global_state: GlobalState = match global_state {
        Some(global) => global,
        None => GlobalState { iterations: 0, population: 0 },
    };
    let cell_processes: Vec<cells::Process<P>> = match cell_setup_processes {
        Some(processes) => processes,
        None => Vec::new(),
    };
    let global_processes: Vec<global::Process<Q>> = match global_setup_processes {
        Some(processes) => processes,
        None => Vec::new(),
    };
    let ghost cells0 = initial_cells@;
    let ghost net = spec_network(cells0, distances.deep_view(), threshold);
    let initial_network = get_network_map(&initial_cells, distances, threshold);
    proof {
        lemma_network_in_range(cells0, distances.deep_view(), threshold);
        assert(initial_network.deep_view().len() == initial_network@.len());
        assert(initial_network@.len() == cells0.len());
    }
    let (cell_updates, global_updates) = cells::run_processes(
        &initial_cells,
        &initial_network,
        &cell_processes,
        &initial_global_state,
    );
    let ghost cu = cell_updates.deep_view();
    let updated_cells = cells::apply_cell_updates(initial_cells, cell_updates);
    let updated_global_state = global::apply_global_updates(initial_global_state, global_updates);
    proof {
        lemma_apply_cell_updates_preserves_identity(cells0, cu, cu.len() as int);
    }

    let final_network = get_network_map(&updated_cells, distances, threshold);

    let update_global_actions = global::run_processes(
        &updated_cells,
        &final_network,
        &global_processes,
        &updated_global_state,
    );
    let updated_global_state = global::apply_global_updates(
        updated_global_state,
        update_global_actions,
    );

    IterationState {
        cells: updated_cells,
        global_state: updated_global_state,
        network: final_network,
    }
}

/// The supplied cells, or none.
pub open spec fn spec_unwrap_cells(cells_data: Option<Vec<CellState>>) -> Seq<CellState> {
    match cells_data {
        Some(cells) => cells@,
        None => Seq::empty(),
    }
}

/// The supplied global record, or the default one.
pub open spec fn spec_unwrap_global(global_state: Option<GlobalState>) -> GlobalState {
    match global_state {
        Some(global) => global,
        None => GlobalState { iterations: 0, population: 0 },
    }
}

/// The supplied cell process list, or an empty one.
pub open spec fn spec_unwrap_cell_processes<P: CellProcessBase>(
    processes: Option<Vec<cells::Process<P>>>,
) -> Seq<cells::Process<P>> {
    match processes {
        Some(p) => p@,
        None => Seq::empty(),
    }
}

/// The supplied global process list, or an empty one.
pub open spec fn spec_unwrap_global_processes<Q: GlobalProcessBase>(
    processes: Option<Vec<global::Process<Q>>>,
) -> Seq<global::Process<Q>> {
    match processes {
        Some(p) => p@,
        None => Seq::empty(),
    }
}

} // verus!
