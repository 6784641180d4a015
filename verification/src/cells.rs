//! Cell updates and the cell process runner: queued mutations of single
//! cells, their fold-left application to the cell collection, and the
//! evaluation of registered cell processes against the pre-iteration
//! snapshot.

use vstd::prelude::*;

use crate::process::Action;
use crate::process::CellProcessBase;
use crate::process::CellUpdate;
use crate::process::CellUpdateView;
use crate::process::Value;
use crate::process::apply_action_fixed;
use crate::process::apply_action_u32;
use crate::process::run_action_fixed;
use crate::process::run_action_u32;
use crate::process::value_is_numeric;
use crate::global::GlobalUpdate;
use crate::global::GlobalUpdateView;
use crate::state::CellIndex;
use crate::state::CellState;
use crate::state::GlobalState;

verus! {

/// Whether a name appears in the cell record's field table.  Identity and
/// position are deliberately absent: they are immutable.
pub open spec fn cell_field_known(name: Seq<char>) -> bool {
    ||| name == "population"@
    ||| name == "residential_capacity"@
    ||| name == "population_attraction"@
    ||| name == "population_birth_rate"@
    ||| name == "population_death_rate"@
}

/// Whether a name denotes one of the cell's integer fields.
pub open spec fn cell_field_integer(name: Seq<char>) -> bool {
    name == "population"@ || name == "residential_capacity"@
}

/// Whether a cell update can be applied to a collection of `n_cells`
/// cells: the target index must be a valid offset, and a payload is
/// coerced only when the name is in the field table, so only then must it
/// be numeric.
pub open spec fn cell_update_ok(u: CellUpdateView, n_cells: int) -> bool {
    &&& u.target_cell.0 < n_cells
    &&& (cell_field_known(u.target_field) ==> value_is_numeric(u.value))
}

/// Whether every update in a queue can be applied.
pub open spec fn cell_updates_ok(us: Seq<CellUpdateView>, n_cells: int) -> bool {
    forall|i: int| 0 <= i < us.len() ==> cell_update_ok(#[trigger] us[i], n_cells)
}

/// Applicability is preserved under concatenation of update queues.
pub proof fn lemma_cell_updates_ok_concat(
    a: Seq<CellUpdateView>,
    b: Seq<CellUpdateView>,
    n_cells: int,
)
    requires
        cell_updates_ok(a, n_cells),
        cell_updates_ok(b, n_cells),
    ensures
        cell_updates_ok(a + b, n_cells),
{
    assert forall|i: int| 0 <= i < (a + b).len() implies cell_update_ok(
        #[trigger] (a + b)[i],
        n_cells,
    ) by {
        if i < a.len() {
            assert((a + b)[i] == a[i]);
        } else {
            assert((a + b)[i] == b[i - a.len()]);
        }
    }
}

/// One update applied to one cell record.  An update naming a field
/// outside the table is a silent no-op.
pub open spec fn spec_apply_update_to_cell(cell: CellState, u: CellUpdateView) -> CellState {
    if u.target_field == "population"@ {
        CellState { population: apply_action_u32(cell.population, u.action, u.value), ..cell }
    } else if u.target_field == "residential_capacity"@ {
        CellState {
            residential_capacity: apply_action_u32(cell.residential_capacity, u.action, u.value),
            ..cell
        }
    } else if u.target_field == "population_attraction"@ {
        CellState {
            population_attraction: apply_action_fixed(
                cell.population_attraction,
                u.action,
                u.value,
            ),
            ..cell
        }
    } else if u.target_field == "population_birth_rate"@ {
        CellState {
            population_birth_rate: apply_action_fixed(
                cell.population_birth_rate,
                u.action,
                u.value,
            ),
            ..cell
        }
    } else if u.target_field == "population_death_rate"@ {
        CellState {
            population_death_rate: apply_action_fixed(
                cell.population_death_rate,
                u.action,
                u.value,
            ),
            ..cell
        }
    } else {
        cell
    }
}

/// One queued update applied to the cell collection: the cell at the
/// target offset is replaced, every other cell is untouched.
pub open spec fn spec_apply_cell_update(cells: Seq<CellState>, u: CellUpdateView) -> Seq<
    CellState,
> {
    cells.update(
        u.target_cell.0 as int,
        spec_apply_update_to_cell(cells[u.target_cell.0 as int], u),
    )
}

/// The first `n` queued cell updates applied in order, each to the
/// collection left by the one before it.
pub open spec fn spec_apply_cell_updates_upto(
    cells: Seq<CellState>,
    us: Seq<CellUpdateView>,
    n: int,
) -> Seq<CellState>
    decreases n,
{
    if n <= 0 {
        cells
    } else {
        spec_apply_cell_update(spec_apply_cell_updates_upto(cells, us, n - 1), us[n - 1])
    }
}

/// A whole queue of cell updates applied in order.
pub open spec fn spec_apply_cell_updates(cells: Seq<CellState>, us: Seq<CellUpdateView>) -> Seq<
    CellState,
> {
    spec_apply_cell_updates_upto(cells, us, us.len() as int)
}

/// Applying the first `n` updates only looks at the first `n` entries of
/// the queue.
proof fn lemma_apply_cell_updates_upto_take(cells: Seq<CellState>, us: Seq<CellUpdateView>, n: int)
    requires
        0 <= n <= us.len(),
    ensures
        spec_apply_cell_updates_upto(cells, us, n) == spec_apply_cell_updates(cells, us.take(n)),
    decreases n,
{
    if n > 0 {
        lemma_apply_cell_updates_upto_take(cells, us, n - 1);
        lemma_apply_cell_updates_upto_take(cells, us.take(n), n - 1);
        assert(us.take(n).take(n - 1) =~= us.take(n - 1));
    }
}

/// Fold-left application splits at any point: applying a concatenation of
/// two update queues equals applying the second queue to the collection
/// left by the first.
pub proof fn lemma_apply_cell_updates_concat(
    cells: Seq<CellState>,
    us1: Seq<CellUpdateView>,
    us2: Seq<CellUpdateView>,
)
    ensures
        spec_apply_cell_updates(cells, us1 + us2) == spec_apply_cell_updates(
            spec_apply_cell_updates(cells, us1),
            us2,
        ),
    decreases us2.len(),
{
    let both = us1 + us2;
    if us2.len() == 0 {
        assert(both =~= us1);
    } else {
        let front = us2.drop_last();
        lemma_apply_cell_updates_concat(cells, us1, front);
        assert(us1 + front =~= both.take(both.len() - 1));
        lemma_apply_cell_updates_upto_take(cells, both, both.len() - 1);
        lemma_apply_cell_updates_upto_take(spec_apply_cell_updates(cells, us1), us2, us2.len() - 1);
    }
}

/// Applying updates never changes how many cells there are.
pub proof fn lemma_apply_cell_updates_len(cells: Seq<CellState>, us: Seq<CellUpdateView>, n: int)
    requires
        n <= us.len(),
        cell_updates_ok(us, cells.len() as int),
    ensures
        spec_apply_cell_updates_upto(cells, us, n).len() == cells.len(),
    decreases n,
{
    if n > 0 {
        lemma_apply_cell_updates_len(cells, us, n - 1);
        assert(cell_update_ok(us[n - 1], cells.len() as int));
    }
}

/// Applying updates can change domain fields only: every cell keeps its
/// identity and its position, so the collection stays index-linked and any
/// distance table derived from the positions stays valid.
pub proof fn lemma_apply_cell_updates_preserves_identity(
    cells: Seq<CellState>,
    us: Seq<CellUpdateView>,
    n: int,
)
    requires
        n <= us.len(),
        cell_updates_ok(us, cells.len() as int),
    ensures
        spec_apply_cell_updates_upto(cells, us, n).len() == cells.len(),
        forall|i: int|
            0 <= i < cells.len() ==> (#[trigger] spec_apply_cell_updates_upto(cells, us, n)[i]).id
                == cells[i].id,
        forall|i: int|
            0 <= i < cells.len() ==> (#[trigger] spec_apply_cell_updates_upto(
                cells,
                us,
                n,
            )[i]).position == cells[i].position,
    decreases n,
{
    if n > 0 {
        lemma_apply_cell_updates_preserves_identity(cells, us, n - 1);
        assert(cell_update_ok(us[n - 1], cells.len() as int));
    }
}

/// An update naming a field outside the cell's field table leaves the cell
/// unchanged.
pub proof fn lemma_unknown_field_noop_on_cell(cell: CellState, u: CellUpdateView)
    requires
        !cell_field_known(u.target_field),
    ensures
        spec_apply_update_to_cell(cell, u) == cell,
{
}

/// An update naming a field outside the cell's field table leaves the
/// whole collection unchanged.
pub proof fn lemma_unknown_field_noop(cells: Seq<CellState>, u: CellUpdateView)
    requires
        !cell_field_known(u.target_field),
        0 <= u.target_cell.0 < cells.len(),
    ensures
        spec_apply_cell_update(cells, u) == cells,
{
    assert(spec_apply_cell_update(cells, u) =~= cells);
}

/// For an integer field, adding a payload and then subtracting the same
/// payload restores the cell exactly, whatever the payload: addition and
/// subtraction on an integer field are modular inverses.
pub proof fn lemma_add_sub_inverse(
    cell: CellState,
    target_cell: CellIndex,
    field: Seq<char>,
    v: Value,
)
    requires
        cell_field_integer(field),
        value_is_numeric(v),
    ensures
        ({
            let added = CellUpdateView {
                action: Action::ADD,
                target_cell,
                target_field: field,
                value: v,
            };
            let subtracted = CellUpdateView {
                action: Action::SUB,
                target_cell,
                target_field: field,
                value: v,
            };
            spec_apply_update_to_cell(spec_apply_update_to_cell(cell, added), subtracted) == cell
        }),
{
    reveal_strlit("population");
    reveal_strlit("residential_capacity");
    assert("population"@.len() == 10);
    assert("residential_capacity"@.len() == 20);
    let d = crate::process::value_to_int(v);
    if field == "population"@ {
        lemma_wrap32_add_sub(cell.population, d);
    } else {
        lemma_wrap32_add_sub(cell.residential_capacity, d);
    }
}

/// Adding a delta modulo 2^32 and then subtracting it again restores any
/// in-range value.
proof fn lemma_wrap32_add_sub(old: u32, d: int)
    ensures
        crate::process::wrap32(crate::process::wrap32(old + d) - d) == old,
{
    let w: int = 0x1_0000_0000;
    let a = crate::process::wrap32(old + d);
    vstd::arithmetic::div_mod::lemma_fundamental_div_mod(old + d, w);
    let q = (old + d) / w;
    assert(a - d == w * (-q) + old);
    vstd::arithmetic::div_mod::lemma_mod_multiples_vanish(-q, old as int, w);
    vstd::arithmetic::div_mod::lemma_small_mod(old as nat, w as nat);
}

/// One update applied to one cell record, executable counterpart of
/// [`spec_apply_update_to_cell`].
pub fn apply_update_to_cell(cell: CellState, update: &CellUpdate) -> (r: CellState)
    requires
        cell_field_known(update@.target_field) ==> value_is_numeric(update@.value),
    ensures
        r == spec_apply_update_to_cell(cell, update@),
{
    if update.target_field == "population".to_owned() {
        CellState {
            population: run_action_u32(cell.population, &update.action, &update.value),
            ..cell
        }
    } else if update.target_field == "residential_capacity".to_owned() {
        CellState {
            residential_capacity: run_action_u32(
                cell.residential_capacity,
                &update.action,
                &update.value,
            ),
            ..cell
        }
    } else if update.target_field == "population_attraction".to_owned() {
        CellState {
            population_attraction: run_action_fixed(
                cell.population_attraction,
                &update.action,
                &update.value,
            ),
            ..cell
        }
    } else if update.target_field == "population_birth_rate".to_owned() {
        CellState {
            population_birth_rate: run_action_fixed(
                cell.population_birth_rate,
                &update.action,
                &update.value,
            ),
            ..cell
        }
    } else if update.target_field == "population_death_rate".to_owned() {
        CellState {
            population_death_rate: run_action_fixed(
                cell.population_death_rate,
                &update.action,
                &update.value,
            ),
            ..cell
        }
    } else {
        cell
    }
}

/// Apply all queued cell updates to the cells, in queue order: each update
/// replaces the cell at its target offset with the result of applying its
/// action to the value the collection holds at that moment, so an earlier
/// update in the same queue is visible to a later one.  The cell order of
/// the collection is preserved.
pub fn apply_cell_updates(cells_in: Vec<CellState>, cell_updates: Vec<CellUpdate>) -> (r: Vec<
    CellState,
>)
    requires
        cell_updates_ok(cell_updates.deep_view(), cells_in@.len() as int),
    ensures
        r@ == spec_apply_cell_updates(cells_in@, cell_updates.deep_view()),
{
    let ghost us = cell_updates.deep_view();
    let ghost cells0 = cells_in@;
    let mut modified_cells = cells_in;
    let mut i: usize = 0;
    while i < cell_updates.len()
        invariant
            0 <= i <= cell_updates.len(),
            us == cell_updates.deep_view(),
            us.len() == cell_updates.len(),
            cell_updates_ok(us, cells0.len() as int),
            modified_cells@ == spec_apply_cell_updates_upto(cells0, us, i as int),
        decreases cell_updates.len() - i,
    {
        proof {
            assert(cell_updates@[i as int]@ == us[i as int]);
            lemma_apply_cell_updates_len(cells0, us, i as int);
        }
        let id: usize = cell_updates[i].target_cell.0 as usize;
        let updated = apply_update_to_cell(modified_cells[id], &cell_updates[i]);
        modified_cells.set(id, updated);
        i += 1;
    }
    modified_cells
}

/// A registered cell process: a label for diagnostics and ordering, and
/// the pluggable behaviour itself.
pub struct Process<P> {
    pub id: u32,
    pub func: P,
}

impl<P: CellProcessBase> Process<P> {
    pub fn new(id: u32, func: P) -> (r: Process<P>)
        ensures
            r.id == id,
            r.func == func,
    {
        Process { id, func }
    }
}

/// The neighbour states selected by one row of the network: the cell
/// stored at each listed offset, in row order.
pub open spec fn spec_neighbours(cells: Seq<CellState>, row: Seq<CellIndex>) -> Seq<CellState> {
    row.map_values(|ci: CellIndex| cells[ci.0 as int])
}

/// Whether every index in the network refers to one of `n` cells.
pub open spec fn network_in_range(network: Seq<Seq<CellIndex>>, n: int) -> bool {
    forall|i: int, j: int|
        0 <= i < network.len() && 0 <= j < network[i].len() ==> (#[trigger] network[i][j]).0 < n
}

/// Look up the states of a cell's neighbours, in row order.
fn collect_neighbours(cells: &Vec<CellState>, row: &Vec<CellIndex>) -> (r: Vec<CellState>)
    requires
        forall|j: int| 0 <= j < row@.len() ==> (#[trigger] row@[j]).0 < cells@.len(),
    ensures
        r@ == spec_neighbours(cells@, row@),
{
    let mut r: Vec<CellState> = Vec::new();
    let mut j: usize = 0;
    while j < row.len()
        invariant
            0 <= j <= row.len(),
            forall|k: int| 0 <= k < row@.len() ==> (#[trigger] row@[k]).0 < cells@.len(),
            r@ == spec_neighbours(cells@, row@.take(j as int)),
        decreases row.len() - j,
    {
        r.push(cells[row[j].0 as usize]);
        proof {
            assert(row@.take(j + 1) =~= row@.take(j as int).push(row@[j as int]));
            assert(r@ =~= spec_neighbours(cells@, row@.take(j + 1)));
        }
        j += 1;
    }
    proof {
        assert(row@.take(row@.len() as int) =~= row@);
    }
    r
}

/// The updates queued by the first `n` registered processes when run on
/// one cell, all evaluated against the same snapshot.
pub open spec fn spec_run_processes_on_cell_upto<P: CellProcessBase>(
    processes: Seq<Process<P>>,
    cell: CellState,
    neighbours: Seq<CellState>,
    global: GlobalState,
    n: int,
) -> (Seq<CellUpdateView>, Seq<GlobalUpdateView>)
    decreases n,
{
    if n <= 0 {
        (Seq::empty(), Seq::empty())
    } else {
        let prev = spec_run_processes_on_cell_upto(processes, cell, neighbours, global, n - 1);
        let p = processes[n - 1].func;
        (
            prev.0 + p.spec_cell_updates(cell, neighbours, global),
            prev.1 + p.spec_global_updates(cell, neighbours, global),
        )
    }
}

/// The updates queued by all registered processes when run on one cell.
pub open spec fn spec_run_processes_on_cell<P: CellProcessBase>(
    processes: Seq<Process<P>>,
    cell: CellState,
    neighbours: Seq<CellState>,
    global: GlobalState,
) -> (Seq<CellUpdateView>, Seq<GlobalUpdateView>) {
    spec_run_processes_on_cell_upto(processes, cell, neighbours, global, processes.len() as int)
}

/// The updates queued by running every registered process on each of the
/// first `n` cells: the outer order is cell order, the inner order is
/// registration order, and every evaluation sees the same pre-iteration
/// snapshot.
pub open spec fn spec_run_processes_upto<P: CellProcessBase>(
    cells: Seq<CellState>,
    network: Seq<Seq<CellIndex>>,
    processes: Seq<Process<P>>,
    global: GlobalState,
    n: int,
) -> (Seq<CellUpdateView>, Seq<GlobalUpdateView>)
    decreases n,
{
    if n <= 0 {
        (Seq::empty(), Seq::empty())
    } else {
        let prev = spec_run_processes_upto(cells, network, processes, global, n - 1);
        let cell = cells[n - 1];
        let neighbours = spec_neighbours(cells, network[cell.id.0 as int]);
        let cur = spec_run_processes_on_cell(processes, cell, neighbours, global);
        (prev.0 + cur.0, prev.1 + cur.1)
    }
}

/// The updates queued by running every registered process on every cell.
pub open spec fn spec_run_processes<P: CellProcessBase>(
    cells: Seq<CellState>,
    network: Seq<Seq<CellIndex>>,
    processes: Seq<Process<P>>,
    global: GlobalState,
) -> (Seq<CellUpdateView>, Seq<GlobalUpdateView>) {
    spec_run_processes_upto(cells, network, processes, global, cells.len() as int)
}

/// Run a single process on a single cell; no update is applied here.
pub fn run_process<P: CellProcessBase>(
    cell: &CellState,
    process: &Process<P>,
    neighbours: &Vec<CellState>,
    global_state: &GlobalState,
) -> (r: (Vec<CellUpdate>, Vec<GlobalUpdate>))
    ensures
        r.0.deep_view() == process.func.spec_cell_updates(*cell, neighbours@, *global_state),
        r.1.deep_view() == process.func.spec_global_updates(*cell, neighbours@, *global_state),
{
    process.func.run(cell, neighbours, global_state)
}

/// Run every registered process on every cell against the pre-iteration
/// snapshot, collecting the queued updates in cell order and, within one
/// cell, in registration order.  No update is applied here, so no queued
/// update influences another process's input within the same pass.
pub fn run_processes<P: CellProcessBase>(
    cells: &Vec<CellState>,
    network: &Vec<Vec<CellIndex>>,
    processes: &Vec<Process<P>>,
    global_state: &GlobalState,
) -> (r: (Vec<CellUpdate>, Vec<GlobalUpdate>))
    requires
        network@.len() == cells@.len(),
        crate::state::cells_linked(cells@),
        network_in_range(network.deep_view(), cells@.len() as int),
    ensures
        (r.0.deep_view(), r.1.deep_view()) == spec_run_processes(
            cells@,
            network.deep_view(),
            processes@,
            *global_state,
        ),
{
    let ghost net = network.deep_view();
    let mut cell_updates: Vec<CellUpdate> = Vec::new();
    let mut global_updates: Vec<GlobalUpdate> = Vec::new();
    let mut i: usize = 0;
    while i < cells.len()
        invariant
            0 <= i <= cells.len(),
            net == network.deep_view(),
            net.len() == cells@.len(),
            network@.len() == cells@.len(),
            crate::state::cells_linked(cells@),
            network_in_range(net, cells@.len() as int),
            (cell_updates.deep_view(), global_updates.deep_view()) == spec_run_processes_upto(
                cells@,
                net,
                processes@,
                *global_state,
                i as int,
            ),
        decreases cells.len() - i,
    {
        let cell = cells[i];
        let cell_id: usize = cell.id.0 as usize;
        proof {
            assert(cells@[i as int].id.0 == i as int);
            assert(net[i as int] == network@[i as int]@);
        }
        let neighbours = collect_neighbours(cells, &network[cell_id]);
        let mut j: usize = 0;
        while j < processes.len()
            invariant
                0 <= j <= processes.len(),
                0 <= i < cells.len(),
                net == network.deep_view(),
                net.len() == cells@.len(),
                cell == cells@[i as int],
                cell.id.0 == i as int,
                neighbours@ == spec_neighbours(cells@, net[cell.id.0 as int]),
                ({
                    let prev = spec_run_processes_upto(
                        cells@,
                        net,
                        processes@,
                        *global_state,
                        i as int,
                    );
                    let cur = spec_run_processes_on_cell_upto(
                        processes@,
                        cell,
                        neighbours@,
                        *global_state,
                        j as int,
                    );
                    (cell_updates.deep_view(), global_updates.deep_view()) == (
                        prev.0 + cur.0,
                        prev.1 + cur.1,
                    )
                }),
            decreases processes.len() - j,
        {
            let mut updates = run_process(&cell, &processes[j], &neighbours, global_state);
            let ghost prev_c = cell_updates.deep_view();
            let ghost prev_g = global_updates.deep_view();
            let ghost chunk_c = updates.0.deep_view();
            let ghost chunk_g = updates.1.deep_view();
            cell_updates.append(&mut updates.0);
            global_updates.append(&mut updates.1);
            proof {
                assert(cell_updates.deep_view() =~= prev_c + chunk_c);
                assert(global_updates.deep_view() =~= prev_g + chunk_g);
                let prev = spec_run_processes_upto(cells@, net, processes@, *global_state, i as int);
                let cur_old = spec_run_processes_on_cell_upto(
                    processes@,
                    cell,
                    neighbours@,
                    *global_state,
                    j as int,
                );
                let cur_new = spec_run_processes_on_cell_upto(
                    processes@,
                    cell,
                    neighbours@,
                    *global_state,
                    j + 1,
                );
                assert(cur_new.0 =~= cur_old.0 + chunk_c);
                assert(cur_new.1 =~= cur_old.1 + chunk_g);
                assert(prev.0 + cur_new.0 =~= (prev.0 + cur_old.0) + chunk_c);
                assert(prev.1 + cur_new.1 =~= (prev.1 + cur_old.1) + chunk_g);
            }
            j += 1;
        }
        proof {
            let prev = spec_run_processes_upto(cells@, net, processes@, *global_state, i as int);
            let cur = spec_run_processes_on_cell(processes@, cell, neighbours@, *global_state);
            let next = spec_run_processes_upto(cells@, net, processes@, *global_state, i + 1);
            assert(next.0 == prev.0 + cur.0);
            assert(next.1 == prev.1 + cur.1);
        }
        i += 1;
    }
    (cell_updates, global_updates)
}

/// The updates queued by running one process on each of the first `n`
/// cells, in cell order, all against the same snapshot.
pub open spec fn spec_run_process_on_cells_upto<P: CellProcessBase>(
    cells: Seq<CellState>,
    network: Seq<Seq<CellIndex>>,
    process: Process<P>,
    global: GlobalState,
    n: int,
) -> (Seq<CellUpdateView>, Seq<GlobalUpdateView>)
    decreases n,
{
    if n <= 0 {
        (Seq::empty(), Seq::empty())
    } else {
        let prev = spec_run_process_on_cells_upto(cells, network, process, global, n - 1);
        let cell = cells[n - 1];
        let neighbours = spec_neighbours(cells, network[cell.id.0 as int]);
        (
            prev.0 + process.func.spec_cell_updates(cell, neighbours, global),
            prev.1 + process.func.spec_global_updates(cell, neighbours, global),
        )
    }
}

/// The updates queued by running one process on every cell.
pub open spec fn spec_run_process_on_cells<P: CellProcessBase>(
    cells: Seq<CellState>,
    network: Seq<Seq<CellIndex>>,
    process: Process<P>,
    global: GlobalState,
) -> (Seq<CellUpdateView>, Seq<GlobalUpdateView>) {
    spec_run_process_on_cells_upto(cells, network, process, global, cells.len() as int)
}

/// Run one process on every cell against the same snapshot, collecting the
/// queued updates in cell order.  No update is applied here.
pub fn run_process_on_cells<P: CellProcessBase>(
    cells: &Vec<CellState>,
    network: &Vec<Vec<CellIndex>>,
    process: &Process<P>,
    global_state: &GlobalState,
) -> (r: (Vec<CellUpdate>, Vec<GlobalUpdate>))
    requires
        network@.len() == cells@.len(),
        crate::state::cells_linked(cells@),
        network_in_range(network.deep_view(), cells@.len() as int),
    ensures
        (r.0.deep_view(), r.1.deep_view()) == spec_run_process_on_cells(
            cells@,
            network.deep_view(),
            *process,
            *global_state,
        ),
{
    let ghost net = network.deep_view();
    let mut cell_updates: Vec<CellUpdate> = Vec::new();
    let mut global_updates: Vec<GlobalUpdate> = Vec::new();
    let mut i: usize = 0;
    while i < cells.len()
        invariant
            0 <= i <= cells.len(),
            net == network.deep_view(),
            net.len() == cells@.len(),
            network@.len() == cells@.len(),
            crate::state::cells_linked(cells@),
            network_in_range(net, cells@.len() as int),
            (cell_updates.deep_view(), global_updates.deep_view()) == spec_run_process_on_cells_upto(
                cells@,
                net,
                *process,
                *global_state,
                i as int,
            ),
        decreases cells.len() - i,
    {
        let cell = cells[i];
        let cell_id: usize = cell.id.0 as usize;
        proof {
            assert(cells@[i as int].id.0 == i as int);
            assert(net[i as int] == network@[i as int]@);
        }
        let neighbours = collect_neighbours(cells, &network[cell_id]);
        let mut updates = run_process(&cell, process, &neighbours, global_state);
        let ghost prev_c = cell_updates.deep_view();
        let ghost prev_g = global_updates.deep_view();
        let ghost chunk_c = updates.0.deep_view();
        let ghost chunk_g = updates.1.deep_view();
        cell_updates.append(&mut updates.0);
        global_updates.append(&mut updates.1);
        proof {
            assert(cell_updates.deep_view() =~= prev_c + chunk_c);
            assert(global_updates.deep_view() =~= prev_g + chunk_g);
            assert(neighbours@ == spec_neighbours(cells@, net[cell.id.0 as int]));
            let next = spec_run_process_on_cells_upto(
                cells@,
                net,
                *process,
                *global_state,
                i + 1,
            );
            assert(next.0 == prev_c + chunk_c);
            assert(next.1 == prev_g + chunk_g);
        }
        i += 1;
    }
    (cell_updates, global_updates)
}

} // verus!
