//! Example processes: small domain behaviours that plug into the kernel
//! through the process traits.  They are also what the bundled tests and
//! the demo binary register.

use vstd::prelude::*;
use vstd::string::StringExecFns;

use crate::cells;
use crate::global;
use crate::global::GlobalUpdate;
use crate::global::GlobalUpdateView;
use crate::process::Action;
use crate::process::CellProcessBase;
use crate::process::CellUpdate;
use crate::process::CellUpdateView;
use crate::process::GlobalProcessBase;
use crate::process::Value;
use crate::process::sat64;
use crate::state::CellState;
use crate::state::GlobalState;

verus! {

/// The character of one decimal digit.
pub open spec fn spec_decimal_digit(d: int) -> char {
    if d == 0 {
        '0'
    } else if d == 1 {
        '1'
    } else if d == 2 {
        '2'
    } else if d == 3 {
        '3'
    } else if d == 4 {
        '4'
    } else if d == 5 {
        '5'
    } else if d == 6 {
        '6'
    } else if d == 7 {
        '7'
    } else if d == 8 {
        '8'
    } else {
        '9'
    }
}

/// The decimal digits of a nonnegative number, most significant first.
pub open spec fn spec_decimal(n: int) -> Seq<char>
    decreases n,
{
    if n < 10 {
        seq![spec_decimal_digit(n)]
    } else {
        spec_decimal(n / 10).push(spec_decimal_digit(n % 10))
    }
}

/// One decimal digit as a string slice.
fn decimal_digit_str(d: u32) -> (s: &'static str)
    requires
        d < 10,
    ensures
        s@ == seq![spec_decimal_digit(d as int)],
{
    proof {
        reveal_strlit("0");
        reveal_strlit("1");
        reveal_strlit("2");
        reveal_strlit("3");
        reveal_strlit("4");
        reveal_strlit("5");
        reveal_strlit("6");
        reveal_strlit("7");
        reveal_strlit("8");
        reveal_strlit("9");
    }
    match d {
        0 => "0",
        1 => "1",
        2 => "2",
        3 => "3",
        4 => "4",
        5 => "5",
        6 => "6",
        7 => "7",
        8 => "8",
        _ => "9",
    }
}

/// The decimal representation of a number, used to label updates after the
/// cell that queued them.
pub fn u32_decimal(n: u32) -> (s: String)
    ensures
        s@ == spec_decimal(n as int),
    decreases n,
{
    if n < 10 {
        decimal_digit_str(n).to_owned()
    } else {
        let front = u32_decimal(n / 10);
        let s = front.concat(decimal_digit_str(n % 10));
        proof {
            assert(s@ =~= spec_decimal((n / 10) as int).push(spec_decimal_digit((n % 10) as int)));
        }
        s
    }
}

/// The sum, over the first `n` neighbours, of one tenth of each
/// neighbour's population rounded up.
pub open spec fn spec_migration_sum(neighbours: Seq<CellState>, n: int) -> int
    decreases n,
{
    if n <= 0 {
        0
    } else {
        spec_migration_sum(neighbours, n - 1) + (neighbours[n - 1].population + 9) / 10
    }
}

/// The example cell-level processes.
#[derive(Debug, Clone, Copy, PartialEq, Eq, Structural)]
pub enum ExampleCellProcess {
    /// Queue an addition of one tenth of the cell's own population
    /// (rounded down) to the cell, and of one tenth of the global
    /// population (rounded down) to the global record, labelled with the
    /// cell's index.
    IncreasePopulationByTenth,
    /// Queue an addition to the cell of one tenth of each neighbour's
    /// population, each rounded up.
    PopulationMigration,
    /// Queue a reset of the cell's population to 100.
    SetPopulationTo100,
    /// Queue a write-back of the population the process observed, or of 0
    /// when that observed population is 5 or less.  Under per-process
    /// order this reads what earlier processes committed; under batch
    /// order it reads the pre-iteration snapshot.
    ConditionalPopReset,
    /// Queue an addition of the observed global population to the cell,
    /// and one count on the global record labelled after the cell.
    AddGlobalPopulation,
}

impl CellProcessBase for ExampleCellProcess {
    open spec fn spec_cell_updates(
        &self,
        cell: CellState,
        neighbours: Seq<CellState>,
        global: GlobalState,
    ) -> Seq<CellUpdateView> {
        match self {
            ExampleCellProcess::IncreasePopulationByTenth => seq![
                CellUpdateView {
                    action: Action::ADD,
                    target_cell: cell.id,
                    target_field: "population"@,
                    value: Value::NumberI((cell.population / 10) as i64),
                },
            ],
            ExampleCellProcess::PopulationMigration => seq![
                CellUpdateView {
                    action: Action::ADD,
                    target_cell: cell.id,
                    target_field: "population"@,
                    value: Value::NumberI(
                        sat64(spec_migration_sum(neighbours, neighbours.len() as int)) as i64,
                    ),
                },
            ],
            ExampleCellProcess::SetPopulationTo100 => seq![
                CellUpdateView {
                    action: Action::SET,
                    target_cell: cell.id,
                    target_field: "population"@,
                    value: Value::NumberI(100),
                },
            ],
            ExampleCellProcess::ConditionalPopReset => seq![
                CellUpdateView {
                    action: Action::SET,
                    target_cell: cell.id,
                    target_field: "population"@,
                    value: Value::NumberI(
                        if cell.population > 5 {
                            cell.population as i64
                        } else {
                            0
                        },
                    ),
                },
            ],
            ExampleCellProcess::AddGlobalPopulation => seq![
                CellUpdateView {
                    action: Action::ADD,
                    target_cell: cell.id,
                    target_field: "population"@,
                    value: Value::NumberI(global.population as i64),
                },
            ],
        }
    }

    open spec fn spec_global_updates(
        &self,
        cell: CellState,
        neighbours: Seq<CellState>,
        global: GlobalState,
    ) -> Seq<GlobalUpdateView> {
        match self {
            ExampleCellProcess::IncreasePopulationByTenth => seq![
                GlobalUpdateView {
                    id: spec_decimal(cell.id.0 as int),
                    action: Action::ADD,
                    target_field: "population"@,
                    value: Value::NumberI((global.population / 10) as i64),
                },
            ],
            ExampleCellProcess::AddGlobalPopulation => seq![
                GlobalUpdateView {
                    id: "Global act for "@ + spec_decimal(cell.id.0 as int),
                    action: Action::ADD,
                    target_field: "population"@,
                    value: Value::NumberI(1),
                },
            ],
            _ => Seq::empty(),
        }
    }

    fn run(&self, cell: &CellState, neighbours: &Vec<CellState>, global: &GlobalState) -> (r: (
        Vec<CellUpdate>,
        Vec<GlobalUpdate>,
    )) {
        match self {
            ExampleCellProcess::IncreasePopulationByTenth => {
                let cell_update = CellUpdate {
                    action: Action::ADD,
                    target_cell: cell.id,
                    target_field: "population".to_owned(),
                    value: Value::NumberI((cell.population / 10) as i64),
                };
                let global_update = GlobalUpdate {
                    id: u32_decimal(cell.id.0),
                    action: Action::ADD,
                    target_field: "population".to_owned(),
                    value: Value::NumberI((global.population / 10) as i64),
                };
                let r = (vec![cell_update], vec![global_update]);
                proof {
                    assert(r.0.deep_view() =~= self.spec_cell_updates(*cell, neighbours@, *global));
                    assert(r.1.deep_view() =~= self.spec_global_updates(
                        *cell,
                        neighbours@,
                        *global,
                    ));
                }
                r
            },
            ExampleCellProcess::PopulationMigration => {
                let mut movement: i64 = 0;
                let mut j: usize = 0;
                while j < neighbours.len()
                    invariant
                        0 <= j <= neighbours.len(),
                        0 <= spec_migration_sum(neighbours@, j as int),
                        movement == sat64(spec_migration_sum(neighbours@, j as int)),
                    decreases neighbours.len() - j,
                {
                    let tenth: u64 = ((neighbours[j].population as u64) + 9) / 10;
                    let ghost partial = spec_migration_sum(neighbours@, j as int);
                    movement = crate::process::sat_add_i64(movement, tenth as i64);
                    proof {
                        assert(spec_migration_sum(neighbours@, j + 1) == partial + tenth);
                        assert(sat64(sat64(partial) + tenth) == sat64(partial + tenth));
                    }
                    j += 1;
                }
                let cell_update = CellUpdate {
                    action: Action::ADD,
                    target_cell: cell.id,
                    target_field: "population".to_owned(),
                    value: Value::NumberI(movement),
                };
                let r = (vec![cell_update], Vec::new());
                proof {
                    assert(r.0.deep_view() =~= self.spec_cell_updates(*cell, neighbours@, *global));
                    assert(r.1.deep_view() =~= self.spec_global_updates(
                        *cell,
                        neighbours@,
                        *global,
                    ));
                }
                r
            },
            ExampleCellProcess::SetPopulationTo100 => {
                let cell_update = CellUpdate {
                    action: Action::SET,
                    target_cell: cell.id,
                    target_field: "population".to_owned(),
                    value: Value::NumberI(100),
                };
                let r = (vec![cell_update], Vec::new());
                proof {
                    assert(r.0.deep_view() =~= self.spec_cell_updates(*cell, neighbours@, *global));
                    assert(r.1.deep_view() =~= self.spec_global_updates(
                        *cell,
                        neighbours@,
                        *global,
                    ));
                }
                r
            },
            ExampleCellProcess::ConditionalPopReset => {
                let new_population: i64 = if cell.population > 5 {
                    cell.population as i64
                } else {
                    0
                };
                let cell_update = CellUpdate {
                    action: Action::SET,
                    target_cell: cell.id,
                    target_field: "population".to_owned(),
                    value: Value::NumberI(new_population),
                };
                let r = (vec![cell_update], Vec::new());
                proof {
                    assert(r.0.deep_view() =~= self.spec_cell_updates(*cell, neighbours@, *global));
                    assert(r.1.deep_view() =~= self.spec_global_updates(
                        *cell,
                        neighbours@,
                        *global,
                    ));
                }
                r
            },
            ExampleCellProcess::AddGlobalPopulation => {
                let cell_update = CellUpdate {
                    action: Action::ADD,
                    target_cell: cell.id,
                    target_field: "population".to_owned(),
                    value: Value::NumberI(global.population as i64),
                };
                let label = "Global act for ".to_owned().concat(u32_decimal(cell.id.0).as_str());
                let global_update = GlobalUpdate {
                    id: label,
                    action: Action::ADD,
                    target_field: "population".to_owned(),
                    value: Value::NumberI(1),
                };
                let r = (vec![cell_update], vec![global_update]);
                proof {
                    assert(r.0.deep_view() =~= self.spec_cell_updates(*cell, neighbours@, *global));
                    assert(r.1.deep_view() =~= self.spec_global_updates(
                        *cell,
                        neighbours@,
                        *global,
                    ));
                }
                r
            },
        }
    }
}

/// The example global-level processes.
#[derive(Debug, Clone, Copy, PartialEq, Eq, Structural)]
pub enum ExampleGlobalProcess {
    /// Queue a labelled update that changes nothing, so a run of the
    /// global phase is observable in the queue.
    Report,
    /// Queue one increment of the global iteration counter.  The
    /// orchestrator never advances the counter itself; registering this
    /// process is what makes an iteration count.
    CountIteration,
}

impl GlobalProcessBase for ExampleGlobalProcess {
    open spec fn spec_global_updates(&self, cells: Seq<CellState>, global: GlobalState) -> Seq<
        GlobalUpdateView,
    > {
        match self {
            ExampleGlobalProcess::Report => seq![
                GlobalUpdateView {
                    id: "Example global process"@,
                    action: Action::ADD,
                    target_field: "population"@,
                    value: Value::NumberI(0),
                },
            ],
            ExampleGlobalProcess::CountIteration => seq![
                GlobalUpdateView {
                    id: "Example global process iter"@,
                    action: Action::ADD,
                    target_field: "iterations"@,
                    value: Value::NumberI(1),
                },
            ],
        }
    }

    fn run(&self, cells: &Vec<CellState>, global: &GlobalState) -> (r: Vec<GlobalUpdate>) {
        match self {
            ExampleGlobalProcess::Report => {
                let update = GlobalUpdate {
                    id: "Example global process".to_owned(),
                    action: Action::ADD,
                    target_field: "population".to_owned(),
                    value: Value::NumberI(0),
                };
                let r = vec![update];
                proof {
                    assert(r.deep_view() =~= self.spec_global_updates(cells@, *global));
                }
                r
            },
            ExampleGlobalProcess::CountIteration => {
                let update = GlobalUpdate {
                    id: "Example global process iter".to_owned(),
                    action: Action::ADD,
                    target_field: "iterations".to_owned(),
                    value: Value::NumberI(1),
                };
                let r = vec![update];
                proof {
                    assert(r.deep_view() =~= self.spec_global_updates(cells@, *global));
                }
                r
            },
        }
    }
}

/// The default registration: grow each cell, then migrate between
/// neighbours.
pub open spec fn spec_default_cell_processes() -> Seq<cells::Process<ExampleCellProcess>> {
    seq![
        cells::Process { id: 0, func: ExampleCellProcess::IncreasePopulationByTenth },
        cells::Process { id: 1, func: ExampleCellProcess::PopulationMigration },
    ]
}

/// The default registration: a report, then the iteration count.
pub open spec fn spec_default_global_processes() -> Seq<global::Process<ExampleGlobalProcess>> {
    seq![
        global::Process { id: 0, func: ExampleGlobalProcess::Report },
        global::Process { id: 0, func: ExampleGlobalProcess::CountIteration },
    ]
}

/// The default cell processes, in registration order.
pub fn default_cell_processes() -> (r: Vec<cells::Process<ExampleCellProcess>>)
    ensures
        r@ == spec_default_cell_processes(),
{
    let r = vec![
        cells::Process { id: 0, func: ExampleCellProcess::IncreasePopulationByTenth },
        cells::Process { id: 1, func: ExampleCellProcess::PopulationMigration },
    ];
    proof {
        assert(r@ =~= spec_default_cell_processes());
    }
    r
}

/// The default global processes, in registration order.
pub fn default_global_processes() -> (r: Vec<global::Process<ExampleGlobalProcess>>)
    ensures
        r@ == spec_default_global_processes(),
{
    let r = vec![
        global::Process { id: 0, func: ExampleGlobalProcess::Report },
        global::Process { id: 0, func: ExampleGlobalProcess::CountIteration },
    ];
    proof {
        assert(r@ =~= spec_default_global_processes());
    }
    r
}

/// Every update an example cell process queues targets the very cell it
/// was run on and carries a numeric payload.
proof fn lemma_example_process_updates_ok(
    p: ExampleCellProcess,
    cell: CellState,
    neighbours: Seq<CellState>,
    global: GlobalState,
    n_cells: int,
)
    requires
        0 <= cell.id.0 < n_cells,
    ensures
        cells::cell_updates_ok(p.spec_cell_updates(cell, neighbours, global), n_cells),
        global::global_updates_ok(p.spec_global_updates(cell, neighbours, global)),
{
}

/// Any list of example cell processes, run on one admissible cell, queues
/// only applicable updates.
proof fn lemma_example_chunk_ok(
    processes: Seq<cells::Process<ExampleCellProcess>>,
    cell: CellState,
    neighbours: Seq<CellState>,
    global: GlobalState,
    m: int,
    n_cells: int,
)
    requires
        0 <= cell.id.0 < n_cells,
    ensures
        cells::cell_updates_ok(
            cells::spec_run_processes_on_cell_upto(processes, cell, neighbours, global, m).0,
            n_cells,
        ),
        global::global_updates_ok(
            cells::spec_run_processes_on_cell_upto(processes, cell, neighbours, global, m).1,
        ),
    decreases m,
{
    if m > 0 {
        lemma_example_chunk_ok(processes, cell, neighbours, global, m - 1, n_cells);
        lemma_example_process_updates_ok(processes[m - 1].func, cell, neighbours, global, n_cells);
        let prev = cells::spec_run_processes_on_cell_upto(processes, cell, neighbours, global, m
            - 1);
        cells::lemma_cell_updates_ok_concat(
            prev.0,
            processes[m - 1].func.spec_cell_updates(cell, neighbours, global),
            n_cells,
        );
        global::lemma_global_updates_ok_concat(
            prev.1,
            processes[m - 1].func.spec_global_updates(cell, neighbours, global),
        );
    }
}

/// In batch order, example cell processes on an index-linked collection
/// queue only applicable updates.
proof fn lemma_example_batch_updates_ok(
    cells_seq: Seq<CellState>,
    network: Seq<Seq<crate::state::CellIndex>>,
    processes: Seq<cells::Process<ExampleCellProcess>>,
    global: GlobalState,
    n: int,
)
    requires
        crate::state::cells_linked(cells_seq),
        n <= cells_seq.len(),
    ensures
        cells::cell_updates_ok(
            cells::spec_run_processes_upto(cells_seq, network, processes, global, n).0,
            cells_seq.len() as int,
        ),
        global::global_updates_ok(
            cells::spec_run_processes_upto(cells_seq, network, processes, global, n).1,
        ),
    decreases n,
{
    if n > 0 {
        lemma_example_batch_updates_ok(cells_seq, network, processes, global, n - 1);
        let cell = cells_seq[n - 1];
        let neighbours = cells::spec_neighbours(cells_seq, network[cell.id.0 as int]);
        lemma_example_chunk_ok(
            processes,
            cell,
            neighbours,
            global,
            processes.len() as int,
            cells_seq.len() as int,
        );
        let prev = cells::spec_run_processes_upto(cells_seq, network, processes, global, n - 1);
        let cur = cells::spec_run_processes_on_cell(processes, cell, neighbours, global);
        cells::lemma_cell_updates_ok_concat(prev.0, cur.0, cells_seq.len() as int);
        global::lemma_global_updates_ok_concat(prev.1, cur.1);
    }
}

/// One example cell process, run over a collection whose identities are
/// all admissible offsets, queues only applicable updates.
proof fn lemma_example_process_on_cells_ok(
    curr: Seq<CellState>,
    network: Seq<Seq<crate::state::CellIndex>>,
    process: cells::Process<ExampleCellProcess>,
    global: GlobalState,
    n: int,
    n_cells: int,
)
    requires
        n <= curr.len(),
        forall|i: int| 0 <= i < curr.len() ==> 0 <= (#[trigger] curr[i]).id.0 < n_cells,
    ensures
        cells::cell_updates_ok(
            cells::spec_run_process_on_cells_upto(curr, network, process, global, n).0,
            n_cells,
        ),
        global::global_updates_ok(
            cells::spec_run_process_on_cells_upto(curr, network, process, global, n).1,
        ),
    decreases n,
{
    if n > 0 {
        lemma_example_process_on_cells_ok(curr, network, process, global, n - 1, n_cells);
        let cell = curr[n - 1];
        let neighbours = cells::spec_neighbours(curr, network[cell.id.0 as int]);
        lemma_example_process_updates_ok(process.func, cell, neighbours, global, n_cells);
        let prev = cells::spec_run_process_on_cells_upto(curr, network, process, global, n - 1);
        cells::lemma_cell_updates_ok_concat(
            prev.0,
            process.func.spec_cell_updates(cell, neighbours, global),
            n_cells,
        );
        global::lemma_global_updates_ok_concat(
            prev.1,
            process.func.spec_global_updates(cell, neighbours, global),
        );
    }
}

/// In per-process order, example cell processes on an index-linked
/// collection queue only applicable updates at every step, and every step
/// keeps the collection's length and identities.
proof fn lemma_example_serial_ok(
    cells_seq: Seq<CellState>,
    network: Seq<Seq<crate::state::CellIndex>>,
    processes: Seq<cells::Process<ExampleCellProcess>>,
    global: GlobalState,
    n: int,
)
    requires
        crate::state::cells_linked(cells_seq),
    ensures
        crate::run::spec_serial_cell_phase_ok(cells_seq, network, processes, global, n),
        crate::run::spec_serial_cell_phase(cells_seq, network, processes, global, n).0.len()
            == cells_seq.len(),
        forall|i: int|
            0 <= i < cells_seq.len() ==> (#[trigger] crate::run::spec_serial_cell_phase(
                cells_seq,
                network,
                processes,
                global,
                n,
            ).0[i]).id == cells_seq[i].id,
    decreases n,
{
    if n > 0 {
        lemma_example_serial_ok(cells_seq, network, processes, global, n - 1);
        let prev = crate::run::spec_serial_cell_phase(cells_seq, network, processes, global, n
            - 1);
        lemma_example_process_on_cells_ok(
            prev.0,
            network,
            processes[n - 1],
            prev.1,
            prev.0.len() as int,
            cells_seq.len() as int,
        );
        let updates = cells::spec_run_process_on_cells(prev.0, network, processes[n - 1], prev.1);
        cells::lemma_apply_cell_updates_preserves_identity(
            prev.0,
            updates.0,
            updates.0.len() as int,
        );
    }
}

/// Example global processes queue only applicable updates.
proof fn lemma_example_global_processes_ok(
    cells_seq: Seq<CellState>,
    processes: Seq<global::Process<ExampleGlobalProcess>>,
    global: GlobalState,
    n: int,
)
    ensures
        global::global_updates_ok(
            global::spec_run_global_processes_upto(cells_seq, processes, global, n),
        ),
    decreases n,
{
    if n > 0 {
        lemma_example_global_processes_ok(cells_seq, processes, global, n - 1);
        let prev = global::spec_run_global_processes_upto(cells_seq, processes, global, n - 1);
        global::lemma_global_updates_ok_concat(
            prev,
            processes[n - 1].func.spec_global_updates(cells_seq, global),
        );
    }
}

/// In per-process order, example global processes queue only applicable
/// updates at every step.
proof fn lemma_example_serial_global_ok(
    cells_seq: Seq<CellState>,
    processes: Seq<global::Process<ExampleGlobalProcess>>,
    global: GlobalState,
    n: int,
)
    ensures
        crate::run::spec_serial_global_phase_ok(cells_seq, processes, global, n),
    decreases n,
{
    if n > 0 {
        lemma_example_serial_global_ok(cells_seq, processes, global, n - 1);
    }
}

/// With the example processes, every update queued anywhere in an
/// iteration is applicable, so the orchestrator's precondition holds for
/// any index-linked collection, in either execution order.  A host that
/// registers these processes only has to supply dense identities and a
/// square distance table.
pub proof fn lemma_example_processes_iteration_ok(
    cell_processes: Seq<cells::Process<ExampleCellProcess>>,
    global_processes: Seq<global::Process<ExampleGlobalProcess>>,
    cells_seq: Seq<CellState>,
    global: GlobalState,
    network: Seq<Seq<crate::state::CellIndex>>,
    update_per_process: bool,
)
    requires
        crate::state::cells_linked(cells_seq),
    ensures
        crate::run::spec_run_iteration_ok(
            cell_processes,
            global_processes,
            cells_seq,
            global,
            network,
            update_per_process,
        ),
{
    if update_per_process {
        lemma_example_serial_ok(
            cells_seq,
            network,
            cell_processes,
            global,
            cell_processes.len() as int,
        );
        let phase = crate::run::spec_serial_cell_phase(
            cells_seq,
            network,
            cell_processes,
            global,
            cell_processes.len() as int,
        );
        lemma_example_serial_global_ok(
            phase.0,
            global_processes,
            phase.1,
            global_processes.len() as int,
        );
    } else {
        lemma_example_batch_updates_ok(
            cells_seq,
            network,
            cell_processes,
            global,
            cells_seq.len() as int,
        );
        let phase = crate::run::spec_batch_cell_phase(cells_seq, network, cell_processes, global);
        lemma_example_global_processes_ok(
            phase.0,
            global_processes,
            phase.1,
            global_processes.len() as int,
        );
    }
}

/// Whether a queue of global updates never names the iteration counter.
pub open spec fn spec_updates_spare_iterations(us: Seq<GlobalUpdateView>) -> bool {
    forall|i: int| 0 <= i < us.len() ==> (#[trigger] us[i]).target_field != "iterations"@
}

/// Applying global updates that never name the iteration counter leaves it
/// unchanged.
pub proof fn lemma_spared_iterations(global: GlobalState, us: Seq<GlobalUpdateView>, n: int)
    requires
        n <= us.len(),
        spec_updates_spare_iterations(us),
    ensures
        global::spec_apply_global_updates_upto(global, us, n).iterations == global.iterations,
    decreases n,
{
    if n > 0 {
        lemma_spared_iterations(global, us, n - 1);
    }
}

/// The global updates queued by the default cell processes only ever name
/// the global population, never the iteration counter.
proof fn lemma_default_cell_processes_spare_iterations(
    cells: Seq<CellState>,
    network: Seq<Seq<crate::state::CellIndex>>,
    global: GlobalState,
    n: int,
)
    ensures
        spec_updates_spare_iterations(
            cells::spec_run_processes_upto(
                cells,
                network,
                spec_default_cell_processes(),
                global,
                n,
            ).1,
        ),
    decreases n,
{
    reveal_strlit("population");
    reveal_strlit("iterations");
    assert("population"@[0] == 'p' && "iterations"@[0] == 'i');
    if n > 0 {
        lemma_default_cell_processes_spare_iterations(cells, network, global, n - 1);
        let procs = spec_default_cell_processes();
        let prev = cells::spec_run_processes_upto(cells, network, procs, global, n - 1);
        let cell = cells[n - 1];
        let neighbours = cells::spec_neighbours(cells, network[cell.id.0 as int]);
        let chunk = cells::spec_run_processes_on_cell(procs, cell, neighbours, global);
        let chunk0 = cells::spec_run_processes_on_cell_upto(procs, cell, neighbours, global, 0);
        let chunk1 = cells::spec_run_processes_on_cell_upto(procs, cell, neighbours, global, 1);
        assert(chunk0.1 == Seq::<GlobalUpdateView>::empty());
        assert(chunk1.1 == chunk0.1 + procs[0].func.spec_global_updates(cell, neighbours, global));
        assert(chunk.1 == chunk1.1 + procs[1].func.spec_global_updates(cell, neighbours, global));
        assert(chunk.1 =~= procs[0].func.spec_global_updates(cell, neighbours, global));
        assert(chunk.1.len() == 1);
        assert(chunk.1[0].target_field == "population"@);
        let whole = cells::spec_run_processes_upto(cells, network, procs, global, n);
        assert(whole.1 == prev.1 + chunk.1);
        assert forall|i: int| 0 <= i < whole.1.len() implies (#[trigger] whole.1[i]).target_field
            != "iterations"@ by {
            if i < prev.1.len() {
                assert(whole.1[i] == prev.1[i]);
            } else {
                assert(whole.1[i] == chunk.1[i - prev.1.len()]);
            }
        }
    }
}

/// One example cell process, run over any collection, queues global
/// updates that never name the iteration counter.
proof fn lemma_example_process_on_cells_spares_iterations(
    curr: Seq<CellState>,
    network: Seq<Seq<crate::state::CellIndex>>,
    process: cells::Process<ExampleCellProcess>,
    global: GlobalState,
    n: int,
)
    ensures
        spec_updates_spare_iterations(
            cells::spec_run_process_on_cells_upto(curr, network, process, global, n).1,
        ),
    decreases n,
{
    reveal_strlit("population");
    reveal_strlit("iterations");
    assert("population"@[0] == 'p' && "iterations"@[0] == 'i');
    if n > 0 {
        lemma_example_process_on_cells_spares_iterations(curr, network, process, global, n - 1);
        let prev = cells::spec_run_process_on_cells_upto(curr, network, process, global, n - 1);
        let cell = curr[n - 1];
        let neighbours = cells::spec_neighbours(curr, network[cell.id.0 as int]);
        let chunk = process.func.spec_global_updates(cell, neighbours, global);
        let whole = cells::spec_run_process_on_cells_upto(curr, network, process, global, n).1;
        assert(whole == prev.1 + chunk);
        assert forall|i: int| 0 <= i < whole.len() implies (#[trigger] whole[i]).target_field
            != "iterations"@ by {
            if i < prev.1.len() {
                assert(whole[i] == prev.1[i]);
            } else {
                assert(whole[i] == chunk[i - prev.1.len()]);
            }
        }
    }
}

/// A per-process cell phase built from example processes leaves the global
/// iteration counter untouched at every step.
proof fn lemma_example_serial_phase_spares_iterations(
    cells_seq: Seq<CellState>,
    network: Seq<Seq<crate::state::CellIndex>>,
    processes: Seq<cells::Process<ExampleCellProcess>>,
    global: GlobalState,
    n: int,
)
    ensures
        crate::run::spec_serial_cell_phase(
            cells_seq,
            network,
            processes,
            global,
            n,
        ).1.iterations == global.iterations,
    decreases n,
{
    if n > 0 {
        lemma_example_serial_phase_spares_iterations(cells_seq, network, processes, global, n - 1);
        let prev = crate::run::spec_serial_cell_phase(cells_seq, network, processes, global, n
            - 1);
        let updates = cells::spec_run_process_on_cells(prev.0, network, processes[n - 1], prev.1);
        lemma_example_process_on_cells_spares_iterations(
            prev.0,
            network,
            processes[n - 1],
            prev.1,
            prev.0.len() as int,
        );
        lemma_spared_iterations(prev.1, updates.1, updates.1.len() as int);
    }
}

/// With the default processes registered, one full per-process-order
/// iteration advances the global iteration counter by exactly one (modulo
/// the counter's width), just as the batch-order iteration does.
pub proof fn lemma_default_processes_advance_counter_serial(
    cells_seq: Seq<CellState>,
    global: GlobalState,
    network: Seq<Seq<crate::state::CellIndex>>,
)
    ensures
        crate::run::spec_run_iteration(
            spec_default_cell_processes(),
            spec_default_global_processes(),
            cells_seq,
            global,
            network,
            true,
        ).1.iterations == crate::process::wrap32(global.iterations + 1),
{
    reveal_strlit("population");
    reveal_strlit("iterations");
    assert("population"@[0] == 'p' && "iterations"@[0] == 'i');
    let cprocs = spec_default_cell_processes();
    let gprocs = spec_default_global_processes();
    lemma_example_serial_phase_spares_iterations(
        cells_seq,
        network,
        cprocs,
        global,
        cprocs.len() as int,
    );
    let phase = crate::run::spec_serial_cell_phase(
        cells_seq,
        network,
        cprocs,
        global,
        cprocs.len() as int,
    );
    let g0 = crate::run::spec_serial_global_phase(phase.0, gprocs, phase.1, 0);
    let g1 = crate::run::spec_serial_global_phase(phase.0, gprocs, phase.1, 1);
    let g2 = crate::run::spec_serial_global_phase(phase.0, gprocs, phase.1, 2);
    assert(g0 == phase.1);
    let report_queue = gprocs[0].func.spec_global_updates(phase.0, g0);
    assert(g1 == global::spec_apply_global_updates(g0, report_queue));
    assert(report_queue.len() == 1);
    assert(global::spec_apply_global_updates_upto(g0, report_queue, 0) == g0);
    assert(g1 == global::spec_apply_update_to_global(g0, report_queue[0]));
    assert(g1.iterations == g0.iterations);
    let count_queue = gprocs[1].func.spec_global_updates(phase.0, g1);
    assert(g2 == global::spec_apply_global_updates(g1, count_queue));
    assert(count_queue.len() == 1);
    assert(global::spec_apply_global_updates_upto(g1, count_queue, 0) == g1);
    assert(g2 == global::spec_apply_update_to_global(g1, count_queue[0]));
    assert(g2.iterations == crate::process::apply_action_u32(
        g1.iterations,
        Action::ADD,
        Value::NumberI(1),
    ));
}

/// With the default processes registered, one full batch-order iteration
/// advances the global iteration counter by exactly one (modulo the
/// counter's width): the only update that names the counter is the one the
/// counting process queues, and the orchestrator itself never advances it.
pub proof fn lemma_default_processes_advance_counter(
    cells: Seq<CellState>,
    global: GlobalState,
    network: Seq<Seq<crate::state::CellIndex>>,
)
    ensures
        crate::run::spec_run_iteration(
            spec_default_cell_processes(),
            spec_default_global_processes(),
            cells,
            global,
            network,
            false,
        ).1.iterations == crate::process::wrap32(global.iterations + 1),
{
    reveal_strlit("population");
    reveal_strlit("iterations");
    assert("population"@[0] == 'p' && "iterations"@[0] == 'i');
    let cprocs = spec_default_cell_processes();
    let gprocs = spec_default_global_processes();
    let updates = cells::spec_run_processes(cells, network, cprocs, global);
    lemma_default_cell_processes_spare_iterations(cells, network, global, cells.len() as int);
    lemma_spared_iterations(global, updates.1, updates.1.len() as int);
    let phase = crate::run::spec_batch_cell_phase(cells, network, cprocs, global);
    assert(phase.1.iterations == global.iterations);
    let queue = global::spec_run_global_processes(phase.0, gprocs, phase.1);
    let queue0 = global::spec_run_global_processes_upto(phase.0, gprocs, phase.1, 0);
    let queue1 = global::spec_run_global_processes_upto(phase.0, gprocs, phase.1, 1);
    assert(queue0 == Seq::<GlobalUpdateView>::empty());
    assert(queue1 == queue0 + gprocs[0].func.spec_global_updates(phase.0, phase.1));
    assert(queue == queue1 + gprocs[1].func.spec_global_updates(phase.0, phase.1));
    assert(queue.len() == 2);
    let after_report = global::spec_apply_update_to_global(phase.1, queue[0]);
    assert(after_report.iterations == phase.1.iterations);
    let result = global::spec_apply_global_updates(phase.1, queue);
    assert(global::spec_apply_global_updates_upto(phase.1, queue, 0) == phase.1);
    assert(global::spec_apply_global_updates_upto(phase.1, queue, 1) == after_report);
    assert(result == global::spec_apply_update_to_global(after_report, queue[1]));
    assert(result.iterations == crate::process::apply_action_u32(
        after_report.iterations,
        Action::ADD,
        Value::NumberI(1),
    ));
}

/// With no process registered at all, one iteration returns the cells and
/// the global record unchanged in either execution order: in particular
/// the iteration counter only moves when an explicit process moves it.
pub proof fn lemma_no_processes_identity<P: CellProcessBase, Q: GlobalProcessBase>(
    cells: Seq<CellState>,
    global: GlobalState,
    network: Seq<Seq<crate::state::CellIndex>>,
    update_per_process: bool,
)
    ensures
        crate::run::spec_run_iteration(
            Seq::<cells::Process<P>>::empty(),
            Seq::<global::Process<Q>>::empty(),
            cells,
            global,
            network,
            update_per_process,
        ) == (cells, global),
{
    if update_per_process {
        assert(crate::run::spec_serial_cell_phase(
            cells,
            network,
            Seq::<cells::Process<P>>::empty(),
            global,
            0,
        ) == (cells, global));
    } else {
        lemma_run_processes_no_processes::<P>(cells, network, global, cells.len() as int);
        let updates = cells::spec_run_processes(
            cells,
            network,
            Seq::<cells::Process<P>>::empty(),
            global,
        );
        assert(cells::spec_apply_cell_updates(cells, updates.0) == cells);
        assert(global::spec_apply_global_updates(global, updates.1) == global);
    }
}

/// Running an empty process list queues nothing.
proof fn lemma_run_processes_no_processes<P: CellProcessBase>(
    cells: Seq<CellState>,
    network: Seq<Seq<crate::state::CellIndex>>,
    global: GlobalState,
    n: int,
)
    ensures
        cells::spec_run_processes_upto(
            cells,
            network,
            Seq::<cells::Process<P>>::empty(),
            global,
            n,
        ).0 =~= Seq::<CellUpdateView>::empty(),
        cells::spec_run_processes_upto(
            cells,
            network,
            Seq::<cells::Process<P>>::empty(),
            global,
            n,
        ).1 =~= Seq::<GlobalUpdateView>::empty(),
    decreases n,
{
    if n > 0 {
        lemma_run_processes_no_processes::<P>(cells, network, global, n - 1);
    }
}

} // verus!
