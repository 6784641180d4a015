//! Global updates and the global process runner: queued mutations of the
//! shared global record, their fold-left application, and the evaluation
//! of registered global processes.

use vstd::prelude::*;

use crate::process::Action;
use crate::process::GlobalProcessBase;
use crate::process::Value;
use crate::process::apply_action_u32;
use crate::process::run_action_u32;
use crate::process::value_is_numeric;
use crate::state::CellIndex;
use crate::state::CellState;
use crate::state::GlobalState;

verus! {

/// A queued request to mutate one named field of the global record.  The
/// label `id` exists for tracing and testing only; it has no effect on
/// application.
#[derive(Debug, Clone, PartialEq)]
pub struct GlobalUpdate {
    pub id: String,
    pub action: Action,
    pub target_field: String,
    pub value: Value,
}

/// The mathematical content of a [`GlobalUpdate`], with the label and the
/// field name as character sequences.
pub struct GlobalUpdateView {
    pub id: Seq<char>,
    pub action: Action,
    pub target_field: Seq<char>,
    pub value: Value,
}

impl View for GlobalUpdate {
    type V = GlobalUpdateView;

    open spec fn view(&self) -> GlobalUpdateView {
        GlobalUpdateView {
            id: self.id@,
            action: self.action,
            target_field: self.target_field@,
            value: self.value,
        }
    }
}

impl DeepView for GlobalUpdate {
    type V = GlobalUpdateView;

    open spec fn deep_view(&self) -> GlobalUpdateView {
        self.view()
    }
}

impl GlobalUpdate {
    pub fn new(id: String, action: Action, target_field: String, value: Value) -> (r:
        GlobalUpdate)
        ensures
            r@ == (GlobalUpdateView {
                id: id@,
                action,
                target_field: target_field@,
                value,
            }),
    {
        GlobalUpdate { id, action, target_field, value }
    }
}

/// Whether a name appears in the global record's field table.
pub open spec fn global_field_known(name: Seq<char>) -> bool {
    name == "iterations"@ || name == "population"@
}

/// Whether a global update can be applied: a payload is coerced only when
/// the name is in the field table, so only then must it be numeric.
pub open spec fn global_update_ok(u: GlobalUpdateView) -> bool {
    global_field_known(u.target_field) ==> value_is_numeric(u.value)
}

/// Whether every update in a queue can be applied to the global record.
pub open spec fn global_updates_ok(us: Seq<GlobalUpdateView>) -> bool {
    forall|i: int| 0 <= i < us.len() ==> global_update_ok(#[trigger] us[i])
}

/// Applicability is preserved under concatenation of update queues.
pub proof fn lemma_global_updates_ok_concat(a: Seq<GlobalUpdateView>, b: Seq<GlobalUpdateView>)
    requires
        global_updates_ok(a),
        global_updates_ok(b),
    ensures
        global_updates_ok(a + b),
{
    assert forall|i: int| 0 <= i < (a + b).len() implies global_update_ok(
        #[trigger] (a + b)[i],
    ) by {
        if i < a.len() {
            assert((a + b)[i] == a[i]);
        } else {
            assert((a + b)[i] == b[i - a.len()]);
        }
    }
}

/// One global update applied to the global record.  An update naming a
/// field outside the table is a silent no-op.
pub open spec fn spec_apply_update_to_global(global: GlobalState, u: GlobalUpdateView)
    -> GlobalState {
    if u.target_field == "iterations"@ {
        GlobalState { iterations: apply_action_u32(global.iterations, u.action, u.value), ..global }
    } else if u.target_field == "population"@ {
        GlobalState { population: apply_action_u32(global.population, u.action, u.value), ..global }
    } else {
        global
    }
}

/// The first `n` queued global updates applied in order, each to the
/// record left by the one before it.
pub open spec fn spec_apply_global_updates_upto(
    global: GlobalState,
    us: Seq<GlobalUpdateView>,
    n: int,
) -> GlobalState
    decreases n,
{
    if n <= 0 {
        global
    } else {
        spec_apply_update_to_global(spec_apply_global_updates_upto(global, us, n - 1), us[n - 1])
    }
}

/// A whole queue of global updates applied in order.
pub open spec fn spec_apply_global_updates(global: GlobalState, us: Seq<GlobalUpdateView>)
    -> GlobalState {
    spec_apply_global_updates_upto(global, us, us.len() as int)
}

/// Fold-left application splits at any point: applying a concatenation of
/// two queues equals applying the second to the result of applying the
/// first.
pub proof fn lemma_apply_global_updates_concat(
    global: GlobalState,
    us1: Seq<GlobalUpdateView>,
    us2: Seq<GlobalUpdateView>,
)
    ensures
        spec_apply_global_updates(global, us1 + us2) == spec_apply_global_updates(
            spec_apply_global_updates(global, us1),
            us2,
        ),
    decreases us2.len(),
{
    let both = us1 + us2;
    if us2.len() == 0 {
        assert(both =~= us1);
    } else {
        let front = us2.drop_last();
        lemma_apply_global_updates_concat(global, us1, front);
        assert(us1 + front =~= both.take(both.len() - 1));
        lemma_apply_global_updates_upto_take(global, both, both.len() - 1);
        lemma_apply_global_updates_upto_take(spec_apply_global_updates(global, us1), us2,
            us2.len() - 1);
    }
}

/// Applying the first `n` updates only looks at the first `n` entries of
/// the queue.
proof fn lemma_apply_global_updates_upto_take(
    global: GlobalState,
    us: Seq<GlobalUpdateView>,
    n: int,
)
    requires
        0 <= n <= us.len(),
    ensures
        spec_apply_global_updates_upto(global, us, n) == spec_apply_global_updates(
            global,
            us.take(n),
        ),
    decreases n,
{
    if n > 0 {
        lemma_apply_global_updates_upto_take(global, us, n - 1);
        lemma_apply_global_updates_upto_take(global, us.take(n), n - 1);
        assert(us.take(n).take(n - 1) =~= us.take(n - 1));
    }
}

/// One global update applied to the global record, executable counterpart
/// of [`spec_apply_update_to_global`].
pub fn apply_update_to_global(global: GlobalState, update: &GlobalUpdate) -> (r: GlobalState)
    requires
        global_update_ok(update@),
    ensures
        r == spec_apply_update_to_global(global, update@),
{
    if update.target_field == "iterations".to_owned() {
        GlobalState {
            iterations: run_action_u32(global.iterations, &update.action, &update.value),
            ..global
        }
    } else if update.target_field == "population".to_owned() {
        GlobalState {
            population: run_action_u32(global.population, &update.action, &update.value),
            ..global
        }
    } else {
        global
    }
}

/// Apply all queued global updates to the global record, in queue order.
pub fn apply_global_updates(global_state_in: GlobalState, global_updates: Vec<GlobalUpdate>) -> (r:
    GlobalState)
    requires
        global_updates_ok(global_updates.deep_view()),
    ensures
        r == spec_apply_global_updates(global_state_in, global_updates.deep_view()),
{
    let ghost us = global_updates.deep_view();
    let mut modified_global_state = global_state_in;
    let mut i: usize = 0;
    while i < global_updates.len()
        invariant
            0 <= i <= global_updates.len(),
            us == global_updates.deep_view(),
            us.len() == global_updates.len(),
            global_updates_ok(us),
            modified_global_state == spec_apply_global_updates_upto(global_state_in, us, i as int),
        decreases global_updates.len() - i,
    {
        assert(global_updates@[i as int]@ == us[i as int]);
        modified_global_state = apply_update_to_global(modified_global_state, &global_updates[i]);
        i += 1;
    }
    modified_global_state
}

/// A registered global process: a label for diagnostics and ordering, and
/// the pluggable behaviour itself.
pub struct Process<Q> {
    pub id: u32,
    pub func: Q,
}

impl<Q: GlobalProcessBase> Process<Q> {
    pub fn new(id: u32, func: Q) -> (r: Process<Q>)
        ensures
            r.id == id,
            r.func == func,
    {
        Process { id, func }
    }
}

/// The concatenation of the updates queued by the first `n` registered
/// global processes, all evaluated against the same cell collection and
/// global record.
pub open spec fn spec_run_global_processes_upto<Q: GlobalProcessBase>(
    cells: Seq<CellState>,
    processes: Seq<Process<Q>>,
    global: GlobalState,
    n: int,
) -> Seq<GlobalUpdateView>
    decreases n,
{
    if n <= 0 {
        Seq::empty()
    } else {
        spec_run_global_processes_upto(cells, processes, global, n - 1) + processes[n
            - 1].func.spec_global_updates(cells, global)
    }
}

/// The updates queued by all registered global processes, in registration
/// order.
pub open spec fn spec_run_global_processes<Q: GlobalProcessBase>(
    cells: Seq<CellState>,
    processes: Seq<Process<Q>>,
    global: GlobalState,
) -> Seq<GlobalUpdateView> {
    spec_run_global_processes_upto(cells, processes, global, processes.len() as int)
}

/// Run all registered global processes, in registration order, against the
/// same cell collection and global record; results are concatenated, not
/// applied.  Global processes never see the neighbour network.
pub fn run_processes<Q: GlobalProcessBase>(
    cells: &Vec<CellState>,
    _network: &Vec<Vec<CellIndex>>,
    processes: &Vec<Process<Q>>,
    global_state: &GlobalState,
) -> (r: Vec<GlobalUpdate>)
    ensures
        r.deep_view() == spec_run_global_processes(cells@, processes@, *global_state),
{
    let mut updates: Vec<GlobalUpdate> = Vec::new();
    let mut i: usize = 0;
    while i < processes.len()
        invariant
            0 <= i <= processes.len(),
            updates.deep_view() == spec_run_global_processes_upto(
                cells@,
                processes@,
                *global_state,
                i as int,
            ),
        decreases processes.len() - i,
    {
        let mut new_updates = processes[i].func.run(cells, global_state);
        let ghost prev = updates.deep_view();
        let ghost chunk = new_updates.deep_view();
        updates.append(&mut new_updates);
        assert(updates.deep_view() =~= prev + chunk);
        i += 1;
    }
    updates
}

} // verus!
