//! The update model: the typed vocabulary of a queued mutation (action
//! kind, payload value, numeric coercion rules) and the capability traits
//! that cell-level and global-level processes implement.

use vstd::prelude::*;

use crate::global::GlobalUpdate;
use crate::global::GlobalUpdateView;
use crate::state::CellIndex;
use crate::state::CellState;
use crate::state::Fixed;
use crate::state::GlobalState;

verus! {

/// What a queued update does to the field it targets.
#[derive(Debug, Clone, Copy, PartialEq, Eq, Structural)]
pub enum Action {
    /// Add the payload to the field.  On an integer field the arithmetic is
    /// modular, so adding a negative payload lets an unsigned field
    /// decrease.
    ADD,
    /// Subtract the payload from the field.
    SUB,
    /// Replace the field with the payload, discarding the old value.
    SET,
}

/// An update payload, carried without committing to the target field's
/// native type.
#[derive(Debug, Clone, Copy, PartialEq, Eq, Structural)]
pub enum Value {
    /// A fractional payload, as a fixed-point decimal in thousandths.
    NumberF(Fixed),
    /// An integer payload.
    NumberI(i64),
    /// Reserved for a future aggregate payload; no conversion accepts it.
    Vector,
}

/// Whether a payload can be coerced to a numeric field at all.
pub open spec fn value_is_numeric(v: Value) -> bool {
    !(v is Vector)
}

/// Division by 1000 rounded toward zero, the coercion of a fixed-point
/// payload to a whole number.
pub open spec fn trunc_milli(m: int) -> int {
    if m >= 0 {
        m / 1000
    } else {
        -((-m) / 1000)
    }
}

/// A numeric payload coerced to a whole number: an integer payload is taken
/// as it is, a fixed-point payload is truncated toward zero.
pub open spec fn value_to_int(v: Value) -> int {
    match v {
        Value::NumberF(f) => trunc_milli(f.milli as int),
        Value::NumberI(x) => x as int,
        Value::Vector => 0,
    }
}

/// A numeric payload coerced to fixed-point thousandths: a fixed-point
/// payload is taken as it is, an integer payload is scaled by 1000,
/// saturating at the representable bounds.
pub open spec fn value_to_milli(v: Value) -> int {
    match v {
        Value::NumberF(f) => f.milli as int,
        Value::NumberI(x) => sat64(x * 1000),
        Value::Vector => 0,
    }
}

/// Reduction into the range of a 32-bit unsigned field: the remainder
/// modulo 2^32, always in `[0, 2^32)`.
pub open spec fn wrap32(x: int) -> int {
    x % 0x1_0000_0000
}

/// Clamping into the range of a signed 64-bit value, the saturation rule
/// of fixed-point arithmetic.
pub open spec fn sat64(x: int) -> int {
    if x > i64::MAX {
        i64::MAX as int
    } else if x < i64::MIN {
        i64::MIN as int
    } else {
        x
    }
}

/// A numeric action applied to a 32-bit unsigned field.  Addition and
/// subtraction are modular, mirroring re-narrowing of a wide intermediate
/// result to the field's type.
pub open spec fn apply_action_u32(old: u32, action: Action, v: Value) -> u32 {
    match action {
        Action::ADD => wrap32(old + value_to_int(v)) as u32,
        Action::SUB => wrap32(old - value_to_int(v)) as u32,
        Action::SET => wrap32(value_to_int(v)) as u32,
    }
}

/// A numeric action applied to a fixed-point field.  Addition and
/// subtraction saturate at the representable bounds.
pub open spec fn apply_action_fixed(old: Fixed, action: Action, v: Value) -> Fixed {
    match action {
        Action::ADD => (Fixed { milli: sat64(old.milli + value_to_milli(v)) as i64 }),
        Action::SUB => (Fixed { milli: sat64(old.milli - value_to_milli(v)) as i64 }),
        Action::SET => (Fixed { milli: value_to_milli(v) as i64 }),
    }
}

/// The magnitude of a signed value, exactly, including the most negative
/// one.
fn abs_i64(d: i64) -> (m: u64)
    ensures
        d >= 0 ==> m == d as int,
        d < 0 ==> m == -(d as int),
{
    if d >= 0 {
        d as u64
    } else {
        ((-(d + 1)) as u64) + 1
    }
}

/// A payload coerced to a whole number, executable counterpart of
/// [`value_to_int`].
pub fn value_as_i64(v: &Value) -> (r: i64)
    requires
        value_is_numeric(*v),
    ensures
        r as int == value_to_int(*v),
{
    match v {
        Value::NumberF(f) => {
            let mag: u64 = abs_i64(f.milli);
            let q: u64 = mag / 1000;
            if f.milli >= 0 {
                q as i64
            } else {
                -(q as i64)
            }
        },
        Value::NumberI(x) => *x,
        Value::Vector => 0,
    }
}

/// A payload coerced to fixed-point thousandths, executable counterpart of
/// [`value_to_milli`].
pub fn value_as_milli(v: &Value) -> (r: i64)
    requires
        value_is_numeric(*v),
    ensures
        r as int == value_to_milli(*v),
{
    match v {
        Value::NumberF(f) => f.milli,
        Value::NumberI(x) => {
            if *x > 9_223_372_036_854_775i64 {
                i64::MAX
            } else if *x < -9_223_372_036_854_775i64 {
                i64::MIN
            } else {
                *x * 1000
            }
        },
        Value::Vector => 0,
    }
}

/// Saturating addition on signed 64-bit values, with its result stated
/// exactly.
pub fn sat_add_i64(a: i64, b: i64) -> (r: i64)
    ensures
        r as int == sat64(a + b),
{
    if b >= 0 {
        if a > i64::MAX - b {
            i64::MAX
        } else {
            a + b
        }
    } else {
        if a < i64::MIN - b {
            i64::MIN
        } else {
            a + b
        }
    }
}

/// The field value `wrap32(old + d)` or `wrap32(old - d)`, computed
/// without overflow.
fn u32_apply_delta(old: u32, d: i64, subtract: bool) -> (r: u32)
    ensures
        !subtract ==> r as int == wrap32(old + d),
        subtract ==> r as int == wrap32(old - d),
{
    let mag: u64 = abs_i64(d);
    let m: u64 = mag % 0x1_0000_0000u64;
    let o: u64 = old as u64;
    // The delta actually added is `d` or `-d`; it is nonnegative exactly
    // when the sign of `d` agrees with the direction.
    let adding_nonneg: bool = if subtract {
        d <= 0
    } else {
        d >= 0
    };
    let t: u64 = if adding_nonneg {
        o + m
    } else {
        (o + 0x1_0000_0000u64) - m
    };
    let r: u64 = t % 0x1_0000_0000u64;
    proof {
        let w: int = 0x1_0000_0000;
        let delta: int = if subtract {
            -(d as int)
        } else {
            d as int
        };
        let magi: int = if d >= 0 {
            d as int
        } else {
            -(d as int)
        };
        vstd::arithmetic::div_mod::lemma_fundamental_div_mod(magi, w);
        if delta >= 0 {
            // t == o + m and o + m differs from o + delta by a multiple of w.
            vstd::arithmetic::div_mod::lemma_mod_multiples_vanish(magi / w, o + m as int, w);
            assert(o + delta == (magi / w) * w + (o + m as int));
        } else {
            // t == o + w - m and it differs from o + delta by a multiple of w.
            vstd::arithmetic::div_mod::lemma_mod_multiples_vanish(
                -(magi / w) - 1,
                o as int + w - m as int,
                w,
            );
            assert(o + delta == (-(magi / w) - 1) * w + (o as int + w - m as int));
        }
    }
    r as u32
}

/// A numeric action applied to a 32-bit unsigned field, executable
/// counterpart of [`apply_action_u32`].
pub fn run_action_u32(old: u32, action: &Action, v: &Value) -> (r: u32)
    requires
        value_is_numeric(*v),
    ensures
        r == apply_action_u32(old, *action, *v),
{
    let d: i64 = value_as_i64(v);
    match action {
        Action::ADD => u32_apply_delta(old, d, false),
        Action::SUB => u32_apply_delta(old, d, true),
        Action::SET => u32_apply_delta(0, d, false),
    }
}

/// A numeric action applied to a fixed-point field, executable counterpart
/// of [`apply_action_fixed`].
pub fn run_action_fixed(old: Fixed, action: &Action, v: &Value) -> (r: Fixed)
    requires
        value_is_numeric(*v),
    ensures
        r == apply_action_fixed(old, *action, *v),
{
    let m: i64 = value_as_milli(v);
    match action {
        Action::ADD => Fixed { milli: sat_add_i64(old.milli, m) },
        Action::SUB => {
            if m == i64::MIN {
                // Negating the most negative payload saturates upward.
                if old.milli >= 0 {
                    Fixed { milli: i64::MAX }
                } else {
                    Fixed { milli: sat_add_i64(sat_add_i64(old.milli, i64::MAX), 1) }
                }
            } else {
                Fixed { milli: sat_add_i64(old.milli, -m) }
            }
        },
        Action::SET => Fixed { milli: m },
    }
}

/// A queued request to mutate one named field of one cell.
#[derive(Debug, Clone, PartialEq)]
pub struct CellUpdate {
    pub action: Action,
    pub target_cell: CellIndex,
    pub target_field: String,
    pub value: Value,
}

/// The mathematical content of a [`CellUpdate`], with the field name as a
/// character sequence.
pub struct CellUpdateView {
    pub action: Action,
    pub target_cell: CellIndex,
    pub target_field: Seq<char>,
    pub value: Value,
}

impl View for CellUpdate {
    type V = CellUpdateView;

    open spec fn view(&self) -> CellUpdateView {
        CellUpdateView {
            action: self.action,
            target_cell: self.target_cell,
            target_field: self.target_field@,
            value: self.value,
        }
    }
}

impl DeepView for CellUpdate {
    type V = CellUpdateView;

    open spec fn deep_view(&self) -> CellUpdateView {
        self.view()
    }
}

impl CellUpdate {
    pub fn new(target_cell: CellIndex, action: Action, target_field: String, value: Value) -> (r:
        CellUpdate)
        ensures
            r@ == (CellUpdateView { action, target_cell, target_field: target_field@, value }),
    {
        CellUpdate { action, target_cell, target_field, value }
    }
}

/// A cell-level process: the pluggable unit of simulation logic, run
/// against one cell, the states of its neighbours and the shared global
/// record, yielding queued cell updates and global updates.
///
/// An implementation declares its meaning as the two spec functions and
/// proves that `run` returns exactly that, so everything built on top of a
/// process is verified against the declared meaning.
pub trait CellProcessBase: Sized {
    /// The cell updates the process queues for the given inputs.
    spec fn spec_cell_updates(
        &self,
        cell: CellState,
        neighbours: Seq<CellState>,
        global: GlobalState,
    ) -> Seq<CellUpdateView>;

    /// The global updates the process queues for the given inputs.
    spec fn spec_global_updates(
        &self,
        cell: CellState,
        neighbours: Seq<CellState>,
        global: GlobalState,
    ) -> Seq<GlobalUpdateView>;

    /// Evaluate the process; no update is applied here.
    fn run(&self, cell: &CellState, neighbours: &Vec<CellState>, global: &GlobalState) -> (r: (
        Vec<CellUpdate>,
        Vec<GlobalUpdate>,
    ))
        ensures
            r.0.deep_view() == self.spec_cell_updates(*cell, neighbours@, *global),
            r.1.deep_view() == self.spec_global_updates(*cell, neighbours@, *global),
    ;
}

/// A global-level process, run against the full cell collection and the
/// shared global record, yielding queued global updates.
pub trait GlobalProcessBase: Sized {
    /// The global updates the process queues for the given inputs.
    spec fn spec_global_updates(&self, cells: Seq<CellState>, global: GlobalState) -> Seq<
        GlobalUpdateView,
    >;

    /// Evaluate the process; no update is applied here.
    fn run(&self, cells: &Vec<CellState>, global: &GlobalState) -> (r: Vec<GlobalUpdate>)
        ensures
            r.deep_view() == self.spec_global_updates(cells@, *global),
    ;
}

} // verus!
