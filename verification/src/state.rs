//! The data model: cell identity, position, the cell record, the shared
//! global record, and the state passed between iterations.

use vstd::prelude::*;

verus! {

/// The identity of a cell.
///
/// A cell index is unique within a cell collection and doubles as the dense
/// array offset of the cell in that collection: the cell stored at offset
/// `i` carries index `i`.
#[derive(Debug, Clone, Copy, PartialEq, Eq, Structural)]
pub struct CellIndex(pub u32);

impl DeepView for CellIndex {
    type V = CellIndex;

    open spec fn deep_view(&self) -> CellIndex {
        *self
    }
}

impl From<CellIndex> for u32 {
    /// The bare offset a cell index stands for.
    fn from(src: CellIndex) -> (r: u32)
        ensures
            r == src.0,
    {
        src.0
    }
}

impl vstd::std_specs::convert::FromSpecImpl<CellIndex> for u32 {
    open spec fn obeys_from_spec() -> bool {
        true
    }

    open spec fn from_spec(src: CellIndex) -> u32 {
        src.0
    }
}

/// A geographic position, held as a pair of coordinates in microdegrees
/// (one millionth of a degree of longitude and latitude).
///
/// The kernel itself never interprets positions: it consumes pairwise
/// distances supplied by the caller, which computes them from the
/// positions with whatever geodesic model it uses.
#[derive(Debug, Clone, Copy, PartialEq, Eq, Structural)]
pub struct Position {
    /// Longitude in microdegrees.
    pub x_micro_deg: i64,
    /// Latitude in microdegrees.
    pub y_micro_deg: i64,
}

/// A fixed-point decimal with a resolution of one thousandth, the kernel's
/// carrier for fractional field values and update payloads.
#[derive(Debug, Clone, Copy, PartialEq, Eq, Structural)]
pub struct Fixed {
    /// The value in thousandths.
    pub milli: i64,
}

/// The full record of one simulated cell.
///
/// `id` and `position` are fixed for the cell's lifetime; the remaining
/// fields are domain fields, each addressable by name through an update
/// record.
#[derive(Debug, Clone, Copy, PartialEq, Eq, Structural)]
pub struct CellState {
    pub id: CellIndex,
    pub position: Position,
    pub population: u32,
    pub population_attraction: Fixed,
    pub residential_capacity: u32,
    pub population_birth_rate: Fixed,
    pub population_death_rate: Fixed,
}

impl CellState {
    /// Build a cell with the given identity, position and population; the
    /// remaining domain fields take their default values.
    pub fn new(id: u32, position: Position, population: u32) -> (r: CellState)
        ensures
            r == (CellState {
                id: CellIndex(id),
                position,
                population,
                ..CellState::default_spec()
            }),
    {
        CellState {
            id: CellIndex(id),
            position,
            population,
            population_attraction: Fixed { milli: 1000 },
            residential_capacity: 0,
            population_birth_rate: Fixed { milli: 1000 },
            population_death_rate: Fixed { milli: 200 },
        }
    }

    /// Build a cell with the given identity and every other field at its
    /// default value.
    pub fn new_default(id: u32) -> (r: CellState)
        ensures
            r == (CellState { id: CellIndex(id), ..CellState::default_spec() }),
    {
        CellState {
            id: CellIndex(id),
            position: Position { x_micro_deg: 0, y_micro_deg: 0 },
            population: 0,
            population_attraction: Fixed { milli: 1000 },
            residential_capacity: 0,
            population_birth_rate: Fixed { milli: 1000 },
            population_death_rate: Fixed { milli: 200 },
        }
    }

    /// The default cell value: identity 0, position at the origin, no
    /// population, attraction and birth rate 1, death rate 0.2.
    pub open spec fn default_spec() -> CellState {
        CellState {
            id: CellIndex(0),
            position: Position { x_micro_deg: 0, y_micro_deg: 0 },
            population: 0,
            population_attraction: Fixed { milli: 1000 },
            residential_capacity: 0,
            population_birth_rate: Fixed { milli: 1000 },
            population_death_rate: Fixed { milli: 200 },
        }
    }
}

impl Default for CellState {
    fn default() -> (r: CellState)
        ensures
            r == CellState::default_spec(),
    {
        CellState::new_default(0)
    }
}

/// The single shared record updated alongside the cells each iteration.
#[derive(Debug, Clone, Copy, PartialEq, Eq, Structural)]
pub struct GlobalState {
    /// How many iterations have been recorded.  The orchestrator never
    /// advances this itself; only an explicit global process does.
    pub iterations: u32,
    /// An aggregate domain field.
    pub population: u32,
}

impl GlobalState {
    pub fn new(population: u32) -> (r: GlobalState)
        ensures
            r == (GlobalState { iterations: 1, population }),
    {
        GlobalState { iterations: 1, population }
    }
}

impl Default for GlobalState {
    fn default() -> (r: GlobalState)
        ensures
            r == (GlobalState { iterations: 0, population: 0 }),
    {
        GlobalState { iterations: 0, population: 0 }
    }
}

/// Whether the cell collection satisfies the identity invariant: the cell
/// stored at offset `i` carries index `i`, so indices are unique and every
/// index is a valid offset into the collection.
pub open spec fn cells_linked(cells: Seq<CellState>) -> bool {
    forall|i: int| 0 <= i < cells.len() ==> (#[trigger] cells[i]).id.0 == i
}

/// Whether `distances` is a square pairwise-distance matrix for a
/// collection of `n` cells.
pub open spec fn distances_square(distances: Seq<Seq<u64>>, n: int) -> bool {
    &&& distances.len() == n
    &&& forall|i: int| 0 <= i < n ==> (#[trigger] distances[i]).len() == n
}

/// The state owned by the orchestrator during one step and passed by value
/// between steps.
#[derive(Debug, Clone)]
pub struct IterationState {
    pub cells: Vec<CellState>,
    pub global_state: GlobalState,
    pub network: Vec<Vec<CellIndex>>,
}

} // verus!
