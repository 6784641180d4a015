//! The typed update vocabulary: coercions, field dispatch, ordering and
//! inverse laws on concrete values.

use cellular_automata::cells::apply_cell_updates;
use cellular_automata::examples::u32_decimal;
use cellular_automata::global::GlobalUpdate;
use cellular_automata::global::apply_global_updates;
use cellular_automata::process::Action;
use cellular_automata::process::CellUpdate;
use cellular_automata::process::Value;
use cellular_automata::process::run_action_fixed;
use cellular_automata::process::run_action_u32;
use cellular_automata::state::CellIndex;
use cellular_automata::state::CellState;
use cellular_automata::state::Fixed;
use cellular_automata::state::GlobalState;
use cellular_automata::state::Position;

fn one_cell(population: u32) -> Vec<CellState> {
    vec![CellState::new(
        0,
        Position {
            x_micro_deg: 0,
            y_micro_deg: 0,
        },
        population,
    )]
}

fn update(action: Action, field: &str, value: Value) -> CellUpdate {
    CellUpdate {
        action,
        target_cell: CellIndex(0),
        target_field: field.to_owned(),
        value,
    }
}

#[test]
fn set_replaces_and_add_is_modular() {
    let cells = apply_cell_updates(
        one_cell(7),
        vec![update(Action::SET, "population", Value::NumberI(50))],
    );
    assert_eq!(cells[0].population, 50);
    // A negative addition decreases an unsigned field.
    let cells = apply_cell_updates(
        cells,
        vec![update(Action::ADD, "population", Value::NumberI(-20))],
    );
    assert_eq!(cells[0].population, 30);
    // Setting a negative value wraps modulo 2^32.
    let cells = apply_cell_updates(
        cells,
        vec![update(Action::SET, "population", Value::NumberI(-1))],
    );
    assert_eq!(cells[0].population, u32::MAX);
}

#[test]
fn fixed_point_payload_truncates_toward_zero() {
    // 2.7 truncates to 2 in either direction of the axis.
    let cells = apply_cell_updates(
        one_cell(10),
        vec![update(
            Action::ADD,
            "population",
            Value::NumberF(Fixed { milli: 2_700 }),
        )],
    );
    assert_eq!(cells[0].population, 12);
    let cells = apply_cell_updates(
        cells,
        vec![update(
            Action::ADD,
            "population",
            Value::NumberF(Fixed { milli: -2_700 }),
        )],
    );
    assert_eq!(cells[0].population, 10);
    assert_eq!(
        run_action_u32(10, &Action::SUB, &Value::NumberF(Fixed { milli: 2_500 })),
        8
    );
}

#[test]
fn fixed_fields_take_scaled_integers_and_saturate() {
    let attraction = Fixed { milli: 1_000 };
    // An integer payload is scaled by 1000 on a fixed-point field.
    assert_eq!(
        run_action_fixed(attraction, &Action::ADD, &Value::NumberI(2)),
        Fixed { milli: 3_000 }
    );
    assert_eq!(
        run_action_fixed(attraction, &Action::SUB, &Value::NumberF(Fixed { milli: 250 })),
        Fixed { milli: 750 }
    );
    assert_eq!(
        run_action_fixed(attraction, &Action::SET, &Value::NumberF(Fixed { milli: -42 })),
        Fixed { milli: -42 }
    );
    // Fixed-point arithmetic saturates instead of wrapping.
    assert_eq!(
        run_action_fixed(
            Fixed { milli: i64::MAX },
            &Action::ADD,
            &Value::NumberF(Fixed { milli: 1 })
        ),
        Fixed { milli: i64::MAX }
    );
    assert_eq!(
        run_action_fixed(
            Fixed { milli: i64::MIN },
            &Action::SUB,
            &Value::NumberF(Fixed { milli: 1 })
        ),
        Fixed { milli: i64::MIN }
    );
}

#[test]
fn updates_apply_in_queue_order_fold_left() {
    // Applying [set 50, add 5] equals applying [add 5] to the result of
    // applying [set 50]: the queue folds from the left.
    let both = apply_cell_updates(
        one_cell(7),
        vec![
            update(Action::SET, "population", Value::NumberI(50)),
            update(Action::ADD, "population", Value::NumberI(5)),
        ],
    );
    let first = apply_cell_updates(
        one_cell(7),
        vec![update(Action::SET, "population", Value::NumberI(50))],
    );
    let second = apply_cell_updates(
        first,
        vec![update(Action::ADD, "population", Value::NumberI(5))],
    );
    assert_eq!(both, second);
    assert_eq!(both[0].population, 55);
    // Order matters: swapping the queue gives a different result.
    let swapped = apply_cell_updates(
        one_cell(7),
        vec![
            update(Action::ADD, "population", Value::NumberI(5)),
            update(Action::SET, "population", Value::NumberI(50)),
        ],
    );
    assert_eq!(swapped[0].population, 50);
}

#[test]
fn add_then_sub_restores_integer_fields() {
    for payload in [
        Value::NumberI(0),
        Value::NumberI(99),
        Value::NumberI(-12345),
        Value::NumberI(i64::MAX),
        Value::NumberI(i64::MIN),
        Value::NumberF(Fixed { milli: 123_456 }),
    ] {
        let cells = apply_cell_updates(
            one_cell(77),
            vec![
                update(Action::ADD, "population", payload),
                update(Action::SUB, "population", payload),
            ],
        );
        assert_eq!(cells[0].population, 77);
        let cells = apply_cell_updates(
            cells,
            vec![
                update(Action::ADD, "residential_capacity", payload),
                update(Action::SUB, "residential_capacity", payload),
            ],
        );
        assert_eq!(cells[0].residential_capacity, 0);
    }
}

#[test]
fn unknown_field_is_a_silent_noop() {
    let cells_in = one_cell(42);
    let expected = cells_in.clone();
    let cells = apply_cell_updates(
        cells_in,
        vec![update(Action::SET, "sea_level", Value::NumberI(1000))],
    );
    assert_eq!(cells, expected);
    // The identity and the position are not updatable fields either.
    let cells = apply_cell_updates(
        cells,
        vec![
            update(Action::SET, "id", Value::NumberI(9)),
            update(Action::SET, "position", Value::NumberI(9)),
        ],
    );
    assert_eq!(cells, expected);
}

#[test]
fn unknown_global_field_is_a_silent_noop() {
    let global = GlobalState {
        iterations: 3,
        population: 9,
    };
    let updated = apply_global_updates(
        global,
        vec![GlobalUpdate {
            id: "noop".to_owned(),
            action: Action::SET,
            target_field: "sea_level".to_owned(),
            value: Value::NumberI(1000),
        }],
    );
    assert_eq!(updated, global);
}

#[test]
fn global_iteration_counter_moves_only_by_update() {
    let global = GlobalState {
        iterations: 41,
        population: 0,
    };
    let updated = apply_global_updates(
        global,
        vec![GlobalUpdate {
            id: "count".to_owned(),
            action: Action::ADD,
            target_field: "iterations".to_owned(),
            value: Value::NumberI(1),
        }],
    );
    assert_eq!(updated.iterations, 42);
    assert_eq!(updated.population, 0);
}

#[test]
fn global_updates_apply_in_queue_order_fold_left() {
    let global = GlobalState {
        iterations: 0,
        population: 7,
    };
    let set_then_add = |g| {
        apply_global_updates(
            g,
            vec![
                GlobalUpdate {
                    id: "set".to_owned(),
                    action: Action::SET,
                    target_field: "population".to_owned(),
                    value: Value::NumberI(50),
                },
                GlobalUpdate {
                    id: "add".to_owned(),
                    action: Action::ADD,
                    target_field: "population".to_owned(),
                    value: Value::NumberI(5),
                },
            ],
        )
    };
    let both = set_then_add(global);
    assert_eq!(both.population, 55);
    let swapped = apply_global_updates(
        global,
        vec![
            GlobalUpdate {
                id: "add".to_owned(),
                action: Action::ADD,
                target_field: "population".to_owned(),
                value: Value::NumberI(5),
            },
            GlobalUpdate {
                id: "set".to_owned(),
                action: Action::SET,
                target_field: "population".to_owned(),
                value: Value::NumberI(50),
            },
        ],
    );
    assert_eq!(swapped.population, 50);
}

#[test]
fn decimal_labels() {
    assert_eq!(u32_decimal(0), "0".to_owned());
    assert_eq!(u32_decimal(7), "7".to_owned());
    assert_eq!(u32_decimal(1_234_567_890), "1234567890".to_owned());
    assert_eq!(u32_decimal(u32::MAX), "4294967295".to_owned());
}
