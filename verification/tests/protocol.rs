use vitasport::error::{Invalid, LedgerError};
use vitasport::log::MovementLog;
use vitasport::movement::{MovementKind, NewMovement};
use vitasport::sale::SaleIntent;
use vitasport::settlement::{Action, Event, Settlement, Step};

fn intent(quantity: i32) -> SaleIntent {
    SaleIntent {
        product_id: 7,
        quantity,
        sale_price: 1_990,
        discount: Some(100),
        channel: None,
        sale_date: "2024-05-01T10:00:00".to_string(),
        created_by: Some(3),
    }
}

fn history(stock: i32) -> MovementLog {
    let mut log = MovementLog::new();
    log.append(NewMovement {
        product_id: 7,
        kind: MovementKind::Inflow,
        quantity: stock,
        note: None,
        created_by: None,
    })
    .unwrap();
    log
}

fn started(quantity: i32) -> Settlement {
    match Settlement::start(intent(quantity)) {
        Ok((state, action)) => {
            assert_eq!(action, Action::Begin);
            state
        }
        Err(e) => panic!("the attempt did not start: {:?}", e),
    }
}

fn goes_on(step: Step) -> (Settlement, Action) {
    match step {
        Step::Continue { state, action } => (state, action),
        Step::Finished(outcome) => panic!("the attempt ended early: {:?}", outcome),
    }
}

fn ends(step: Step) -> Result<i64, LedgerError> {
    match step {
        Step::Finished(outcome) => outcome,
        Step::Continue { action, .. } => panic!("the attempt goes on with {:?}", action),
    }
}

fn validating(quantity: i32) -> Settlement {
    let (state, action) = goes_on(started(quantity).step(Event::Done));
    assert_eq!(action, Action::ReadMovements { product_id: 7 });
    state
}

fn recording_sale(quantity: i32) -> Settlement {
    let (state, action) = goes_on(validating(quantity).step(Event::Movements(history(15))));
    assert_eq!(action, Action::InsertSale(intent(quantity)));
    state
}

fn recording_movement(quantity: i32) -> Settlement {
    let (state, action) = goes_on(recording_sale(quantity).step(Event::Inserted { id: 41 }));
    assert_eq!(
        action,
        Action::InsertMovement(NewMovement {
            product_id: 7,
            kind: MovementKind::Outflow,
            quantity,
            note: None,
            created_by: Some(3),
        })
    );
    state
}

fn committing(quantity: i32) -> Settlement {
    let (state, action) = goes_on(recording_movement(quantity).step(Event::Inserted { id: 90 }));
    assert_eq!(action, Action::Commit);
    state
}

fn failed(message: &str) -> Event {
    Event::Failed { message: message.to_string() }
}

fn storage(message: &str) -> LedgerError {
    LedgerError::Storage { message: message.to_string() }
}

fn rolls_back_with(step: Step, error: LedgerError) {
    let (state, action) = goes_on(step);
    assert_eq!(action, Action::Rollback);
    assert_eq!(ends(state.step(Event::Done)), Err(error));
}

#[test]
fn an_invalid_intent_never_reaches_the_store() {
    assert!(matches!(
        Settlement::start(intent(0)),
        Err(LedgerError::Validation(Invalid::NonPositiveQuantity))
    ));
    assert!(matches!(
        Settlement::start(intent(-2)),
        Err(LedgerError::Validation(Invalid::NonPositiveQuantity))
    ));
}

#[test]
fn a_covered_sale_is_committed_under_the_id_of_its_row() {
    assert_eq!(ends(committing(15).step(Event::Done)), Ok(41));
}

#[test]
fn a_sale_of_the_whole_balance_is_covered() {
    let (_, action) = goes_on(validating(15).step(Event::Movements(history(15))));
    assert_eq!(action, Action::InsertSale(intent(15)));
}

#[test]
fn a_sale_beyond_the_balance_is_rolled_back() {
    let step = validating(16).step(Event::Movements(history(15)));
    rolls_back_with(step, LedgerError::InsufficientStock { available: 15, requested: 16 });
}

#[test]
fn a_product_without_movements_has_nothing_to_sell() {
    let step = validating(1).step(Event::Movements(MovementLog::new()));
    rolls_back_with(step, LedgerError::InsufficientStock { available: 0, requested: 1 });
}

#[test]
fn movements_of_other_products_do_not_count() {
    let mut log = history(5);
    log.append(NewMovement {
        product_id: 8,
        kind: MovementKind::Inflow,
        quantity: 100,
        note: None,
        created_by: None,
    })
    .unwrap();
    let step = validating(6).step(Event::Movements(log));
    rolls_back_with(step, LedgerError::InsufficientStock { available: 5, requested: 6 });
}

#[test]
fn a_negative_balance_is_reported_as_it_is() {
    let mut log = MovementLog::new();
    log.append(NewMovement {
        product_id: 7,
        kind: MovementKind::Outflow,
        quantity: 3,
        note: None,
        created_by: None,
    })
    .unwrap();
    let step = validating(1).step(Event::Movements(log));
    rolls_back_with(step, LedgerError::InsufficientStock { available: -3, requested: 1 });
}

#[test]
fn a_transaction_that_does_not_open_ends_the_attempt_at_once() {
    assert_eq!(ends(started(1).step(failed("database is locked"))), Err(storage("database is locked")));
    assert_eq!(ends(started(1).step(Event::Conflict)), Err(LedgerError::ConcurrencyConflict));
}

#[test]
fn a_failed_read_is_rolled_back() {
    rolls_back_with(validating(1).step(failed("disk I/O error")), storage("disk I/O error"));
}

#[test]
fn a_failed_sale_insert_is_rolled_back() {
    rolls_back_with(recording_sale(1).step(failed("constraint failed")), storage("constraint failed"));
}

#[test]
fn a_failed_movement_insert_is_rolled_back() {
    rolls_back_with(recording_movement(1).step(failed("disk full")), storage("disk full"));
}

#[test]
fn a_failed_commit_is_rolled_back() {
    rolls_back_with(committing(1).step(failed("cannot commit")), storage("cannot commit"));
}

#[test]
fn a_conflict_is_rolled_back_and_reported() {
    rolls_back_with(validating(1).step(Event::Conflict), LedgerError::ConcurrencyConflict);
    rolls_back_with(recording_sale(1).step(Event::Conflict), LedgerError::ConcurrencyConflict);
    rolls_back_with(recording_movement(1).step(Event::Conflict), LedgerError::ConcurrencyConflict);
    rolls_back_with(committing(1).step(Event::Conflict), LedgerError::ConcurrencyConflict);
}

#[test]
fn an_answer_that_does_not_fit_is_rolled_back() {
    let unexpected = storage("unexpected answer from the store");
    rolls_back_with(started(1).step(Event::Inserted { id: 1 }), unexpected.clone());
    rolls_back_with(started(1).step(Event::Movements(history(1))), unexpected.clone());
    rolls_back_with(validating(1).step(Event::Done), unexpected.clone());
    rolls_back_with(validating(1).step(Event::Inserted { id: 1 }), unexpected.clone());
    rolls_back_with(recording_sale(1).step(Event::Done), unexpected.clone());
    rolls_back_with(recording_movement(1).step(Event::Movements(history(1))), unexpected.clone());
    rolls_back_with(committing(1).step(Event::Inserted { id: 1 }), unexpected);
}

#[test]
fn the_outcome_does_not_wait_for_the_rollback_to_succeed() {
    let (state, action) = goes_on(validating(1).step(failed("disk I/O error")));
    assert_eq!(action, Action::Rollback);
    assert_eq!(ends(state.step(failed("cannot roll back"))), Err(storage("disk I/O error")));
}

#[test]
fn the_id_of_the_movement_is_not_the_id_of_the_sale() {
    let state = recording_movement(2);
    let (state, _) = goes_on(state.step(Event::Inserted { id: 1234 }));
    assert_eq!(ends(state.step(Event::Done)), Ok(41));
}
