use vitasport::error::{Invalid, LedgerError};
use vitasport::ledger::Ledger;
use vitasport::movement::{MovementKind, NewMovement};
use vitasport::sale::SaleIntent;

const PRODUCT: i32 = 31;

fn inflow(product_id: i32, quantity: i32) -> NewMovement {
    NewMovement { product_id, kind: MovementKind::Inflow, quantity, note: None, created_by: None }
}

fn outflow(product_id: i32, quantity: i32) -> NewMovement {
    NewMovement { product_id, kind: MovementKind::Outflow, quantity, note: None, created_by: None }
}

fn sale(product_id: i32, quantity: i32) -> SaleIntent {
    SaleIntent {
        product_id,
        quantity,
        sale_price: 2_500,
        discount: None,
        channel: Some("tienda".to_string()),
        sale_date: "2024-05-01".to_string(),
        created_by: Some(3),
    }
}

fn stocked_with_fifteen() -> Ledger {
    let mut ledger = Ledger::new();
    assert_eq!(ledger.append_movement(inflow(PRODUCT, 10)), Ok(1));
    assert_eq!(ledger.append_movement(inflow(PRODUCT, 5)), Ok(2));
    ledger
}

#[test]
fn two_inflows_add_up() {
    let ledger = stocked_with_fifteen();
    assert_eq!(ledger.balance_of(PRODUCT), 15);
}

#[test]
fn sale_of_the_whole_balance_succeeds() {
    let mut ledger = stocked_with_fifteen();
    assert_eq!(ledger.settle_sale(sale(PRODUCT, 15)), Ok(1));
    assert_eq!(ledger.balance_of(PRODUCT), 0);
    assert_eq!(ledger.sale_count(), 1);
    assert_eq!(ledger.movement_count(), 3);

    let sales = ledger.sales();
    assert_eq!(sales.len(), 1);
    assert_eq!(sales[0].id, 1);
    assert_eq!(sales[0].product_id, PRODUCT);
    assert_eq!(sales[0].quantity, 15);
    assert_eq!(sales[0].sale_price, 2_500);
    assert_eq!(sales[0].created_by, Some(3));

    let newest = ledger.list_movements(None, Some(1));
    assert_eq!(newest.len(), 1);
    assert_eq!(newest[0].id, 3);
    assert_eq!(newest[0].kind, MovementKind::Outflow);
    assert_eq!(newest[0].product_id, PRODUCT);
    assert_eq!(newest[0].quantity, 15);
    assert_eq!(newest[0].note, None);
    assert_eq!(newest[0].created_by, Some(3));
}

#[test]
fn sale_after_sellout_fails_and_leaves_no_rows() {
    let mut ledger = stocked_with_fifteen();
    assert_eq!(ledger.settle_sale(sale(PRODUCT, 15)), Ok(1));
    let sales_before = ledger.sale_count();
    let movements_before = ledger.movement_count();

    assert_eq!(
        ledger.settle_sale(sale(PRODUCT, 1)),
        Err(LedgerError::InsufficientStock { available: 0, requested: 1 })
    );
    assert_eq!(ledger.sale_count(), sales_before);
    assert_eq!(ledger.movement_count(), movements_before);
    assert_eq!(ledger.balance_of(PRODUCT), 0);
}

#[test]
fn of_two_competing_sales_one_commits() {
    let mut ledger = stocked_with_fifteen();
    let first = ledger.settle_sale(sale(PRODUCT, 10));
    let second = ledger.settle_sale(sale(PRODUCT, 10));
    assert_eq!(first, Ok(1));
    assert_eq!(second, Err(LedgerError::InsufficientStock { available: 5, requested: 10 }));
    assert_eq!(ledger.sale_count(), 1);
    assert_eq!(ledger.balance_of(PRODUCT), 5);
}

#[test]
fn manual_outflow_without_history_goes_negative() {
    let mut ledger = Ledger::new();
    assert_eq!(ledger.append_movement(outflow(PRODUCT, 3)), Ok(1));
    assert_eq!(ledger.balance_of(PRODUCT), -3);
}

#[test]
fn unknown_product_has_balance_zero() {
    let ledger = stocked_with_fifteen();
    assert_eq!(ledger.balance_of(99), 0);
    assert_eq!(Ledger::new().balance_of(PRODUCT), 0);
}

#[test]
fn sale_of_nothing_is_rejected_before_the_balance_is_read() {
    let mut ledger = stocked_with_fifteen();
    assert_eq!(
        ledger.settle_sale(sale(PRODUCT, 0)),
        Err(LedgerError::Validation(Invalid::NonPositiveQuantity))
    );
    assert_eq!(
        ledger.settle_sale(sale(PRODUCT, -4)),
        Err(LedgerError::Validation(Invalid::NonPositiveQuantity))
    );
    assert_eq!(ledger.sale_count(), 0);
    assert_eq!(ledger.movement_count(), 2);
}
