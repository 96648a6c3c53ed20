use vitasport::error::LedgerError;
use vitasport::ledger::Ledger;
use vitasport::movement::{MovementKind, NewMovement};
use vitasport::sale::{Sale, SaleIntent};

fn inflow(product_id: i32, quantity: i32) -> NewMovement {
    NewMovement { product_id, kind: MovementKind::Inflow, quantity, note: None, created_by: None }
}

fn sale(product_id: i32, quantity: i32) -> SaleIntent {
    SaleIntent {
        product_id,
        quantity,
        sale_price: 500,
        discount: Some(50),
        channel: Some("web".to_string()),
        sale_date: "2024-06-30".to_string(),
        created_by: None,
    }
}

#[test]
fn a_full_register_fails_the_settlement() {
    let mut ledger = Ledger::with_capacity(10, 1);
    ledger.append_movement(inflow(1, 5)).unwrap();
    assert_eq!(ledger.settle_sale(sale(1, 1)), Ok(1));
    assert_eq!(
        ledger.settle_sale(sale(1, 1)),
        Err(LedgerError::Storage { message: "sales register is full".to_string() })
    );
    assert_eq!(ledger.sale_count(), 1);
    assert_eq!(ledger.movement_count(), 2);
    assert_eq!(ledger.balance_of(1), 4);
}

#[test]
fn a_sale_whose_movement_cannot_be_recorded_is_taken_back() {
    let mut ledger = Ledger::with_capacity(1, 10);
    ledger.append_movement(inflow(1, 5)).unwrap();
    let sales_before = ledger.sale_count();
    let movements_before = ledger.movement_count();

    assert_eq!(
        ledger.settle_sale(sale(1, 2)),
        Err(LedgerError::Storage { message: "movement log is full".to_string() })
    );
    assert_eq!(ledger.sale_count(), sales_before);
    assert_eq!(ledger.movement_count(), movements_before);
    assert_eq!(ledger.sales(), Vec::<Sale>::new());
    assert_eq!(ledger.balance_of(1), 5);
}

#[test]
fn insufficient_stock_is_reported_before_a_lack_of_room() {
    let mut ledger = Ledger::with_capacity(1, 0);
    ledger.append_movement(inflow(1, 5)).unwrap();
    assert_eq!(
        ledger.settle_sale(sale(1, 6)),
        Err(LedgerError::InsufficientStock { available: 5, requested: 6 })
    );
}

#[test]
fn a_full_log_refuses_a_manual_movement() {
    let mut ledger = Ledger::with_capacity(1, 1);
    assert_eq!(ledger.append_movement(inflow(1, 5)), Ok(1));
    assert_eq!(
        ledger.append_movement(inflow(1, 5)),
        Err(LedgerError::Storage { message: "movement log is full".to_string() })
    );
    assert_eq!(ledger.movement_count(), 1);
    assert_eq!(ledger.balance_of(1), 5);
}

#[test]
fn sales_never_take_more_than_the_balance_had() {
    let mut ledger = Ledger::new();
    ledger.append_movement(inflow(1, 15)).unwrap();
    ledger.append_movement(inflow(2, 100)).unwrap();
    let asked = [4, 9, 3, 2, 1, 7, 1];
    let mut sold = 0;
    for quantity in asked {
        if ledger.settle_sale(sale(1, quantity)).is_ok() {
            sold += quantity;
        }
        assert!(ledger.settle_sale(sale(2, 1)).is_ok());
    }
    assert_eq!(sold, 15);
    assert_eq!(ledger.balance_of(1), 0);
    assert_eq!(ledger.balance_of(2), 93);
}

#[test]
fn every_sale_has_one_outflow_of_its_own() {
    let mut ledger = Ledger::new();
    ledger.append_movement(inflow(1, 20)).unwrap();
    ledger.append_movement(inflow(2, 20)).unwrap();
    ledger
        .append_movement(NewMovement {
            product_id: 1,
            kind: MovementKind::Outflow,
            quantity: 3,
            note: Some("merma".to_string()),
            created_by: None,
        })
        .unwrap();
    assert_eq!(ledger.settle_sale(sale(1, 3)), Ok(1));
    assert_eq!(ledger.settle_sale(sale(2, 5)), Ok(2));
    assert_eq!(ledger.settle_sale(sale(1, 3)), Ok(3));
    assert!(ledger.settle_sale(sale(1, 50)).is_err());

    let sales = ledger.sales();
    let movements = ledger.list_movements(None, None);
    assert_eq!(sales.len(), 3);
    assert_eq!(movements.len(), 6);
    // The movement of sale number n is the one recorded right after it.
    let outflows: Vec<_> = movements
        .iter()
        .rev()
        .filter(|m| m.kind == MovementKind::Outflow && m.note.is_none())
        .collect();
    assert_eq!(outflows.len(), sales.len());
    for (sold, moved) in sales.iter().zip(outflows) {
        assert_eq!(moved.product_id, sold.product_id);
        assert_eq!(moved.quantity, sold.quantity);
        assert_eq!(moved.created_by, sold.created_by);
    }
}

#[test]
fn a_settled_sale_keeps_what_was_asked() {
    let mut ledger = Ledger::new();
    ledger.append_movement(inflow(1, 5)).unwrap();
    assert_eq!(ledger.settle_sale(sale(1, 2)), Ok(1));
    assert_eq!(
        ledger.sales(),
        vec![Sale {
            id: 1,
            product_id: 1,
            quantity: 2,
            sale_price: 500,
            discount: Some(50),
            channel: Some("web".to_string()),
            sale_date: "2024-06-30".to_string(),
            created_by: None,
        }]
    );
    assert_eq!(sale(1, 2).duplicate(), sale(1, 2));
    assert!(sale(1, 2).is_valid());
    assert!(!sale(1, 0).is_valid());
}

#[test]
fn ledger_reads_follow_the_log() {
    let mut ledger = Ledger::new();
    ledger.append_movement(inflow(1, 5)).unwrap();
    ledger.append_movement(inflow(2, 6)).unwrap();
    ledger.settle_sale(sale(2, 6)).unwrap();
    let balances = ledger.all_balances();
    assert_eq!(balances.len(), 2);
    assert_eq!((balances[0].product_id, balances[0].current_stock), (1, 5));
    assert_eq!((balances[1].product_id, balances[1].current_stock), (2, 0));
    let of_two = ledger.list_movements(Some(2), None);
    assert_eq!(of_two.len(), 2);
    assert_eq!(of_two[0].id, 3);
    assert_eq!(of_two[1].id, 2);
    assert_eq!(ledger.balance_of(2), ledger.balance_of(2));
}
