use rusqlite::Connection;
use vitasport::error::LedgerError;
use vitasport::log::MovementLog;
use vitasport::movement::{MovementKind, NewMovement};
use vitasport::sale::SaleIntent;
use vitasport::settlement::{Action, Event, Settlement, Step};

const PRODUCT: i32 = 31;

fn open() -> Connection {
    let conn = Connection::open_in_memory().expect("no database in memory");
    conn.execute_batch(
        "CREATE TABLE stock_movements (
            id INTEGER PRIMARY KEY AUTOINCREMENT,
            product_id INTEGER NOT NULL,
            type TEXT NOT NULL,
            quantity INTEGER NOT NULL,
            note TEXT,
            created_by INTEGER
        );
        CREATE TABLE sales (
            id INTEGER PRIMARY KEY AUTOINCREMENT,
            product_id INTEGER NOT NULL,
            quantity INTEGER NOT NULL,
            sale_price REAL NOT NULL,
            discount REAL,
            channel TEXT,
            sale_date TEXT NOT NULL,
            created_by INTEGER
        );",
    )
    .expect("the tables were not created");
    conn
}

fn insert_movement(conn: &Connection, movement: &NewMovement) -> rusqlite::Result<i64> {
    conn.execute(
        "INSERT INTO stock_movements (product_id, type, quantity, note, created_by)
         VALUES (?1, ?2, ?3, ?4, ?5)",
        (
            movement.product_id,
            movement.kind.tag(),
            movement.quantity,
            &movement.note,
            movement.created_by,
        ),
    )?;
    Ok(conn.last_insert_rowid())
}

fn insert_sale(conn: &Connection, intent: &SaleIntent) -> rusqlite::Result<i64> {
    conn.execute(
        "INSERT INTO sales (product_id, quantity, sale_price, discount, channel, sale_date, created_by)
         VALUES (?1, ?2, ?3, ?4, ?5, ?6, ?7)",
        (
            intent.product_id,
            intent.quantity,
            intent.sale_price as f64 / 100.0,
            intent.discount.map(|d| d as f64 / 100.0),
            &intent.channel,
            &intent.sale_date,
            intent.created_by,
        ),
    )?;
    Ok(conn.last_insert_rowid())
}

fn read_log(conn: &Connection, product_id: i32) -> Result<MovementLog, String> {
    let mut stmt = conn
        .prepare(
            "SELECT product_id, type, quantity, note, created_by
             FROM stock_movements WHERE product_id = ?1 ORDER BY id ASC",
        )
        .map_err(|e| e.to_string())?;
    let mut rows = stmt.query([product_id]).map_err(|e| e.to_string())?;
    let mut log = MovementLog::new();
    while let Some(row) = rows.next().map_err(|e| e.to_string())? {
        let tag: String = row.get(1).map_err(|e| e.to_string())?;
        let movement = NewMovement::from_stored(
            row.get(0).map_err(|e| e.to_string())?,
            &tag,
            row.get(2).map_err(|e| e.to_string())?,
            row.get(3).map_err(|e| e.to_string())?,
            row.get(4).map_err(|e| e.to_string())?,
        )
        .map_err(|e| format!("{:?}", e))?;
        log.append(movement).map_err(|e| format!("{:?}", e))?;
    }
    Ok(log)
}

fn done(result: rusqlite::Result<usize>) -> Event {
    match result {
        Ok(_) => Event::Done,
        Err(e) => Event::Failed { message: e.to_string() },
    }
}

fn inserted(result: rusqlite::Result<i64>) -> Event {
    match result {
        Ok(id) => Event::Inserted { id },
        Err(e) => Event::Failed { message: e.to_string() },
    }
}

fn perform(conn: &Connection, action: Action) -> Event {
    match action {
        Action::Begin => done(conn.execute("BEGIN IMMEDIATE TRANSACTION", [])),
        Action::ReadMovements { product_id } => match read_log(conn, product_id) {
            Ok(log) => Event::Movements(log),
            Err(message) => Event::Failed { message },
        },
        Action::InsertSale(intent) => inserted(insert_sale(conn, &intent)),
        Action::InsertMovement(movement) => inserted(insert_movement(conn, &movement)),
        Action::Commit => done(conn.execute("COMMIT", [])),
        Action::Rollback => done(conn.execute("ROLLBACK", [])),
    }
}

fn settle(conn: &Connection, intent: SaleIntent) -> Result<i64, LedgerError> {
    let (mut state, mut action) = Settlement::start(intent)?;
    loop {
        let event = perform(conn, action);
        match state.step(event) {
            Step::Continue { state: then, action: asked } => {
                state = then;
                action = asked;
            }
            Step::Finished(outcome) => return outcome,
        }
    }
}

fn count(conn: &Connection, table: &str) -> i64 {
    conn.query_row(&format!("SELECT COUNT(*) FROM {}", table), [], |row| row.get(0))
        .expect("the rows were not counted")
}

fn balance(conn: &Connection, product_id: i32) -> i64 {
    read_log(conn, product_id).expect("the log was not read").balance_of(product_id)
}

fn stock(conn: &Connection, product_id: i32, quantity: i32) {
    let movement = NewMovement {
        product_id,
        kind: MovementKind::Inflow,
        quantity,
        note: None,
        created_by: None,
    };
    insert_movement(conn, &movement).expect("the stock was not recorded");
}

fn sale(product_id: i32, quantity: i32) -> SaleIntent {
    SaleIntent {
        product_id,
        quantity,
        sale_price: 1_250,
        discount: None,
        channel: Some("tienda".to_string()),
        sale_date: "2024-05-01".to_string(),
        created_by: Some(3),
    }
}

#[test]
fn sqlite_commits_a_sale_with_its_outflow() {
    let conn = open();
    stock(&conn, PRODUCT, 10);
    stock(&conn, PRODUCT, 5);
    assert_eq!(balance(&conn, PRODUCT), 15);

    assert_eq!(settle(&conn, sale(PRODUCT, 15)), Ok(1));
    assert_eq!(balance(&conn, PRODUCT), 0);
    assert_eq!(count(&conn, "sales"), 1);
    assert_eq!(count(&conn, "stock_movements"), 3);
    assert!(conn.is_autocommit());

    let (kind, quantity, created_by): (String, i32, Option<i32>) = conn
        .query_row(
            "SELECT type, quantity, created_by FROM stock_movements WHERE id = 3",
            [],
            |row| Ok((row.get(0)?, row.get(1)?, row.get(2)?)),
        )
        .expect("the outflow was not found");
    assert_eq!(kind, "egreso");
    assert_eq!(quantity, 15);
    assert_eq!(created_by, Some(3));

    let price: f64 = conn
        .query_row("SELECT sale_price FROM sales WHERE id = 1", [], |row| row.get(0))
        .expect("the sale was not found");
    assert_eq!(price, 12.5);
}

#[test]
fn sqlite_keeps_no_rows_of_a_sale_beyond_the_balance() {
    let conn = open();
    stock(&conn, PRODUCT, 15);
    assert_eq!(settle(&conn, sale(PRODUCT, 15)), Ok(1));

    assert_eq!(
        settle(&conn, sale(PRODUCT, 1)),
        Err(LedgerError::InsufficientStock { available: 0, requested: 1 })
    );
    assert_eq!(count(&conn, "sales"), 1);
    assert_eq!(count(&conn, "stock_movements"), 2);
    assert!(conn.is_autocommit());
}

#[test]
fn sqlite_settles_one_of_two_sales_that_compete() {
    let conn = open();
    stock(&conn, PRODUCT, 15);
    assert_eq!(settle(&conn, sale(PRODUCT, 10)), Ok(1));
    assert_eq!(
        settle(&conn, sale(PRODUCT, 10)),
        Err(LedgerError::InsufficientStock { available: 5, requested: 10 })
    );
    assert_eq!(balance(&conn, PRODUCT), 5);
    assert_eq!(count(&conn, "sales"), 1);
}

#[test]
fn sqlite_takes_the_sale_back_when_its_outflow_fails() {
    let conn = open();
    stock(&conn, PRODUCT, 15);
    conn.execute_batch(
        "CREATE TRIGGER no_outflows BEFORE INSERT ON stock_movements
         WHEN NEW.type = 'egreso'
         BEGIN SELECT RAISE(ABORT, 'outflows are closed'); END;",
    )
    .expect("the trigger was not created");

    assert_eq!(
        settle(&conn, sale(PRODUCT, 5)),
        Err(LedgerError::Storage { message: "outflows are closed".to_string() })
    );
    assert_eq!(count(&conn, "sales"), 0);
    assert_eq!(count(&conn, "stock_movements"), 1);
    assert_eq!(balance(&conn, PRODUCT), 15);
    assert!(conn.is_autocommit());
}

#[test]
fn sqlite_reports_a_store_without_tables() {
    let conn = Connection::open_in_memory().expect("no database in memory");
    let outcome = settle(&conn, sale(PRODUCT, 1));
    assert!(matches!(outcome, Err(LedgerError::Storage { .. })));
    assert!(conn.is_autocommit());
}

#[test]
fn sqlite_does_not_open_a_second_transaction() {
    let conn = open();
    stock(&conn, PRODUCT, 15);
    conn.execute("BEGIN IMMEDIATE TRANSACTION", []).expect("the transaction was not opened");
    let outcome = settle(&conn, sale(PRODUCT, 1));
    assert!(matches!(outcome, Err(LedgerError::Storage { .. })));
    assert!(!conn.is_autocommit());
    conn.execute("ROLLBACK", []).expect("the transaction was not rolled back");
    assert_eq!(count(&conn, "sales"), 0);
}

#[test]
fn sqlite_counts_a_manual_outflow_against_the_balance() {
    let conn = open();
    let movement = NewMovement {
        product_id: PRODUCT,
        kind: MovementKind::Outflow,
        quantity: 3,
        note: Some("merma".to_string()),
        created_by: None,
    };
    insert_movement(&conn, &movement).expect("the outflow was not recorded");
    assert_eq!(balance(&conn, PRODUCT), -3);
    assert_eq!(
        settle(&conn, sale(PRODUCT, 1)),
        Err(LedgerError::InsufficientStock { available: -3, requested: 1 })
    );
}
