use vitasport::csv::{movements_report, push_line, MovementRow};
use vitasport::decimal::push_decimal;

fn row(id: i32, note: Option<&str>, created_by: Option<i32>) -> MovementRow {
    MovementRow {
        id,
        product_id: 7,
        movement_type: "egreso".to_string(),
        quantity: 4,
        note: note.map(str::to_string),
        created_by,
        created_at: "2024-05-01 10:00:00".to_string(),
    }
}

fn decimal(n: i64) -> String {
    let mut out = String::new();
    push_decimal(&mut out, n);
    out
}

#[test]
fn integers_are_written_in_decimal() {
    assert_eq!(decimal(0), "0");
    assert_eq!(decimal(7), "7");
    assert_eq!(decimal(10), "10");
    assert_eq!(decimal(1905), "1905");
    assert_eq!(decimal(-1), "-1");
    assert_eq!(decimal(-120), "-120");
    assert_eq!(decimal(2_147_483_647), "2147483647");
    assert_eq!(decimal(-2_147_483_648), "-2147483648");
    assert_eq!(decimal(i64::MAX), "9223372036854775807");
    assert_eq!(decimal(i64::MIN), "-9223372036854775808");
}

#[test]
fn decimal_is_appended_to_what_is_there() {
    let mut out = "n=".to_string();
    push_decimal(&mut out, 42);
    push_decimal(&mut out, -3);
    assert_eq!(out, "n=42-3");
}

#[test]
fn a_line_has_the_fields_of_the_header() {
    let mut out = String::new();
    push_line(&mut out, &row(3, Some("merma"), Some(2)));
    assert_eq!(out, "3,7,egreso,4,merma,2,2024-05-01 10:00:00\n");
}

#[test]
fn missing_fields_are_left_empty() {
    let mut out = String::new();
    push_line(&mut out, &row(3, None, None));
    assert_eq!(out, "3,7,egreso,4,,,2024-05-01 10:00:00\n");
}

#[test]
fn the_stored_type_is_written_as_it_is() {
    let mut odd = row(1, None, None);
    odd.movement_type = "ajuste".to_string();
    let mut out = String::new();
    push_line(&mut out, &odd);
    assert_eq!(out, "1,7,ajuste,4,,,2024-05-01 10:00:00\n");
}

#[test]
fn the_report_starts_with_the_header() {
    assert_eq!(
        movements_report(&Vec::new()),
        "id,product_id,type,quantity,note,created_by,created_at\n"
    );
}

#[test]
fn the_report_keeps_the_order_of_its_rows() {
    let rows = vec![row(9, None, Some(1)), row(8, Some("a,b"), None), row(-1, Some(""), Some(0))];
    assert_eq!(rows[0].clone(), rows[0]);
    assert_eq!(
        movements_report(&rows),
        "id,product_id,type,quantity,note,created_by,created_at\n\
         9,7,egreso,4,,1,2024-05-01 10:00:00\n\
         8,7,egreso,4,a,b,,2024-05-01 10:00:00\n\
         -1,7,egreso,4,,0,2024-05-01 10:00:00\n"
    );
}
