use vitasport::queries::{
    ranking_size, trend_days, trend_modifier, Ranking, DEFAULT_RANKING_SIZE, DEFAULT_TREND_DAYS,
};

#[test]
fn ranking_is_by_revenue_unless_quantity_is_asked_for() {
    assert_eq!(Ranking::parse(Some("qty")), Ranking::ByQuantity);
    assert_eq!(Ranking::parse(Some("revenue")), Ranking::ByRevenue);
    assert_eq!(Ranking::parse(Some("QTY")), Ranking::ByRevenue);
    assert_eq!(Ranking::parse(Some("")), Ranking::ByRevenue);
    assert_eq!(Ranking::parse(None), Ranking::ByRevenue);
}

#[test]
fn ranking_names_its_column() {
    assert_eq!(Ranking::ByQuantity.column(), "total_qty");
    assert_eq!(Ranking::ByRevenue.column(), "total_revenue");
}

#[test]
fn ranking_shows_five_products_unless_told_otherwise() {
    assert_eq!(DEFAULT_RANKING_SIZE, 5);
    assert_eq!(ranking_size(None), 5);
    assert_eq!(ranking_size(Some(20)), 20);
    assert_eq!(ranking_size(Some(0)), 0);
    assert_eq!(ranking_size(Some(-1)), -1);
}

#[test]
fn trend_covers_a_week_unless_told_otherwise() {
    assert_eq!(DEFAULT_TREND_DAYS, 7);
    assert_eq!(trend_days(None), 7);
    assert_eq!(trend_days(Some(30)), 30);
    assert_eq!(trend_days(Some(0)), 0);
    assert_eq!(trend_days(Some(-5)), 0);
    assert_eq!(trend_days(Some(i32::MIN)), 0);
}

#[test]
fn trend_reach_is_worded_for_the_store() {
    assert_eq!(trend_modifier(None), "-7 day");
    assert_eq!(trend_modifier(Some(30)), "-30 day");
    assert_eq!(trend_modifier(Some(1)), "-1 day");
    assert_eq!(trend_modifier(Some(0)), "-0 day");
    assert_eq!(trend_modifier(Some(-12)), "-0 day");
    assert_eq!(trend_modifier(Some(i32::MAX)), "-2147483647 day");
}
