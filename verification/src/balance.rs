//! The balance of a product: what the movement log says is on hand.
//!
//! A balance is never stored. It is the sum of the inflows of a product
//! minus the sum of its outflows, over the whole log.

use vstd::prelude::*;
use crate::movement::{MovementKind, MovementView};

verus! {

/// What one movement adds to the total of a product and a kind.
pub open spec fn counted(m: MovementView, product: int, kind: MovementKind) -> int {
    if m.product_id == product && m.kind == kind {
        m.quantity
    } else {
        0
    }
}

/// The sum of the quantities of the movements of one product and one kind.
pub open spec fn total(log: Seq<MovementView>, product: int, kind: MovementKind) -> int
    decreases log.len(),
{
    if log.len() == 0 {
        0
    } else {
        total(log.drop_last(), product, kind) + counted(log.last(), product, kind)
    }
}

/// The balance of a product: its inflows minus its outflows.
pub open spec fn balance(log: Seq<MovementView>, product: int) -> int {
    total(log, product, MovementKind::Inflow) - total(log, product, MovementKind::Outflow)
}

/// The movements of one product, in log order.
pub open spec fn of_product(log: Seq<MovementView>, product: int) -> Seq<MovementView> {
    log.filter(|m: MovementView| m.product_id == product)
}

/// The sum of the signed quantities of a sequence of movements: inflows
/// count as they are, outflows count negated.
pub open spec fn signed_sum(log: Seq<MovementView>) -> int
    decreases log.len(),
{
    if log.len() == 0 {
        0
    } else {
        signed_sum(log.drop_last()) + log.last().signed_quantity()
    }
}

/// The products that have at least one movement, each once, in the order in
/// which they first appear in the log.
pub open spec fn products_seen(log: Seq<MovementView>) -> Seq<int>
    decreases log.len(),
{
    if log.len() == 0 {
        Seq::empty()
    } else {
        let earlier = products_seen(log.drop_last());
        if earlier.contains(log.last().product_id) {
            earlier
        } else {
            earlier.push(log.last().product_id)
        }
    }
}

/// The balance of one product, as reported in bulk.
#[derive(Clone, Copy, Debug, PartialEq, Eq, Structural)]
pub struct StockBalance {
    pub product_id: i32,
    pub current_stock: i64,
}

/// Mathematical form of a [`StockBalance`].
pub struct BalanceView {
    pub product_id: int,
    pub current_stock: int,
}

impl View for StockBalance {
    type V = BalanceView;

    open spec fn view(&self) -> BalanceView {
        BalanceView { product_id: self.product_id as int, current_stock: self.current_stock as int }
    }
}

/// The balances of all products that have movements, in the order of
/// [`products_seen`].
pub open spec fn all_balances(log: Seq<MovementView>) -> Seq<BalanceView> {
    products_seen(log).map_values(
        |p: int| BalanceView { product_id: p, current_stock: balance(log, p) },
    )
}

/// Every quantity in the log is positive and fits a 32-bit integer.
pub open spec fn quantities_in_range(log: Seq<MovementView>) -> bool {
    forall|i: int| 0 <= i < log.len() ==> 0 < (#[trigger] log[i]).quantity <= i32::MAX
}

/// One more movement changes the balance of its own product by its signed
/// quantity, and no other balance.
pub proof fn lemma_balance_push(log: Seq<MovementView>, m: MovementView, product: int)
    ensures
        total(log.push(m), product, MovementKind::Inflow) == total(log, product, MovementKind::Inflow)
            + counted(m, product, MovementKind::Inflow),
        total(log.push(m), product, MovementKind::Outflow) == total(log, product, MovementKind::Outflow)
            + counted(m, product, MovementKind::Outflow),
        balance(log.push(m), product) == balance(log, product) + if m.product_id == product {
            m.signed_quantity()
        } else {
            0
        },
{
    assert(log.push(m).drop_last() =~= log);
    assert(log.push(m).last() == m);
}

/// The balance of a product is the signed sum of its own movements:
/// inflows count as they are, outflows negated. Movements of other
/// products do not enter into it, wherever they stand in the log.
pub proof fn lemma_balance_is_signed_sum(log: Seq<MovementView>, product: int)
    ensures
        balance(log, product) == signed_sum(of_product(log, product)),
    decreases log.len(),
{
    if log.len() == 0 {
        reveal(Seq::filter);
    } else {
        let earlier = log.drop_last();
        lemma_balance_is_signed_sum(earlier, product);
        let own = |m: MovementView| m.product_id == product;
        reveal(Seq::filter);
        assert(of_product(log, product) == log.filter(own));
        assert(of_product(earlier, product) == earlier.filter(own));
        if own(log.last()) {
            let before = earlier.filter(own);
            assert(log.filter(own) == before.push(log.last()));
            assert(before.push(log.last()).drop_last() =~= before);
        } else {
            assert(log.filter(own) == earlier.filter(own));
        }
    }
}

/// Two logs that hold the same movements of a product, in the same order,
/// give that product the same balance, whatever else they hold.
pub proof fn lemma_balance_ignores_other_products(
    one: Seq<MovementView>,
    other: Seq<MovementView>,
    product: int,
)
    requires
        of_product(one, product) == of_product(other, product),
    ensures
        balance(one, product) == balance(other, product),
{
    lemma_balance_is_signed_sum(one, product);
    lemma_balance_is_signed_sum(other, product);
}

/// A product without movements has balance 0.
pub proof fn lemma_balance_without_history(log: Seq<MovementView>, product: int)
    requires
        forall|i: int| 0 <= i < log.len() ==> (#[trigger] log[i]).product_id != product,
    ensures
        balance(log, product) == 0,
    decreases log.len(),
{
    if log.len() > 0 {
        lemma_balance_without_history(log.drop_last(), product);
    }
}

/// The products that a bulk report lists are exactly those with at least
/// one movement, and none is listed twice.
pub proof fn lemma_products_seen(log: Seq<MovementView>)
    ensures
        products_seen(log).no_duplicates(),
        forall|p: int|
            products_seen(log).contains(p) <==> exists|i: int|
                0 <= i < log.len() && (#[trigger] log[i]).product_id == p,
    decreases log.len(),
{
    if log.len() > 0 {
        let earlier = log.drop_last();
        let last = log.last().product_id;
        lemma_products_seen(earlier);
        let seen = products_seen(earlier);
        assert forall|p: int| products_seen(log).contains(p) implies exists|i: int|
            0 <= i < log.len() && (#[trigger] log[i]).product_id == p by {
            if seen.contains(p) {
                let i = choose|i: int|
                    0 <= i < earlier.len() && (#[trigger] earlier[i]).product_id == p;
                assert(log[i].product_id == p);
            } else {
                assert(p == last);
                assert(log[log.len() - 1].product_id == p);
            }
        }
        assert forall|p: int|
            (exists|i: int|
                0 <= i < log.len() && (#[trigger] log[i]).product_id == p) implies products_seen(
            log,
        ).contains(p) by {
            let i = choose|i: int| 0 <= i < log.len() && (#[trigger] log[i]).product_id == p;
            if i < earlier.len() {
                assert(earlier[i].product_id == p);
                assert(seen.contains(p));
                if !seen.contains(last) {
                    let k = choose|k: int| 0 <= k < seen.len() && seen[k] == p;
                    assert(seen.push(last)[k] == p);
                }
            } else {
                if !seen.contains(last) {
                    assert(seen.push(last)[seen.len() as int] == last);
                }
            }
        }
    }
}

} // verus!
