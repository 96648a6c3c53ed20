//! Histories: what holds of every ledger, however it came about.
//!
//! A ledger changes in two ways only: a movement is appended, or a sale is
//! settled. Writers take turns, so whatever many callers do at once comes
//! down to one sequence of such changes. The laws here are stated of every
//! such sequence, whichever store it happened in and whatever ids that
//! store gave.

use vstd::prelude::*;
use crate::balance::{all_balances, lemma_balance_push};
use crate::log::ids_in_order;
use crate::movement::{MovementKind, MovementView, NewMovementView};
use crate::sale::{SaleIntentView, SaleView};
use crate::view::{is_pairing, LedgerView};

verus! {

/// One committed change of a ledger, by the records that it added.
pub enum Change {
    /// A movement was appended.
    Movement(MovementView),
    /// A sale was settled: the sale was recorded, and a movement with it.
    Sale { sale: SaleView, outflow: MovementView },
}

/// The change that appending `movement` under `id` makes.
pub open spec fn appending(movement: NewMovementView, id: int) -> Change {
    Change::Movement(movement.recorded(id))
}

/// The change that settling `intent` makes, where the sale is recorded
/// under `sale_id` and its outflow under `movement_id`.
pub open spec fn settling(intent: SaleIntentView, sale_id: int, movement_id: int) -> Change {
    Change::Sale { sale: intent.recorded(sale_id), outflow: intent.outflow().recorded(movement_id) }
}

/// Whether the ledger admits the change: a movement must have a positive
/// quantity; a sale must have one that the balance of its product covers,
/// and the movement recorded with it must be its outflow.
pub open spec fn permitted(ledger: LedgerView, change: Change) -> bool {
    match change {
        Change::Movement(movement) => movement.quantity > 0,
        Change::Sale { sale, outflow } => {
            &&& 0 < sale.quantity <= ledger.balance(sale.product_id)
            &&& sale.paired_with(outflow)
        },
    }
}

/// The ledger after the change.
pub open spec fn applied(ledger: LedgerView, change: Change) -> LedgerView {
    match change {
        Change::Movement(movement) => ledger.with_movement(movement),
        Change::Sale { sale, outflow } => ledger.with_sale(sale).with_movement(outflow),
    }
}

/// Whether the change bears the ids that come next in the ledger.
pub open spec fn numbered(ledger: LedgerView, change: Change) -> bool {
    match change {
        Change::Movement(movement) => movement.id == ledger.movements.len() + 1,
        Change::Sale { sale, outflow } => {
            &&& sale.id == ledger.sales.len() + 1
            &&& outflow.id == ledger.movements.len() + 1
        },
    }
}

/// The ledger after all the changes, in their order.
pub open spec fn replay(ledger: LedgerView, changes: Seq<Change>) -> LedgerView
    decreases changes.len(),
{
    if changes.len() == 0 {
        ledger
    } else {
        applied(replay(ledger, changes.drop_last()), changes.last())
    }
}

/// Whether each change was admitted by the ledger that it was applied to.
pub open spec fn lawful(ledger: LedgerView, changes: Seq<Change>) -> bool
    decreases changes.len(),
{
    changes.len() == 0 || (lawful(ledger, changes.drop_last()) && permitted(
        replay(ledger, changes.drop_last()),
        changes.last(),
    ))
}

/// Whether each change bore the ids that came next in the ledger that it
/// was applied to.
pub open spec fn in_sequence(ledger: LedgerView, changes: Seq<Change>) -> bool
    decreases changes.len(),
{
    changes.len() == 0 || (in_sequence(ledger, changes.drop_last()) && numbered(
        replay(ledger, changes.drop_last()),
        changes.last(),
    ))
}

/// The quantity of a product that the sales have sold.
pub open spec fn sold(sales: Seq<SaleView>, product: int) -> int
    decreases sales.len(),
{
    if sales.len() == 0 {
        0
    } else {
        sold(sales.drop_last(), product) + if sales.last().product_id == product {
            sales.last().quantity
        } else {
            0
        }
    }
}

/// Whether the change adds stock of the product.
pub open spec fn replenishes(change: Change, product: int) -> bool {
    change matches Change::Movement(movement) && movement.kind == MovementKind::Inflow
        && movement.product_id == product
}

/// What of a balance can be sold: the balance itself, or nothing where it
/// is negative.
pub open spec fn sellable(stock: int) -> int {
    if stock > 0 {
        stock
    } else {
        0
    }
}

/// What the data model asks of the records: ids are assigned in order of
/// recording, starting at 1, and every quantity is positive.
pub open spec fn well_formed(ledger: LedgerView) -> bool {
    &&& ids_in_order(ledger.movements)
    &&& forall|i: int|
        0 <= i < ledger.movements.len() ==> (#[trigger] ledger.movements[i]).quantity > 0
    &&& forall|i: int|
        0 <= i < ledger.sales.len() ==> (#[trigger] ledger.sales[i]).id == i + 1
            && ledger.sales[i].quantity > 0
}

/// What the ledger does is a change: a movement that it appends and a sale
/// that it settles are changes under the next ids, and the ledger admits
/// them exactly when it accepts the movement or covers the sale.
pub proof fn lemma_writes_are_changes(
    ledger: LedgerView,
    movement: NewMovementView,
    intent: SaleIntentView,
    sale_id: int,
    movement_id: int,
)
    ensures
        ledger.appended(movement) == applied(
            ledger,
            appending(movement, ledger.movements.len() as int + 1),
        ),
        permitted(ledger, appending(movement, movement_id)) <==> movement.valid(),
        ledger.settled_as(intent, sale_id, movement_id) == applied(
            ledger,
            settling(intent, sale_id, movement_id),
        ),
        ledger.settled(intent) == applied(
            ledger,
            settling(intent, ledger.sales.len() as int + 1, ledger.movements.len() as int + 1),
        ),
        permitted(ledger, settling(intent, sale_id, movement_id)) <==> ledger.covers(intent),
{
}

/// A settlement lowers the balance of the sold product by the sold
/// quantity and leaves every other balance as it was; an appended movement
/// changes the balance of its product by its signed quantity.
pub proof fn lemma_balance_after(ledger: LedgerView, change: Change, product: int)
    requires
        permitted(ledger, change),
    ensures
        applied(ledger, change).balance(product) == ledger.balance(product) + match change {
            Change::Movement(movement) => if movement.product_id == product {
                movement.signed_quantity()
            } else {
                0
            },
            Change::Sale { sale, .. } => if sale.product_id == product {
                -sale.quantity
            } else {
                0
            },
        },
{
    match change {
        Change::Movement(movement) => {
            lemma_balance_push(ledger.movements, movement, product);
        },
        Change::Sale { sale, outflow } => {
            lemma_balance_push(ledger.movements, outflow, product);
        },
    }
}

/// No oversell. Over any sequence of admitted changes that adds no stock
/// of a product, the sales of that product take no more than what its
/// balance had to give at the start: what was sold since, together with
/// what can still be sold, never exceeds what could be sold at the start.
/// Where the balance at the start is not negative, that is the balance
/// itself; where it is negative, nothing is sold.
pub proof fn lemma_no_oversell(ledger: LedgerView, changes: Seq<Change>, product: int)
    requires
        lawful(ledger, changes),
        forall|i: int| 0 <= i < changes.len() ==> !replenishes(#[trigger] changes[i], product),
    ensures
        sold(replay(ledger, changes).sales, product) - sold(ledger.sales, product) + sellable(
            replay(ledger, changes).balance(product),
        ) <= sellable(ledger.balance(product)),
        sold(replay(ledger, changes).sales, product) - sold(ledger.sales, product) <= sellable(
            ledger.balance(product),
        ),
        ledger.balance(product) >= 0 ==> sold(replay(ledger, changes).sales, product) - sold(
            ledger.sales,
            product,
        ) <= ledger.balance(product),
    decreases changes.len(),
{
    if changes.len() > 0 {
        let earlier = changes.drop_last();
        let change = changes.last();
        let before = replay(ledger, earlier);
        assert forall|i: int| 0 <= i < earlier.len() implies !replenishes(
            #[trigger] earlier[i],
            product,
        ) by {
            assert(earlier[i] == changes[i]);
        }
        lemma_no_oversell(ledger, earlier, product);
        lemma_balance_after(before, change, product);
        assert(!replenishes(changes[changes.len() - 1], product));
        match change {
            Change::Movement(movement) => {},
            Change::Sale { sale, outflow } => {
                let after = applied(before, change);
                assert(after.sales.drop_last() =~= before.sales);
                assert(after.sales.last() == sale);
            },
        }
    }
}

/// Every sale has its movement. Where `at` pairs the sales of a ledger with
/// movements of their own, any sequence of admitted changes leaves a ledger
/// whose sales are paired again: each with one outflow of its product and
/// quantity, and no outflow with two sales. The pairing that is returned
/// keeps the old pairs and gives each new sale the movement that its
/// settlement recorded.
pub proof fn lemma_sales_stay_paired(
    ledger: LedgerView,
    at: Seq<int>,
    changes: Seq<Change>,
) -> (after: Seq<int>)
    requires
        is_pairing(ledger, at),
        lawful(ledger, changes),
    ensures
        is_pairing(replay(ledger, changes), after),
        at.is_prefix_of(after),
    decreases changes.len(),
{
    if changes.len() == 0 {
        at
    } else {
        let earlier = changes.drop_last();
        let before = replay(ledger, earlier);
        let kept = lemma_sales_stay_paired(ledger, at, earlier);
        let now = applied(before, changes.last());
        match changes.last() {
            Change::Movement(movement) => {
                assert forall|i: int| 0 <= i < kept.len() implies now.sales[i].paired_with(
                    now.movements[#[trigger] kept[i]],
                ) by {
                    assert(now.movements[kept[i]] == before.movements[kept[i]]);
                }
                kept
            },
            Change::Sale { sale, outflow } => {
                let grown = kept.push(before.movements.len() as int);
                assert forall|i: int| 0 <= i < grown.len() implies 0 <= #[trigger] grown[i]
                    < now.movements.len() && now.sales[i].paired_with(now.movements[grown[i]]) by {
                    if i < kept.len() {
                        assert(grown[i] == kept[i]);
                        assert(now.sales[i] == before.sales[i]);
                        assert(now.movements[kept[i]] == before.movements[kept[i]]);
                    }
                }
                assert forall|i: int, j: int| 0 <= i < j < grown.len() implies #[trigger] grown[i]
                    < #[trigger] grown[j] by {
                    assert(grown[i] == kept[i]);
                    if j < kept.len() {
                        assert(grown[j] == kept[j]);
                    }
                }
                grown
            },
        }
    }
}

/// The data model holds of every history: starting from records whose ids
/// are in order and whose quantities are positive, admitted changes under
/// the next ids leave such records.
pub proof fn lemma_history_is_well_formed(ledger: LedgerView, changes: Seq<Change>)
    requires
        well_formed(ledger),
        lawful(ledger, changes),
        in_sequence(ledger, changes),
    ensures
        well_formed(replay(ledger, changes)),
    decreases changes.len(),
{
    if changes.len() > 0 {
        let earlier = changes.drop_last();
        let before = replay(ledger, earlier);
        lemma_history_is_well_formed(ledger, earlier);
        let now = replay(ledger, changes);
        assert forall|i: int| 0 <= i < now.movements.len() implies (#[trigger] now.movements[i]).id == i
            + 1 && now.movements[i].quantity > 0 by {
            if i < before.movements.len() {
                assert(now.movements[i] == before.movements[i]);
            }
        }
        assert forall|i: int| 0 <= i < now.sales.len() implies (#[trigger] now.sales[i]).id == i + 1
            && now.sales[i].quantity > 0 by {
            if i < before.sales.len() {
                assert(now.sales[i] == before.sales[i]);
            }
        }
    }
}

/// Of two sales of one product that together ask for more than its
/// balance, at most one is settled, whichever comes first.
pub proof fn lemma_one_of_two(ledger: LedgerView, first: Change, second: Change)
    requires
        first matches Change::Sale { sale: a, .. } && second matches Change::Sale { sale: b, .. }
            && a.product_id == b.product_id && a.quantity + b.quantity > ledger.balance(
            a.product_id,
        ),
    ensures
        !lawful(ledger, seq![first, second]),
        !lawful(ledger, seq![second, first]),
{
    lemma_two_need_both(ledger, first, second);
    lemma_two_need_both(ledger, second, first);
}

proof fn lemma_two_need_both(ledger: LedgerView, first: Change, second: Change)
    requires
        first matches Change::Sale { sale: a, .. } && second matches Change::Sale { sale: b, .. }
            && a.product_id == b.product_id && a.quantity + b.quantity > ledger.balance(
            a.product_id,
        ),
    ensures
        !lawful(ledger, seq![first, second]),
{
    let both = seq![first, second];
    let one = seq![first];
    assert(both.drop_last() =~= one);
    assert(one.drop_last() =~= Seq::<Change>::empty());
    reveal_with_fuel(replay, 3);
    reveal_with_fuel(lawful, 3);
    if permitted(ledger, first) {
        lemma_balance_after(ledger, first, first->sale.product_id);
    }
}

/// Reads are repeatable. A balance and the bulk report are functions of the
/// recorded movements alone: two reads with no write between them agree.
pub proof fn lemma_reads_are_repeatable(one: LedgerView, other: LedgerView, product: int)
    requires
        one.movements == other.movements,
    ensures
        one.balance(product) == other.balance(product),
        all_balances(one.movements) == all_balances(other.movements),
{
}

} // verus!
