//! The ledger as a mathematical value: the records it holds, and the two
//! ways in which it grows.

use vstd::prelude::*;
use crate::balance::balance;
use crate::movement::{MovementView, NewMovementView};
use crate::sale::{SaleIntentView, SaleView};

verus! {

/// Everything recorded so far: the movement log and the sales register.
#[verifier::ext_equal]
pub struct LedgerView {
    pub movements: Seq<MovementView>,
    pub sales: Seq<SaleView>,
}

impl LedgerView {
    /// The ledger in which nothing is recorded.
    pub open spec fn empty() -> LedgerView {
        LedgerView { movements: Seq::empty(), sales: Seq::empty() }
    }

    /// The balance of a product.
    pub open spec fn balance(self, product: int) -> int {
        balance(self.movements, product)
    }

    /// The ledger with one more movement record.
    pub open spec fn with_movement(self, record: MovementView) -> LedgerView {
        LedgerView { movements: self.movements.push(record), sales: self.sales }
    }

    /// The ledger with one more sale record.
    pub open spec fn with_sale(self, record: SaleView) -> LedgerView {
        LedgerView { movements: self.movements, sales: self.sales.push(record) }
    }

    /// The ledger after one more movement, recorded under the next id.
    pub open spec fn appended(self, movement: NewMovementView) -> LedgerView {
        self.with_movement(movement.recorded(self.movements.len() as int + 1))
    }

    /// Whether a sale passes validation: its quantity is positive and does
    /// not exceed the balance of its product.
    pub open spec fn covers(self, intent: SaleIntentView) -> bool {
        intent.valid() && intent.quantity <= self.balance(intent.product_id)
    }

    /// The ledger after a settlement under the given ids: one more sale and
    /// one more movement, the outflow of that sale.
    pub open spec fn settled_as(
        self,
        intent: SaleIntentView,
        sale_id: int,
        movement_id: int,
    ) -> LedgerView {
        self.with_sale(intent.recorded(sale_id)).with_movement(
            intent.outflow().recorded(movement_id),
        )
    }

    /// The ledger after a settlement under the next ids.
    pub open spec fn settled(self, intent: SaleIntentView) -> LedgerView {
        self.settled_as(intent, self.sales.len() as int + 1, self.movements.len() as int + 1)
    }
}

/// `at` pairs every sale with a movement of its own: the movement at
/// `at[i]` is the outflow of sale `i`, and later sales have later movements,
/// so no movement serves two sales.
pub open spec fn is_pairing(ledger: LedgerView, at: Seq<int>) -> bool {
    &&& at.len() == ledger.sales.len()
    &&& forall|i: int|
        0 <= i < at.len() ==> 0 <= #[trigger] at[i] < ledger.movements.len()
            && ledger.sales[i].paired_with(ledger.movements[at[i]])
    &&& forall|i: int, j: int| 0 <= i < j < at.len() ==> #[trigger] at[i] < #[trigger] at[j]
}

} // verus!
