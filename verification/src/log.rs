//! The movement log: an append-only record of stock movements.

use vstd::prelude::*;
use crate::balance::{
    all_balances, balance, lemma_balance_push, products_seen, quantities_in_range, total,
    BalanceView, StockBalance,
};
use crate::error::{Invalid, LedgerError, LedgerErrorView};
use crate::movement::{
    copy_text, id_view, MovementKind, MovementView, NewMovement, StockMovement,
};

verus! {

/// The largest number of movements that a log can hold.
pub const MAX_ENTRIES: usize = 0xFFFF_FFFF;

/// The views of a sequence of records.
pub open spec fn views(records: Seq<StockMovement>) -> Seq<MovementView> {
    records.map_values(|r: StockMovement| r@)
}

/// The views of a sequence of product ids.
pub open spec fn product_ids(ids: Seq<i32>) -> Seq<int> {
    ids.map_values(|p: i32| p as int)
}

/// The views of a sequence of balances.
pub open spec fn balance_views(balances: Seq<StockBalance>) -> Seq<BalanceView> {
    balances.map_values(|b: StockBalance| b@)
}

/// Ids are assigned in order of recording, starting at 1.
pub open spec fn ids_in_order(log: Seq<MovementView>) -> bool {
    forall|i: int| 0 <= i < log.len() ==> (#[trigger] log[i]).id == i + 1
}

/// What holds of every log: ids are assigned in order of recording,
/// starting at 1, and every quantity is positive.
pub open spec fn orderly(log: Seq<MovementView>) -> bool {
    ids_in_order(log) && quantities_in_range(log)
}

/// Whether a movement belongs to a listing: of one product, or of all.
pub open spec fn selected(m: MovementView, product: Option<int>) -> bool {
    match product {
        Some(p) => m.product_id == p,
        None => true,
    }
}

/// The selected movements, the one recorded last first.
pub open spec fn newest_first(log: Seq<MovementView>, product: Option<int>) -> Seq<MovementView>
    decreases log.len(),
{
    if log.len() == 0 {
        Seq::empty()
    } else {
        let older = newest_first(log.drop_last(), product);
        if selected(log.last(), product) {
            seq![log.last()] + older
        } else {
            older
        }
    }
}

/// The selected movements, newest first, cut after `limit` of them where a
/// limit is given.
pub open spec fn listing(log: Seq<MovementView>, product: Option<int>, limit: Option<nat>) -> Seq<
    MovementView,
> {
    let all = newest_first(log, product);
    match limit {
        Some(n) => if n < all.len() {
            all.take(n as int)
        } else {
            all
        },
        None => all,
    }
}

/// A listing holds the selected movements and no others, in the reverse of
/// the order in which they were recorded.
pub proof fn lemma_newest_first_reverses(log: Seq<MovementView>, product: Option<int>)
    ensures
        newest_first(log, product) == log.filter(|m: MovementView| selected(m, product)).reverse(),
    decreases log.len(),
{
    let wanted = |m: MovementView| selected(m, product);
    reveal(Seq::filter);
    if log.len() > 0 {
        let earlier = log.drop_last();
        lemma_newest_first_reverses(earlier, product);
        let kept = earlier.filter(wanted);
        if wanted(log.last()) {
            assert(log.filter(wanted) == kept.push(log.last()));
            assert(kept.push(log.last()).reverse() =~= seq![log.last()] + kept.reverse());
        } else {
            assert(log.filter(wanted) == kept);
        }
    } else {
        assert(log.filter(wanted).reverse() =~= Seq::<MovementView>::empty());
    }
}

/// The movements of one product as a log of their own: in the order in
/// which they were recorded, under ids of their own.
pub open spec fn history(log: Seq<MovementView>, product: int) -> Seq<MovementView>
    decreases log.len(),
{
    if log.len() == 0 {
        Seq::empty()
    } else {
        let earlier = history(log.drop_last(), product);
        if log.last().product_id == product {
            earlier.push(MovementView { id: earlier.len() as int + 1, ..log.last() })
        } else {
            earlier
        }
    }
}

/// The history of a product gives the product the balance that the whole
/// log gives it.
pub proof fn lemma_history_keeps_balance(log: Seq<MovementView>, product: int)
    ensures
        balance(history(log, product), product) == balance(log, product),
        history(log, product).len() <= log.len(),
    decreases log.len(),
{
    if log.len() > 0 {
        let earlier = log.drop_last();
        lemma_history_keeps_balance(earlier, product);
        lemma_balance_push(earlier, log.last(), product);
        assert(earlier.push(log.last()) =~= log);
        if log.last().product_id == product {
            let own = history(earlier, product);
            lemma_balance_push(own, MovementView { id: own.len() as int + 1, ..log.last() }, product);
        }
    }
}

/// The view of an optional limit.
pub open spec fn limit_view(limit: Option<usize>) -> Option<nat> {
    match limit {
        Some(n) => Some(n as nat),
        None => None,
    }
}

/// The message of the failure that a full log reports.
pub open spec fn log_full_message() -> Seq<char> {
    "movement log is full"@
}

/// An append-only log of stock movements with a fixed capacity.
pub struct MovementLog {
    entries: Vec<StockMovement>,
    limit: usize,
}

impl View for MovementLog {
    type V = Seq<MovementView>;

    closed spec fn view(&self) -> Seq<MovementView> {
        views(self.entries@)
    }
}

impl MovementLog {
    #[verifier::type_invariant]
    spec fn inv(self) -> bool {
        &&& self.entries.len() <= self.limit <= MAX_ENTRIES
        &&& orderly(self@)
    }

    /// The number of movements that the log can hold.
    pub closed spec fn capacity(&self) -> nat {
        self.limit as nat
    }

    /// An empty log of the largest capacity.
    pub fn new() -> (log: MovementLog)
        ensures
            log@ == Seq::<MovementView>::empty(),
            log.capacity() == MAX_ENTRIES,
    {
        MovementLog { entries: Vec::new(), limit: MAX_ENTRIES }
    }

    /// An empty log that holds at most `limit` movements, and never more
    /// than [`MAX_ENTRIES`].
    pub fn with_capacity(limit: usize) -> (log: MovementLog)
        ensures
            log@ == Seq::<MovementView>::empty(),
            log.capacity() == if limit <= MAX_ENTRIES {
                limit
            } else {
                MAX_ENTRIES
            },
    {
        let limit = if limit <= MAX_ENTRIES {
            limit
        } else {
            MAX_ENTRIES
        };
        MovementLog { entries: Vec::new(), limit }
    }

    /// The number of recorded movements.
    pub fn len(&self) -> (n: usize)
        ensures
            n == self@.len(),
    {
        self.entries.len()
    }

    /// Records a movement under the next id and returns that id.
    ///
    /// A movement whose quantity is not positive is rejected; a valid one is
    /// refused only when the log is full. A failed call changes nothing.
    pub fn append(&mut self, movement: NewMovement) -> (res: Result<i64, LedgerError>)
        ensures
            final(self).capacity() == old(self).capacity(),
            orderly(final(self)@),
            res is Ok <==> movement@.valid() && old(self)@.len() < old(self).capacity(),
            match res {
                Ok(id) => {
                    &&& id == old(self)@.len() + 1
                    &&& final(self)@ == old(self)@.push(movement@.recorded(id as int))
                },
                Err(e) => {
                    &&& final(self)@ == old(self)@
                    &&& e@ == if movement@.valid() {
                        LedgerErrorView::Storage { message: log_full_message() }
                    } else {
                        LedgerErrorView::Validation(Invalid::NonPositiveQuantity)
                    }
                },
            },
    {
        proof {
            use_type_invariant(&*self);
        }
        if movement.quantity <= 0 {
            return Err(LedgerError::Validation(Invalid::NonPositiveQuantity));
        }
        if self.entries.len() >= self.limit {
            return Err(LedgerError::Storage { message: "movement log is full".to_owned() });
        }
        let id: i64 = self.entries.len() as i64 + 1;
        let record = StockMovement {
            id,
            product_id: movement.product_id,
            kind: movement.kind,
            quantity: movement.quantity,
            note: movement.note,
            created_by: movement.created_by,
        };
        let ghost before = self@;
        let mut entries: Vec<StockMovement> = Vec::new();
        std::mem::swap(&mut entries, &mut self.entries);
        entries.push(record);
        proof {
            let after = views(entries@);
            assert(after =~= before.push(movement@.recorded(id as int)));
            assert forall|i: int| 0 <= i < after.len() implies (#[trigger] after[i]).id == i + 1 && 0
                < after[i].quantity <= i32::MAX by {
                if i < before.len() {
                    assert(after[i] == before[i]);
                }
            }
        }
        self.entries = entries;
        Ok(id)
    }

    /// The balance of a product: the sum of its inflows minus the sum of
    /// its outflows. A product without movements has balance 0.
    pub fn balance_of(&self, product_id: i32) -> (stock: i64)
        ensures
            stock == balance(self@, product_id as int),
    {
        proof {
            use_type_invariant(self);
        }
        let n = self.entries.len();
        let mut inflow: u64 = 0;
        let mut outflow: u64 = 0;
        let mut i: usize = 0;
        while i < n
            invariant
                n == self.entries.len(),
                n <= MAX_ENTRIES,
                i <= n,
                quantities_in_range(self@),
                inflow == total(self@.take(i as int), product_id as int, MovementKind::Inflow),
                outflow == total(self@.take(i as int), product_id as int, MovementKind::Outflow),
                inflow <= i * 0x7fff_ffff,
                outflow <= i * 0x7fff_ffff,
            decreases n - i,
        {
            let entry = &self.entries[i];
            proof {
                let next = self@.take(i as int + 1);
                assert(next.drop_last() =~= self@.take(i as int));
                assert(next.last() == self@[i as int]);
                assert(self@[i as int] == entry@);
            }
            if entry.product_id == product_id {
                match entry.kind {
                    MovementKind::Inflow => {
                        inflow = inflow + entry.quantity as u64;
                    },
                    MovementKind::Outflow => {
                        outflow = outflow + entry.quantity as u64;
                    },
                }
            }
            i = i + 1;
        }
        proof {
            assert(self@.take(n as int) =~= self@);
        }
        inflow as i64 - outflow as i64
    }

    /// The products that have at least one movement, each once, in the
    /// order in which they first appear in the log.
    pub fn products(&self) -> (out: Vec<i32>)
        ensures
            product_ids(out@) == products_seen(self@),
    {
        let n = self.entries.len();
        let mut out: Vec<i32> = Vec::new();
        let mut i: usize = 0;
        proof {
            assert(self@.take(0) =~= Seq::<MovementView>::empty());
            assert(product_ids(out@) =~= products_seen(self@.take(0)));
        }
        while i < n
            invariant
                n == self.entries.len(),
                i <= n,
                product_ids(out@) == products_seen(self@.take(i as int)),
            decreases n - i,
        {
            let p = self.entries[i].product_id;
            proof {
                let next = self@.take(i as int + 1);
                assert(next.drop_last() =~= self@.take(i as int));
                assert(next.last() == self@[i as int]);
            }
            if !holds(&out, p) {
                let ghost before = product_ids(out@);
                out.push(p);
                proof {
                    assert(product_ids(out@) =~= before.push(p as int));
                }
            }
            i = i + 1;
        }
        proof {
            assert(self@.take(n as int) =~= self@);
        }
        out
    }

    /// The balance of every product that has movements, in the order in
    /// which the products first appear in the log.
    pub fn all_balances(&self) -> (out: Vec<StockBalance>)
        ensures
            balance_views(out@) == all_balances(self@),
    {
        let products = self.products();
        let n = products.len();
        let mut out: Vec<StockBalance> = Vec::new();
        let mut j: usize = 0;
        while j < n
            invariant
                n == products.len(),
                j <= n,
                out.len() == j,
                product_ids(products@) == products_seen(self@),
                balance_views(out@) =~= all_balances(self@).take(j as int),
            decreases n - j,
        {
            let product_id = products[j];
            let current_stock = self.balance_of(product_id);
            let ghost before = balance_views(out@);
            out.push(StockBalance { product_id, current_stock });
            proof {
                let all = all_balances(self@);
                assert(product_ids(products@)[j as int] == product_id as int);
                assert(all.len() == n);
                assert(all[j as int] == out@[j as int]@);
                assert(balance_views(out@) =~= before.push(all[j as int]));
                assert(all.take(j as int + 1) =~= all.take(j as int).push(all[j as int]));
            }
            j = j + 1;
        }
        proof {
            assert(all_balances(self@).take(n as int) =~= all_balances(self@));
        }
        out
    }

    /// The movements of one product as a log of their own, of the largest
    /// capacity.
    pub fn history_of(&self, product_id: i32) -> (out: MovementLog)
        ensures
            out@ == history(self@, product_id as int),
            out.capacity() == MAX_ENTRIES,
            orderly(out@),
    {
        proof {
            use_type_invariant(self);
        }
        let n = self.entries.len();
        let mut out = MovementLog::new();
        let mut i: usize = 0;
        proof {
            assert(self@.take(0) =~= Seq::<MovementView>::empty());
        }
        while i < n
            invariant
                n == self.entries.len(),
                n <= MAX_ENTRIES,
                i <= n,
                quantities_in_range(self@),
                out.capacity() == MAX_ENTRIES,
                out@.len() <= i,
                orderly(out@),
                out@ == history(self@.take(i as int), product_id as int),
            decreases n - i,
        {
            let entry = &self.entries[i];
            proof {
                let next = self@.take(i as int + 1);
                assert(next.drop_last() =~= self@.take(i as int));
                assert(next.last() == entry@);
                assert(self@[i as int] == entry@);
            }
            if entry.product_id == product_id {
                let copy = NewMovement {
                    product_id: entry.product_id,
                    kind: entry.kind,
                    quantity: entry.quantity,
                    note: copy_text(&entry.note),
                    created_by: entry.created_by,
                };
                let _ = out.append(copy);
            }
            i = i + 1;
        }
        proof {
            assert(self@.take(n as int) =~= self@);
        }
        out
    }

    /// Forgets all movements but the first `len`. Only the rollback of a
    /// transaction does this, to movements that were never committed.
    pub(crate) fn truncate(&mut self, len: usize)
        ensures
            final(self).capacity() == old(self).capacity(),
            orderly(final(self)@),
            final(self)@ == if len <= old(self)@.len() {
                old(self)@.take(len as int)
            } else {
                old(self)@
            },
    {
        proof {
            use_type_invariant(&*self);
        }
        let ghost before = self@;
        let mut entries: Vec<StockMovement> = Vec::new();
        std::mem::swap(&mut entries, &mut self.entries);
        entries.truncate(len);
        proof {
            let after = views(entries@);
            if len <= before.len() {
                assert(after =~= before.take(len as int));
            } else {
                assert(after =~= before);
            }
            assert forall|i: int| 0 <= i < after.len() implies (#[trigger] after[i]).id == i + 1 && 0
                < after[i].quantity <= i32::MAX by {
                assert(after[i] == before[i]);
            }
        }
        self.entries = entries;
    }

    /// The recorded movements, newest first: those of one product where one
    /// is given, else all; at most `limit` of them where a limit is given.
    pub fn list(&self, product: Option<i32>, limit: Option<usize>) -> (out: Vec<StockMovement>)
        ensures
            views(out@) == listing(self@, id_view(product), limit_view(limit)),
    {
        let ghost wanted = id_view(product);
        let mut out: Vec<StockMovement> = Vec::new();
        let mut i: usize = self.entries.len();
        proof {
            assert(self@.take(i as int) =~= self@);
            assert(views(out@) + newest_first(self@, wanted) =~= newest_first(self@, wanted));
        }
        while i > 0 && !reached(out.len(), limit)
            invariant
                i <= self.entries.len(),
                wanted == id_view(product),
                views(out@) + newest_first(self@.take(i as int), wanted) == newest_first(self@, wanted),
                limit matches Some(n) ==> out.len() <= n,
            decreases i,
        {
            let entry = &self.entries[i - 1];
            let keep = match product {
                Some(p) => entry.product_id == p,
                None => true,
            };
            proof {
                let upto = self@.take(i as int);
                assert(upto.drop_last() =~= self@.take(i as int - 1));
                assert(upto.last() == entry@);
                assert(keep == selected(entry@, wanted));
            }
            if keep {
                let ghost before = views(out@);
                out.push(entry.duplicate());
                proof {
                    let older = newest_first(self@.take(i as int - 1), wanted);
                    assert(views(out@) =~= before + seq![entry@]);
                    assert((before + seq![entry@]) + older =~= before + (seq![entry@] + older));
                }
            }
            i = i - 1;
        }
        proof {
            let all = newest_first(self@, wanted);
            let rest = newest_first(self@.take(i as int), wanted);
            if i == 0 {
                assert(self@.take(0) =~= Seq::<MovementView>::empty());
                assert(views(out@) + rest =~= views(out@));
            }
            assert(all.len() == out.len() + rest.len());
            match limit {
                Some(n) => {
                    if n < all.len() {
                        assert(all.take(n as int) =~= views(out@));
                    } else {
                        assert(views(out@) =~= all);
                    }
                },
                None => {
                    assert(views(out@) =~= all);
                },
            }
        }
        out
    }

    /// The movements of one product, newest first.
    pub fn list_by_product(&self, product_id: i32) -> (out: Vec<StockMovement>)
        ensures
            views(out@) == newest_first(self@, Some(product_id as int)),
    {
        self.list(Some(product_id), None)
    }
}

/// Whether `product` is among `seen`.
fn holds(seen: &Vec<i32>, product: i32) -> (found: bool)
    ensures
        found == product_ids(seen@).contains(product as int),
{
    let mut i: usize = 0;
    while i < seen.len()
        invariant
            i <= seen.len(),
            forall|k: int| 0 <= k < i ==> seen@[k] != product,
        decreases seen.len() - i,
    {
        if seen[i] == product {
            proof {
                assert(product_ids(seen@)[i as int] == product as int);
            }
            return true;
        }
        i = i + 1;
    }
    proof {
        assert forall|k: int| 0 <= k < product_ids(seen@).len() implies product_ids(seen@)[k]
            != product as int by {
            assert(seen@[k] != product);
        }
    }
    false
}

/// Whether a listing of `count` movements has reached its limit.
fn reached(count: usize, limit: Option<usize>) -> (full: bool)
    ensures
        full == (limit matches Some(n) && count >= n),
{
    match limit {
        Some(n) => count >= n,
        None => false,
    }
}

} // verus!
