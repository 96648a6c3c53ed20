//! The store as the settlement protocol expects it to behave, and what the
//! protocol guarantees when it runs against such a store.
//!
//! The store itself is outside this library. What is stated here is stated
//! of every store that answers as [`answers`] describes: one that applies
//! its writes to the working copy of the open transaction, makes them
//! visible only on commit, and leaves everything as it was when it fails.

use vstd::prelude::*;
use crate::balance::balance;
use crate::error::LedgerErrorView;
use crate::history::{
    applied, lawful, lemma_no_oversell, permitted, replay, sellable, settling, sold, Change,
};
use crate::view::LedgerView;
use crate::sale::SaleIntentView;
use crate::settlement::{initial, next, ActionView, EventView, PhaseView, SettlementView, StepView};

verus! {

/// The state of a transactional store.
#[verifier::ext_equal]
pub struct StoreView {
    /// What every reader sees.
    pub committed: LedgerView,
    /// What the open transaction sees, while there is one.
    pub working: Option<LedgerView>,
}

/// Whether a store in state `before` may answer `action` with `event` and
/// be in state `after` then.
///
/// Each action has one answer that grants it, and the store gives that
/// answer only together with the action's effect. With any other answer the
/// store is as it was.
pub open spec fn answers(
    before: StoreView,
    action: ActionView,
    event: EventView,
    after: StoreView,
) -> bool {
    match action {
        ActionView::Begin => match event {
            EventView::Done => before.working is None && after == StoreView {
                committed: before.committed,
                working: Some(before.committed),
            },
            _ => after == before,
        },
        ActionView::ReadMovements { product_id } => match event {
            EventView::Movements(history) => {
                &&& after == before
                &&& before.working matches Some(seen)
                &&& balance(history, product_id) == seen.balance(product_id)
            },
            _ => after == before,
        },
        ActionView::InsertSale(intent) => match event {
            EventView::Inserted { id } => {
                &&& before.working matches Some(seen)
                &&& after == StoreView {
                    committed: before.committed,
                    working: Some(seen.with_sale(intent.recorded(id))),
                }
            },
            _ => after == before,
        },
        ActionView::InsertMovement(movement) => match event {
            EventView::Inserted { id } => {
                &&& before.working matches Some(seen)
                &&& after == StoreView {
                    committed: before.committed,
                    working: Some(seen.with_movement(movement.recorded(id))),
                }
            },
            _ => after == before,
        },
        ActionView::Commit => match event {
            EventView::Done => {
                &&& before.working matches Some(seen)
                &&& after == StoreView { committed: seen, working: None }
            },
            _ => after == before,
        },
        ActionView::Rollback => match event {
            EventView::Done => after == StoreView { committed: before.committed, working: None },
            _ => after == before,
        },
    }
}

/// Whether `event` is the answer that grants `action`.
pub open spec fn grants(action: ActionView, event: EventView) -> bool {
    match action {
        ActionView::Begin | ActionView::Commit | ActionView::Rollback => event is Done,
        ActionView::ReadMovements { .. } => event is Movements,
        ActionView::InsertSale(_) | ActionView::InsertMovement(_) => event is Inserted,
    }
}

/// The end of a run: how the attempt ended, and the store it left.
pub struct RunEnd {
    pub outcome: Result<int, LedgerErrorView>,
    pub store: StoreView,
    /// Whether the store granted every action.
    pub granted: bool,
}

/// Follows an attempt that is in `state` and has asked for `action`, against
/// a store in state `store`. `events` are the answers of the store, one per
/// action, and `stores` the states of the store after each answer.
///
/// The result is `None` unless the answers are such as the store may give
/// and the attempt ends exactly with the last of them.
pub open spec fn run(
    state: SettlementView,
    action: ActionView,
    store: StoreView,
    events: Seq<EventView>,
    stores: Seq<StoreView>,
) -> Option<RunEnd>
    decreases events.len(),
{
    if events.len() == 0 || stores.len() != events.len() {
        None
    } else if !answers(store, action, events[0], stores[0]) {
        None
    } else {
        match next(state, events[0]) {
            StepView::Finished(outcome) => if events.len() == 1 {
                Some(RunEnd { outcome, store: stores[0], granted: grants(action, events[0]) })
            } else {
                None
            },
            StepView::Continue { state: then, action: asked } => match run(
                then,
                asked,
                stores[0],
                events.drop_first(),
                stores.drop_first(),
            ) {
                Some(end) => Some(
                    RunEnd {
                        outcome: end.outcome,
                        store: end.store,
                        granted: end.granted && grants(action, events[0]),
                    },
                ),
                None => None,
            },
        }
    }
}

/// What an attempt owes, whatever the store answered. A successful attempt
/// has made one change that the ledger admitted: what is committed after it
/// is what was committed before with the sale and then its outflow added,
/// the sale under the id that is returned, the outflow under the id that
/// the store gave it. A failed attempt has left what is committed as it
/// was, and a report of insufficient stock is true.
pub open spec fn atomic(intent: SaleIntentView, origin: LedgerView, end: RunEnd) -> bool {
    match end.outcome {
        Ok(sale_id) => {
            let change = settling(intent, sale_id, end.store.committed.movements.last().id);
            &&& permitted(origin, change)
            &&& end.store.committed == applied(origin, change)
            &&& end.store.working is None
        },
        Err(error) => {
            &&& end.store.committed == origin
            &&& error matches LedgerErrorView::InsufficientStock { available, requested } ==> {
                &&& available == origin.balance(intent.product_id)
                &&& requested == intent.quantity
                &&& !origin.covers(intent)
            }
        },
    }
}

/// What an attempt owes when the store granted every action: it commits
/// exactly when the balance covers the sale, and else reports insufficient
/// stock with the balance and the quantity asked for.
pub open spec fn decided(intent: SaleIntentView, origin: LedgerView, end: RunEnd) -> bool {
    end.granted ==> if origin.covers(intent) {
        end.outcome is Ok
    } else {
        end.outcome == Err::<int, LedgerErrorView>(
            LedgerErrorView::InsufficientStock {
                available: origin.balance(intent.product_id),
                requested: intent.quantity,
            },
        )
    }
}

/// How far an attempt has come, in terms of the store: what holds between
/// two steps of a run that started when `origin` was committed and no
/// transaction was open.
pub open spec fn on_track(
    intent: SaleIntentView,
    origin: LedgerView,
    state: SettlementView,
    action: ActionView,
    store: StoreView,
) -> bool {
    &&& state.intent == intent
    &&& store.committed == origin
    &&& match state.phase {
        PhaseView::Started => action == ActionView::Begin,
        PhaseView::Validating => {
            &&& action == ActionView::ReadMovements { product_id: intent.product_id }
            &&& store.working == Some(origin)
        },
        PhaseView::RecordingSale => {
            &&& action == ActionView::InsertSale(intent)
            &&& store.working == Some(origin)
            &&& origin.covers(intent)
        },
        PhaseView::RecordingMovement { sale_id } => {
            &&& action == ActionView::InsertMovement(intent.outflow())
            &&& store.working == Some(origin.with_sale(intent.recorded(sale_id)))
            &&& origin.covers(intent)
        },
        PhaseView::Committing { sale_id } => {
            &&& action == ActionView::Commit
            &&& origin.covers(intent)
            &&& store.working matches Some(seen)
            &&& seen == origin.settled_as(intent, sale_id, seen.movements.last().id)
        },
        PhaseView::Aborting { error } => {
            &&& action == ActionView::Rollback
            &&& error matches LedgerErrorView::InsufficientStock { available, requested } ==> {
                &&& available == origin.balance(intent.product_id)
                &&& requested == intent.quantity
                &&& !origin.covers(intent)
            }
        },
    }
}

/// Whether every action so far was granted, as far as the phase shows it:
/// an attempt that gives up has met a refusal, unless it gives up for
/// insufficient stock.
spec fn smooth(intent: SaleIntentView, origin: LedgerView, state: SettlementView) -> bool {
    match state.phase {
        PhaseView::Aborting { error } => error == LedgerErrorView::InsufficientStock {
            available: origin.balance(intent.product_id),
            requested: intent.quantity,
        } && !origin.covers(intent),
        _ => true,
    }
}

proof fn lemma_run_from(
    intent: SaleIntentView,
    origin: LedgerView,
    state: SettlementView,
    action: ActionView,
    store: StoreView,
    events: Seq<EventView>,
    stores: Seq<StoreView>,
    so_far: bool,
)
    requires
        intent.valid(),
        on_track(intent, origin, state, action, store),
        so_far ==> smooth(intent, origin, state),
        run(state, action, store, events, stores) is Some,
    ensures
        atomic(intent, origin, run(state, action, store, events, stores)->Some_0),
        so_far ==> decided(intent, origin, run(state, action, store, events, stores)->Some_0),
    decreases events.len(),
{
    let event = events[0];
    let after = stores[0];
    assert(answers(store, action, event, after));
    match next(state, event) {
        StepView::Finished(outcome) => {},
        StepView::Continue { state: then, action: asked } => {
            assert(on_track(intent, origin, then, asked, after));
            let still = so_far && grants(action, event);
            assert(still ==> smooth(intent, origin, then));
            lemma_run_from(
                intent,
                origin,
                then,
                asked,
                after,
                events.drop_first(),
                stores.drop_first(),
                still,
            );
        },
    }
}

/// A settlement is all or nothing, whatever the store answers.
///
/// Take an attempt to settle a valid intent that runs to its end against a
/// store. If the attempt ends in success, the balance covered the sale, and
/// what is committed is what was committed before with the sale and its
/// outflow added, and nothing else. If it ends in failure, what is
/// committed is what was committed before. If the store granted every
/// action, the attempt ends in success exactly when the balance covers the
/// sale.
pub proof fn lemma_settlement_is_atomic(
    intent: SaleIntentView,
    store: StoreView,
    events: Seq<EventView>,
    stores: Seq<StoreView>,
)
    requires
        intent.valid(),
        run(initial(intent), ActionView::Begin, store, events, stores) is Some,
    ensures
        atomic(
            intent,
            store.committed,
            run(initial(intent), ActionView::Begin, store, events, stores)->Some_0,
        ),
        decided(
            intent,
            store.committed,
            run(initial(intent), ActionView::Begin, store, events, stores)->Some_0,
        ),
{
    lemma_run_from(
        intent,
        store.committed,
        initial(intent),
        ActionView::Begin,
        store,
        events,
        stores,
        true,
    );
}

/// One caller's attempt to settle a sale, from the first answer of the
/// store to the last.
pub struct Attempt {
    pub intent: SaleIntentView,
    pub events: Seq<EventView>,
    pub stores: Seq<StoreView>,
}

impl Attempt {
    /// How the attempt ends against a store in the given state. An intent
    /// that is not valid is turned away before the store is touched, so
    /// there is no run then.
    pub open spec fn end(self, store: StoreView) -> Option<RunEnd> {
        if self.intent.valid() {
            run(initial(self.intent), ActionView::Begin, store, self.events, self.stores)
        } else {
            None
        }
    }

    /// The store after the attempt, if the attempt is one that can happen.
    pub open spec fn leaves(self, store: StoreView) -> Option<StoreView> {
        if self.intent.valid() {
            match self.end(store) {
                Some(end) => Some(end.store),
                None => None,
            }
        } else {
            Some(store)
        }
    }

    /// The change that the attempt commits, if it commits one.
    pub open spec fn change(self, store: StoreView) -> Option<Change> {
        match self.end(store) {
            Some(end) => match end.outcome {
                Ok(sale_id) => Some(
                    settling(self.intent, sale_id, end.store.committed.movements.last().id),
                ),
                Err(_) => None,
            },
            None => None,
        }
    }
}

/// The store after the attempts, where each runs to its end before the next
/// begins; `None` where one of them cannot happen.
pub open spec fn in_turn(store: StoreView, attempts: Seq<Attempt>) -> Option<StoreView>
    decreases attempts.len(),
{
    if attempts.len() == 0 {
        Some(store)
    } else {
        match in_turn(store, attempts.drop_last()) {
            Some(before) => attempts.last().leaves(before),
            None => None,
        }
    }
}

/// The changes that the attempts commit, in their order.
pub open spec fn committed_changes(store: StoreView, attempts: Seq<Attempt>) -> Seq<Change>
    decreases attempts.len(),
{
    if attempts.len() == 0 {
        Seq::empty()
    } else {
        let earlier = committed_changes(store, attempts.drop_last());
        match in_turn(store, attempts.drop_last()) {
            Some(before) => match attempts.last().change(before) {
                Some(change) => earlier.push(change),
                None => earlier,
            },
            None => earlier,
        }
    }
}

/// Callers that take turns write a history. However many attempts run one
/// after the other, and however each of them ends, what is committed at the
/// end is what was committed at the start with the changes of the
/// successful attempts applied in their order, each admitted by the ledger
/// that it found, and each the settlement of a sale.
pub proof fn lemma_attempts_make_a_history(store: StoreView, attempts: Seq<Attempt>)
    requires
        in_turn(store, attempts) is Some,
    ensures
        lawful(store.committed, committed_changes(store, attempts)),
        replay(store.committed, committed_changes(store, attempts)) == in_turn(
            store,
            attempts,
        )->Some_0.committed,
        forall|i: int|
            0 <= i < committed_changes(store, attempts).len() ==> (#[trigger] committed_changes(
                store,
                attempts,
            )[i]) is Sale,
    decreases attempts.len(),
{
    if attempts.len() > 0 {
        let earlier = attempts.drop_last();
        let last = attempts.last();
        lemma_attempts_make_a_history(store, earlier);
        let before = in_turn(store, earlier)->Some_0;
        let so_far = committed_changes(store, earlier);
        if last.intent.valid() {
            lemma_settlement_is_atomic(last.intent, before, last.events, last.stores);
            if let Some(change) = last.change(before) {
                assert(so_far.push(change).drop_last() =~= so_far);
            }
        }
    }
}

/// No oversell, whatever the store. While callers take turns at settling
/// sales, the sales of a product take no more than what its balance had to
/// give when the first of them began.
pub proof fn lemma_attempts_never_oversell(store: StoreView, attempts: Seq<Attempt>, product: int)
    requires
        in_turn(store, attempts) is Some,
    ensures
        sold(in_turn(store, attempts)->Some_0.committed.sales, product) - sold(
            store.committed.sales,
            product,
        ) <= sellable(store.committed.balance(product)),
        store.committed.balance(product) >= 0 ==> sold(
            in_turn(store, attempts)->Some_0.committed.sales,
            product,
        ) - sold(store.committed.sales, product) <= store.committed.balance(product),
{
    lemma_attempts_make_a_history(store, attempts);
    lemma_no_oversell(store.committed, committed_changes(store, attempts), product);
}

} // verus!
