//! The ledger: the movement log together with the sales register, and the
//! settlement that writes to both or to neither.

use vstd::prelude::*;
use crate::balance::StockBalance;
use crate::error::{Invalid, LedgerError, LedgerErrorView};
use crate::log::{
    balance_views, lemma_history_keeps_balance, limit_view, listing, log_full_message, orderly,
    views, MovementLog, MAX_ENTRIES,
};
use crate::movement::{id_view, MovementView, NewMovement, StockMovement};
use crate::sale::{sale_views, Sale, SaleIntent, SaleIntentView, SaleView};
use crate::history::{
    lawful, lemma_sales_stay_paired, replay, settling, well_formed, Change,
};
use crate::view::{is_pairing, LedgerView};
use crate::settlement::{
    Action, ActionView, Event, EventView, PhaseView, Settlement, SettlementView, Step,
};
use crate::store::{answers, on_track, StoreView};

verus! {

/// The message of the failure that a full sales register reports.
pub open spec fn register_full_message() -> Seq<char> {
    "sales register is full"@
}

/// What a failed settlement of `intent` reports, in a ledger that holds
/// `ledger` and has room for so many movements and sales: the first of these
/// that applies. The quantity is not positive; the quantity exceeds the
/// balance; the sales register is full; the movement log is full.
pub open spec fn settle_failure(
    ledger: LedgerView,
    movement_capacity: nat,
    sale_capacity: nat,
    intent: SaleIntentView,
) -> LedgerErrorView {
    if !intent.valid() {
        LedgerErrorView::Validation(Invalid::NonPositiveQuantity)
    } else if intent.quantity > ledger.balance(intent.product_id) {
        LedgerErrorView::InsufficientStock {
            available: ledger.balance(intent.product_id),
            requested: intent.quantity,
        }
    } else if ledger.sales.len() >= sale_capacity {
        LedgerErrorView::Storage { message: register_full_message() }
    } else {
        LedgerErrorView::Storage { message: log_full_message() }
    }
}

/// An in-memory ledger with fixed capacities.
///
/// The records of every ledger are [`well_formed`], and every sale in it
/// has its movement: [`is_pairing`] holds of each ledger and its
/// [`Ledger::pairing`].
pub struct Ledger {
    movements: MovementLog,
    sales: Vec<Sale>,
    sale_limit: usize,
    pairs: Ghost<Seq<int>>,
}

impl View for Ledger {
    type V = LedgerView;

    closed spec fn view(&self) -> LedgerView {
        LedgerView { movements: self.movements@, sales: sale_views(self.sales@) }
    }
}

impl Ledger {
    #[verifier::type_invariant]
    spec fn inv(self) -> bool {
        &&& self.sales.len() <= self.sale_limit <= MAX_ENTRIES
        &&& orderly(self.movements@)
        &&& sales_in_order(self.sales@)
        &&& is_pairing(self@, self.pairs@)
    }

    /// The number of movements that the ledger can hold.
    pub closed spec fn movement_capacity(&self) -> nat {
        self.movements.capacity()
    }

    /// The number of sales that the ledger can hold.
    pub closed spec fn sale_capacity(&self) -> nat {
        self.sale_limit as nat
    }

    /// For each sale, in the order of settlement, the place in the log of
    /// the movement that its settlement recorded.
    pub closed spec fn pairing(&self) -> Seq<int> {
        self.pairs@
    }

    /// What a settlement of `intent` reports when it fails; see
    /// [`settle_failure`].
    pub open spec fn settle_failure(&self, intent: SaleIntentView) -> LedgerErrorView {
        settle_failure(self@, self.movement_capacity(), self.sale_capacity(), intent)
    }

    /// Whether the ledger has room for one more sale and one more movement.
    pub open spec fn has_room(&self) -> bool {
        self@.sales.len() < self.sale_capacity() && self@.movements.len() < self.movement_capacity()
    }

    /// An empty ledger of the largest capacities.
    pub fn new() -> (ledger: Ledger)
        ensures
            ledger@ == LedgerView::empty(),
            ledger.movement_capacity() == MAX_ENTRIES,
            ledger.sale_capacity() == MAX_ENTRIES,
            well_formed(ledger@),
            is_pairing(ledger@, ledger.pairing()),
    {
        let ledger = Ledger {
            movements: MovementLog::new(),
            sales: Vec::new(),
            sale_limit: MAX_ENTRIES,
            pairs: Ghost(Seq::empty()),
        };
        proof {
            assert(ledger@.sales =~= Seq::<SaleView>::empty());
        }
        ledger
    }

    /// An empty ledger that holds at most `movement_limit` movements and
    /// `sale_limit` sales, and of neither more than [`MAX_ENTRIES`].
    pub fn with_capacity(movement_limit: usize, sale_limit: usize) -> (ledger: Ledger)
        ensures
            ledger@ == LedgerView::empty(),
            ledger.movement_capacity() == if movement_limit <= MAX_ENTRIES {
                movement_limit
            } else {
                MAX_ENTRIES
            },
            ledger.sale_capacity() == if sale_limit <= MAX_ENTRIES {
                sale_limit
            } else {
                MAX_ENTRIES
            },
            well_formed(ledger@),
            is_pairing(ledger@, ledger.pairing()),
    {
        let sale_limit = if sale_limit <= MAX_ENTRIES {
            sale_limit
        } else {
            MAX_ENTRIES
        };
        let ledger = Ledger {
            movements: MovementLog::with_capacity(movement_limit),
            sales: Vec::new(),
            sale_limit,
            pairs: Ghost(Seq::empty()),
        };
        proof {
            assert(ledger@.sales =~= Seq::<SaleView>::empty());
        }
        ledger
    }

    /// The number of recorded movements.
    pub fn movement_count(&self) -> (n: usize)
        ensures
            n == self@.movements.len(),
    {
        self.movements.len()
    }

    /// The number of settled sales.
    pub fn sale_count(&self) -> (n: usize)
        ensures
            n == self@.sales.len(),
    {
        self.sales.len()
    }

    /// The balance of a product: the sum of its inflows minus the sum of
    /// its outflows. A product without movements has balance 0.
    pub fn balance_of(&self, product_id: i32) -> (stock: i64)
        ensures
            stock == self@.balance(product_id as int),
    {
        self.movements.balance_of(product_id)
    }

    /// The balance of every product that has movements, in the order in
    /// which the products first appear in the log.
    pub fn all_balances(&self) -> (out: Vec<StockBalance>)
        ensures
            balance_views(out@) == crate::balance::all_balances(self@.movements),
    {
        self.movements.all_balances()
    }

    /// The recorded movements, newest first: those of one product where one
    /// is given, else all; at most `limit` of them where a limit is given.
    pub fn list_movements(&self, product: Option<i32>, limit: Option<usize>) -> (out: Vec<
        StockMovement,
    >)
        ensures
            views(out@) == listing(self@.movements, id_view(product), limit_view(limit)),
    {
        self.movements.list(product, limit)
    }

    /// The settled sales, in the order of settlement.
    pub fn sales(&self) -> (out: Vec<Sale>)
        ensures
            sale_views(out@) == self@.sales,
    {
        let n = self.sales.len();
        let mut out: Vec<Sale> = Vec::new();
        let mut i: usize = 0;
        while i < n
            invariant
                n == self.sales.len(),
                i <= n,
                out@ =~= self.sales@.take(i as int),
            decreases n - i,
        {
            out.push(self.sales[i].duplicate());
            i = i + 1;
        }
        proof {
            assert(self.sales@.take(n as int) =~= self.sales@);
        }
        out
    }

    /// Records a movement that no sale gave rise to, such as a first
    /// stocking or a manual correction, and returns its id.
    ///
    /// A movement whose quantity is not positive is rejected; a valid one is
    /// refused only when the log is full. A failed call changes nothing.
    pub fn append_movement(&mut self, movement: NewMovement) -> (res: Result<i64, LedgerError>)
        ensures
            final(self).movement_capacity() == old(self).movement_capacity(),
            final(self).sale_capacity() == old(self).sale_capacity(),
            well_formed(final(self)@),
            is_pairing(final(self)@, final(self).pairing()),
            res is Ok <==> movement@.valid() && old(self)@.movements.len() < old(
                self,
            ).movement_capacity(),
            match res {
                Ok(id) => id == old(self)@.movements.len() + 1 && final(self)@ == old(self)@.appended(
                    movement@,
                ),
                Err(e) => {
                    &&& final(self)@ == old(self)@
                    &&& e@ == if movement@.valid() {
                        LedgerErrorView::Storage { message: log_full_message() }
                    } else {
                        LedgerErrorView::Validation(Invalid::NonPositiveQuantity)
                    }
                },
            },
    {
        proof {
            use_type_invariant(&*self);
        }
        let mut taken = Ledger::new();
        std::mem::swap(self, &mut taken);
        let Ledger { mut movements, sales, sale_limit, pairs } = taken;
        let res = movements.append(movement);
        proof {
            lemma_well_formed(movements@, sales@);
        }
        *self = Ledger { movements, sales, sale_limit, pairs };
        res
    }

    /// Settles a sale: checks it against the balance of its product and, if
    /// it is covered, records the sale and its outflow together.
    ///
    /// The call succeeds exactly when the quantity is positive, does not
    /// exceed the balance, and both the register and the log have room. On
    /// success the ledger holds one more sale and one more movement, and the
    /// id of the sale is returned. A failed call changes nothing.
    ///
    /// The settlement runs as a [`Settlement`] does against any store, with
    /// the ledger in the place of the store.
    pub fn settle_sale(&mut self, intent: SaleIntent) -> (res: Result<i64, LedgerError>)
        ensures
            final(self).movement_capacity() == old(self).movement_capacity(),
            final(self).sale_capacity() == old(self).sale_capacity(),
            well_formed(final(self)@),
            is_pairing(final(self)@, final(self).pairing()),
            res is Ok <==> old(self)@.covers(intent@) && old(self).has_room(),
            match res {
                Ok(id) => id == old(self)@.sales.len() + 1 && final(self)@ == old(self)@.settled(
                    intent@,
                ),
                Err(e) => final(self)@ == old(self)@ && e@ == old(self).settle_failure(intent@),
            },
    {
        proof {
            use_type_invariant(&*self);
        }
        let ghost origin = self@;
        let ghost asked = intent@;
        let ghost movement_room = self.movement_capacity();
        let ghost sale_room = self.sale_capacity();
        let (first_state, first_action) = match Settlement::start(intent) {
            Ok(pair) => pair,
            Err(e) => {
                return Err(e);
            },
        };
        let mut taken = Ledger::new();
        std::mem::swap(self, &mut taken);
        let Ledger { movements, sales, sale_limit, pairs } = taken;
        let kept_movements = movements.len();
        let kept_sales = sales.len();
        let mut work = Workspace {
            movements,
            sales,
            sale_limit,
            kept_movements,
            kept_sales,
            open: false,
        };
        let mut state = first_state;
        let mut action = first_action;
        proof {
            assert(work.store().committed =~= origin);
        }
        loop
            invariant
                asked.valid(),
                is_pairing(origin, pairs@),
                movement_room == old(self).movement_capacity(),
                sale_room == old(self).sale_capacity(),
                origin == old(self)@,
                asked == intent@,
                work.wf(),
                work.movements.capacity() == movement_room,
                work.sale_limit == sale_room,
                underway(origin, movement_room, sale_room, asked, state@, action@, work.store()),
            decreases rank(state@.phase),
        {
            let event = work.perform(action);
            match state.step(event) {
                Step::Continue { state: then, action: next_action } => {
                    state = then;
                    action = next_action;
                },
                Step::Finished(Ok(sale_id)) => {
                    let Workspace { movements, sales, sale_limit, .. } = work;
                    let ghost mut paired = pairs@;
                    proof {
                        let after = origin.settled(asked);
                        assert(LedgerView { movements: movements@, sales: sale_views(sales@) }
                            =~= after);
                        let change = settling(
                            asked,
                            origin.sales.len() as int + 1,
                            origin.movements.len() as int + 1,
                        );
                        let changes = seq![change];
                        assert(changes.drop_last() =~= Seq::<Change>::empty());
                        assert(changes.last() == change);
                        reveal_with_fuel(replay, 2);
                        reveal_with_fuel(lawful, 2);
                        assert(replay(origin, changes) == after);
                        paired = lemma_sales_stay_paired(origin, pairs@, changes);
                        lemma_well_formed(movements@, sales@);
                    }
                    *self = Ledger { movements, sales, sale_limit, pairs: Ghost(paired) };
                    return Ok(sale_id);
                },
                Step::Finished(Err(e)) => {
                    let Workspace { movements, sales, sale_limit, .. } = work;
                    proof {
                        assert(LedgerView { movements: movements@, sales: sale_views(sales@) }
                            =~= origin);
                        lemma_well_formed(movements@, sales@);
                    }
                    *self = Ledger { movements, sales, sale_limit, pairs };
                    return Err(e);
                },
            }
        }
    }
}

/// The sales bear their ids in the order of settlement, starting at 1, and
/// every quantity is positive.
spec fn sales_in_order(sales: Seq<Sale>) -> bool {
    forall|i: int| 0 <= i < sales.len() ==> (#[trigger] sales[i]).id == i + 1 && sales[i].quantity > 0
}

proof fn lemma_well_formed(movements: Seq<MovementView>, sales: Seq<Sale>)
    requires
        orderly(movements),
        sales_in_order(sales),
    ensures
        well_formed(LedgerView { movements, sales: sale_views(sales) }),
{
    let views = sale_views(sales);
    assert forall|i: int| 0 <= i < views.len() implies (#[trigger] views[i]).id == i + 1 && views[i].quantity
        > 0 by {
        assert(views[i] == sales[i]@);
    }
}

/// How many steps an attempt in this phase has before it at most.
spec fn rank(phase: PhaseView) -> nat {
    match phase {
        PhaseView::Started => 6,
        PhaseView::Validating => 5,
        PhaseView::RecordingSale => 4,
        PhaseView::RecordingMovement { .. } => 3,
        PhaseView::Committing { .. } => 2,
        PhaseView::Aborting { .. } => 1,
    }
}

/// What holds between two steps of a settlement that runs against a ledger
/// which held `origin` when the settlement started, and has the given room
/// for movements and for sales: the
/// attempt is on track, it started with no transaction open, the ids are
/// the next ones, and an attempt that gives up does so for the reason that
/// the ledger owes.
spec fn underway(
    origin: LedgerView,
    movement_room: nat,
    sale_room: nat,
    intent: SaleIntentView,
    state: SettlementView,
    action: ActionView,
    store: StoreView,
) -> bool {
    &&& on_track(intent, origin, state, action, store)
    &&& match state.phase {
        PhaseView::Started => store.working is None,
        PhaseView::RecordingMovement { sale_id } => {
            &&& origin.sales.len() < sale_room
            &&& sale_id == origin.sales.len() + 1
        },
        PhaseView::Committing { sale_id } => {
            &&& store.working == Some(origin.settled(intent))
            &&& origin.sales.len() < sale_room
            &&& origin.movements.len() < movement_room
            &&& sale_id == origin.sales.len() + 1
        },
        PhaseView::Aborting { error } => {
            &&& error == settle_failure(origin, movement_room, sale_room, intent)
            &&& !(origin.covers(intent) && origin.sales.len() < sale_room && origin.movements.len()
                < movement_room)
        },
        _ => true,
    }
}

/// A ledger while a settlement works on it. What was recorded before the
/// transaction was opened is committed; what was recorded since is not, and
/// a rollback forgets it.
struct Workspace {
    movements: MovementLog,
    sales: Vec<Sale>,
    sale_limit: usize,
    kept_movements: usize,
    kept_sales: usize,
    open: bool,
}

impl Workspace {
    spec fn wf(&self) -> bool {
        &&& self.sales.len() <= self.sale_limit <= MAX_ENTRIES
        &&& orderly(self.movements@)
        &&& sales_in_order(self.sales@)
        &&& self.kept_movements <= self.movements@.len()
        &&& self.kept_sales <= self.sales.len()
        &&& !self.open ==> self.kept_movements == self.movements@.len() && self.kept_sales
            == self.sales.len()
    }

    /// Everything recorded, committed or not.
    spec fn recorded(&self) -> LedgerView {
        LedgerView { movements: self.movements@, sales: sale_views(self.sales@) }
    }

    /// The workspace as a store.
    spec fn store(&self) -> StoreView {
        StoreView {
            committed: LedgerView {
                movements: self.movements@.take(self.kept_movements as int),
                sales: sale_views(self.sales@).take(self.kept_sales as int),
            },
            working: if self.open {
                Some(self.recorded())
            } else {
                None
            },
        }
    }

    /// When the workspace grants an action, and what it answers when it
    /// refuses for want of room.
    spec fn answer_fits(&self, action: ActionView, event: EventView) -> bool {
        match action {
            ActionView::Begin => event is Done <==> !self.open,
            ActionView::ReadMovements { .. } => event is Movements <==> self.open,
            ActionView::InsertSale(intent) => {
                let has_room = self.sales.len() < self.sale_limit;
                &&& event is Inserted <==> self.open && intent.valid() && has_room
                &&& event matches EventView::Inserted { id } ==> id == self.sales.len() + 1
                &&& self.open && intent.valid() && !has_room ==> event == EventView::Failed {
                    message: register_full_message(),
                }
            },
            ActionView::InsertMovement(movement) => {
                let has_room = self.movements@.len() < self.movements.capacity();
                &&& event is Inserted <==> self.open && movement.valid() && has_room
                &&& event matches EventView::Inserted { id } ==> id == self.movements@.len() + 1
                &&& self.open && movement.valid() && !has_room ==> event == EventView::Failed {
                    message: log_full_message(),
                }
            },
            ActionView::Commit => event is Done <==> self.open,
            ActionView::Rollback => event is Done,
        }
    }

    /// Performs an action as a store does, and answers.
    fn perform(&mut self, action: Action) -> (event: Event)
        requires
            old(self).wf(),
        ensures
            final(self).wf(),
            final(self).movements.capacity() == old(self).movements.capacity(),
            final(self).sale_limit == old(self).sale_limit,
            answers(old(self).store(), action@, event@, final(self).store()),
            old(self).answer_fits(action@, event@),
    {
        match action {
            Action::Begin => {
                if self.open {
                    Event::Failed { message: "a transaction is already open".to_owned() }
                } else {
                    self.open = true;
                    proof {
                        assert(self.store().committed =~= self.recorded());
                    }
                    Event::Done
                }
            },
            Action::ReadMovements { product_id } => {
                if self.open {
                    let found = self.movements.history_of(product_id);
                    proof {
                        lemma_history_keeps_balance(self.movements@, product_id as int);
                    }
                    Event::Movements(found)
                } else {
                    Event::Failed { message: "no transaction is open".to_owned() }
                }
            },
            Action::InsertSale(intent) => {
                if !self.open {
                    Event::Failed { message: "no transaction is open".to_owned() }
                } else if !intent.is_valid() {
                    Event::Failed { message: "the quantity of a sale must be positive".to_owned() }
                } else if self.sales.len() >= self.sale_limit {
                    Event::Failed { message: "sales register is full".to_owned() }
                } else {
                    let id: i64 = self.sales.len() as i64 + 1;
                    let ghost before = self.store();
                    let ghost asked = intent@;
                    self.sales.push(
                        Sale {
                            id,
                            product_id: intent.product_id,
                            quantity: intent.quantity,
                            sale_price: intent.sale_price,
                            discount: intent.discount,
                            channel: intent.channel,
                            sale_date: intent.sale_date,
                            created_by: intent.created_by,
                        },
                    );
                    proof {
                        assert(self.store().committed =~= before.committed);
                        assert(self.recorded() =~= before.working->Some_0.with_sale(
                            asked.recorded(id as int),
                        ));
                    }
                    Event::Inserted { id }
                }
            },
            Action::InsertMovement(movement) => {
                if !self.open {
                    Event::Failed { message: "no transaction is open".to_owned() }
                } else {
                    let ghost before = self.store();
                    let ghost asked = movement@;
                    match self.movements.append(movement) {
                        Ok(id) => {
                            proof {
                                assert(self.store().committed =~= before.committed);
                                assert(self.recorded() =~= before.working->Some_0.with_movement(
                                    asked.recorded(id as int),
                                ));
                            }
                            Event::Inserted { id }
                        },
                        Err(LedgerError::Storage { message }) => Event::Failed { message },
                        Err(_) => Event::Failed {
                            message: "the quantity of a movement must be positive".to_owned(),
                        },
                    }
                }
            },
            Action::Commit => {
                if self.open {
                    self.kept_movements = self.movements.len();
                    self.kept_sales = self.sales.len();
                    self.open = false;
                    proof {
                        assert(self.store().committed =~= self.recorded());
                    }
                    Event::Done
                } else {
                    Event::Failed { message: "no transaction is open".to_owned() }
                }
            },
            Action::Rollback => {
                let ghost before = self.store();
                self.movements.truncate(self.kept_movements);
                self.sales.truncate(self.kept_sales);
                self.open = false;
                proof {
                    assert(self.store().committed =~= before.committed);
                }
                Event::Done
            },
        }
    }
}

} // verus!
