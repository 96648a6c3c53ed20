//! The settlement of a sale against a transactional store, as a protocol.
//!
//! The store is outside this library. A settlement therefore proceeds in
//! steps: the library names the next action on the store, the caller
//! performs it and reports what the store answered, and the library decides
//! what follows. All decisions are made here; the caller only performs.
//!
//! One attempt runs through these phases: the transaction is opened, the
//! movements of the product are read inside it and the sale is validated
//! against their balance, the sale and its outflow are recorded, and the
//! transaction is committed. Any failure after the transaction was opened
//! leads to a rollback before the attempt ends in failure.

use vstd::prelude::*;
use crate::balance::balance;
use crate::error::{Invalid, LedgerError, LedgerErrorView};
use crate::log::MovementLog;
use crate::movement::{MovementKind, MovementView, NewMovement, NewMovementView};
use crate::sale::{SaleIntent, SaleIntentView};

verus! {

/// What the caller is asked to do on the store.
#[derive(Debug, PartialEq, Eq)]
pub enum Action {
    /// Open a transaction that excludes every other writer.
    Begin,
    /// Read, inside the transaction, the movements of the product.
    ReadMovements { product_id: i32 },
    /// Insert the sale and report the id it was given.
    InsertSale(SaleIntent),
    /// Insert the movement and report the id it was given.
    InsertMovement(NewMovement),
    /// Commit the transaction.
    Commit,
    /// Roll the transaction back.
    Rollback,
}

/// Mathematical form of an [`Action`].
pub enum ActionView {
    Begin,
    ReadMovements { product_id: int },
    InsertSale(SaleIntentView),
    InsertMovement(NewMovementView),
    Commit,
    Rollback,
}

impl View for Action {
    type V = ActionView;

    open spec fn view(&self) -> ActionView {
        match *self {
            Action::Begin => ActionView::Begin,
            Action::ReadMovements { product_id } => ActionView::ReadMovements {
                product_id: product_id as int,
            },
            Action::InsertSale(intent) => ActionView::InsertSale(intent@),
            Action::InsertMovement(movement) => ActionView::InsertMovement(movement@),
            Action::Commit => ActionView::Commit,
            Action::Rollback => ActionView::Rollback,
        }
    }
}

/// What the store answered to an action.
pub enum Event {
    /// The transaction was opened, committed or rolled back.
    Done,
    /// The movements that were read.
    Movements(MovementLog),
    /// A row was inserted under this id.
    Inserted { id: i64 },
    /// The store failed, with its own message.
    Failed { message: String },
    /// The store found that another writer got in the way.
    Conflict,
}

/// Mathematical form of an [`Event`].
pub enum EventView {
    Done,
    Movements(Seq<MovementView>),
    Inserted { id: int },
    Failed { message: Seq<char> },
    Conflict,
}

impl View for Event {
    type V = EventView;

    open spec fn view(&self) -> EventView {
        match *self {
            Event::Done => EventView::Done,
            Event::Movements(log) => EventView::Movements(log@),
            Event::Inserted { id } => EventView::Inserted { id: id as int },
            Event::Failed { message } => EventView::Failed { message: message@ },
            Event::Conflict => EventView::Conflict,
        }
    }
}

/// Where an attempt stands: which answer it is waiting for.
pub enum PhaseView {
    /// The transaction is being opened.
    Started,
    /// The movements are being read; the sale is validated on their arrival.
    Validating,
    /// The sale is being inserted.
    RecordingSale,
    /// The outflow of the sale is being inserted.
    RecordingMovement { sale_id: int },
    /// The transaction is being committed.
    Committing { sale_id: int },
    /// The transaction is being rolled back because of `error`.
    Aborting { error: LedgerErrorView },
}

/// Mathematical form of a [`Settlement`].
pub struct SettlementView {
    pub intent: SaleIntentView,
    pub phase: PhaseView,
}

/// Mathematical form of a [`Step`].
pub enum StepView {
    Continue { state: SettlementView, action: ActionView },
    Finished(Result<int, LedgerErrorView>),
}

/// The message of the failure reported when the store answers with something
/// that does not fit the action.
pub open spec fn unexpected_message() -> Seq<char> {
    "unexpected answer from the store"@
}

/// The failure that an answer stands for when it is not the awaited one: the
/// store's own failure, a conflict, or an answer that does not fit.
pub open spec fn failure_of(event: EventView) -> LedgerErrorView {
    match event {
        EventView::Failed { message } => LedgerErrorView::Storage { message },
        EventView::Conflict => LedgerErrorView::ConcurrencyConflict,
        _ => LedgerErrorView::Storage { message: unexpected_message() },
    }
}

/// The step that gives up: the transaction is rolled back, and the attempt
/// will end with `error`.
pub open spec fn abort(intent: SaleIntentView, error: LedgerErrorView) -> StepView {
    StepView::Continue {
        state: SettlementView { intent, phase: PhaseView::Aborting { error } },
        action: ActionView::Rollback,
    }
}

/// The step that goes on to `phase` with `action`.
pub open spec fn proceed(intent: SaleIntentView, phase: PhaseView, action: ActionView) -> StepView {
    StepView::Continue { state: SettlementView { intent, phase }, action }
}

/// The state in which an attempt starts; its first action is
/// [`ActionView::Begin`].
pub open spec fn initial(intent: SaleIntentView) -> SettlementView {
    SettlementView { intent, phase: PhaseView::Started }
}

/// What follows in `state` on `event`.
pub open spec fn next(state: SettlementView, event: EventView) -> StepView {
    let intent = state.intent;
    match state.phase {
        PhaseView::Started => match event {
            EventView::Done => proceed(
                intent,
                PhaseView::Validating,
                ActionView::ReadMovements { product_id: intent.product_id },
            ),
            EventView::Failed { .. } | EventView::Conflict => StepView::Finished(
                Err(failure_of(event)),
            ),
            _ => abort(intent, failure_of(event)),
        },
        PhaseView::Validating => match event {
            EventView::Movements(history) => {
                let available = balance(history, intent.product_id);
                if intent.quantity > available {
                    abort(
                        intent,
                        LedgerErrorView::InsufficientStock { available, requested: intent.quantity },
                    )
                } else {
                    proceed(intent, PhaseView::RecordingSale, ActionView::InsertSale(intent))
                }
            },
            _ => abort(intent, failure_of(event)),
        },
        PhaseView::RecordingSale => match event {
            EventView::Inserted { id } => proceed(
                intent,
                PhaseView::RecordingMovement { sale_id: id },
                ActionView::InsertMovement(intent.outflow()),
            ),
            _ => abort(intent, failure_of(event)),
        },
        PhaseView::RecordingMovement { sale_id } => match event {
            EventView::Inserted { .. } => proceed(
                intent,
                PhaseView::Committing { sale_id },
                ActionView::Commit,
            ),
            _ => abort(intent, failure_of(event)),
        },
        PhaseView::Committing { sale_id } => match event {
            EventView::Done => StepView::Finished(Ok(sale_id)),
            _ => abort(intent, failure_of(event)),
        },
        PhaseView::Aborting { error } => StepView::Finished(Err(error)),
    }
}

/// Where an attempt stands.
enum Phase {
    Started,
    Validating,
    RecordingSale,
    RecordingMovement { sale_id: i64 },
    Committing { sale_id: i64 },
    Aborting { error: LedgerError },
}

impl View for Phase {
    type V = PhaseView;

    closed spec fn view(&self) -> PhaseView {
        match *self {
            Phase::Started => PhaseView::Started,
            Phase::Validating => PhaseView::Validating,
            Phase::RecordingSale => PhaseView::RecordingSale,
            Phase::RecordingMovement { sale_id } => PhaseView::RecordingMovement {
                sale_id: sale_id as int,
            },
            Phase::Committing { sale_id } => PhaseView::Committing { sale_id: sale_id as int },
            Phase::Aborting { error } => PhaseView::Aborting { error: error@ },
        }
    }
}

/// One attempt to settle a sale, between two answers of the store.
pub struct Settlement {
    intent: SaleIntent,
    phase: Phase,
}

impl View for Settlement {
    type V = SettlementView;

    closed spec fn view(&self) -> SettlementView {
        SettlementView { intent: self.intent@, phase: self.phase@ }
    }
}

/// The outcome of one step of an attempt.
pub enum Step {
    /// The attempt goes on: the caller performs `action` and hands the
    /// store's answer to `state`.
    Continue { state: Settlement, action: Action },
    /// The attempt is over: the sale was committed under the given id, or
    /// nothing was.
    Finished(Result<i64, LedgerError>),
}

/// The view of the outcome of an attempt.
pub open spec fn outcome_view(outcome: Result<i64, LedgerError>) -> Result<int, LedgerErrorView> {
    match outcome {
        Ok(id) => Ok(id as int),
        Err(e) => Err(e@),
    }
}

impl View for Step {
    type V = StepView;

    open spec fn view(&self) -> StepView {
        match *self {
            Step::Continue { state, action } => StepView::Continue { state: state@, action: action@ },
            Step::Finished(outcome) => StepView::Finished(outcome_view(outcome)),
        }
    }
}

/// The failure that an answer stands for when it is not the awaited one.
fn failure(event: Event) -> (error: LedgerError)
    ensures
        error@ == failure_of(event@),
{
    match event {
        Event::Failed { message } => LedgerError::Storage { message },
        Event::Conflict => LedgerError::ConcurrencyConflict,
        _ => LedgerError::Storage { message: "unexpected answer from the store".to_owned() },
    }
}

impl Settlement {
    #[verifier::type_invariant]
    spec fn inv(self) -> bool {
        self.intent@.valid()
    }

    /// Starts an attempt. An intent whose quantity is not positive is
    /// rejected here, before the store is touched. Otherwise the attempt
    /// starts, and its first action is to open the transaction.
    pub fn start(intent: SaleIntent) -> (res: Result<(Settlement, Action), LedgerError>)
        ensures
            match res {
                Ok((state, action)) => {
                    &&& intent@.valid()
                    &&& state@ == initial(intent@)
                    &&& action@ == ActionView::Begin
                },
                Err(e) => !intent@.valid() && e == LedgerError::Validation(
                    Invalid::NonPositiveQuantity,
                ),
            },
    {
        if !intent.is_valid() {
            return Err(LedgerError::Validation(Invalid::NonPositiveQuantity));
        }
        Ok((Settlement { intent, phase: Phase::Started }, Action::Begin))
    }

    fn abort(self, error: LedgerError) -> (step: Step)
        ensures
            step@ == abort(self@.intent, error@),
            step matches Step::Continue { state, .. } && state@.intent.valid(),
    {
        proof {
            use_type_invariant(&self);
        }
        Step::Continue {
            state: Settlement { intent: self.intent, phase: Phase::Aborting { error } },
            action: Action::Rollback,
        }
    }

    /// Takes the store's answer to the last action and decides what follows.
    /// An attempt that goes on is still one for a positive quantity.
    pub fn step(self, event: Event) -> (step: Step)
        ensures
            step@ == next(self@, event@),
            step matches Step::Continue { state, .. } ==> state@.intent.valid(),
    {
        proof {
            use_type_invariant(&self);
        }
        let Settlement { intent, phase } = self;
        match phase {
            Phase::Started => match event {
                Event::Done => {
                    let product_id = intent.product_id;
                    Step::Continue {
                        state: Settlement { intent, phase: Phase::Validating },
                        action: Action::ReadMovements { product_id },
                    }
                },
                Event::Failed { message } => Step::Finished(Err(LedgerError::Storage { message })),
                Event::Conflict => Step::Finished(Err(LedgerError::ConcurrencyConflict)),
                other => {
                    let error = failure(other);
                    Settlement { intent, phase: Phase::Started }.abort(error)
                },
            },
            Phase::Validating => match event {
                Event::Movements(history) => {
                    let available = history.balance_of(intent.product_id);
                    if intent.quantity as i64 > available {
                        let error = LedgerError::InsufficientStock {
                            available,
                            requested: intent.quantity,
                        };
                        Settlement { intent, phase: Phase::Validating }.abort(error)
                    } else {
                        let asked = intent.duplicate();
                        Step::Continue {
                            state: Settlement { intent, phase: Phase::RecordingSale },
                            action: Action::InsertSale(asked),
                        }
                    }
                },
                other => {
                    let error = failure(other);
                    Settlement { intent, phase: Phase::Validating }.abort(error)
                },
            },
            Phase::RecordingSale => match event {
                Event::Inserted { id } => {
                    let outflow = NewMovement {
                        product_id: intent.product_id,
                        kind: MovementKind::Outflow,
                        quantity: intent.quantity,
                        note: None,
                        created_by: intent.created_by,
                    };
                    Step::Continue {
                        state: Settlement { intent, phase: Phase::RecordingMovement { sale_id: id } },
                        action: Action::InsertMovement(outflow),
                    }
                },
                other => {
                    let error = failure(other);
                    Settlement { intent, phase: Phase::RecordingSale }.abort(error)
                },
            },
            Phase::RecordingMovement { sale_id } => match event {
                Event::Inserted { .. } => Step::Continue {
                    state: Settlement { intent, phase: Phase::Committing { sale_id } },
                    action: Action::Commit,
                },
                other => {
                    let error = failure(other);
                    Settlement { intent, phase: Phase::RecordingMovement { sale_id } }.abort(error)
                },
            },
            Phase::Committing { sale_id } => match event {
                Event::Done => Step::Finished(Ok(sale_id)),
                other => {
                    let error = failure(other);
                    Settlement { intent, phase: Phase::Committing { sale_id } }.abort(error)
                },
            },
            Phase::Aborting { error } => Step::Finished(Err(error)),
        }
    }
}

} // verus!
