//! Stock movements: the events that make up the inventory log.

use vstd::prelude::*;
use crate::error::{Invalid, LedgerError};

verus! {

/// The text under which an inflow is stored: `ingreso`.
pub open spec fn inflow_tag() -> Seq<char> {
    seq!['i', 'n', 'g', 'r', 'e', 's', 'o']
}

/// The text under which an outflow is stored: `egreso`.
pub open spec fn outflow_tag() -> Seq<char> {
    seq!['e', 'g', 'r', 'e', 's', 'o']
}

/// The two tags as string literals.
pub proof fn lemma_tags()
    ensures
        "ingreso"@ == inflow_tag(),
        "egreso"@ == outflow_tag(),
{
    reveal_strlit("ingreso");
    reveal_strlit("egreso");
    assert("ingreso"@ =~= inflow_tag());
    assert("egreso"@ =~= outflow_tag());
}

/// Direction of a stock movement.
#[derive(Clone, Copy, Debug, PartialEq, Eq, Structural)]
pub enum MovementKind {
    /// Stock entering the inventory.
    Inflow,
    /// Stock leaving the inventory.
    Outflow,
}

impl MovementKind {
    /// The text under which a kind is stored.
    pub open spec fn tag_spec(self) -> Seq<char> {
        match self {
            MovementKind::Inflow => inflow_tag(),
            MovementKind::Outflow => outflow_tag(),
        }
    }

    /// The kind that a stored text names, if it names one.
    pub open spec fn parse_spec(tag: Seq<char>) -> Option<MovementKind> {
        if tag =~= inflow_tag() {
            Some(MovementKind::Inflow)
        } else if tag =~= outflow_tag() {
            Some(MovementKind::Outflow)
        } else {
            None
        }
    }

    /// Reads a stored tag; any text but the two known tags gives `None`.
    pub fn parse(tag: &str) -> (kind: Option<MovementKind>)
        ensures
            kind == Self::parse_spec(tag@),
    {
        proof {
            lemma_tags();
        }
        let given = tag.to_owned();
        if given == "ingreso".to_owned() {
            Some(MovementKind::Inflow)
        } else if given == "egreso".to_owned() {
            Some(MovementKind::Outflow)
        } else {
            None
        }
    }

    /// The stored tag of this kind.
    pub fn tag(self) -> (tag: &'static str)
        ensures
            tag@ == self.tag_spec(),
    {
        proof {
            lemma_tags();
        }
        match self {
            MovementKind::Inflow => "ingreso",
            MovementKind::Outflow => "egreso",
        }
    }
}

/// The view of an optional text.
pub open spec fn text_view(text: Option<String>) -> Option<Seq<char>> {
    match text {
        Some(s) => Some(s@),
        None => None,
    }
}

/// The view of an optional reference to a user or a product.
pub open spec fn id_view(id: Option<i32>) -> Option<int> {
    match id {
        Some(n) => Some(n as int),
        None => None,
    }
}

/// A copy of an optional text.
pub fn copy_text(text: &Option<String>) -> (copy: Option<String>)
    ensures
        copy == *text,
{
    match text {
        Some(s) => Some(s.clone()),
        None => None,
    }
}

/// A movement that has not been recorded yet.
#[derive(Clone, Debug, PartialEq, Eq)]
pub struct NewMovement {
    pub product_id: i32,
    pub kind: MovementKind,
    pub quantity: i32,
    pub note: Option<String>,
    pub created_by: Option<i32>,
}

/// Mathematical form of a [`NewMovement`].
pub struct NewMovementView {
    pub product_id: int,
    pub kind: MovementKind,
    pub quantity: int,
    pub note: Option<Seq<char>>,
    pub created_by: Option<int>,
}

impl NewMovementView {
    /// A movement may be recorded only with a positive quantity.
    pub open spec fn valid(self) -> bool {
        self.quantity > 0
    }

    /// The record that this movement becomes under the given id.
    pub open spec fn recorded(self, id: int) -> MovementView {
        MovementView {
            id,
            product_id: self.product_id,
            kind: self.kind,
            quantity: self.quantity,
            note: self.note,
            created_by: self.created_by,
        }
    }
}

impl View for NewMovement {
    type V = NewMovementView;

    open spec fn view(&self) -> NewMovementView {
        NewMovementView {
            product_id: self.product_id as int,
            kind: self.kind,
            quantity: self.quantity as int,
            note: text_view(self.note),
            created_by: id_view(self.created_by),
        }
    }
}

impl NewMovement {
    /// What [`NewMovement::from_stored`] returns for the given raw fields.
    pub open spec fn from_stored_spec(
        product_id: int,
        tag: Seq<char>,
        quantity: int,
        note: Option<Seq<char>>,
        created_by: Option<int>,
    ) -> Result<NewMovementView, Invalid> {
        match MovementKind::parse_spec(tag) {
            None => Err(Invalid::UnknownKind),
            Some(kind) => if quantity <= 0 {
                Err(Invalid::NonPositiveQuantity)
            } else {
                Ok(NewMovementView { product_id, kind, quantity, note, created_by })
            },
        }
    }

    /// Builds a movement from raw fields, with the kind given as its stored
    /// tag. An unknown tag is rejected first, then a quantity that is not
    /// positive.
    pub fn from_stored(
        product_id: i32,
        tag: &str,
        quantity: i32,
        note: Option<String>,
        created_by: Option<i32>,
    ) -> (made: Result<NewMovement, LedgerError>)
        ensures
            match Self::from_stored_spec(
                product_id as int,
                tag@,
                quantity as int,
                text_view(note),
                id_view(created_by),
            ) {
                Ok(view) => made is Ok && made->Ok_0@ == view,
                Err(why) => made == Err::<NewMovement, LedgerError>(LedgerError::Validation(why)),
            },
    {
        match MovementKind::parse(tag) {
            None => Err(LedgerError::Validation(Invalid::UnknownKind)),
            Some(kind) => {
                if quantity <= 0 {
                    Err(LedgerError::Validation(Invalid::NonPositiveQuantity))
                } else {
                    Ok(NewMovement { product_id, kind, quantity, note, created_by })
                }
            },
        }
    }

    /// The movement that stocks a product for the first time, if the
    /// product comes with stock.
    pub open spec fn initial_stock_spec(product_id: int, stock: Option<int>) -> Option<
        NewMovementView,
    > {
        match stock {
            Some(quantity) => if quantity > 0 {
                Some(
                    NewMovementView {
                        product_id,
                        kind: MovementKind::Inflow,
                        quantity,
                        note: None,
                        created_by: None,
                    },
                )
            } else {
                None
            },
            None => None,
        }
    }

    /// The movement that stocks a new product for the first time: an inflow
    /// of the stock that the product comes with, attributed to nobody. A
    /// product that comes with no stock, or with none that is positive, has
    /// no first movement.
    pub fn initial_stock(product_id: i32, stock: Option<i32>) -> (first: Option<NewMovement>)
        ensures
            match Self::initial_stock_spec(product_id as int, id_view(stock)) {
                Some(view) => first is Some && first->Some_0@ == view,
                None => first is None,
            },
    {
        match stock {
            Some(quantity) => {
                if quantity > 0 {
                    Some(
                        NewMovement {
                            product_id,
                            kind: MovementKind::Inflow,
                            quantity,
                            note: None,
                            created_by: None,
                        },
                    )
                } else {
                    None
                }
            },
            None => None,
        }
    }

    /// Whether the movement may be recorded.
    pub fn is_valid(&self) -> (ok: bool)
        ensures
            ok == self@.valid(),
    {
        self.quantity > 0
    }
}

/// A movement as recorded in the log. A record is never changed.
#[derive(Clone, Debug, PartialEq, Eq)]
pub struct StockMovement {
    pub id: i64,
    pub product_id: i32,
    pub kind: MovementKind,
    pub quantity: i32,
    pub note: Option<String>,
    pub created_by: Option<i32>,
}

/// Mathematical form of a [`StockMovement`].
pub struct MovementView {
    pub id: int,
    pub product_id: int,
    pub kind: MovementKind,
    pub quantity: int,
    pub note: Option<Seq<char>>,
    pub created_by: Option<int>,
}

impl MovementView {
    /// What the movement adds to the balance of its product.
    pub open spec fn signed_quantity(self) -> int {
        match self.kind {
            MovementKind::Inflow => self.quantity,
            MovementKind::Outflow => -self.quantity,
        }
    }
}

impl View for StockMovement {
    type V = MovementView;

    open spec fn view(&self) -> MovementView {
        MovementView {
            id: self.id as int,
            product_id: self.product_id as int,
            kind: self.kind,
            quantity: self.quantity as int,
            note: text_view(self.note),
            created_by: id_view(self.created_by),
        }
    }
}

impl StockMovement {
    /// A copy of the record.
    pub fn duplicate(&self) -> (copy: StockMovement)
        ensures
            copy == *self,
    {
        StockMovement {
            id: self.id,
            product_id: self.product_id,
            kind: self.kind,
            quantity: self.quantity,
            note: copy_text(&self.note),
            created_by: self.created_by,
        }
    }
}

} // verus!
