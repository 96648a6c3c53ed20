//! Sales: the intent that a caller submits and the record that a
//! settlement leaves behind.
//!
//! Amounts of money are integers in the minor unit of the currency.

use vstd::prelude::*;
use crate::movement::{copy_text, id_view, text_view, MovementKind, MovementView, NewMovementView};

verus! {

/// The view of an optional amount.
pub open spec fn amount_view(amount: Option<i64>) -> Option<int> {
    match amount {
        Some(a) => Some(a as int),
        None => None,
    }
}

/// A sale that a caller asks to settle.
#[derive(Clone, Debug, PartialEq, Eq)]
pub struct SaleIntent {
    pub product_id: i32,
    pub quantity: i32,
    pub sale_price: i64,
    pub discount: Option<i64>,
    pub channel: Option<String>,
    pub sale_date: String,
    pub created_by: Option<i32>,
}

/// Mathematical form of a [`SaleIntent`].
pub struct SaleIntentView {
    pub product_id: int,
    pub quantity: int,
    pub sale_price: int,
    pub discount: Option<int>,
    pub channel: Option<Seq<char>>,
    pub sale_date: Seq<char>,
    pub created_by: Option<int>,
}

impl SaleIntentView {
    /// A sale may be settled only for a positive quantity.
    pub open spec fn valid(self) -> bool {
        self.quantity > 0
    }

    /// The sale record that the intent becomes under the given id.
    pub open spec fn recorded(self, id: int) -> SaleView {
        SaleView {
            id,
            product_id: self.product_id,
            quantity: self.quantity,
            sale_price: self.sale_price,
            discount: self.discount,
            channel: self.channel,
            sale_date: self.sale_date,
            created_by: self.created_by,
        }
    }

    /// The stock movement that settling the intent records: an outflow of
    /// the sold quantity of the sold product, attributed to the same user.
    pub open spec fn outflow(self) -> NewMovementView {
        NewMovementView {
            product_id: self.product_id,
            kind: MovementKind::Outflow,
            quantity: self.quantity,
            note: None,
            created_by: self.created_by,
        }
    }
}

impl View for SaleIntent {
    type V = SaleIntentView;

    open spec fn view(&self) -> SaleIntentView {
        SaleIntentView {
            product_id: self.product_id as int,
            quantity: self.quantity as int,
            sale_price: self.sale_price as int,
            discount: amount_view(self.discount),
            channel: text_view(self.channel),
            sale_date: self.sale_date@,
            created_by: id_view(self.created_by),
        }
    }
}

impl SaleIntent {
    /// Whether the intent may be settled at all.
    pub fn is_valid(&self) -> (ok: bool)
        ensures
            ok == self@.valid(),
    {
        self.quantity > 0
    }

    /// A copy of the intent.
    pub fn duplicate(&self) -> (copy: SaleIntent)
        ensures
            copy == *self,
    {
        SaleIntent {
            product_id: self.product_id,
            quantity: self.quantity,
            sale_price: self.sale_price,
            discount: self.discount,
            channel: copy_text(&self.channel),
            sale_date: self.sale_date.clone(),
            created_by: self.created_by,
        }
    }
}

/// A settled sale. A record is never changed.
#[derive(Clone, Debug, PartialEq, Eq)]
pub struct Sale {
    pub id: i64,
    pub product_id: i32,
    pub quantity: i32,
    pub sale_price: i64,
    pub discount: Option<i64>,
    pub channel: Option<String>,
    pub sale_date: String,
    pub created_by: Option<i32>,
}

/// Mathematical form of a [`Sale`].
pub struct SaleView {
    pub id: int,
    pub product_id: int,
    pub quantity: int,
    pub sale_price: int,
    pub discount: Option<int>,
    pub channel: Option<Seq<char>>,
    pub sale_date: Seq<char>,
    pub created_by: Option<int>,
}

impl SaleView {
    /// Whether a movement is one that settling this sale would record.
    pub open spec fn paired_with(self, m: MovementView) -> bool {
        &&& m.kind == MovementKind::Outflow
        &&& m.product_id == self.product_id
        &&& m.quantity == self.quantity
        &&& m.created_by == self.created_by
    }
}

impl View for Sale {
    type V = SaleView;

    open spec fn view(&self) -> SaleView {
        SaleView {
            id: self.id as int,
            product_id: self.product_id as int,
            quantity: self.quantity as int,
            sale_price: self.sale_price as int,
            discount: amount_view(self.discount),
            channel: text_view(self.channel),
            sale_date: self.sale_date@,
            created_by: id_view(self.created_by),
        }
    }
}

impl Sale {
    /// A copy of the record.
    pub fn duplicate(&self) -> (copy: Sale)
        ensures
            copy == *self,
    {
        Sale {
            id: self.id,
            product_id: self.product_id,
            quantity: self.quantity,
            sale_price: self.sale_price,
            discount: self.discount,
            channel: copy_text(&self.channel),
            sale_date: self.sale_date.clone(),
            created_by: self.created_by,
        }
    }
}

/// The views of a sequence of sale records.
pub open spec fn sale_views(records: Seq<Sale>) -> Seq<SaleView> {
    records.map_values(|r: Sale| r@)
}

} // verus!
