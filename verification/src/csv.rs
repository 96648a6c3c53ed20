//! The report of stock movements as comma-separated text.
//!
//! Fields are written as they are: the report is for reading, and a text
//! with a comma in it is not quoted.

use vstd::prelude::*;
use vstd::string::StringExecFns;
use crate::decimal::{decimal, push_decimal};
use crate::movement::{id_view, text_view};

verus! {

/// A movement as the report shows it: as stored, with the time of its
/// recording.
#[derive(Clone, Debug, PartialEq, Eq)]
pub struct MovementRow {
    pub id: i32,
    pub product_id: i32,
    pub movement_type: String,
    pub quantity: i32,
    pub note: Option<String>,
    pub created_by: Option<i32>,
    pub created_at: String,
}

/// Mathematical form of a [`MovementRow`].
pub struct MovementRowView {
    pub id: int,
    pub product_id: int,
    pub movement_type: Seq<char>,
    pub quantity: int,
    pub note: Option<Seq<char>>,
    pub created_by: Option<int>,
    pub created_at: Seq<char>,
}

impl View for MovementRow {
    type V = MovementRowView;

    open spec fn view(&self) -> MovementRowView {
        MovementRowView {
            id: self.id as int,
            product_id: self.product_id as int,
            movement_type: self.movement_type@,
            quantity: self.quantity as int,
            note: text_view(self.note),
            created_by: id_view(self.created_by),
            created_at: self.created_at@,
        }
    }
}

/// The views of a sequence of rows.
pub open spec fn row_views(rows: Seq<MovementRow>) -> Seq<MovementRowView> {
    rows.map_values(|r: MovementRow| r@)
}

/// An integer that may be missing: in decimal, or nothing.
pub open spec fn optional_decimal(n: Option<int>) -> Seq<char> {
    match n {
        Some(n) => decimal(n),
        None => Seq::empty(),
    }
}

/// A text that may be missing: the text, or nothing.
pub open spec fn optional_text(text: Option<Seq<char>>) -> Seq<char> {
    match text {
        Some(text) => text,
        None => Seq::empty(),
    }
}

/// The first line of the report.
pub open spec fn header() -> Seq<char> {
    "id,product_id,type,quantity,note,created_by,created_at\n"@
}

/// The line of one movement: its fields in the order of the header, with a
/// comma between them and a line feed at the end.
pub open spec fn line(row: MovementRowView) -> Seq<char> {
    decimal(row.id) + seq![','] + decimal(row.product_id) + seq![','] + row.movement_type + seq![
        ',',
    ] + decimal(row.quantity) + seq![','] + optional_text(row.note) + seq![','] + optional_decimal(
        row.created_by,
    ) + seq![','] + row.created_at + seq!['\n']
}

/// The lines of the movements, in their order.
pub open spec fn lines(rows: Seq<MovementRowView>) -> Seq<char>
    decreases rows.len(),
{
    if rows.len() == 0 {
        Seq::empty()
    } else {
        lines(rows.drop_last()) + line(rows.last())
    }
}

/// The report: the header, then one line for each movement.
pub open spec fn report(rows: Seq<MovementRowView>) -> Seq<char> {
    header() + lines(rows)
}

/// Appends the line of one movement.
pub fn push_line(out: &mut String, row: &MovementRow)
    ensures
        final(out)@ == old(out)@ + line(row@),
{
    proof {
        reveal_strlit(",");
        reveal_strlit("\n");
        assert(","@ =~= seq![',']);
        assert("\n"@ =~= seq!['\n']);
    }
    push_decimal(out, row.id as i64);
    out.append(",");
    push_decimal(out, row.product_id as i64);
    out.append(",");
    out.append(row.movement_type.as_str());
    out.append(",");
    push_decimal(out, row.quantity as i64);
    out.append(",");
    match &row.note {
        Some(note) => {
            out.append(note.as_str());
        },
        None => {},
    }
    out.append(",");
    match row.created_by {
        Some(user) => {
            push_decimal(out, user as i64);
        },
        None => {},
    }
    out.append(",");
    out.append(row.created_at.as_str());
    out.append("\n");
    proof {
        assert(out@ =~= old(out)@ + line(row@));
    }
}

/// The report of the given movements, in their order.
pub fn movements_report(rows: &Vec<MovementRow>) -> (csv: String)
    ensures
        csv@ == report(row_views(rows@)),
{
    let mut csv = String::from_str("id,product_id,type,quantity,note,created_by,created_at\n");
    let n = rows.len();
    let mut i: usize = 0;
    proof {
        assert(row_views(rows@).take(0) =~= Seq::<MovementRowView>::empty());
        assert(csv@ =~= header() + lines(row_views(rows@).take(0)));
    }
    while i < n
        invariant
            n == rows.len(),
            i <= n,
            csv@ == header() + lines(row_views(rows@).take(i as int)),
        decreases n - i,
    {
        push_line(&mut csv, &rows[i]);
        proof {
            let all = row_views(rows@);
            let next = all.take(i as int + 1);
            assert(next.drop_last() =~= all.take(i as int));
            assert(next.last() == rows@[i as int]@);
            assert(csv@ =~= header() + lines(next));
        }
        i = i + 1;
    }
    proof {
        assert(row_views(rows@).take(n as int) =~= row_views(rows@));
    }
    csv
}

} // verus!
