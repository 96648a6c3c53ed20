//! Defaults and choices of the reporting queries.
//!
//! The reports themselves are read from the store by the caller. What is
//! settled here is how a request that leaves something open is completed.

use vstd::prelude::*;
use vstd::string::StringExecFns;
use crate::decimal::{decimal, push_decimal};

verus! {

/// How many products a ranking shows when the request names no number.
pub const DEFAULT_RANKING_SIZE: i32 = 5;

/// How many days a trend covers when the request names no number.
pub const DEFAULT_TREND_DAYS: i32 = 7;

/// By which total the best-selling products are ranked.
#[derive(Clone, Copy, Debug, PartialEq, Eq, Structural)]
pub enum Ranking {
    /// By the quantity sold.
    ByQuantity,
    /// By the revenue made.
    ByRevenue,
}

impl Ranking {
    /// The ranking that a request asks for: by quantity where it says
    /// `qty`, by revenue where it says anything else or nothing.
    pub open spec fn parse_spec(order_by: Option<Seq<char>>) -> Ranking {
        match order_by {
            Some(text) => if text =~= seq!['q', 't', 'y'] {
                Ranking::ByQuantity
            } else {
                Ranking::ByRevenue
            },
            None => Ranking::ByRevenue,
        }
    }

    /// The column of the report that a ranking sorts by.
    pub open spec fn column_spec(self) -> Seq<char> {
        match self {
            Ranking::ByQuantity => "total_qty"@,
            Ranking::ByRevenue => "total_revenue"@,
        }
    }

    /// Reads the ranking that a request asks for.
    pub fn parse(order_by: Option<&str>) -> (ranking: Ranking)
        ensures
            ranking == Self::parse_spec(
                match order_by {
                    Some(text) => Some(text@),
                    None => None,
                },
            ),
    {
        proof {
            reveal_strlit("qty");
            assert("qty"@ =~= seq!['q', 't', 'y']);
        }
        match order_by {
            Some(text) => {
                if text.to_owned() == "qty".to_owned() {
                    Ranking::ByQuantity
                } else {
                    Ranking::ByRevenue
                }
            },
            None => Ranking::ByRevenue,
        }
    }

    /// The column of the report that the ranking sorts by.
    pub fn column(self) -> (name: &'static str)
        ensures
            name@ == self.column_spec(),
    {
        match self {
            Ranking::ByQuantity => "total_qty",
            Ranking::ByRevenue => "total_revenue",
        }
    }
}

/// How many products a ranking shows: the number asked for, whatever it is,
/// or [`DEFAULT_RANKING_SIZE`].
pub fn ranking_size(limit: Option<i32>) -> (size: i32)
    ensures
        size == match limit {
            Some(n) => n,
            None => DEFAULT_RANKING_SIZE,
        },
{
    match limit {
        Some(n) => n,
        None => DEFAULT_RANKING_SIZE,
    }
}

/// How many days back a trend reaches: the number asked for or
/// [`DEFAULT_TREND_DAYS`], and never less than none.
pub fn trend_days(days: Option<i32>) -> (back: i32)
    ensures
        back == match days {
            Some(n) => if n > 0 {
                n
            } else {
                0
            },
            None => DEFAULT_TREND_DAYS,
        },
{
    match days {
        Some(n) => if n > 0 {
            n
        } else {
            0
        },
        None => DEFAULT_TREND_DAYS,
    }
}

/// The trend's reach as the store's date arithmetic takes it: a minus
/// sign, the number of days, and the word `day`.
pub open spec fn trend_modifier_spec(back: int) -> Seq<char> {
    seq!['-'] + decimal(back) + seq![' ', 'd', 'a', 'y']
}

/// How far back a trend reaches, in the words of the store's date
/// arithmetic: for seven days, `-7 day`.
pub fn trend_modifier(days: Option<i32>) -> (modifier: String)
    ensures
        modifier@ == trend_modifier_spec(
            match days {
                Some(n) => if n > 0 {
                    n as int
                } else {
                    0
                },
                None => DEFAULT_TREND_DAYS as int,
            },
        ),
{
    proof {
        reveal_strlit("-");
        reveal_strlit(" day");
    }
    let mut modifier = String::from_str("-");
    push_decimal(&mut modifier, trend_days(days) as i64);
    modifier.append(" day");
    proof {
        assert("-"@ =~= seq!['-']);
        assert(" day"@ =~= seq![' ', 'd', 'a', 'y']);
    }
    modifier
}

} // verus!
