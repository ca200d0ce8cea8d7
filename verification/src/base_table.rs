//! The order in which a table shows its rows.

use vstd::prelude::*;
use std::cmp::Ordering;

verus! {

/// The direction of a sort.
#[derive(Debug, Clone, Copy, PartialEq, Eq, Structural)]
pub enum SortOrder {
    Asc,
    Desc,
}

/// The column that a table is sorted by, and the direction.
#[derive(Debug, Clone, Copy, PartialEq, Eq, Structural)]
pub struct Sort {
    pub column: i32,
    pub order: SortOrder,
}

impl Sort {
    /// A sort by `column` in the direction `order`.
    pub fn new(column: i32, order: SortOrder) -> (sort: Self)
        ensures
            sort.column == column,
            sort.order == order,
    {
        Sort { column, order }
    }

    /// The sort that a click on the header of `column` leads to. The table
    /// is then sorted by that column, ascending; only a click on the column
    /// that it is sorted by already, ascending, turns the direction round.
    pub fn toggle(current: Option<Sort>, column: i32) -> (next: Self)
        ensures
            next.column == column,
            next.order == (match current {
                Some(sort) if sort.column == column && sort.order == SortOrder::Asc =>
                    SortOrder::Desc,
                _ => SortOrder::Asc,
            }),
    {
        let order = match current {
            Some(sort) => {
                if sort.column == column && sort.order == SortOrder::Asc {
                    SortOrder::Desc
                } else {
                    SortOrder::Asc
                }
            },
            None => SortOrder::Asc,
        };
        Sort::new(column, order)
    }
}

/// How two rows stand in a table that is sorted in the direction `order`,
/// when `found` is how they compare: as they compare in an ascending table,
/// and the other way round in a descending one.
pub fn in_order(found: Ordering, order: SortOrder) -> (placed: Ordering)
    ensures
        placed == (match order {
            SortOrder::Asc => found,
            SortOrder::Desc => match found {
                Ordering::Less => Ordering::Greater,
                Ordering::Equal => Ordering::Equal,
                Ordering::Greater => Ordering::Less,
            },
        }),
{
    match order {
        SortOrder::Asc => found,
        SortOrder::Desc => match found {
            Ordering::Less => Ordering::Greater,
            Ordering::Equal => Ordering::Equal,
            Ordering::Greater => Ordering::Less,
        },
    }
}

} // verus!
