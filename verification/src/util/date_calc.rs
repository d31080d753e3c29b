use vstd::prelude::*;

verus! {

/// The length of a period over which the network's pool is collected.
#[derive(Clone, Copy, Debug, PartialEq, Eq, Structural)]
pub enum CollectionPeriod {
    Minutes,
    Hours,
    Days,
    Weeks,
    Months,
    Years,
}

/// The length of a period in seconds (a week is counted as four days, a month as
/// thirty, a year as 365).
pub open spec fn period_seconds(p: CollectionPeriod) -> int {
    match p {
        CollectionPeriod::Minutes => 60,
        CollectionPeriod::Hours => 3600,
        CollectionPeriod::Days => 86400,
        CollectionPeriod::Weeks => 86400int * 4,
        CollectionPeriod::Months => 86400int * 30,
        CollectionPeriod::Years => 86400int * 365,
    }
}

impl CollectionPeriod {
    /// The period's length in seconds.
    pub fn get_value(&self) -> (r: i64)
        ensures
            r == period_seconds(*self),
    {
        match self {
            Self::Minutes => {
                return 60;
            },
            Self::Hours => {
                return 3600;
            },
            Self::Days => {
                return 86400;
            },
            Self::Weeks => {
                return 86400 * 4;
            },
            Self::Months => {
                return 86400 * 30;
            },
            Self::Years => {
                return 86400 * 365;
            },
        }
    }
}


/// Whether the node makes its withdrawal at second `timestamp`: once a minute,
/// after the node was started.
pub open spec fn withdrawal_due_at(timestamp: i64, initialized: bool) -> bool {
    timestamp % 60 == 0 && initialized
}

/// Decides whether the node makes its withdrawal at second `timestamp`.
pub fn withdrawal_due(timestamp: i64, initialized: bool) -> (r: bool)
    ensures
        r == withdrawal_due_at(timestamp, initialized),
{
    timestamp % 60 == 0 && initialized
}

} // verus!
