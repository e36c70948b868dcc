//! The two ways in which a request to this library can be wrong.

use vstd::prelude::*;

verus! {

/// A request that the library turns down. A statistic that a summary is too
/// small for is no error: its reader returns `None`.
#[derive(Clone, Copy, Debug, PartialEq, Eq, Structural)]
pub enum StatsError {
    /// The method selector names neither of the two methods.
    InvalidMethod,
    /// An inverse transition was asked of a state that cannot hold what is
    /// to be removed: no state at all, an empty summary, or a summary
    /// smaller than the part to take out. The caller has left the protocol,
    /// and the aggregation it runs must end.
    ProtocolViolation,
}

impl StatsError {
    /// The text that describes the error.
    pub open spec fn spec_message(self) -> Seq<char> {
        match self {
            StatsError::InvalidMethod => {
                "unknown analysis method. Valid methods are 'population' and 'sample'"@
            },
            StatsError::ProtocolViolation => {
                "inverse transition on a state that does not hold what is to be removed"@
            },
        }
    }

    /// The text that describes the error.
    pub fn message(&self) -> (r: &'static str)
        ensures
            r@ == self.spec_message(),
    {
        match self {
            StatsError::InvalidMethod => {
                "unknown analysis method. Valid methods are 'population' and 'sample'"
            },
            StatsError::ProtocolViolation => {
                "inverse transition on a state that does not hold what is to be removed"
            },
        }
    }
}

} // verus!
