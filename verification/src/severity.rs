use vstd::prelude::*;

verus! {

/// The urgency of a log event. `Error` is the most urgent, `Trace` the
/// least; the numeric rank grows as urgency falls.
#[derive(Clone, Copy, Debug, PartialEq, Eq, Structural)]
pub enum Severity {
    Error,
    Warn,
    Info,
    Debug,
    Trace,
}

/// Rank of a severity under the fixed total order: lower rank means more
/// urgent. `Error` has rank 1 and `Trace` rank 5.
pub open spec fn rank(s: Severity) -> nat {
    match s {
        Severity::Error => 1,
        Severity::Warn => 2,
        Severity::Info => 3,
        Severity::Debug => 4,
        Severity::Trace => 5,
    }
}

impl Severity {
    /// The rank as a machine integer, for executable comparisons.
    pub fn rank_u8(self) -> (r: u8)
        ensures
            r == rank(self),
    {
        match self {
            Severity::Error => 1,
            Severity::Warn => 2,
            Severity::Info => 3,
            Severity::Debug => 4,
            Severity::Trace => 5,
        }
    }
}

/// Whether a sink configured with minimum severity `minimum` includes an
/// event of severity `event`: true exactly when the event is at least as
/// urgent as the minimum.
pub open spec fn spec_accepts(event: Severity, minimum: Severity) -> bool {
    rank(event) <= rank(minimum)
}

/// The severity filter shared by every sink. An event passes iff it is at
/// least as urgent as the configured minimum under the fixed order
/// `Error > Warn > Info > Debug > Trace` (urgency falling left to right).
pub fn accepts(event: Severity, minimum: Severity) -> (r: bool)
    ensures
        r == spec_accepts(event, minimum),
{
    event.rank_u8() <= minimum.rank_u8()
}

} // verus!
