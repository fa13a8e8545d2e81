use vstd::prelude::*;
use vstd::string::StringExecFns;

verus! {

/// Text of a failed quadrature.
pub open spec fn convergence_failure_text() -> Seq<char> {
    "No subinterval of length > min_h was found for which the estimated error was less that the pro-rated tolerance"@
}

/// The quadrature found no subinterval wider than the minimum width on which the
/// two Simpson estimates agreed within the pro-rated tolerance.
#[derive(Debug, Clone, Copy, PartialEq, Eq)]
pub struct AdaptiveSimpsonError;

impl AdaptiveSimpsonError {
    /// The message that explains the failure.
    pub fn message(&self) -> (r: String)
        ensures
            r@ == convergence_failure_text(),
    {
        String::from_str(
            "No subinterval of length > min_h was found for which the estimated error was less that the pro-rated tolerance",
        )
    }
}

} // verus!
