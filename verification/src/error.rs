use vstd::prelude::*;

verus! {

/// The ways a calendar computation can fail.
#[derive(Clone, Copy, Debug, PartialEq, Eq, Structural)]
pub enum CalError {
    /// The month is outside 1..=12.
    InvalidMonth,
    /// The year/month pair cannot be materialized as a calendar date.
    InvalidDate,
}

impl CalError {
    /// The human-readable message that is printed on the error stream.
    pub fn message(&self) -> (r: &'static str)
        ensures
            *self == CalError::InvalidMonth ==> r@ == "Invalid month argument (only 1-12 is accepted)."@,
            *self == CalError::InvalidDate ==> r@ == "Invalid date: the year is outside the supported range."@,
    {
        match self {
            CalError::InvalidMonth => "Invalid month argument (only 1-12 is accepted).",
            CalError::InvalidDate => "Invalid date: the year is outside the supported range.",
        }
    }
}

} // verus!
