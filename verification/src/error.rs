use vstd::prelude::*;

verus! {

/// The failures the account transition function can report. Every one of
/// them is local to a single transaction: the caller is expected to report
/// it and go on, and the account state is never changed by a failing call.
#[derive(Clone, Copy, Debug, PartialEq, Eq, Structural)]
pub enum Error {
    /// A withdrawal would have driven the available funds negative.
    InsufficientBalance,
    /// A deposit or withdrawal was attempted on a locked account.
    AccountLocked,
    /// A deposit or withdrawal record carried no amount.
    AmountMissing,
}

impl Error {
    /// The wording of each failure, as shown to a person reading a report.
    pub open spec fn spec_message(self) -> Seq<char> {
        match self {
            Error::InsufficientBalance => "Insufficient balance for withdrawal"@,
            Error::AccountLocked => "Account is frozen"@,
            Error::AmountMissing => "No amount specified"@,
        }
    }

    /// Renders the failure as text.
    pub fn message(&self) -> (r: String)
        ensures
            r@ == self.spec_message(),
    {
        match self {
            Error::InsufficientBalance => "Insufficient balance for withdrawal".to_owned(),
            Error::AccountLocked => "Account is frozen".to_owned(),
            Error::AmountMissing => "No amount specified".to_owned(),
        }
    }
}

} // verus!
