use vstd::prelude::*;

verus! {

/// The kind of a transaction record.
#[derive(Clone, Copy, Debug, PartialEq, Eq, Structural)]
pub enum TransactionType {
    /// Funds arrive in the account.
    Deposit,
    /// Funds leave the account.
    Withdrawal,
    /// A claim that an earlier deposit or withdrawal should be reversed.
    Dispute,
    /// An open dispute is decided in the account holder's favor.
    Resolve,
    /// An open dispute is decided against the account holder.
    Chargeback,
}

/// One transaction record. Amounts are fixed-point values in minor units
/// (a driver that reads decimals with four fractional digits stores 1.0 as
/// 10000); they are mandatory for deposits and withdrawals, and ignored on
/// the other kinds even when present.
#[derive(Clone, Debug, PartialEq)]
pub struct Transaction {
    pub ty: TransactionType,
    pub client_id: u16,
    pub id: u32,
    pub amount: Option<u64>,
}

impl Transaction {
    /// Only a deposit or a withdrawal can be placed under dispute; a
    /// reference to any other kind of record is ignored.
    pub open spec fn disputable(self) -> bool {
        self.ty is Deposit || self.ty is Withdrawal
    }

    /// The record's amount, for the records that carry one.
    pub open spec fn amount_or_zero(self) -> int {
        match self.amount {
            Some(a) => a as int,
            None => 0,
        }
    }
}

} // verus!
