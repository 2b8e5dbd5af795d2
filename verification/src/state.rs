use crate::error::Error;
use crate::transaction::{Transaction, TransactionType};
use vstd::prelude::*;

verus! {

/// One open dispute, as the account remembers it: whether the disputed
/// transaction was a withdrawal, and the amount it moved.
#[verifier::ext_equal]
pub struct Claim {
    pub withdrawal: bool,
    pub amount: int,
}

impl Claim {
    /// The claim a dispute files against an original transaction.
    pub open spec fn of(tx: Transaction) -> Claim {
        Claim { withdrawal: tx.ty is Withdrawal, amount: tx.amount_or_zero() }
    }
}

/// The abstract state of one account: total funds, the funds held by open
/// disputes, the lock flag, and the table of open disputes keyed by the
/// disputed transaction's id. Available funds are derived, never stored.
#[verifier::ext_equal]
pub struct AccountState {
    pub total: int,
    pub held: int,
    pub locked: bool,
    pub disputed: Map<u32, Claim>,
}

impl AccountState {
    /// A freshly created account.
    pub open spec fn init() -> AccountState {
        AccountState { total: 0, held: 0, locked: false, disputed: Map::empty() }
    }

    /// Funds the client may withdraw: everything not held by a dispute.
    pub open spec fn available(self) -> int {
        self.total - self.held
    }

    /// A deposit: refused while the account is locked, otherwise the amount
    /// joins the total.
    pub open spec fn deposit_step(self, amount: int) -> (AccountState, Result<(), Error>) {
        if self.locked {
            (self, Err(Error::AccountLocked))
        } else {
            (
                AccountState {
                    total: self.total + amount,
                    held: self.held,
                    locked: self.locked,
                    disputed: self.disputed,
                },
                Ok(()),
            )
        }
    }

    /// A withdrawal: refused while the account is locked, refused when the
    /// amount exceeds the available funds, otherwise taken from the total.
    /// Held funds never make up for missing available funds.
    pub open spec fn withdraw_step(self, amount: int) -> (AccountState, Result<(), Error>) {
        if self.locked {
            (self, Err(Error::AccountLocked))
        } else if amount > self.available() {
            (self, Err(Error::InsufficientBalance))
        } else {
            (
                AccountState {
                    total: self.total - amount,
                    held: self.held,
                    locked: self.locked,
                    disputed: self.disputed,
                },
                Ok(()),
            )
        }
    }

    /// Opening a dispute. An id already under dispute is left alone. For a
    /// disputed deposit the amount merely moves from available to held; for
    /// a disputed withdrawal the client is provisionally credited back, so
    /// total and held grow together and available stays as it was.
    pub open spec fn dispute_step(self, id: u32, claim: Claim) -> (AccountState, Result<(), Error>) {
        if self.disputed.contains_key(id) {
            (self, Ok(()))
        } else {
            (
                AccountState {
                    total: self.total + if claim.withdrawal { claim.amount } else { 0 },
                    held: self.held + claim.amount,
                    locked: self.locked,
                    disputed: self.disputed.insert(id, claim),
                },
                Ok(()),
            )
        }
    }

    /// A dispute is decided in the account holder's favor: the original
    /// transaction stands. A resolved deposit's amount returns from held to
    /// available; a resolved withdrawal's provisional credit is taken away
    /// again. An id not under dispute is a no-op, not an error.
    pub open spec fn resolve_step(self, id: u32) -> (AccountState, Result<(), Error>) {
        if !self.disputed.contains_key(id) {
            (self, Ok(()))
        } else {
            let claim = self.disputed[id];
            (
                AccountState {
                    total: self.total - if claim.withdrawal { claim.amount } else { 0 },
                    held: self.held - claim.amount,
                    locked: self.locked,
                    disputed: self.disputed.remove(id),
                },
                Ok(()),
            )
        }
    }

    /// A dispute is decided against the account holder: the original
    /// transaction is reversed. A charged-back deposit's amount leaves the
    /// account; a charged-back withdrawal's provisional credit simply
    /// stands. The account is locked in either case. An id not under
    /// dispute is a no-op, and then nothing is locked.
    pub open spec fn chargeback_step(self, id: u32) -> (AccountState, Result<(), Error>) {
        if !self.disputed.contains_key(id) {
            (self, Ok(()))
        } else {
            let claim = self.disputed[id];
            (
                AccountState {
                    total: self.total - if claim.withdrawal { 0 } else { claim.amount },
                    held: self.held - claim.amount,
                    locked: true,
                    disputed: self.disputed.remove(id),
                },
                Ok(()),
            )
        }
    }

    /// Clears the lock flag and touches nothing else. This is an
    /// administrative operation: no transaction kind triggers it.
    pub open spec fn unlock_step(self) -> AccountState {
        AccountState { total: self.total, held: self.held, locked: false, disputed: self.disputed }
    }

    /// A dispute whose original transaction was found. A reference to a
    /// record that is not a deposit or withdrawal is silently ignored; an
    /// eligible record without an amount is refused.
    pub open spec fn dispute_filed(self, orig: Transaction) -> (AccountState, Result<(), Error>) {
        if !orig.disputable() {
            (self, Ok(()))
        } else {
            match orig.amount {
                None => (self, Err(Error::AmountMissing)),
                Some(_) => self.dispute_step(orig.id, Claim::of(orig)),
            }
        }
    }

    /// One call of the transition function: the state afterwards, and the
    /// result the caller sees. `orig` is the resolved original transaction,
    /// meaningful only for disputes; a dispute whose original was not found
    /// is silently ignored.
    pub open spec fn apply_step(self, tx: Transaction, orig: Option<Transaction>) -> (
        AccountState,
        Result<(), Error>,
    ) {
        match tx.ty {
            TransactionType::Deposit => {
                if self.locked {
                    (self, Err(Error::AccountLocked))
                } else {
                    match tx.amount {
                        None => (self, Err(Error::AmountMissing)),
                        Some(a) => self.deposit_step(a as int),
                    }
                }
            },
            TransactionType::Withdrawal => {
                if self.locked {
                    (self, Err(Error::AccountLocked))
                } else {
                    match tx.amount {
                        None => (self, Err(Error::AmountMissing)),
                        Some(a) => self.withdraw_step(a as int),
                    }
                }
            },
            TransactionType::Dispute => {
                match orig {
                    None => (self, Ok(())),
                    Some(o) => self.dispute_filed(o),
                }
            },
            TransactionType::Resolve => self.resolve_step(tx.id),
            TransactionType::Chargeback => self.chargeback_step(tx.id),
        }
    }

    /// The account stores its total in an `i64` and its held sum in a
    /// `u64`. These bounds say that a deposit's outcome still fits; they
    /// are machine limits, not rules of the accounting.
    pub open spec fn deposit_fits(self, amount: int) -> bool {
        self.locked || self.total + amount <= i64::MAX
    }

    /// Machine bounds under which opening a dispute still fits the fixed
    /// width fields.
    pub open spec fn dispute_fits(self, id: u32, claim: Claim) -> bool {
        self.disputed.contains_key(id) || (self.held + claim.amount <= u64::MAX && (claim.withdrawal
            ==> self.total + claim.amount <= i64::MAX))
    }

    /// Machine bounds for a dispute whose original transaction was found.
    pub open spec fn dispute_filed_fits(self, orig: Transaction) -> bool {
        orig.disputable() && orig.amount is Some ==> self.dispute_fits(orig.id, Claim::of(orig))
    }

    /// Machine bounds under which settling a dispute in the holder's favor
    /// still fits the fixed width fields.
    pub open spec fn resolve_fits(self, id: u32) -> bool {
        self.disputed.contains_key(id) && self.disputed[id].withdrawal ==> self.total
            - self.disputed[id].amount >= i64::MIN
    }

    /// Machine bounds under which a chargeback still fits the fixed width
    /// fields.
    pub open spec fn chargeback_fits(self, id: u32) -> bool {
        self.disputed.contains_key(id) && !self.disputed[id].withdrawal ==> self.total
            - self.disputed[id].amount >= i64::MIN
    }

    /// Machine bounds for one call of the transition function.
    pub open spec fn apply_fits(self, tx: Transaction, orig: Option<Transaction>) -> bool {
        match tx.ty {
            TransactionType::Deposit => {
                match tx.amount {
                    None => true,
                    Some(a) => self.deposit_fits(a as int),
                }
            },
            TransactionType::Withdrawal => true,
            TransactionType::Dispute => {
                match orig {
                    None => true,
                    Some(o) => self.dispute_filed_fits(o),
                }
            },
            TransactionType::Resolve => self.resolve_fits(tx.id),
            TransactionType::Chargeback => self.chargeback_fits(tx.id),
        }
    }
}

} // verus!
