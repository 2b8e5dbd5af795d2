use crate::error::Error;
use crate::state::{AccountState, Claim};
use crate::transaction::{Transaction, TransactionType};
use vstd::prelude::*;

verus! {

/// One row of the disputed-transaction table: the disputed transaction's
/// id (the key), whether that transaction was a withdrawal, and its amount.
#[derive(Clone, Copy, Debug, PartialEq, Eq, Structural)]
pub struct DisputedTx {
    pub id: u32,
    pub withdrawal: bool,
    pub amount: u64,
}

impl DisputedTx {
    /// The claim this row keeps on record.
    pub open spec fn claim(self) -> Claim {
        Claim { withdrawal: self.withdrawal, amount: self.amount as int }
    }
}

/// The funds held by a table of open disputes: the sum of the amounts.
pub open spec fn held_of(rows: Seq<DisputedTx>) -> int
    decreases rows.len(),
{
    if rows.len() == 0 {
        0
    } else {
        held_of(rows.drop_last()) + rows.last().amount
    }
}

/// The table of open disputes read as a map from id to claim.
pub open spec fn claims_of(rows: Seq<DisputedTx>) -> Map<u32, Claim>
    decreases rows.len(),
{
    if rows.len() == 0 {
        Map::empty()
    } else {
        claims_of(rows.drop_last()).insert(rows.last().id, rows.last().claim())
    }
}

/// No two rows of the table dispute the same transaction.
pub open spec fn unique_ids(rows: Seq<DisputedTx>) -> bool {
    forall|i: int, j: int| 0 <= i < j < rows.len() ==> rows[i].id != rows[j].id
}

proof fn lemma_held_nonneg(rows: Seq<DisputedTx>)
    ensures
        held_of(rows) >= 0,
    decreases rows.len(),
{
    if rows.len() > 0 {
        lemma_held_nonneg(rows.drop_last());
    }
}

proof fn lemma_held_take_succ(rows: Seq<DisputedTx>, i: int)
    requires
        0 <= i < rows.len(),
    ensures
        held_of(rows.take(i + 1)) == held_of(rows.take(i)) + rows[i].amount,
{
    assert(rows.take(i + 1).drop_last() =~= rows.take(i));
    assert(rows.take(i + 1).last() == rows[i]);
}

proof fn lemma_held_take_le(rows: Seq<DisputedTx>, i: int)
    requires
        0 <= i <= rows.len(),
    ensures
        held_of(rows.take(i)) <= held_of(rows),
    decreases rows.len() - i,
{
    if i == rows.len() {
        assert(rows.take(i) =~= rows);
    } else {
        lemma_held_take_succ(rows, i);
        lemma_held_take_le(rows, i + 1);
    }
}

proof fn lemma_held_push(rows: Seq<DisputedTx>, row: DisputedTx)
    ensures
        held_of(rows.push(row)) == held_of(rows) + row.amount,
{
    assert(rows.push(row).drop_last() =~= rows);
    assert(rows.push(row).last() == row);
}

proof fn lemma_claims_push(rows: Seq<DisputedTx>, row: DisputedTx)
    ensures
        claims_of(rows.push(row)) == claims_of(rows).insert(row.id, row.claim()),
{
    assert(rows.push(row).drop_last() =~= rows);
    assert(rows.push(row).last() == row);
}

proof fn lemma_unique_push(rows: Seq<DisputedTx>, row: DisputedTx)
    requires
        unique_ids(rows),
        forall|k: int| 0 <= k < rows.len() ==> rows[k].id != row.id,
    ensures
        unique_ids(rows.push(row)),
{
    let pushed = rows.push(row);
    assert forall|i: int, j: int| 0 <= i < j < pushed.len() implies pushed[i].id != pushed[j].id by {
        if j < rows.len() {
            assert(pushed[i] == rows[i]);
            assert(pushed[j] == rows[j]);
        } else {
            assert(pushed[i] == rows[i]);
            assert(pushed[j] == row);
        }
    }
}

proof fn lemma_unique_drop_last(rows: Seq<DisputedTx>)
    requires
        unique_ids(rows),
        rows.len() > 0,
    ensures
        unique_ids(rows.drop_last()),
{
    let rest = rows.drop_last();
    assert forall|i: int, j: int| 0 <= i < j < rest.len() implies rest[i].id != rest[j].id by {
        assert(rest[i] == rows[i]);
        assert(rest[j] == rows[j]);
    }
}

proof fn lemma_unique_remove(rows: Seq<DisputedTx>, i: int)
    requires
        unique_ids(rows),
        0 <= i < rows.len(),
    ensures
        unique_ids(rows.remove(i)),
{
    rows.remove_ensures(i);
    let shorter = rows.remove(i);
    assert forall|j: int, k: int| 0 <= j < k < shorter.len() implies shorter[j].id != shorter[k].id by {
        if j < i {
            assert(shorter[j] == rows[j]);
        } else {
            assert(shorter[j] == rows[j + 1]);
        }
        if k < i {
            assert(shorter[k] == rows[k]);
        } else {
            assert(shorter[k] == rows[k + 1]);
        }
    }
}

proof fn lemma_held_remove(rows: Seq<DisputedTx>, i: int)
    requires
        0 <= i < rows.len(),
    ensures
        held_of(rows.remove(i)) == held_of(rows) - rows[i].amount,
    decreases rows.len(),
{
    if i == rows.len() - 1 {
        assert(rows.remove(i) =~= rows.drop_last());
    } else {
        let rest = rows.drop_last();
        lemma_held_remove(rest, i);
        assert(rows.remove(i).drop_last() =~= rest.remove(i));
        assert(rows.remove(i).last() == rows.last());
        assert(rest[i] == rows[i]);
    }
}

proof fn lemma_claims_absent(rows: Seq<DisputedTx>, id: u32)
    requires
        forall|k: int| 0 <= k < rows.len() ==> rows[k].id != id,
    ensures
        !claims_of(rows).contains_key(id),
    decreases rows.len(),
{
    if rows.len() > 0 {
        let rest = rows.drop_last();
        assert forall|k: int| 0 <= k < rest.len() implies rest[k].id != id by {
            assert(rest[k] == rows[k]);
        }
        lemma_claims_absent(rest, id);
        assert(rows.last() == rows[rows.len() - 1]);
    }
}

proof fn lemma_claims_found(rows: Seq<DisputedTx>, i: int)
    requires
        unique_ids(rows),
        0 <= i < rows.len(),
    ensures
        claims_of(rows).contains_key(rows[i].id),
        claims_of(rows)[rows[i].id] == rows[i].claim(),
    decreases rows.len(),
{
    if i == rows.len() - 1 {
        assert(rows.last() == rows[i]);
    } else {
        let rest = rows.drop_last();
        lemma_unique_drop_last(rows);
        assert(rest[i] == rows[i]);
        lemma_claims_found(rest, i);
        assert(rows.last() == rows[rows.len() - 1]);
        assert(rows[i].id != rows[rows.len() - 1].id);
    }
}

proof fn lemma_claims_remove(rows: Seq<DisputedTx>, i: int)
    requires
        unique_ids(rows),
        0 <= i < rows.len(),
    ensures
        claims_of(rows.remove(i)) == claims_of(rows).remove(rows[i].id),
    decreases rows.len(),
{
    let last = rows.last();
    if i == rows.len() - 1 {
        let rest = rows.drop_last();
        assert(rows.remove(i) =~= rest);
        assert forall|k: int| 0 <= k < rest.len() implies rest[k].id != last.id by {
            assert(rest[k] == rows[k]);
            assert(rows[k].id != rows[rows.len() - 1].id);
        }
        lemma_claims_absent(rest, last.id);
        assert(claims_of(rest) =~= claims_of(rest).insert(last.id, last.claim()).remove(last.id));
    } else {
        let rest = rows.drop_last();
        lemma_unique_drop_last(rows);
        lemma_claims_remove(rest, i);
        assert(rows.remove(i).drop_last() =~= rest.remove(i));
        assert(rows.remove(i).last() == last);
        assert(rest[i] == rows[i]);
        assert(rows[i].id != rows[rows.len() - 1].id);
        assert(claims_of(rest).remove(rows[i].id).insert(last.id, last.claim()) =~= claims_of(
            rest,
        ).insert(last.id, last.claim()).remove(rows[i].id));
    }
}

/// The state of one client's account. Available and held funds are never
/// stored: both derive from the table of open disputes, so there is a
/// single source of truth. Amounts are fixed-point values in minor units,
/// as in [`Transaction`].
#[derive(Debug, PartialEq)]
pub struct Client {
    /// All funds in the account, available and held together. It can go
    /// negative, but only through dispute accounting, never through a
    /// withdrawal.
    pub total: i64,
    /// Once set by a chargeback, deposits and withdrawals are refused
    /// until `unlock` clears it.
    pub locked: bool,
    /// The table of open disputes, keyed by the disputed transaction's id.
    pub disputed_tx: Vec<DisputedTx>,
}

impl View for Client {
    type V = AccountState;

    open spec fn view(&self) -> AccountState {
        AccountState {
            total: self.total as int,
            held: held_of(self.disputed_tx@),
            locked: self.locked,
            disputed: claims_of(self.disputed_tx@),
        }
    }
}

impl Client {
    /// The account's representation invariant: no transaction is disputed
    /// twice, and the held sum fits the width of its getter.
    pub open spec fn wf(self) -> bool {
        &&& unique_ids(self.disputed_tx@)
        &&& held_of(self.disputed_tx@) <= u64::MAX
    }

    /// The row, if any, that disputes the given transaction id.
    fn find_disputed(&self, tx_id: u32) -> (r: Option<usize>)
        ensures
            match r {
                Some(i) => i < self.disputed_tx@.len() && self.disputed_tx@[i as int].id == tx_id,
                None => forall|k: int|
                    0 <= k < self.disputed_tx@.len() ==> self.disputed_tx@[k].id != tx_id,
            },
    {
        let mut i: usize = 0;
        while i < self.disputed_tx.len()
            invariant
                i <= self.disputed_tx.len(),
                forall|k: int| 0 <= k < i ==> self.disputed_tx@[k].id != tx_id,
            decreases self.disputed_tx.len() - i,
        {
            if self.disputed_tx[i].id == tx_id {
                return Some(i);
            }
            i = i + 1;
        }
        None
    }

    /// The amount of funds held by open disputes. Subtracting it from the
    /// total gives the available funds.
    pub fn get_held(&self) -> (r: u64)
        requires
            self.wf(),
        ensures
            r == self@.held,
    {
        let mut acc: u64 = 0;
        let mut i: usize = 0;
        while i < self.disputed_tx.len()
            invariant
                self.wf(),
                i <= self.disputed_tx.len(),
                acc == held_of(self.disputed_tx@.take(i as int)),
            decreases self.disputed_tx.len() - i,
        {
            proof {
                lemma_held_take_succ(self.disputed_tx@, i as int);
                lemma_held_take_le(self.disputed_tx@, i as int + 1);
                lemma_held_nonneg(self.disputed_tx@.take(i as int));
            }
            acc = acc + self.disputed_tx[i].amount;
            i = i + 1;
        }
        proof {
            assert(self.disputed_tx@.take(self.disputed_tx@.len() as int) =~= self.disputed_tx@);
        }
        acc
    }

    /// The funds the client may withdraw: total minus held. Wide enough
    /// that it exists for every representable account.
    pub fn available(&self) -> (r: i128)
        requires
            self.wf(),
        ensures
            r == self@.available(),
    {
        let held = self.get_held();
        (self.total as i128) - (held as i128)
    }

    /// Clears the lock flag; funds and open disputes are untouched.
    pub fn unlock(&mut self)
        requires
            old(self).wf(),
        ensures
            final(self).wf(),
            final(self)@ == old(self)@.unlock_step(),
    {
        self.locked = false;
    }

    /// Adds funds to the account, unless it is locked.
    pub fn deposit(&mut self, amount: u64) -> (r: Result<(), Error>)
        requires
            old(self).wf(),
            old(self)@.deposit_fits(amount as int),
        ensures
            final(self).wf(),
            final(self)@ == old(self)@.deposit_step(amount as int).0,
            r == old(self)@.deposit_step(amount as int).1,
    {
        if self.locked {
            return Err(Error::AccountLocked);
        }
        let new_total: i128 = (self.total as i128) + (amount as i128);
        self.total = new_total as i64;
        Ok(())
    }

    /// Takes funds out of the account: refused while locked, and refused
    /// whenever the amount exceeds the available funds, so that a
    /// withdrawal can never drive the available funds negative.
    pub fn withdraw(&mut self, amount: u64) -> (r: Result<(), Error>)
        requires
            old(self).wf(),
        ensures
            final(self).wf(),
            final(self)@ == old(self)@.withdraw_step(amount as int).0,
            r == old(self)@.withdraw_step(amount as int).1,
    {
        if self.locked {
            return Err(Error::AccountLocked);
        }
        let held = self.get_held();
        let avail: i128 = (self.total as i128) - (held as i128);
        if (amount as i128) > avail {
            return Err(Error::InsufficientBalance);
        }
        let new_total: i128 = (self.total as i128) - (amount as i128);
        self.total = new_total as i64;
        Ok(())
    }

    /// Opens a dispute against the given original transaction. A record
    /// that is not a deposit or withdrawal, and an id that is already
    /// under dispute, are silently ignored. For a disputed withdrawal the
    /// client is provisionally credited back, so the available funds stay
    /// as they were; for a disputed deposit the amount moves from
    /// available to held.
    pub fn dispute(&mut self, tx: Transaction) -> (r: Result<(), Error>)
        requires
            old(self).wf(),
            old(self)@.dispute_filed_fits(tx),
        ensures
            final(self).wf(),
            final(self)@ == old(self)@.dispute_filed(tx).0,
            r == old(self)@.dispute_filed(tx).1,
    {
        let withdrawal = match tx.ty {
            TransactionType::Withdrawal => true,
            TransactionType::Deposit => false,
            _ => {
                return Ok(());
            },
        };
        let amount = match tx.amount {
            Some(a) => a,
            None => {
                return Err(Error::AmountMissing);
            },
        };
        match self.find_disputed(tx.id) {
            Some(i) => {
                proof {
                    lemma_claims_found(self.disputed_tx@, i as int);
                }
                Ok(())
            },
            None => {
                proof {
                    lemma_claims_absent(self.disputed_tx@, tx.id);
                    lemma_held_nonneg(self.disputed_tx@);
                }
                if withdrawal {
                    let new_total: i128 = (self.total as i128) + (amount as i128);
                    self.total = new_total as i64;
                }
                let row = DisputedTx { id: tx.id, withdrawal, amount };
                self.disputed_tx.push(row);
                proof {
                    lemma_held_push(old(self).disputed_tx@, row);
                    lemma_claims_push(old(self).disputed_tx@, row);
                    lemma_unique_push(old(self).disputed_tx@, row);
                }
                Ok(())
            },
        }
    }

    /// Settles a dispute in the account holder's favor: the original
    /// transaction stands and its row leaves the table. An id that is not
    /// under dispute is a no-op, not an error.
    pub fn resolve(&mut self, tx_id: u32) -> (r: Result<(), Error>)
        requires
            old(self).wf(),
            old(self)@.resolve_fits(tx_id),
        ensures
            final(self).wf(),
            final(self)@ == old(self)@.resolve_step(tx_id).0,
            r == old(self)@.resolve_step(tx_id).1,
    {
        match self.find_disputed(tx_id) {
            None => {
                proof {
                    lemma_claims_absent(self.disputed_tx@, tx_id);
                }
                Ok(())
            },
            Some(i) => {
                proof {
                    lemma_claims_found(self.disputed_tx@, i as int);
                    lemma_held_nonneg(self.disputed_tx@);
                }
                let row = self.disputed_tx[i];
                if row.withdrawal {
                    let new_total: i128 = (self.total as i128) - (row.amount as i128);
                    self.total = new_total as i64;
                }
                self.disputed_tx.remove(i);
                proof {
                    lemma_held_remove(old(self).disputed_tx@, i as int);
                    lemma_claims_remove(old(self).disputed_tx@, i as int);
                    lemma_unique_remove(old(self).disputed_tx@, i as int);
                }
                Ok(())
            },
        }
    }

    /// Settles a dispute against the account holder: the original
    /// transaction is reversed, its row leaves the table, and the account
    /// is locked. An id that is not under dispute is a no-op, and then
    /// nothing is locked.
    pub fn chargeback(&mut self, tx_id: u32) -> (r: Result<(), Error>)
        requires
            old(self).wf(),
            old(self)@.chargeback_fits(tx_id),
        ensures
            final(self).wf(),
            final(self)@ == old(self)@.chargeback_step(tx_id).0,
            r == old(self)@.chargeback_step(tx_id).1,
    {
        match self.find_disputed(tx_id) {
            None => {
                proof {
                    lemma_claims_absent(self.disputed_tx@, tx_id);
                }
                Ok(())
            },
            Some(i) => {
                proof {
                    lemma_claims_found(self.disputed_tx@, i as int);
                    lemma_held_nonneg(self.disputed_tx@);
                }
                let row = self.disputed_tx[i];
                if !row.withdrawal {
                    let new_total: i128 = (self.total as i128) - (row.amount as i128);
                    self.total = new_total as i64;
                }
                self.disputed_tx.remove(i);
                self.locked = true;
                proof {
                    lemma_held_remove(old(self).disputed_tx@, i as int);
                    lemma_claims_remove(old(self).disputed_tx@, i as int);
                    lemma_unique_remove(old(self).disputed_tx@, i as int);
                }
                Ok(())
            },
        }
    }

    /// Processes one transaction for this client. `disputed_tx` carries
    /// the original transaction a dispute refers to, as located by the
    /// caller; it is meaningful only for disputes and ignored otherwise. A
    /// dispute whose original was not found, referred to a record that is
    /// not a deposit or withdrawal, or named an id already under dispute,
    /// is silently ignored. Each failure leaves the account exactly as it
    /// was.
    pub fn process_tx(&mut self, tx: Transaction, disputed_tx: Option<Transaction>) -> (r: Result<
        (),
        Error,
    >)
        requires
            old(self).wf(),
            old(self)@.apply_fits(tx, disputed_tx),
        ensures
            final(self).wf(),
            final(self)@ == old(self)@.apply_step(tx, disputed_tx).0,
            r == old(self)@.apply_step(tx, disputed_tx).1,
    {
        match tx.ty {
            TransactionType::Deposit => {
                if self.locked {
                    return Err(Error::AccountLocked);
                }
                match tx.amount {
                    None => Err(Error::AmountMissing),
                    Some(a) => self.deposit(a),
                }
            },
            TransactionType::Withdrawal => {
                if self.locked {
                    return Err(Error::AccountLocked);
                }
                match tx.amount {
                    None => Err(Error::AmountMissing),
                    Some(a) => self.withdraw(a),
                }
            },
            TransactionType::Dispute => {
                match disputed_tx {
                    None => Ok(()),
                    Some(orig) => self.dispute(orig),
                }
            },
            TransactionType::Resolve => self.resolve(tx.id),
            TransactionType::Chargeback => self.chargeback(tx.id),
        }
    }
}

impl Default for Client {
    /// A fresh account: no funds, not locked, nothing under dispute.
    fn default() -> (c: Client)
        ensures
            c.wf(),
            c@ == AccountState::init(),
    {
        let c = Client { total: 0, locked: false, disputed_tx: Vec::new() };
        proof {
            assert(c@ =~= AccountState::init());
        }
        c
    }
}

} // verus!
