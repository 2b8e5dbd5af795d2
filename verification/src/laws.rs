use crate::error::Error;
use crate::state::{AccountState, Claim};
use crate::transaction::Transaction;
use vstd::prelude::*;

verus! {

/// Conservation of funds: in every account state the total splits into
/// available and held funds, and it still does after any call of the
/// transition function. The asymmetric dispute rules exist to keep this
/// true.
pub proof fn lemma_conservation(s: AccountState, tx: Transaction, orig: Option<Transaction>)
    ensures
        s.total == s.available() + s.held,
        ({
            let t = s.apply_step(tx, orig).0;
            t.total == t.available() + t.held
        }),
{
}

/// While no dispute is open nothing is held, so the whole balance is
/// available; and deposits and withdrawals never touch the dispute table,
/// so any sequence of them keeps it that way.
pub proof fn lemma_no_disputes_all_available(s: AccountState, amount: int)
    requires
        s.held == 0,
    ensures
        s.available() == s.total,
        s.deposit_step(amount).0.held == 0,
        s.deposit_step(amount).0.disputed == s.disputed,
        s.withdraw_step(amount).0.held == 0,
        s.withdraw_step(amount).0.disputed == s.disputed,
{
}

/// A withdrawal is refused for insufficient balance exactly when the
/// amount exceeds the available funds, total minus held, at call time.
/// Held funds making the total look sufficient never lets one through,
/// and an unlocked withdrawal within the available funds always succeeds.
pub proof fn lemma_withdraw_insufficient_iff(s: AccountState, amount: int)
    ensures
        s.withdraw_step(amount).1 == Err::<(), Error>(Error::InsufficientBalance) <==> (!s.locked
            && amount > s.total - s.held),
        !s.locked && amount <= s.total - s.held ==> s.withdraw_step(amount).1 == Ok::<(), Error>(()),
{
}

/// Any deposit or withdrawal on a locked account is refused with the lock
/// error, and the account — total, held and open disputes — is left
/// exactly as it was.
pub proof fn lemma_locked_blocks(s: AccountState, tx: Transaction, orig: Option<Transaction>)
    requires
        s.locked,
        tx.ty is Deposit || tx.ty is Withdrawal,
    ensures
        s.apply_step(tx, orig).0 == s,
        s.apply_step(tx, orig).1 == Err::<(), Error>(Error::AccountLocked),
{
}

/// Disputing a deposit of some amount moves that amount from available to
/// held funds: held grows by it, total stays, available shrinks by it.
pub proof fn lemma_dispute_deposit(s: AccountState, id: u32, a: int)
    requires
        !s.disputed.contains_key(id),
    ensures
        ({
            let t = s.dispute_step(id, (Claim { withdrawal: false, amount: a })).0;
            &&& t.held == s.held + a
            &&& t.total == s.total
            &&& t.available() == s.available() - a
            &&& t.locked == s.locked
        }),
{
}

/// Resolving a disputed deposit releases the held amount again: the
/// account returns exactly to its state from before the dispute.
pub proof fn lemma_resolve_deposit_roundtrip(s: AccountState, id: u32, a: int)
    requires
        !s.disputed.contains_key(id),
    ensures
        ({
            let t = s.dispute_step(id, (Claim { withdrawal: false, amount: a })).0;
            t.resolve_step(id).0 == s
        }),
{
    let t = s.dispute_step(id, (Claim { withdrawal: false, amount: a })).0;
    assert(t.resolve_step(id).0.disputed =~= s.disputed);
    assert(t.resolve_step(id).0 =~= s);
}

/// Charging back a disputed deposit reverses the deposit: the amount
/// leaves the account, nothing of it is held any more, available funds
/// are as before the dispute, and the account is locked.
pub proof fn lemma_chargeback_deposit(s: AccountState, id: u32, a: int)
    requires
        !s.disputed.contains_key(id),
    ensures
        ({
            let t = s.dispute_step(id, (Claim { withdrawal: false, amount: a })).0;
            let u = t.chargeback_step(id).0;
            &&& u.held == s.held
            &&& u.total == s.total - a
            &&& u.locked
            &&& u.disputed =~= s.disputed
        }),
{
}

/// Disputing a withdrawal of some amount provisionally credits it back:
/// total and held grow by the amount together, so the available funds do
/// not move.
pub proof fn lemma_dispute_withdrawal(s: AccountState, id: u32, a: int)
    requires
        !s.disputed.contains_key(id),
    ensures
        ({
            let t = s.dispute_step(id, (Claim { withdrawal: true, amount: a })).0;
            &&& t.total == s.total + a
            &&& t.held == s.held + a
            &&& t.available() == s.available()
            &&& t.locked == s.locked
        }),
{
}

/// Resolving a disputed withdrawal takes the provisional credit away
/// again: the withdrawal stands, and the account returns exactly to its
/// state from before the dispute.
pub proof fn lemma_resolve_withdrawal_roundtrip(s: AccountState, id: u32, a: int)
    requires
        !s.disputed.contains_key(id),
    ensures
        ({
            let t = s.dispute_step(id, (Claim { withdrawal: true, amount: a })).0;
            t.resolve_step(id).0 == s
        }),
{
    let t = s.dispute_step(id, (Claim { withdrawal: true, amount: a })).0;
    assert(t.resolve_step(id).0.disputed =~= s.disputed);
    assert(t.resolve_step(id).0 =~= s);
}

/// Charging back a disputed withdrawal reverses the withdrawal: the
/// provisional credit stands, so total ends up higher by the amount than
/// before the dispute, nothing of it is held, and the account is locked.
pub proof fn lemma_chargeback_withdrawal(s: AccountState, id: u32, a: int)
    requires
        !s.disputed.contains_key(id),
    ensures
        ({
            let t = s.dispute_step(id, (Claim { withdrawal: true, amount: a })).0;
            let u = t.chargeback_step(id).0;
            &&& u.total == s.total + a
            &&& u.held == s.held
            &&& u.available() == s.available() + a
            &&& u.locked
            &&& u.disputed =~= s.disputed
        }),
{
}

/// Settling a transaction id that is not under dispute — resolving or
/// charging it back — is a silent no-op: success is reported and the
/// account is untouched. In particular a chargeback on such an id locks
/// nothing.
pub proof fn lemma_settle_unknown_noop(s: AccountState, id: u32)
    requires
        !s.disputed.contains_key(id),
    ensures
        s.resolve_step(id).0 == s,
        s.resolve_step(id).1 == Ok::<(), Error>(()),
        s.chargeback_step(id).0 == s,
        s.chargeback_step(id).1 == Ok::<(), Error>(()),
{
}

/// A dispute that cannot be tied to an eligible original is a silent
/// no-op: when the original was not found, when the referenced record is
/// not a deposit or withdrawal, and when the id is already under dispute,
/// success is reported and the account is untouched.
pub proof fn lemma_dispute_reference_noop(
    s: AccountState,
    tx: Transaction,
    orig: Transaction,
    id: u32,
    claim: Claim,
)
    requires
        tx.ty is Dispute,
        !orig.disputable(),
        s.disputed.contains_key(id),
    ensures
        s.apply_step(tx, None).0 == s,
        s.apply_step(tx, None).1 == Ok::<(), Error>(()),
        s.dispute_filed(orig).0 == s,
        s.dispute_filed(orig).1 == Ok::<(), Error>(()),
        s.dispute_step(id, claim).0 == s,
        s.dispute_step(id, claim).1 == Ok::<(), Error>(()),
{
}

} // verus!
