//! Movements of assets that happen together or not at all.
//!
//! Most operations of the pool move two amounts. [`settle`] carries both out,
//! or, where the second is refused, takes the first back, so that a refusal
//! leaves the ledger as it was.
use crate::table::Balance;
use crate::traits::{lemma_transfer_back, AccountId, Ledger, LedgerError, MultiErc20, TokenId};
use vstd::prelude::*;

verus! {

/// One amount of one asset on its way from one account to another.
#[derive(Clone, Copy, Debug, PartialEq, Eq, Structural)]
pub struct Movement {
    /// Whether the amount is taken within what `from` has granted to `to`, and
    /// counted against it.
    pub granted: bool,
    pub token: TokenId,
    pub from: AccountId,
    pub to: AccountId,
    pub amount: Balance,
}

impl Movement {
    /// A movement within what `from` has granted to `to`.
    pub fn pull(token: TokenId, from: AccountId, to: AccountId, amount: Balance) -> (movement: Self)
        ensures
            movement == (Movement { granted: true, token, from, to, amount }),
    {
        Movement { granted: true, token, from, to, amount }
    }

    /// A movement that asks for no grant.
    pub fn push(token: TokenId, from: AccountId, to: AccountId, amount: Balance) -> (movement: Self)
        ensures
            movement == (Movement { granted: false, token, from, to, amount }),
    {
        Movement { granted: false, token, from, to, amount }
    }

    /// What the movement makes of a ledger.
    pub open spec fn on(self, ledger: Ledger) -> Result<Ledger, LedgerError> {
        if self.granted {
            ledger.transfer_from(self.token, self.from, self.to, self.amount)
        } else {
            ledger.transfer_from_to(self.token, self.from, self.to, self.amount)
        }
    }
}

/// What two movements, one after the other, make of a ledger.
pub open spec fn settled(ledger: Ledger, first: Movement, second: Movement) -> Result<
    Ledger,
    LedgerError,
> {
    match first.on(ledger) {
        Ok(moved) => second.on(moved),
        Err(error) => Err(error),
    }
}

/// Carries out one movement.
fn carry_out<L: MultiErc20>(tokens: &mut L, movement: &Movement) -> (outcome: Result<
    (),
    LedgerError,
>)
    requires
        old(tokens).inv(),
    ensures
        final(tokens).inv(),
        match movement.on(old(tokens).ledger()) {
            Ok(moved) => outcome is Ok && final(tokens).ledger() == moved,
            Err(error) => outcome == Err::<(), LedgerError>(error) && final(tokens).ledger() == old(
                tokens,
            ).ledger(),
        },
{
    if movement.granted {
        tokens.transfer_from(&movement.token, &movement.from, &movement.to, movement.amount)
    } else {
        tokens.transfer_from_to(&movement.token, &movement.from, &movement.to, movement.amount)
    }
}

/// Undoes a movement that was just carried out on `before`.
fn take_back<L: MultiErc20>(tokens: &mut L, movement: &Movement, Ghost(before): Ghost<Ledger>)
    requires
        old(tokens).inv(),
        before.wf(),
        movement.on(before) == Ok::<Ledger, LedgerError>(old(tokens).ledger()),
    ensures
        final(tokens).inv(),
        final(tokens).ledger() == before,
{
    proof {
        lemma_movement_back(before, *movement);
    }
    let _ = tokens.transfer_from_to(&movement.token, &movement.to, &movement.from, movement.amount);
    if movement.granted {
        let _ = tokens.increase_allowance(
            &movement.token,
            &movement.from,
            &movement.to,
            movement.amount,
        );
    }
}

/// Carries out `first` and then `second`. Where either is refused, the ledger is
/// left as it was and the refusal is returned.
pub fn settle<L: MultiErc20>(tokens: &mut L, first: &Movement, second: &Movement) -> (outcome:
    Result<(), LedgerError>)
    requires
        old(tokens).inv(),
    ensures
        final(tokens).inv(),
        match settled(old(tokens).ledger(), *first, *second) {
            Ok(moved) => outcome is Ok && final(tokens).ledger() == moved,
            Err(error) => outcome == Err::<(), LedgerError>(error) && final(tokens).ledger() == old(
                tokens,
            ).ledger(),
        },
{
    proof {
        tokens.lemma_ledger_wf();
    }
    let ghost before = tokens.ledger();
    carry_out(tokens, first)?;
    match carry_out(tokens, second) {
        Ok(()) => Ok(()),
        Err(error) => {
            take_back(tokens, first, Ghost(before));
            Err(error)
        },
    }
}

/// Undoes two movements that [`settle`] just carried out on `before`.
pub(crate) fn unsettle<L: MultiErc20>(
    tokens: &mut L,
    first: &Movement,
    second: &Movement,
    Ghost(before): Ghost<Ledger>,
)
    requires
        old(tokens).inv(),
        before.wf(),
        settled(before, *first, *second) == Ok::<Ledger, LedgerError>(old(tokens).ledger()),
    ensures
        final(tokens).inv(),
        final(tokens).ledger() == before,
{
    take_back(tokens, second, Ghost(first.on(before)->Ok_0));
    take_back(tokens, first, Ghost(before));
}

/// A movement that went through can be undone: the amount goes back without
/// asking for a grant, and a grant that was used is restored.
pub proof fn lemma_movement_back(before: Ledger, movement: Movement)
    requires
        before.wf(),
        movement.on(before) is Ok,
    ensures
        ({
            let moved = movement.on(before)->Ok_0;
            let returned = moved.transfer_from_to(
                movement.token,
                movement.to,
                movement.from,
                movement.amount,
            );
            &&& returned is Ok
            &&& !movement.granted ==> returned->Ok_0 == before
            &&& movement.granted ==> returned->Ok_0.increase_allowance(
                movement.token,
                movement.from,
                movement.to,
                movement.amount,
            ) == Ok::<Ledger, LedgerError>(before)
        }),
{
    let token = movement.token;
    let from = movement.from;
    let to = movement.to;
    let amount = movement.amount;
    lemma_transfer_back(before, token, from, to, amount);
    if movement.granted {
        let paid = before.transfer_from_to(token, from, to, amount)->Ok_0;
        let moved = movement.on(before)->Ok_0;
        let returned = moved.transfer_from_to(token, to, from, amount)->Ok_0;
        assert(returned.balances =~= before.balances) by {
            let back = paid.transfer_from_to(token, to, from, amount)->Ok_0;
            assert(back.balances == before.balances);
            assert(moved.balances == paid.balances);
        }
        let restored = returned.increase_allowance(token, from, to, amount)->Ok_0;
        assert(restored.allowances =~= before.allowances);
    }
}

} // verus!
