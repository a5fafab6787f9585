//! The interface between the pool and the token ledger it settles on.
//!
//! [`Ledger`] says, as mathematics, what a multi-token ledger holds and what each
//! operation does to it. [`MultiErc20`] is the executable interface; every
//! implementation is held to that model, so that code written against the
//! interface knows exactly which calls succeed and what they change.
use crate::table::{Balance, Key};
use vstd::prelude::*;

verus! {

/// Identifies an account.
pub type AccountId = u64;

/// Identifies an asset.
pub type TokenId = u32;

/// Why the ledger refused an operation.
#[derive(Clone, Copy, Debug, PartialEq, Eq, Structural)]
pub enum LedgerError {
    /// The asset was never initialized.
    Uninitialized,
    /// The paying account holds less than the amount.
    InsufficientFunds,
    /// The owner has granted the spender less than the amount.
    InsufficientAllowance,
    /// A balance or an allowance would exceed what a [`Balance`] can hold.
    Overflow,
    /// The asset is initialized already.
    AlreadyInitialized,
    /// Payer and payee are the same account.
    SelfTransfer,
    /// The amount to move is zero.
    ZeroTransfer,
    /// The initial supply is zero.
    WrongInitialization,
}

/// One account's holding of one asset.
#[derive(Clone, Copy, Debug, PartialEq, Eq, Structural)]
pub struct Holding {
    pub token: TokenId,
    pub account: AccountId,
}

impl Key for Holding {
    fn same(&self, other: &Self) -> (same: bool) {
        self.token == other.token && self.account == other.account
    }
}

/// What one account lets another take of one asset.
#[derive(Clone, Copy, Debug, PartialEq, Eq, Structural)]
pub struct Grant {
    pub token: TokenId,
    pub owner: AccountId,
    pub spender: AccountId,
}

impl Key for Grant {
    fn same(&self, other: &Self) -> (same: bool) {
        self.token == other.token && self.owner == other.owner && self.spender == other.spender
    }
}

/// What a ledger holds. Every map is total; an asset with a supply of zero is
/// not initialized.
pub struct Ledger {
    pub supply: Map<TokenId, Balance>,
    pub balances: Map<Holding, Balance>,
    pub allowances: Map<Grant, Balance>,
    /// The decimal places that each asset counts. No operation of the
    /// interface reads or changes them.
    pub decimals: Map<TokenId, u32>,
}

impl Ledger {
    /// Every asset, holding and grant has an entry.
    pub open spec fn wf(self) -> bool {
        &&& forall|token: TokenId| self.supply.dom().contains(token)
        &&& forall|holding: Holding| self.balances.dom().contains(holding)
        &&& forall|grant: Grant| self.allowances.dom().contains(grant)
        &&& forall|token: TokenId| self.decimals.dom().contains(token)
    }

    /// The ledger on which nothing has happened yet.
    pub open spec fn empty() -> Ledger {
        Ledger {
            supply: Map::total(|token: TokenId| 0u128),
            balances: Map::total(|holding: Holding| 0u128),
            allowances: Map::total(|grant: Grant| 0u128),
            decimals: Map::total(|token: TokenId| 0u32),
        }
    }

    /// Whether `token` was brought into being.
    pub open spec fn is_initialized(self, token: TokenId) -> bool {
        self.supply[token] != 0
    }

    /// What `account` holds of `token`.
    pub open spec fn balance(self, token: TokenId, account: AccountId) -> Balance {
        self.balances[Holding { token, account }]
    }

    /// What `owner` lets `spender` take of `token`.
    pub open spec fn granted(
        self,
        token: TokenId,
        owner: AccountId,
        spender: AccountId,
    ) -> Balance {
        self.allowances[Grant { token, owner, spender }]
    }

    /// The ledger on which `account` holds `balance` of `token`.
    pub open spec fn with_balance(
        self,
        token: TokenId,
        account: AccountId,
        balance: Balance,
    ) -> Ledger {
        Ledger { balances: self.balances.insert(Holding { token, account }, balance), ..self }
    }

    /// The ledger on which `owner` lets `spender` take `allowance` of `token`.
    pub open spec fn with_granted(
        self,
        token: TokenId,
        owner: AccountId,
        spender: AccountId,
        allowance: Balance,
    ) -> Ledger {
        Ledger {
            allowances: self.allowances.insert(Grant { token, owner, spender }, allowance),
            ..self
        }
    }

    /// Brings `token` into being, all of its supply held by `who`.
    pub open spec fn init(self, who: AccountId, token: TokenId, initial_supply: Balance) -> Result<
        Ledger,
        LedgerError,
    > {
        if self.is_initialized(token) {
            Err(LedgerError::AlreadyInitialized)
        } else if initial_supply == 0 {
            Err(LedgerError::WrongInitialization)
        } else {
            Ok(
                Ledger {
                    supply: self.supply.insert(token, initial_supply),
                    ..self.with_balance(token, who, initial_supply)
                },
            )
        }
    }

    /// The supply of `token`, if it is initialized.
    pub open spec fn total_supply(self, token: TokenId) -> Result<Balance, LedgerError> {
        if self.is_initialized(token) {
            Ok(self.supply[token])
        } else {
            Err(LedgerError::Uninitialized)
        }
    }

    /// What `account` holds of `token`, if `token` is initialized.
    pub open spec fn balance_of(self, token: TokenId, account: AccountId) -> Result<
        Balance,
        LedgerError,
    > {
        if self.is_initialized(token) {
            Ok(self.balance(token, account))
        } else {
            Err(LedgerError::Uninitialized)
        }
    }

    /// What `owner` lets `spender` take of `token`, if `token` is initialized.
    pub open spec fn allowance(
        self,
        token: TokenId,
        owner: AccountId,
        spender: AccountId,
    ) -> Result<Balance, LedgerError> {
        if self.is_initialized(token) {
            Ok(self.granted(token, owner, spender))
        } else {
            Err(LedgerError::Uninitialized)
        }
    }

    /// Moves `amount` of `token` from `from` to `to`, whatever was granted.
    pub open spec fn transfer_from_to(
        self,
        token: TokenId,
        from: AccountId,
        to: AccountId,
        amount: Balance,
    ) -> Result<Ledger, LedgerError> {
        if !self.is_initialized(token) {
            Err(LedgerError::Uninitialized)
        } else if amount == 0 {
            Err(LedgerError::ZeroTransfer)
        } else if from == to {
            Err(LedgerError::SelfTransfer)
        } else if self.balance(token, from) < amount {
            Err(LedgerError::InsufficientFunds)
        } else if self.balance(token, to) + amount > Balance::MAX {
            Err(LedgerError::Overflow)
        } else {
            Ok(
                self.with_balance(
                    token,
                    from,
                    (self.balance(token, from) - amount) as Balance,
                ).with_balance(token, to, (self.balance(token, to) + amount) as Balance),
            )
        }
    }

    /// Lets `spender` take `amount` more of what `owner` holds of `token`.
    pub open spec fn increase_allowance(
        self,
        token: TokenId,
        owner: AccountId,
        spender: AccountId,
        amount: Balance,
    ) -> Result<Ledger, LedgerError> {
        if !self.is_initialized(token) {
            Err(LedgerError::Uninitialized)
        } else if self.granted(token, owner, spender) + amount > Balance::MAX {
            Err(LedgerError::Overflow)
        } else {
            Ok(
                self.with_granted(
                    token,
                    owner,
                    spender,
                    (self.granted(token, owner, spender) + amount) as Balance,
                ),
            )
        }
    }

    /// Lets `spender` take `amount` less of what `owner` holds of `token`.
    pub open spec fn decrease_allowance(
        self,
        token: TokenId,
        owner: AccountId,
        spender: AccountId,
        amount: Balance,
    ) -> Result<Ledger, LedgerError> {
        if !self.is_initialized(token) {
            Err(LedgerError::Uninitialized)
        } else if self.granted(token, owner, spender) < amount {
            Err(LedgerError::InsufficientAllowance)
        } else {
            Ok(
                self.with_granted(
                    token,
                    owner,
                    spender,
                    (self.granted(token, owner, spender) - amount) as Balance,
                ),
            )
        }
    }

    /// Moves `amount` of `token` from `owner` to `to`.
    pub open spec fn transfer(
        self,
        token: TokenId,
        owner: AccountId,
        to: AccountId,
        amount: Balance,
    ) -> Result<Ledger, LedgerError> {
        self.transfer_from_to(token, owner, to, amount)
    }

    /// Moves `amount` of `token` from `owner` to `spender` and takes it off what
    /// `owner` has granted to `spender`.
    pub open spec fn transfer_from(
        self,
        token: TokenId,
        owner: AccountId,
        spender: AccountId,
        amount: Balance,
    ) -> Result<Ledger, LedgerError> {
        match self.transfer_from_to(token, owner, spender, amount) {
            Ok(moved) => moved.decrease_allowance(token, owner, spender, amount),
            Err(error) => Err(error),
        }
    }

    /// Lets `spender` take `amount` more of what `owner` holds of `token`.
    pub open spec fn approve(
        self,
        token: TokenId,
        owner: AccountId,
        spender: AccountId,
        amount: Balance,
    ) -> Result<Ledger, LedgerError> {
        self.increase_allowance(token, owner, spender, amount)
    }
}

/// Whether an operation that the model resolves to `step` may return `outcome`
/// and leave `after` behind on a ledger that was `before`: on success the ledger
/// is the one of the model, on failure the error is the model's and nothing has
/// changed.
pub open spec fn follows(
    step: Result<Ledger, LedgerError>,
    before: Ledger,
    outcome: Result<(), LedgerError>,
    after: Ledger,
) -> bool {
    match step {
        Ok(next) => outcome is Ok && after == next,
        Err(error) => outcome == Err::<(), LedgerError>(error) && after == before,
    }
}

/// A ledger of several assets, each with balances and allowances per account.
pub trait MultiErc20 {
    /// What the ledger holds.
    spec fn ledger(&self) -> Ledger;

    /// What the implementation keeps true of its own state.
    spec fn inv(&self) -> bool;

    /// The model of a valid ledger is well-formed.
    proof fn lemma_ledger_wf(&self)
        requires
            self.inv(),
        ensures
            self.ledger().wf(),
    ;

    /// Brings `token_id` into being, see [`Ledger::init`].
    fn init(&mut self, who: &AccountId, token_id: &TokenId, initial_supply: Balance) -> (outcome:
        Result<(), LedgerError>)
        requires
            old(self).inv(),
        ensures
            final(self).inv(),
            follows(
                old(self).ledger().init(*who, *token_id, initial_supply),
                old(self).ledger(),
                outcome,
                final(self).ledger(),
            ),
    ;

    /// The supply of `token_id`, see [`Ledger::total_supply`].
    fn total_supply(&self, token_id: TokenId) -> (supply: Result<Balance, LedgerError>)
        requires
            self.inv(),
        ensures
            supply == self.ledger().total_supply(token_id),
    ;

    /// What `account` holds of `token_id`, see [`Ledger::balance_of`].
    fn balance_of(&self, token_id: TokenId, account: &AccountId) -> (balance: Result<
        Balance,
        LedgerError,
    >)
        requires
            self.inv(),
        ensures
            balance == self.ledger().balance_of(token_id, *account),
    ;

    /// What `owner` lets `spender` take of `token_id`, see [`Ledger::allowance`].
    fn allowance(&self, token_id: TokenId, owner: AccountId, spender: AccountId) -> (allowance:
        Result<Balance, LedgerError>)
        requires
            self.inv(),
        ensures
            allowance == self.ledger().allowance(token_id, owner, spender),
    ;

    /// Moves `amount` from `owner` to `to`, see [`Ledger::transfer`].
    fn transfer(
        &mut self,
        token_id: &TokenId,
        owner: &AccountId,
        to: &AccountId,
        amount: Balance,
    ) -> (outcome: Result<(), LedgerError>)
        requires
            old(self).inv(),
        ensures
            final(self).inv(),
            follows(
                old(self).ledger().transfer(*token_id, *owner, *to, amount),
                old(self).ledger(),
                outcome,
                final(self).ledger(),
            ),
    {
        self.transfer_from_to(token_id, owner, to, amount)
    }

    /// Moves `amount` from `owner` to `spender` within what `owner` has granted,
    /// see [`Ledger::transfer_from`]. If the allowance falls short after the
    /// amount has moved, the amount is moved back before the error is returned.
    fn transfer_from(
        &mut self,
        token_id: &TokenId,
        owner: &AccountId,
        spender: &AccountId,
        amount: Balance,
    ) -> (outcome: Result<(), LedgerError>)
        requires
            old(self).inv(),
        ensures
            final(self).inv(),
            follows(
                old(self).ledger().transfer_from(*token_id, *owner, *spender, amount),
                old(self).ledger(),
                outcome,
                final(self).ledger(),
            ),
    {
        proof {
            self.lemma_ledger_wf();
        }
        let ghost before = self.ledger();
        match self.transfer_from_to(token_id, owner, spender, amount) {
            Err(error) => Err(error),
            Ok(()) => match self.decrease_allowance(token_id, owner, spender, amount) {
                Ok(()) => Ok(()),
                Err(error) => {
                    let _ = self.transfer_from_to(token_id, spender, owner, amount);
                    proof {
                        lemma_transfer_back(before, *token_id, *owner, *spender, amount);
                    }
                    Err(error)
                },
            },
        }
    }

    /// Adds `amount` to what `owner` lets `spender` take, see [`Ledger::approve`].
    fn approve(
        &mut self,
        token_id: &TokenId,
        owner: &AccountId,
        spender: &AccountId,
        amount: Balance,
    ) -> (outcome: Result<(), LedgerError>)
        requires
            old(self).inv(),
        ensures
            final(self).inv(),
            follows(
                old(self).ledger().approve(*token_id, *owner, *spender, amount),
                old(self).ledger(),
                outcome,
                final(self).ledger(),
            ),
    {
        self.increase_allowance(token_id, owner, spender, amount)
    }

    /// Moves `amount` from `from` to `to`, whatever was granted, see
    /// [`Ledger::transfer_from_to`].
    fn transfer_from_to(
        &mut self,
        token_id: &TokenId,
        from: &AccountId,
        to: &AccountId,
        amount: Balance,
    ) -> (outcome: Result<(), LedgerError>)
        requires
            old(self).inv(),
        ensures
            final(self).inv(),
            follows(
                old(self).ledger().transfer_from_to(*token_id, *from, *to, amount),
                old(self).ledger(),
                outcome,
                final(self).ledger(),
            ),
    ;

    /// Adds `amount` to what `owner` lets `spender` take, see
    /// [`Ledger::increase_allowance`].
    fn increase_allowance(
        &mut self,
        token_id: &TokenId,
        owner: &AccountId,
        spender: &AccountId,
        amount: Balance,
    ) -> (outcome: Result<(), LedgerError>)
        requires
            old(self).inv(),
        ensures
            final(self).inv(),
            follows(
                old(self).ledger().increase_allowance(*token_id, *owner, *spender, amount),
                old(self).ledger(),
                outcome,
                final(self).ledger(),
            ),
    ;

    /// Takes `amount` off what `owner` lets `spender` take, see
    /// [`Ledger::decrease_allowance`].
    fn decrease_allowance(
        &mut self,
        token_id: &TokenId,
        owner: &AccountId,
        spender: &AccountId,
        amount: Balance,
    ) -> (outcome: Result<(), LedgerError>)
        requires
            old(self).inv(),
        ensures
            final(self).inv(),
            follows(
                old(self).ledger().decrease_allowance(*token_id, *owner, *spender, amount),
                old(self).ledger(),
                outcome,
                final(self).ledger(),
            ),
    ;

    /// Fails unless `token_id` is initialized.
    fn token_initialized(&self, token_id: &TokenId) -> (outcome: Result<(), LedgerError>)
        requires
            self.inv(),
        ensures
            outcome == (if self.ledger().is_initialized(*token_id) {
                Ok::<(), LedgerError>(())
            } else {
                Err::<(), LedgerError>(LedgerError::Uninitialized)
            }),
    ;

    /// Fails if `token_id` is initialized.
    fn token_uninitialized(&self, token_id: &TokenId) -> (outcome: Result<(), LedgerError>)
        requires
            self.inv(),
        ensures
            outcome == (if self.ledger().is_initialized(*token_id) {
                Err::<(), LedgerError>(LedgerError::AlreadyInitialized)
            } else {
                Ok::<(), LedgerError>(())
            }),
    ;

    /// Whether `token_id` is initialized.
    fn is_initialized(&self, token_id: &TokenId) -> (initialized: bool)
        requires
            self.inv(),
        ensures
            initialized == self.ledger().is_initialized(*token_id),
    ;
}

/// A transfer that went through can be undone by the opposite transfer, which
/// goes through too.
pub proof fn lemma_transfer_back(
    before: Ledger,
    token: TokenId,
    from: AccountId,
    to: AccountId,
    amount: Balance,
)
    requires
        before.wf(),
        before.transfer_from_to(token, from, to, amount) is Ok,
    ensures
        before.transfer_from_to(token, from, to, amount)->Ok_0.transfer_from_to(
            token,
            to,
            from,
            amount,
        ) == Ok::<Ledger, LedgerError>(before),
{
    let moved = before.transfer_from_to(token, from, to, amount)->Ok_0;
    let back = moved.transfer_from_to(token, to, from, amount)->Ok_0;
    assert(back.balances =~= before.balances);
}

} // verus!
