//! A ledger of several assets: supplies, balances and allowances.
//!
//! [`Pallet`] keeps the ledger's state and implements [`MultiErc20`] on it. Its
//! own methods are the calls that an account makes: they name the caller and
//! hand back the notification to publish.
use crate::table::{Balance, Table};
use crate::traits::{follows, AccountId, Grant, Holding, Ledger, LedgerError, MultiErc20, TokenId};
use vstd::prelude::*;

verus! {

/// The errors of this ledger are those of the interface.
pub type Error = LedgerError;

/// What the ledger tells the outside of a call that went through.
#[derive(Clone, Copy, Debug, PartialEq, Eq, Structural)]
pub enum Event {
    /// Owner, spender, asset, and the amount added to the allowance.
    Approval(AccountId, AccountId, TokenId, Balance),
    /// Payer, payee, asset, and the amount moved.
    Transfer(AccountId, AccountId, TokenId, Balance),
}

/// `supply` whole units of an asset that counts `decimals` decimal places, in the
/// asset's smallest unit.
pub open spec fn scaled_supply(supply: Balance, decimals: u32) -> nat
    decreases decimals,
{
    if decimals == 0 {
        supply as nat
    } else {
        10 * scaled_supply(supply, (decimals - 1) as u32)
    }
}

/// What [`Pallet::init`] makes of a ledger: the asset comes into being with its
/// supply counted in smallest units, and its decimal places are recorded.
pub open spec fn init_scaled(
    ledger: Ledger,
    sender: AccountId,
    token: TokenId,
    initial_supply: Balance,
    decimals: u32,
) -> Result<Ledger, LedgerError> {
    if scaled_supply(initial_supply, decimals) > Balance::MAX {
        Err(LedgerError::Overflow)
    } else {
        match ledger.init(sender, token, scaled_supply(initial_supply, decimals) as Balance) {
            Ok(next) => Ok(Ledger { decimals: next.decimals.insert(token, decimals), ..next }),
            Err(error) => Err(error),
        }
    }
}

/// The state of the ledger.
pub struct Pallet {
    total_supply: Table<TokenId>,
    balances: Table<Holding>,
    allowances: Table<Grant>,
    decimals: Table<TokenId>,
}

impl Pallet {
    /// A ledger without assets.
    pub fn new() -> (pallet: Self)
        ensures
            pallet.inv(),
            pallet.ledger() == Ledger::empty(),
    {
        let pallet = Pallet {
            total_supply: Table::new(),
            balances: Table::new(),
            allowances: Table::new(),
            decimals: Table::new(),
        };
        proof {
            assert(pallet.ledger().decimals =~= Ledger::empty().decimals);
        }
        pallet
    }

    /// `supply` times ten to the power of `decimals`, unless that exceeds what a
    /// [`Balance`] holds.
    fn scale(supply: Balance, decimals: u32) -> (scaled: Option<Balance>)
        ensures
            match scaled {
                Some(scaled) => scaled == scaled_supply(supply, decimals),
                None => scaled_supply(supply, decimals) > Balance::MAX,
            },
    {
        if supply == 0 {
            proof {
                lemma_scaled_nothing(decimals);
            }
            return Some(0);
        }
        let mut scaled: Balance = supply;
        let mut places: u32 = 0;
        while places < decimals
            invariant
                places <= decimals,
                scaled == scaled_supply(supply, places),
                scaled > 0,
            decreases decimals - places,
        {
            if scaled > Balance::MAX / 10 {
                proof {
                    lemma_scaled_grows(supply, (places + 1) as u32, decimals);
                }
                return None;
            }
            scaled = scaled * 10;
            places = places + 1;
        }
        Some(scaled)
    }

    /// `sender` brings `token_id` into being and holds all of it: `initial_supply`
    /// whole units of `decimals` decimal places each.
    ///
    /// Fails with [`LedgerError::Overflow`] where the supply in smallest units
    /// exceeds a [`Balance`], and else as [`Ledger::init`] does.
    pub fn init(
        &mut self,
        sender: AccountId,
        token_id: TokenId,
        initial_supply: Balance,
        decimals: u32,
    ) -> (outcome: Result<(), Error>)
        requires
            old(self).inv(),
        ensures
            final(self).inv(),
            follows(
                init_scaled(old(self).ledger(), sender, token_id, initial_supply, decimals),
                old(self).ledger(),
                outcome,
                final(self).ledger(),
            ),
    {
        let supply = match Self::scale(initial_supply, decimals) {
            Some(supply) => supply,
            None => {
                return Err(LedgerError::Overflow);
            },
        };
        match MultiErc20::init(self, &sender, &token_id, supply) {
            Ok(()) => {
                let ghost recorded = self.ledger();
                self.decimals.set(token_id, decimals as Balance);
                proof {
                    assert(self.ledger().decimals =~= recorded.decimals.insert(token_id, decimals));
                }
                Ok(())
            },
            Err(error) => Err(error),
        }
    }

    /// `sender` pays `amount` of `token_id` to `to`.
    pub fn transfer(
        &mut self,
        sender: AccountId,
        token_id: TokenId,
        to: AccountId,
        amount: Balance,
    ) -> (outcome: Result<Event, Error>)
        requires
            old(self).inv(),
        ensures
            final(self).inv(),
            match old(self).ledger().transfer(token_id, sender, to, amount) {
                Ok(next) => outcome == Ok::<Event, Error>(
                    Event::Transfer(sender, to, token_id, amount),
                ) && final(self).ledger() == next,
                Err(error) => outcome == Err::<Event, Error>(error) && final(self).ledger() == old(
                    self,
                ).ledger(),
            },
    {
        match MultiErc20::transfer(self, &token_id, &sender, &to, amount) {
            Ok(()) => Ok(Event::Transfer(sender, to, token_id, amount)),
            Err(error) => Err(error),
        }
    }

    /// Moves `amount` of `token_id` from `owner` to `spender`, within what `owner`
    /// has granted to `spender`. Any account may ask for it.
    pub fn transfer_from(
        &mut self,
        sender: AccountId,
        token_id: TokenId,
        owner: AccountId,
        spender: AccountId,
        amount: Balance,
    ) -> (outcome: Result<Event, Error>)
        requires
            old(self).inv(),
        ensures
            final(self).inv(),
            match old(self).ledger().transfer_from(token_id, owner, spender, amount) {
                Ok(next) => outcome == Ok::<Event, Error>(
                    Event::Transfer(owner, spender, token_id, amount),
                ) && final(self).ledger() == next,
                Err(error) => outcome == Err::<Event, Error>(error) && final(self).ledger() == old(
                    self,
                ).ledger(),
            },
    {
        match MultiErc20::transfer_from(self, &token_id, &owner, &spender, amount) {
            Ok(()) => Ok(Event::Transfer(owner, spender, token_id, amount)),
            Err(error) => Err(error),
        }
    }

    /// `sender` lets `spender` take `amount` more of its `token_id`.
    pub fn approve(
        &mut self,
        sender: AccountId,
        token_id: TokenId,
        spender: AccountId,
        amount: Balance,
    ) -> (outcome: Result<Event, Error>)
        requires
            old(self).inv(),
        ensures
            final(self).inv(),
            match old(self).ledger().approve(token_id, sender, spender, amount) {
                Ok(next) => outcome == Ok::<Event, Error>(
                    Event::Approval(sender, spender, token_id, amount),
                ) && final(self).ledger() == next,
                Err(error) => outcome == Err::<Event, Error>(error) && final(self).ledger() == old(
                    self,
                ).ledger(),
            },
    {
        match MultiErc20::approve(self, &token_id, &sender, &spender, amount) {
            Ok(()) => Ok(Event::Approval(sender, spender, token_id, amount)),
            Err(error) => Err(error),
        }
    }

    /// The supply of `token_id`; zero if it is not initialized.
    pub fn get_total_supply(&self, token_id: TokenId) -> (supply: Balance)
        requires
            self.inv(),
        ensures
            supply == self.ledger().supply[token_id],
    {
        self.total_supply.get(&token_id)
    }

    /// What `account` holds of `token_id`.
    pub fn get_balance(&self, account: AccountId, token_id: TokenId) -> (balance: Balance)
        requires
            self.inv(),
        ensures
            balance == self.ledger().balance(token_id, account),
    {
        self.balances.get(&Holding { token: token_id, account })
    }

    /// What the first account lets the second take of the asset.
    pub fn get_allowance(&self, key: (AccountId, AccountId, TokenId)) -> (allowance: Balance)
        requires
            self.inv(),
        ensures
            allowance == self.ledger().granted(key.2, key.0, key.1),
    {
        self.allowances.get(&Grant { token: key.2, owner: key.0, spender: key.1 })
    }

    /// The decimal places of `token_id`; zero if it is not initialized.
    pub fn get_decimals(&self, token_id: TokenId) -> (decimals: u32)
        requires
            self.inv(),
        ensures
            decimals == self.ledger().decimals[token_id],
    {
        let places = self.decimals.get(&token_id);
        places as u32
    }
}

impl MultiErc20 for Pallet {
    closed spec fn ledger(&self) -> Ledger {
        Ledger {
            supply: self.total_supply@,
            balances: self.balances@,
            allowances: self.allowances@,
            decimals: Map::total(|token: TokenId| self.decimals@[token] as u32),
        }
    }

    closed spec fn inv(&self) -> bool {
        &&& self.total_supply.inv()
        &&& self.balances.inv()
        &&& self.allowances.inv()
        &&& self.decimals.inv()
        &&& forall|token: TokenId| #[trigger] self.decimals@[token] <= u32::MAX
    }

    proof fn lemma_ledger_wf(&self) {
        self.total_supply.lemma_view();
        self.balances.lemma_view();
        self.allowances.lemma_view();
    }

    fn init(&mut self, who: &AccountId, token_id: &TokenId, initial_supply: Balance) -> (outcome:
        Result<(), LedgerError>) {
        self.token_uninitialized(token_id)?;
        if initial_supply == 0 {
            return Err(LedgerError::WrongInitialization);
        }
        self.balances.set(Holding { token: *token_id, account: *who }, initial_supply);
        self.total_supply.set(*token_id, initial_supply);
        Ok(())
    }

    fn total_supply(&self, token_id: TokenId) -> (supply: Result<Balance, LedgerError>) {
        self.token_initialized(&token_id)?;
        Ok(self.total_supply.get(&token_id))
    }

    fn balance_of(&self, token_id: TokenId, account: &AccountId) -> (balance: Result<
        Balance,
        LedgerError,
    >) {
        self.token_initialized(&token_id)?;
        Ok(self.balances.get(&Holding { token: token_id, account: *account }))
    }

    fn allowance(&self, token_id: TokenId, owner: AccountId, spender: AccountId) -> (allowance:
        Result<Balance, LedgerError>) {
        self.token_initialized(&token_id)?;
        Ok(self.allowances.get(&Grant { token: token_id, owner, spender }))
    }

    fn transfer_from_to(
        &mut self,
        token_id: &TokenId,
        from: &AccountId,
        to: &AccountId,
        amount: Balance,
    ) -> (outcome: Result<(), LedgerError>) {
        self.token_initialized(token_id)?;
        if amount == 0 {
            return Err(LedgerError::ZeroTransfer);
        }
        if *from == *to {
            return Err(LedgerError::SelfTransfer);
        }
        let payer = Holding { token: *token_id, account: *from };
        let payee = Holding { token: *token_id, account: *to };
        let paying = self.balances.get(&payer);
        if paying < amount {
            return Err(LedgerError::InsufficientFunds);
        }
        let receiving = self.balances.get(&payee);
        if receiving > Balance::MAX - amount {
            return Err(LedgerError::Overflow);
        }
        self.balances.set(payer, paying - amount);
        self.balances.set(payee, receiving + amount);
        Ok(())
    }

    fn increase_allowance(
        &mut self,
        token_id: &TokenId,
        owner: &AccountId,
        spender: &AccountId,
        amount: Balance,
    ) -> (outcome: Result<(), LedgerError>) {
        self.token_initialized(token_id)?;
        let grant = Grant { token: *token_id, owner: *owner, spender: *spender };
        let granted = self.allowances.get(&grant);
        if granted > Balance::MAX - amount {
            return Err(LedgerError::Overflow);
        }
        self.allowances.set(grant, granted + amount);
        Ok(())
    }

    fn decrease_allowance(
        &mut self,
        token_id: &TokenId,
        owner: &AccountId,
        spender: &AccountId,
        amount: Balance,
    ) -> (outcome: Result<(), LedgerError>) {
        self.token_initialized(token_id)?;
        let grant = Grant { token: *token_id, owner: *owner, spender: *spender };
        let granted = self.allowances.get(&grant);
        if granted < amount {
            return Err(LedgerError::InsufficientAllowance);
        }
        self.allowances.set(grant, granted - amount);
        Ok(())
    }

    fn token_initialized(&self, token_id: &TokenId) -> (outcome: Result<(), LedgerError>) {
        if self.is_initialized(token_id) {
            Ok(())
        } else {
            Err(LedgerError::Uninitialized)
        }
    }

    fn token_uninitialized(&self, token_id: &TokenId) -> (outcome: Result<(), LedgerError>) {
        if self.is_initialized(token_id) {
            Err(LedgerError::AlreadyInitialized)
        } else {
            Ok(())
        }
    }

    fn is_initialized(&self, token_id: &TokenId) -> (initialized: bool) {
        self.total_supply.get(token_id) != 0
    }
}

/// Nothing stays nothing, however many decimal places it counts.
pub proof fn lemma_scaled_nothing(decimals: u32)
    ensures
        scaled_supply(0, decimals) == 0,
    decreases decimals,
{
    if decimals > 0 {
        lemma_scaled_nothing((decimals - 1) as u32);
    }
}

/// More decimal places make no smaller number of smallest units.
pub proof fn lemma_scaled_grows(supply: Balance, fewer: u32, more: u32)
    requires
        fewer <= more,
    ensures
        scaled_supply(supply, fewer) <= scaled_supply(supply, more),
    decreases more,
{
    if fewer < more {
        lemma_scaled_grows(supply, fewer, (more - 1) as u32);
    }
}

} // verus!
