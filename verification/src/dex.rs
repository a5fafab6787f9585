//! The pool: two assets, a constant-product price, and shares for those who
//! provide the assets.
//!
//! [`State`] says what a pool is, and its methods say what each operation makes
//! of a pool and a ledger. [`Pallet`] holds a pool and carries the operations
//! out on any ledger that implements [`MultiErc20`]; each either goes through
//! as the model says or fails and changes nothing.
use crate::pricing::{
    added, checked_add, checked_mul_div, checked_sub, mul_div, price, price_of, subtracted,
};
use crate::ratio::{rational_parts, Ratio, ACCURACY, PERCENT};
use crate::settle::{settle, settled, unsettle, Movement};
use crate::table::{
    lemma_total_of_bounds, lemma_total_of_insert, lemma_total_of_nothing, support, total_of,
    Balance, Table,
};
use crate::traits::{AccountId, Ledger, LedgerError, MultiErc20, TokenId};
use vstd::prelude::*;

verus! {

/// Why the pool refused an operation.
#[derive(Clone, Copy, Debug, PartialEq, Eq, Structural)]
pub enum Error {
    /// The pool was not initialized yet.
    Uninitialized,
    /// The pool is initialized already.
    AlreadyInitialized,
    /// An initial amount is zero, or the pool's account is the zero account.
    WrongInitialization,
    /// The asset is neither of the pool's two.
    WrongTokenId,
    /// A sum or a product exceeds what a [`Balance`] holds, a difference would
    /// be negative, or a divisor is zero.
    Overflow,
    /// The percentage is zero or more than a hundred.
    WrongShareValue,
    /// Nobody holds a share of the pool.
    NoLiquidity,
}

/// Why an operation of the pool failed: the pool refused it, or the ledger did.
#[derive(Clone, Copy, Debug, PartialEq, Eq, Structural)]
pub enum DispatchError {
    Dex(Error),
    Tokens(LedgerError),
}

/// What the pool tells the outside of an operation that went through.
#[derive(Clone, Copy, Debug, PartialEq, Eq, Structural)]
pub enum Event {
    /// Who initialized the pool, the pool's account, and each asset with its
    /// initial amount.
    Initialized(AccountId, AccountId, TokenId, Balance, TokenId, Balance),
    /// Who swapped, the asset and amount paid, the asset and amount bought.
    TokenBought(AccountId, TokenId, Balance, TokenId, Balance),
    /// Who deposited, and each asset with the amount deposited.
    Deposited(AccountId, TokenId, Balance, TokenId, Balance),
    /// Who withdrew, and each asset with the amount paid out.
    Withdrawn(AccountId, TokenId, Balance, TokenId, Balance),
}

/// What is fixed when a pool is initialized.
#[derive(Clone, Copy, Debug, PartialEq, Eq, Structural)]
pub struct Pool {
    /// The account that holds the reserves.
    pub address: AccountId,
    pub first_token: TokenId,
    pub second_token: TokenId,
}

impl Pool {
    /// The asset that `token` is traded against; none if the pool does not
    /// trade `token`.
    pub open spec fn paired(self, token: TokenId) -> Option<TokenId> {
        if token == self.first_token {
            Some(self.second_token)
        } else if token == self.second_token {
            Some(self.first_token)
        } else {
            None
        }
    }

    /// The asset that `token_id` is traded against.
    pub fn other_token(&self, token_id: TokenId) -> (other: Result<TokenId, Error>)
        ensures
            other == (match self.paired(token_id) {
                Some(other) => Ok::<TokenId, Error>(other),
                None => Err::<TokenId, Error>(Error::WrongTokenId),
            }),
    {
        if token_id == self.first_token {
            Ok(self.second_token)
        } else if token_id == self.second_token {
            Ok(self.first_token)
        } else {
            Err(Error::WrongTokenId)
        }
    }
}

/// A pool as mathematics: its identity once it is initialized, the shares of
/// each account (zero for an account that never held any), and their total.
pub struct State {
    pub pool: Option<Pool>,
    pub total_liquidity: Balance,
    pub liquidity: Map<AccountId, Balance>,
}

impl State {
    /// The pool before it is initialized.
    pub open spec fn empty() -> State {
        State {
            pool: None,
            total_liquidity: 0,
            liquidity: Map::total(|account: AccountId| 0u128),
        }
    }

    /// What holds of every pool: every account has a number of shares, finitely
    /// many have some, the total is the sum of all shares, and there are no
    /// shares before the pool is initialized.
    pub open spec fn wf(self) -> bool {
        &&& forall|account: AccountId| self.liquidity.dom().contains(account)
        &&& support(self.liquidity).finite()
        &&& self.total_liquidity == total_of(self.liquidity)
        &&& self.pool is None ==> self.total_liquidity == 0
    }

    /// The pool with `amount` more shares for `owner`.
    pub open spec fn credited(self, owner: AccountId, amount: Balance) -> Result<State, Error> {
        if self.pool is None {
            Err(Error::Uninitialized)
        } else if self.total_liquidity + amount > Balance::MAX {
            Err(Error::Overflow)
        } else {
            Ok(
                State {
                    total_liquidity: (self.total_liquidity + amount) as Balance,
                    liquidity: self.liquidity.insert(
                        owner,
                        (self.liquidity[owner] + amount) as Balance,
                    ),
                    ..self
                },
            )
        }
    }

    /// The pool with `amount` fewer shares for `owner`.
    pub open spec fn debited(self, owner: AccountId, amount: Balance) -> Result<State, Error> {
        if self.pool is None {
            Err(Error::Uninitialized)
        } else if self.liquidity[owner] < amount {
            Err(Error::Overflow)
        } else {
            Ok(
                State {
                    total_liquidity: (self.total_liquidity - amount) as Balance,
                    liquidity: self.liquidity.insert(
                        owner,
                        (self.liquidity[owner] - amount) as Balance,
                    ),
                    ..self
                },
            )
        }
    }
}

/// The pool.
pub struct Pallet {
    pool: Option<Pool>,
    total_liquidity: Balance,
    liquidity: Table<AccountId>,
}

impl View for Pallet {
    type V = State;

    closed spec fn view(&self) -> State {
        State {
            pool: self.pool,
            total_liquidity: self.total_liquidity,
            liquidity: self.liquidity@,
        }
    }
}

impl Pallet {
    /// What the pool keeps true of itself; it implies [`State::wf`].
    pub closed spec fn inv(&self) -> bool {
        &&& self.liquidity.inv()
        &&& self@.wf()
    }

    /// The total of the shares is the sum of the shares of all accounts, in
    /// every state that the pool can reach.
    pub proof fn lemma_inv(&self)
        requires
            self.inv(),
        ensures
            self@.wf(),
            self@.total_liquidity == total_of(self@.liquidity),
    {
    }

    /// A pool that is not initialized.
    pub fn new() -> (pallet: Self)
        ensures
            pallet.inv(),
            pallet@ == State::empty(),
    {
        let pallet = Pallet { pool: None, total_liquidity: 0, liquidity: Table::new() };
        proof {
            pallet.liquidity.lemma_view();
            lemma_total_of_nothing(pallet.liquidity@);
        }
        pallet
    }

    /// The account that holds the reserves, once the pool is initialized.
    pub fn get_pool_address(&self) -> (address: Option<AccountId>)
        ensures
            address == (match self@.pool {
                Some(pool) => Some(pool.address),
                None => None::<AccountId>,
            }),
    {
        match self.pool {
            Some(pool) => Some(pool.address),
            None => None,
        }
    }

    /// The first of the two assets, once the pool is initialized.
    pub fn get_first_token(&self) -> (token: Option<TokenId>)
        ensures
            token == (match self@.pool {
                Some(pool) => Some(pool.first_token),
                None => None::<TokenId>,
            }),
    {
        match self.pool {
            Some(pool) => Some(pool.first_token),
            None => None,
        }
    }

    /// The second of the two assets, once the pool is initialized.
    pub fn get_second_token(&self) -> (token: Option<TokenId>)
        ensures
            token == (match self@.pool {
                Some(pool) => Some(pool.second_token),
                None => None::<TokenId>,
            }),
    {
        match self.pool {
            Some(pool) => Some(pool.second_token),
            None => None,
        }
    }

    /// Both assets, once the pool is initialized.
    pub fn get_token_ids(&self) -> (tokens: Option<(TokenId, TokenId)>)
        ensures
            tokens == (match self@.pool {
                Some(pool) => Some((pool.first_token, pool.second_token)),
                None => None::<(TokenId, TokenId)>,
            }),
    {
        match self.pool {
            Some(pool) => Some((pool.first_token, pool.second_token)),
            None => None,
        }
    }

    /// The total of all shares, once the pool is initialized.
    pub fn get_total_liquidity(&self) -> (total: Option<Balance>)
        ensures
            total == (if self@.pool is Some {
                Some(self@.total_liquidity)
            } else {
                None::<Balance>
            }),
    {
        match self.pool {
            Some(_) => Some(self.total_liquidity),
            None => None,
        }
    }

    /// The shares of `account`.
    pub fn get_liquidity(&self, account: AccountId) -> (shares: Balance)
        requires
            self.inv(),
        ensures
            shares == self@.liquidity[account],
    {
        self.liquidity.get(&account)
    }

    /// The part of all shares that `account` holds.
    pub fn get_pool_share(&self, account: &AccountId) -> (share: Ratio)
        requires
            self.inv(),
        ensures
            share.parts() == rational_parts(
                self@.liquidity[*account] as nat,
                self@.total_liquidity as nat,
            ),
    {
        Ratio::from_rational(self.liquidity.get(account), self.total_liquidity)
    }

    /// Whether the pool is initialized.
    pub fn is_initialized(&self) -> (initialized: bool)
        ensures
            initialized == self@.pool is Some,
    {
        self.pool.is_some()
    }

    /// Fails unless the pool is initialized.
    pub fn initialized(&self) -> (outcome: Result<(), Error>)
        ensures
            outcome == (if self@.pool is Some {
                Ok::<(), Error>(())
            } else {
                Err::<(), Error>(Error::Uninitialized)
            }),
    {
        if self.is_initialized() {
            Ok(())
        } else {
            Err(Error::Uninitialized)
        }
    }

    /// Fails if the pool is initialized.
    pub fn uninitialized(&self) -> (outcome: Result<(), Error>)
        ensures
            outcome == (if self@.pool is Some {
                Err::<(), Error>(Error::AlreadyInitialized)
            } else {
                Ok::<(), Error>(())
            }),
    {
        if self.is_initialized() {
            Err(Error::AlreadyInitialized)
        } else {
            Ok(())
        }
    }

    /// Fails if nobody holds a share.
    pub fn has_liquidity(&self) -> (outcome: Result<(), Error>)
        ensures
            outcome == (if self@.total_liquidity != 0 {
                Ok::<(), Error>(())
            } else {
                Err::<(), Error>(Error::NoLiquidity)
            }),
    {
        if self.total_liquidity != 0 {
            Ok(())
        } else {
            Err(Error::NoLiquidity)
        }
    }

    /// Gives `owner` `amount` more shares.
    pub fn increase_liquidity(&mut self, owner: &AccountId, amount: Balance) -> (outcome: Result<
        (),
        Error,
    >)
        requires
            old(self).inv(),
        ensures
            final(self).inv(),
            match old(self)@.credited(*owner, amount) {
                Ok(next) => outcome is Ok && final(self)@ == next,
                Err(error) => outcome == Err::<(), Error>(error) && final(self)@ == old(self)@,
            },
    {
        proof {
            lemma_total_of_bounds(self.liquidity@, *owner);
            lemma_total_of_insert(
                self.liquidity@,
                *owner,
                (self.liquidity@[*owner] + amount) as Balance,
            );
        }
        self.initialized()?;
        let total = checked_add(self.total_liquidity, amount)?;
        let held = self.liquidity.get(owner);
        let updated = checked_add(held, amount)?;
        self.total_liquidity = total;
        self.liquidity.set(*owner, updated);
        Ok(())
    }

    /// Takes `amount` shares from `owner`.
    pub fn decrease_liquidity(&mut self, owner: &AccountId, amount: Balance) -> (outcome: Result<
        (),
        Error,
    >)
        requires
            old(self).inv(),
        ensures
            final(self).inv(),
            match old(self)@.debited(*owner, amount) {
                Ok(next) => outcome is Ok && final(self)@ == next,
                Err(error) => outcome == Err::<(), Error>(error) && final(self)@ == old(self)@,
            },
    {
        proof {
            lemma_total_of_bounds(self.liquidity@, *owner);
            lemma_total_of_insert(
                self.liquidity@,
                *owner,
                (self.liquidity@[*owner] - amount) as Balance,
            );
        }
        self.initialized()?;
        let total = checked_sub(self.total_liquidity, amount)?;
        let held = self.liquidity.get(owner);
        let updated = checked_sub(held, amount)?;
        self.total_liquidity = total;
        self.liquidity.set(*owner, updated);
        Ok(())
    }
}

/// A call on the pool, with the account that makes it.
#[derive(Clone, Copy, Debug, PartialEq, Eq, Structural)]
pub enum Call {
    Init {
        sender: AccountId,
        pool_address: AccountId,
        first_token_id: TokenId,
        first_token_amount: Balance,
        second_token_id: TokenId,
        second_token_amount: Balance,
    },
    BuyToken { sender: AccountId, token_id: TokenId, amount: Balance },
    Deposit { sender: AccountId, token_id: TokenId, amount: Balance },
    Withdraw { sender: AccountId, share_percent: u32 },
    WithdrawSingleToken { sender: AccountId, token_id: TokenId, share_percent: u32 },
}

/// What an operation that went through leaves behind, and what it reports.
pub struct Done {
    pub state: State,
    pub ledger: Ledger,
    pub event: Event,
}

/// Whether an operation that the model resolves to `step` may return `outcome`
/// and leave the pool `after` and the ledger `ledger_after`: on success all is as
/// the model says, on failure the error is the model's and nothing has changed.
pub open spec fn carried_out(
    step: Result<Done, DispatchError>,
    before: State,
    ledger_before: Ledger,
    outcome: Result<Event, DispatchError>,
    after: State,
    ledger_after: Ledger,
) -> bool {
    match step {
        Ok(done) => outcome == Ok::<Event, DispatchError>(done.event) && after == done.state
            && ledger_after == done.ledger,
        Err(error) => outcome == Err::<Event, DispatchError>(error) && after == before
            && ledger_after == ledger_before,
    }
}

/// What the account `pool` holds of the assets `first` and `second`.
pub open spec fn reserves(
    ledger: Ledger,
    pool: AccountId,
    first: TokenId,
    second: TokenId,
) -> Result<(Balance, Balance), DispatchError> {
    match ledger.balance_of(first, pool) {
        Err(error) => Err(DispatchError::Tokens(error)),
        Ok(first_reserve) => match ledger.balance_of(second, pool) {
            Err(error) => Err(DispatchError::Tokens(error)),
            Ok(second_reserve) => Ok((first_reserve, second_reserve)),
        },
    }
}

/// The part of the pool, in parts of [`ACCURACY`], that an account withdraws
/// which holds `held` of `total` shares and asks for `share_percent` percent of
/// its stake: the percentage times the account's part of all shares.
pub open spec fn share_parts(share_percent: u32, held: Balance, total: Balance) -> nat {
    (if share_percent > 100 {
        100
    } else {
        share_percent as nat
    }) * (PERCENT as nat) * rational_parts(held as nat, total as nat) / (ACCURACY as nat)
}

/// `parts` parts of [`ACCURACY`] of `amount`, rounded down.
pub open spec fn part_of(parts: nat, amount: Balance) -> Balance {
    (parts * (amount as nat) / (ACCURACY as nat)) as Balance
}

impl State {
    /// The pool comes into being: `sender` pays both initial amounts into the
    /// pool's account, within what it has granted to that account, and holds
    /// their sum in shares.
    ///
    /// It fails, in this order: with [`Error::AlreadyInitialized`] if there is a
    /// pool already; with [`Error::WrongInitialization`] if an amount is zero or
    /// the pool's account is the zero account; with the ledger's error if the
    /// ledger refuses the first payment or, after it, the second; with
    /// [`Error::Overflow`] if the sum of the amounts exceeds a [`Balance`].
    pub open spec fn init(
        self,
        ledger: Ledger,
        sender: AccountId,
        pool_address: AccountId,
        first_token_id: TokenId,
        first_token_amount: Balance,
        second_token_id: TokenId,
        second_token_amount: Balance,
    ) -> Result<Done, DispatchError> {
        if self.pool is Some {
            Err(DispatchError::Dex(Error::AlreadyInitialized))
        } else if first_token_amount == 0 || second_token_amount == 0 || pool_address == 0 {
            Err(DispatchError::Dex(Error::WrongInitialization))
        } else {
            match settled(
                ledger,
                Movement {
                    granted: true,
                    token: first_token_id,
                    from: sender,
                    to: pool_address,
                    amount: first_token_amount,
                },
                Movement {
                    granted: true,
                    token: second_token_id,
                    from: sender,
                    to: pool_address,
                    amount: second_token_amount,
                },
            ) {
                Err(error) => Err(DispatchError::Tokens(error)),
                Ok(moved) => match added(first_token_amount, second_token_amount) {
                    Err(error) => Err(DispatchError::Dex(error)),
                    Ok(total) => Ok(
                        Done {
                            state: State {
                                pool: Some(
                                    Pool {
                                        address: pool_address,
                                        first_token: first_token_id,
                                        second_token: second_token_id,
                                    },
                                ),
                                total_liquidity: total,
                                liquidity: self.liquidity.insert(sender, total),
                            },
                            ledger: moved,
                            event: Event::Initialized(
                                sender,
                                pool_address,
                                first_token_id,
                                first_token_amount,
                                second_token_id,
                                second_token_amount,
                            ),
                        },
                    ),
                },
            }
        }
    }

    /// `sender` pays `amount` of `token` into the pool, within what it has
    /// granted to the pool's account, and is paid what that buys of the other
    /// asset, see [`price_of`]. The shares stay as they are.
    ///
    /// It fails, in this order: with [`Error::Uninitialized`] before the pool is
    /// initialized; with [`Error::WrongTokenId`] if the pool does not trade
    /// `token`; with [`Error::NoLiquidity`] if nobody holds a share; with the
    /// ledger's error if a reserve cannot be read; with [`Error::Overflow`] if
    /// there is no price; with the ledger's error if the ledger refuses the
    /// payment or, after it, the payout.
    pub open spec fn buy_token(
        self,
        ledger: Ledger,
        sender: AccountId,
        token: TokenId,
        amount: Balance,
    ) -> Result<Done, DispatchError> {
        match self.pool {
            None => Err(DispatchError::Dex(Error::Uninitialized)),
            Some(pool) => match pool.paired(token) {
                None => Err(DispatchError::Dex(Error::WrongTokenId)),
                Some(other) => if self.total_liquidity == 0 {
                    Err(DispatchError::Dex(Error::NoLiquidity))
                } else {
                    match reserves(ledger, pool.address, token, other) {
                        Err(error) => Err(error),
                        Ok((input_reserve, output_reserve)) => match price_of(
                            amount,
                            input_reserve,
                            output_reserve,
                        ) {
                            None => Err(DispatchError::Dex(Error::Overflow)),
                            Some(bought) => match settled(
                                ledger,
                                Movement {
                                    granted: true,
                                    token,
                                    from: sender,
                                    to: pool.address,
                                    amount,
                                },
                                Movement {
                                    granted: false,
                                    token: other,
                                    from: pool.address,
                                    to: sender,
                                    amount: bought,
                                },
                            ) {
                                Err(error) => Err(DispatchError::Tokens(error)),
                                Ok(moved) => Ok(
                                    Done {
                                        state: self,
                                        ledger: moved,
                                        event: Event::TokenBought(
                                            sender,
                                            token,
                                            amount,
                                            other,
                                            bought,
                                        ),
                                    },
                                ),
                            },
                        },
                    }
                },
            },
        }
    }

    /// `sender` pays `amount` of `token` into the pool, and of the other asset
    /// what keeps the two reserves in proportion: `amount` times the other
    /// reserve, divided by the reserve of `token`, rounded down. The sum of both
    /// amounts is what `sender` gets in shares.
    ///
    /// It fails, in this order: with [`Error::Uninitialized`] before the pool is
    /// initialized; with [`Error::WrongTokenId`] if the pool does not trade
    /// `token`; with the ledger's error if a reserve cannot be read; with
    /// [`Error::Overflow`] if the reserve of `token` is empty, or the product or
    /// the sum of the amounts or the new total of the shares exceeds a
    /// [`Balance`]; with the ledger's error if the ledger refuses the first
    /// payment or, after it, the second.
    pub open spec fn deposit(
        self,
        ledger: Ledger,
        sender: AccountId,
        token: TokenId,
        amount: Balance,
    ) -> Result<Done, DispatchError> {
        match self.pool {
            None => Err(DispatchError::Dex(Error::Uninitialized)),
            Some(pool) => match pool.paired(token) {
                None => Err(DispatchError::Dex(Error::WrongTokenId)),
                Some(other) => match reserves(ledger, pool.address, token, other) {
                    Err(error) => Err(error),
                    Ok((first_reserve, second_reserve)) => match mul_div(
                        amount,
                        second_reserve,
                        first_reserve,
                    ) {
                        Err(error) => Err(DispatchError::Dex(error)),
                        Ok(second_amount) => match added(amount, second_amount) {
                            Err(error) => Err(DispatchError::Dex(error)),
                            Ok(minted) => match self.credited(sender, minted) {
                                Err(error) => Err(DispatchError::Dex(error)),
                                Ok(credited) => match settled(
                                    ledger,
                                    Movement {
                                        granted: true,
                                        token,
                                        from: sender,
                                        to: pool.address,
                                        amount,
                                    },
                                    Movement {
                                        granted: true,
                                        token: other,
                                        from: sender,
                                        to: pool.address,
                                        amount: second_amount,
                                    },
                                ) {
                                    Err(error) => Err(DispatchError::Tokens(error)),
                                    Ok(moved) => Ok(
                                        Done {
                                            state: credited,
                                            ledger: moved,
                                            event: Event::Deposited(
                                                sender,
                                                token,
                                                amount,
                                                other,
                                                second_amount,
                                            ),
                                        },
                                    ),
                                },
                            },
                        },
                    },
                },
            },
        }
    }

    /// `sender` gives up a part of the pool and is paid that part of both
    /// reserves: the part is `share_percent` percent of the part that `sender`
    /// holds of all shares, see [`share_parts`]; what is paid, and the shares
    /// given up, are that part of each reserve, and of the total of the shares,
    /// rounded down.
    ///
    /// It fails, in this order: with [`Error::Uninitialized`] before the pool is
    /// initialized; with [`Error::WrongShareValue`] if the percentage is zero or
    /// more than a hundred; with the ledger's error if a reserve cannot be read;
    /// with [`Error::Overflow`] if `sender` holds fewer shares than it would give
    /// up; with the ledger's error if the ledger refuses the first payout or,
    /// after it, the second.
    pub open spec fn withdraw(
        self,
        ledger: Ledger,
        sender: AccountId,
        share_percent: u32,
    ) -> Result<Done, DispatchError> {
        match self.pool {
            None => Err(DispatchError::Dex(Error::Uninitialized)),
            Some(pool) => if share_percent == 0 || share_percent > 100 {
                Err(DispatchError::Dex(Error::WrongShareValue))
            } else {
                match reserves(ledger, pool.address, pool.first_token, pool.second_token) {
                    Err(error) => Err(error),
                    Ok((first_reserve, second_reserve)) => {
                        let parts = share_parts(
                            share_percent,
                            self.liquidity[sender],
                            self.total_liquidity,
                        );
                        let first_amount = part_of(parts, first_reserve);
                        let second_amount = part_of(parts, second_reserve);
                        match self.debited(sender, part_of(parts, self.total_liquidity)) {
                            Err(error) => Err(DispatchError::Dex(error)),
                            Ok(debited) => match settled(
                                ledger,
                                Movement {
                                    granted: false,
                                    token: pool.first_token,
                                    from: pool.address,
                                    to: sender,
                                    amount: first_amount,
                                },
                                Movement {
                                    granted: false,
                                    token: pool.second_token,
                                    from: pool.address,
                                    to: sender,
                                    amount: second_amount,
                                },
                            ) {
                                Err(error) => Err(DispatchError::Tokens(error)),
                                Ok(moved) => Ok(
                                    Done {
                                        state: debited,
                                        ledger: moved,
                                        event: Event::Withdrawn(
                                            sender,
                                            pool.first_token,
                                            first_amount,
                                            pool.second_token,
                                            second_amount,
                                        ),
                                    },
                                ),
                            },
                        }
                    },
                }
            },
        }
    }

    /// `sender` gives up a part of the pool as in [`State::withdraw`] and is paid
    /// in `token` alone: its part of that reserve, and what its part of the other
    /// reserve buys of what is then left of the first, see [`price_of`]. The
    /// other reserve stays in the pool.
    ///
    /// It fails, in this order: with [`Error::Uninitialized`] before the pool is
    /// initialized; with [`Error::WrongShareValue`] if the percentage is zero or
    /// more than a hundred; with [`Error::WrongTokenId`] if the pool does not
    /// trade `token`; with the ledger's error if a reserve cannot be read; with
    /// [`Error::Overflow`] if there is no price, if the payout exceeds a
    /// [`Balance`], or if `sender` holds fewer shares than it would give up; with
    /// the ledger's error if the ledger refuses the payout.
    pub open spec fn withdraw_single_token(
        self,
        ledger: Ledger,
        sender: AccountId,
        token: TokenId,
        share_percent: u32,
    ) -> Result<Done, DispatchError> {
        match self.pool {
            None => Err(DispatchError::Dex(Error::Uninitialized)),
            Some(pool) => if share_percent == 0 || share_percent > 100 {
                Err(DispatchError::Dex(Error::WrongShareValue))
            } else {
                match pool.paired(token) {
                    None => Err(DispatchError::Dex(Error::WrongTokenId)),
                    Some(other) => match reserves(ledger, pool.address, token, other) {
                        Err(error) => Err(error),
                        Ok((reserve, other_reserve)) => {
                            let parts = share_parts(
                                share_percent,
                                self.liquidity[sender],
                                self.total_liquidity,
                            );
                            let amount = part_of(parts, reserve);
                            match price_of(
                                part_of(parts, other_reserve),
                                other_reserve,
                                (reserve - amount) as Balance,
                            ) {
                                None => Err(DispatchError::Dex(Error::Overflow)),
                                Some(bought) => match added(amount, bought) {
                                    Err(error) => Err(DispatchError::Dex(error)),
                                    Ok(paid) => match self.debited(
                                        sender,
                                        part_of(parts, self.total_liquidity),
                                    ) {
                                        Err(error) => Err(DispatchError::Dex(error)),
                                        Ok(debited) => match ledger.transfer_from_to(
                                            token,
                                            pool.address,
                                            sender,
                                            paid,
                                        ) {
                                            Err(error) => Err(DispatchError::Tokens(error)),
                                            Ok(moved) => Ok(
                                                Done {
                                                    state: debited,
                                                    ledger: moved,
                                                    event: Event::Withdrawn(
                                                        sender,
                                                        token,
                                                        paid,
                                                        other,
                                                        0,
                                                    ),
                                                },
                                            ),
                                        },
                                    },
                                },
                            }
                        },
                    },
                }
            },
        }
    }

    /// What `call` makes of the pool and the ledger.
    pub open spec fn step(self, ledger: Ledger, call: Call) -> Result<Done, DispatchError> {
        match call {
            Call::Init {
                sender,
                pool_address,
                first_token_id,
                first_token_amount,
                second_token_id,
                second_token_amount,
            } => self.init(
                ledger,
                sender,
                pool_address,
                first_token_id,
                first_token_amount,
                second_token_id,
                second_token_amount,
            ),
            Call::BuyToken { sender, token_id, amount } => self.buy_token(
                ledger,
                sender,
                token_id,
                amount,
            ),
            Call::Deposit { sender, token_id, amount } => self.deposit(
                ledger,
                sender,
                token_id,
                amount,
            ),
            Call::Withdraw { sender, share_percent } => self.withdraw(
                ledger,
                sender,
                share_percent,
            ),
            Call::WithdrawSingleToken {
                sender,
                token_id,
                share_percent,
            } => self.withdraw_single_token(ledger, sender, token_id, share_percent),
        }
    }

    /// What the pool has earned in fees: by how much its two reserves together
    /// exceed the total of the shares.
    ///
    /// There is none, in this order: with [`Error::Uninitialized`] before the
    /// pool is initialized; with the ledger's error if a reserve cannot be read;
    /// with [`Error::Overflow`] if the reserves together exceed a [`Balance`] or
    /// fall short of the total of the shares.
    pub open spec fn total_reward(self, ledger: Ledger) -> Result<Balance, DispatchError> {
        match self.pool {
            None => Err(DispatchError::Dex(Error::Uninitialized)),
            Some(pool) => match reserves(
                ledger,
                pool.address,
                pool.first_token,
                pool.second_token,
            ) {
                Err(error) => Err(error),
                Ok((first_reserve, second_reserve)) => match added(first_reserve, second_reserve) {
                    Err(error) => Err(DispatchError::Dex(error)),
                    Ok(held) => match subtracted(held, self.total_liquidity) {
                        Err(error) => Err(DispatchError::Dex(error)),
                        Ok(reward) => Ok(reward),
                    },
                },
            },
        }
    }
}

/// A refusal of the pool as the failure of an operation.
fn refused<T>(outcome: Result<T, Error>) -> (mapped: Result<T, DispatchError>)
    ensures
        mapped == (match outcome {
            Ok(value) => Ok::<T, DispatchError>(value),
            Err(error) => Err::<T, DispatchError>(DispatchError::Dex(error)),
        }),
{
    match outcome {
        Ok(value) => Ok(value),
        Err(error) => Err(DispatchError::Dex(error)),
    }
}

/// A refusal of the ledger as the failure of an operation.
fn declined<T>(outcome: Result<T, LedgerError>) -> (mapped: Result<T, DispatchError>)
    ensures
        mapped == (match outcome {
            Ok(value) => Ok::<T, DispatchError>(value),
            Err(error) => Err::<T, DispatchError>(DispatchError::Tokens(error)),
        }),
{
    match outcome {
        Ok(value) => Ok(value),
        Err(error) => Err(DispatchError::Tokens(error)),
    }
}

/// Reads what the account `pool` holds of `first` and of `second`.
fn read_reserves<L: MultiErc20>(
    tokens: &L,
    pool: &AccountId,
    first: TokenId,
    second: TokenId,
) -> (held: Result<(Balance, Balance), DispatchError>)
    requires
        tokens.inv(),
    ensures
        held == reserves(tokens.ledger(), *pool, first, second),
{
    let first_reserve = declined(tokens.balance_of(first, pool))?;
    let second_reserve = declined(tokens.balance_of(second, pool))?;
    Ok((first_reserve, second_reserve))
}

impl Pallet {
    /// What was fixed when the pool was initialized.
    pub fn pool(&self) -> (pool: Result<Pool, Error>)
        ensures
            pool == (match self@.pool {
                Some(pool) => Ok::<Pool, Error>(pool),
                None => Err::<Pool, Error>(Error::Uninitialized),
            }),
    {
        match self.pool {
            Some(pool) => Ok(pool),
            None => Err(Error::Uninitialized),
        }
    }

    /// The part of the pool that `account` withdraws with `share_percent`
    /// percent of its shares.
    fn share(&self, account: &AccountId, share_percent: u32) -> (share: Ratio)
        requires
            self.inv(),
        ensures
            share.parts() == share_parts(
                share_percent,
                self@.liquidity[*account],
                self@.total_liquidity,
            ),
    {
        let percent = Ratio::from_percent(share_percent);
        let stake = Ratio::from_rational(self.liquidity.get(account), self.total_liquidity);
        percent.times(stake)
    }

    /// Initializes the pool, see [`State::init`].
    pub fn init<L: MultiErc20>(
        &mut self,
        tokens: &mut L,
        sender: AccountId,
        pool_address: AccountId,
        first_token_id: TokenId,
        first_token_amount: Balance,
        second_token_id: TokenId,
        second_token_amount: Balance,
    ) -> (outcome: Result<Event, DispatchError>)
        requires
            old(self).inv(),
            old(tokens).inv(),
        ensures
            final(self).inv(),
            final(tokens).inv(),
            carried_out(
                old(self)@.init(
                    old(tokens).ledger(),
                    sender,
                    pool_address,
                    first_token_id,
                    first_token_amount,
                    second_token_id,
                    second_token_amount,
                ),
                old(self)@,
                old(tokens).ledger(),
                outcome,
                final(self)@,
                final(tokens).ledger(),
            ),
    {
        proof {
            tokens.lemma_ledger_wf();
            lemma_total_of_nothing(self.liquidity@);
        }
        let ghost before = tokens.ledger();
        refused(self.uninitialized())?;
        if first_token_amount == 0 || second_token_amount == 0 || pool_address == 0 {
            return Err(DispatchError::Dex(Error::WrongInitialization));
        }
        let first = Movement::pull(first_token_id, sender, pool_address, first_token_amount);
        let second = Movement::pull(second_token_id, sender, pool_address, second_token_amount);
        declined(settle(tokens, &first, &second))?;
        let total = match checked_add(first_token_amount, second_token_amount) {
            Ok(total) => total,
            Err(error) => {
                unsettle(tokens, &first, &second, Ghost(before));
                return Err(DispatchError::Dex(error));
            },
        };
        proof {
            lemma_total_of_insert(self.liquidity@, sender, total);
        }
        self.total_liquidity = total;
        self.liquidity.set(sender, total);
        self.pool = Some(
            Pool {
                address: pool_address,
                first_token: first_token_id,
                second_token: second_token_id,
            },
        );
        Ok(
            Event::Initialized(
                sender,
                pool_address,
                first_token_id,
                first_token_amount,
                second_token_id,
                second_token_amount,
            ),
        )
    }

    /// Swaps one asset for the other, see [`State::buy_token`].
    pub fn buy_token<L: MultiErc20>(
        &self,
        tokens: &mut L,
        sender: AccountId,
        token_id: TokenId,
        amount: Balance,
    ) -> (outcome: Result<Event, DispatchError>)
        requires
            self.inv(),
            old(tokens).inv(),
        ensures
            final(tokens).inv(),
            carried_out(
                self@.buy_token(old(tokens).ledger(), sender, token_id, amount),
                self@,
                old(tokens).ledger(),
                outcome,
                self@,
                final(tokens).ledger(),
            ),
    {
        let pool = refused(self.pool())?;
        let token_to_buy = refused(pool.other_token(token_id))?;
        refused(self.has_liquidity())?;
        let (input_reserve, output_reserve) = read_reserves(
            tokens,
            &pool.address,
            token_id,
            token_to_buy,
        )?;
        let bought = match price(amount, input_reserve, output_reserve) {
            Some(bought) => bought,
            None => {
                return Err(DispatchError::Dex(Error::Overflow));
            },
        };
        let paid = Movement::pull(token_id, sender, pool.address, amount);
        let returned = Movement::push(token_to_buy, pool.address, sender, bought);
        declined(settle(tokens, &paid, &returned))?;
        Ok(Event::TokenBought(sender, token_id, amount, token_to_buy, bought))
    }

    /// Deposits both assets in the pool's proportion, see [`State::deposit`].
    pub fn deposit<L: MultiErc20>(
        &mut self,
        tokens: &mut L,
        sender: AccountId,
        token_id: TokenId,
        amount: Balance,
    ) -> (outcome: Result<Event, DispatchError>)
        requires
            old(self).inv(),
            old(tokens).inv(),
        ensures
            final(self).inv(),
            final(tokens).inv(),
            carried_out(
                old(self)@.deposit(old(tokens).ledger(), sender, token_id, amount),
                old(self)@,
                old(tokens).ledger(),
                outcome,
                final(self)@,
                final(tokens).ledger(),
            ),
    {
        let pool = refused(self.pool())?;
        let second_token = refused(pool.other_token(token_id))?;
        let (first_reserve, second_reserve) = read_reserves(
            tokens,
            &pool.address,
            token_id,
            second_token,
        )?;
        let second_token_amount = refused(checked_mul_div(amount, second_reserve, first_reserve))?;
        let minted = refused(checked_add(amount, second_token_amount))?;
        proof {
            lemma_total_of_bounds(self@.liquidity, sender);
        }
        refused(self.increase_liquidity(&sender, minted))?;
        let first = Movement::pull(token_id, sender, pool.address, amount);
        let second = Movement::pull(second_token, sender, pool.address, second_token_amount);
        match settle(tokens, &first, &second) {
            Ok(()) => Ok(
                Event::Deposited(sender, token_id, amount, second_token, second_token_amount),
            ),
            Err(error) => {
                let _ = self.decrease_liquidity(&sender, minted);
                proof {
                    assert(self@.liquidity =~= old(self)@.liquidity);
                }
                Err(DispatchError::Tokens(error))
            },
        }
    }

    /// Withdraws from both reserves, see [`State::withdraw`].
    pub fn withdraw<L: MultiErc20>(
        &mut self,
        tokens: &mut L,
        sender: AccountId,
        share_percent: u32,
    ) -> (outcome: Result<Event, DispatchError>)
        requires
            old(self).inv(),
            old(tokens).inv(),
        ensures
            final(self).inv(),
            final(tokens).inv(),
            carried_out(
                old(self)@.withdraw(old(tokens).ledger(), sender, share_percent),
                old(self)@,
                old(tokens).ledger(),
                outcome,
                final(self)@,
                final(tokens).ledger(),
            ),
    {
        let pool = refused(self.pool())?;
        if share_percent == 0 || share_percent > 100 {
            return Err(DispatchError::Dex(Error::WrongShareValue));
        }
        let (first_reserve, second_reserve) = read_reserves(
            tokens,
            &pool.address,
            pool.first_token,
            pool.second_token,
        )?;
        let share = self.share(&sender, share_percent);
        let first_token_amount = share.mul_floor(first_reserve);
        let second_token_amount = share.mul_floor(second_reserve);
        let burned = share.mul_floor(self.total_liquidity);
        refused(self.decrease_liquidity(&sender, burned))?;
        let first = Movement::push(pool.first_token, pool.address, sender, first_token_amount);
        let second = Movement::push(pool.second_token, pool.address, sender, second_token_amount);
        match settle(tokens, &first, &second) {
            Ok(()) => Ok(
                Event::Withdrawn(
                    sender,
                    pool.first_token,
                    first_token_amount,
                    pool.second_token,
                    second_token_amount,
                ),
            ),
            Err(error) => {
                let _ = self.increase_liquidity(&sender, burned);
                proof {
                    assert(self@.liquidity =~= old(self)@.liquidity);
                }
                Err(DispatchError::Tokens(error))
            },
        }
    }

    /// Withdraws in one asset alone, see [`State::withdraw_single_token`].
    pub fn withdraw_single_token<L: MultiErc20>(
        &mut self,
        tokens: &mut L,
        sender: AccountId,
        token_id: TokenId,
        share_percent: u32,
    ) -> (outcome: Result<Event, DispatchError>)
        requires
            old(self).inv(),
            old(tokens).inv(),
        ensures
            final(self).inv(),
            final(tokens).inv(),
            carried_out(
                old(self)@.withdraw_single_token(
                    old(tokens).ledger(),
                    sender,
                    token_id,
                    share_percent,
                ),
                old(self)@,
                old(tokens).ledger(),
                outcome,
                final(self)@,
                final(tokens).ledger(),
            ),
    {
        let pool = refused(self.pool())?;
        if share_percent == 0 || share_percent > 100 {
            return Err(DispatchError::Dex(Error::WrongShareValue));
        }
        let other_token = refused(pool.other_token(token_id))?;
        let (reserve, other_reserve) = read_reserves(
            tokens,
            &pool.address,
            token_id,
            other_token,
        )?;
        let share = self.share(&sender, share_percent);
        let amount = share.mul_floor(reserve);
        let other_amount = share.mul_floor(other_reserve);
        let burned = share.mul_floor(self.total_liquidity);
        let bought = match price(other_amount, other_reserve, reserve - amount) {
            Some(bought) => bought,
            None => {
                return Err(DispatchError::Dex(Error::Overflow));
            },
        };
        let paid = refused(checked_add(amount, bought))?;
        refused(self.decrease_liquidity(&sender, burned))?;
        match tokens.transfer_from_to(&token_id, &pool.address, &sender, paid) {
            Ok(()) => Ok(Event::Withdrawn(sender, token_id, paid, other_token, 0)),
            Err(error) => {
                let _ = self.increase_liquidity(&sender, burned);
                proof {
                    assert(self@.liquidity =~= old(self)@.liquidity);
                }
                Err(DispatchError::Tokens(error))
            },
        }
    }

    /// Carries out `call`, see [`State::step`].
    pub fn dispatch<L: MultiErc20>(&mut self, tokens: &mut L, call: Call) -> (outcome: Result<
        Event,
        DispatchError,
    >)
        requires
            old(self).inv(),
            old(tokens).inv(),
        ensures
            final(self).inv(),
            final(tokens).inv(),
            carried_out(
                old(self)@.step(old(tokens).ledger(), call),
                old(self)@,
                old(tokens).ledger(),
                outcome,
                final(self)@,
                final(tokens).ledger(),
            ),
    {
        match call {
            Call::Init {
                sender,
                pool_address,
                first_token_id,
                first_token_amount,
                second_token_id,
                second_token_amount,
            } => self.init(
                tokens,
                sender,
                pool_address,
                first_token_id,
                first_token_amount,
                second_token_id,
                second_token_amount,
            ),
            Call::BuyToken { sender, token_id, amount } => self.buy_token(
                tokens,
                sender,
                token_id,
                amount,
            ),
            Call::Deposit { sender, token_id, amount } => self.deposit(
                tokens,
                sender,
                token_id,
                amount,
            ),
            Call::Withdraw { sender, share_percent } => self.withdraw(
                tokens,
                sender,
                share_percent,
            ),
            Call::WithdrawSingleToken {
                sender,
                token_id,
                share_percent,
            } => self.withdraw_single_token(tokens, sender, token_id, share_percent),
        }
    }

    /// What the pool has earned in fees, see [`State::total_reward`].
    pub fn get_total_reward<L: MultiErc20>(&self, tokens: &L) -> (reward: Result<
        Balance,
        DispatchError,
    >)
        requires
            self.inv(),
            tokens.inv(),
        ensures
            reward == self@.total_reward(tokens.ledger()),
    {
        let pool = refused(self.pool())?;
        let (first_reserve, second_reserve) = read_reserves(
            tokens,
            &pool.address,
            pool.first_token,
            pool.second_token,
        )?;
        let held = refused(checked_add(first_reserve, second_reserve))?;
        refused(checked_sub(held, self.total_liquidity))
    }
}

} // verus!
