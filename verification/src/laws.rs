//! What holds of the pool whatever is asked of it.
//!
//! The proofs here are about the model of the pool, [`State`], which the
//! operations of [`crate::dex::Pallet`] are proved to follow.
use crate::dex::{part_of, reserves, share_parts, Call, Event, State};
use crate::pricing::{
    lemma_net_of_fee_bounded, lemma_price_keeps_product, mul_div, net_of_fee, price_of,
};
use crate::ratio::{
    lemma_mul_floor_bounds, lemma_mul_floor_whole, lemma_product_parts_bounded,
    lemma_rational_parts_bounded, lemma_rational_parts_whole, rational_parts, ACCURACY, PERCENT,
};
use crate::table::{
    lemma_total_of_bounds, lemma_total_of_insert, lemma_total_of_nothing, support, total_of,
    Balance,
};
use crate::traits::{AccountId, Ledger, TokenId};
use vstd::arithmetic::div_mod::lemma_fundamental_div_mod;
use vstd::prelude::*;

verus! {

/// The pool after `calls`, each made on the ledger that goes with it; a call
/// that fails changes nothing.
pub open spec fn after(calls: Seq<(Ledger, Call)>) -> State
    decreases calls.len(),
{
    if calls.len() == 0 {
        State::empty()
    } else {
        let (ledger, call) = calls.last();
        let before = after(calls.drop_last());
        match before.step(ledger, call) {
            Ok(done) => done.state,
            Err(_) => before,
        }
    }
}

/// Giving shares to an account keeps the total the sum of all shares.
pub proof fn lemma_credited_wf(state: State, owner: AccountId, amount: Balance)
    requires
        state.wf(),
        state.credited(owner, amount) is Ok,
    ensures
        state.credited(owner, amount)->Ok_0.wf(),
{
    lemma_total_of_bounds(state.liquidity, owner);
    lemma_total_of_insert(state.liquidity, owner, (state.liquidity[owner] + amount) as Balance);
}

/// Taking shares from an account keeps the total the sum of all shares.
pub proof fn lemma_debited_wf(state: State, owner: AccountId, amount: Balance)
    requires
        state.wf(),
        state.debited(owner, amount) is Ok,
    ensures
        state.debited(owner, amount)->Ok_0.wf(),
{
    lemma_total_of_bounds(state.liquidity, owner);
    lemma_total_of_insert(state.liquidity, owner, (state.liquidity[owner] - amount) as Balance);
}

/// No operation breaks what holds of every pool: after it the total of the
/// shares is still the sum of the shares of all accounts.
pub proof fn lemma_step_keeps_wf(state: State, ledger: Ledger, call: Call)
    requires
        state.wf(),
        state.step(ledger, call) is Ok,
    ensures
        state.step(ledger, call)->Ok_0.state.wf(),
{
    match call {
        Call::Init { sender, first_token_amount, second_token_amount, .. } => {
            lemma_total_of_nothing(state.liquidity);
            lemma_total_of_insert(
                state.liquidity,
                sender,
                (first_token_amount + second_token_amount) as Balance,
            );
        },
        Call::BuyToken { .. } => {},
        Call::Deposit { sender, token_id, amount } => {
            let pool = state.pool->Some_0;
            let other = pool.paired(token_id)->Some_0;
            let held = reserves(ledger, pool.address, token_id, other)->Ok_0;
            let matching = mul_div(amount, held.1, held.0)->Ok_0;
            lemma_credited_wf(state, sender, (amount + matching) as Balance);
        },
        Call::Withdraw { sender, share_percent } => {
            let parts = share_parts(share_percent, state.liquidity[sender], state.total_liquidity);
            lemma_debited_wf(state, sender, part_of(parts, state.total_liquidity));
        },
        Call::WithdrawSingleToken { sender, share_percent, .. } => {
            let parts = share_parts(share_percent, state.liquidity[sender], state.total_liquidity);
            lemma_debited_wf(state, sender, part_of(parts, state.total_liquidity));
        },
    }
}

/// Once the pool is initialized, no operation changes its account or its
/// assets.
pub proof fn lemma_pool_is_fixed(state: State, ledger: Ledger, call: Call)
    requires
        state.pool is Some,
        state.step(ledger, call) is Ok,
    ensures
        state.step(ledger, call)->Ok_0.state.pool == state.pool,
{
}

/// In every state that the pool can reach, by whatever calls on whatever
/// ledgers, the total of the shares is the sum of the shares of all accounts.
pub proof fn lemma_shares_add_up(calls: Seq<(Ledger, Call)>)
    ensures
        after(calls).wf(),
        after(calls).total_liquidity == total_of(after(calls).liquidity),
    decreases calls.len(),
{
    if calls.len() == 0 {
        assert(support(State::empty().liquidity) =~= Set::<AccountId>::empty());
    } else {
        let (ledger, call) = calls.last();
        let before = after(calls.drop_last());
        lemma_shares_add_up(calls.drop_last());
        if before.step(ledger, call) is Ok {
            lemma_step_keeps_wf(before, ledger, call);
        }
    }
}

/// A swap never lowers the product of the pool's two reserves: after it the
/// product of what the pool holds of the asset paid in and of the asset paid
/// out is at least what it was. Where the pool held something of the asset paid
/// in, the fee makes the product greater than it was.
pub proof fn lemma_buy_token_keeps_product(
    state: State,
    ledger: Ledger,
    sender: AccountId,
    token: TokenId,
    amount: Balance,
)
    requires
        ledger.wf(),
        state.buy_token(ledger, sender, token, amount) is Ok,
    ensures
        ({
            let pool = state.pool->Some_0;
            let other = pool.paired(token)->Some_0;
            let swapped = state.buy_token(ledger, sender, token, amount)->Ok_0.ledger;
            let before = ledger.balance(token, pool.address) * ledger.balance(
                other,
                pool.address,
            );
            let after = swapped.balance(token, pool.address) * swapped.balance(
                other,
                pool.address,
            );
            &&& after >= before
            &&& ledger.balance(token, pool.address) > 0 ==> after > before
        }),
{
    let pool = state.pool->Some_0;
    let other = pool.paired(token)->Some_0;
    let held = ledger.balance(token, pool.address);
    let reserve = ledger.balance(other, pool.address);
    lemma_price_keeps_product(amount, held, reserve);
    lemma_net_of_fee_bounded(amount);
    let net = net_of_fee(amount);
    let bought = price_of(amount, held, reserve)->Some_0;
    let swapped = state.buy_token(ledger, sender, token, amount)->Ok_0.ledger;
    assert(amount > 0 && bought > 0);
    if token == other {
        let now = swapped.balance(token, pool.address);
        assert(now == held + amount - bought);
        assert(bought <= net) by (nonlinear_arith)
            requires
                (held + net) * (held - bought) >= held * held,
                bought <= held,
                held >= 0,
                net >= 0,
                bought >= 0,
        ;
        assert(now * now >= held * held && (now > held ==> now * now > held * held))
            by (nonlinear_arith)
            requires
                now >= held,
                held >= 0,
        ;
    } else {
        assert(swapped.balance(token, pool.address) == held + amount);
        assert(swapped.balance(other, pool.address) == reserve - bought);
    }
}

/// Whether an account that holds all shares can withdraw all of them: there are
/// shares, the pool trades two different assets and both are initialized, the
/// pool holds something of each, the account is not the pool's own, and it can
/// hold what the pool holds on top of what it has.
pub open spec fn can_drain(state: State, ledger: Ledger, sender: AccountId) -> bool {
    match state.pool {
        None => false,
        Some(pool) => {
            let first = ledger.balance(pool.first_token, pool.address);
            let second = ledger.balance(pool.second_token, pool.address);
            &&& state.total_liquidity > 0
            &&& pool.first_token != pool.second_token
            &&& sender != pool.address
            &&& ledger.is_initialized(pool.first_token)
            &&& ledger.is_initialized(pool.second_token)
            &&& first > 0
            &&& second > 0
            &&& ledger.balance(pool.first_token, sender) + first <= Balance::MAX
            &&& ledger.balance(pool.second_token, sender) + second <= Balance::MAX
        },
    }
}

/// An account that holds all shares can withdraw all of them exactly where
/// [`can_drain`] says; it is then paid all of both reserves and leaves a pool
/// without shares.
pub proof fn lemma_last_provider_drains(state: State, ledger: Ledger, sender: AccountId)
    requires
        state.wf(),
        ledger.wf(),
        state.liquidity[sender] == state.total_liquidity,
    ensures
        state.withdraw(ledger, sender, 100) is Ok <==> can_drain(state, ledger, sender),
        state.withdraw(ledger, sender, 100) is Ok ==> ({
            let done = state.withdraw(ledger, sender, 100)->Ok_0;
            let pool = state.pool->Some_0;
            &&& done.state.total_liquidity == 0
            &&& forall|account: AccountId| done.state.liquidity[account] == 0
            &&& done.event == Event::Withdrawn(
                sender,
                pool.first_token,
                ledger.balance(pool.first_token, pool.address),
                pool.second_token,
                ledger.balance(pool.second_token, pool.address),
            )
            &&& done.ledger.balance(pool.first_token, pool.address) == 0
            &&& done.ledger.balance(pool.second_token, pool.address) == 0
        }),
{
    if state.pool is Some {
        let total = state.total_liquidity;
        let pool = state.pool->Some_0;
        let first = ledger.balance(pool.first_token, pool.address);
        let second = ledger.balance(pool.second_token, pool.address);
        let parts = share_parts(100, total, total);
        if total == 0 {
            assert(rational_parts(0, 0) == 0) by (nonlinear_arith)
                requires
                    rational_parts(0, 0) == (0nat / 1) * (ACCURACY as nat) / (1nat / 1),
            ;
            assert(parts == 0) by (nonlinear_arith)
                requires
                    parts == 100 * (PERCENT as nat) * 0 / (ACCURACY as nat),
            ;
            assert(0 * (first as nat) == 0);
            assert(part_of(parts, first) == 0);
        } else {
            lemma_rational_parts_whole(total as nat);
            assert(parts == ACCURACY) by (nonlinear_arith)
                requires
                    parts == 100 * (PERCENT as nat) * (ACCURACY as nat) / (ACCURACY as nat),
                    PERCENT == 10_000_000,
                    ACCURACY == 1_000_000_000,
            ;
            lemma_mul_floor_whole(total as nat);
            lemma_mul_floor_whole(first as nat);
            lemma_mul_floor_whole(second as nat);
            assert(part_of(parts, total) == total);
            assert(part_of(parts, first) == first);
            assert(part_of(parts, second) == second);
            if state.withdraw(ledger, sender, 100) is Ok {
                let done = state.withdraw(ledger, sender, 100)->Ok_0;
                lemma_debited_wf(state, sender, total);
                lemma_total_of_nothing(done.state.liquidity);
            }
        }
    }
}

/// Two amounts that are the same part of two reserves, each rounded down, are
/// in the proportion of the reserves after a deposit, and so in the proportion
/// of what was deposited, up to what rounding down can take.
proof fn lemma_parts_in_ratio(
    paid: int,
    matched: int,
    held: int,
    reserve: int,
    parts: int,
    back: int,
    back_matched: int,
)
    requires
        0 <= paid,
        0 <= reserve,
        0 < held,
        matched == (paid * reserve) / held,
        0 <= parts <= ACCURACY,
        back * ACCURACY <= parts * (held + paid) < back * ACCURACY + ACCURACY,
        back_matched * ACCURACY <= parts * (reserve + matched) < back_matched * ACCURACY
            + ACCURACY,
    ensures
        back * matched - back_matched * paid <= paid,
        back_matched * paid - back * matched <= matched + held,
{
    let acc = ACCURACY as int;
    let short = paid * reserve - matched * held;
    lemma_fundamental_div_mod(paid * reserve, held);
    assert(0 <= short < held && matched >= 0) by (nonlinear_arith)
        requires
            paid * reserve == held * matched + (paid * reserve) % held,
            0 <= (paid * reserve) % held < held,
            short == paid * reserve - matched * held,
            paid * reserve >= 0,
            held > 0,
    ;
    let first = back * acc - parts * (held + paid);
    let second = back_matched * acc - parts * (reserve + matched);
    let both = paid * matched;
    let kept = held * matched;
    let owed = reserve * paid;
    let cross = back * matched - back_matched * paid;
    // first * matched, term by term
    let whole = back * acc;
    let taken = parts * (held + paid);
    assert(first * matched == whole * matched - taken * matched) by (nonlinear_arith)
        requires
            first == whole - taken,
    ;
    assert(whole * matched == acc * (back * matched)) by (nonlinear_arith)
        requires
            whole == back * acc,
    ;
    assert((held + paid) * matched == kept + both) by (nonlinear_arith)
        requires
            kept == held * matched,
            both == paid * matched,
    ;
    assert(taken * matched == parts * (kept + both)) by (nonlinear_arith)
        requires
            taken == parts * (held + paid),
            (held + paid) * matched == kept + both,
    ;
    assert(parts * (kept + both) == parts * kept + parts * both) by (nonlinear_arith);
    // second * paid, term by term
    let whole_matched = back_matched * acc;
    let taken_matched = parts * (reserve + matched);
    assert(second * paid == whole_matched * paid - taken_matched * paid) by (nonlinear_arith)
        requires
            second == whole_matched - taken_matched,
    ;
    assert(whole_matched * paid == acc * (back_matched * paid)) by (nonlinear_arith)
        requires
            whole_matched == back_matched * acc,
    ;
    assert((reserve + matched) * paid == owed + both) by (nonlinear_arith)
        requires
            owed == reserve * paid,
            both == paid * matched,
    ;
    assert(taken_matched * paid == parts * (owed + both)) by (nonlinear_arith)
        requires
            taken_matched == parts * (reserve + matched),
            (reserve + matched) * paid == owed + both,
    ;
    assert(parts * (owed + both) == parts * owed + parts * both) by (nonlinear_arith);
    assert(short == owed - kept) by (nonlinear_arith)
        requires
            short == paid * reserve - matched * held,
            owed == reserve * paid,
            kept == held * matched,
    ;
    assert(parts * short == parts * owed - parts * kept) by (nonlinear_arith)
        requires
            short == owed - kept,
    ;
    assert(acc * cross == acc * (back * matched) - acc * (back_matched * paid))
        by (nonlinear_arith)
        requires
            cross == back * matched - back_matched * paid,
    ;
    assert(acc * cross == first * matched - second * paid - parts * short);
    assert(first * matched <= 0 && first * matched >= -(acc * matched)) by (nonlinear_arith)
        requires
            -acc < first <= 0,
            matched >= 0,
    ;
    assert(second * paid <= 0 && second * paid >= -(acc * paid)) by (nonlinear_arith)
        requires
            -acc < second <= 0,
            paid >= 0,
    ;
    assert(0 <= parts * short <= acc * held) by (nonlinear_arith)
        requires
            0 <= parts <= acc,
            0 <= short < held,
    ;
    assert(cross <= paid && -cross <= matched + held) by (nonlinear_arith)
        requires
            acc * cross == first * matched - second * paid - parts * short,
            first * matched <= 0,
            first * matched >= -(acc * matched),
            second * paid <= 0,
            second * paid >= -(acc * paid),
            0 <= parts * short <= acc * held,
            acc == 1_000_000_000,
    ;
}

/// A withdrawal that follows a deposit at once pays out the two assets in the
/// ratio in which they were deposited, up to rounding: with `paid` and `matched`
/// for the two amounts deposited, `back` and `back_matched` for what is paid out
/// of the same two assets, and `held` for what the pool held of the first asset
/// before the deposit, `back * matched` exceeds `back_matched * paid` by no more
/// than `paid`, and falls short of it by no more than `matched + held`.
pub proof fn lemma_withdraw_returns_deposit_ratio(
    state: State,
    ledger: Ledger,
    sender: AccountId,
    token: TokenId,
    amount: Balance,
    share_percent: u32,
)
    requires
        state.wf(),
        ledger.wf(),
        state.deposit(ledger, sender, token, amount) is Ok,
        ({
            let deposited = state.deposit(ledger, sender, token, amount)->Ok_0;
            deposited.state.withdraw(deposited.ledger, sender, share_percent) is Ok
        }),
    ensures
        ({
            let pool = state.pool->Some_0;
            let held = ledger.balance(token, pool.address);
            let deposited = state.deposit(ledger, sender, token, amount)->Ok_0;
            let withdrawn = deposited.state.withdraw(deposited.ledger, sender, share_percent)->Ok_0;
            let paid = deposited.event->Deposited_2;
            let matched = deposited.event->Deposited_4;
            let back = if token == pool.first_token {
                withdrawn.event->Withdrawn_2
            } else {
                withdrawn.event->Withdrawn_4
            };
            let back_matched = if token == pool.first_token {
                withdrawn.event->Withdrawn_4
            } else {
                withdrawn.event->Withdrawn_2
            };
            &&& deposited.event is Deposited
            &&& withdrawn.event is Withdrawn
            &&& paid == amount
            &&& back * matched - back_matched * paid <= paid
            &&& back_matched * paid - back * matched <= matched + held
        }),
{
    let pool = state.pool->Some_0;
    let other = pool.paired(token)->Some_0;
    let held = ledger.balance(token, pool.address);
    let reserve = ledger.balance(other, pool.address);
    let matched = mul_div(amount, reserve, held)->Ok_0;
    let deposited = state.deposit(ledger, sender, token, amount)->Ok_0;
    let withdrawn = deposited.state.withdraw(deposited.ledger, sender, share_percent)->Ok_0;
    let parts = share_parts(
        share_percent,
        deposited.state.liquidity[sender],
        deposited.state.total_liquidity,
    );
    lemma_share_parts_bounded(
        share_percent,
        deposited.state.liquidity[sender],
        deposited.state.total_liquidity,
    );
    let now = deposited.ledger.balance(token, pool.address);
    let now_other = deposited.ledger.balance(other, pool.address);
    let back = part_of(parts, now);
    let back_matched = part_of(parts, now_other);
    lemma_mul_floor_bounds(parts, now as nat);
    lemma_mul_floor_bounds(parts, now_other as nat);
    if token == other {
        assert(matched == amount) by (nonlinear_arith)
            requires
                matched == (amount * held) / (held as int),
                held > 0,
        ;
    } else {
        assert(now == held + amount);
        assert(now_other == reserve + matched);
        lemma_parts_in_ratio(
            amount as int,
            matched as int,
            held as int,
            reserve as int,
            parts as int,
            back as int,
            back_matched as int,
        );
    }
}

/// The part of the pool that an account withdraws is a fraction.
pub proof fn lemma_share_parts_bounded(share_percent: u32, held: Balance, total: Balance)
    ensures
        share_parts(share_percent, held, total) <= ACCURACY,
{
    lemma_rational_parts_bounded(held as nat, total as nat);
    let percent: nat = if share_percent > 100 {
        100
    } else {
        share_percent as nat
    };
    lemma_product_parts_bounded(
        percent * (PERCENT as nat),
        rational_parts(held as nat, total as nat),
    );
}

} // verus!
