//! Checked arithmetic on balances and the price of a swap.
//!
//! A swap is priced on a constant-product curve. The fee, one percent of what
//! comes in, is taken before the price is formed and stays in the pool.
use crate::dex::Error;
use crate::ratio::{lemma_mul_floor_bounds, Ratio, ACCURACY, PERCENT};
use crate::table::Balance;
use vstd::arithmetic::div_mod::lemma_fundamental_div_mod;
use vstd::prelude::*;

verus! {

/// The percentage of an incoming amount that takes part in the swap.
pub const FEE: u32 = 99;

/// `a + b`, unless it exceeds what a [`Balance`] holds.
pub open spec fn added(a: Balance, b: Balance) -> Result<Balance, Error> {
    if a + b <= Balance::MAX {
        Ok((a + b) as Balance)
    } else {
        Err(Error::Overflow)
    }
}

/// `a - b`, unless `b` exceeds `a`.
pub open spec fn subtracted(a: Balance, b: Balance) -> Result<Balance, Error> {
    if b <= a {
        Ok((a - b) as Balance)
    } else {
        Err(Error::Overflow)
    }
}

/// `a * b / c` rounded down, unless `c` is zero or the product exceeds what a
/// [`Balance`] holds.
pub open spec fn mul_div(a: Balance, b: Balance, c: Balance) -> Result<Balance, Error> {
    if c != 0 && a * b <= Balance::MAX {
        Ok((a * b / (c as int)) as Balance)
    } else {
        Err(Error::Overflow)
    }
}

/// `a + b`, or [`Error::Overflow`].
pub fn checked_add(a: Balance, b: Balance) -> (sum: Result<Balance, Error>)
    ensures
        sum == added(a, b),
{
    match a.checked_add(b) {
        Some(sum) => Ok(sum),
        None => Err(Error::Overflow),
    }
}

/// `a - b`, or [`Error::Overflow`].
pub fn checked_sub(a: Balance, b: Balance) -> (difference: Result<Balance, Error>)
    ensures
        difference == subtracted(a, b),
{
    match a.checked_sub(b) {
        Some(difference) => Ok(difference),
        None => Err(Error::Overflow),
    }
}

/// `a * b / c` rounded down, or [`Error::Overflow`].
pub fn checked_mul_div(a: Balance, b: Balance, c: Balance) -> (quotient: Result<Balance, Error>)
    ensures
        quotient == mul_div(a, b, c),
{
    if c == 0 {
        return Err(Error::Overflow);
    }
    match a.checked_mul(b) {
        Some(product) => Ok(product / c),
        None => Err(Error::Overflow),
    }
}

/// What is left of `amount` once the fee is taken: 99 percent of it, rounded
/// down.
pub open spec fn net_of_fee(amount: Balance) -> Balance {
    ((FEE * PERCENT) as nat * (amount as nat) / (ACCURACY as nat)) as Balance
}

/// What `input_amount` of one asset buys of the other, given the pool's reserves
/// of both: with `net` for the input less the fee,
/// `net * output_reserve / (input_reserve + net)`, rounded down.
///
/// There is no price where the reserve and the net input are both zero, nor
/// where their sum or the product exceeds what a [`Balance`] holds.
pub open spec fn price_of(
    input_amount: Balance,
    input_reserve: Balance,
    output_reserve: Balance,
) -> Option<Balance> {
    let net = net_of_fee(input_amount);
    if input_reserve + net > Balance::MAX {
        None
    } else {
        match mul_div(net, output_reserve, (input_reserve + net) as Balance) {
            Ok(bought) => Some(bought),
            Err(_) => None,
        }
    }
}

/// The price of a swap: what `input_amount` buys.
pub fn price(input_amount: Balance, input_reserve: Balance, output_reserve: Balance) -> (bought:
    Option<Balance>)
    ensures
        bought == price_of(input_amount, input_reserve, output_reserve),
{
    let net = Ratio::from_percent(FEE).mul_floor(input_amount);
    let pooled = match checked_add(input_reserve, net) {
        Ok(pooled) => pooled,
        Err(_) => {
            return None;
        },
    };
    match checked_mul_div(net, output_reserve, pooled) {
        Ok(bought) => Some(bought),
        Err(_) => None,
    }
}

/// The fee is a hundredth of the amount or more: a hundred times what is left is
/// at most ninety-nine times the amount, so that something is taken of every
/// amount but zero.
pub proof fn lemma_net_of_fee_bounded(amount: Balance)
    ensures
        100 * net_of_fee(amount) <= 99 * amount,
        net_of_fee(amount) <= amount,
        amount > 0 ==> net_of_fee(amount) < amount,
{
    let parts = (FEE * PERCENT) as nat;
    let net = parts * (amount as nat) / (ACCURACY as nat);
    lemma_mul_floor_bounds(parts, amount as nat);
    assert(net == net_of_fee(amount));
    assert(net * 1_000_000_000 <= 990_000_000 * amount) by (nonlinear_arith)
        requires
            net * ACCURACY <= parts * (amount as nat),
            parts == 990_000_000,
            ACCURACY == 1_000_000_000,
    ;
}

/// What a swap does to the pool, with `bought` for what `input_amount` buys and
/// `net` for the input less the fee.
///
/// * It never takes more than the pool holds.
/// * It never pays more than the exact price: `bought` is at most
///   `0.99 * input_amount * output_reserve / (input_reserve + 0.99 * input_amount)`.
/// * It keeps the product of the two reserves. Counted without the fee, with
///   `net` added to one reserve and `bought` taken off the other, the product
///   stays what it was, but for what rounding `bought` down adds to it.
///   Counted with the fee, with all of `input_amount` added, it is at least
///   what it was, and more where both reserves and the input are positive.
pub proof fn lemma_price_keeps_product(
    input_amount: Balance,
    input_reserve: Balance,
    output_reserve: Balance,
)
    requires
        price_of(input_amount, input_reserve, output_reserve) is Some,
    ensures
        ({
            let bought = price_of(input_amount, input_reserve, output_reserve)->Some_0;
            let net = net_of_fee(input_amount);
            &&& bought <= output_reserve
            &&& bought * (100 * input_reserve + 99 * input_amount) <= 99 * input_amount
                * output_reserve
            &&& (input_reserve + net) * (output_reserve - bought) >= input_reserve
                * output_reserve
            &&& (input_reserve + net) * (output_reserve - bought) < input_reserve
                * output_reserve + input_reserve + net
            &&& (input_reserve + input_amount) * (output_reserve - bought) >= input_reserve
                * output_reserve
            &&& input_reserve > 0 && output_reserve > 0 && input_amount > 0 ==> (input_reserve
                + input_amount) * (output_reserve - bought) > input_reserve * output_reserve
        }),
{
    lemma_net_of_fee_bounded(input_amount);
    let net = net_of_fee(input_amount) as int;
    let pooled = input_reserve + net;
    let bought = price_of(input_amount, input_reserve, output_reserve)->Some_0 as int;
    let reserve = output_reserve as int;
    let amount = input_amount as int;
    let held = input_reserve as int;
    assert(bought == (net * reserve) / pooled);
    lemma_fundamental_div_mod(net * reserve, pooled);
    assert(bought * pooled <= net * reserve && bought <= reserve) by (nonlinear_arith)
        requires
            net * reserve == pooled * bought + (net * reserve) % pooled,
            0 <= (net * reserve) % pooled < pooled,
            pooled == held + net,
            pooled > 0,
            held >= 0,
            net >= 0,
            reserve >= 0,
    ;
    assert(pooled * (reserve - bought) == held * reserve + (net * reserve) % pooled)
        by (nonlinear_arith)
        requires
            net * reserve == pooled * bought + (net * reserve) % pooled,
            pooled == held + net,
    ;
    assert((held + amount) * (reserve - bought) >= held * reserve) by (nonlinear_arith)
        requires
            bought * pooled <= net * reserve,
            pooled == held + net,
            net <= amount,
            bought <= reserve,
            held >= 0,
            net >= 0,
    ;
    // the exact price is formed from no less than `net`
    let left = reserve - bought;
    assert(bought * held <= net * left) by (nonlinear_arith)
        requires
            bought * pooled <= net * reserve,
            pooled == held + net,
            left == reserve - bought,
    ;
    assert(100 * (net * left) <= (99 * amount) * left) by (nonlinear_arith)
        requires
            100 * net <= 99 * amount,
            left >= 0,
    ;
    assert(bought * (100 * held + 99 * amount) <= 99 * amount * reserve) by (nonlinear_arith)
        requires
            bought * held <= net * left,
            100 * (net * left) <= (99 * amount) * left,
            left == reserve - bought,
    ;
    if held > 0 && reserve > 0 && amount > 0 {
        assert(bought < reserve) by (nonlinear_arith)
            requires
                bought * pooled <= net * reserve,
                pooled == held + net,
                held > 0,
                reserve > 0,
                net >= 0,
                bought <= reserve,
        ;
        assert((held + amount) * left > held * reserve) by (nonlinear_arith)
            requires
                pooled * left >= held * reserve,
                pooled == held + net,
                net < amount,
                left >= 1,
        ;
    }
}

} // verus!
