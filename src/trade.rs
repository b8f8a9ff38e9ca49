//! Buying and selling outcome tokens against the bonding curve.
//!
//! A buy takes its fee from the deposit before the curve sees it; a sell
//! takes its fee from the curve's output. On a sell the full pre-fee amount
//! leaves the reserves.
use vstd::prelude::*;

use crate::bonding_curve::{
    AmmError, BPS_DENOMINATOR, PythagoreanCurve, mint_outcome, release_outcome,
};
use crate::curve_laws::{
    lemma_burn_stays_near_curve, lemma_curve_symmetric, lemma_mint_stays_near_curve,
    lemma_mint_then_burn, near_curve,
};
use crate::fixed_point::{PRECISION_SCALE, scale_down};
use crate::state::{Config, Market, MarketStatus, before_end, is_before_end};

verus! {

/// Why a trade was refused.
#[derive(Clone, Copy, Debug, PartialEq, Eq, Structural)]
pub enum TradeError {
    /// The market's status is not `Active`.
    MarketNotActive,
    /// The market's end time has passed.
    MarketEnded,
    /// The protocol is paused.
    ProtocolPaused,
    /// The output is below the caller's minimum.
    SlippageExceeded,
    /// The bonding curve refused the trade, or the ledger would overflow.
    Amm(AmmError),
}

/// The fee on `amount`: `floor(amount · fee_bps / 10000)`.
pub open spec fn fee_of(amount: u64, fee_bps: u64) -> nat {
    (amount as nat) * (fee_bps as nat) / (BPS_DENOMINATOR as nat)
}

/// `amount` less its fee.
pub open spec fn after_fee(amount: u64, fee_bps: u64) -> u64 {
    (amount - fee_of(amount, fee_bps)) as u64
}

/// The gates every trade passes first, in order.
pub open spec fn trade_gate(config: Config, market: Market, now: i64) -> Option<TradeError> {
    if market.status != MarketStatus::Active {
        Some(TradeError::MarketNotActive)
    } else if !before_end(now, market.end_time) {
        Some(TradeError::MarketEnded)
    } else if config.paused {
        Some(TradeError::ProtocolPaused)
    } else {
        None
    }
}

/// What [`Trade::buy_tokens`] returns.
pub open spec fn buy_outcome(
    config: Config,
    market: Market,
    now: i64,
    amount: u64,
    buy_yes: bool,
    min_tokens_out: u64,
) -> Result<u64, TradeError> {
    let net = after_fee(amount, config.protocol_fee_bps);
    let (target, other) = market.sides(buy_yes);
    match trade_gate(config, market, now) {
        Some(e) => Err(e),
        None => match mint_outcome(market.reserves, target, other, net) {
            Err(e) => Err(TradeError::Amm(e)),
            Ok(tokens) => if tokens < min_tokens_out {
                Err(TradeError::SlippageExceeded)
            } else if market.reserves + net > u64::MAX || target + tokens > u64::MAX {
                Err(TradeError::Amm(AmmError::Overflow))
            } else {
                Ok(tokens)
            },
        },
    }
}

/// What [`Trade::sell_tokens`] returns.
pub open spec fn sell_outcome(
    config: Config,
    market: Market,
    now: i64,
    amount: u64,
    sell_yes: bool,
    min_collateral_out: u64,
) -> Result<u64, TradeError> {
    let (target, other) = market.sides(sell_yes);
    match trade_gate(config, market, now) {
        Some(e) => Err(e),
        None => match release_outcome(market.reserves, target, other, amount) {
            Err(e) => Err(TradeError::Amm(e)),
            Ok(collateral) => if after_fee(collateral, config.protocol_fee_bps)
                < min_collateral_out {
                Err(TradeError::SlippageExceeded)
            } else {
                Ok(after_fee(collateral, config.protocol_fee_bps))
            },
        },
    }
}

/// The ledger after a sell of `amount` tokens that the curve accepts: the
/// curve's full output leaves the reserves, the tokens leave the supply.
pub open spec fn sold(market: Market, amount: u64, sell_yes: bool) -> Market {
    let (target, other) = market.sides(sell_yes);
    match release_outcome(market.reserves, target, other, amount) {
        Ok(collateral) => market.with_side(
            sell_yes,
            (market.reserves - collateral) as u64,
            (target - amount) as u64,
        ),
        Err(_) => market,
    }
}

/// The ledger after a buy that minted `tokens` for `amount`.
pub open spec fn bought(config: Config, market: Market, amount: u64, buy_yes: bool, tokens: u64) -> Market {
    market.with_side(
        buy_yes,
        (market.reserves + after_fee(amount, config.protocol_fee_bps)) as u64,
        (market.sides(buy_yes).0 + tokens) as u64,
    )
}

/// Buying with `amount` and at once selling back every token bought pays
/// the trader no more than `amount`, when the reserves were not above the
/// curve and the remainders below the scale of the reserves and of the
/// deposit after fee do not carry.
pub proof fn lemma_buy_then_sell(
    config: Config,
    market: Market,
    now: i64,
    amount: u64,
    yes: bool,
    min_tokens_out: u64,
    tokens: u64,
    min_collateral_out: u64,
)
    requires
        config.protocol_fee_bps <= BPS_DENOMINATOR,
        buy_outcome(config, market, now, amount, yes, min_tokens_out) == Ok::<u64, TradeError>(
            tokens,
        ),
        (market.reserves as nat) % (PRECISION_SCALE as nat) + (after_fee(
            amount,
            config.protocol_fee_bps,
        ) as nat) % (PRECISION_SCALE as nat) < PRECISION_SCALE,
        scale_down(market.reserves) * scale_down(market.reserves) <= scale_down(market.yes_supply)
            * scale_down(market.yes_supply) + scale_down(market.no_supply) * scale_down(
            market.no_supply,
        ),
    ensures
        sell_outcome(
            config,
            bought(config, market, amount, yes, tokens),
            now,
            tokens,
            yes,
            min_collateral_out,
        ) matches Ok(paid) ==> paid <= amount,
{
    let net = after_fee(amount, config.protocol_fee_bps);
    let (target, other) = market.sides(yes);
    assert(fee_of(amount, config.protocol_fee_bps) <= amount) by (nonlinear_arith)
        requires
            config.protocol_fee_bps <= 10000,
    ;
    lemma_mint_then_burn(market.reserves, target, other, net, tokens);
    let after = bought(config, market, amount, yes, tokens);
    assert(after.sides(yes) == ((target + tokens) as u64, other));
    let collateral = release_outcome(after.reserves, (target + tokens) as u64, other, tokens)->Ok_0;
    assert(fee_of(collateral, config.protocol_fee_bps) <= collateral) by (nonlinear_arith)
        requires
            config.protocol_fee_bps <= 10000,
    ;
}

/// The fee on `amount`, computed without overflow.
fn fee(amount: u64, fee_bps: u64) -> (r: u64)
    requires
        fee_bps <= BPS_DENOMINATOR,
    ensures
        r == fee_of(amount, fee_bps),
        r <= amount,
{
    proof {
        assert((amount as nat) * (fee_bps as nat) <= (amount as nat) * 10000) by (nonlinear_arith)
            requires
                fee_bps <= 10000,
        ;
    }
    ((amount as u128) * (fee_bps as u128) / (BPS_DENOMINATOR as u128)) as u64
}

/// A market and the configuration it trades under.
pub struct Trade {
    /// Settings the trade runs under: fee and pause flag.
    pub config: Config,
    /// The ledger traded against.
    pub market: Market,
}

impl Trade {
    /// Buys tokens of one side with `amount` of collateral.
    ///
    /// The fee is taken from `amount` first; the rest enters the reserves
    /// and the minted tokens are added to the side's supply. Returns the
    /// tokens to mint to the trader; on an error nothing changes.
    pub fn buy_tokens(&mut self, now: i64, amount: u64, buy_yes: bool, min_tokens_out: u64) -> (res:
        Result<u64, TradeError>)
        requires
            old(self).config.protocol_fee_bps <= BPS_DENOMINATOR,
        ensures
            res == buy_outcome(
                old(self).config,
                old(self).market,
                now,
                amount,
                buy_yes,
                min_tokens_out,
            ),
            final(self).config == old(self).config,
            res matches Ok(tokens) ==> final(self).market == bought(
                old(self).config,
                old(self).market,
                amount,
                buy_yes,
                tokens,
            ),
            res is Err ==> final(self).market == old(self).market,
            res is Ok ==> near_curve(
                final(self).market.reserves,
                final(self).market.yes_supply,
                final(self).market.no_supply,
            ),
    {
        if self.market.status != MarketStatus::Active {
            return Err(TradeError::MarketNotActive);
        }
        if !is_before_end(now, self.market.end_time) {
            return Err(TradeError::MarketEnded);
        }
        if self.config.paused {
            return Err(TradeError::ProtocolPaused);
        }
        let net = amount - fee(amount, self.config.protocol_fee_bps);
        let (target_supply, other_supply) = self.market.supplies(buy_yes);
        let tokens_out = match PythagoreanCurve::get_tokens_to_mint(
            self.market.reserves,
            target_supply,
            other_supply,
            net,
        ) {
            Ok(t) => t,
            Err(e) => return Err(TradeError::Amm(e)),
        };
        if tokens_out < min_tokens_out {
            return Err(TradeError::SlippageExceeded);
        }
        let new_reserves = match self.market.reserves.checked_add(net) {
            Some(v) => v,
            None => return Err(TradeError::Amm(AmmError::Overflow)),
        };
        let new_supply = match target_supply.checked_add(tokens_out) {
            Some(v) => v,
            None => return Err(TradeError::Amm(AmmError::Overflow)),
        };
        proof {
            lemma_mint_stays_near_curve(
                self.market.reserves,
                target_supply,
                other_supply,
                net,
                tokens_out,
            );
            lemma_curve_symmetric(new_supply, other_supply);
        }
        self.market.set_side(buy_yes, new_reserves, new_supply);
        Ok(tokens_out)
    }

    /// Sells `amount` tokens of one side.
    ///
    /// The curve's output leaves the reserves in full and the tokens leave
    /// the side's supply; the trader is paid that output less the fee,
    /// which is returned. On an error nothing changes.
    pub fn sell_tokens(
        &mut self,
        now: i64,
        amount: u64,
        sell_yes: bool,
        min_collateral_out: u64,
    ) -> (res: Result<u64, TradeError>)
        requires
            old(self).config.protocol_fee_bps <= BPS_DENOMINATOR,
        ensures
            res == sell_outcome(
                old(self).config,
                old(self).market,
                now,
                amount,
                sell_yes,
                min_collateral_out,
            ),
            final(self).config == old(self).config,
            res is Ok ==> final(self).market == sold(old(self).market, amount, sell_yes),
            res is Err ==> final(self).market == old(self).market,
            near_curve(
                old(self).market.reserves,
                old(self).market.yes_supply,
                old(self).market.no_supply,
            ) && res is Ok ==> near_curve(
                final(self).market.reserves,
                final(self).market.yes_supply,
                final(self).market.no_supply,
            ),
    {
        if self.market.status != MarketStatus::Active {
            return Err(TradeError::MarketNotActive);
        }
        if !is_before_end(now, self.market.end_time) {
            return Err(TradeError::MarketEnded);
        }
        if self.config.paused {
            return Err(TradeError::ProtocolPaused);
        }
        let (target_supply, other_supply) = self.market.supplies(sell_yes);
        let collateral_out = match PythagoreanCurve::get_reserve_to_release(
            self.market.reserves,
            target_supply,
            other_supply,
            amount,
        ) {
            Ok(c) => c,
            Err(e) => return Err(TradeError::Amm(e)),
        };
        let collateral_after_fee = collateral_out - fee(
            collateral_out,
            self.config.protocol_fee_bps,
        );
        if collateral_after_fee < min_collateral_out {
            return Err(TradeError::SlippageExceeded);
        }
        let new_reserves = self.market.reserves - collateral_out;
        let new_supply = target_supply - amount;
        proof {
            lemma_curve_symmetric(target_supply, other_supply);
            if near_curve(self.market.reserves, target_supply, other_supply) {
                lemma_burn_stays_near_curve(
                    self.market.reserves,
                    target_supply,
                    other_supply,
                    amount,
                    collateral_out,
                );
            }
            lemma_curve_symmetric(new_supply, other_supply);
        }
        self.market.set_side(sell_yes, new_reserves, new_supply);
        Ok(collateral_after_fee)
    }
}

} // verus!
