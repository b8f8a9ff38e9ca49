//! Redemption of winning tokens after resolution.
//!
//! A holder of `b` winning tokens receives `floor(b · R / S)` of the
//! reserves `R`, where `S` is the winning side's outstanding supply at that
//! moment; the tokens leave the supply and the payout leaves the reserves.
//! Floor division leaves any rounding loss in the pool, never more paid out
//! than is held.
use vstd::prelude::*;

use crate::state::{Market, MarketStatus, Outcome};

verus! {

/// Why a redemption was refused.
#[derive(Clone, Copy, Debug, PartialEq, Eq, Structural)]
pub enum RedeemError {
    /// The market has no winning side yet.
    NotResolved,
    /// The holder has no winning tokens.
    NoWinningTokens,
    /// The holder claims more tokens than the winning side's supply.
    InsufficientTokens,
}

/// The payout for `balance` winning tokens: `floor(balance · reserves / supply)`.
pub open spec fn redeem_payout(balance: nat, reserves: nat, supply: nat) -> nat {
    if supply == 0 {
        0
    } else {
        balance * reserves / supply
    }
}

/// Sum of a sequence of balances.
pub open spec fn total_balance(balances: Seq<nat>) -> nat
    decreases balances.len(),
{
    if balances.len() == 0 {
        0
    } else {
        balances[0] + total_balance(balances.drop_first())
    }
}

/// Total paid to holders redeeming `balances` one after the other, each
/// against the reserves and supply that the earlier ones left.
pub open spec fn total_paid(reserves: nat, supply: nat, balances: Seq<nat>) -> nat
    decreases balances.len(),
{
    if balances.len() == 0 {
        0
    } else {
        let paid = redeem_payout(balances[0], reserves, supply);
        paid + total_paid(
            (reserves - paid) as nat,
            (supply - balances[0]) as nat,
            balances.drop_first(),
        )
    }
}

/// A holder of no more than the supply is paid no more than the reserves;
/// a holder of the whole supply is paid all of them.
pub proof fn lemma_payout_bounded(balance: nat, reserves: nat, supply: nat)
    requires
        balance <= supply,
    ensures
        redeem_payout(balance, reserves, supply) <= reserves,
        balance == supply && supply > 0 ==> redeem_payout(balance, reserves, supply) == reserves,
{
    if supply > 0 {
        assert(balance * reserves / supply <= reserves) by (nonlinear_arith)
            requires
                balance <= supply,
                supply > 0,
        ;
        if balance == supply {
            assert(supply * reserves / supply == reserves) by (nonlinear_arith)
                requires
                    supply > 0,
            ;
        }
    }
}

/// Sequential redemptions of balances that together stay within the
/// winning supply never pay out more than the reserves held at
/// resolution; redeeming the whole supply pays out exactly those reserves.
pub proof fn lemma_redemptions_solvent(reserves: nat, supply: nat, balances: Seq<nat>)
    requires
        total_balance(balances) <= supply,
    ensures
        total_paid(reserves, supply, balances) <= reserves,
        balances.len() > 0 && supply > 0 && total_balance(balances) == supply ==> total_paid(
            reserves,
            supply,
            balances,
        ) == reserves,
    decreases balances.len(),
{
    if balances.len() > 0 {
        let b = balances[0];
        lemma_payout_bounded(b, reserves, supply);
        let paid = redeem_payout(b, reserves, supply);
        let rest = balances.drop_first();
        lemma_redemptions_solvent((reserves - paid) as nat, (supply - b) as nat, rest);
        if supply > 0 && total_balance(balances) == supply && supply - b == 0 {
            assert(paid == reserves);
        }
    }
}

/// The outcome of [`Redeem::redeem`]: the payout, or why there is none.
pub open spec fn redeem_outcome(market: Market, user_yes: u64, user_no: u64) -> Result<
    u64,
    RedeemError,
> {
    let (balance, supply) = if market.outcome == Outcome::Yes {
        (user_yes, market.yes_supply)
    } else {
        (user_no, market.no_supply)
    };
    if market.status != MarketStatus::Resolved || market.outcome == Outcome::Undetermined {
        Err(RedeemError::NotResolved)
    } else if balance == 0 {
        Err(RedeemError::NoWinningTokens)
    } else if balance > supply {
        Err(RedeemError::InsufficientTokens)
    } else {
        Ok(redeem_payout(balance as nat, market.reserves as nat, supply as nat) as u64)
    }
}

/// A resolved market and one holder's balances on both sides.
pub struct Redeem {
    /// The resolved market.
    pub market: Market,
    /// The holder's YES balance.
    pub user_yes: u64,
    /// The holder's NO balance.
    pub user_no: u64,
}

impl Redeem {
    /// Redeems the holder's whole winning balance for its proportional
    /// share of the reserves, which is returned.
    ///
    /// The winning tokens leave the holder and the winning supply, and the
    /// payout leaves the reserves. Losing tokens stay where they are. On an
    /// error nothing changes.
    pub fn redeem(&mut self) -> (res: Result<u64, RedeemError>)
        ensures
            res == redeem_outcome(old(self).market, old(self).user_yes, old(self).user_no),
            res matches Ok(paid) ==> paid <= old(self).market.reserves && final(self).market == (
            if old(self).market.outcome == Outcome::Yes {
                Market {
                    reserves: (old(self).market.reserves - paid) as u64,
                    yes_supply: (old(self).market.yes_supply - old(self).user_yes) as u64,
                    ..old(self).market
                }
            } else {
                Market {
                    reserves: (old(self).market.reserves - paid) as u64,
                    no_supply: (old(self).market.no_supply - old(self).user_no) as u64,
                    ..old(self).market
                }
            }),
            res is Ok ==> if old(self).market.outcome == Outcome::Yes {
                final(self).user_yes == 0 && final(self).user_no == old(self).user_no
            } else {
                final(self).user_no == 0 && final(self).user_yes == old(self).user_yes
            },
            res is Err ==> final(self).market == old(self).market && final(self).user_yes == old(
                self,
            ).user_yes && final(self).user_no == old(self).user_no,
    {
        if self.market.status != MarketStatus::Resolved {
            return Err(RedeemError::NotResolved);
        }
        let yes_wins = match self.market.outcome {
            Outcome::Yes => true,
            Outcome::No => false,
            Outcome::Undetermined => return Err(RedeemError::NotResolved),
        };
        let (balance, supply) = if yes_wins {
            (self.user_yes, self.market.yes_supply)
        } else {
            (self.user_no, self.market.no_supply)
        };
        if balance == 0 {
            return Err(RedeemError::NoWinningTokens);
        }
        if balance > supply {
            return Err(RedeemError::InsufficientTokens);
        }
        proof {
            lemma_payout_bounded(balance as nat, self.market.reserves as nat, supply as nat);
            assert((balance as u128) * (self.market.reserves as u128) <= u64::MAX as u128
                * u64::MAX as u128) by (nonlinear_arith);
        }
        let paid = ((balance as u128) * (self.market.reserves as u128) / (supply as u128)) as u64;
        self.market.reserves = self.market.reserves - paid;
        if yes_wins {
            self.market.yes_supply = supply - balance;
            self.user_yes = 0;
        } else {
            self.market.no_supply = supply - balance;
            self.user_no = 0;
        }
        Ok(paid)
    }
}

} // verus!
