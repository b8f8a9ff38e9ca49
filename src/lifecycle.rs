//! Protocol set-up, market creation and funding, and resolution.
use vstd::prelude::*;

use crate::curve_laws::{lemma_seed_near_curve, near_curve};
use crate::fixed_point::{isqrt, lemma_isqrt_at_most, lemma_square_le, sqrt};
use crate::state::{
    Config, DEFAULT_MIN_LIQUIDITY, MAX_FEE_BPS, MAX_QUESTION_LEN, Market, MarketStatus, Outcome,
    before_end, is_before_end,
};

verus! {

/// Why protocol set-up was refused.
#[derive(Clone, Copy, Debug, PartialEq, Eq, Structural)]
pub enum InitializeError {
    /// The fee exceeds the highest accepted fee.
    FeeTooHigh,
}

/// Why a market could not be created or funded.
#[derive(Clone, Copy, Debug, PartialEq, Eq, Structural)]
pub enum CreateMarketError {
    /// The protocol is paused.
    ProtocolPaused,
    /// The end time is not after the current time.
    InvalidEndTime,
    /// The initial liquidity is below the configured minimum.
    InsufficientLiquidity,
    /// The question is longer than allowed.
    QuestionTooLong,
    /// The market already holds reserves.
    AlreadyFunded,
    /// Every market id has been handed out.
    Overflow,
}

/// Why a resolution was refused.
#[derive(Clone, Copy, Debug, PartialEq, Eq, Structural)]
pub enum ResolveError {
    /// The caller is not the designated resolver.
    Unauthorized,
    /// The market is neither active nor ended.
    CannotResolve,
    /// The end time has not been reached.
    MarketNotEnded,
}

/// Length of a question in bytes.
pub open spec fn question_len(question: String) -> usize {
    vstd::utf8::encode_utf8(question@).len() as usize
}

/// Each side's supply in a market seeded with `liquidity`:
/// `isqrt(L² / 2)`, so that both sides hold about `L / √2`.
pub open spec fn seed_supply(liquidity: u64) -> nat {
    isqrt(((liquidity as nat) * (liquidity as nat) / 2) as nat)
}

/// A fresh market: active, undetermined, holding nothing.
pub open spec fn fresh_market(id: u64, question: String, end_time: u64, now: i64) -> Market {
    Market {
        id,
        question,
        end_time,
        created_at: if now < 0 {
            0
        } else {
            now as u64
        },
        reserves: 0,
        yes_supply: 0,
        no_supply: 0,
        status: MarketStatus::Active,
        outcome: Outcome::Undetermined,
    }
}

/// A market holding `liquidity` in reserves and the seed supply on each side.
pub open spec fn seeded(market: Market, liquidity: u64) -> Market {
    Market {
        reserves: liquidity,
        yes_supply: seed_supply(liquidity) as u64,
        no_supply: seed_supply(liquidity) as u64,
        ..market
    }
}

/// The first failing check of one-step market creation, in order.
pub open spec fn funded_creation_gate(
    config: Config,
    question: String,
    end_time: u64,
    initial_liquidity: u64,
    now: i64,
) -> Option<CreateMarketError> {
    if config.paused {
        Some(CreateMarketError::ProtocolPaused)
    } else if !before_end(now, end_time) {
        Some(CreateMarketError::InvalidEndTime)
    } else if initial_liquidity < config.min_liquidity {
        Some(CreateMarketError::InsufficientLiquidity)
    } else if question_len(question) > MAX_QUESTION_LEN {
        Some(CreateMarketError::QuestionTooLong)
    } else if config.market_count == u64::MAX {
        Some(CreateMarketError::Overflow)
    } else {
        None
    }
}

/// The first failing check of a resolution, in order.
pub open spec fn resolve_gate(market: Market, authorized: bool, now: i64) -> Option<ResolveError> {
    if !authorized {
        Some(ResolveError::Unauthorized)
    } else if market.status != MarketStatus::Active && market.status != MarketStatus::Ended {
        Some(ResolveError::CannotResolve)
    } else if before_end(now, market.end_time) {
        Some(ResolveError::MarketNotEnded)
    } else {
        None
    }
}

/// The first failing check of market creation, in order.
pub open spec fn creation_gate(config: Config, question: String, end_time: u64, now: i64) -> Option<
    CreateMarketError,
> {
    if config.paused {
        Some(CreateMarketError::ProtocolPaused)
    } else if !before_end(now, end_time) {
        Some(CreateMarketError::InvalidEndTime)
    } else if question_len(question) > MAX_QUESTION_LEN {
        Some(CreateMarketError::QuestionTooLong)
    } else if config.market_count == u64::MAX {
        Some(CreateMarketError::Overflow)
    } else {
        None
    }
}

/// `isqrt(L² / 2)`, which never exceeds `L`.
fn seed_amount(liquidity: u64) -> (r: u64)
    ensures
        r == seed_supply(liquidity),
        r <= liquidity,
{
    let l = liquidity as u128;
    proof {
        lemma_square_le(l as int, u64::MAX as int);
        assert(l * l / 2 < (l + 1) * (l + 1)) by (nonlinear_arith);
        lemma_isqrt_at_most((l * l / 2) as nat, l as nat);
    }
    sqrt(l * l / 2) as u64
}

/// The `created_at` stamp for a creation at `now`.
fn creation_time(now: i64) -> (r: u64)
    ensures
        r == (if now < 0 {
            0
        } else {
            now as u64
        }),
{
    if now < 0 {
        0
    } else {
        now as u64
    }
}

/// Protocol set-up.
pub struct Initialize {
    /// The configuration being set up.
    pub config: Config,
}

impl Initialize {
    /// Sets the configuration up with the given fee, no markets, the
    /// default minimum liquidity and trading allowed.
    pub fn initialize(&mut self, protocol_fee_bps: u64) -> (res: Result<(), InitializeError>)
        ensures
            res is Err <==> protocol_fee_bps > MAX_FEE_BPS,
            res is Err ==> res == Err::<(), _>(InitializeError::FeeTooHigh) && final(self).config
                == old(self).config,
            res is Ok ==> final(self).config == (Config {
                protocol_fee_bps,
                market_count: 0,
                min_liquidity: DEFAULT_MIN_LIQUIDITY,
                paused: false,
            }),
            res is Ok ==> final(self).config.wf(),
    {
        if protocol_fee_bps > MAX_FEE_BPS {
            return Err(InitializeError::FeeTooHigh);
        }
        self.config = Config {
            protocol_fee_bps,
            market_count: 0,
            min_liquidity: DEFAULT_MIN_LIQUIDITY,
            paused: false,
        };
        Ok(())
    }
}

/// Creation of an unfunded market.
pub struct CreateMarketState {
    /// Settings, whose market count hands out the id.
    pub config: Config,
}

impl CreateMarketState {
    /// Creates an empty active market under the next id and counts it.
    pub fn create_market_state(&mut self, question: String, end_time: u64, now: i64) -> (res:
        Result<Market, CreateMarketError>)
        ensures
            creation_gate(old(self).config, question, end_time, now) matches Some(e) ==> res
                == Err::<Market, _>(e) && final(self).config == old(self).config,
            creation_gate(old(self).config, question, end_time, now) is None ==> res == Ok::<
                _,
                CreateMarketError,
            >(fresh_market(old(self).config.market_count, question, end_time, now))
                && final(self).config == (Config {
                market_count: (old(self).config.market_count + 1) as u64,
                ..old(self).config
            }),
    {
        if self.config.paused {
            return Err(CreateMarketError::ProtocolPaused);
        }
        if !is_before_end(now, end_time) {
            return Err(CreateMarketError::InvalidEndTime);
        }
        if question.as_str().len() > MAX_QUESTION_LEN {
            return Err(CreateMarketError::QuestionTooLong);
        }
        if self.config.market_count == u64::MAX {
            return Err(CreateMarketError::Overflow);
        }
        let id = self.config.market_count;
        self.config.market_count = id + 1;
        Ok(
            Market {
                id,
                question,
                end_time,
                created_at: creation_time(now),
                reserves: 0,
                yes_supply: 0,
                no_supply: 0,
                status: MarketStatus::Active,
                outcome: Outcome::Undetermined,
            },
        )
    }
}


/// Funding of a market created empty.
pub struct FundMarket {
    /// Settings, whose minimum liquidity applies.
    pub config: Config,
    /// The market being funded.
    pub market: Market,
}

impl FundMarket {
    /// Seeds the market with `initial_liquidity` of reserves and
    /// `isqrt(L² / 2)` tokens on each side, which are returned (the
    /// amount minted to the creator on each side).
    pub fn fund_market(&mut self, initial_liquidity: u64) -> (res: Result<u64, CreateMarketError>)
        ensures
            final(self).config == old(self).config,
            old(self).market.reserves != 0 ==> res == Err::<u64, _>(
                CreateMarketError::AlreadyFunded,
            ),
            old(self).market.reserves == 0 && initial_liquidity < old(self).config.min_liquidity
                ==> res == Err::<u64, _>(CreateMarketError::InsufficientLiquidity),
            old(self).market.reserves == 0 && initial_liquidity >= old(self).config.min_liquidity
                ==> res == Ok::<_, CreateMarketError>(seed_supply(initial_liquidity) as u64),
            res is Ok ==> final(self).market == seeded(old(self).market, initial_liquidity),
            res is Ok ==> near_curve(
                final(self).market.reserves,
                final(self).market.yes_supply,
                final(self).market.no_supply,
            ),
            res is Err ==> final(self).market == old(self).market,
    {
        if self.market.reserves != 0 {
            return Err(CreateMarketError::AlreadyFunded);
        }
        if initial_liquidity < self.config.min_liquidity {
            return Err(CreateMarketError::InsufficientLiquidity);
        }
        let token_amount = seed_amount(initial_liquidity);
        proof {
            lemma_seed_near_curve(initial_liquidity, token_amount);
        }
        self.market.reserves = initial_liquidity;
        self.market.yes_supply = token_amount;
        self.market.no_supply = token_amount;
        Ok(token_amount)
    }
}

/// One-step creation of a funded market.
pub struct CreateMarket {
    /// Settings, whose market count hands out the id.
    pub config: Config,
}

impl CreateMarket {
    /// Creates an active market under the next id, seeded with
    /// `initial_liquidity` of reserves and `isqrt(L² / 2)` tokens on each
    /// side, and counts it.
    pub fn create_market(
        &mut self,
        question: String,
        end_time: u64,
        initial_liquidity: u64,
        now: i64,
    ) -> (res: Result<Market, CreateMarketError>)
        ensures
            funded_creation_gate(old(self).config, question, end_time, initial_liquidity, now) matches Some(e)
                ==> res == Err::<Market, _>(e) && final(self).config == old(self).config,
            funded_creation_gate(old(self).config, question, end_time, initial_liquidity, now) is None
                ==> res == Ok::<_, CreateMarketError>(
                seeded(
                    fresh_market(old(self).config.market_count, question, end_time, now),
                    initial_liquidity,
                ),
            ) && final(self).config == (Config {
                market_count: (old(self).config.market_count + 1) as u64,
                ..old(self).config
            }),
            res matches Ok(m) ==> near_curve(m.reserves, m.yes_supply, m.no_supply),
    {
        if self.config.paused {
            return Err(CreateMarketError::ProtocolPaused);
        }
        if !is_before_end(now, end_time) {
            return Err(CreateMarketError::InvalidEndTime);
        }
        if initial_liquidity < self.config.min_liquidity {
            return Err(CreateMarketError::InsufficientLiquidity);
        }
        if question.as_str().len() > MAX_QUESTION_LEN {
            return Err(CreateMarketError::QuestionTooLong);
        }
        if self.config.market_count == u64::MAX {
            return Err(CreateMarketError::Overflow);
        }
        let token_amount = seed_amount(initial_liquidity);
        proof {
            lemma_seed_near_curve(initial_liquidity, token_amount);
        }
        let id = self.config.market_count;
        self.config.market_count = id + 1;
        Ok(
            Market {
                id,
                question,
                end_time,
                created_at: creation_time(now),
                reserves: initial_liquidity,
                yes_supply: token_amount,
                no_supply: token_amount,
                status: MarketStatus::Active,
                outcome: Outcome::Undetermined,
            },
        )
    }
}

/// Resolution of a market by the designated resolver.
pub struct ResolveMarket {
    /// The market being resolved.
    pub market: Market,
}

impl ResolveMarket {
    /// Records the winning side and marks the market resolved.
    ///
    /// `authorized` is the caller's standing as the designated resolver;
    /// `now` is the current time.
    pub fn resolve_market(&mut self, authorized: bool, now: i64, yes_wins: bool) -> (res: Result<
        (),
        ResolveError,
    >)
        ensures
            resolve_gate(old(self).market, authorized, now) matches Some(e) ==> res == Err::<(), _>(e)
                && final(self).market == old(self).market,
            resolve_gate(old(self).market, authorized, now) is None ==> res is Ok
                && final(self).market == (Market {
                status: MarketStatus::Resolved,
                outcome: if yes_wins {
                    Outcome::Yes
                } else {
                    Outcome::No
                },
                ..old(self).market
            }),
    {
        if !authorized {
            return Err(ResolveError::Unauthorized);
        }
        if self.market.status != MarketStatus::Active && self.market.status != MarketStatus::Ended {
            return Err(ResolveError::CannotResolve);
        }
        if is_before_end(now, self.market.end_time) {
            return Err(ResolveError::MarketNotEnded);
        }
        self.market.outcome = if yes_wins {
            Outcome::Yes
        } else {
            Outcome::No
        };
        self.market.status = MarketStatus::Resolved;
        Ok(())
    }
}

} // verus!
