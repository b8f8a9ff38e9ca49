use prediction_market::bonding_curve::{AmmError, PythagoreanCurve};
use prediction_market::lifecycle::{
    CreateMarket, CreateMarketError, CreateMarketState, FundMarket, Initialize, InitializeError,
    ResolveError, ResolveMarket,
};
use prediction_market::settlement::{Redeem, RedeemError};
use prediction_market::state::{Config, Market, MarketStatus, Outcome};
use prediction_market::trade::{Trade, TradeError};

fn config(fee: u64) -> Config {
    Config { protocol_fee_bps: fee, market_count: 0, min_liquidity: 1_000_000, paused: false }
}

fn market(reserves: u64, yes: u64, no: u64) -> Market {
    Market {
        id: 0,
        question: String::from("Will it rain tomorrow?"),
        end_time: 1_000,
        created_at: 0,
        reserves,
        yes_supply: yes,
        no_supply: no,
        status: MarketStatus::Active,
        outcome: Outcome::Undetermined,
    }
}

#[test]
fn buy_then_price_shift() {
    let mut t = Trade { config: config(0), market: market(1_000_000, 707_000, 707_000) };
    let tokens = t.buy_tokens(10, 100_000, true, 0).unwrap();
    assert!(tokens > 0);
    assert_eq!(tokens, 135_000);
    assert_eq!(t.market.reserves, 1_100_000);
    assert_eq!(t.market.yes_supply, 842_000);
    assert_eq!(t.market.no_supply, 707_000);
    let (yes, no) =
        PythagoreanCurve::get_prices(t.market.reserves, t.market.yes_supply, t.market.no_supply)
            .unwrap();
    assert!(yes > 7071);
    assert!(no < 7071);
}

#[test]
fn sell_yields_less_than_burned() {
    let mut t = Trade { config: config(0), market: market(1_000_000, 800_000, 600_000) };
    let out = t.sell_tokens(10, 50_000, true, 0).unwrap();
    assert!(out < 50_000);
    assert_eq!(out, 40_000);
    assert_eq!(t.market.reserves, 960_000);
    assert_eq!(t.market.yes_supply, 750_000);
}

#[test]
fn fees_on_buy_and_sell() {
    let mut t = Trade { config: config(100), market: market(1_000_000, 707_000, 707_000) };
    // 1% of the deposit is kept before the curve sees it.
    assert_eq!(t.buy_tokens(10, 100_000, true, 0), Ok(134_000));
    assert_eq!(t.market.reserves, 1_099_000);

    let mut s = Trade { config: config(100), market: market(1_000_000, 800_000, 600_000) };
    // 1% of the curve's output is kept; the full output leaves the reserves.
    assert_eq!(s.sell_tokens(10, 50_000, true, 0), Ok(39_600));
    assert_eq!(s.market.reserves, 960_000);
}

#[test]
fn buy_no_side() {
    let mut t = Trade { config: config(0), market: market(1_000_000, 707_000, 707_000) };
    assert_eq!(t.buy_tokens(10, 100_000, false, 0), Ok(135_000));
    assert_eq!(t.market.no_supply, 842_000);
    assert_eq!(t.market.yes_supply, 707_000);
}

#[test]
fn trade_gates() {
    let mut ended = Trade { config: config(0), market: market(1_000_000, 707_000, 707_000) };
    assert_eq!(ended.buy_tokens(1_000, 100_000, true, 0), Err(TradeError::MarketEnded));
    assert_eq!(ended.sell_tokens(5_000, 1_000, true, 0), Err(TradeError::MarketEnded));
    assert_eq!(ended.market.reserves, 1_000_000);

    let mut paused_cfg = config(0);
    paused_cfg.paused = true;
    let mut paused = Trade { config: paused_cfg, market: market(1_000_000, 707_000, 707_000) };
    assert_eq!(paused.buy_tokens(10, 100_000, true, 0), Err(TradeError::ProtocolPaused));

    let mut resolved_market = market(1_000_000, 707_000, 707_000);
    resolved_market.status = MarketStatus::Resolved;
    let mut resolved = Trade { config: config(0), market: resolved_market };
    assert_eq!(resolved.buy_tokens(10, 100_000, true, 0), Err(TradeError::MarketNotActive));

    let mut slip = Trade { config: config(0), market: market(1_000_000, 707_000, 707_000) };
    assert_eq!(slip.buy_tokens(10, 100_000, true, 135_001), Err(TradeError::SlippageExceeded));
    assert_eq!(slip.sell_tokens(10, 50_000, true, 1_000_000), Err(TradeError::SlippageExceeded));
    assert_eq!(slip.market.yes_supply, 707_000);

    let mut small = Trade { config: config(0), market: market(1_000_000, 707_000, 707_000) };
    assert_eq!(
        small.buy_tokens(10, 500, true, 0),
        Err(TradeError::Amm(AmmError::NoTokensToMint))
    );
    assert_eq!(
        small.sell_tokens(10, 707_001, true, 0),
        Err(TradeError::Amm(AmmError::InsufficientTokens))
    );
}

#[test]
fn buy_overflowing_ledger() {
    let mut t = Trade { config: config(0), market: market(u64::MAX - 1_000, 0, 0) };
    assert_eq!(
        t.buy_tokens(10, 10_000, true, 0),
        Err(TradeError::Amm(AmmError::Overflow))
    );
    assert_eq!(t.market.reserves, u64::MAX - 1_000);
}

#[test]
fn buy_then_sell_back_returns_at_most_deposit() {
    // Reserves exactly on the curve: 1000² = 600² + 800².
    let mut t = Trade { config: config(0), market: market(1_000_000, 600_000, 800_000) };
    let tokens = t.buy_tokens(10, 100_000, true, 0).unwrap();
    let back = t.sell_tokens(10, tokens, true, 0).unwrap();
    assert!(back <= 100_000);
    assert!(back + 1_000 > 100_000);
}

#[test]
fn lifecycle_rejection() {
    let mut r = ResolveMarket { market: market(1_000_000, 707_000, 707_000) };
    assert_eq!(r.resolve_market(true, 999, true), Err(ResolveError::MarketNotEnded));

    let mut t = Trade { config: config(0), market: market(1_000_000, 707_000, 707_000) };
    assert_eq!(t.buy_tokens(1_000, 100_000, true, 0), Err(TradeError::MarketEnded));

    let mut d = Redeem { market: market(1_000_000, 707_000, 707_000), user_yes: 10, user_no: 0 };
    assert_eq!(d.redeem(), Err(RedeemError::NotResolved));
}

#[test]
fn resolution() {
    let mut r = ResolveMarket { market: market(1_000_000, 707_000, 707_000) };
    assert_eq!(r.resolve_market(false, 1_000, true), Err(ResolveError::Unauthorized));
    assert_eq!(r.resolve_market(true, 1_000, false), Ok(()));
    assert_eq!(r.market.status, MarketStatus::Resolved);
    assert_eq!(r.market.outcome, Outcome::No);
    assert_eq!(r.resolve_market(true, 2_000, true), Err(ResolveError::CannotResolve));
    assert_eq!(r.market.outcome, Outcome::No);
}

#[test]
fn redemption_is_proportional_and_solvent() {
    let mut m = market(1_000_000, 3_000, 5_000);
    m.status = MarketStatus::Resolved;
    m.outcome = Outcome::Yes;
    let mut first = Redeem { market: m, user_yes: 1_000, user_no: 5_000 };
    assert_eq!(first.redeem(), Ok(333_333));
    assert_eq!(first.user_yes, 0);
    assert_eq!(first.user_no, 5_000);
    assert_eq!(first.market.reserves, 666_667);
    assert_eq!(first.market.yes_supply, 2_000);
    assert_eq!(first.redeem(), Err(RedeemError::NoWinningTokens));

    let mut second = Redeem { market: first.market, user_yes: 1_000, user_no: 0 };
    assert_eq!(second.redeem(), Ok(333_333));
    let mut third = Redeem { market: second.market, user_yes: 1_000, user_no: 0 };
    assert_eq!(third.redeem(), Ok(333_334));
    assert_eq!(third.market.reserves, 0);
    assert_eq!(333_333 + 333_333 + 333_334, 1_000_000);

    let mut m2 = market(1_000_000, 3_000, 5_000);
    m2.status = MarketStatus::Resolved;
    m2.outcome = Outcome::Yes;
    let mut greedy = Redeem { market: m2, user_yes: 3_001, user_no: 0 };
    assert_eq!(greedy.redeem(), Err(RedeemError::InsufficientTokens));
}

#[test]
fn redeem_undetermined_outcome() {
    let mut m = market(1_000_000, 3_000, 5_000);
    m.status = MarketStatus::Resolved;
    let mut d = Redeem { market: m, user_yes: 10, user_no: 10 };
    assert_eq!(d.redeem(), Err(RedeemError::NotResolved));
}

#[test]
fn initialize_config() {
    let mut init = Initialize { config: config(0) };
    assert_eq!(init.initialize(3_001), Err(InitializeError::FeeTooHigh));
    assert_eq!(init.initialize(3_000), Ok(()));
    assert_eq!(init.config.protocol_fee_bps, 3_000);
    assert_eq!(init.config.min_liquidity, 1_000_000);
    assert_eq!(init.config.market_count, 0);
    assert!(!init.config.paused);
}

#[test]
fn two_step_creation() {
    let mut c = CreateMarketState { config: config(0) };
    let m = c.create_market_state(String::from("Will it snow?"), 500, 100).unwrap();
    assert_eq!(m.id, 0);
    assert_eq!(m.created_at, 100);
    assert_eq!(m.reserves, 0);
    assert_eq!(m.status, MarketStatus::Active);
    assert_eq!(m.outcome, Outcome::Undetermined);
    assert_eq!(c.config.market_count, 1);
    let m2 = c.create_market_state(String::from("Again?"), 500, 100).unwrap();
    assert_eq!(m2.id, 1);

    assert_eq!(
        c.create_market_state(String::from("Late?"), 100, 100).err(),
        Some(CreateMarketError::InvalidEndTime)
    );
    assert_eq!(
        c.create_market_state("x".repeat(257), 500, 100).err(),
        Some(CreateMarketError::QuestionTooLong)
    );
    assert!(c.create_market_state("x".repeat(256), 500, 100).is_ok());

    let mut f = FundMarket { config: config(0), market: m };
    assert_eq!(f.fund_market(999_999), Err(CreateMarketError::InsufficientLiquidity));
    assert_eq!(f.fund_market(1_000_000), Ok(707_106));
    assert_eq!(f.market.reserves, 1_000_000);
    assert_eq!(f.market.yes_supply, 707_106);
    assert_eq!(f.market.no_supply, 707_106);
    assert_eq!(f.fund_market(1_000_000), Err(CreateMarketError::AlreadyFunded));
}

#[test]
fn one_step_creation() {
    let mut paused_cfg = config(0);
    paused_cfg.paused = true;
    let mut p = CreateMarket { config: paused_cfg };
    assert_eq!(
        p.create_market(String::from("Q?"), 500, 1_000_000, 100).err(),
        Some(CreateMarketError::ProtocolPaused)
    );

    let mut c = CreateMarket { config: config(0) };
    assert_eq!(
        c.create_market(String::from("Q?"), 500, 10, 100).err(),
        Some(CreateMarketError::InsufficientLiquidity)
    );
    let m = c.create_market(String::from("Q?"), 500, 2_000_000, 100).unwrap();
    assert_eq!(m.reserves, 2_000_000);
    assert_eq!(m.yes_supply, 1_414_213);
    assert_eq!(m.no_supply, 1_414_213);
    assert_eq!(c.config.market_count, 1);

    let mut full_cfg = config(0);
    full_cfg.market_count = u64::MAX;
    let mut full = CreateMarket { config: full_cfg };
    assert_eq!(
        full.create_market(String::from("Q?"), 500, 2_000_000, 100).err(),
        Some(CreateMarketError::Overflow)
    );
}

fn near_curve(m: &Market) -> bool {
    let r = (m.reserves / 1000) as u128;
    let a = (m.yes_supply / 1000) as u128;
    let b = (m.no_supply / 1000) as u128;
    let root = prediction_market::fixed_point::sqrt(a * a + b * b);
    root <= r + 2 && r <= root + 2
}

#[test]
fn trades_keep_market_near_curve() {
    let mut create = CreateMarket { config: config(50) };
    let m = create.create_market(String::from("Q?"), 1_000, 5_000_000, 10).unwrap();
    assert!(near_curve(&m));
    let mut t = Trade { config: create.config, market: m };
    let steps: [(bool, bool, u64); 8] = [
        (true, true, 400_000),
        (true, false, 1_250_000),
        (false, true, 300_000),
        (true, true, 77_777),
        (false, false, 900_000),
        (true, false, 3_000),
        (false, true, 120_000),
        (false, false, 10_000),
    ];
    for (is_buy, yes, amount) in steps {
        let result = if is_buy {
            t.buy_tokens(20, amount, yes, 0)
        } else {
            t.sell_tokens(20, amount, yes, 0)
        };
        assert!(result.is_ok());
        assert!(near_curve(&t.market));
    }
}
