use predictive_manager::ContractError;
use predictive_manager::GameConfig;
use predictive_manager::Market;
use predictive_manager::MarketStatus;
use predictive_manager::MarketType;
use predictive_manager::Message;
use predictive_manager::Operation;
use predictive_manager::Outcome;
use predictive_manager::PlayerPosition;
use predictive_manager::PredictionMarketContract;
use predictive_manager::ResolutionMethod;

fn config() -> GameConfig {
    GameConfig {
        initial_player_tokens: 1000,
        daily_login_reward: 25,
        market_creation_cost: 50,
        max_outcomes_per_market: 5,
        min_market_duration_seconds: 60,
        oracle_voting_duration_seconds: 3600,
        admin: Some(999),
    }
}

fn fresh() -> PredictionMarketContract {
    PredictionMarketContract::instantiate(config(), 0)
}

fn two_outcomes() -> Vec<String> {
    vec!["yes".to_string(), "no".to_string()]
}

const DAY: u64 = 86_400_000_000;

#[test]
fn register_gives_initial_tokens() {
    let mut s = fresh();
    assert!(s.register_player(1, Some("alice".to_string()), 0).is_ok());
    let p = s.get_player(1).unwrap();
    assert_eq!(p.token_balance, 1000);
    assert_eq!(p.level, 1);
    assert_eq!(p.reputation, 100);
    assert_eq!(s.total_supply, 1000);
    assert!(matches!(s.register_player(1, None, 5), Err(ContractError::PlayerAlreadyExists)));
}

#[test]
fn daily_reward_respects_cooldown() {
    let mut s = fresh();
    s.register_player(1, None, 0).unwrap();
    assert!(matches!(s.claim_daily_reward(1, 10), Err(ContractError::DailyRewardAlreadyClaimed)));
    assert!(s.claim_daily_reward(1, DAY).is_ok());
    assert_eq!(s.get_player(1).unwrap().token_balance, 1025);
    assert_eq!(s.total_supply, 1025);
    assert!(matches!(s.claim_daily_reward(2, DAY), Err(ContractError::PlayerNotFound)));
}

#[test]
fn market_outcome_count_boundaries() {
    let mut s = fresh();
    s.register_player(1, None, 0).unwrap();
    let one = vec!["only".to_string()];
    let r = s.create_market(1, "t".to_string(), "d".to_string(), MarketType::QuickPrediction, one, 3600, ResolutionMethod::Automated, 0);
    assert!(matches!(r, Err(ContractError::InvalidOutcomeCount)));
    let six: Vec<String> = (0..6).map(|i| format!("o{}", i)).collect();
    let r = s.create_market(1, "t".to_string(), "d".to_string(), MarketType::QuickPrediction, six, 3600, ResolutionMethod::Automated, 0);
    assert!(matches!(r, Err(ContractError::InvalidOutcomeCount)));
    let r = s.create_market(1, "t".to_string(), "d".to_string(), MarketType::QuickPrediction, two_outcomes(), 3600, ResolutionMethod::Automated, 0);
    assert!(r.is_ok());
}

#[test]
fn market_duration_boundaries() {
    let mut s = fresh();
    s.register_player(1, None, 0).unwrap();
    let r = s.create_market(1, "t".to_string(), "d".to_string(), MarketType::QuickPrediction, two_outcomes(), 59, ResolutionMethod::Automated, 0);
    assert!(matches!(r, Err(ContractError::DurationTooShort)));
    let r = s.create_market(1, "t".to_string(), "d".to_string(), MarketType::QuickPrediction, two_outcomes(), 60, ResolutionMethod::Automated, 0);
    assert!(r.is_ok());
}

#[test]
fn market_creation_charges_cost_and_rebate() {
    let mut s = fresh();
    s.register_player(1, None, 0).unwrap();
    s.create_market(1, "title".to_string(), "desc".to_string(), MarketType::QuickPrediction, two_outcomes(), 3600, ResolutionMethod::Automated, 0).unwrap();
    // Cost 50 leaves the creator, a two-percent rebate (1) returns, one
    // percent (0) goes to the platform, the rest burns from the supply.
    assert_eq!(s.get_player(1).unwrap().token_balance, 951);
    assert_eq!(s.total_supply, 951);
    assert_eq!(s.platform_pool, 0);
    let m = s.get_market(0).unwrap();
    assert_eq!(m.outcomes.len(), 2);
    assert_eq!(m.outcomes[0].name, "yes");
    assert_eq!(m.outcomes[0].current_price, 1000);
    assert!(matches!(m.status, MarketStatus::Active));
    assert_eq!(m.end_time, 3600 * 1_000_000);
    assert!(matches!(s.create_market(2, "t".to_string(), "d".to_string(), MarketType::QuickPrediction, two_outcomes(), 3600, ResolutionMethod::Automated, 0), Err(ContractError::PlayerNotFound)));
}

#[test]
fn insufficient_balance_leaves_market_untouched() {
    let mut s = fresh();
    s.register_player(1, None, 0).unwrap();
    s.create_market(1, "t".to_string(), "d".to_string(), MarketType::QuickPrediction, two_outcomes(), 3600, ResolutionMethod::Automated, 0).unwrap();
    let liquidity_before = s.get_market(0).unwrap().total_liquidity;
    let balance_before = s.get_player(1).unwrap().token_balance;
    let r = s.buy_shares(1, 0, 0, 100_000, 10, 1);
    assert!(matches!(r, Err(ContractError::InsufficientBalance)));
    assert_eq!(s.get_market(0).unwrap().total_liquidity, liquidity_before);
    assert_eq!(s.get_player(1).unwrap().token_balance, balance_before);
}

#[test]
fn buy_validates_market_and_outcome() {
    let mut s = fresh();
    s.register_player(1, None, 0).unwrap();
    s.create_market(1, "t".to_string(), "d".to_string(), MarketType::QuickPrediction, two_outcomes(), 3600, ResolutionMethod::Automated, 0).unwrap();
    assert!(matches!(s.buy_shares(1, 7, 0, 10, 10, 1), Err(ContractError::MarketNotFound)));
    assert!(matches!(s.buy_shares(2, 0, 0, 10, 10, 1), Err(ContractError::PlayerNotFound)));
    assert!(matches!(s.buy_shares(1, 0, 2, 10, 10, 1), Err(ContractError::InvalidOutcome)));
    assert!(matches!(s.buy_shares(1, 0, 0, 10, 10, 3600 * 1_000_000), Err(ContractError::MarketEnded)));
    // Per-share slippage: 10 tokens buy 10 shares at the base price, so a
    // zero bound rejects the trade.
    assert!(matches!(s.buy_shares(1, 0, 0, 10, 0, 1), Err(ContractError::SlippageExceeded)));
}

#[test]
fn end_to_end_automated_market() {
    let mut s = fresh();
    s.register_player(1, None, 0).unwrap();
    s.create_market(1, "t".to_string(), "d".to_string(), MarketType::QuickPrediction, two_outcomes(), 3600, ResolutionMethod::Automated, 0).unwrap();
    s.buy_shares(1, 0, 0, 100, 10, 1).unwrap();
    assert_eq!(s.get_player(1).unwrap().token_balance, 851);
    let m = s.get_market(0).unwrap();
    assert_eq!(m.total_liquidity, 100);
    assert_eq!(m.outcomes[0].total_shares, 100);
    assert_eq!(m.positions.len(), 1);
    assert_eq!(m.positions[0].shares_by_outcome[0], 100);
    let supply_before = s.total_supply;
    s.trigger_market_resolution(0, 3600 * 1_000_000).unwrap();
    let m = s.get_market(0).unwrap();
    assert!(matches!(m.status, MarketStatus::Resolved));
    assert_eq!(m.winning_outcome, Some(0));
    s.claim_winnings(1, 0).unwrap();
    // The full pool of 100 returns: net of the whole sequence the player
    // paid the 49 burnt by market creation.
    assert_eq!(s.get_player(1).unwrap().token_balance, 951);
    assert_eq!(s.get_market(0).unwrap().total_liquidity, 0);
    assert_eq!(s.total_supply, supply_before);
}

#[test]
fn resolution_is_idempotent() {
    let mut s = fresh();
    s.register_player(1, None, 0).unwrap();
    s.create_market(1, "t".to_string(), "d".to_string(), MarketType::QuickPrediction, two_outcomes(), 3600, ResolutionMethod::Automated, 0).unwrap();
    s.buy_shares(1, 0, 1, 100, 10, 1).unwrap();
    let end = 3600 * 1_000_000;
    s.trigger_market_resolution(0, end).unwrap();
    let winner_first = s.get_market(0).unwrap().winning_outcome;
    let events_before = s.events.len();
    assert!(s.trigger_market_resolution(0, end + 5).is_ok());
    assert_eq!(s.get_market(0).unwrap().winning_outcome, winner_first);
    assert_eq!(s.events.len(), events_before);
    let resolved_events = s
        .events
        .iter()
        .filter(|e| matches!(e, Message::MarketResolved { .. }))
        .count();
    assert_eq!(resolved_events, 1);
}

#[test]
fn claim_pays_at_most_once() {
    let mut s = fresh();
    s.register_player(1, None, 0).unwrap();
    s.create_market(1, "t".to_string(), "d".to_string(), MarketType::QuickPrediction, two_outcomes(), 3600, ResolutionMethod::Automated, 0).unwrap();
    s.buy_shares(1, 0, 0, 100, 10, 1).unwrap();
    s.trigger_market_resolution(0, 3600 * 1_000_000).unwrap();
    s.claim_winnings(1, 0).unwrap();
    let balance_after_first = s.get_player(1).unwrap().token_balance;
    let r = s.claim_winnings(1, 0);
    assert!(matches!(r, Err(ContractError::NoWinnings)));
    assert_eq!(s.get_player(1).unwrap().token_balance, balance_after_first);
}

#[test]
fn claim_requires_resolution_and_position() {
    let mut s = fresh();
    s.register_player(1, None, 0).unwrap();
    s.register_player(2, None, 0).unwrap();
    s.create_market(1, "t".to_string(), "d".to_string(), MarketType::QuickPrediction, two_outcomes(), 3600, ResolutionMethod::Automated, 0).unwrap();
    s.buy_shares(1, 0, 0, 100, 10, 1).unwrap();
    assert!(matches!(s.claim_winnings(1, 0), Err(ContractError::NotResolved)));
    s.trigger_market_resolution(0, 3600 * 1_000_000).unwrap();
    assert!(matches!(s.claim_winnings(2, 0), Err(ContractError::NoPosition)));
}

#[test]
fn proportional_payout_splits_the_pool() {
    let mut s = fresh();
    s.register_player(1, None, 0).unwrap();
    s.register_player(2, None, 0).unwrap();
    s.register_player(3, None, 0).unwrap();
    s.create_market(1, "t".to_string(), "d".to_string(), MarketType::QuickPrediction, two_outcomes(), 3600, ResolutionMethod::Automated, 0).unwrap();
    // Winners stake 100 and 300 on outcome 0; the loser stakes 200 on 1.
    s.buy_shares(1, 0, 0, 100, 10, 1).unwrap();
    s.buy_shares(2, 0, 0, 300, 10, 1).unwrap();
    s.buy_shares(3, 0, 1, 200, 10, 1).unwrap();
    s.trigger_market_resolution(0, 3600 * 1_000_000).unwrap();
    assert_eq!(s.get_market(0).unwrap().winning_outcome, Some(0));
    let pool = s.get_market(0).unwrap().total_liquidity;
    let shares1 = s.get_market(0).unwrap().positions[0].shares_by_outcome[0];
    let total = s.get_market(0).unwrap().outcomes[0].total_shares;
    let expected1 = (shares1 as u128) * (pool as u128) / (total as u128);
    let b1 = s.get_player(1).unwrap().token_balance;
    s.claim_winnings(1, 0).unwrap();
    assert_eq!(s.get_player(1).unwrap().token_balance, b1 + expected1 as u64);
    let b2 = s.get_player(2).unwrap().token_balance;
    s.claim_winnings(2, 0).unwrap();
    // The last winner drains the rest of the pool exactly.
    let paid2 = s.get_player(2).unwrap().token_balance - b2;
    assert_eq!(paid2 as u128, (pool as u128) - expected1);
    assert_eq!(s.get_market(0).unwrap().total_liquidity, 0);
    assert!(matches!(s.claim_winnings(3, 0), Err(ContractError::NoWinnings)));
}

#[test]
fn oracle_tie_resolves_to_lowest_outcome() {
    let mut s = fresh();
    s.register_player(1, None, 0).unwrap();
    s.register_player(2, None, 0).unwrap();
    s.create_market(1, "t".to_string(), "d".to_string(), MarketType::QuickPrediction, two_outcomes(), 3600, ResolutionMethod::OracleVoting, 0).unwrap();
    let end = 3600 * 1_000_000;
    // First trigger closes the market; with no votes the oracle is not ready.
    assert!(matches!(s.trigger_market_resolution(0, end), Err(ContractError::OracleNotReady)));
    assert!(matches!(s.get_market(0).unwrap().status, MarketStatus::Closed));
    // Two voters of equal reputation (100) split between the outcomes.
    s.vote_on_outcome(1, 0, 0, end + 1).unwrap();
    s.vote_on_outcome(2, 0, 1, end + 2).unwrap();
    s.trigger_market_resolution(0, end + 3).unwrap();
    assert_eq!(s.get_market(0).unwrap().winning_outcome, Some(0));
}

#[test]
fn voting_rules() {
    let mut s = fresh();
    s.register_player(1, None, 0).unwrap();
    s.register_player(2, None, 0).unwrap();
    s.create_market(1, "t".to_string(), "d".to_string(), MarketType::QuickPrediction, two_outcomes(), 3600, ResolutionMethod::OracleVoting, 0).unwrap();
    // Voting needs a closed market.
    assert!(matches!(s.vote_on_outcome(1, 0, 0, 5), Err(ContractError::MarketNotReadyForVoting)));
    let end = 3600 * 1_000_000;
    let _ = s.trigger_market_resolution(0, end);
    s.vote_on_outcome(1, 0, 0, end + 1).unwrap();
    assert!(matches!(s.vote_on_outcome(1, 0, 1, end + 2), Err(ContractError::AlreadyVoted)));
    assert!(matches!(s.vote_on_outcome(2, 0, 5, end + 2), Err(ContractError::InvalidOutcome)));
    // The voting window of 3600 seconds elapses.
    let late = end + 3601 * 1_000_000;
    assert!(matches!(s.vote_on_outcome(2, 0, 1, late), Err(ContractError::MarketNotReadyForVoting)));
    // A creator-decided market stays closed but rejects votes outright.
    s.create_market(1, "t2".to_string(), "d".to_string(), MarketType::QuickPrediction, two_outcomes(), 3600, ResolutionMethod::CreatorDecides, 0).unwrap();
    let _ = s.trigger_market_resolution(1, end);
    assert!(matches!(s.vote_on_outcome(2, 1, 0, end + 1), Err(ContractError::InvalidResolutionMethod)));
}

#[test]
fn creator_decides_market_stays_closed() {
    let mut s = fresh();
    s.register_player(1, None, 0).unwrap();
    s.create_market(1, "t".to_string(), "d".to_string(), MarketType::QuickPrediction, two_outcomes(), 3600, ResolutionMethod::CreatorDecides, 0).unwrap();
    let end = 3600 * 1_000_000;
    assert!(matches!(s.trigger_market_resolution(0, end - 1), Err(ContractError::MarketNotEnded)));
    assert!(s.trigger_market_resolution(0, end).is_ok());
    let m = s.get_market(0).unwrap();
    assert!(matches!(m.status, MarketStatus::Closed));
    assert_eq!(m.winning_outcome, None);
}

#[test]
fn sell_returns_proceeds_at_pre_trade_price() {
    let mut s = fresh();
    s.register_player(1, None, 0).unwrap();
    s.create_market(1, "t".to_string(), "d".to_string(), MarketType::QuickPrediction, two_outcomes(), 3600, ResolutionMethod::Automated, 0).unwrap();
    s.buy_shares(1, 0, 0, 100, 10, 1).unwrap();
    let balance_before = s.get_player(1).unwrap().token_balance;
    s.sell_shares(1, 0, 0, 50, 0, 2).unwrap();
    // 50 shares at the base price of one token each, fee 50/200 = 0.
    assert_eq!(s.get_player(1).unwrap().token_balance, balance_before + 50);
    let m = s.get_market(0).unwrap();
    assert_eq!(m.total_liquidity, 50);
    assert_eq!(m.outcomes[0].total_shares, 50);
    assert_eq!(m.positions[0].shares_by_outcome[0], 50);
}

#[test]
fn sell_validates_position_and_shares() {
    let mut s = fresh();
    s.register_player(1, None, 0).unwrap();
    s.register_player(2, None, 0).unwrap();
    s.create_market(1, "t".to_string(), "d".to_string(), MarketType::QuickPrediction, two_outcomes(), 3600, ResolutionMethod::Automated, 0).unwrap();
    s.buy_shares(1, 0, 0, 100, 10, 1).unwrap();
    assert!(matches!(s.sell_shares(2, 0, 0, 10, 0, 2), Err(ContractError::NoPosition)));
    assert!(matches!(s.sell_shares(1, 0, 0, 500, 0, 2), Err(ContractError::InsufficientShares)));
    assert!(matches!(s.sell_shares(1, 0, 0, 50, 100, 2), Err(ContractError::SlippageExceeded)));
}

#[test]
fn trading_keeps_shares_funded_by_the_pool() {
    let mut s = fresh();
    s.register_player(1, None, 0).unwrap();
    s.create_market(1, "t".to_string(), "d".to_string(), MarketType::QuickPrediction, two_outcomes(), 3600, ResolutionMethod::Automated, 0).unwrap();
    s.buy_shares(1, 0, 0, 100, 10, 1).unwrap();
    // Shares 100, pool 100: the ratio is one, the price sits on the floor.
    assert_eq!(s.get_market(0).unwrap().outcomes[0].current_price, 1000);
    s.buy_shares(1, 0, 0, 300, 10, 2).unwrap();
    // The 300-token purchase carries a 1-token fee, so 299 enter the pool
    // and 299 shares are issued: shares are priced on what the pool
    // receives, which keeps outstanding shares covered by the pool and the
    // ratio at or below one.
    let m = s.get_market(0).unwrap();
    assert_eq!(m.total_liquidity, 399);
    assert_eq!(m.outcomes[0].total_shares, 399);
    assert_eq!(m.outcomes[0].current_price, 1000);
}

#[test]
fn pricing_curve_rises_with_share_ratio() {
    // A market whose outcome holds more shares than the pool covers (as a
    // resolved or externally seeded book could): the curve price leaves the
    // floor. Ratio 400000/399 = 1002; cubed in fixed point with every
    // division rounded down: 1002 -> 1004 -> 1006; the square root of
    // 1006000 is 1002, so one share costs 1.002 tokens.
    let market = Market {
        id: 0,
        creator: 1,
        title: "t".to_string(),
        description: "d".to_string(),
        market_type: MarketType::QuickPrediction,
        outcomes: vec![
            Outcome { id: 0, name: "yes".to_string(), total_shares: 400, current_price: 1000 },
            Outcome { id: 1, name: "no".to_string(), total_shares: 0, current_price: 1000 },
        ],
        creation_time: 0,
        end_time: 3600,
        resolution_time: None,
        status: MarketStatus::Active,
        total_liquidity: 399,
        positions: vec![PlayerPosition {
            player: 1,
            shares_by_outcome: vec![400, 0],
            total_invested: 400,
            entry_time: 0,
        }],
        total_participants: 1,
        base_price: 1,
        smoothing_half_steps: 3,
        winning_outcome: None,
        resolution_method: ResolutionMethod::Automated,
    };
    let price = PredictionMarketContract::calculate_current_price(&market, 0).unwrap();
    assert_eq!(price, 1002);
    // At that price 100 tokens buy 99 shares, rounded down.
    let shares = PredictionMarketContract::calculate_shares_for_amount(&market, 0, 100).unwrap();
    assert_eq!(shares, 99);
    // Selling 100 shares at that price grosses 100.2, rounded down to 100.
    let value = PredictionMarketContract::calculate_sell_value(&market, 0, 100).unwrap();
    assert_eq!(value, 100);
}

#[test]
fn round_trip_never_drains_other_stakes() {
    let mut s = fresh();
    s.register_player(1, None, 0).unwrap();
    s.register_player(2, None, 0).unwrap();
    s.create_market(1, "t".to_string(), "d".to_string(), MarketType::QuickPrediction, two_outcomes(), 3600, ResolutionMethod::Automated, 0).unwrap();
    // Another participant's stake sits in the pool.
    s.buy_shares(2, 0, 1, 500, 10, 1).unwrap();
    let pool_before = s.get_market(0).unwrap().total_liquidity;
    let balance_before = s.get_player(1).unwrap().token_balance;
    // Buy 400 (fee 2, 398 into the pool, 398 shares) and sell it all back.
    s.buy_shares(1, 0, 0, 400, 10, 2).unwrap();
    let shares = s.get_market(0).unwrap().positions[1].shares_by_outcome[0];
    assert_eq!(shares, 398);
    s.sell_shares(1, 0, 0, shares, 0, 3).unwrap();
    // The sale grosses at most the 398 the purchase added, so the pool never
    // drops below the other participant's stake, and the trader cannot end
    // ahead: the round trip costs exactly the two platform fee shares.
    assert_eq!(s.get_market(0).unwrap().total_liquidity, pool_before);
    assert_eq!(s.get_player(1).unwrap().token_balance, balance_before - 2);
}

#[test]
fn trading_fee_credits_creator_and_platform() {
    let mut s = fresh();
    s.register_player(1, None, 0).unwrap();
    s.register_player(2, None, 0).unwrap();
    s.create_market(1, "t".to_string(), "d".to_string(), MarketType::QuickPrediction, two_outcomes(), 3600, ResolutionMethod::Automated, 0).unwrap();
    let creator_before = s.get_player(1).unwrap().token_balance;
    // A 600-token purchase carries a 3-token fee: 1 to the creator, 2 to
    // the platform, 597 into the pool.
    s.buy_shares(2, 0, 0, 600, 10, 1).unwrap();
    assert_eq!(s.get_player(1).unwrap().token_balance, creator_before + 1);
    assert_eq!(s.platform_pool, 2);
    assert_eq!(s.get_market(0).unwrap().total_liquidity, 597);
    assert_eq!(s.get_player(2).unwrap().token_balance, 400);
}

#[test]
fn guild_lifecycle_moves_tokens_conservatively() {
    let mut s = fresh();
    s.register_player(1, None, 0).unwrap();
    s.register_player(2, None, 0).unwrap();
    s.create_guild(1, "guild".to_string(), 0).unwrap();
    assert!(matches!(s.create_guild(1, "again".to_string(), 1), Err(ContractError::AlreadyInGuild)));
    s.join_guild(2, 0).unwrap();
    assert!(matches!(s.join_guild(2, 0), Err(ContractError::AlreadyInGuild)));
    let supply_before = s.total_supply;
    s.contribute_to_guild(2, 100).unwrap();
    assert_eq!(s.get_player(2).unwrap().token_balance, 900);
    assert_eq!(s.guilds[0].shared_pool, 100);
    assert_eq!(s.total_supply, supply_before);
    s.leave_guild(2).unwrap();
    assert_eq!(s.guilds[0].members.len(), 1);
    assert!(matches!(s.contribute_to_guild(2, 10), Err(ContractError::NotGuildMember)));
    assert!(matches!(s.join_guild(1, 7), Err(ContractError::AlreadyInGuild)));
    assert!(matches!(s.contribute_to_guild(1, 100_000), Err(ContractError::InsufficientBalance)));
}

#[test]
fn only_admin_updates_config() {
    let mut s = fresh();
    s.register_player(1, None, 0).unwrap();
    let mut new_config = config();
    new_config.daily_login_reward = 50;
    assert!(matches!(s.update_game_config(1, new_config), Err(ContractError::NotAdmin)));
    let mut new_config = config();
    new_config.daily_login_reward = 50;
    assert!(s.update_game_config(999, new_config).is_ok());
    assert_eq!(s.config.daily_login_reward, 50);
}

#[test]
fn profile_update_changes_only_the_name() {
    let mut s = fresh();
    s.register_player(1, Some("old".to_string()), 0).unwrap();
    let balance = s.get_player(1).unwrap().token_balance;
    s.update_player_profile(1, Some("new".to_string())).unwrap();
    assert_eq!(s.get_player(1).unwrap().display_name, Some("new".to_string()));
    assert_eq!(s.get_player(1).unwrap().token_balance, balance);
    assert!(matches!(s.update_player_profile(9, None), Err(ContractError::PlayerNotFound)));
}

#[test]
fn leaderboard_lists_players_and_guilds() {
    let mut s = fresh();
    s.register_player(1, Some("alice".to_string()), 0).unwrap();
    s.register_player(2, None, 0).unwrap();
    s.create_guild(1, "guild".to_string(), 0).unwrap();
    s.update_enhanced_leaderboard(42);
    assert_eq!(s.leaderboard.top_traders.len(), 2);
    assert_eq!(s.leaderboard.top_traders[0].player_id, 1);
    assert_eq!(s.leaderboard.top_traders[0].display_name, Some("alice".to_string()));
    assert_eq!(s.leaderboard.top_guilds.len(), 1);
    assert_eq!(s.leaderboard.top_guilds[0].member_count, 1);
    assert_eq!(s.leaderboard.last_updated, 42);
}

#[test]
fn dispatcher_routes_operations() {
    let mut s = fresh();
    assert!(s.execute_operation(1, Operation::RegisterPlayer { display_name: None }, 0).is_ok());
    assert_eq!(s.get_player(1).unwrap().token_balance, 1000);
    let r = s.execute_operation(
        1,
        Operation::CreateMarket {
            title: "t".to_string(),
            description: "d".to_string(),
            outcome_names: two_outcomes(),
            duration_seconds: 3600,
            resolution_method: ResolutionMethod::Automated,
        },
        0,
    );
    assert!(r.is_ok());
    let r = s.execute_operation(1, Operation::BuyShares { market_id: 0, outcome_id: 0, amount: 100, max_price_per_share: 10 }, 1);
    assert!(r.is_ok());
    assert_eq!(s.get_market(0).unwrap().total_liquidity, 100);
    let r = s.execute_operation(1, Operation::ClaimWinnings { market_id: 0 }, 2);
    assert!(matches!(r, Err(ContractError::NotResolved)));
}

#[test]
fn messages_are_idempotent_no_ops() {
    let mut s = fresh();
    s.register_player(1, None, 0).unwrap();
    let supply = s.total_supply;
    s.execute_message(Message::MarketCreated { market_id: 0, creator: 1 });
    s.execute_message(Message::MarketCreated { market_id: 0, creator: 1 });
    assert_eq!(s.total_supply, supply);
    assert_eq!(s.players.len(), 1);
}

#[test]
fn buying_awards_experience_and_achievements() {
    let mut s = fresh();
    s.register_player(1, None, 0).unwrap();
    s.create_market(1, "t".to_string(), "d".to_string(), MarketType::QuickPrediction, two_outcomes(), 3600, ResolutionMethod::Automated, 0).unwrap();
    // Ten buys of 10 experience each reach level 2 and trigger the
    // achievement pass; the first prediction unlocks "First Steps" (50
    // tokens, 100 experience).
    for i in 0..10 {
        s.buy_shares(1, 0, 0, 10, 10, 1 + i).unwrap();
    }
    let p = s.get_player(1).unwrap();
    assert_eq!(p.level, 2);
    assert!(p.achievements_earned.contains(&1));
    let unlocked = s
        .events
        .iter()
        .filter(|e| matches!(e, Message::AchievementUnlocked { .. }))
        .count();
    assert!(unlocked >= 1);
}

#[test]
fn selling_also_awards_experience() {
    let mut s = fresh();
    s.register_player(1, None, 0).unwrap();
    s.create_market(1, "t".to_string(), "d".to_string(), MarketType::QuickPrediction, two_outcomes(), 3600, ResolutionMethod::Automated, 0).unwrap();
    // Five buys and five sells of 10 experience each reach level 2; the
    // achievement pass then unlocks "First Steps".
    for i in 0..5 {
        s.buy_shares(1, 0, 0, 10, 10, 1 + i).unwrap();
    }
    for i in 0..5 {
        s.sell_shares(1, 0, 0, 10, 0, 10 + i).unwrap();
    }
    let p = s.get_player(1).unwrap();
    assert_eq!(p.level, 2);
    assert!(p.achievements_earned.contains(&1));
}
