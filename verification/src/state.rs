//! Data model of the prediction-market state machine: players, markets,
//! outcomes, positions, oracle votes, guilds, achievements, the leaderboard,
//! and the well-formedness invariants that every operation preserves.

use vstd::prelude::*;

use crate::pricing::PRICE_SCALE;

verus! {

pub type PlayerId = u64;

pub type MarketId = u64;

/// Outcomes of a market carry dense ids `0 .. outcomes.len()`.
pub type OutcomeId = usize;

pub type GuildId = u64;

pub type AchievementId = u64;

/// Largest base price a market may carry; keeps `base_price * PRICE_SCALE`
/// well inside `u64`.
pub const MAX_BASE_PRICE: u64 = 1_000_000_000;

/// Tunable game parameters, consumed read-only by the operations and replaced
/// atomically by the configured admin.
#[verifier::ext_equal]
pub struct GameConfig {
    pub initial_player_tokens: u64,
    pub daily_login_reward: u64,
    pub market_creation_cost: u64,
    pub max_outcomes_per_market: usize,
    pub min_market_duration_seconds: u64,
    pub oracle_voting_duration_seconds: u64,
    pub admin: Option<PlayerId>,
}

#[derive(Clone, Copy, PartialEq, Eq, Structural, Debug)]
pub enum MarketType {
    QuickPrediction,
}

#[derive(Clone, Copy, PartialEq, Eq, Structural, Debug)]
pub enum MarketStatus {
    Active,
    Closed,
    Resolved,
}

#[derive(Clone, Copy, PartialEq, Eq, Structural, Debug)]
pub enum ResolutionMethod {
    OracleVoting,
    Automated,
    CreatorDecides,
}

/// One discrete possible result of a market.
///
/// `current_price` is the price of one share in fixed-point units scaled by
/// [`PRICE_SCALE`]; it never drops below `base_price * PRICE_SCALE`.
#[verifier::ext_equal]
pub struct Outcome {
    pub id: OutcomeId,
    pub name: String,
    pub total_shares: u64,
    pub current_price: u64,
}

/// A participant's holdings within one market: one share count per outcome
/// (dense, indexed by outcome id), the lifetime amount invested, and the time
/// of first entry.
#[verifier::ext_equal]
pub struct PlayerPosition {
    pub player: PlayerId,
    pub shares_by_outcome: Vec<u64>,
    pub total_invested: u64,
    pub entry_time: u64,
}

/// A prediction market. Status moves one-directionally through
/// Active -> Closed -> Resolved; `total_liquidity` is the token pool currently
/// escrowed in the market (stakes in, sale proceeds and payouts out).
#[verifier::ext_equal]
pub struct Market {
    pub id: MarketId,
    pub creator: PlayerId,
    pub title: String,
    pub description: String,
    pub market_type: MarketType,
    pub outcomes: Vec<Outcome>,
    pub creation_time: u64,
    pub end_time: u64,
    pub resolution_time: Option<u64>,
    pub status: MarketStatus,
    pub total_liquidity: u64,
    pub positions: Vec<PlayerPosition>,
    pub total_participants: u64,
    pub base_price: u64,
    /// Exponent of the pricing curve counted in halves: `3` means `1.5`.
    pub smoothing_half_steps: u64,
    pub winning_outcome: Option<OutcomeId>,
    pub resolution_method: ResolutionMethod,
}

/// Accumulated oracle votes for one outcome.
#[derive(Clone, Copy, PartialEq, Eq, Structural, Debug)]
pub struct WeightedVotes {
    pub total_weight: u64,
    pub voter_count: u64,
}

/// Oracle-voting record of one market: the voting window, one weight
/// accumulator per outcome (dense, indexed by outcome id), and the distinct
/// identities that have voted.
#[verifier::ext_equal]
pub struct OracleVoting {
    pub market_id: MarketId,
    pub voting_start: u64,
    pub voting_end: u64,
    pub votes: Vec<WeightedVotes>,
    pub voters: Vec<PlayerId>,
    pub resolved: bool,
}

#[verifier::ext_equal]
pub struct Achievement {
    pub id: AchievementId,
    pub name: String,
    pub description: String,
    pub reward_tokens: u64,
    pub reward_xp: u64,
    pub requirement: AchievementRequirement,
}

#[derive(Clone, Copy, PartialEq, Eq, Structural, Debug)]
pub enum AchievementRequirement {
    WinMarkets(u64),
    WinStreak(u64),
    TotalProfit(u64),
    ParticipateInMarkets(u64),
    CreateMarkets(u64),
    JoinGuild,
    ReachLevel(u64),
}

/// Per-identity account: token balance, lifetime counters, progression, and
/// id-based back-references to guild and markets.
#[verifier::ext_equal]
pub struct Player {
    pub id: PlayerId,
    pub display_name: Option<String>,
    pub registration_time: u64,
    pub last_login: u64,
    pub token_balance: u64,
    pub total_earned: u64,
    pub total_spent: u64,
    pub level: u64,
    pub experience_points: u64,
    pub reputation: u64,
    pub markets_participated: u64,
    pub markets_won: u64,
    pub total_profit: u64,
    pub win_streak: u64,
    pub best_win_streak: u64,
    pub guild_id: Option<GuildId>,
    pub achievements_earned: Vec<AchievementId>,
    pub active_markets: Vec<MarketId>,
}

#[verifier::ext_equal]
pub struct Guild {
    pub id: GuildId,
    pub name: String,
    pub founder: PlayerId,
    pub members: Vec<PlayerId>,
    pub creation_time: u64,
    pub total_guild_profit: u64,
    pub guild_level: u64,
    pub shared_pool: u64,
}

#[verifier::ext_equal]
pub struct LeaderboardEntry {
    pub player_id: PlayerId,
    pub display_name: Option<String>,
    pub total_profit: u64,
    /// Won markets per hundred participated, rounded down.
    pub win_rate_percent: u64,
    pub level: u64,
}

#[verifier::ext_equal]
pub struct GuildLeaderboardEntry {
    pub guild_id: GuildId,
    pub name: String,
    pub total_profit: u64,
    pub member_count: u64,
}

#[verifier::ext_equal]
pub struct Leaderboard {
    pub top_traders: Vec<LeaderboardEntry>,
    pub top_guilds: Vec<GuildLeaderboardEntry>,
    pub last_updated: u64,
}

/// Fire-and-forget notification recorded by an operation; consumers must
/// tolerate duplicate delivery, so correctness never depends on these.
#[verifier::ext_equal]
pub enum Message {
    MarketCreated { market_id: MarketId, creator: PlayerId },
    MarketResolved { market_id: MarketId, winning_outcome: OutcomeId },
    TradeExecuted {
        player_id: PlayerId,
        market_id: MarketId,
        outcome_id: OutcomeId,
        shares: u64,
        price: u64,
    },
    PlayerLeveledUp { player_id: PlayerId, new_level: u64 },
    AchievementUnlocked { player_id: PlayerId, achievement_id: AchievementId },
    GuildCreated { guild_id: GuildId, name: String },
}

// ---------------------------------------------------------------------------
// Sums used by the conservation invariant and the share accounting
// ---------------------------------------------------------------------------

pub open spec fn sum_balances(s: Seq<Player>) -> int
    decreases s.len(),
{
    if s.len() == 0 {
        0
    } else {
        sum_balances(s.drop_last()) + s.last().token_balance
    }
}

pub open spec fn sum_pools(s: Seq<Guild>) -> int
    decreases s.len(),
{
    if s.len() == 0 {
        0
    } else {
        sum_pools(s.drop_last()) + s.last().shared_pool
    }
}

pub open spec fn sum_liquidity(s: Seq<Market>) -> int
    decreases s.len(),
{
    if s.len() == 0 {
        0
    } else {
        sum_liquidity(s.drop_last()) + s.last().total_liquidity
    }
}

/// Sum over all positions of the shares held in outcome `o`.
pub open spec fn sum_shares_at(s: Seq<PlayerPosition>, o: int) -> int
    decreases s.len(),
{
    if s.len() == 0 {
        0
    } else {
        sum_shares_at(s.drop_last(), o) + if 0 <= o < s.last().shares_by_outcome.len() {
            s.last().shares_by_outcome[o] as int
        } else {
            0
        }
    }
}

pub proof fn lemma_sum_balances_update(s: Seq<Player>, i: int, p: Player)
    requires
        0 <= i < s.len(),
    ensures
        sum_balances(s.update(i, p)) == sum_balances(s) - s[i].token_balance + p.token_balance,
    decreases s.len(),
{
    let t = s.update(i, p);
    if i == s.len() - 1 {
        assert(t.drop_last() =~= s.drop_last());
    } else {
        lemma_sum_balances_update(s.drop_last(), i, p);
        assert(t.drop_last() =~= s.drop_last().update(i, p));
    }
}

pub proof fn lemma_sum_balances_push(s: Seq<Player>, p: Player)
    ensures
        sum_balances(s.push(p)) == sum_balances(s) + p.token_balance,
{
    assert(s.push(p).drop_last() =~= s);
}

pub proof fn lemma_sum_pools_update(s: Seq<Guild>, i: int, g: Guild)
    requires
        0 <= i < s.len(),
    ensures
        sum_pools(s.update(i, g)) == sum_pools(s) - s[i].shared_pool + g.shared_pool,
    decreases s.len(),
{
    let t = s.update(i, g);
    if i == s.len() - 1 {
        assert(t.drop_last() =~= s.drop_last());
    } else {
        lemma_sum_pools_update(s.drop_last(), i, g);
        assert(t.drop_last() =~= s.drop_last().update(i, g));
    }
}

pub proof fn lemma_sum_pools_push(s: Seq<Guild>, g: Guild)
    ensures
        sum_pools(s.push(g)) == sum_pools(s) + g.shared_pool,
{
    assert(s.push(g).drop_last() =~= s);
}

pub proof fn lemma_sum_liquidity_update(s: Seq<Market>, i: int, m: Market)
    requires
        0 <= i < s.len(),
    ensures
        sum_liquidity(s.update(i, m)) == sum_liquidity(s) - s[i].total_liquidity
            + m.total_liquidity,
    decreases s.len(),
{
    let t = s.update(i, m);
    if i == s.len() - 1 {
        assert(t.drop_last() =~= s.drop_last());
    } else {
        lemma_sum_liquidity_update(s.drop_last(), i, m);
        assert(t.drop_last() =~= s.drop_last().update(i, m));
    }
}

pub proof fn lemma_sum_liquidity_push(s: Seq<Market>, m: Market)
    ensures
        sum_liquidity(s.push(m)) == sum_liquidity(s) + m.total_liquidity,
{
    assert(s.push(m).drop_last() =~= s);
}

pub proof fn lemma_sum_shares_at_update(s: Seq<PlayerPosition>, i: int, p: PlayerPosition, o: int)
    requires
        0 <= i < s.len(),
    ensures
        sum_shares_at(s.update(i, p), o) == sum_shares_at(s, o) - (if 0 <= o
            < s[i].shares_by_outcome.len() {
            s[i].shares_by_outcome[o] as int
        } else {
            0
        }) + (if 0 <= o < p.shares_by_outcome.len() {
            p.shares_by_outcome[o] as int
        } else {
            0
        }),
    decreases s.len(),
{
    let t = s.update(i, p);
    if i == s.len() - 1 {
        assert(t.drop_last() =~= s.drop_last());
    } else {
        lemma_sum_shares_at_update(s.drop_last(), i, p, o);
        assert(t.drop_last() =~= s.drop_last().update(i, p));
    }
}

pub proof fn lemma_sum_shares_at_push(s: Seq<PlayerPosition>, p: PlayerPosition, o: int)
    ensures
        sum_shares_at(s.push(p), o) == sum_shares_at(s, o) + if 0 <= o
            < p.shares_by_outcome.len() {
            p.shares_by_outcome[o] as int
        } else {
            0
        },
{
    assert(s.push(p).drop_last() =~= s);
}

/// A position's share count in outcome `o` never exceeds the outcome's sum
/// over all positions.
pub proof fn lemma_sum_shares_at_bound(s: Seq<PlayerPosition>, i: int, o: int)
    requires
        0 <= i < s.len(),
        forall|k: int|
            0 <= k < s.len() ==> forall|j: int|
                0 <= j < (#[trigger] s[k]).shares_by_outcome.len() ==> s[k].shares_by_outcome[j]
                    >= 0,
    ensures
        0 <= o < s[i].shares_by_outcome.len() ==> s[i].shares_by_outcome[o] <= sum_shares_at(s, o),
        sum_shares_at(s, o) >= 0,
    decreases s.len(),
{
    if s.len() > 0 {
        if i == s.len() - 1 {
            lemma_sum_shares_at_nonneg(s.drop_last(), o);
        } else {
            lemma_sum_shares_at_bound(s.drop_last(), i, o);
        }
    }
}

pub proof fn lemma_sum_shares_at_nonneg(s: Seq<PlayerPosition>, o: int)
    ensures
        sum_shares_at(s, o) >= 0,
    decreases s.len(),
{
    if s.len() > 0 {
        lemma_sum_shares_at_nonneg(s.drop_last(), o);
    }
}

pub proof fn lemma_sum_balances_nonneg(s: Seq<Player>)
    ensures
        sum_balances(s) >= 0,
    decreases s.len(),
{
    if s.len() > 0 {
        lemma_sum_balances_nonneg(s.drop_last());
    }
}

/// A single balance never exceeds the sum of all balances.
pub proof fn lemma_sum_balances_bound(s: Seq<Player>, i: int)
    requires
        0 <= i < s.len(),
    ensures
        s[i].token_balance <= sum_balances(s),
    decreases s.len(),
{
    if i == s.len() - 1 {
        lemma_sum_balances_nonneg(s.drop_last());
    } else {
        lemma_sum_balances_bound(s.drop_last(), i);
    }
}

/// Two distinct balances never exceed the sum of all balances together.
pub proof fn lemma_sum_balances_pair_bound(s: Seq<Player>, i: int, j: int)
    requires
        0 <= i < s.len(),
        0 <= j < s.len(),
        i != j,
    ensures
        s[i].token_balance + s[j].token_balance <= sum_balances(s),
    decreases s.len(),
{
    if i == s.len() - 1 {
        lemma_sum_balances_bound(s.drop_last(), j);
    } else if j == s.len() - 1 {
        lemma_sum_balances_bound(s.drop_last(), i);
    } else {
        lemma_sum_balances_pair_bound(s.drop_last(), i, j);
    }
}

pub proof fn lemma_sum_pools_nonneg(s: Seq<Guild>)
    ensures
        sum_pools(s) >= 0,
    decreases s.len(),
{
    if s.len() > 0 {
        lemma_sum_pools_nonneg(s.drop_last());
    }
}

/// A single shared pool never exceeds the sum of all pools.
pub proof fn lemma_sum_pools_bound(s: Seq<Guild>, i: int)
    requires
        0 <= i < s.len(),
    ensures
        s[i].shared_pool <= sum_pools(s),
    decreases s.len(),
{
    if i == s.len() - 1 {
        lemma_sum_pools_nonneg(s.drop_last());
    } else {
        lemma_sum_pools_bound(s.drop_last(), i);
    }
}

pub proof fn lemma_sum_liquidity_nonneg(s: Seq<Market>)
    ensures
        sum_liquidity(s) >= 0,
    decreases s.len(),
{
    if s.len() > 0 {
        lemma_sum_liquidity_nonneg(s.drop_last());
    }
}

/// A single market's pool never exceeds the sum of all market pools.
pub proof fn lemma_sum_liquidity_bound(s: Seq<Market>, i: int)
    requires
        0 <= i < s.len(),
    ensures
        s[i].total_liquidity <= sum_liquidity(s),
    decreases s.len(),
{
    if i == s.len() - 1 {
        lemma_sum_liquidity_nonneg(s.drop_last());
    } else {
        lemma_sum_liquidity_bound(s.drop_last(), i);
    }
}

// ---------------------------------------------------------------------------
// Leaderboard
// ---------------------------------------------------------------------------

/// Won markets per hundred participated, rounded down and saturated to `u64`;
/// zero for a player who never participated.
pub open spec fn win_rate_percent_spec(won: int, participated: int) -> int {
    if participated <= 0 {
        0
    } else if won * 100 / participated > u64::MAX {
        u64::MAX as int
    } else {
        won * 100 / participated
    }
}

pub open spec fn is_trader_entry(e: LeaderboardEntry, p: Player) -> bool {
    &&& e.player_id == p.id
    &&& e.display_name == p.display_name
    &&& e.total_profit == p.total_profit
    &&& e.win_rate_percent as int == win_rate_percent_spec(
        p.markets_won as int,
        p.markets_participated as int,
    )
    &&& e.level == p.level
}

pub open spec fn is_guild_entry(e: GuildLeaderboardEntry, g: Guild) -> bool {
    &&& e.guild_id == g.id
    &&& e.name == g.name
    &&& e.total_profit == g.total_guild_profit
    &&& e.member_count as int == g.members@.len() as int
}

/// The refreshed leaderboard: the first fifty players and first twenty guilds
/// in stored (registration) order, which is the deterministic ranking induced
/// by the scoring rule that assigns every entry the same score.
pub open spec fn is_leaderboard_of(
    lb: Leaderboard,
    players: Seq<Player>,
    guilds: Seq<Guild>,
    now: u64,
) -> bool {
    &&& lb.last_updated == now
    &&& lb.top_traders@.len() == if players.len() < 50 {
        players.len() as int
    } else {
        50
    }
    &&& forall|j: int|
        0 <= j < lb.top_traders@.len() ==> is_trader_entry(
            #[trigger] lb.top_traders@[j],
            players[j],
        )
    &&& lb.top_guilds@.len() == if guilds.len() < 20 {
        guilds.len() as int
    } else {
        20
    }
    &&& forall|j: int|
        0 <= j < lb.top_guilds@.len() ==> is_guild_entry(#[trigger] lb.top_guilds@[j], guilds[j])
}

// ---------------------------------------------------------------------------
// Lookup by id
// ---------------------------------------------------------------------------

pub open spec fn find_player_idx(s: Seq<Player>, id: PlayerId) -> int
    decreases s.len(),
{
    if s.len() == 0 {
        -1
    } else if s.last().id == id {
        s.len() - 1
    } else {
        find_player_idx(s.drop_last(), id)
    }
}

pub proof fn lemma_find_player_idx(s: Seq<Player>, id: PlayerId)
    ensures
        find_player_idx(s, id) >= -1,
        find_player_idx(s, id) >= 0 ==> 0 <= find_player_idx(s, id) < s.len() && s[find_player_idx(
            s,
            id,
        )].id == id,
        find_player_idx(s, id) == -1 ==> forall|j: int| 0 <= j < s.len() ==> (#[trigger] s[j]).id
            != id,
    decreases s.len(),
{
    if s.len() > 0 {
        lemma_find_player_idx(s.drop_last(), id);
        if find_player_idx(s, id) == -1 {
            assert forall|j: int| 0 <= j < s.len() implies (#[trigger] s[j]).id != id by {
                if j < s.len() - 1 {
                    assert(s[j] == s.drop_last()[j]);
                }
            }
        }
    }
}

pub open spec fn find_market_idx(s: Seq<Market>, id: MarketId) -> int
    decreases s.len(),
{
    if s.len() == 0 {
        -1
    } else if s.last().id == id {
        s.len() - 1
    } else {
        find_market_idx(s.drop_last(), id)
    }
}

pub proof fn lemma_find_market_idx(s: Seq<Market>, id: MarketId)
    ensures
        find_market_idx(s, id) >= -1,
        find_market_idx(s, id) >= 0 ==> 0 <= find_market_idx(s, id) < s.len() && s[find_market_idx(
            s,
            id,
        )].id == id,
        find_market_idx(s, id) == -1 ==> forall|j: int| 0 <= j < s.len() ==> (#[trigger] s[j]).id
            != id,
    decreases s.len(),
{
    if s.len() > 0 {
        lemma_find_market_idx(s.drop_last(), id);
        if find_market_idx(s, id) == -1 {
            assert forall|j: int| 0 <= j < s.len() implies (#[trigger] s[j]).id != id by {
                if j < s.len() - 1 {
                    assert(s[j] == s.drop_last()[j]);
                }
            }
        }
    }
}

pub open spec fn find_guild_idx(s: Seq<Guild>, id: GuildId) -> int
    decreases s.len(),
{
    if s.len() == 0 {
        -1
    } else if s.last().id == id {
        s.len() - 1
    } else {
        find_guild_idx(s.drop_last(), id)
    }
}

pub proof fn lemma_find_guild_idx(s: Seq<Guild>, id: GuildId)
    ensures
        find_guild_idx(s, id) >= -1,
        find_guild_idx(s, id) >= 0 ==> 0 <= find_guild_idx(s, id) < s.len() && s[find_guild_idx(
            s,
            id,
        )].id == id,
        find_guild_idx(s, id) == -1 ==> forall|j: int| 0 <= j < s.len() ==> (#[trigger] s[j]).id
            != id,
    decreases s.len(),
{
    if s.len() > 0 {
        lemma_find_guild_idx(s.drop_last(), id);
        if find_guild_idx(s, id) == -1 {
            assert forall|j: int| 0 <= j < s.len() implies (#[trigger] s[j]).id != id by {
                if j < s.len() - 1 {
                    assert(s[j] == s.drop_last()[j]);
                }
            }
        }
    }
}

pub open spec fn find_voting_idx(s: Seq<OracleVoting>, id: MarketId) -> int
    decreases s.len(),
{
    if s.len() == 0 {
        -1
    } else if s.last().market_id == id {
        s.len() - 1
    } else {
        find_voting_idx(s.drop_last(), id)
    }
}

pub proof fn lemma_find_voting_idx(s: Seq<OracleVoting>, id: MarketId)
    ensures
        find_voting_idx(s, id) >= -1,
        find_voting_idx(s, id) >= 0 ==> 0 <= find_voting_idx(s, id) < s.len() && s[find_voting_idx(
            s,
            id,
        )].market_id == id,
        find_voting_idx(s, id) == -1 ==> forall|j: int|
            0 <= j < s.len() ==> (#[trigger] s[j]).market_id != id,
    decreases s.len(),
{
    if s.len() > 0 {
        lemma_find_voting_idx(s.drop_last(), id);
        if find_voting_idx(s, id) == -1 {
            assert forall|j: int| 0 <= j < s.len() implies (#[trigger] s[j]).market_id != id by {
                if j < s.len() - 1 {
                    assert(s[j] == s.drop_last()[j]);
                }
            }
        }
    }
}

pub open spec fn find_position_idx(s: Seq<PlayerPosition>, player: PlayerId) -> int
    decreases s.len(),
{
    if s.len() == 0 {
        -1
    } else if s.last().player == player {
        s.len() - 1
    } else {
        find_position_idx(s.drop_last(), player)
    }
}

pub proof fn lemma_find_position_idx(s: Seq<PlayerPosition>, player: PlayerId)
    ensures
        find_position_idx(s, player) >= -1,
        find_position_idx(s, player) >= 0 ==> 0 <= find_position_idx(s, player) < s.len()
            && s[find_position_idx(s, player)].player == player,
        find_position_idx(s, player) == -1 ==> forall|j: int|
            0 <= j < s.len() ==> (#[trigger] s[j]).player != player,
    decreases s.len(),
{
    if s.len() > 0 {
        lemma_find_position_idx(s.drop_last(), player);
        if find_position_idx(s, player) == -1 {
            assert forall|j: int| 0 <= j < s.len() implies (#[trigger] s[j]).player != player by {
                if j < s.len() - 1 {
                    assert(s[j] == s.drop_last()[j]);
                }
            }
        }
    }
}

/// Appending a market with a different id does not change a lookup.
pub proof fn lemma_find_market_idx_push(s: Seq<Market>, m: Market, id: MarketId)
    requires
        m.id != id,
    ensures
        find_market_idx(s.push(m), id) == find_market_idx(s, id),
{
    assert(s.push(m).drop_last() =~= s);
    assert(s.push(m).last() == m);
}

/// Replacing a market in place (same id) moves no lookup index.
pub proof fn lemma_find_market_idx_update(s: Seq<Market>, i: int, m: Market)
    requires
        0 <= i < s.len(),
        m.id == s[i].id,
    ensures
        forall|id: MarketId| find_market_idx(s.update(i, m), id) == find_market_idx(s, id),
    decreases s.len(),
{
    assert forall|id: MarketId| find_market_idx(s.update(i, m), id) == find_market_idx(s, id) by {
        lemma_find_market_idx_update_one(s, i, m, id);
    }
}

proof fn lemma_find_market_idx_update_one(s: Seq<Market>, i: int, m: Market, id: MarketId)
    requires
        0 <= i < s.len(),
        m.id == s[i].id,
    ensures
        find_market_idx(s.update(i, m), id) == find_market_idx(s, id),
    decreases s.len(),
{
    let t = s.update(i, m);
    if i == s.len() - 1 {
        assert(t.drop_last() =~= s.drop_last());
        assert(t.last() == m);
    } else {
        assert(t.drop_last() =~= s.drop_last().update(i, m));
        assert(t.last() == s.last());
        lemma_find_market_idx_update_one(s.drop_last(), i, m, id);
    }
}

/// Replacing a position in place (same player) moves no lookup index.
pub proof fn lemma_find_position_idx_update(s: Seq<PlayerPosition>, i: int, p: PlayerPosition)
    requires
        0 <= i < s.len(),
        p.player == s[i].player,
    ensures
        forall|id: PlayerId| find_position_idx(s.update(i, p), id) == find_position_idx(s, id),
    decreases s.len(),
{
    assert forall|id: PlayerId|
        find_position_idx(s.update(i, p), id) == find_position_idx(s, id) by {
        lemma_find_position_idx_update_one(s, i, p, id);
    }
}

proof fn lemma_find_position_idx_update_one(
    s: Seq<PlayerPosition>,
    i: int,
    p: PlayerPosition,
    id: PlayerId,
)
    requires
        0 <= i < s.len(),
        p.player == s[i].player,
    ensures
        find_position_idx(s.update(i, p), id) == find_position_idx(s, id),
    decreases s.len(),
{
    let t = s.update(i, p);
    if i == s.len() - 1 {
        assert(t.drop_last() =~= s.drop_last());
        assert(t.last() == p);
    } else {
        assert(t.drop_last() =~= s.drop_last().update(i, p));
        assert(t.last() == s.last());
        lemma_find_position_idx_update_one(s.drop_last(), i, p, id);
    }
}

// ---------------------------------------------------------------------------
// Well-formedness
// ---------------------------------------------------------------------------

/// Internal consistency of one market: dense outcome ids, a coherent
/// lifecycle, prices at or above the base-price floor, distinct positions
/// sized to the outcome list, and share accounting that ties each outcome's
/// `total_shares` to the sum over all positions.
pub open spec fn wf_market(m: Market) -> bool {
    &&& m.outcomes.len() >= 2
    &&& forall|i: int| 0 <= i < m.outcomes.len() ==> (#[trigger] m.outcomes[i]).id == i
    &&& m.end_time > m.creation_time
    &&& ((m.status is Resolved) <==> (m.winning_outcome is Some))
    &&& ((m.status is Resolved) <==> (m.resolution_time is Some))
    &&& (m.winning_outcome matches Some(w) ==> (w as int) < m.outcomes.len())
    &&& 1 <= m.base_price <= MAX_BASE_PRICE
    &&& forall|i: int|
        0 <= i < m.outcomes.len() ==> (#[trigger] m.outcomes[i]).current_price >= m.base_price
            * PRICE_SCALE
    &&& forall|i: int, j: int|
        0 <= i < j < m.positions.len() ==> m.positions[i].player != m.positions[j].player
    &&& forall|i: int|
        0 <= i < m.positions.len() ==> (#[trigger] m.positions[i]).shares_by_outcome.len()
            == m.outcomes.len()
    &&& forall|o: int|
        0 <= o < m.outcomes.len() ==> sum_shares_at(m.positions@, o) == (
        #[trigger] m.outcomes[o]).total_shares
    &&& m.total_participants == m.positions.len()
}

/// Internal consistency of one oracle-voting record.
pub open spec fn wf_voting(v: OracleVoting) -> bool {
    &&& forall|i: int, j: int| 0 <= i < j < v.voters.len() ==> v.voters[i] != v.voters[j]
    &&& v.voting_start <= v.voting_end
}

} // verus!
