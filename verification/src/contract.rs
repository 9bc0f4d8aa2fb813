//! The prediction-market state machine: one in-memory state struct and one
//! method per operation. Every method validates before it mutates, so a
//! rejected operation leaves the state exactly as it found it, and every
//! method preserves well-formedness, including the token-conservation
//! invariant.

use vstd::prelude::*;

use crate::Operation;
use crate::pricing::PRICE_SCALE;
use crate::state::Achievement;
use crate::state::AchievementId;
use crate::state::AchievementRequirement;
use crate::state::GameConfig;
use crate::state::Guild;
use crate::state::GuildId;
use crate::state::GuildLeaderboardEntry;
use crate::state::Leaderboard;
use crate::state::LeaderboardEntry;
use crate::state::Market;
use crate::state::MarketId;
use crate::state::MarketStatus;
use crate::state::MarketType;
use crate::state::Message;
use crate::state::OracleVoting;
use crate::state::Outcome;
use crate::state::OutcomeId;
use crate::state::Player;
use crate::state::PlayerId;
use crate::state::PlayerPosition;
use crate::state::ResolutionMethod;
use crate::state::WeightedVotes;
use crate::state::find_guild_idx;
use crate::state::is_guild_entry;
use crate::state::is_leaderboard_of;
use crate::state::is_trader_entry;
use crate::state::find_market_idx;
use crate::state::find_player_idx;
use crate::state::find_position_idx;
use crate::state::find_voting_idx;
use crate::state::lemma_find_guild_idx;
use crate::state::lemma_find_market_idx;
use crate::state::lemma_find_player_idx;
use crate::state::lemma_find_position_idx;
use crate::state::lemma_find_voting_idx;
use crate::state::lemma_find_market_idx_push;
use crate::state::lemma_find_market_idx_update;
use crate::state::lemma_sum_balances_bound;
use crate::state::lemma_sum_balances_pair_bound;
use crate::state::lemma_sum_balances_push;
use crate::state::lemma_sum_balances_update;
use crate::state::lemma_sum_liquidity_bound;
use crate::state::lemma_sum_liquidity_nonneg;
use crate::state::lemma_sum_liquidity_push;
use crate::state::lemma_sum_liquidity_update;
use crate::state::lemma_sum_pools_bound;
use crate::state::lemma_sum_pools_nonneg;
use crate::state::lemma_sum_pools_push;
use crate::state::lemma_sum_pools_update;
use crate::state::lemma_sum_shares_at_bound;
use crate::state::lemma_sum_shares_at_push;
use crate::state::lemma_sum_shares_at_update;
use crate::state::sum_balances;
use crate::state::sum_liquidity;
use crate::state::sum_pools;
use crate::state::sum_shares_at;
use crate::state::wf_market;
use crate::state::wf_voting;

verus! {

/// Why an operation was rejected. A rejected operation mutates nothing.
#[derive(Clone, Copy, PartialEq, Eq, Structural, Debug)]
pub enum ContractError {
    Unauthorized,
    PlayerAlreadyExists,
    DailyRewardAlreadyClaimed,
    InvalidOutcomeCount,
    DurationTooShort,
    InsufficientBalance,
    MarketNotActive,
    MarketEnded,
    InvalidOutcome,
    SlippageExceeded,
    NoPosition,
    InsufficientShares,
    MarketNotReadyForVoting,
    InvalidResolutionMethod,
    AlreadyVoted,
    MarketNotEnded,
    PlayerNotFound,
    MarketNotFound,
    GuildNotFound,
    AlreadyInGuild,
    NotGuildMember,
    NotAdmin,
    OracleNotReady,
    NotResolved,
    NoWinnings,
    /// A checked arithmetic step did not fit its machine type; distinct from
    /// every business error, and the operation mutates nothing.
    ArithmeticOverflow,
}

/// The whole replicated state: configuration, the token ledger, markets with
/// their positions, oracle votes, guilds, the achievement catalog, the
/// leaderboard, and the log of emitted notifications.
#[verifier::ext_equal]
pub struct PredictionMarketContract {
    pub config: GameConfig,
    pub total_supply: u64,
    /// Fee share retained by the platform; a tracked pool under conservation.
    pub platform_pool: u64,
    pub next_market_id: MarketId,
    pub next_guild_id: GuildId,
    pub players: Vec<Player>,
    pub markets: Vec<Market>,
    pub guilds: Vec<Guild>,
    pub oracle_votes: Vec<OracleVoting>,
    pub achievements: Vec<Achievement>,
    pub leaderboard: Leaderboard,
    pub events: Vec<Message>,
}

impl PredictionMarketContract {
    /// Token conservation: the recorded total supply equals the sum of every
    /// player balance, guild shared pool, market escrow pool, and the
    /// platform's fee pool.
    pub open spec fn conserves_tokens(self) -> bool {
        self.total_supply as int == sum_balances(self.players@) + sum_pools(self.guilds@)
            + sum_liquidity(self.markets@) + self.platform_pool as int
    }

    /// Well-formedness, preserved by every operation: distinct ids below
    /// their counters, per-market internal consistency, oracle records tied
    /// to their market's outcome list, and token conservation.
    pub open spec fn wf(self) -> bool {
        &&& forall|i: int, j: int|
            0 <= i < j < self.players.len() ==> self.players[i].id != self.players[j].id
        &&& forall|i: int| 0 <= i < self.players.len() ==> (#[trigger] self.players[i]).level >= 1
        &&& forall|i: int, j: int|
            0 <= i < j < self.markets.len() ==> self.markets[i].id != self.markets[j].id
        &&& forall|i: int, j: int|
            0 <= i < j < self.guilds.len() ==> self.guilds[i].id != self.guilds[j].id
        &&& forall|i: int, j: int|
            0 <= i < j < self.oracle_votes.len() ==> self.oracle_votes[i].market_id
                != self.oracle_votes[j].market_id
        &&& forall|i: int|
            0 <= i < self.markets.len() ==> (#[trigger] self.markets[i]).id < self.next_market_id
        &&& forall|i: int|
            0 <= i < self.guilds.len() ==> (#[trigger] self.guilds[i]).id < self.next_guild_id
        &&& forall|i: int| 0 <= i < self.markets.len() ==> wf_market(#[trigger] self.markets[i])
        &&& forall|i: int|
            0 <= i < self.oracle_votes.len() ==> wf_voting(#[trigger] self.oracle_votes[i])
        &&& forall|i: int|
            0 <= i < self.oracle_votes.len() ==> {
                let mi = find_market_idx(self.markets@, (#[trigger] self.oracle_votes[i]).market_id);
                &&& mi >= 0
                &&& self.oracle_votes[i].votes.len() == self.markets@[mi].outcomes.len()
            }
        &&& self.conserves_tokens()
    }

    /// Instantiate the game: the supplied configuration, an empty ledger with
    /// zero supply, the fixed achievement catalog, and an empty leaderboard.
    pub fn instantiate(config: GameConfig, current_time: u64) -> (s: Self)
        ensures
            s.wf(),
            s.config == config,
            s.total_supply == 0,
            s.platform_pool == 0,
            s.players@.len() == 0,
            s.markets@.len() == 0,
            s.guilds@.len() == 0,
            s.oracle_votes@.len() == 0,
            s.events@.len() == 0,
            s.next_market_id == 0,
            s.next_guild_id == 0,
            Self::is_fixed_catalog(s.achievements@),
            s.leaderboard.top_traders@.len() == 0,
            s.leaderboard.top_guilds@.len() == 0,
            s.leaderboard.last_updated == current_time,
    {
        let achievements = Self::initialize_achievements();
        PredictionMarketContract {
            config,
            total_supply: 0,
            platform_pool: 0,
            next_market_id: 0,
            next_guild_id: 0,
            players: Vec::new(),
            markets: Vec::new(),
            guilds: Vec::new(),
            oracle_votes: Vec::new(),
            achievements,
            leaderboard: Leaderboard {
                top_traders: Vec::new(),
                top_guilds: Vec::new(),
                last_updated: current_time,
            },
            events: Vec::new(),
        }
    }

    /// The fixed achievement catalog: exactly these seven entries, in this
    /// order, with these rewards and requirements.
    pub open spec fn is_fixed_catalog(v: Seq<Achievement>) -> bool {
        &&& v.len() == 7
        &&& v[0].id == 1 && v[0].name@ == "First Steps"@ && v[0].description@
            == "Make your first prediction"@ && v[0].reward_tokens == 50 && v[0].reward_xp == 100
            && v[0].requirement == AchievementRequirement::ParticipateInMarkets(1)
        &&& v[1].id == 2 && v[1].name@ == "Market Maker"@ && v[1].description@
            == "Create 5 markets"@ && v[1].reward_tokens == 200 && v[1].reward_xp == 500
            && v[1].requirement == AchievementRequirement::CreateMarkets(5)
        &&& v[2].id == 3 && v[2].name@ == "Prediction Master"@ && v[2].description@
            == "Win 10 markets"@ && v[2].reward_tokens == 500 && v[2].reward_xp == 1000
            && v[2].requirement == AchievementRequirement::WinMarkets(10)
        &&& v[3].id == 4 && v[3].name@ == "Hot Streak"@ && v[3].description@
            == "Win 5 markets in a row"@ && v[3].reward_tokens == 300 && v[3].reward_xp == 750
            && v[3].requirement == AchievementRequirement::WinStreak(5)
        &&& v[4].id == 5 && v[4].name@ == "Big Spender"@ && v[4].description@
            == "Earn 1000 points profit"@ && v[4].reward_tokens == 1000 && v[4].reward_xp == 2000
            && v[4].requirement == AchievementRequirement::TotalProfit(1000)
        &&& v[5].id == 6 && v[5].name@ == "Guild Leader"@ && v[5].description@
            == "Join a guild"@ && v[5].reward_tokens == 150 && v[5].reward_xp == 300
            && v[5].requirement == AchievementRequirement::JoinGuild
        &&& v[6].id == 7 && v[6].name@ == "Rising Star"@ && v[6].description@
            == "Reach level 10"@ && v[6].reward_tokens == 400 && v[6].reward_xp == 1000
            && v[6].requirement == AchievementRequirement::ReachLevel(10)
    }

    /// The fixed achievement catalog set up at instantiation.
    fn initialize_achievements() -> (v: Vec<Achievement>)
        ensures
            Self::is_fixed_catalog(v@),
    {
        let mut v: Vec<Achievement> = Vec::new();
        v.push(
            Achievement {
                id: 1,
                name: "First Steps".to_owned(),
                description: "Make your first prediction".to_owned(),
                reward_tokens: 50,
                reward_xp: 100,
                requirement: AchievementRequirement::ParticipateInMarkets(1),
            },
        );
        v.push(
            Achievement {
                id: 2,
                name: "Market Maker".to_owned(),
                description: "Create 5 markets".to_owned(),
                reward_tokens: 200,
                reward_xp: 500,
                requirement: AchievementRequirement::CreateMarkets(5),
            },
        );
        v.push(
            Achievement {
                id: 3,
                name: "Prediction Master".to_owned(),
                description: "Win 10 markets".to_owned(),
                reward_tokens: 500,
                reward_xp: 1000,
                requirement: AchievementRequirement::WinMarkets(10),
            },
        );
        v.push(
            Achievement {
                id: 4,
                name: "Hot Streak".to_owned(),
                description: "Win 5 markets in a row".to_owned(),
                reward_tokens: 300,
                reward_xp: 750,
                requirement: AchievementRequirement::WinStreak(5),
            },
        );
        v.push(
            Achievement {
                id: 5,
                name: "Big Spender".to_owned(),
                description: "Earn 1000 points profit".to_owned(),
                reward_tokens: 1000,
                reward_xp: 2000,
                requirement: AchievementRequirement::TotalProfit(1000),
            },
        );
        v.push(
            Achievement {
                id: 6,
                name: "Guild Leader".to_owned(),
                description: "Join a guild".to_owned(),
                reward_tokens: 150,
                reward_xp: 300,
                requirement: AchievementRequirement::JoinGuild,
            },
        );
        v.push(
            Achievement {
                id: 7,
                name: "Rising Star".to_owned(),
                description: "Reach level 10".to_owned(),
                reward_tokens: 400,
                reward_xp: 1000,
                requirement: AchievementRequirement::ReachLevel(10),
            },
        );
        v
    }

    /// The state after a successful `register` operation.
    pub open spec fn register_ok_post(pre: Self, post: Self, player_id: PlayerId, display_name: Option<String>, current_time: u64) -> bool {

                &&& post.players@.len() == pre.players@.len() + 1
                &&& post.players@ == pre.players@.push(post.players@.last())
                &&& Self::is_fresh_player(
                    post.players@.last(),
                    player_id,
                    display_name,
                    current_time,
                    pre.config.initial_player_tokens,
                )
                &&& post.total_supply == pre.total_supply
                    + pre.config.initial_player_tokens
                &&& post.markets == pre.markets
                &&& post.guilds == pre.guilds
                &&& post.oracle_votes == pre.oracle_votes
                &&& post.config == pre.config
                &&& post.platform_pool == pre.platform_pool
                &&& post.next_market_id == pre.next_market_id
                &&& post.next_guild_id == pre.next_guild_id
                &&& post.achievements == pre.achievements
                &&& post.leaderboard == pre.leaderboard
                &&& post.events == pre.events
    }

    /// The state after a successful `daily_reward` operation.
    pub open spec fn daily_reward_ok_post(pre: Self, post: Self, player_id: PlayerId, current_time: u64) -> bool {

                let i = find_player_idx(pre.players@, player_id);
                let reward = pre.config.daily_login_reward;
                let p = pre.players@[i];
                &&& post.players@ == pre.players@.update(
                    i,
                    Player {
                        token_balance: (p.token_balance + reward) as u64,
                        total_earned: (p.total_earned + reward) as u64,
                        last_login: current_time,
                        ..p
                    },
                )
                &&& post.total_supply == pre.total_supply + reward
                &&& post == (PredictionMarketContract {
                    players: post.players,
                    total_supply: post.total_supply,
                    ..pre
                })
    }

    /// The state after a successful `create_market` operation.
    pub open spec fn create_market_ok_post(pre: Self, post: Self, creator: PlayerId, title: String, description: String, market_type: MarketType, outcome_names: Seq<String>, duration_seconds: u64, resolution_method: ResolutionMethod, current_time: u64) -> bool {

                let i = find_player_idx(pre.players@, creator);
                let p = pre.players@[i];
                let cost = pre.config.market_creation_cost;
                let rebate = Self::creator_rebate_of(cost as int);
                let fee = Self::platform_fee_of(cost as int);
                &&& post.players@ == pre.players@.update(
                    i,
                    Player {
                        token_balance: (p.token_balance - cost + rebate) as u64,
                        total_spent: (p.total_spent + cost) as u64,
                        total_earned: (p.total_earned + rebate) as u64,
                        ..p
                    },
                )
                &&& post.total_supply == pre.total_supply - cost + rebate + fee
                &&& post.platform_pool == pre.platform_pool + fee
                &&& post.markets@ == pre.markets@.push(post.markets@.last())
                &&& Self::is_new_market(
                    post.markets@.last(),
                    pre.next_market_id,
                    creator,
                    title,
                    description,
                    market_type,
                    outcome_names,
                    duration_seconds,
                    resolution_method,
                    current_time,
                )
                &&& post.next_market_id == pre.next_market_id + 1
                &&& post.events@ == pre.events@.push(
                    Message::MarketCreated { market_id: pre.next_market_id, creator },
                )
                &&& is_leaderboard_of(
                    post.leaderboard,
                    post.players@,
                    post.guilds@,
                    current_time,
                )
                &&& post.guilds == pre.guilds
                &&& post.oracle_votes == pre.oracle_votes
                &&& post.config == pre.config
                &&& post.achievements == pre.achievements
                &&& post.next_guild_id == pre.next_guild_id
    }

    /// The state after a successful `create_guild` operation.
    pub open spec fn create_guild_ok_post(pre: Self, post: Self, founder: PlayerId, name: String, current_time: u64) -> bool {

                let i = find_player_idx(pre.players@, founder);
                let g = post.guilds@.last();
                &&& post.guilds@ == pre.guilds@.push(g)
                &&& g.id == pre.next_guild_id
                &&& g.name == name
                &&& g.founder == founder
                &&& g.members@ =~= seq![founder]
                &&& g.creation_time == current_time
                &&& g.total_guild_profit == 0
                &&& g.guild_level == 1
                &&& g.shared_pool == 0
                &&& post.players@ == pre.players@.update(
                    i,
                    Player {
                        guild_id: Some(pre.next_guild_id),
                        ..pre.players@[i]
                    },
                )
                &&& post.next_guild_id == pre.next_guild_id + 1
                &&& post.events@ == pre.events@.push(
                    Message::GuildCreated { guild_id: pre.next_guild_id, name },
                )
                &&& post == (PredictionMarketContract {
                    players: post.players,
                    guilds: post.guilds,
                    next_guild_id: post.next_guild_id,
                    events: post.events,
                    ..pre
                })
    }

    /// The state after a successful `join_guild` operation.
    pub open spec fn join_guild_ok_post(pre: Self, post: Self, player_id: PlayerId, guild_id: GuildId) -> bool {

                let i = find_player_idx(pre.players@, player_id);
                let gi = find_guild_idx(pre.guilds@, guild_id);
                let g = pre.guilds@[gi];
                &&& post.guilds@ == pre.guilds@.update(
                    gi,
                    Guild { members: post.guilds@[gi].members, ..g },
                )
                &&& post.guilds@[gi].members@ == g.members@.push(player_id)
                &&& post.players@ == pre.players@.update(
                    i,
                    Player { guild_id: Some(guild_id), ..pre.players@[i] },
                )
                &&& post == (PredictionMarketContract {
                    players: post.players,
                    guilds: post.guilds,
                    ..pre
                })
    }

    /// The state after a successful `leave_guild` operation.
    pub open spec fn leave_guild_ok_post(pre: Self, post: Self, player_id: PlayerId) -> bool {

                let i = find_player_idx(pre.players@, player_id);
                let gi = find_guild_idx(pre.guilds@, pre.players@[i].guild_id.unwrap());
                let g = pre.guilds@[gi];
                &&& post.guilds@ == pre.guilds@.update(
                    gi,
                    Guild { members: post.guilds@[gi].members, ..g },
                )
                &&& post.guilds@[gi].members@ == Self::without_member(g.members@, player_id)
                &&& post.players@ == pre.players@.update(
                    i,
                    Player { guild_id: None, ..pre.players@[i] },
                )
                &&& post == (PredictionMarketContract {
                    players: post.players,
                    guilds: post.guilds,
                    ..pre
                })
    }

    /// The state after a successful `contribute` operation.
    pub open spec fn contribute_ok_post(pre: Self, post: Self, player_id: PlayerId, amount: u64) -> bool {

                let i = find_player_idx(pre.players@, player_id);
                let gi = find_guild_idx(pre.guilds@, pre.players@[i].guild_id.unwrap());
                let g = pre.guilds@[gi];
                &&& post.players@ == pre.players@.update(
                    i,
                    Player {
                        token_balance: (pre.players@[i].token_balance - amount) as u64,
                        ..pre.players@[i]
                    },
                )
                &&& post.guilds@ == pre.guilds@.update(
                    gi,
                    Guild { shared_pool: (g.shared_pool + amount) as u64, ..g },
                )
                &&& post.total_supply == pre.total_supply
                &&& post == (PredictionMarketContract {
                    players: post.players,
                    guilds: post.guilds,
                    ..pre
                })
    }

    /// The state after a successful `update_config` operation.
    pub open spec fn update_config_ok_post(pre: Self, post: Self, caller: PlayerId, config: GameConfig) -> bool {

                &&& post == (PredictionMarketContract { config, ..pre })
    }

    /// The state after a successful `vote` operation.
    pub open spec fn vote_ok_post(pre: Self, post: Self, voter_id: PlayerId, market_id: MarketId, outcome_id: OutcomeId, current_time: u64) -> bool {

                let vi = find_voting_idx(pre.oracle_votes@, market_id);
                let pi = find_player_idx(pre.players@, voter_id);
                let weight = pre.players@[pi].reputation;
                &&& (if vi >= 0 {
                    let v = pre.oracle_votes@[vi];
                    let w0 = v.votes@[outcome_id as int];
                    &&& post.oracle_votes@ == pre.oracle_votes@.update(
                        vi,
                        OracleVoting {
                            votes: post.oracle_votes@[vi].votes,
                            voters: post.oracle_votes@[vi].voters,
                            ..v
                        },
                    )
                    &&& post.oracle_votes@[vi].votes@ == v.votes@.update(
                        outcome_id as int,
                        WeightedVotes {
                            total_weight: (w0.total_weight + weight) as u64,
                            voter_count: (w0.voter_count + 1) as u64,
                        },
                    )
                    &&& post.oracle_votes@[vi].voters@ == v.voters@.push(voter_id)
                } else {
                    let v = post.oracle_votes@.last();
                    &&& post.oracle_votes@ == pre.oracle_votes@.push(v)
                    &&& v.market_id == market_id
                    &&& v.voting_start == current_time
                    &&& v.voting_end == current_time
                        + pre.config.oracle_voting_duration_seconds * 1_000_000
                    &&& v.voters@ =~= seq![voter_id]
                    &&& v.resolved == false
                    &&& v.votes@.len() == pre.markets@[find_market_idx(
                        pre.markets@,
                        market_id,
                    )].outcomes@.len()
                    &&& forall|j: int|
                        0 <= j < v.votes@.len() && j != outcome_id as int ==> (
                        #[trigger] v.votes@[j]) == (WeightedVotes {
                            total_weight: 0,
                            voter_count: 0,
                        })
                    &&& v.votes@[outcome_id as int] == (WeightedVotes {
                        total_weight: weight,
                        voter_count: 1,
                    })
                })
                &&& post == (PredictionMarketContract {
                    oracle_votes: post.oracle_votes,
                    ..pre
                })
    }

    /// The state after a successful `trigger` operation.
    pub open spec fn trigger_ok_post(pre: Self, post: Self, market_id: MarketId, current_time: u64) -> bool {

                let mi = find_market_idx(pre.markets@, market_id);
                let m = pre.markets@[mi];
                &&& (if m.status is Resolved {
                    post == pre
                } else if m.resolution_method is CreatorDecides {
                    Self::closed_post(pre, post, market_id)
                } else {
                    let w = Self::resolution_winner(pre, market_id);
                    &&& post.markets@ == pre.markets@.update(
                        mi,
                        Market {
                            status: MarketStatus::Resolved,
                            winning_outcome: Some(w as usize),
                            resolution_time: Some(current_time),
                            ..m
                        },
                    )
                    &&& post.events@ == pre.events@.push(
                        Message::MarketResolved { market_id, winning_outcome: w as usize },
                    )
                    &&& (if m.resolution_method is OracleVoting {
                        let vi = find_voting_idx(pre.oracle_votes@, market_id);
                        post.oracle_votes@ == pre.oracle_votes@.update(
                            vi,
                            OracleVoting { resolved: true, ..pre.oracle_votes@[vi] },
                        )
                    } else {
                        post.oracle_votes == pre.oracle_votes
                    })
                    &&& post == (PredictionMarketContract {
                        markets: post.markets,
                        events: post.events,
                        oracle_votes: post.oracle_votes,
                        ..pre
                    })
                })
    }

    /// The state after a successful `claim` operation.
    pub open spec fn claim_ok_post(pre: Self, post: Self, player_id: PlayerId, market_id: MarketId) -> bool {

                let mi = find_market_idx(pre.markets@, market_id);
                let pi = find_player_idx(pre.players@, player_id);
                let m = pre.markets@[mi];
                let posi = find_position_idx(m.positions@, player_id);
                let w = m.winning_outcome.unwrap() as int;
                let shares = m.positions@[posi].shares_by_outcome@[w];
                let payout = Self::payout_spec(m, shares as int);
                let p = pre.players@[pi];
                let o = m.outcomes@[w];
                let q0 = m.positions@[posi];
                let q = post.markets@[mi].positions@[posi];
                &&& post.players@ == pre.players@.update(
                    pi,
                    Player {
                        token_balance: (p.token_balance + payout) as u64,
                        total_earned: (p.total_earned + payout) as u64,
                        ..p
                    },
                )
                &&& post.markets@ == pre.markets@.update(
                    mi,
                    Market {
                        outcomes: post.markets@[mi].outcomes,
                        positions: post.markets@[mi].positions,
                        total_liquidity: (m.total_liquidity - payout) as u64,
                        ..m
                    },
                )
                &&& post.markets@[mi].outcomes@ == m.outcomes@.update(
                    w,
                    Outcome { total_shares: (o.total_shares - shares) as u64, ..o },
                )
                &&& post.markets@[mi].positions@ == m.positions@.update(posi, q)
                &&& q == (PlayerPosition { shares_by_outcome: q.shares_by_outcome, ..q0 })
                &&& q.shares_by_outcome@ == q0.shares_by_outcome@.update(w, 0u64)
                &&& payout <= m.total_liquidity
                &&& post == (PredictionMarketContract {
                    players: post.players,
                    markets: post.markets,
                    ..pre
                })
    }

    /// The member list with every occurrence of one identity removed.
    pub open spec fn without_member(s: Seq<PlayerId>, player_id: PlayerId) -> Seq<PlayerId> {
        s.filter(|m: PlayerId| m != player_id)
    }

    /// The state after a successful profile update.
    pub open spec fn update_profile_ok_post(pre: Self, post: Self, player_id: PlayerId, display_name: Option<String>) -> bool {

                let i = find_player_idx(pre.players@, player_id);
                &&& post.players@ == pre.players@.update(
                    i,
                    Player { display_name, ..pre.players@[i] },
                )
                &&& post == (PredictionMarketContract {
                    players: post.players,
                    ..pre
                })
    }

    /// Apply one inbound operation for the authenticated `caller` at the
    /// host-supplied time, and report its result instead of discarding it;
    /// each arm behaves exactly as the named operation method.
    pub fn execute_operation(
        &mut self,
        caller: PlayerId,
        operation: Operation,
        current_time: u64,
    ) -> (r: Result<(), ContractError>)
        requires
            old(self).wf(),
        ensures
            final(self).wf(),
            (operation matches Operation::RegisterPlayer { display_name } ==> {
                match Self::register_player_error(*old(self), caller) {
                    Some(e) => r == Err::<(), ContractError>(e) && *final(self) == *old(self),
                    None => r == Ok::<(), ContractError>(()) && Self::register_ok_post(
                        *old(self),
                        *final(self),
                        caller,
                        display_name,
                        current_time,
                    ),
                }
            }),
            (operation matches Operation::UpdateProfile { display_name } ==> {
                &&& (find_player_idx(old(self).players@, caller) == -1 ==> r == Err::<
                    (),
                    ContractError,
                >(ContractError::PlayerNotFound) && *final(self) == *old(self))
                &&& (find_player_idx(old(self).players@, caller) >= 0 ==> r == Ok::<
                    (),
                    ContractError,
                >(()) && Self::update_profile_ok_post(
                    *old(self),
                    *final(self),
                    caller,
                    display_name,
                ))
            }),
            (operation matches Operation::ClaimDailyReward ==> {
                match Self::daily_reward_error(*old(self), caller, current_time) {
                    Some(e) => r == Err::<(), ContractError>(e) && *final(self) == *old(self),
                    None => r == Ok::<(), ContractError>(()) && Self::daily_reward_ok_post(
                        *old(self),
                        *final(self),
                        caller,
                        current_time,
                    ),
                }
            }),
            (operation matches Operation::CreateMarket {
                title,
                description,
                outcome_names,
                duration_seconds,
                resolution_method,
            } ==> {
                match Self::create_market_error(
                    *old(self),
                    caller,
                    outcome_names@.len() as int,
                    duration_seconds,
                    current_time,
                ) {
                    Some(e) => r == Err::<(), ContractError>(e) && *final(self) == *old(self),
                    None => r == Ok::<(), ContractError>(()) && Self::create_market_ok_post(
                        *old(self),
                        *final(self),
                        caller,
                        title,
                        description,
                        MarketType::QuickPrediction,
                        outcome_names@,
                        duration_seconds,
                        resolution_method,
                        current_time,
                    ),
                }
            }),
            (operation matches Operation::BuyShares {
                market_id,
                outcome_id,
                amount,
                max_price_per_share,
            } ==> {
                match Self::buy_shares_error(
                    *old(self),
                    caller,
                    market_id,
                    outcome_id,
                    amount,
                    max_price_per_share,
                    current_time,
                ) {
                    Some(e) => r == Err::<(), ContractError>(e) && *final(self) == *old(self),
                    None => r == Ok::<(), ContractError>(()) && Self::buy_ok_post(
                        *old(self),
                        *final(self),
                        caller,
                        market_id,
                        outcome_id,
                        amount,
                        current_time,
                    ),
                }
            }),
            (operation matches Operation::SellShares {
                market_id,
                outcome_id,
                shares,
                min_price_per_share,
            } ==> {
                match Self::sell_shares_error(
                    *old(self),
                    caller,
                    market_id,
                    outcome_id,
                    shares,
                    min_price_per_share,
                ) {
                    Some(e) => r == Err::<(), ContractError>(e) && *final(self) == *old(self),
                    None => r == Ok::<(), ContractError>(()) && Self::sell_ok_post(
                        *old(self),
                        *final(self),
                        caller,
                        market_id,
                        outcome_id,
                        shares,
                    ),
                }
            }),
            (operation matches Operation::VoteOnOutcome { market_id, outcome_id } ==> {
                match Self::vote_error(*old(self), caller, market_id, outcome_id, current_time) {
                    Some(e) => r == Err::<(), ContractError>(e) && *final(self) == *old(self),
                    None => r == Ok::<(), ContractError>(()) && Self::vote_ok_post(
                        *old(self),
                        *final(self),
                        caller,
                        market_id,
                        outcome_id,
                        current_time,
                    ),
                }
            }),
            (operation matches Operation::TriggerResolution { market_id } ==> {
                match Self::trigger_error(*old(self), market_id, current_time) {
                    Some(e) => r == Err::<(), ContractError>(e) && (if e
                        == ContractError::OracleNotReady {
                        Self::closed_post(*old(self), *final(self), market_id)
                    } else {
                        *final(self) == *old(self)
                    }),
                    None => r == Ok::<(), ContractError>(()) && Self::trigger_ok_post(
                        *old(self),
                        *final(self),
                        market_id,
                        current_time,
                    ),
                }
            }),
            (operation matches Operation::ClaimWinnings { market_id } ==> {
                match Self::claim_error(*old(self), caller, market_id) {
                    Some(e) => r == Err::<(), ContractError>(e) && *final(self) == *old(self),
                    None => r == Ok::<(), ContractError>(()) && Self::claim_ok_post(
                        *old(self),
                        *final(self),
                        caller,
                        market_id,
                    ),
                }
            }),
            (operation matches Operation::CreateGuild { name } ==> {
                match Self::create_guild_error(*old(self), caller) {
                    Some(e) => r == Err::<(), ContractError>(e) && *final(self) == *old(self),
                    None => r == Ok::<(), ContractError>(()) && Self::create_guild_ok_post(
                        *old(self),
                        *final(self),
                        caller,
                        name,
                        current_time,
                    ),
                }
            }),
            (operation matches Operation::JoinGuild { guild_id } ==> {
                match Self::join_guild_error(*old(self), caller, guild_id) {
                    Some(e) => r == Err::<(), ContractError>(e) && *final(self) == *old(self),
                    None => r == Ok::<(), ContractError>(()) && Self::join_guild_ok_post(
                        *old(self),
                        *final(self),
                        caller,
                        guild_id,
                    ),
                }
            }),
            (operation matches Operation::LeaveGuild ==> {
                match Self::leave_guild_error(*old(self), caller) {
                    Some(e) => r == Err::<(), ContractError>(e) && *final(self) == *old(self),
                    None => r == Ok::<(), ContractError>(()) && Self::leave_guild_ok_post(
                        *old(self),
                        *final(self),
                        caller,
                    ),
                }
            }),
            (operation matches Operation::ContributeToGuild { amount } ==> {
                match Self::contribute_error(*old(self), caller, amount) {
                    Some(e) => r == Err::<(), ContractError>(e) && *final(self) == *old(self),
                    None => r == Ok::<(), ContractError>(()) && Self::contribute_ok_post(
                        *old(self),
                        *final(self),
                        caller,
                        amount,
                    ),
                }
            }),
            (operation matches Operation::UpdateGameConfig { config } ==> {
                match Self::update_config_error(*old(self), caller) {
                    Some(e) => r == Err::<(), ContractError>(e) && *final(self) == *old(self),
                    None => r == Ok::<(), ContractError>(()) && Self::update_config_ok_post(
                        *old(self),
                        *final(self),
                        caller,
                        config,
                    ),
                }
            }),
    {
        match operation {
            Operation::RegisterPlayer { display_name } => self.register_player(
                caller,
                display_name,
                current_time,
            ),
            Operation::UpdateProfile { display_name } => self.update_player_profile(
                caller,
                display_name,
            ),
            Operation::ClaimDailyReward => self.claim_daily_reward(caller, current_time),
            Operation::CreateMarket {
                title,
                description,
                outcome_names,
                duration_seconds,
                resolution_method,
            } => self.create_market(
                caller,
                title,
                description,
                MarketType::QuickPrediction,
                outcome_names,
                duration_seconds,
                resolution_method,
                current_time,
            ),
            Operation::BuyShares { market_id, outcome_id, amount, max_price_per_share } => self
                .buy_shares(
                caller,
                market_id,
                outcome_id,
                amount,
                max_price_per_share,
                current_time,
            ),
            Operation::SellShares { market_id, outcome_id, shares, min_price_per_share } => self
                .sell_shares(
                caller,
                market_id,
                outcome_id,
                shares,
                min_price_per_share,
                current_time,
            ),
            Operation::VoteOnOutcome { market_id, outcome_id } => self.vote_on_outcome(
                caller,
                market_id,
                outcome_id,
                current_time,
            ),
            Operation::TriggerResolution { market_id } => self.trigger_market_resolution(
                market_id,
                current_time,
            ),
            Operation::ClaimWinnings { market_id } => self.claim_winnings(caller, market_id),
            Operation::CreateGuild { name } => self.create_guild(caller, name, current_time),
            Operation::JoinGuild { guild_id } => self.join_guild(caller, guild_id),
            Operation::LeaveGuild => self.leave_guild(caller),
            Operation::ContributeToGuild { amount } => self.contribute_to_guild(caller, amount),
            Operation::UpdateGameConfig { config } => self.update_game_config(caller, config),
        }
    }

    /// Handle an inbound notification: every variant is acknowledged and
    /// none changes any state, which makes redelivery harmless.
    pub fn execute_message(&mut self, message: Message)
        ensures
            *final(self) == *old(self),
    {
        match message {
            Message::MarketCreated { .. } => {},
            Message::MarketResolved { .. } => {},
            Message::TradeExecuted { .. } => {},
            Message::PlayerLeveledUp { .. } => {},
            Message::AchievementUnlocked { .. } => {},
            Message::GuildCreated { .. } => {},
        }
    }

    /// The player with this id, or `PlayerNotFound`.
    pub fn get_player(&self, player_id: PlayerId) -> (r: Result<&Player, ContractError>)
        requires
            self.wf(),
        ensures
            find_player_idx(self.players@, player_id) == -1 ==> r == Err::<&Player, ContractError>(
                ContractError::PlayerNotFound,
            ),
            find_player_idx(self.players@, player_id) >= 0 ==> (r matches Ok(p) && *p
                == self.players@[find_player_idx(self.players@, player_id)]),
    {
        let Some(i) = self.player_index(player_id) else {
            return Err(ContractError::PlayerNotFound);
        };
        proof {
            lemma_find_player_idx(self.players@, player_id);
        }
        Ok(&self.players[i])
    }

    /// The market with this id, or `MarketNotFound`.
    pub fn get_market(&self, market_id: MarketId) -> (r: Result<&Market, ContractError>)
        requires
            self.wf(),
        ensures
            find_market_idx(self.markets@, market_id) == -1 ==> r == Err::<&Market, ContractError>(
                ContractError::MarketNotFound,
            ),
            find_market_idx(self.markets@, market_id) >= 0 ==> (r matches Ok(m) && *m
                == self.markets@[find_market_idx(self.markets@, market_id)]),
    {
        let Some(i) = self.market_index(market_id) else {
            return Err(ContractError::MarketNotFound);
        };
        proof {
            lemma_find_market_idx(self.markets@, market_id);
        }
        Ok(&self.markets[i])
    }

    // -----------------------------------------------------------------------
    // Lookup helpers
    // -----------------------------------------------------------------------

    /// Index of the player with this id, `None` if unregistered.
    fn player_index(&self, player_id: PlayerId) -> (r: Option<usize>)
        requires
            forall|i: int, j: int|
                0 <= i < j < self.players.len() ==> self.players[i].id != self.players[j].id,
        ensures
            match r {
                Some(i) => i as int == find_player_idx(self.players@, player_id),
                None => find_player_idx(self.players@, player_id) == -1,
            },
    {
        let n = self.players.len();
        let mut i: usize = 0;
        while i < n
            invariant
                i <= n,
                n == self.players@.len(),
                forall|j: int| 0 <= j < i ==> (#[trigger] self.players@[j]).id != player_id,
                forall|a: int, b: int|
                    0 <= a < b < self.players.len() ==> self.players[a].id != self.players[b].id,
            decreases n - i,
        {
            if self.players[i].id == player_id {
                proof {
                    lemma_find_player_idx(self.players@, player_id);
                }
                return Some(i);
            }
            i = i + 1;
        }
        proof {
            lemma_find_player_idx(self.players@, player_id);
        }
        None
    }

    /// Index of the market with this id, `None` if it does not exist.
    fn market_index(&self, market_id: MarketId) -> (r: Option<usize>)
        requires
            forall|i: int, j: int|
                0 <= i < j < self.markets.len() ==> self.markets[i].id != self.markets[j].id,
        ensures
            match r {
                Some(i) => i as int == find_market_idx(self.markets@, market_id),
                None => find_market_idx(self.markets@, market_id) == -1,
            },
    {
        let n = self.markets.len();
        let mut i: usize = 0;
        while i < n
            invariant
                i <= n,
                n == self.markets@.len(),
                forall|j: int| 0 <= j < i ==> (#[trigger] self.markets@[j]).id != market_id,
                forall|a: int, b: int|
                    0 <= a < b < self.markets.len() ==> self.markets[a].id != self.markets[b].id,
            decreases n - i,
        {
            if self.markets[i].id == market_id {
                proof {
                    lemma_find_market_idx(self.markets@, market_id);
                }
                return Some(i);
            }
            i = i + 1;
        }
        proof {
            lemma_find_market_idx(self.markets@, market_id);
        }
        None
    }

    /// Index of the guild with this id, `None` if it does not exist.
    fn guild_index(&self, guild_id: GuildId) -> (r: Option<usize>)
        requires
            forall|i: int, j: int|
                0 <= i < j < self.guilds.len() ==> self.guilds[i].id != self.guilds[j].id,
        ensures
            match r {
                Some(i) => i as int == find_guild_idx(self.guilds@, guild_id),
                None => find_guild_idx(self.guilds@, guild_id) == -1,
            },
    {
        let n = self.guilds.len();
        let mut i: usize = 0;
        while i < n
            invariant
                i <= n,
                n == self.guilds@.len(),
                forall|j: int| 0 <= j < i ==> (#[trigger] self.guilds@[j]).id != guild_id,
                forall|a: int, b: int|
                    0 <= a < b < self.guilds.len() ==> self.guilds[a].id != self.guilds[b].id,
            decreases n - i,
        {
            if self.guilds[i].id == guild_id {
                proof {
                    lemma_find_guild_idx(self.guilds@, guild_id);
                }
                return Some(i);
            }
            i = i + 1;
        }
        proof {
            lemma_find_guild_idx(self.guilds@, guild_id);
        }
        None
    }

    /// Index of the oracle-voting record of this market, `None` before the
    /// first vote.
    fn voting_index(&self, market_id: MarketId) -> (r: Option<usize>)
        requires
            forall|i: int, j: int|
                0 <= i < j < self.oracle_votes.len() ==> self.oracle_votes[i].market_id
                    != self.oracle_votes[j].market_id,
        ensures
            match r {
                Some(i) => i as int == find_voting_idx(self.oracle_votes@, market_id),
                None => find_voting_idx(self.oracle_votes@, market_id) == -1,
            },
    {
        let n = self.oracle_votes.len();
        let mut i: usize = 0;
        while i < n
            invariant
                i <= n,
                n == self.oracle_votes@.len(),
                forall|j: int|
                    0 <= j < i ==> (#[trigger] self.oracle_votes@[j]).market_id != market_id,
                forall|a: int, b: int|
                    0 <= a < b < self.oracle_votes.len() ==> self.oracle_votes[a].market_id
                        != self.oracle_votes[b].market_id,
            decreases n - i,
        {
            if self.oracle_votes[i].market_id == market_id {
                proof {
                    lemma_find_voting_idx(self.oracle_votes@, market_id);
                }
                return Some(i);
            }
            i = i + 1;
        }
        proof {
            lemma_find_voting_idx(self.oracle_votes@, market_id);
        }
        None
    }

    // -----------------------------------------------------------------------
    // Player operations
    // -----------------------------------------------------------------------

    /// Outcome decided by `register_player`.
    pub open spec fn register_player_error(s: Self, player_id: PlayerId) -> Option<ContractError> {
        if find_player_idx(s.players@, player_id) >= 0 {
            Some(ContractError::PlayerAlreadyExists)
        } else if s.total_supply + s.config.initial_player_tokens > u64::MAX {
            Some(ContractError::ArithmeticOverflow)
        } else {
            None
        }
    }

    /// The account a newly registered player starts with.
    pub open spec fn is_fresh_player(
        p: Player,
        player_id: PlayerId,
        display_name: Option<String>,
        current_time: u64,
        initial_tokens: u64,
    ) -> bool {
        &&& p.id == player_id
        &&& p.display_name == display_name
        &&& p.registration_time == current_time
        &&& p.last_login == current_time
        &&& p.token_balance == initial_tokens
        &&& p.total_earned == initial_tokens
        &&& p.total_spent == 0
        &&& p.level == 1
        &&& p.experience_points == 0
        &&& p.reputation == 100
        &&& p.markets_participated == 0
        &&& p.markets_won == 0
        &&& p.total_profit == 0
        &&& p.win_streak == 0
        &&& p.best_win_streak == 0
        &&& p.guild_id is None
        &&& p.achievements_earned@.len() == 0
        &&& p.active_markets@.len() == 0
    }

    /// Register a new player: mints `initial_player_tokens` into a fresh
    /// account, growing the total supply by the same amount.
    pub fn register_player(
        &mut self,
        player_id: PlayerId,
        display_name: Option<String>,
        current_time: u64,
    ) -> (r: Result<(), ContractError>)
        requires
            old(self).wf(),
        ensures
            final(self).wf(),
            Self::register_player_error(*old(self), player_id) matches Some(e) ==> r == Err::<
                (),
                ContractError,
            >(e) && *final(self) == *old(self),
            Self::register_player_error(*old(self), player_id) is None ==> {
                &&& r == Ok::<(), ContractError>(())
                &&& Self::register_ok_post(*old(self), *final(self), player_id, display_name, current_time)
            },
    {
        if self.player_index(player_id).is_some() {
            return Err(ContractError::PlayerAlreadyExists);
        }
        let initial_tokens = self.config.initial_player_tokens;
        let Some(new_supply) = self.total_supply.checked_add(initial_tokens) else {
            return Err(ContractError::ArithmeticOverflow);
        };
        let player = Player {
            id: player_id,
            display_name,
            registration_time: current_time,
            last_login: current_time,
            token_balance: initial_tokens,
            total_earned: initial_tokens,
            total_spent: 0,
            level: 1,
            experience_points: 0,
            reputation: 100,
            markets_participated: 0,
            markets_won: 0,
            total_profit: 0,
            win_streak: 0,
            best_win_streak: 0,
            guild_id: None,
            achievements_earned: Vec::new(),
            active_markets: Vec::new(),
        };
        proof {
            lemma_find_player_idx(old(self).players@, player_id);
            lemma_sum_balances_push(old(self).players@, player);
        }
        self.players.push(player);
        self.total_supply = new_supply;
        Ok(())
    }

    /// Replace a player's display name; every other field is untouched.
    pub fn update_player_profile(
        &mut self,
        player_id: PlayerId,
        display_name: Option<String>,
    ) -> (r: Result<(), ContractError>)
        requires
            old(self).wf(),
        ensures
            final(self).wf(),
            find_player_idx(old(self).players@, player_id) == -1 ==> r == Err::<(), ContractError>(
                ContractError::PlayerNotFound,
            ) && *final(self) == *old(self),
            find_player_idx(old(self).players@, player_id) >= 0 ==> {
                &&& r == Ok::<(), ContractError>(())
                &&& Self::update_profile_ok_post(*old(self), *final(self), player_id, display_name)
            },
    {
        let Some(i) = self.player_index(player_id) else {
            return Err(ContractError::PlayerNotFound);
        };
        proof {
            lemma_find_player_idx(self.players@, player_id);
        }
        let mut player = self.players.remove(i);
        player.display_name = display_name;
        self.players.insert(i, player);
        proof {
            let pv = old(self).players@;
            let i = i as int;
            assert(self.players@ =~= pv.update(
                i,
                Player { display_name, ..pv[i] },
            ));
            lemma_sum_balances_update(pv, i, self.players@[i]);
        }
        Ok(())
    }

    /// Claim the daily login reward: once every 24 hours, mints
    /// `daily_login_reward` into the player's balance and the total supply.
    pub fn claim_daily_reward(&mut self, player_id: PlayerId, current_time: u64) -> (r: Result<
        (),
        ContractError,
    >)
        requires
            old(self).wf(),
        ensures
            final(self).wf(),
            Self::daily_reward_error(*old(self), player_id, current_time) matches Some(e) ==> r
                == Err::<(), ContractError>(e) && *final(self) == *old(self),
            Self::daily_reward_error(*old(self), player_id, current_time) is None ==> {
                &&& r == Ok::<(), ContractError>(())
                &&& Self::daily_reward_ok_post(*old(self), *final(self), player_id, current_time)
            },
    {
        let Some(i) = self.player_index(player_id) else {
            return Err(ContractError::PlayerNotFound);
        };
        proof {
            lemma_find_player_idx(self.players@, player_id);
        }
        let last_login = self.players[i].last_login;
        if current_time < ONE_DAY_MICROS || current_time - ONE_DAY_MICROS < last_login {
            return Err(ContractError::DailyRewardAlreadyClaimed);
        }
        let reward = self.config.daily_login_reward;
        let Some(new_balance) = self.players[i].token_balance.checked_add(reward) else {
            return Err(ContractError::ArithmeticOverflow);
        };
        let Some(new_earned) = self.players[i].total_earned.checked_add(reward) else {
            return Err(ContractError::ArithmeticOverflow);
        };
        let Some(new_supply) = self.total_supply.checked_add(reward) else {
            return Err(ContractError::ArithmeticOverflow);
        };
        let mut player = self.players.remove(i);
        player.token_balance = new_balance;
        player.total_earned = new_earned;
        player.last_login = current_time;
        self.players.insert(i, player);
        self.total_supply = new_supply;
        proof {
            let pv = old(self).players@;
            let i = i as int;
            assert(self.players@ =~= pv.update(i, self.players@[i]));
            lemma_sum_balances_update(pv, i, self.players@[i]);
        }
        Ok(())
    }

    /// Rebuild the leaderboard from the current players and guilds: the
    /// first fifty traders and first twenty guilds in stored order.
    pub fn update_enhanced_leaderboard(&mut self, current_time: u64)
        ensures
            is_leaderboard_of(
                final(self).leaderboard,
                old(self).players@,
                old(self).guilds@,
                current_time,
            ),
            *final(self) == (PredictionMarketContract {
                leaderboard: final(self).leaderboard,
                ..*old(self)
            }),
    {
        let trader_count = if self.players.len() < 50 {
            self.players.len()
        } else {
            50
        };
        let mut top_traders: Vec<LeaderboardEntry> = Vec::new();
        let mut i: usize = 0;
        while i < trader_count
            invariant
                i <= trader_count,
                trader_count <= self.players@.len(),
                top_traders@.len() == i,
                forall|j: int|
                    0 <= j < i ==> is_trader_entry(#[trigger] top_traders@[j], self.players@[j]),
            decreases trader_count - i,
        {
            let p = &self.players[i];
            let display_name = match &p.display_name {
                Some(n) => Some(n.clone()),
                None => None,
            };
            let win_rate_percent = if p.markets_participated == 0 {
                0
            } else {
                let wide = (p.markets_won as u128) * 100 / (p.markets_participated as u128);
                if wide > u64::MAX as u128 {
                    u64::MAX
                } else {
                    wide as u64
                }
            };
            top_traders.push(
                LeaderboardEntry {
                    player_id: p.id,
                    display_name,
                    total_profit: p.total_profit,
                    win_rate_percent,
                    level: p.level,
                },
            );
            i = i + 1;
        }
        let guild_count = if self.guilds.len() < 20 {
            self.guilds.len()
        } else {
            20
        };
        let mut top_guilds: Vec<GuildLeaderboardEntry> = Vec::new();
        let mut g: usize = 0;
        while g < guild_count
            invariant
                g <= guild_count,
                guild_count <= self.guilds@.len(),
                top_guilds@.len() == g,
                forall|j: int|
                    0 <= j < g ==> is_guild_entry(#[trigger] top_guilds@[j], self.guilds@[j]),
            decreases guild_count - g,
        {
            let gd = &self.guilds[g];
            top_guilds.push(
                GuildLeaderboardEntry {
                    guild_id: gd.id,
                    name: gd.name.clone(),
                    total_profit: gd.total_guild_profit,
                    member_count: gd.members.len() as u64,
                },
            );
            g = g + 1;
        }
        self.leaderboard = Leaderboard { top_traders, top_guilds, last_updated: current_time };
    }

    /// Outcome decided by `claim_daily_reward`.
    pub open spec fn daily_reward_error(s: Self, player_id: PlayerId, current_time: u64) -> Option<
        ContractError,
    > {
        let i = find_player_idx(s.players@, player_id);
        if i == -1 {
            Some(ContractError::PlayerNotFound)
        } else if current_time < s.players@[i].last_login + ONE_DAY_MICROS {
            Some(ContractError::DailyRewardAlreadyClaimed)
        } else if s.players@[i].token_balance + s.config.daily_login_reward > u64::MAX
            || s.players@[i].total_earned + s.config.daily_login_reward > u64::MAX
            || s.total_supply + s.config.daily_login_reward > u64::MAX {
            Some(ContractError::ArithmeticOverflow)
        } else {
            None
        }
    }
    // -----------------------------------------------------------------------
    // Experience and achievements
    // -----------------------------------------------------------------------

    /// Level-ups applied to a level and an experience total: while the
    /// experience reaches `level * 100`, that much is consumed and the level
    /// rises by one.
    pub open spec fn level_up_spec(level: int, xp: int) -> (int, int)
        decreases xp,
    {
        if level >= 1 && xp >= level * 100 {
            Self::level_up_spec(level + 1, xp - level * 100)
        } else {
            (level, xp)
        }
    }

    /// Add experience points and apply level-ups; reports the new level and
    /// remaining experience, or overflow if the gain does not fit.
    pub fn add_experience(level: u64, experience_points: u64, gained: u64) -> (r: Result<
        (u64, u64),
        ContractError,
    >)
        requires
            level >= 1,
        ensures
            experience_points + gained > u64::MAX ==> r == Err::<(u64, u64), ContractError>(
                ContractError::ArithmeticOverflow,
            ),
            experience_points + gained <= u64::MAX ==> (r matches Ok(lr)
                && (lr.0 as int, lr.1 as int) == Self::level_up_spec(
                level as int,
                experience_points + gained,
            ) && lr.0 >= level),
    {
        let Some(total) = experience_points.checked_add(gained) else {
            return Err(ContractError::ArithmeticOverflow);
        };
        let mut lv: u64 = level;
        let mut xp: u64 = total;
        while (xp as u128) >= (lv as u128) * 100
            invariant
                lv >= level >= 1,
                Self::level_up_spec(level as int, total as int) == Self::level_up_spec(
                    lv as int,
                    xp as int,
                ),
            decreases xp,
        {
            let step = ((lv as u128) * 100) as u64;
            xp = xp - step;
            lv = lv + 1;
        }
        Ok((lv, xp))
    }

    /// Whether a player with these statistics meets a requirement;
    /// `created` counts the markets the player created.
    pub open spec fn meets_requirement_spec(
        req: AchievementRequirement,
        won: int,
        streak: int,
        profit: int,
        participated: int,
        created: int,
        in_guild: bool,
        level: int,
    ) -> bool {
        match req {
            AchievementRequirement::WinMarkets(c) => won >= c,
            AchievementRequirement::WinStreak(s) => streak >= s,
            AchievementRequirement::TotalProfit(t) => profit >= t,
            AchievementRequirement::ParticipateInMarkets(c) => participated >= c,
            AchievementRequirement::CreateMarkets(c) => created >= c,
            AchievementRequirement::JoinGuild => in_guild,
            AchievementRequirement::ReachLevel(l) => level >= l,
        }
    }

    /// How many markets this player created. Deliberately counts every
    /// market whose creator field names the player, whether or not the
    /// player also traded in it: creating a market is what the
    /// market-maker achievement rewards.
    pub open spec fn count_created(markets: Seq<Market>, creator: PlayerId) -> int
        decreases markets.len(),
    {
        if markets.len() == 0 {
            0
        } else {
            Self::count_created(markets.drop_last(), creator) + if markets.last().creator
                == creator {
                1int
            } else {
                0int
            }
        }
    }

    /// One pass over the achievement catalog for a player with the given
    /// statistics and already-earned list: the ids newly awarded in catalog
    /// order, and the total token and experience rewards.
    pub open spec fn award_pass(
        catalog: Seq<Achievement>,
        earned: Seq<AchievementId>,
        won: int,
        streak: int,
        profit: int,
        participated: int,
        created: int,
        in_guild: bool,
        level: int,
    ) -> (Seq<AchievementId>, int, int)
        decreases catalog.len(),
    {
        if catalog.len() == 0 {
            (Seq::empty(), 0, 0)
        } else {
            let a = catalog[0];
            if !earned.contains(a.id) && Self::meets_requirement_spec(
                a.requirement,
                won,
                streak,
                profit,
                participated,
                created,
                in_guild,
                level,
            ) {
                let rest = Self::award_pass(
                    catalog.drop_first(),
                    earned.push(a.id),
                    won,
                    streak,
                    profit,
                    participated,
                    created,
                    in_guild,
                    level,
                );
                (seq![a.id] + rest.0, a.reward_tokens + rest.1, a.reward_xp + rest.2)
            } else {
                Self::award_pass(
                    catalog.drop_first(),
                    earned,
                    won,
                    streak,
                    profit,
                    participated,
                    created,
                    in_guild,
                    level,
                )
            }
        }
    }

    /// The notifications announcing newly earned achievements, in order.
    pub open spec fn unlock_events(player_id: PlayerId, ids: Seq<AchievementId>) -> Seq<Message> {
        ids.map_values(
            |id: AchievementId| Message::AchievementUnlocked { player_id, achievement_id: id },
        )
    }

    /// Whether an id occurs in a list.
    fn contains_id(v: &Vec<u64>, id: u64) -> (r: bool)
        ensures
            r == v@.contains(id),
    {
        let mut i: usize = 0;
        while i < v.len()
            invariant
                i <= v@.len(),
                forall|j: int| 0 <= j < i ==> v@[j] != id,
            decreases v@.len() - i,
        {
            if v[i] == id {
                return true;
            }
            i = i + 1;
        }
        false
    }

    /// Count the markets created by this player.
    fn count_created_by(markets: &Vec<Market>, creator: PlayerId) -> (r: u64)
        ensures
            r as int == Self::count_created(markets@, creator),
    {
        proof {
            Self::lemma_count_created_bounds(markets@, creator);
        }
        let n = markets.len();
        let mut count: u64 = 0;
        let mut i: usize = 0;
        while i < n
            invariant
                n == markets@.len(),
                i <= n,
                count as int == Self::count_created(markets@.subrange(0, i as int), creator),
                count <= i,
            decreases markets@.len() - i,
        {
            proof {
                assert(markets@.subrange(0, i as int + 1).drop_last() =~= markets@.subrange(
                    0,
                    i as int,
                ));
                assert(markets@.subrange(0, i as int + 1).last() == markets@[i as int]);
            }
            if markets[i].creator == creator {
                count = count + 1;
            }
            i = i + 1;
        }
        proof {
            assert(markets@.subrange(0, markets@.len() as int) =~= markets@);
        }
        count
    }

    /// The created-markets count lies between zero and the market count.
    pub proof fn lemma_count_created_bounds(markets: Seq<Market>, creator: PlayerId)
        ensures
            0 <= Self::count_created(markets, creator) <= markets.len(),
        decreases markets.len(),
    {
        if markets.len() > 0 {
            Self::lemma_count_created_bounds(markets.drop_last(), creator);
        }
    }

    /// Whether a player with these statistics meets a requirement.
    fn check_achievement_requirement(
        req: &AchievementRequirement,
        won: u64,
        streak: u64,
        profit: u64,
        participated: u64,
        created: u64,
        in_guild: bool,
        level: u64,
    ) -> (r: bool)
        ensures
            r == Self::meets_requirement_spec(
                *req,
                won as int,
                streak as int,
                profit as int,
                participated as int,
                created as int,
                in_guild,
                level as int,
            ),
    {
        match req {
            AchievementRequirement::WinMarkets(c) => won >= *c,
            AchievementRequirement::WinStreak(s) => streak >= *s,
            AchievementRequirement::TotalProfit(t) => profit >= *t,
            AchievementRequirement::ParticipateInMarkets(c) => participated >= *c,
            AchievementRequirement::CreateMarkets(c) => created >= *c,
            AchievementRequirement::JoinGuild => in_guild,
            AchievementRequirement::ReachLevel(l) => level >= *l,
        }
    }

    /// An id occurs in a concatenation exactly when it occurs in one part.
    pub proof fn lemma_contains_concat(a: Seq<AchievementId>, b: Seq<AchievementId>, x: AchievementId)
        ensures
            (a + b).contains(x) == (a.contains(x) || b.contains(x)),
    {
        if a.contains(x) {
            let j = choose|j: int| 0 <= j < a.len() && a[j] == x;
            assert((a + b)[j] == x);
        }
        if b.contains(x) {
            let j = choose|j: int| 0 <= j < b.len() && b[j] == x;
            assert((a + b)[a.len() + j] == x);
        }
        if (a + b).contains(x) {
            let j = choose|j: int| 0 <= j < (a + b).len() && (a + b)[j] == x;
            if j < a.len() {
                assert(a[j] == x);
            } else {
                assert(b[j - a.len()] == x);
            }
        }
    }

    /// Walk the achievement catalog for a player with these statistics:
    /// the ids newly awarded, and the total token and experience rewards.
    fn collect_awards(
        catalog: &Vec<Achievement>,
        earned: &Vec<AchievementId>,
        won: u64,
        streak: u64,
        profit: u64,
        participated: u64,
        created: u64,
        in_guild: bool,
        level: u64,
    ) -> (r: (Vec<AchievementId>, u128, u128))
        ensures
            ({
                let spec = Self::award_pass(
                    catalog@,
                    earned@,
                    won as int,
                    streak as int,
                    profit as int,
                    participated as int,
                    created as int,
                    in_guild,
                    level as int,
                );
                r.0@ == spec.0 && r.1 as int == spec.1 && r.2 as int == spec.2
            }),
    {
        let ghost all = catalog@;
        let ghost full = Self::award_pass(
            all,
            earned@,
            won as int,
            streak as int,
            profit as int,
            participated as int,
            created as int,
            in_guild,
            level as int,
        );
        let mut new_ids: Vec<AchievementId> = Vec::new();
        let mut tokens: u128 = 0;
        let mut xp: u128 = 0;
        let mut i: usize = 0;
        proof {
            assert(earned@ + new_ids@ =~= earned@);
            assert(all.subrange(0, all.len() as int) =~= all);
        }
        while i < catalog.len()
            invariant
                i <= all.len(),
                all == catalog@,
                tokens <= (i as u128) * (u64::MAX as u128),
                xp <= (i as u128) * (u64::MAX as u128),
                full == Self::award_pass(
                    all,
                    earned@,
                    won as int,
                    streak as int,
                    profit as int,
                    participated as int,
                    created as int,
                    in_guild,
                    level as int,
                ),
                ({
                    let rest = Self::award_pass(
                        all.subrange(i as int, all.len() as int),
                        earned@ + new_ids@,
                        won as int,
                        streak as int,
                        profit as int,
                        participated as int,
                        created as int,
                        in_guild,
                        level as int,
                    );
                    &&& full.0 == new_ids@ + rest.0
                    &&& full.1 == tokens + rest.1
                    &&& full.2 == xp + rest.2
                }),
            decreases all.len() - i,
        {
            let a = &catalog[i];
            let fresh = !Self::contains_id(earned, a.id) && !Self::contains_id(&new_ids, a.id);
            let hit = fresh && Self::check_achievement_requirement(
                &a.requirement,
                won,
                streak,
                profit,
                participated,
                created,
                in_guild,
                level,
            );
            proof {
                let acc = earned@ + new_ids@;
                let tail = all.subrange(i as int, all.len() as int);
                assert(tail[0] == all[i as int]);
                assert(tail.drop_first() =~= all.subrange(i as int + 1, all.len() as int));
                Self::lemma_contains_concat(earned@, new_ids@, all[i as int].id);
                if hit {
                    assert(acc.push(all[i as int].id) =~= earned@ + new_ids@.push(
                        all[i as int].id,
                    ));
                }
                assert((i as u128 + 1) * (u64::MAX as u128) == (i as u128) * (u64::MAX as u128) + (
                u64::MAX as u128)) by (nonlinear_arith);
                assert((i as u128 + 1) * (u64::MAX as u128) <= u128::MAX) by (nonlinear_arith)
                    requires
                        i as u128 + 1 <= 0x1_0000_0000_0000_0000u128,
                ;
            }
            if hit {
                new_ids.push(a.id);
                tokens = tokens + (a.reward_tokens as u128);
                xp = xp + (a.reward_xp as u128);
            }
            i = i + 1;
            proof {
                let rest2 = Self::award_pass(
                    all.subrange(i as int, all.len() as int),
                    earned@ + new_ids@,
                    won as int,
                    streak as int,
                    profit as int,
                    participated as int,
                    created as int,
                    in_guild,
                    level as int,
                );
                if hit {
                    assert(full.0 =~= new_ids@ + rest2.0);
                }
            }
        }
        proof {
            assert(all.subrange(all.len() as int, all.len() as int) =~= Seq::<
                Achievement,
            >::empty());
            assert(full.0 =~= new_ids@);
        }
        (new_ids, tokens, xp)
    }

    // -----------------------------------------------------------------------
    // Oracle voting, resolution, settlement
    // -----------------------------------------------------------------------

    /// Outcome decided by `vote_on_outcome`, in validation order.
    pub open spec fn vote_error(
        s: Self,
        voter_id: PlayerId,
        market_id: MarketId,
        outcome_id: OutcomeId,
        current_time: u64,
    ) -> Option<ContractError> {
        let mi = find_market_idx(s.markets@, market_id);
        let pi = find_player_idx(s.players@, voter_id);
        if mi == -1 {
            Some(ContractError::MarketNotFound)
        } else if pi == -1 {
            Some(ContractError::PlayerNotFound)
        } else {
            let m = s.markets@[mi];
            let vi = find_voting_idx(s.oracle_votes@, market_id);
            if !(m.status is Closed) {
                Some(ContractError::MarketNotReadyForVoting)
            } else if !(m.resolution_method is OracleVoting) {
                Some(ContractError::InvalidResolutionMethod)
            } else if outcome_id >= m.outcomes@.len() {
                Some(ContractError::InvalidOutcome)
            } else if vi >= 0 {
                let v = s.oracle_votes@[vi];
                if current_time >= v.voting_end {
                    Some(ContractError::MarketNotReadyForVoting)
                } else if v.voters@.contains(voter_id) {
                    Some(ContractError::AlreadyVoted)
                } else if v.votes@[outcome_id as int].total_weight + s.players@[pi].reputation
                    > u64::MAX || v.votes@[outcome_id as int].voter_count + 1 > u64::MAX {
                    Some(ContractError::ArithmeticOverflow)
                } else {
                    None
                }
            } else {
                if current_time + s.config.oracle_voting_duration_seconds * 1_000_000 > u64::MAX {
                    Some(ContractError::ArithmeticOverflow)
                } else {
                    None
                }
            }
        }
    }

    /// Cast an oracle vote on a closed market: the voter's reputation is
    /// added to the outcome's weight, each identity votes at most once, and
    /// the first vote opens the market's voting window.
    pub fn vote_on_outcome(
        &mut self,
        voter_id: PlayerId,
        market_id: MarketId,
        outcome_id: OutcomeId,
        current_time: u64,
    ) -> (r: Result<(), ContractError>)
        requires
            old(self).wf(),
        ensures
            final(self).wf(),
            Self::vote_error(*old(self), voter_id, market_id, outcome_id, current_time)
                matches Some(e) ==> r == Err::<(), ContractError>(e) && *final(self) == *old(self),
            Self::vote_error(*old(self), voter_id, market_id, outcome_id, current_time) is None
                ==> {
                &&& r == Ok::<(), ContractError>(())
                &&& Self::vote_ok_post(*old(self), *final(self), voter_id, market_id, outcome_id, current_time)
            },
    {
        let Some(mi) = self.market_index(market_id) else {
            return Err(ContractError::MarketNotFound);
        };
        let Some(pi) = self.player_index(voter_id) else {
            return Err(ContractError::PlayerNotFound);
        };
        proof {
            lemma_find_market_idx(self.markets@, market_id);
            lemma_find_player_idx(self.players@, voter_id);
        }
        if !matches!(self.markets[mi].status, MarketStatus::Closed) {
            return Err(ContractError::MarketNotReadyForVoting);
        }
        if !matches!(self.markets[mi].resolution_method, ResolutionMethod::OracleVoting) {
            return Err(ContractError::InvalidResolutionMethod);
        }
        if outcome_id >= self.markets[mi].outcomes.len() {
            return Err(ContractError::InvalidOutcome);
        }
        let weight = self.players[pi].reputation;
        let ghost pre = *self;
        match self.voting_index(market_id) {
            Some(vi) => {
                proof {
                    lemma_find_voting_idx(self.oracle_votes@, market_id);
                }
                if current_time >= self.oracle_votes[vi].voting_end {
                    return Err(ContractError::MarketNotReadyForVoting);
                }
                if Self::contains_id(&self.oracle_votes[vi].voters, voter_id) {
                    return Err(ContractError::AlreadyVoted);
                }
                let Some(new_weight) = self.oracle_votes[vi].votes[outcome_id]
                    .total_weight
                    .checked_add(weight) else {
                    return Err(ContractError::ArithmeticOverflow);
                };
                let Some(new_count) = self.oracle_votes[vi].votes[outcome_id]
                    .voter_count
                    .checked_add(1) else {
                    return Err(ContractError::ArithmeticOverflow);
                };
                let ghost v0 = self.oracle_votes@[vi as int];
                let mut voting = self.oracle_votes.remove(vi);
                let mut w = voting.votes.remove(outcome_id);
                w.total_weight = new_weight;
                w.voter_count = new_count;
                voting.votes.insert(outcome_id, w);
                voting.voters.push(voter_id);
                let ghost new_voting = voting;
                self.oracle_votes.insert(vi, voting);
                proof {
                    assert(self.oracle_votes@ =~= pre.oracle_votes@.update(vi as int, new_voting));
                    assert(new_voting.votes@ =~= v0.votes@.update(
                        outcome_id as int,
                        WeightedVotes {
                            total_weight: (v0.votes@[outcome_id as int].total_weight
                                + weight) as u64,
                            voter_count: (v0.votes@[outcome_id as int].voter_count + 1) as u64,
                        },
                    ));
                    assert forall|k: int|
                        0 <= k < self.oracle_votes.len() implies {
                        let omi = find_market_idx(
                            self.markets@,
                            (#[trigger] self.oracle_votes[k]).market_id,
                        );
                        &&& omi >= 0
                        &&& self.oracle_votes[k].votes.len() == self.markets@[omi].outcomes.len()
                    } by {
                        lemma_find_market_idx(pre.markets@, self.oracle_votes@[k].market_id);
                    }
                    assert(self.wf());
                }
                Ok(())
            },
            None => {
                let duration = self.config.oracle_voting_duration_seconds;
                let end_wide = (current_time as u128) + (duration as u128) * 1_000_000;
                if end_wide > u64::MAX as u128 {
                    return Err(ContractError::ArithmeticOverflow);
                }
                let n_out = self.markets[mi].outcomes.len();
                let mut votes: Vec<WeightedVotes> = Vec::new();
                let mut j: usize = 0;
                while j < n_out
                    invariant
                        j <= n_out,
                        votes@.len() == j,
                        forall|k: int|
                            0 <= k < j && k != outcome_id as int ==> (#[trigger] votes@[k]) == (
                            WeightedVotes { total_weight: 0, voter_count: 0 }),
                        outcome_id < n_out ==> (j > outcome_id ==> votes@[outcome_id as int] == (
                        WeightedVotes { total_weight: weight, voter_count: 1 })),
                    decreases n_out - j,
                {
                    if j == outcome_id {
                        votes.push(WeightedVotes { total_weight: weight, voter_count: 1 });
                    } else {
                        votes.push(WeightedVotes { total_weight: 0, voter_count: 0 });
                    }
                    j = j + 1;
                }
                let mut voters: Vec<PlayerId> = Vec::new();
                voters.push(voter_id);
                let voting = OracleVoting {
                    market_id,
                    voting_start: current_time,
                    voting_end: end_wide as u64,
                    votes,
                    voters,
                    resolved: false,
                };
                let ghost new_voting = voting;
                self.oracle_votes.push(voting);
                proof {
                    lemma_find_voting_idx(pre.oracle_votes@, market_id);
                    assert forall|k: int|
                        0 <= k < self.oracle_votes.len() implies {
                        let omi = find_market_idx(
                            self.markets@,
                            (#[trigger] self.oracle_votes[k]).market_id,
                        );
                        &&& omi >= 0
                        &&& self.oracle_votes[k].votes.len() == self.markets@[omi].outcomes.len()
                    } by {
                        if k < pre.oracle_votes@.len() {
                            lemma_find_market_idx(pre.markets@, self.oracle_votes@[k].market_id);
                        }
                    }
                    assert(self.wf());
                }
                Ok(())
            },
        }
    }

    /// The winning index of a weight tally: the greatest accumulated weight,
    /// and the lowest index among equals.
    pub open spec fn tally_winner(votes: Seq<WeightedVotes>) -> int
        decreases votes.len(),
    {
        if votes.len() <= 1 {
            0
        } else {
            let rest = Self::tally_winner(votes.drop_last());
            if votes.last().total_weight > votes[rest].total_weight {
                votes.len() - 1
            } else {
                rest
            }
        }
    }

    /// The tally winner carries the strictly greatest weight among lower
    /// indices and at least the weight of every other outcome: ties resolve
    /// to the lowest outcome id.
    pub proof fn lemma_tally_winner_props(votes: Seq<WeightedVotes>)
        requires
            votes.len() >= 1,
        ensures
            0 <= Self::tally_winner(votes) < votes.len(),
            forall|j: int|
                0 <= j < votes.len() ==> (#[trigger] votes[j]).total_weight
                    <= votes[Self::tally_winner(votes)].total_weight,
            forall|j: int|
                0 <= j < Self::tally_winner(votes) ==> (#[trigger] votes[j]).total_weight
                    < votes[Self::tally_winner(votes)].total_weight,
        decreases votes.len(),
    {
        if votes.len() > 1 {
            Self::lemma_tally_winner_props(votes.drop_last());
            assert(forall|j: int|
                0 <= j < votes.len() - 1 ==> (#[trigger] votes[j]) == votes.drop_last()[j]);
        }
    }

    /// The winning index of an automated resolution: the greatest issued
    /// share count, and the lowest index among equals.
    pub open spec fn automated_winner(outcomes: Seq<Outcome>) -> int
        decreases outcomes.len(),
    {
        if outcomes.len() <= 1 {
            0
        } else {
            let rest = Self::automated_winner(outcomes.drop_last());
            if outcomes.last().total_shares > outcomes[rest].total_shares {
                outcomes.len() - 1
            } else {
                rest
            }
        }
    }

    /// The automated winner carries the strictly greatest share count among
    /// lower indices and at least the share count of every other outcome.
    pub proof fn lemma_automated_winner_props(outcomes: Seq<Outcome>)
        requires
            outcomes.len() >= 1,
        ensures
            0 <= Self::automated_winner(outcomes) < outcomes.len(),
            forall|j: int|
                0 <= j < outcomes.len() ==> (#[trigger] outcomes[j]).total_shares
                    <= outcomes[Self::automated_winner(outcomes)].total_shares,
            forall|j: int|
                0 <= j < Self::automated_winner(outcomes) ==> (#[trigger] outcomes[j]).total_shares
                    < outcomes[Self::automated_winner(outcomes)].total_shares,
        decreases outcomes.len(),
    {
        if outcomes.len() > 1 {
            Self::lemma_automated_winner_props(outcomes.drop_last());
            assert(forall|j: int|
                0 <= j < outcomes.len() - 1 ==> (#[trigger] outcomes[j])
                    == outcomes.drop_last()[j]);
        }
    }

    /// The winning outcome by oracle vote: the tally winner over the dense
    /// per-outcome weights.
    fn resolve_by_oracle_vote(votes: &Vec<WeightedVotes>) -> (r: usize)
        requires
            votes@.len() >= 1,
        ensures
            r as int == Self::tally_winner(votes@),
    {
        let mut best: usize = 0;
        let mut i: usize = 1;
        proof {
            assert(votes@.subrange(0, 1).len() == 1);
            assert(Self::tally_winner(votes@.subrange(0, 1)) == 0);
        }
        while i < votes.len()
            invariant
                1 <= i <= votes@.len(),
                0 <= best < i,
                best as int == Self::tally_winner(votes@.subrange(0, i as int)),
            decreases votes@.len() - i,
        {
            proof {
                assert(votes@.subrange(0, i as int + 1).drop_last() =~= votes@.subrange(
                    0,
                    i as int,
                ));
                assert(votes@.subrange(0, i as int + 1).last() == votes@[i as int]);
            }
            if votes[i].total_weight > votes[best].total_weight {
                best = i;
            }
            i = i + 1;
        }
        proof {
            assert(votes@.subrange(0, votes@.len() as int) =~= votes@);
        }
        best
    }

    /// The winning outcome of an automated resolution: the outcome holding
    /// the most issued shares, ties to the lowest id.
    fn resolve_automated(outcomes: &Vec<Outcome>) -> (r: usize)
        requires
            outcomes@.len() >= 1,
        ensures
            r as int == Self::automated_winner(outcomes@),
    {
        let mut best: usize = 0;
        let mut i: usize = 1;
        proof {
            assert(outcomes@.subrange(0, 1).len() == 1);
            assert(Self::automated_winner(outcomes@.subrange(0, 1)) == 0);
        }
        while i < outcomes.len()
            invariant
                1 <= i <= outcomes@.len(),
                0 <= best < i,
                best as int == Self::automated_winner(outcomes@.subrange(0, i as int)),
            decreases outcomes@.len() - i,
        {
            proof {
                assert(outcomes@.subrange(0, i as int + 1).drop_last() =~= outcomes@.subrange(
                    0,
                    i as int,
                ));
                assert(outcomes@.subrange(0, i as int + 1).last() == outcomes@[i as int]);
            }
            if outcomes[i].total_shares > outcomes[best].total_shares {
                best = i;
            }
            i = i + 1;
        }
        proof {
            assert(outcomes@.subrange(0, outcomes@.len() as int) =~= outcomes@);
        }
        best
    }

    /// Outcome decided by `trigger_market_resolution`, in validation order.
    /// A trigger on an already resolved market is a no-op success; a trigger
    /// on an oracle market without votes closes the market and reports
    /// `OracleNotReady`.
    pub open spec fn trigger_error(s: Self, market_id: MarketId, current_time: u64) -> Option<
        ContractError,
    > {
        let mi = find_market_idx(s.markets@, market_id);
        if mi == -1 {
            Some(ContractError::MarketNotFound)
        } else {
            let m = s.markets@[mi];
            if current_time < m.end_time {
                Some(ContractError::MarketNotEnded)
            } else if m.status is Resolved {
                None
            } else if m.resolution_method is OracleVoting && find_voting_idx(
                s.oracle_votes@,
                market_id,
            ) == -1 {
                Some(ContractError::OracleNotReady)
            } else {
                None
            }
        }
    }

    /// The outcome a trigger resolves to, for a market that can resolve now.
    pub open spec fn resolution_winner(s: Self, market_id: MarketId) -> int {
        let mi = find_market_idx(s.markets@, market_id);
        let m = s.markets@[mi];
        if m.resolution_method is OracleVoting {
            Self::tally_winner(s.oracle_votes@[find_voting_idx(s.oracle_votes@, market_id)].votes@)
        } else {
            Self::automated_winner(m.outcomes@)
        }
    }

    /// Trigger resolution of an ended market: an Active market is first
    /// closed (and stays closed even when an oracle tally is not ready
    /// yet); oracle-voting markets resolve to the tally winner, automated
    /// markets to the outcome with the most shares (ties to the lowest id
    /// in both cases); creator-decided markets stay closed awaiting the
    /// creator. Triggering a market already resolved changes nothing and
    /// reports success, so resolution is idempotent and emits no second
    /// event.
    #[verifier::rlimit(100)]
    pub fn trigger_market_resolution(&mut self, market_id: MarketId, current_time: u64) -> (r:
        Result<(), ContractError>)
        requires
            old(self).wf(),
        ensures
            final(self).wf(),
            Self::trigger_error(*old(self), market_id, current_time) matches Some(e) ==> r
                == Err::<(), ContractError>(e) && (if e == ContractError::OracleNotReady {
                Self::closed_post(*old(self), *final(self), market_id)
            } else {
                *final(self) == *old(self)
            }),
            Self::trigger_error(*old(self), market_id, current_time) is None ==> {
                &&& r == Ok::<(), ContractError>(())
                &&& Self::trigger_ok_post(*old(self), *final(self), market_id, current_time)
            },
    {
        let Some(mi) = self.market_index(market_id) else {
            return Err(ContractError::MarketNotFound);
        };
        proof {
            lemma_find_market_idx(self.markets@, market_id);
        }
        if current_time < self.markets[mi].end_time {
            return Err(ContractError::MarketNotEnded);
        }
        if matches!(self.markets[mi].status, MarketStatus::Resolved) {
            return Ok(());
        }
        let ghost pre = *self;
        // Close an active market; the closure persists whatever follows.
        if matches!(self.markets[mi].status, MarketStatus::Active) {
            let mut market = self.markets.remove(mi);
            market.status = MarketStatus::Closed;
            let ghost closed = market;
            self.markets.insert(mi, market);
            proof {
                assert(self.markets@ =~= pre.markets@.update(mi as int, closed));
                lemma_sum_liquidity_update(pre.markets@, mi as int, closed);
                lemma_find_market_idx_update(pre.markets@, mi as int, closed);
                assert(wf_market(closed));
                Self::lemma_market_update_wf(pre, *self, mi as int, closed);
            }
        }
        let ghost mid = *self;
        let winner: usize;
        if matches!(self.markets[mi].resolution_method, ResolutionMethod::OracleVoting) {
            let Some(vi) = self.voting_index(market_id) else {
                proof {
                    assert(self.markets@ =~= pre.markets@.update(
                        mi as int,
                        (Market { status: MarketStatus::Closed, ..pre.markets@[mi as int] }),
                    ));
                }
                return Err(ContractError::OracleNotReady);
            };
            proof {
                lemma_find_voting_idx(self.oracle_votes@, market_id);
            }
            winner = Self::resolve_by_oracle_vote(&self.oracle_votes[vi].votes);
            proof {
                Self::lemma_tally_winner_props(self.oracle_votes@[vi as int].votes@);
            }
            let mut voting = self.oracle_votes.remove(vi);
            voting.resolved = true;
            let ghost new_voting = voting;
            self.oracle_votes.insert(vi, voting);
            proof {
                assert(self.oracle_votes@ =~= mid.oracle_votes@.update(vi as int, new_voting));
            }
        } else if matches!(self.markets[mi].resolution_method, ResolutionMethod::Automated) {
            winner = Self::resolve_automated(&self.markets[mi].outcomes);
            proof {
                Self::lemma_automated_winner_props(self.markets@[mi as int].outcomes@);
            }
        } else {
            // The creator must resolve explicitly; staying closed is not a
            // failure.
            proof {
                assert(self.markets@ =~= pre.markets@.update(
                    mi as int,
                    (Market { status: MarketStatus::Closed, ..pre.markets@[mi as int] }),
                ));
            }
            return Ok(());
        }
        let ghost mid2 = *self;
        let mut market = self.markets.remove(mi);
        market.status = MarketStatus::Resolved;
        market.winning_outcome = Some(winner);
        market.resolution_time = Some(current_time);
        let ghost resolved = market;
        self.markets.insert(mi, market);
        self.events.push(Message::MarketResolved { market_id, winning_outcome: winner });
        proof {
            assert(self.markets@ =~= mid2.markets@.update(mi as int, resolved));
            lemma_sum_liquidity_update(mid2.markets@, mi as int, resolved);
            lemma_find_market_idx_update(mid2.markets@, mi as int, resolved);
            assert(wf_market(resolved));
            assert forall|k: int|
                0 <= k < self.oracle_votes.len() implies {
                let omi = find_market_idx(self.markets@, (#[trigger] self.oracle_votes[k]).market_id);
                &&& omi >= 0
                &&& self.oracle_votes[k].votes.len() == self.markets@[omi].outcomes.len()
            } by {
                lemma_find_market_idx(mid2.markets@, self.oracle_votes@[k].market_id);
            }
            assert(self.wf());
            assert(self.markets@ =~= pre.markets@.update(
                mi as int,
                Market {
                    status: MarketStatus::Resolved,
                    winning_outcome: Some(winner),
                    resolution_time: Some(current_time),
                    ..pre.markets@[mi as int]
                },
            ));
        }
        Ok(())
    }

    /// The post-state of a trigger that only closed the market.
    pub open spec fn closed_post(pre: Self, post: Self, market_id: MarketId) -> bool {
        let mi = find_market_idx(pre.markets@, market_id);
        let m = pre.markets@[mi];
        &&& post.markets@ == pre.markets@.update(
            mi,
            Market { status: MarketStatus::Closed, ..m },
        )
        &&& post == (PredictionMarketContract { markets: post.markets, ..pre })
    }

    /// Replacing one market with a well-formed market of the same id, the
    /// same pool, and the same outcome count preserves well-formedness.
    proof fn lemma_market_update_wf(pre: Self, post: Self, mi: int, mm: Market)
        requires
            pre.wf(),
            0 <= mi < pre.markets@.len(),
            post.markets@ == pre.markets@.update(mi, mm),
            mm.id == pre.markets@[mi].id,
            mm.total_liquidity == pre.markets@[mi].total_liquidity,
            mm.outcomes@.len() == pre.markets@[mi].outcomes@.len(),
            wf_market(mm),
            post == (PredictionMarketContract { markets: post.markets, ..pre }),
        ensures
            post.wf(),
    {
        lemma_sum_liquidity_update(pre.markets@, mi, mm);
        lemma_find_market_idx_update(pre.markets@, mi, mm);
        assert forall|k: int|
            0 <= k < post.oracle_votes.len() implies {
            let omi = find_market_idx(post.markets@, (#[trigger] post.oracle_votes[k]).market_id);
            &&& omi >= 0
            &&& post.oracle_votes[k].votes.len() == post.markets@[omi].outcomes.len()
        } by {
            lemma_find_market_idx(pre.markets@, post.oracle_votes@[k].market_id);
        }
        assert(post.conserves_tokens());
        assert(post.wf());
    }

    /// Outcome decided by `claim_winnings`, in validation order.
    pub open spec fn claim_error(s: Self, player_id: PlayerId, market_id: MarketId) -> Option<
        ContractError,
    > {
        let mi = find_market_idx(s.markets@, market_id);
        if mi == -1 {
            Some(ContractError::MarketNotFound)
        } else {
            let m = s.markets@[mi];
            let posi = find_position_idx(m.positions@, player_id);
            if !(m.status is Resolved) {
                Some(ContractError::NotResolved)
            } else if posi == -1 {
                Some(ContractError::NoPosition)
            } else {
                let w = m.winning_outcome.unwrap() as int;
                let shares = m.positions@[posi].shares_by_outcome@[w];
                if shares == 0 {
                    Some(ContractError::NoWinnings)
                } else if find_player_idx(s.players@, player_id) == -1 {
                    Some(ContractError::PlayerNotFound)
                } else if s.players@[find_player_idx(s.players@, player_id)].total_earned
                    + Self::payout_spec(m, shares as int) > u64::MAX {
                    Some(ContractError::ArithmeticOverflow)
                } else {
                    None
                }
            }
        }
    }

    /// Proportional-pool payout: the claimant's winning shares times the
    /// market's remaining pool, divided by the winning shares still
    /// unclaimed, rounded down. The last claimant drains the pool exactly.
    pub open spec fn payout_spec(m: Market, shares: int) -> int {
        shares * m.total_liquidity / m.outcomes@[m.winning_outcome.unwrap() as int]
            .total_shares as int
    }

    /// Claim winnings from a resolved market, at most once per identity:
    /// the payout is the claimant's share of the remaining pool in
    /// proportion to the winning shares still unclaimed; the claimed shares
    /// are then zeroed, so a second claim finds no winnings.
    #[verifier::rlimit(100)]
    pub fn claim_winnings(&mut self, player_id: PlayerId, market_id: MarketId) -> (r: Result<
        (),
        ContractError,
    >)
        requires
            old(self).wf(),
        ensures
            final(self).wf(),
            Self::claim_error(*old(self), player_id, market_id) matches Some(e) ==> r == Err::<
                (),
                ContractError,
            >(e) && *final(self) == *old(self),
            Self::claim_error(*old(self), player_id, market_id) is None ==> {
                &&& r == Ok::<(), ContractError>(())
                &&& Self::claim_ok_post(*old(self), *final(self), player_id, market_id)
            },
    {
        let Some(mi) = self.market_index(market_id) else {
            return Err(ContractError::MarketNotFound);
        };
        proof {
            lemma_find_market_idx(self.markets@, market_id);
        }
        if !matches!(self.markets[mi].status, MarketStatus::Resolved) {
            return Err(ContractError::NotResolved);
        }
        let Some(qi) = Self::position_index(&self.markets[mi], player_id) else {
            return Err(ContractError::NoPosition);
        };
        proof {
            lemma_find_position_idx(self.markets@[mi as int].positions@, player_id);
        }
        let w = match self.markets[mi].winning_outcome {
            Some(w) => w,
            None => {
                // Unreachable: a resolved market carries a winning outcome.
                proof {
                    assert(false);
                }
                return Err(ContractError::NotResolved);
            },
        };
        let shares = self.markets[mi].positions[qi].shares_by_outcome[w];
        if shares == 0 {
            return Err(ContractError::NoWinnings);
        }
        let Some(pi) = self.player_index(player_id) else {
            return Err(ContractError::PlayerNotFound);
        };
        proof {
            lemma_find_player_idx(self.players@, player_id);
            lemma_sum_shares_at_bound(self.markets@[mi as int].positions@, qi as int, w as int);
        }
        let total_winning = self.markets[mi].outcomes[w].total_shares;
        let pool = self.markets[mi].total_liquidity;
        assert((shares as u128) * (pool as u128) <= u128::MAX) by (nonlinear_arith)
            requires
                shares <= u64::MAX,
                pool <= u64::MAX,
        ;
        let payout_wide = (shares as u128) * (pool as u128) / (total_winning as u128);
        proof {
            assert(shares as int * pool as int <= total_winning as int * pool as int)
                by (nonlinear_arith)
                requires
                    shares <= total_winning,
                    pool >= 0,
            ;
            vstd::arithmetic::div_mod::lemma_div_is_ordered(
                shares as int * pool as int,
                total_winning as int * pool as int,
                total_winning as int,
            );
            vstd::arithmetic::div_mod::lemma_div_by_multiple(pool as int, total_winning as int);
        }
        let payout = payout_wide as u64;
        if self.players[pi].total_earned > u64::MAX - payout {
            return Err(ContractError::ArithmeticOverflow);
        }
        proof {
            lemma_sum_balances_bound(self.players@, pi as int);
            lemma_sum_liquidity_bound(self.markets@, mi as int);
            lemma_sum_pools_nonneg(self.guilds@);
            lemma_sum_liquidity_nonneg(self.markets@);
        }
        let ghost pre = *self;
        let ghost m0 = pre.markets@[mi as int];
        let mut market = self.markets.remove(mi);
        let mut outcome = market.outcomes.remove(w);
        outcome.total_shares = outcome.total_shares - shares;
        let ghost new_outcome = outcome;
        market.outcomes.insert(w, outcome);
        let mut pos = market.positions.remove(qi);
        let _ = pos.shares_by_outcome.remove(w);
        pos.shares_by_outcome.insert(w, 0);
        let ghost new_pos = pos;
        market.positions.insert(qi, pos);
        market.total_liquidity = market.total_liquidity - payout;
        let ghost new_market = market;
        self.markets.insert(mi, market);
        let mut player = self.players.remove(pi);
        player.token_balance = player.token_balance + payout;
        player.total_earned = player.total_earned + payout;
        let ghost new_player = player;
        self.players.insert(pi, player);
        proof {
            assert(new_outcome == (Outcome {
                total_shares: (m0.outcomes@[w as int].total_shares - shares) as u64,
                ..m0.outcomes@[w as int]
            }));
            assert(new_market.outcomes@ =~= m0.outcomes@.update(w as int, new_outcome));
            assert(new_pos.shares_by_outcome@ =~= m0.positions@[qi as int].shares_by_outcome@
                .update(w as int, 0u64));
            assert(new_market.positions@ =~= m0.positions@.update(qi as int, new_pos));
            assert(self.markets@ =~= pre.markets@.update(mi as int, new_market));
            assert(self.players@ =~= pre.players@.update(pi as int, new_player));
            lemma_sum_liquidity_update(pre.markets@, mi as int, new_market);
            lemma_sum_balances_update(pre.players@, pi as int, new_player);
            lemma_find_market_idx_update(pre.markets@, mi as int, new_market);
            assert forall|o: int|
                0 <= o < new_market.outcomes@.len() implies sum_shares_at(new_market.positions@, o)
                == (#[trigger] new_market.outcomes@[o]).total_shares as int by {
                lemma_sum_shares_at_update(m0.positions@, qi as int, new_pos, o);
            }
            assert(wf_market(new_market));
            assert forall|k: int|
                0 <= k < self.oracle_votes.len() implies {
                let omi = find_market_idx(self.markets@, (#[trigger] self.oracle_votes[k]).market_id);
                &&& omi >= 0
                &&& self.oracle_votes[k].votes.len() == self.markets@[omi].outcomes.len()
            } by {
                lemma_find_market_idx(pre.markets@, self.oracle_votes@[k].market_id);
            }
            assert(self.wf());
        }
        Ok(())
    }

    // -----------------------------------------------------------------------
    // Pricing over a market's state
    // -----------------------------------------------------------------------

    /// The current fixed-point price of one share of outcome `o`.
    pub open spec fn price_of(m: Market, o: int) -> int {
        crate::pricing::curve_price_fp(
            m.base_price as int,
            m.outcomes@[o].total_shares as int,
            m.total_liquidity as int,
            m.smoothing_half_steps as nat,
        )
    }

    /// Whether the price computation for outcome `o` fits machine arithmetic.
    pub open spec fn price_of_fits(m: Market, o: int) -> bool {
        crate::pricing::price_fits(
            m.base_price as int,
            m.outcomes@[o].total_shares as int,
            m.total_liquidity as int,
            m.smoothing_half_steps as nat,
        )
    }

    /// Shares issued for a stake of `amount`: one share per token on the
    /// first trade of an empty market, `amount / price` rounded down after.
    pub open spec fn shares_for_amount_spec(m: Market, o: int, amount: int) -> int {
        if m.total_liquidity == 0 {
            amount
        } else {
            amount * PRICE_SCALE / Self::price_of(m, o)
        }
    }

    /// Sale proceeds for `shares` at the pre-trade price, rounded down and
    /// capped at the market's pool, so a market never pays out more than it
    /// holds.
    pub open spec fn sell_value_spec(m: Market, o: int, shares: int) -> int {
        let v = shares * Self::price_of(m, o) / (PRICE_SCALE as int);
        if v > m.total_liquidity {
            m.total_liquidity as int
        } else {
            v
        }
    }

    /// The current price per share of an outcome, in fixed-point units
    /// scaled by `PRICE_SCALE`: the base price while the market holds no
    /// liquidity, the curve price clamped to the base-price floor after.
    pub fn calculate_current_price(market: &Market, outcome_id: OutcomeId) -> (r: Result<
        u64,
        ContractError,
    >)
        requires
            wf_market(*market),
        ensures
            outcome_id >= market.outcomes@.len() ==> r == Err::<u64, ContractError>(
                ContractError::InvalidOutcome,
            ),
            outcome_id < market.outcomes@.len() && Self::price_of_fits(*market, outcome_id as int)
                ==> (r matches Ok(p) && p as int == Self::price_of(*market, outcome_id as int)),
            outcome_id < market.outcomes@.len() && !Self::price_of_fits(
                *market,
                outcome_id as int,
            ) ==> r == Err::<u64, ContractError>(ContractError::ArithmeticOverflow),
            r matches Ok(p) ==> p >= market.base_price * PRICE_SCALE,
    {
        if outcome_id >= market.outcomes.len() {
            return Err(ContractError::InvalidOutcome);
        }
        crate::pricing::price_per_share_fp(
            market.base_price,
            market.outcomes[outcome_id].total_shares,
            market.total_liquidity,
            market.smoothing_half_steps,
        )
    }

    /// Shares issued for investing `amount` tokens in an outcome, at the
    /// pre-trade price; never more than `amount`.
    pub fn calculate_shares_for_amount(market: &Market, outcome_id: OutcomeId, amount: u64) -> (r:
        Result<u64, ContractError>)
        requires
            wf_market(*market),
        ensures
            outcome_id >= market.outcomes@.len() ==> r == Err::<u64, ContractError>(
                ContractError::InvalidOutcome,
            ),
            outcome_id < market.outcomes@.len() && Self::price_of_fits(*market, outcome_id as int)
                ==> (r matches Ok(sh) && sh as int == Self::shares_for_amount_spec(
                *market,
                outcome_id as int,
                amount as int,
            )),
            outcome_id < market.outcomes@.len() && !Self::price_of_fits(
                *market,
                outcome_id as int,
            ) ==> r == Err::<u64, ContractError>(ContractError::ArithmeticOverflow),
            r matches Ok(sh) ==> sh <= amount,
    {
        if outcome_id >= market.outcomes.len() {
            return Err(ContractError::InvalidOutcome);
        }
        if market.total_liquidity == 0 {
            return Ok(amount);
        }
        let price = match crate::pricing::price_per_share_fp(
            market.base_price,
            market.outcomes[outcome_id].total_shares,
            market.total_liquidity,
            market.smoothing_half_steps,
        ) {
            Ok(p) => p,
            Err(e) => {
                return Err(e);
            },
        };
        assert((amount as u128) * (PRICE_SCALE as u128) <= u128::MAX) by (nonlinear_arith)
            requires
                amount <= u64::MAX,
        ;
        proof {
            crate::pricing::lemma_scaled_div_le(amount as int, price as int);
        }
        let shares_wide = (amount as u128) * (PRICE_SCALE as u128) / (price as u128);
        Ok(shares_wide as u64)
    }

    /// Tokens returned for selling `shares` of an outcome at the pre-trade
    /// price, capped at the market's remaining pool.
    pub fn calculate_sell_value(market: &Market, outcome_id: OutcomeId, shares: u64) -> (r: Result<
        u64,
        ContractError,
    >)
        requires
            wf_market(*market),
        ensures
            outcome_id >= market.outcomes@.len() ==> r == Err::<u64, ContractError>(
                ContractError::InvalidOutcome,
            ),
            outcome_id < market.outcomes@.len() && Self::price_of_fits(*market, outcome_id as int)
                ==> (r matches Ok(v) && v as int == Self::sell_value_spec(
                *market,
                outcome_id as int,
                shares as int,
            )),
            outcome_id < market.outcomes@.len() && !Self::price_of_fits(
                *market,
                outcome_id as int,
            ) ==> r == Err::<u64, ContractError>(ContractError::ArithmeticOverflow),
            r matches Ok(v) ==> v <= market.total_liquidity,
    {
        if outcome_id >= market.outcomes.len() {
            return Err(ContractError::InvalidOutcome);
        }
        let price = match crate::pricing::price_per_share_fp(
            market.base_price,
            market.outcomes[outcome_id].total_shares,
            market.total_liquidity,
            market.smoothing_half_steps,
        ) {
            Ok(p) => p,
            Err(e) => {
                return Err(e);
            },
        };
        assert((shares as u128) * (price as u128) <= u128::MAX) by (nonlinear_arith)
            requires
                shares <= u64::MAX,
                price <= u64::MAX,
        ;
        let value_wide = (shares as u128) * (price as u128) / (PRICE_SCALE as u128);
        if value_wide > market.total_liquidity as u128 {
            Ok(market.total_liquidity)
        } else {
            Ok(value_wide as u64)
        }
    }

    // -----------------------------------------------------------------------
    // Trading
    // -----------------------------------------------------------------------

    /// Trading fee: half a percent of the traded amount, rounded down.
    pub open spec fn trading_fee_of(amount: int) -> int {
        amount / 200
    }

    /// The market creator's half of the trading fee, rounded down.
    pub open spec fn trading_creator_share(amount: int) -> int {
        Self::trading_fee_of(amount) / 2
    }

    /// The platform's remainder of the trading fee.
    pub open spec fn trading_platform_share(amount: int) -> int {
        Self::trading_fee_of(amount) - Self::trading_creator_share(amount)
    }

    /// Index of this player's position in a market, `None` before the first
    /// purchase.
    fn position_index(market: &Market, player: PlayerId) -> (r: Option<usize>)
        requires
            forall|a: int, b: int|
                0 <= a < b < market.positions.len() ==> market.positions[a].player
                    != market.positions[b].player,
        ensures
            match r {
                Some(i) => i as int == find_position_idx(market.positions@, player),
                None => find_position_idx(market.positions@, player) == -1,
            },
    {
        let n = market.positions.len();
        let mut i: usize = 0;
        while i < n
            invariant
                i <= n,
                n == market.positions@.len(),
                forall|j: int| 0 <= j < i ==> (#[trigger] market.positions@[j]).player != player,
                forall|a: int, b: int|
                    0 <= a < b < market.positions.len() ==> market.positions[a].player
                        != market.positions[b].player,
            decreases n - i,
        {
            if market.positions[i].player == player {
                proof {
                    lemma_find_position_idx(market.positions@, player);
                }
                return Some(i);
            }
            i = i + 1;
        }
        proof {
            lemma_find_position_idx(market.positions@, player);
        }
        None
    }

    /// Outcome decided by `buy_shares`, in validation order.
    pub open spec fn buy_shares_error(
        s: Self,
        player_id: PlayerId,
        market_id: MarketId,
        outcome_id: OutcomeId,
        amount: u64,
        max_price_per_share: u64,
        current_time: u64,
    ) -> Option<ContractError> {
        let mi = find_market_idx(s.markets@, market_id);
        let pi = find_player_idx(s.players@, player_id);
        if mi == -1 {
            Some(ContractError::MarketNotFound)
        } else if pi == -1 {
            Some(ContractError::PlayerNotFound)
        } else {
            let m = s.markets@[mi];
            let p = s.players@[pi];
            if !(m.status is Active) {
                Some(ContractError::MarketNotActive)
            } else if current_time >= m.end_time {
                Some(ContractError::MarketEnded)
            } else if outcome_id >= m.outcomes@.len() {
                Some(ContractError::InvalidOutcome)
            } else if p.token_balance < amount {
                Some(ContractError::InsufficientBalance)
            } else if !Self::price_of_fits(m, outcome_id as int) {
                Some(ContractError::ArithmeticOverflow)
            } else {
                let net = amount - Self::trading_fee_of(amount as int);
                let shares = Self::shares_for_amount_spec(m, outcome_id as int, net);
                if amount > shares * max_price_per_share {
                    Some(ContractError::SlippageExceeded)
                } else {
                    let ci = find_player_idx(s.players@, m.creator);
                    if ci == -1 {
                        Some(ContractError::PlayerNotFound)
                    } else if Self::buy_overflows(s, m, p, ci == pi, player_id, outcome_id, amount)
                     {
                        Some(ContractError::ArithmeticOverflow)
                    } else {
                        None
                    }
                }
            }
        }
    }

    /// Whether any arithmetic step of a validated purchase fails to fit.
    pub open spec fn buy_overflows(
        s: Self,
        m: Market,
        p: Player,
        creator_is_buyer: bool,
        player_id: PlayerId,
        outcome_id: OutcomeId,
        amount: u64,
    ) -> bool {
        let fee = Self::trading_fee_of(amount as int);
        let net = amount - fee;
        let shares = Self::shares_for_amount_spec(m, outcome_id as int, net);
        let share_c = Self::trading_creator_share(amount as int);
        let posi = find_position_idx(m.positions@, player_id);
        let invested0: int = if posi >= 0 {
            m.positions@[posi].total_invested as int
        } else {
            0
        };
        let lvxp = Self::level_up_spec(p.level as int, p.experience_points + 10);
        let award = Self::buy_award(s, m, p, player_id);
        let extra: int = if creator_is_buyer {
            share_c
        } else {
            0
        };
        let ci = find_player_idx(s.players@, m.creator);
        ||| m.outcomes@[outcome_id as int].total_shares + shares > u64::MAX
        ||| invested0 + amount > u64::MAX
        ||| (posi == -1 && m.total_participants + 1 > u64::MAX)
        ||| p.total_spent + amount > u64::MAX
        ||| p.markets_participated + 1 > u64::MAX
        ||| p.experience_points + 10 > u64::MAX
        ||| p.token_balance - amount + award.1 + extra > u64::MAX
        ||| p.total_earned + award.1 + extra > u64::MAX
        ||| lvxp.1 + award.2 > u64::MAX
        ||| s.total_supply + award.1 > u64::MAX
        ||| (!creator_is_buyer && s.players@[ci].total_earned + share_c > u64::MAX)
        ||| !crate::pricing::price_fits(
            m.base_price as int,
            m.outcomes@[outcome_id as int].total_shares + shares,
            m.total_liquidity + net,
            m.smoothing_half_steps as nat,
        )
    }

    /// The achievement pass a purchase triggers: empty unless the buyer
    /// levels up, and otherwise evaluated against the buyer's updated
    /// statistics.
    pub open spec fn buy_award(s: Self, m: Market, p: Player, player_id: PlayerId) -> (
        Seq<AchievementId>,
        int,
        int,
    ) {
        let lvxp = Self::level_up_spec(p.level as int, p.experience_points + 10);
        if lvxp.0 > p.level {
            Self::award_pass(
                s.achievements@,
                p.achievements_earned@,
                p.markets_won as int,
                p.win_streak as int,
                p.total_profit as int,
                p.markets_participated + 1,
                Self::count_created(s.markets@, player_id),
                p.guild_id is Some,
                lvxp.0,
            )
        } else {
            (Seq::empty(), 0, 0)
        }
    }

    /// The buyer's account after a purchase: debited the stake, credited the
    /// achievement rewards and (when the buyer created the market) the
    /// creator's fee share, experience added and levels applied.
    pub open spec fn is_buyer_after(
        b: Player,
        p: Player,
        s: Self,
        m: Market,
        player_id: PlayerId,
        market_id: MarketId,
        amount: u64,
        extra: int,
        had_position: bool,
        current_time: u64,
    ) -> bool {
        let lvxp = Self::level_up_spec(p.level as int, p.experience_points + 10);
        let award = Self::buy_award(s, m, p, player_id);
        &&& b.token_balance == p.token_balance - amount + award.1 + extra
        &&& b.total_spent == p.total_spent + amount
        &&& b.total_earned == p.total_earned + award.1 + extra
        &&& b.markets_participated == p.markets_participated + 1
        &&& b.level == lvxp.0
        &&& b.experience_points == lvxp.1 + award.2
        &&& b.achievements_earned@ == p.achievements_earned@ + award.0
        &&& b.active_markets@ == if had_position {
            p.active_markets@
        } else {
            p.active_markets@.push(market_id)
        }
        &&& b.id == p.id
        &&& b.display_name == p.display_name
        &&& b.registration_time == p.registration_time
        &&& b.last_login == p.last_login
        &&& b.reputation == p.reputation
        &&& b.markets_won == p.markets_won
        &&& b.total_profit == p.total_profit
        &&& b.win_streak == p.win_streak
        &&& b.best_win_streak == p.best_win_streak
        &&& b.guild_id == p.guild_id
    }

    /// The market after a purchase: shares issued to the outcome, the net
    /// stake added to the pool, the position upserted, and the outcome
    /// repriced on the post-trade state.
    pub open spec fn is_market_after_buy(
        mm: Market,
        m: Market,
        player_id: PlayerId,
        outcome_id: OutcomeId,
        amount: u64,
        current_time: u64,
    ) -> bool {
        let net = amount - Self::trading_fee_of(amount as int);
        let shares = Self::shares_for_amount_spec(m, outcome_id as int, net);
        let posi = find_position_idx(m.positions@, player_id);
        let o = m.outcomes@[outcome_id as int];
        let post_price = crate::pricing::curve_price_fp(
            m.base_price as int,
            o.total_shares + shares,
            m.total_liquidity + net,
            m.smoothing_half_steps as nat,
        );
        &&& mm.outcomes@ == m.outcomes@.update(
            outcome_id as int,
            Outcome {
                total_shares: (o.total_shares + shares) as u64,
                current_price: post_price as u64,
                ..o
            },
        )
        &&& mm.total_liquidity == m.total_liquidity + net
        &&& (if posi >= 0 {
            let q = mm.positions@[posi];
            let q0 = m.positions@[posi];
            &&& mm.positions@ == m.positions@.update(posi, q)
            &&& q.player == q0.player
            &&& q.entry_time == q0.entry_time
            &&& q.total_invested == q0.total_invested + amount
            &&& q.shares_by_outcome@ == q0.shares_by_outcome@.update(
                outcome_id as int,
                (q0.shares_by_outcome@[outcome_id as int] + shares) as u64,
            )
            &&& mm.total_participants == m.total_participants
        } else {
            let q = mm.positions@.last();
            &&& mm.positions@ == m.positions@.push(q)
            &&& q.player == player_id
            &&& q.entry_time == current_time
            &&& q.total_invested == amount
            &&& q.shares_by_outcome@.len() == m.outcomes@.len()
            &&& forall|j: int|
                0 <= j < q.shares_by_outcome@.len() && j != outcome_id as int
                    ==> q.shares_by_outcome@[j] == 0
            &&& q.shares_by_outcome@[outcome_id as int] as int == shares
            &&& mm.total_participants == m.total_participants + 1
        })
        &&& mm.id == m.id
        &&& mm.creator == m.creator
        &&& mm.title == m.title
        &&& mm.description == m.description
        &&& mm.market_type == m.market_type
        &&& mm.creation_time == m.creation_time
        &&& mm.end_time == m.end_time
        &&& mm.resolution_time == m.resolution_time
        &&& mm.status == m.status
        &&& mm.base_price == m.base_price
        &&& mm.smoothing_half_steps == m.smoothing_half_steps
        &&& mm.winning_outcome == m.winning_outcome
        &&& mm.resolution_method == m.resolution_method
    }

    /// The state after a successful purchase, relating the post-state to
    /// the pre-state.
    pub open spec fn buy_ok_post(
        pre: Self,
        post: Self,
        player_id: PlayerId,
        market_id: MarketId,
        outcome_id: OutcomeId,
        amount: u64,
        current_time: u64,
    ) -> bool {
        let mi = find_market_idx(pre.markets@, market_id);
        let pi = find_player_idx(pre.players@, player_id);
        let m = pre.markets@[mi];
        let p = pre.players@[pi];
        let ci = find_player_idx(pre.players@, m.creator);
        let net = amount - Self::trading_fee_of(amount as int);
        let shares = Self::shares_for_amount_spec(m, outcome_id as int, net);
        let award = Self::buy_award(pre, m, p, player_id);
        let share_c = Self::trading_creator_share(amount as int);
        let posi = find_position_idx(m.positions@, player_id);
        &&& Self::is_market_after_buy(
            post.markets@[mi],
            m,
            player_id,
            outcome_id,
            amount,
            current_time,
        )
        &&& post.markets@ == pre.markets@.update(mi, post.markets@[mi])
        &&& (if ci == pi {
            &&& post.players@ == pre.players@.update(pi, post.players@[pi])
            &&& Self::is_buyer_after(
                post.players@[pi],
                p,
                pre,
                m,
                player_id,
                market_id,
                amount,
                share_c,
                posi >= 0,
                current_time,
            )
        } else {
            let c = pre.players@[ci];
            &&& post.players@ == pre.players@.update(pi, post.players@[pi]).update(
                ci,
                Player {
                    token_balance: (c.token_balance + share_c) as u64,
                    total_earned: (c.total_earned + share_c) as u64,
                    ..c
                },
            )
            &&& Self::is_buyer_after(
                post.players@[pi],
                p,
                pre,
                m,
                player_id,
                market_id,
                amount,
                0,
                posi >= 0,
                current_time,
            )
        })
        &&& post.total_supply == pre.total_supply + award.1
        &&& post.platform_pool == pre.platform_pool + Self::trading_platform_share(amount as int)
        &&& post.events@ == pre.events@ + Self::unlock_events(player_id, award.0) + seq![
            Message::TradeExecuted {
                player_id,
                market_id,
                outcome_id,
                shares: shares as u64,
                price: amount,
            },
        ]
        &&& post.config == pre.config
        &&& post.guilds == pre.guilds
        &&& post.oracle_votes == pre.oracle_votes
        &&& post.achievements == pre.achievements
        &&& post.leaderboard == pre.leaderboard
        &&& post.next_market_id == pre.next_market_id
        &&& post.next_guild_id == pre.next_guild_id
    }

    /// Buy shares of an outcome: after validation and slippage protection,
    /// debits the buyer's balance by the full amount, adds the amount net of
    /// the trading fee to the market pool, issues shares for that net stake
    /// at the pre-trade price — pricing the shares on what the pool actually
    /// receives keeps the curve monotone across a purchase, so an immediate
    /// resale can never gross more than the pool took in — splits the fee
    /// between the market's creator and the platform pool, awards trade
    /// experience (and any achievements a level-up unlocks, minting their
    /// rewards), reprices the outcome, and records the trade event.
    ///
    /// The slippage bound applies per share to the realized trade: the
    /// purchase is rejected unless `amount <= shares * max_price_per_share`.
    #[verifier::rlimit(100)]
    pub fn buy_shares(
        &mut self,
        player_id: PlayerId,
        market_id: MarketId,
        outcome_id: OutcomeId,
        amount: u64,
        max_price_per_share: u64,
        current_time: u64,
    ) -> (r: Result<(), ContractError>)
        requires
            old(self).wf(),
        ensures
            final(self).wf(),
            Self::buy_shares_error(
                *old(self),
                player_id,
                market_id,
                outcome_id,
                amount,
                max_price_per_share,
                current_time,
            ) matches Some(e) ==> r == Err::<(), ContractError>(e) && *final(self) == *old(self),
            Self::buy_shares_error(
                *old(self),
                player_id,
                market_id,
                outcome_id,
                amount,
                max_price_per_share,
                current_time,
            ) is None ==> {
                &&& r == Ok::<(), ContractError>(())
                &&& Self::buy_ok_post(
                    *old(self),
                    *final(self),
                    player_id,
                    market_id,
                    outcome_id,
                    amount,
                    current_time,
                )
            },
    {
        let Some(mi) = self.market_index(market_id) else {
            return Err(ContractError::MarketNotFound);
        };
        let Some(pi) = self.player_index(player_id) else {
            return Err(ContractError::PlayerNotFound);
        };
        proof {
            lemma_find_market_idx(self.markets@, market_id);
            lemma_find_player_idx(self.players@, player_id);
        }
        if !matches!(self.markets[mi].status, MarketStatus::Active) {
            return Err(ContractError::MarketNotActive);
        }
        if current_time >= self.markets[mi].end_time {
            return Err(ContractError::MarketEnded);
        }
        if outcome_id >= self.markets[mi].outcomes.len() {
            return Err(ContractError::InvalidOutcome);
        }
        if self.players[pi].token_balance < amount {
            return Err(ContractError::InsufficientBalance);
        }
        let fee = amount / 200;
        proof {
            vstd::arithmetic::div_mod::lemma_div_is_ordered_by_denominator(amount as int, 1, 200);
            vstd::arithmetic::div_mod::lemma_div_basics(amount as int);
        }
        let net = amount - fee;
        // Shares are priced on the amount that actually enters the pool, so
        // the share/liquidity ratio never rises above the base-price floor
        // across a purchase.
        let shares = match Self::calculate_shares_for_amount(&self.markets[mi], outcome_id, net) {
            Ok(sh) => sh,
            Err(e) => {
                return Err(e);
            },
        };
        assert((shares as u128) * (max_price_per_share as u128) <= u128::MAX) by (nonlinear_arith)
            requires
                shares <= u64::MAX,
                max_price_per_share <= u64::MAX,
        ;
        if (amount as u128) > (shares as u128) * (max_price_per_share as u128) {
            proof {
                assert((shares as u128) * (max_price_per_share as u128) == shares as int
                    * max_price_per_share as int) by (nonlinear_arith)
                    requires
                        shares <= u64::MAX,
                        max_price_per_share <= u64::MAX,
                ;
            }
            return Err(ContractError::SlippageExceeded);
        }
        proof {
            assert((shares as u128) * (max_price_per_share as u128) == shares as int
                * max_price_per_share as int) by (nonlinear_arith)
                requires
                    shares <= u64::MAX,
                    max_price_per_share <= u64::MAX,
            ;
        }
        let creator = self.markets[mi].creator;
        let Some(ci) = self.player_index(creator) else {
            return Err(ContractError::PlayerNotFound);
        };
        proof {
            lemma_find_player_idx(self.players@, creator);
        }
        let creator_share = fee / 2;
        proof {
            vstd::arithmetic::div_mod::lemma_div_is_ordered_by_denominator(fee as int, 1, 2);
            vstd::arithmetic::div_mod::lemma_div_basics(fee as int);
        }
        let platform_share = fee - creator_share;
        let extra: u64 = if ci == pi {
            creator_share
        } else {
            0
        };
        let ghost m0 = self.markets@[mi as int];
        let ghost p0 = self.players@[pi as int];
        let Some(new_total_shares) = self.markets[mi].outcomes[outcome_id]
            .total_shares
            .checked_add(shares) else {
            return Err(ContractError::ArithmeticOverflow);
        };
        let posi_opt = Self::position_index(&self.markets[mi], player_id);
        let invested0: u64 = match posi_opt {
            Some(qi) => {
                proof {
                    lemma_find_position_idx(m0.positions@, player_id);
                }
                self.markets[mi].positions[qi].total_invested
            },
            None => 0,
        };
        let Some(new_invested) = invested0.checked_add(amount) else {
            return Err(ContractError::ArithmeticOverflow);
        };
        if posi_opt.is_none() {
            if self.markets[mi].total_participants.checked_add(1).is_none() {
                return Err(ContractError::ArithmeticOverflow);
            }
        }
        let Some(new_spent) = self.players[pi].total_spent.checked_add(amount) else {
            return Err(ContractError::ArithmeticOverflow);
        };
        let Some(new_participated) = self.players[pi].markets_participated.checked_add(1) else {
            return Err(ContractError::ArithmeticOverflow);
        };
        let (new_level, rem_xp) = match Self::add_experience(
            self.players[pi].level,
            self.players[pi].experience_points,
            10,
        ) {
            Ok(lr) => lr,
            Err(e) => {
                return Err(e);
            },
        };
        let leveled = new_level > self.players[pi].level;
        let created = Self::count_created_by(&self.markets, player_id);
        let (award_ids, award_tok_wide, award_xp_wide) = if leveled {
            Self::collect_awards(
                &self.achievements,
                &self.players[pi].achievements_earned,
                self.players[pi].markets_won,
                self.players[pi].win_streak,
                self.players[pi].total_profit,
                new_participated,
                created,
                self.players[pi].guild_id.is_some(),
                new_level,
            )
        } else {
            (Vec::new(), 0, 0)
        };
        let balance_less = self.players[pi].token_balance - amount;
        if award_tok_wide > ((u64::MAX - balance_less - extra) as u128) {
            return Err(ContractError::ArithmeticOverflow);
        }
        let award_tok = award_tok_wide as u64;
        if award_tok_wide > ((u64::MAX - extra) as u128) || self.players[pi].total_earned > u64::MAX
            - extra - award_tok {
            return Err(ContractError::ArithmeticOverflow);
        }
        if award_xp_wide > (u64::MAX as u128) || rem_xp > u64::MAX - (award_xp_wide as u64) {
            return Err(ContractError::ArithmeticOverflow);
        }
        let award_xp = award_xp_wide as u64;
        if self.total_supply > u64::MAX - award_tok {
            return Err(ContractError::ArithmeticOverflow);
        }
        if ci != pi {
            if self.players[ci].total_earned > u64::MAX - creator_share {
                return Err(ContractError::ArithmeticOverflow);
            }
        }
        proof {
            lemma_sum_balances_bound(self.players@, pi as int);
            lemma_sum_liquidity_bound(self.markets@, mi as int);
            lemma_sum_pools_nonneg(self.guilds@);
            if ci != pi {
                lemma_sum_balances_pair_bound(self.players@, pi as int, ci as int);
            }
        }
        let new_liquidity = self.markets[mi].total_liquidity + net;
        let new_price = match crate::pricing::price_per_share_fp(
            self.markets[mi].base_price,
            new_total_shares,
            new_liquidity,
            self.markets[mi].smoothing_half_steps,
        ) {
            Ok(p2) => p2,
            Err(e) => {
                return Err(e);
            },
        };
        // Validation complete; apply the whole transition.
        let ghost pre = *self;
        let mut market = self.markets.remove(mi);
        let mut outcome = market.outcomes.remove(outcome_id);
        outcome.total_shares = new_total_shares;
        outcome.current_price = new_price;
        let ghost new_outcome = outcome;
        market.outcomes.insert(outcome_id, outcome);
        proof {
            assert(market.outcomes@ =~= m0.outcomes@.update(outcome_id as int, new_outcome));
        }
        market.total_liquidity = new_liquidity;
        match posi_opt {
            Some(qi) => {
                let mut pos = market.positions.remove(qi);
                let old_sh = pos.shares_by_outcome.remove(outcome_id);
                proof {
                    lemma_sum_shares_at_bound(m0.positions@, qi as int, outcome_id as int);
                }
                pos.shares_by_outcome.insert(outcome_id, old_sh + shares);
                pos.total_invested = new_invested;
                let ghost new_pos = pos;
                market.positions.insert(qi, pos);
                proof {
                    assert(market.positions@ =~= m0.positions@.update(qi as int, new_pos));
                    assert(new_pos.shares_by_outcome@ =~= m0.positions@[qi as int]
                        .shares_by_outcome@.update(
                        outcome_id as int,
                        (m0.positions@[qi as int].shares_by_outcome@[outcome_id as int]
                            + shares) as u64,
                    ));
                }
            },
            None => {
                let n_out = market.outcomes.len();
                let mut sbo: Vec<u64> = Vec::new();
                let mut j: usize = 0;
                while j < n_out
                    invariant
                        j <= n_out,
                        sbo@.len() == j,
                        forall|k: int|
                            0 <= k < j && k != outcome_id as int ==> sbo@[k] == 0,
                        outcome_id < n_out ==> (j > outcome_id ==> sbo@[outcome_id as int]
                            == shares),
                    decreases n_out - j,
                {
                    if j == outcome_id {
                        sbo.push(shares);
                    } else {
                        sbo.push(0);
                    }
                    j = j + 1;
                }
                let pos = PlayerPosition {
                    player: player_id,
                    shares_by_outcome: sbo,
                    total_invested: new_invested,
                    entry_time: current_time,
                };
                market.positions.push(pos);
                market.total_participants = market.total_participants + 1;
            },
        }
        proof {
            lemma_find_position_idx(m0.positions@, player_id);
        }
        let ghost new_market = market;
        self.markets.insert(mi, market);
        proof {
            assert(self.markets@ =~= pre.markets@.update(mi as int, new_market));
            lemma_sum_liquidity_update(pre.markets@, mi as int, new_market);
        }
        let mut player = self.players.remove(pi);
        player.token_balance = balance_less + award_tok;
        player.total_spent = new_spent;
        player.total_earned = player.total_earned + award_tok;
        player.markets_participated = new_participated;
        player.level = new_level;
        player.experience_points = rem_xp + award_xp;
        let mut ai: usize = 0;
        let ghost earned0 = player.achievements_earned@;
        let ghost player_base = player;
        while ai < award_ids.len()
            invariant
                ai <= award_ids@.len(),
                player.achievements_earned@ == earned0 + award_ids@.subrange(0, ai as int),
                player == (Player { achievements_earned: player.achievements_earned, ..player_base }),
            decreases award_ids@.len() - ai,
        {
            player.achievements_earned.push(award_ids[ai]);
            proof {
                assert(earned0 + award_ids@.subrange(0, ai as int + 1) =~= (earned0
                    + award_ids@.subrange(0, ai as int)).push(award_ids@[ai as int]));
            }
            ai = ai + 1;
        }
        proof {
            assert(award_ids@.subrange(0, award_ids@.len() as int) =~= award_ids@);
            assert(earned0 + award_ids@.subrange(0, 0) =~= earned0);
        }
        if posi_opt.is_none() {
            player.active_markets.push(market_id);
        }
        let ghost new_buyer = player;
        self.players.insert(pi, player);
        proof {
            assert(self.players@ =~= pre.players@.update(pi as int, new_buyer));
            lemma_sum_balances_update(pre.players@, pi as int, new_buyer);
        }
        let ghost mid_players = self.players@;
        proof {
            lemma_sum_liquidity_nonneg(pre.markets@);
            if ci != pi {
                assert(mid_players[ci as int] == pre.players@[ci as int]);
                assert(pre.players@[ci as int].token_balance + pre.players@[pi as int].token_balance
                    <= sum_balances(pre.players@));
                assert(sum_balances(pre.players@) + sum_pools(pre.guilds@) + sum_liquidity(
                    pre.markets@,
                ) + pre.platform_pool == pre.total_supply);
                assert(creator_share <= fee <= amount);
                assert(pre.players@[ci as int].token_balance + creator_share <= u64::MAX);
                assert(pre.players@[ci as int].total_earned + creator_share <= u64::MAX);
            } else {
                assert(mid_players[ci as int] == new_buyer);
                assert(new_buyer.token_balance == balance_less + award_tok);
                assert(balance_less + extra + award_tok <= u64::MAX);
                assert(new_buyer.total_earned == pre.players@[pi as int].total_earned + award_tok);
                assert(pre.players@[pi as int].total_earned + extra + award_tok <= u64::MAX);
            }
        }
        let mut cplayer = self.players.remove(ci);
        cplayer.token_balance = cplayer.token_balance + creator_share;
        cplayer.total_earned = cplayer.total_earned + creator_share;
        let ghost new_creator = cplayer;
        self.players.insert(ci, cplayer);
        proof {
            assert(self.players@ =~= mid_players.update(ci as int, new_creator));
            lemma_sum_balances_update(mid_players, ci as int, new_creator);
        }
        self.total_supply = self.total_supply + award_tok;
        self.platform_pool = self.platform_pool + platform_share;
        let mut ei: usize = 0;
        let ghost events0 = self.events@;
        let ghost self_base = *self;
        let ghost unlocks = Self::unlock_events(player_id, award_ids@);
        while ei < award_ids.len()
            invariant
                ei <= award_ids@.len(),
                unlocks == Self::unlock_events(player_id, award_ids@),
                self.events@ == events0 + unlocks.subrange(0, ei as int),
                *self == (PredictionMarketContract { events: self.events, ..self_base }),
            decreases award_ids@.len() - ei,
        {
            self.events.push(
                Message::AchievementUnlocked { player_id, achievement_id: award_ids[ei] },
            );
            proof {
                assert(events0 + unlocks.subrange(0, ei as int + 1) =~= (events0
                    + unlocks.subrange(0, ei as int)).push(unlocks[ei as int]));
            }
            ei = ei + 1;
        }
        proof {
            assert(unlocks.subrange(0, unlocks.len() as int) =~= unlocks);
            assert(events0 + unlocks.subrange(0, 0) =~= events0);
        }
        self.events.push(
            Message::TradeExecuted {
                player_id,
                market_id,
                outcome_id,
                shares,
                price: amount,
            },
        );
        proof {
            assert(self.events@ =~= events0 + unlocks + seq![
                Message::TradeExecuted {
                    player_id,
                    market_id,
                    outcome_id,
                    shares,
                    price: amount,
                },
            ]);
            if ci == pi {
                assert(pre.players@.update(pi as int, new_buyer).update(pi as int, new_creator)
                    =~= pre.players@.update(pi as int, new_creator));
            }
            assert(Self::buy_ok_post(pre, *self, player_id, market_id, outcome_id, amount,
            current_time));
            Self::lemma_buy_wf(pre, *self, player_id, market_id, outcome_id, amount,
            max_price_per_share, current_time);
        }
        Ok(())
    }

    /// The achievement pass a sale triggers: empty unless the seller levels
    /// up, and otherwise evaluated against the seller's statistics.
    pub open spec fn sell_award(s: Self, p: Player, player_id: PlayerId) -> (
        Seq<AchievementId>,
        int,
        int,
    ) {
        let lvxp = Self::level_up_spec(p.level as int, p.experience_points + 10);
        if lvxp.0 > p.level {
            Self::award_pass(
                s.achievements@,
                p.achievements_earned@,
                p.markets_won as int,
                p.win_streak as int,
                p.total_profit as int,
                p.markets_participated as int,
                Self::count_created(s.markets@, player_id),
                p.guild_id is Some,
                lvxp.0,
            )
        } else {
            (Seq::empty(), 0, 0)
        }
    }

    /// Outcome decided by `sell_shares`, in validation order.
    pub open spec fn sell_shares_error(
        s: Self,
        player_id: PlayerId,
        market_id: MarketId,
        outcome_id: OutcomeId,
        shares: u64,
        min_price_per_share: u64,
    ) -> Option<ContractError> {
        let mi = find_market_idx(s.markets@, market_id);
        let pi = find_player_idx(s.players@, player_id);
        if mi == -1 {
            Some(ContractError::MarketNotFound)
        } else if pi == -1 {
            Some(ContractError::PlayerNotFound)
        } else {
            let m = s.markets@[mi];
            let posi = find_position_idx(m.positions@, player_id);
            if !(m.status is Active) {
                Some(ContractError::MarketNotActive)
            } else if posi == -1 {
                Some(ContractError::NoPosition)
            } else if outcome_id >= m.outcomes@.len() {
                Some(ContractError::InvalidOutcome)
            } else if m.positions@[posi].shares_by_outcome@[outcome_id as int] < shares {
                Some(ContractError::InsufficientShares)
            } else if !Self::price_of_fits(m, outcome_id as int) {
                Some(ContractError::ArithmeticOverflow)
            } else {
                let value = Self::sell_value_spec(m, outcome_id as int, shares as int);
                let net = value - Self::trading_fee_of(value);
                if net < shares * min_price_per_share {
                    Some(ContractError::SlippageExceeded)
                } else {
                    let ci = find_player_idx(s.players@, m.creator);
                    let p = s.players@[pi];
                    let lvxp = Self::level_up_spec(p.level as int, p.experience_points + 10);
                    let award = Self::sell_award(s, p, player_id);
                    let share_c = Self::trading_creator_share(value);
                    let extra: int = if ci == pi {
                        share_c
                    } else {
                        0
                    };
                    if ci == -1 {
                        Some(ContractError::PlayerNotFound)
                    } else if p.experience_points + 10 > u64::MAX || p.token_balance + net + extra
                        + award.1 > u64::MAX || p.total_earned + extra + award.1 > u64::MAX
                        || lvxp.1 + award.2 > u64::MAX || s.total_supply + award.1 > u64::MAX || (
                    ci != pi && s.players@[ci].total_earned + share_c > u64::MAX) {
                        Some(ContractError::ArithmeticOverflow)
                    } else if !crate::pricing::price_fits(
                        m.base_price as int,
                        m.outcomes@[outcome_id as int].total_shares - shares,
                        m.total_liquidity - value,
                        m.smoothing_half_steps as nat,
                    ) {
                        Some(ContractError::ArithmeticOverflow)
                    } else {
                        None
                    }
                }
            }
        }
    }

    /// The market after a sale: shares retired from the outcome and the
    /// position, the gross sale value removed from the pool, and the outcome
    /// repriced on the post-trade state.
    pub open spec fn is_market_after_sell(
        mm: Market,
        m: Market,
        player_id: PlayerId,
        outcome_id: OutcomeId,
        shares: u64,
    ) -> bool {
        let value = Self::sell_value_spec(m, outcome_id as int, shares as int);
        let posi = find_position_idx(m.positions@, player_id);
        let o = m.outcomes@[outcome_id as int];
        let q0 = m.positions@[posi];
        let q = mm.positions@[posi];
        let post_price = crate::pricing::curve_price_fp(
            m.base_price as int,
            o.total_shares - shares,
            m.total_liquidity - value,
            m.smoothing_half_steps as nat,
        );
        &&& mm.outcomes@ == m.outcomes@.update(
            outcome_id as int,
            Outcome {
                total_shares: (o.total_shares - shares) as u64,
                current_price: post_price as u64,
                ..o
            },
        )
        &&& mm.total_liquidity == m.total_liquidity - value
        &&& mm.positions@ == m.positions@.update(posi, q)
        &&& q.player == q0.player
        &&& q.entry_time == q0.entry_time
        &&& q.total_invested == q0.total_invested
        &&& q.shares_by_outcome@ == q0.shares_by_outcome@.update(
            outcome_id as int,
            (q0.shares_by_outcome@[outcome_id as int] - shares) as u64,
        )
        &&& mm.total_participants == m.total_participants
        &&& mm.id == m.id
        &&& mm.creator == m.creator
        &&& mm.title == m.title
        &&& mm.description == m.description
        &&& mm.market_type == m.market_type
        &&& mm.creation_time == m.creation_time
        &&& mm.end_time == m.end_time
        &&& mm.resolution_time == m.resolution_time
        &&& mm.status == m.status
        &&& mm.base_price == m.base_price
        &&& mm.smoothing_half_steps == m.smoothing_half_steps
        &&& mm.winning_outcome == m.winning_outcome
        &&& mm.resolution_method == m.resolution_method
    }

    /// The state after a successful sale.
    pub open spec fn sell_ok_post(
        pre: Self,
        post: Self,
        player_id: PlayerId,
        market_id: MarketId,
        outcome_id: OutcomeId,
        shares: u64,
    ) -> bool {
        let mi = find_market_idx(pre.markets@, market_id);
        let pi = find_player_idx(pre.players@, player_id);
        let m = pre.markets@[mi];
        let p = pre.players@[pi];
        let ci = find_player_idx(pre.players@, m.creator);
        let value = Self::sell_value_spec(m, outcome_id as int, shares as int);
        let fee = Self::trading_fee_of(value);
        let share_c = Self::trading_creator_share(value);
        let net = value - fee;
        let extra: int = if ci == pi {
            share_c
        } else {
            0
        };
        let lvxp = Self::level_up_spec(p.level as int, p.experience_points + 10);
        let award = Self::sell_award(pre, p, player_id);
        &&& Self::is_market_after_sell(post.markets@[mi], m, player_id, outcome_id, shares)
        &&& post.markets@ == pre.markets@.update(mi, post.markets@[mi])
        &&& post.players@[pi].token_balance == p.token_balance + net + extra + award.1
        &&& post.players@[pi].total_earned == p.total_earned + extra + award.1
        &&& post.players@[pi].level == lvxp.0
        &&& post.players@[pi].experience_points == lvxp.1 + award.2
        &&& post.players@[pi].achievements_earned@ == p.achievements_earned@ + award.0
        &&& post.players@[pi] == (Player {
            token_balance: post.players@[pi].token_balance,
            total_earned: post.players@[pi].total_earned,
            level: post.players@[pi].level,
            experience_points: post.players@[pi].experience_points,
            achievements_earned: post.players@[pi].achievements_earned,
            ..p
        })
        &&& (if ci == pi {
            post.players@ == pre.players@.update(pi, post.players@[pi])
        } else {
            let c = pre.players@[ci];
            post.players@ == pre.players@.update(pi, post.players@[pi]).update(
                ci,
                Player {
                    token_balance: (c.token_balance + share_c) as u64,
                    total_earned: (c.total_earned + share_c) as u64,
                    ..c
                },
            )
        })
        &&& post.platform_pool == pre.platform_pool + (fee - share_c)
        &&& post.total_supply == pre.total_supply + award.1
        &&& post.events@ == pre.events@ + Self::unlock_events(player_id, award.0)
        &&& post == (PredictionMarketContract {
            markets: post.markets,
            players: post.players,
            platform_pool: post.platform_pool,
            total_supply: post.total_supply,
            events: post.events,
            ..pre
        })
    }

    /// Sell shares of an outcome back to the market: the gross value is the
    /// share count at the pre-trade price, capped at the market's pool; the
    /// seller receives it net of the trading fee, which is split between the
    /// market's creator and the platform pool, and earns trade experience
    /// (any achievements a level-up unlocks mint their rewards). The
    /// slippage bound applies per share to the realized proceeds: the sale
    /// is rejected unless `proceeds >= shares * min_price_per_share`.
    #[verifier::rlimit(100)]
    pub fn sell_shares(
        &mut self,
        player_id: PlayerId,
        market_id: MarketId,
        outcome_id: OutcomeId,
        shares: u64,
        min_price_per_share: u64,
        current_time: u64,
    ) -> (r: Result<(), ContractError>)
        requires
            old(self).wf(),
        ensures
            final(self).wf(),
            Self::sell_shares_error(
                *old(self),
                player_id,
                market_id,
                outcome_id,
                shares,
                min_price_per_share,
            ) matches Some(e) ==> r == Err::<(), ContractError>(e) && *final(self) == *old(self),
            Self::sell_shares_error(
                *old(self),
                player_id,
                market_id,
                outcome_id,
                shares,
                min_price_per_share,
            ) is None ==> r == Ok::<(), ContractError>(()) && Self::sell_ok_post(
                *old(self),
                *final(self),
                player_id,
                market_id,
                outcome_id,
                shares,
            ),
    {
        let Some(mi) = self.market_index(market_id) else {
            return Err(ContractError::MarketNotFound);
        };
        let Some(pi) = self.player_index(player_id) else {
            return Err(ContractError::PlayerNotFound);
        };
        proof {
            lemma_find_market_idx(self.markets@, market_id);
            lemma_find_player_idx(self.players@, player_id);
        }
        if !matches!(self.markets[mi].status, MarketStatus::Active) {
            return Err(ContractError::MarketNotActive);
        }
        let Some(qi) = Self::position_index(&self.markets[mi], player_id) else {
            return Err(ContractError::NoPosition);
        };
        proof {
            lemma_find_position_idx(self.markets@[mi as int].positions@, player_id);
        }
        if outcome_id >= self.markets[mi].outcomes.len() {
            return Err(ContractError::InvalidOutcome);
        }
        let owned = self.markets[mi].positions[qi].shares_by_outcome[outcome_id];
        if owned < shares {
            return Err(ContractError::InsufficientShares);
        }
        let value = match Self::calculate_sell_value(&self.markets[mi], outcome_id, shares) {
            Ok(v) => v,
            Err(e) => {
                return Err(e);
            },
        };
        let fee = value / 200;
        proof {
            vstd::arithmetic::div_mod::lemma_div_is_ordered_by_denominator(value as int, 1, 200);
            vstd::arithmetic::div_mod::lemma_div_basics(value as int);
        }
        let net = value - fee;
        let creator_share = fee / 2;
        proof {
            vstd::arithmetic::div_mod::lemma_div_is_ordered_by_denominator(fee as int, 1, 2);
            vstd::arithmetic::div_mod::lemma_div_basics(fee as int);
        }
        let platform_share = fee - creator_share;
        assert((shares as u128) * (min_price_per_share as u128) <= u128::MAX) by (nonlinear_arith)
            requires
                shares <= u64::MAX,
                min_price_per_share <= u64::MAX,
        ;
        if (net as u128) < (shares as u128) * (min_price_per_share as u128) {
            proof {
                assert((shares as u128) * (min_price_per_share as u128) == shares as int
                    * min_price_per_share as int) by (nonlinear_arith)
                    requires
                        shares <= u64::MAX,
                        min_price_per_share <= u64::MAX,
                ;
            }
            return Err(ContractError::SlippageExceeded);
        }
        proof {
            assert((shares as u128) * (min_price_per_share as u128) == shares as int
                * min_price_per_share as int) by (nonlinear_arith)
                requires
                    shares <= u64::MAX,
                    min_price_per_share <= u64::MAX,
            ;
        }
        let creator = self.markets[mi].creator;
        let Some(ci) = self.player_index(creator) else {
            return Err(ContractError::PlayerNotFound);
        };
        proof {
            lemma_find_player_idx(self.players@, creator);
        }
        let extra: u64 = if ci == pi {
            creator_share
        } else {
            0
        };
        let (new_level, rem_xp) = match Self::add_experience(
            self.players[pi].level,
            self.players[pi].experience_points,
            10,
        ) {
            Ok(lr) => lr,
            Err(e) => {
                return Err(e);
            },
        };
        let leveled = new_level > self.players[pi].level;
        let created = Self::count_created_by(&self.markets, player_id);
        let (award_ids, award_tok_wide, award_xp_wide) = if leveled {
            Self::collect_awards(
                &self.achievements,
                &self.players[pi].achievements_earned,
                self.players[pi].markets_won,
                self.players[pi].win_streak,
                self.players[pi].total_profit,
                self.players[pi].markets_participated,
                created,
                self.players[pi].guild_id.is_some(),
                new_level,
            )
        } else {
            (Vec::new(), 0, 0)
        };
        proof {
            lemma_sum_balances_bound(self.players@, pi as int);
            lemma_sum_liquidity_bound(self.markets@, mi as int);
            lemma_sum_pools_nonneg(self.guilds@);
            lemma_sum_liquidity_nonneg(self.markets@);
        }
        let seller_balance = self.players[pi].token_balance;
        if award_tok_wide > ((u64::MAX - seller_balance) as u128) || seller_balance
            + award_tok_wide as u64 > u64::MAX - net - extra {
            return Err(ContractError::ArithmeticOverflow);
        }
        let award_tok = award_tok_wide as u64;
        if award_tok > u64::MAX - extra || self.players[pi].total_earned > u64::MAX - extra
            - award_tok {
            return Err(ContractError::ArithmeticOverflow);
        }
        if award_xp_wide > (u64::MAX as u128) || rem_xp > u64::MAX - (award_xp_wide as u64) {
            return Err(ContractError::ArithmeticOverflow);
        }
        let award_xp = award_xp_wide as u64;
        if self.total_supply > u64::MAX - award_tok {
            return Err(ContractError::ArithmeticOverflow);
        }
        if ci != pi {
            if self.players[ci].total_earned > u64::MAX - creator_share {
                return Err(ContractError::ArithmeticOverflow);
            }
        }
        proof {
            lemma_sum_shares_at_bound(
                self.markets@[mi as int].positions@,
                qi as int,
                outcome_id as int,
            );
            lemma_sum_balances_bound(self.players@, pi as int);
            lemma_sum_liquidity_bound(self.markets@, mi as int);
            lemma_sum_pools_nonneg(self.guilds@);
            lemma_sum_liquidity_nonneg(self.markets@);
            if ci != pi {
                lemma_sum_balances_pair_bound(self.players@, pi as int, ci as int);
            }
        }
        let new_total_shares = self.markets[mi].outcomes[outcome_id].total_shares - shares;
        let new_liquidity = self.markets[mi].total_liquidity - value;
        let new_price = match crate::pricing::price_per_share_fp(
            self.markets[mi].base_price,
            new_total_shares,
            new_liquidity,
            self.markets[mi].smoothing_half_steps,
        ) {
            Ok(p2) => p2,
            Err(e) => {
                return Err(e);
            },
        };
        // Validation complete; apply the whole transition.
        let ghost pre = *self;
        let ghost m0 = pre.markets@[mi as int];
        let mut market = self.markets.remove(mi);
        let mut outcome = market.outcomes.remove(outcome_id);
        outcome.total_shares = new_total_shares;
        outcome.current_price = new_price;
        let ghost new_outcome = outcome;
        market.outcomes.insert(outcome_id, outcome);
        proof {
            assert(market.outcomes@ =~= m0.outcomes@.update(outcome_id as int, new_outcome));
        }
        market.total_liquidity = new_liquidity;
        let mut pos = market.positions.remove(qi);
        let old_sh = pos.shares_by_outcome.remove(outcome_id);
        pos.shares_by_outcome.insert(outcome_id, old_sh - shares);
        let ghost new_pos = pos;
        market.positions.insert(qi, pos);
        proof {
            assert(market.positions@ =~= m0.positions@.update(qi as int, new_pos));
            assert(new_pos.shares_by_outcome@ =~= m0.positions@[qi as int].shares_by_outcome@
                .update(
                outcome_id as int,
                (m0.positions@[qi as int].shares_by_outcome@[outcome_id as int] - shares) as u64,
            ));
        }
        let ghost new_market = market;
        self.markets.insert(mi, market);
        proof {
            assert(self.markets@ =~= pre.markets@.update(mi as int, new_market));
            lemma_sum_liquidity_update(pre.markets@, mi as int, new_market);
        }
        let mut player = self.players.remove(pi);
        player.token_balance = player.token_balance + net + award_tok;
        player.total_earned = player.total_earned + award_tok;
        player.level = new_level;
        player.experience_points = rem_xp + award_xp;
        let mut ai: usize = 0;
        let ghost earned0 = player.achievements_earned@;
        let ghost player_base = player;
        while ai < award_ids.len()
            invariant
                ai <= award_ids@.len(),
                player.achievements_earned@ == earned0 + award_ids@.subrange(0, ai as int),
                player == (Player { achievements_earned: player.achievements_earned, ..player_base }),
            decreases award_ids@.len() - ai,
        {
            player.achievements_earned.push(award_ids[ai]);
            proof {
                assert(earned0 + award_ids@.subrange(0, ai as int + 1) =~= (earned0
                    + award_ids@.subrange(0, ai as int)).push(award_ids@[ai as int]));
            }
            ai = ai + 1;
        }
        proof {
            assert(award_ids@.subrange(0, award_ids@.len() as int) =~= award_ids@);
            assert(earned0 + award_ids@.subrange(0, 0) =~= earned0);
        }
        let ghost new_seller = player;
        self.players.insert(pi, player);
        proof {
            assert(self.players@ =~= pre.players@.update(pi as int, new_seller));
            lemma_sum_balances_update(pre.players@, pi as int, new_seller);
        }
        let ghost mid_players = self.players@;
        let mut cplayer = self.players.remove(ci);
        cplayer.token_balance = cplayer.token_balance + creator_share;
        cplayer.total_earned = cplayer.total_earned + creator_share;
        let ghost new_creator = cplayer;
        self.players.insert(ci, cplayer);
        proof {
            assert(self.players@ =~= mid_players.update(ci as int, new_creator));
            lemma_sum_balances_update(mid_players, ci as int, new_creator);
        }
        self.platform_pool = self.platform_pool + platform_share;
        self.total_supply = self.total_supply + award_tok;
        let mut ei: usize = 0;
        let ghost events0 = self.events@;
        let ghost self_base = *self;
        let ghost unlocks = Self::unlock_events(player_id, award_ids@);
        while ei < award_ids.len()
            invariant
                ei <= award_ids@.len(),
                unlocks == Self::unlock_events(player_id, award_ids@),
                self.events@ == events0 + unlocks.subrange(0, ei as int),
                *self == (PredictionMarketContract { events: self.events, ..self_base }),
            decreases award_ids@.len() - ei,
        {
            self.events.push(
                Message::AchievementUnlocked { player_id, achievement_id: award_ids[ei] },
            );
            proof {
                assert(events0 + unlocks.subrange(0, ei as int + 1) =~= (events0
                    + unlocks.subrange(0, ei as int)).push(unlocks[ei as int]));
            }
            ei = ei + 1;
        }
        proof {
            assert(unlocks.subrange(0, unlocks.len() as int) =~= unlocks);
            assert(events0 + unlocks.subrange(0, 0) =~= events0);
            assert(self.events@ =~= events0 + unlocks);
            if ci == pi {
                assert(pre.players@.update(pi as int, new_seller).update(pi as int, new_creator)
                    =~= pre.players@.update(pi as int, new_creator));
            }
            assert(Self::sell_ok_post(pre, *self, player_id, market_id, outcome_id, shares));
            Self::lemma_sell_wf(pre, *self, player_id, market_id, outcome_id, shares,
            min_price_per_share);
        }
        Ok(())
    }

    /// A successful sale preserves well-formedness, token conservation
    /// included.
    #[verifier::rlimit(100)]
    proof fn lemma_sell_wf(
        pre: Self,
        post: Self,
        player_id: PlayerId,
        market_id: MarketId,
        outcome_id: OutcomeId,
        shares: u64,
        min_price_per_share: u64,
    )
        requires
            pre.wf(),
            Self::sell_shares_error(
                pre,
                player_id,
                market_id,
                outcome_id,
                shares,
                min_price_per_share,
            ) is None,
            Self::sell_ok_post(pre, post, player_id, market_id, outcome_id, shares),
        ensures
            post.wf(),
    {
        let mi = find_market_idx(pre.markets@, market_id);
        let pi = find_player_idx(pre.players@, player_id);
        lemma_find_market_idx(pre.markets@, market_id);
        lemma_find_player_idx(pre.players@, player_id);
        let m = pre.markets@[mi];
        let p = pre.players@[pi];
        let ci = find_player_idx(pre.players@, m.creator);
        lemma_find_player_idx(pre.players@, m.creator);
        let mm = post.markets@[mi];
        let posi = find_position_idx(m.positions@, player_id);
        lemma_find_position_idx(m.positions@, player_id);
        let value = Self::sell_value_spec(m, outcome_id as int, shares as int);
        let fee = Self::trading_fee_of(value);
        let share_c = Self::trading_creator_share(value);
        let award = Self::sell_award(pre, pre.players@[pi], player_id);
        Self::lemma_level_up_bounds(
            pre.players@[pi].level as int,
            pre.players@[pi].experience_points + 10,
        );
        lemma_sum_balances_bound(pre.players@, pi);
        lemma_sum_pools_nonneg(pre.guilds@);
        lemma_sum_liquidity_nonneg(pre.markets@);
        lemma_sum_liquidity_bound(pre.markets@, mi);
        lemma_sum_shares_at_bound(m.positions@, posi, outcome_id as int);
        if ci != pi {
            lemma_sum_balances_pair_bound(pre.players@, pi, ci);
        }
        let price = Self::price_of(m, outcome_id as int);
        assert(price >= m.base_price * PRICE_SCALE);
        assert(shares as int * price >= 0) by (nonlinear_arith)
            requires
                shares >= 0,
                price >= 0,
        ;
        vstd::arithmetic::div_mod::lemma_div_pos_is_pos(shares as int * price, PRICE_SCALE as int);
        assert(value >= 0);
        assert(value <= m.total_liquidity);
        vstd::arithmetic::div_mod::lemma_div_is_ordered_by_denominator(value, 1, 200);
        vstd::arithmetic::div_mod::lemma_div_basics(value);
        vstd::arithmetic::div_mod::lemma_div_pos_is_pos(value, 200);
        vstd::arithmetic::div_mod::lemma_div_is_ordered_by_denominator(fee, 1, 2);
        vstd::arithmetic::div_mod::lemma_div_basics(fee);
        vstd::arithmetic::div_mod::lemma_div_pos_is_pos(fee, 2);
        assert(0 <= share_c <= fee <= value);
        assert(mm.outcomes@[outcome_id as int].current_price >= mm.base_price * PRICE_SCALE);
        assert forall|o: int|
            0 <= o < mm.outcomes@.len() implies sum_shares_at(mm.positions@, o) == (
        #[trigger] mm.outcomes@[o]).total_shares as int by {
            lemma_sum_shares_at_update(m.positions@, posi, mm.positions@[posi], o);
        }
        assert(wf_market(mm));
        lemma_find_market_idx_update(pre.markets@, mi, mm);
        assert forall|k: int|
            0 <= k < post.oracle_votes.len() implies {
            let omi = find_market_idx(post.markets@, (#[trigger] post.oracle_votes[k]).market_id);
            &&& omi >= 0
            &&& post.oracle_votes[k].votes.len() == post.markets@[omi].outcomes.len()
        } by {
            let vid = post.oracle_votes@[k].market_id;
            lemma_find_market_idx(pre.markets@, vid);
        }
        lemma_sum_liquidity_update(pre.markets@, mi, mm);
        if ci == pi {
            lemma_sum_balances_update(pre.players@, pi, post.players@[pi]);
        } else {
            let mid = pre.players@.update(pi, post.players@[pi]);
            let c = pre.players@[ci];
            let c2 = Player {
                token_balance: (c.token_balance + share_c) as u64,
                total_earned: (c.total_earned + share_c) as u64,
                ..c
            };
            lemma_sum_balances_update(pre.players@, pi, post.players@[pi]);
            lemma_sum_balances_update(mid, ci, c2);
        }
        assert(post.conserves_tokens());
        assert(post.wf());
    }

    /// Level-ups never lower the level, and leave a non-negative remainder
    /// no larger than the experience supplied.
    pub proof fn lemma_level_up_bounds(level: int, xp: int)
        requires
            level >= 1,
            xp >= 0,
        ensures
            Self::level_up_spec(level, xp).0 >= level,
            0 <= Self::level_up_spec(level, xp).1 <= xp,
        decreases xp,
    {
        if xp >= level * 100 {
            Self::lemma_level_up_bounds(level + 1, xp - level * 100);
        }
    }

    /// A successful purchase preserves well-formedness, token conservation
    /// included.
    #[verifier::rlimit(100)]
    proof fn lemma_buy_wf(
        pre: Self,
        post: Self,
        player_id: PlayerId,
        market_id: MarketId,
        outcome_id: OutcomeId,
        amount: u64,
        max_price_per_share: u64,
        current_time: u64,
    )
        requires
            pre.wf(),
            Self::buy_shares_error(
                pre,
                player_id,
                market_id,
                outcome_id,
                amount,
                max_price_per_share,
                current_time,
            ) is None,
            Self::buy_ok_post(pre, post, player_id, market_id, outcome_id, amount, current_time),
        ensures
            post.wf(),
    {
        let mi = find_market_idx(pre.markets@, market_id);
        let pi = find_player_idx(pre.players@, player_id);
        lemma_find_market_idx(pre.markets@, market_id);
        lemma_find_player_idx(pre.players@, player_id);
        let m = pre.markets@[mi];
        let p = pre.players@[pi];
        let ci = find_player_idx(pre.players@, m.creator);
        lemma_find_player_idx(pre.players@, m.creator);
        let mm = post.markets@[mi];
        let b = post.players@[pi];
        let posi = find_position_idx(m.positions@, player_id);
        lemma_find_position_idx(m.positions@, player_id);
        let fee = Self::trading_fee_of(amount as int);
        let shares = Self::shares_for_amount_spec(m, outcome_id as int, amount - fee);
        let share_c = Self::trading_creator_share(amount as int);
        let award = Self::buy_award(pre, m, p, player_id);
        Self::lemma_level_up_bounds(p.level as int, p.experience_points + 10);
        lemma_sum_balances_bound(pre.players@, pi);
        lemma_sum_pools_nonneg(pre.guilds@);
        lemma_sum_liquidity_nonneg(pre.markets@);
        vstd::arithmetic::div_mod::lemma_div_is_ordered_by_denominator(amount as int, 1, 200);
        vstd::arithmetic::div_mod::lemma_div_basics(amount as int);
        vstd::arithmetic::div_mod::lemma_div_is_ordered_by_denominator(fee, 1, 2);
        vstd::arithmetic::div_mod::lemma_div_basics(fee);
        if ci != pi {
            lemma_sum_balances_pair_bound(pre.players@, pi, ci);
        }
        if posi >= 0 {
            lemma_sum_shares_at_bound(m.positions@, posi, outcome_id as int);
        }
        // The repriced outcome stays at or above the base-price floor.
        assert(mm.outcomes@[outcome_id as int].current_price >= mm.base_price * PRICE_SCALE);
        // Share accounting per outcome.
        assert forall|o: int|
            0 <= o < mm.outcomes@.len() implies sum_shares_at(mm.positions@, o) == (
        #[trigger] mm.outcomes@[o]).total_shares as int by {
            if posi >= 0 {
                lemma_sum_shares_at_update(m.positions@, posi, mm.positions@[posi], o);
            } else {
                lemma_sum_shares_at_push(m.positions@, mm.positions@.last(), o);
            }
        }
        assert(wf_market(mm));
        // Lookup of any market is unchanged: the id at `mi` is preserved.
        lemma_find_market_idx_update(pre.markets@, mi, mm);
        assert forall|k: int|
            0 <= k < post.oracle_votes.len() implies {
            let omi = find_market_idx(post.markets@, (#[trigger] post.oracle_votes[k]).market_id);
            &&& omi >= 0
            &&& post.oracle_votes[k].votes.len() == post.markets@[omi].outcomes.len()
        } by {
            let vid = post.oracle_votes@[k].market_id;
            lemma_find_market_idx(pre.markets@, vid);
        }
        // Conservation.
        lemma_sum_liquidity_update(pre.markets@, mi, mm);
        if ci == pi {
            lemma_sum_balances_update(pre.players@, pi, b);
        } else {
            let mid = pre.players@.update(pi, b);
            let c = pre.players@[ci];
            let c2 = Player {
                token_balance: (c.token_balance + share_c) as u64,
                total_earned: (c.total_earned + share_c) as u64,
                ..c
            };
            lemma_sum_balances_update(pre.players@, pi, b);
            lemma_sum_balances_update(mid, ci, c2);
        }
        assert(post.conserves_tokens());
        assert(post.wf());
    }

    // -----------------------------------------------------------------------
    // Guild operations
    // -----------------------------------------------------------------------

    /// Outcome decided by `create_guild`.
    pub open spec fn create_guild_error(s: Self, founder: PlayerId) -> Option<ContractError> {
        let i = find_player_idx(s.players@, founder);
        if i == -1 {
            Some(ContractError::PlayerNotFound)
        } else if s.players@[i].guild_id is Some {
            Some(ContractError::AlreadyInGuild)
        } else if s.next_guild_id + 1 > u64::MAX {
            Some(ContractError::ArithmeticOverflow)
        } else {
            None
        }
    }

    /// Found a guild: the founder becomes its only member, with an empty
    /// shared pool.
    pub fn create_guild(&mut self, founder: PlayerId, name: String, current_time: u64) -> (r:
        Result<(), ContractError>)
        requires
            old(self).wf(),
        ensures
            final(self).wf(),
            Self::create_guild_error(*old(self), founder) matches Some(e) ==> r == Err::<
                (),
                ContractError,
            >(e) && *final(self) == *old(self),
            Self::create_guild_error(*old(self), founder) is None ==> {
                &&& r == Ok::<(), ContractError>(())
                &&& Self::create_guild_ok_post(*old(self), *final(self), founder, name, current_time)
            },
    {
        let Some(i) = self.player_index(founder) else {
            return Err(ContractError::PlayerNotFound);
        };
        proof {
            lemma_find_player_idx(self.players@, founder);
        }
        if self.players[i].guild_id.is_some() {
            return Err(ContractError::AlreadyInGuild);
        }
        let Some(next_id) = self.next_guild_id.checked_add(1) else {
            return Err(ContractError::ArithmeticOverflow);
        };
        let ghost pre = *self;
        let guild_id = self.next_guild_id;
        let mut members: Vec<PlayerId> = Vec::new();
        members.push(founder);
        let guild = Guild {
            id: guild_id,
            name: name.clone(),
            founder,
            members,
            creation_time: current_time,
            total_guild_profit: 0,
            guild_level: 1,
            shared_pool: 0,
        };
        proof {
            lemma_sum_pools_push(self.guilds@, guild);
        }
        self.guilds.push(guild);
        self.next_guild_id = next_id;
        let mut player = self.players.remove(i);
        player.guild_id = Some(guild_id);
        self.players.insert(i, player);
        self.events.push(Message::GuildCreated { guild_id, name });
        proof {
            assert(self.players@ =~= pre.players@.update(i as int, self.players@[i as int]));
            lemma_sum_balances_update(pre.players@, i as int, self.players@[i as int]);
        }
        Ok(())
    }

    /// Outcome decided by `join_guild`.
    pub open spec fn join_guild_error(s: Self, player_id: PlayerId, guild_id: GuildId) -> Option<
        ContractError,
    > {
        let i = find_player_idx(s.players@, player_id);
        if i == -1 {
            Some(ContractError::PlayerNotFound)
        } else if s.players@[i].guild_id is Some {
            Some(ContractError::AlreadyInGuild)
        } else if find_guild_idx(s.guilds@, guild_id) == -1 {
            Some(ContractError::GuildNotFound)
        } else {
            None
        }
    }

    /// Join an existing guild: the caller is appended to its member list.
    pub fn join_guild(&mut self, player_id: PlayerId, guild_id: GuildId) -> (r: Result<
        (),
        ContractError,
    >)
        requires
            old(self).wf(),
        ensures
            final(self).wf(),
            Self::join_guild_error(*old(self), player_id, guild_id) matches Some(e) ==> r == Err::<
                (),
                ContractError,
            >(e) && *final(self) == *old(self),
            Self::join_guild_error(*old(self), player_id, guild_id) is None ==> {
                &&& r == Ok::<(), ContractError>(())
                &&& Self::join_guild_ok_post(*old(self), *final(self), player_id, guild_id)
            },
    {
        let Some(i) = self.player_index(player_id) else {
            return Err(ContractError::PlayerNotFound);
        };
        proof {
            lemma_find_player_idx(self.players@, player_id);
        }
        if self.players[i].guild_id.is_some() {
            return Err(ContractError::AlreadyInGuild);
        }
        let Some(gi) = self.guild_index(guild_id) else {
            return Err(ContractError::GuildNotFound);
        };
        proof {
            lemma_find_guild_idx(self.guilds@, guild_id);
        }
        let ghost pre = *self;
        let mut guild = self.guilds.remove(gi);
        guild.members.push(player_id);
        self.guilds.insert(gi, guild);
        let mut player = self.players.remove(i);
        player.guild_id = Some(guild_id);
        self.players.insert(i, player);
        proof {
            assert(self.guilds@ =~= pre.guilds@.update(gi as int, self.guilds@[gi as int]));
            lemma_sum_pools_update(pre.guilds@, gi as int, self.guilds@[gi as int]);
            assert(self.players@ =~= pre.players@.update(i as int, self.players@[i as int]));
            lemma_sum_balances_update(pre.players@, i as int, self.players@[i as int]);
        }
        Ok(())
    }

    /// Outcome decided by `leave_guild`.
    pub open spec fn leave_guild_error(s: Self, player_id: PlayerId) -> Option<ContractError> {
        let i = find_player_idx(s.players@, player_id);
        if i == -1 {
            Some(ContractError::PlayerNotFound)
        } else if s.players@[i].guild_id is None {
            Some(ContractError::NotGuildMember)
        } else if find_guild_idx(s.guilds@, s.players@[i].guild_id.unwrap()) == -1 {
            Some(ContractError::GuildNotFound)
        } else {
            None
        }
    }

    /// Leave the current guild: every occurrence of the caller disappears
    /// from the member list; the guild keeps its shared pool.
    pub fn leave_guild(&mut self, player_id: PlayerId) -> (r: Result<(), ContractError>)
        requires
            old(self).wf(),
        ensures
            final(self).wf(),
            Self::leave_guild_error(*old(self), player_id) matches Some(e) ==> r == Err::<
                (),
                ContractError,
            >(e) && *final(self) == *old(self),
            Self::leave_guild_error(*old(self), player_id) is None ==> {
                &&& r == Ok::<(), ContractError>(())
                &&& Self::leave_guild_ok_post(*old(self), *final(self), player_id)
            },
    {
        let Some(i) = self.player_index(player_id) else {
            return Err(ContractError::PlayerNotFound);
        };
        proof {
            lemma_find_player_idx(self.players@, player_id);
        }
        let Some(guild_id) = self.players[i].guild_id else {
            return Err(ContractError::NotGuildMember);
        };
        let Some(gi) = self.guild_index(guild_id) else {
            return Err(ContractError::GuildNotFound);
        };
        proof {
            lemma_find_guild_idx(self.guilds@, guild_id);
        }
        let ghost pre = *self;
        let mut guild = self.guilds.remove(gi);
        let ghost old_members = guild.members@;
        let mut kept: Vec<PlayerId> = Vec::new();
        let mut k: usize = 0;
        proof {
            reveal(Seq::filter);
        }
        while k < guild.members.len()
            invariant
                k <= guild.members@.len(),
                guild.members@ == old_members,
                kept@ == Self::without_member(old_members.subrange(0, k as int), player_id),
            decreases guild.members@.len() - k,
        {
            proof {
                reveal(Seq::filter);
                assert(old_members.subrange(0, k as int + 1).drop_last() =~= old_members.subrange(
                    0,
                    k as int,
                ));
                assert(old_members.subrange(0, k as int + 1).last() == old_members[k as int]);
            }
            let m = guild.members[k];
            if m != player_id {
                kept.push(m);
            }
            k = k + 1;
        }
        proof {
            assert(old_members.subrange(0, old_members.len() as int) =~= old_members);
        }
        guild.members = kept;
        self.guilds.insert(gi, guild);
        let mut player = self.players.remove(i);
        player.guild_id = None;
        self.players.insert(i, player);
        proof {
            assert(self.guilds@ =~= pre.guilds@.update(gi as int, self.guilds@[gi as int]));
            lemma_sum_pools_update(pre.guilds@, gi as int, self.guilds@[gi as int]);
            assert(self.players@ =~= pre.players@.update(i as int, self.players@[i as int]));
            lemma_sum_balances_update(pre.players@, i as int, self.players@[i as int]);
        }
        Ok(())
    }

    /// Outcome decided by `contribute_to_guild`.
    pub open spec fn contribute_error(s: Self, player_id: PlayerId, amount: u64) -> Option<
        ContractError,
    > {
        let i = find_player_idx(s.players@, player_id);
        if i == -1 {
            Some(ContractError::PlayerNotFound)
        } else if s.players@[i].guild_id is None {
            Some(ContractError::NotGuildMember)
        } else if s.players@[i].token_balance < amount {
            Some(ContractError::InsufficientBalance)
        } else if find_guild_idx(s.guilds@, s.players@[i].guild_id.unwrap()) == -1 {
            Some(ContractError::GuildNotFound)
        } else {
            None
        }
    }

    /// Move tokens from the caller's balance into the guild's shared pool; a
    /// pure transfer, so the total supply is untouched.
    pub fn contribute_to_guild(&mut self, player_id: PlayerId, amount: u64) -> (r: Result<
        (),
        ContractError,
    >)
        requires
            old(self).wf(),
        ensures
            final(self).wf(),
            Self::contribute_error(*old(self), player_id, amount) matches Some(e) ==> r == Err::<
                (),
                ContractError,
            >(e) && *final(self) == *old(self),
            Self::contribute_error(*old(self), player_id, amount) is None ==> {
                &&& r == Ok::<(), ContractError>(())
                &&& Self::contribute_ok_post(*old(self), *final(self), player_id, amount)
            },
    {
        let Some(i) = self.player_index(player_id) else {
            return Err(ContractError::PlayerNotFound);
        };
        proof {
            lemma_find_player_idx(self.players@, player_id);
        }
        let Some(guild_id) = self.players[i].guild_id else {
            return Err(ContractError::NotGuildMember);
        };
        if self.players[i].token_balance < amount {
            return Err(ContractError::InsufficientBalance);
        }
        let Some(gi) = self.guild_index(guild_id) else {
            return Err(ContractError::GuildNotFound);
        };
        proof {
            lemma_find_guild_idx(self.guilds@, guild_id);
            lemma_sum_balances_bound(self.players@, i as int);
            lemma_sum_pools_bound(self.guilds@, gi as int);
            lemma_sum_liquidity_nonneg(self.markets@);
        }
        let ghost pre = *self;
        let mut player = self.players.remove(i);
        player.token_balance = player.token_balance - amount;
        self.players.insert(i, player);
        let mut guild = self.guilds.remove(gi);
        guild.shared_pool = guild.shared_pool + amount;
        self.guilds.insert(gi, guild);
        proof {
            assert(self.players@ =~= pre.players@.update(i as int, self.players@[i as int]));
            lemma_sum_balances_update(pre.players@, i as int, self.players@[i as int]);
            assert(self.guilds@ =~= pre.guilds@.update(gi as int, self.guilds@[gi as int]));
            lemma_sum_pools_update(pre.guilds@, gi as int, self.guilds@[gi as int]);
        }
        Ok(())
    }

    /// Outcome decided by `update_game_config`.
    pub open spec fn update_config_error(s: Self, caller: PlayerId) -> Option<ContractError> {
        if !(s.config.admin matches Some(a) && a == caller) {
            Some(ContractError::NotAdmin)
        } else {
            None
        }
    }

    /// Replace the game configuration; only the configured admin may do so.
    pub fn update_game_config(&mut self, caller: PlayerId, config: GameConfig) -> (r: Result<
        (),
        ContractError,
    >)
        requires
            old(self).wf(),
        ensures
            final(self).wf(),
            Self::update_config_error(*old(self), caller) matches Some(e) ==> r == Err::<
                (),
                ContractError,
            >(e) && *final(self) == *old(self),
            Self::update_config_error(*old(self), caller) is None ==> {
                &&& r == Ok::<(), ContractError>(())
                &&& Self::update_config_ok_post(*old(self), *final(self), caller, config)
            },
    {
        match self.config.admin {
            Some(admin) => {
                if caller != admin {
                    return Err(ContractError::NotAdmin);
                }
            },
            None => {
                return Err(ContractError::NotAdmin);
            },
        }
        self.config = config;
        Ok(())
    }

    // -----------------------------------------------------------------------
    // Market creation
    // -----------------------------------------------------------------------

    /// Creator rebate on a creation fee: two percent, rounded down.
    pub open spec fn creator_rebate_of(cost: int) -> int {
        cost * 2 / 100
    }

    /// Platform share of a creation fee: one percent, rounded down.
    pub open spec fn platform_fee_of(cost: int) -> int {
        cost / 100
    }

    /// Outcome decided by `create_market`.
    pub open spec fn create_market_error(
        s: Self,
        creator: PlayerId,
        outcome_count: int,
        duration_seconds: u64,
        current_time: u64,
    ) -> Option<ContractError> {
        let i = find_player_idx(s.players@, creator);
        let cost = s.config.market_creation_cost;
        if i == -1 {
            Some(ContractError::PlayerNotFound)
        } else if outcome_count < 2 || outcome_count > s.config.max_outcomes_per_market {
            Some(ContractError::InvalidOutcomeCount)
        } else if duration_seconds == 0 || duration_seconds
            < s.config.min_market_duration_seconds {
            Some(ContractError::DurationTooShort)
        } else if s.players@[i].token_balance < cost {
            Some(ContractError::InsufficientBalance)
        } else if current_time + duration_seconds * 1_000_000 > u64::MAX || s.players@[i].total_spent
            + cost > u64::MAX || s.players@[i].total_earned + Self::creator_rebate_of(cost as int)
            > u64::MAX || s.next_market_id + 1 > u64::MAX {
            Some(ContractError::ArithmeticOverflow)
        } else {
            None
        }
    }

    /// The record of a market newly created from these arguments.
    pub open spec fn is_new_market(
        m: Market,
        id: MarketId,
        creator: PlayerId,
        title: String,
        description: String,
        market_type: MarketType,
        outcome_names: Seq<String>,
        duration_seconds: u64,
        resolution_method: ResolutionMethod,
        current_time: u64,
    ) -> bool {
        &&& m.id == id
        &&& m.creator == creator
        &&& m.title == title
        &&& m.description == description
        &&& m.market_type == market_type
        &&& m.outcomes@.len() == outcome_names.len()
        &&& forall|j: int|
            0 <= j < m.outcomes@.len() ==> {
                let o = #[trigger] m.outcomes@[j];
                &&& o.id == j
                &&& o.name == outcome_names[j]
                &&& o.total_shares == 0
                &&& o.current_price == BASE_PRICE * PRICE_SCALE
            }
        &&& m.creation_time == current_time
        &&& m.end_time == current_time + duration_seconds * 1_000_000
        &&& m.resolution_time is None
        &&& m.status is Active
        &&& m.total_liquidity == 0
        &&& m.positions@.len() == 0
        &&& m.total_participants == 0
        &&& m.base_price == BASE_PRICE
        &&& m.smoothing_half_steps == SMOOTHING_HALF_STEPS
        &&& m.winning_outcome is None
        &&& m.resolution_method == resolution_method
    }

    /// Create a market: validates outcome count, duration and balance before
    /// any mutation; on success debits the creation cost from the creator,
    /// returns a two-percent rebate, credits one percent to the platform
    /// pool, burns the rest from the total supply, appends the market with
    /// its outcomes seeded at the base price, records the creation event, and
    /// refreshes the leaderboard.
    pub fn create_market(
        &mut self,
        creator: PlayerId,
        title: String,
        description: String,
        market_type: MarketType,
        outcome_names: Vec<String>,
        duration_seconds: u64,
        resolution_method: ResolutionMethod,
        current_time: u64,
    ) -> (r: Result<(), ContractError>)
        requires
            old(self).wf(),
        ensures
            final(self).wf(),
            Self::create_market_error(
                *old(self),
                creator,
                outcome_names@.len() as int,
                duration_seconds,
                current_time,
            ) matches Some(e) ==> r == Err::<(), ContractError>(e) && *final(self) == *old(self),
            Self::create_market_error(
                *old(self),
                creator,
                outcome_names@.len() as int,
                duration_seconds,
                current_time,
            ) is None ==> {
                &&& r == Ok::<(), ContractError>(())
                &&& Self::create_market_ok_post(*old(self), *final(self), creator, title, description, market_type, outcome_names@, duration_seconds, resolution_method, current_time)
            },
    {
        let Some(i) = self.player_index(creator) else {
            return Err(ContractError::PlayerNotFound);
        };
        proof {
            lemma_find_player_idx(self.players@, creator);
        }
        let n_outcomes = outcome_names.len();
        if n_outcomes < 2 || n_outcomes > self.config.max_outcomes_per_market {
            return Err(ContractError::InvalidOutcomeCount);
        }
        if duration_seconds == 0 || duration_seconds < self.config.min_market_duration_seconds {
            return Err(ContractError::DurationTooShort);
        }
        let cost = self.config.market_creation_cost;
        if self.players[i].token_balance < cost {
            return Err(ContractError::InsufficientBalance);
        }
        let end_wide = (current_time as u128) + (duration_seconds as u128) * 1_000_000;
        if end_wide > u64::MAX as u128 {
            return Err(ContractError::ArithmeticOverflow);
        }
        let end_time = end_wide as u64;
        let rebate_wide = (cost as u128) * 2 / 100;
        assert(rebate_wide <= cost) by (nonlinear_arith)
            requires
                rebate_wide == (cost as u128) * 2 / 100,
        ;
        let rebate = rebate_wide as u64;
        let platform_fee_wide = (cost as u128) / 100;
        assert(platform_fee_wide <= cost) by (nonlinear_arith)
            requires
                platform_fee_wide == (cost as u128) / 100,
        ;
        let platform_fee = platform_fee_wide as u64;
        assert(rebate + platform_fee <= cost) by (nonlinear_arith)
            requires
                rebate == (cost as u128) * 2 / 100,
                platform_fee == (cost as u128) / 100,
                cost >= 0,
        ;
        let Some(new_spent) = self.players[i].total_spent.checked_add(cost) else {
            return Err(ContractError::ArithmeticOverflow);
        };
        let Some(new_earned) = self.players[i].total_earned.checked_add(rebate) else {
            return Err(ContractError::ArithmeticOverflow);
        };
        let Some(next_id) = self.next_market_id.checked_add(1) else {
            return Err(ContractError::ArithmeticOverflow);
        };
        // All validation done; mutate.
        let ghost pre = *self;
        let market_id = self.next_market_id;
        let total = outcome_names.len();
        let ghost pre_names = outcome_names@;
        let mut names = outcome_names;
        let mut outcomes: Vec<Outcome> = Vec::new();
        while outcomes.len() < total
            invariant
                outcomes@.len() + names@.len() == total,
                forall|k: int|
                    0 <= k < names@.len() ==> names@[k] == pre_names[outcomes@.len() + k],
                forall|k: int|
                    0 <= k < outcomes@.len() ==> {
                        let o = #[trigger] outcomes@[k];
                        &&& o.id == k
                        &&& o.name == pre_names[k]
                        &&& o.total_shares == 0
                        &&& o.current_price == BASE_PRICE * PRICE_SCALE
                    },
            decreases names@.len(),
    {
            let name = names.remove(0);
            let oid = outcomes.len();
            outcomes.push(
                Outcome { id: oid, name, total_shares: 0, current_price: BASE_PRICE * PRICE_SCALE },
            );
        }
        let market = Market {
            id: market_id,
            creator,
            title,
            description,
            market_type,
            outcomes,
            creation_time: current_time,
            end_time,
            resolution_time: None,
            status: MarketStatus::Active,
            total_liquidity: 0,
            positions: Vec::new(),
            total_participants: 0,
            base_price: BASE_PRICE,
            smoothing_half_steps: SMOOTHING_HALF_STEPS,
            winning_outcome: None,
            resolution_method,
        };
        proof {
            lemma_sum_liquidity_push(self.markets@, market);
        }
        self.markets.push(market);
        self.next_market_id = next_id;
        proof {
            lemma_sum_balances_bound(pre.players@, i as int);
            lemma_sum_pools_nonneg(pre.guilds@);
            lemma_sum_liquidity_nonneg(pre.markets@);
        }
        let mut player = self.players.remove(i);
        player.token_balance = player.token_balance - cost + rebate;
        player.total_spent = new_spent;
        player.total_earned = new_earned;
        self.players.insert(i, player);
        proof {
            assert(self.players@ =~= pre.players@.update(i as int, self.players@[i as int]));
            lemma_sum_balances_update(pre.players@, i as int, self.players@[i as int]);
        }
        let burn = cost - rebate - platform_fee;
        self.total_supply = self.total_supply - burn;
        self.platform_pool = self.platform_pool + platform_fee;
        self.events.push(Message::MarketCreated { market_id, creator });
        self.update_enhanced_leaderboard(current_time);
        proof {
            assert forall|k: int|
                0 <= k < self.oracle_votes.len() implies {
                let mi = find_market_idx(self.markets@, (#[trigger] self.oracle_votes[k]).market_id);
                &&& mi >= 0
                &&& self.oracle_votes[k].votes.len() == self.markets@[mi].outcomes.len()
            } by {
                let vid = self.oracle_votes@[k].market_id;
                lemma_find_market_idx(pre.markets@, vid);
                lemma_find_market_idx_push(pre.markets@, self.markets@.last(), vid);
            }
        }
        Ok(())
    }
}

/// Microseconds in one day, the cooldown of the daily reward.
pub const ONE_DAY_MICROS: u64 = 86_400_000_000;

/// Base price of every outcome share, in whole tokens.
pub const BASE_PRICE: u64 = 1;

/// Curve exponent in half-steps: three halves, an exponent of one and a half.
pub const SMOOTHING_HALF_STEPS: u64 = 3;

} // verus!
