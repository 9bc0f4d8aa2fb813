//! A deterministic prediction-market state machine.
//!
//! Players stake tokens on discrete outcomes of user-created markets; prices
//! move along an automated-market-maker curve evaluated in fixed-point integer
//! arithmetic; markets settle through oracle voting, an automated rule, or an
//! explicit creator decision; and settlement pays each winning position at most
//! once while preserving a global token-conservation invariant.
//!
//! Every state transition is a pure function of the current state, the
//! operation, the authenticated caller, and a caller-supplied timestamp, so a
//! replica re-executing the same ordered inputs reproduces the same state.

use vstd::prelude::*;

pub mod pricing;
pub mod state;
pub mod contract;
pub mod laws;

pub use contract::ContractError;
pub use contract::PredictionMarketContract;
pub use pricing::PRICE_SCALE;
pub use state::AchievementId;
pub use state::GameConfig;
pub use state::Guild;
pub use state::GuildId;
pub use state::Leaderboard;
pub use state::Market;
pub use state::MarketId;
pub use state::MarketStatus;
pub use state::MarketType;
pub use state::Message;
pub use state::Outcome;
pub use state::OutcomeId;
pub use state::Player;
pub use state::PlayerId;
pub use state::PlayerPosition;
pub use state::ResolutionMethod;

verus! {

/// Marker type naming the application's operation surface: the operations of
/// [`Operation`] applied through [`PredictionMarketContract::execute_operation`].
pub struct PredictiveManagerAbi;

/// One inbound request, applied together with the authenticated caller
/// identity and the host-supplied current time.
pub enum Operation {
    RegisterPlayer { display_name: Option<String> },
    UpdateProfile { display_name: Option<String> },
    ClaimDailyReward,
    CreateMarket {
        title: String,
        description: String,
        outcome_names: Vec<String>,
        duration_seconds: u64,
        resolution_method: ResolutionMethod,
    },
    BuyShares {
        market_id: MarketId,
        outcome_id: OutcomeId,
        amount: u64,
        max_price_per_share: u64,
    },
    SellShares {
        market_id: MarketId,
        outcome_id: OutcomeId,
        shares: u64,
        min_price_per_share: u64,
    },
    VoteOnOutcome { market_id: MarketId, outcome_id: OutcomeId },
    TriggerResolution { market_id: MarketId },
    ClaimWinnings { market_id: MarketId },
    CreateGuild { name: String },
    JoinGuild { guild_id: GuildId },
    LeaveGuild,
    ContributeToGuild { amount: u64 },
    UpdateGameConfig { config: GameConfig },
}

} // verus!
