//! Global laws of the state machine, stated and proved over the same spec
//! functions the operations' contracts use.

use vstd::prelude::*;

use crate::contract::ContractError;
use crate::contract::PredictionMarketContract;
use crate::pricing::PRICE_SCALE;
use crate::pricing::lemma_curve_price_floor;
use crate::pricing::lemma_curve_price_monotone;
use crate::pricing::lemma_div_cross;
use crate::pricing::lemma_scaled_div_le;
use crate::pricing::ratio_fp;
use crate::state::Market;
use crate::state::MarketId;
use crate::state::PlayerId;
use crate::state::wf_market;
use crate::state::find_market_idx;
use crate::state::find_player_idx;
use crate::state::find_position_idx;
use crate::state::lemma_find_market_idx;
use crate::state::lemma_find_market_idx_update;
use crate::state::lemma_find_position_idx;
use crate::state::lemma_find_position_idx_update;
use crate::state::sum_balances;
use crate::state::sum_liquidity;
use crate::state::sum_pools;

verus! {

/// Conservation: in every well-formed state — and every operation both
/// requires and preserves well-formedness — the total supply equals the sum
/// of all player balances, guild shared pools, market escrow pools, and the
/// platform fee pool.
pub proof fn law_conservation(s: PredictionMarketContract)
    requires
        s.wf(),
    ensures
        s.total_supply as int == sum_balances(s.players@) + sum_pools(s.guilds@) + sum_liquidity(
            s.markets@,
        ) + s.platform_pool as int,
{
}

/// Idempotent resolution: once a trigger has resolved a market, any later
/// trigger succeeds again, and by `trigger_market_resolution`'s contract a
/// trigger on a resolved market leaves the whole state — winning outcome,
/// ledger, and event log included — unchanged, so nothing is re-paid and no
/// second resolution event is emitted.
pub proof fn law_idempotent_resolution(
    pre: PredictionMarketContract,
    post: PredictionMarketContract,
    market_id: MarketId,
    t1: u64,
    t2: u64,
)
    requires
        pre.wf(),
        PredictionMarketContract::trigger_error(pre, market_id, t1) is None,
        PredictionMarketContract::trigger_ok_post(pre, post, market_id, t1),
        !(pre.markets@[find_market_idx(pre.markets@, market_id)].status is Resolved),
        !(pre.markets@[find_market_idx(pre.markets@, market_id)].resolution_method
            is CreatorDecides),
        t2 >= pre.markets@[find_market_idx(pre.markets@, market_id)].end_time,
    ensures
        post.markets@[find_market_idx(post.markets@, market_id)].status is Resolved,
        PredictionMarketContract::trigger_error(post, market_id, t2) is None,
{
    let mi = find_market_idx(pre.markets@, market_id);
    lemma_find_market_idx(pre.markets@, market_id);
    lemma_find_market_idx_update(pre.markets@, mi, post.markets@[mi]);
}

/// Single claim: a successful claim zeroes the claimant's winning shares, so
/// an immediate second claim by the same identity is decided as
/// `NoWinnings`, and by `claim_winnings`'s contract a rejected claim mutates
/// nothing.
pub proof fn law_single_claim(
    pre: PredictionMarketContract,
    post: PredictionMarketContract,
    player_id: PlayerId,
    market_id: MarketId,
)
    requires
        pre.wf(),
        PredictionMarketContract::claim_error(pre, player_id, market_id) is None,
        PredictionMarketContract::claim_ok_post(pre, post, player_id, market_id),
    ensures
        PredictionMarketContract::claim_error(post, player_id, market_id) == Some(
            ContractError::NoWinnings,
        ),
{
    let mi = find_market_idx(pre.markets@, market_id);
    lemma_find_market_idx(pre.markets@, market_id);
    let m = pre.markets@[mi];
    let mm = post.markets@[mi];
    lemma_find_market_idx_update(pre.markets@, mi, mm);
    let posi = find_position_idx(m.positions@, player_id);
    lemma_find_position_idx(m.positions@, player_id);
    lemma_find_position_idx_update(m.positions@, posi, mm.positions@[posi]);
}

/// Boundary: for a registered creator, an outcome list outside
/// `[2, max_outcomes_per_market]` is decided as `InvalidOutcomeCount`, and a
/// count inside the bounds never is; the next check in line is the duration.
pub proof fn law_outcome_count_boundary(
    s: PredictionMarketContract,
    creator: PlayerId,
    outcome_count: int,
    duration_seconds: u64,
    current_time: u64,
)
    requires
        find_player_idx(s.players@, creator) >= 0,
    ensures
        outcome_count < 2 || outcome_count > s.config.max_outcomes_per_market
            <==> PredictionMarketContract::create_market_error(
            s,
            creator,
            outcome_count,
            duration_seconds,
            current_time,
        ) == Some(ContractError::InvalidOutcomeCount),
{
}

/// Boundary: with a valid outcome count, a duration below
/// `min_market_duration_seconds` (or a zero duration) is decided as
/// `DurationTooShort`, and a duration at or above the minimum never is.
pub proof fn law_duration_boundary(
    s: PredictionMarketContract,
    creator: PlayerId,
    outcome_count: int,
    duration_seconds: u64,
    current_time: u64,
)
    requires
        find_player_idx(s.players@, creator) >= 0,
        2 <= outcome_count <= s.config.max_outcomes_per_market,
    ensures
        duration_seconds == 0 || duration_seconds < s.config.min_market_duration_seconds
            <==> PredictionMarketContract::create_market_error(
            s,
            creator,
            outcome_count,
            duration_seconds,
            current_time,
        ) == Some(ContractError::DurationTooShort),
{
}

/// Round trip: selling the shares a purchase just issued grosses at most
/// the net amount that purchase added to the pool. Shares are priced on
/// what the pool actually receives and every division rounds in the pool's
/// favor, so the curve price never rises above the price the shares were
/// issued at, and the protocol never pays out more for them than it
/// collected.
pub proof fn law_buy_sell_round_trip(
    m: Market,
    m2: Market,
    player_id: PlayerId,
    outcome_id: usize,
    amount: u64,
    current_time: u64,
)
    requires
        wf_market(m),
        (outcome_id as int) < m.outcomes@.len(),
        PredictionMarketContract::is_market_after_buy(
            m2,
            m,
            player_id,
            outcome_id,
            amount,
            current_time,
        ),
        m.outcomes@[outcome_id as int].total_shares
            + PredictionMarketContract::shares_for_amount_spec(
            m,
            outcome_id as int,
            amount - PredictionMarketContract::trading_fee_of(amount as int),
        ) <= u64::MAX,
    ensures
        ({
            let net = amount - PredictionMarketContract::trading_fee_of(amount as int);
            let shares = PredictionMarketContract::shares_for_amount_spec(
                m,
                outcome_id as int,
                net,
            );
            PredictionMarketContract::sell_value_spec(m2, outcome_id as int, shares) <= net
        }),
{
    let oid = outcome_id as int;
    let fee = PredictionMarketContract::trading_fee_of(amount as int);
    vstd::arithmetic::div_mod::lemma_div_is_ordered_by_denominator(amount as int, 1, 200);
    vstd::arithmetic::div_mod::lemma_div_basics(amount as int);
    vstd::arithmetic::div_mod::lemma_div_pos_is_pos(amount as int, 200);
    let net = amount - fee;
    let s = PredictionMarketContract::shares_for_amount_spec(m, oid, net);
    let base = m.base_price as int;
    let k = m.smoothing_half_steps as nat;
    let ts0 = m.outcomes@[oid].total_shares as int;
    let liq0 = m.total_liquidity as int;
    let liq2 = m2.total_liquidity as int;
    assert(liq2 == liq0 + net);
    if liq0 == 0 {
        // The whole pool is exactly the net stake, and the sale value is
        // capped at the pool.
        assert(PredictionMarketContract::sell_value_spec(m2, oid, s) <= liq2);
    } else {
        let price1 = PredictionMarketContract::price_of(m, oid);
        assert(price1 >= base * PRICE_SCALE);
        assert(base * PRICE_SCALE >= PRICE_SCALE) by (nonlinear_arith)
            requires
                base >= 1,
        ;
        assert(net * PRICE_SCALE >= 0) by (nonlinear_arith)
            requires
                net >= 0,
        ;
        vstd::arithmetic::div_mod::lemma_div_pos_is_pos(net * PRICE_SCALE, price1);
        vstd::arithmetic::div_mod::lemma_fundamental_div_mod(net * PRICE_SCALE, price1);
        assert(s * price1 <= net * PRICE_SCALE) by (nonlinear_arith)
            requires
                net * PRICE_SCALE == s * price1 + (net * PRICE_SCALE) % price1,
                (net * PRICE_SCALE) % price1 >= 0,
        ;
        lemma_scaled_div_le(net, price1);
        assert(s <= net);
        let ts2 = m2.outcomes@[oid].total_shares as int;
        assert(ts2 == ts0 + s);
        let price2 = PredictionMarketContract::price_of(m2, oid);
        if ts0 >= liq0 {
            // The share/liquidity ratio cannot rise: the pool grows by at
            // least as much as the outcome's shares do, proportionally.
            assert((ts0 + s) * PRICE_SCALE * liq0 <= ts0 * PRICE_SCALE * liq2)
                by (nonlinear_arith)
                requires
                    s <= net,
                    liq0 <= ts0,
                    liq0 >= 0,
                    net >= 0,
                    s >= 0,
                    liq2 == liq0 + net,
                    ts0 >= 0,
            ;
            lemma_div_cross((ts0 + s) * PRICE_SCALE, liq2, ts0 * PRICE_SCALE, liq0);
            assert(ratio_fp(ts2, liq2) <= ratio_fp(ts0, liq0));
            lemma_curve_price_monotone(base, ts0, liq0, ts2, liq2, k);
            assert(price2 <= price1);
            assert(s * price2 <= s * price1) by (nonlinear_arith)
                requires
                    price2 <= price1,
                    s >= 0,
            ;
            vstd::arithmetic::div_mod::lemma_div_is_ordered(
                s * price2,
                net * PRICE_SCALE,
                PRICE_SCALE as int,
            );
            vstd::arithmetic::div_mod::lemma_div_by_multiple(net, PRICE_SCALE as int);
        } else {
            // Shares stay at or below the pool, so the post-trade price
            // clamps to the base-price floor.
            assert(0 <= ts2 <= liq2);
            lemma_curve_price_floor(base, ts2, liq2, k);
            assert(price2 == base * PRICE_SCALE);
            assert(s * (base * PRICE_SCALE) == (s * base) * PRICE_SCALE) by (nonlinear_arith);
            vstd::arithmetic::div_mod::lemma_div_by_multiple(s * base, PRICE_SCALE as int);
            assert(s * (base * PRICE_SCALE) <= s * price1) by (nonlinear_arith)
                requires
                    base * PRICE_SCALE <= price1,
                    s >= 0,
            ;
            vstd::arithmetic::div_mod::lemma_div_is_ordered(
                (s * base) * PRICE_SCALE,
                net * PRICE_SCALE,
                PRICE_SCALE as int,
            );
            vstd::arithmetic::div_mod::lemma_div_by_multiple(net, PRICE_SCALE as int);
            assert(s * base <= net);
        }
    }
}

/// Rejected trade: buying into an active, unended market with a valid
/// outcome but a stake larger than the buyer's balance is decided as
/// `InsufficientBalance`, and by `buy_shares`'s contract a rejected purchase
/// leaves the whole state — the market's pool included — unchanged.
pub proof fn law_rejected_trade(
    s: PredictionMarketContract,
    player_id: PlayerId,
    market_id: MarketId,
    outcome_id: usize,
    amount: u64,
    max_price_per_share: u64,
    current_time: u64,
)
    requires
        s.wf(),
        find_market_idx(s.markets@, market_id) >= 0,
        find_player_idx(s.players@, player_id) >= 0,
        s.markets@[find_market_idx(s.markets@, market_id)].status is Active,
        current_time < s.markets@[find_market_idx(s.markets@, market_id)].end_time,
        (outcome_id as int) < s.markets@[find_market_idx(s.markets@, market_id)].outcomes@.len(),
        s.players@[find_player_idx(s.players@, player_id)].token_balance < amount,
    ensures
        PredictionMarketContract::buy_shares_error(
            s,
            player_id,
            market_id,
            outcome_id,
            amount,
            max_price_per_share,
            current_time,
        ) == Some(ContractError::InsufficientBalance),
{
}

} // verus!
