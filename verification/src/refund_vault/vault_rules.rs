//! What the other calls of the vault do, on their arguments and the stored entries alone.

use super::admin;
use super::claim_rules;
use super::claims;
use super::funds;
use super::history;
use super::laws;
use super::policy;
use super::strategy;
use super::strategy::{StrategyState, YieldStrategy};
use super::types;
use super::types::{
    DataKey, DepositEvent, Effect, Env, Event, PolicyExecutedEvent, RefundVault,
    RefundWindowUpdatedEvent, VaultState, WithdrawEvent, YieldDeployedEvent, YieldHarvestedEvent,
    YieldWithdrawnEvent,
};
use super::yields;
use crate::error::Error;
use crate::primitives::{Address, BytesN};
use vstd::arithmetic::div_mod::*;
use vstd::prelude::*;

verus! {

/// Whether the merchant signed.
pub open spec fn signed(v: VaultState, env: Env) -> bool {
    v.admin is Some && env.signers@.contains(v.admin->0)
}

/// A merchant's call needs a merchant, and the merchant's signature.
pub proof fn law_merchant_is_asked(v: VaultState, env: Env)
    ensures
        v.merchant_error(env) is None <==> signed(v, env),
        v.admin is None ==> v.merchant_error(env) == Some(Error::NotInitialized),
        v.admin is Some && !signed(v, env) ==> v.merchant_error(env) == Some(Error::Unauthorized),
        v.initialized() <==> v.admin is Some,
{
}

/// The flag comes before the pause, and the pause before the signature.
pub proof fn law_guard_comes_first(v: VaultState, env: Env)
    ensures
        v.guarded_error(env) is None <==> !v.reentrancy_lock && !v.paused && signed(v, env),
        v.reentrancy_lock ==> v.guarded_error(env) == Some(Error::ReentrancyBlocked),
        !v.reentrancy_lock && v.paused ==> v.guarded_error(env) == Some(Error::Paused),
        !v.reentrancy_lock && !v.paused && v.admin is None ==> v.guarded_error(env) == Some(
            Error::NotInitialized,
        ),
        !v.reentrancy_lock && !v.paused && v.admin is Some && !signed(v, env) ==> v.guarded_error(
            env,
        ) == Some(Error::Unauthorized),
        v.open_error(env) == (VaultState { reentrancy_lock: false, ..v }).guarded_error(env),
{
}

/// What missing entries read as, and who collects fees.
pub proof fn law_missing_entries_have_defaults(v: VaultState, payment_ref: BytesN<32>)
    ensures
        v.storage_version is None ==> v.version() == 1,
        v.storage_version matches Some(version) ==> v.version() == version,
        v.refund_window matches Some(window) ==> v.window() == window,
        v.fee_recipient is None && v.admin is Some ==> Some(v.fee_collector()) == v.admin,
        v.fee_recipient is Some ==> Some(v.fee_collector()) == v.fee_recipient,
        !v.refunds.dom().contains(payment_ref) ==> v.refunded(payment_ref) == 0,
        v.refunds.dom().contains(payment_ref) ==> v.refunded(payment_ref)
            == v.refunds[payment_ref].amount_refunded,
        v.deployed_principal is None ==> v.deployed() == 0,
        v.deployed_principal matches Some(deployed) ==> v.deployed() == deployed,
        v.harvested_yield is None ==> v.harvested() == 0,
        v.harvested_yield matches Some(harvested) ==> v.harvested() == harvested,
        v.reserve_ratio is None ==> v.reserve_bps() == 0,
        v.reserve_ratio matches Some(ratio) ==> v.reserve_bps() == ratio,
        v.max_deploy_ratio is None ==> v.max_deploy_bps() == 10_000,
        v.max_deploy_ratio matches Some(ratio) ==> v.max_deploy_bps() == ratio,
{
    assert(v.refunds.contains_key(payment_ref) <==> v.refunds.dom().contains(payment_ref));
}

/// There is no fee on nothing.
pub proof fn law_no_fee_on_nothing(fee_bps: int)
    requires
        0 <= fee_bps <= 10_000,
    ensures
        claims::fee_of(0, fee_bps) == 0,
{
    assert(0 * fee_bps == 0) by (nonlinear_arith);
}

/// A call that is refused leaves no trace, and returns its error; one that is not, returns
/// `Ok`, leaves what it says, and asks for its effects after those asked for before.
pub proof fn law_calls_do_all_or_nothing(
    pre: RefundVault,
    env: Env,
    error: Option<Error>,
    next: VaultState,
    float: int,
    effects: Seq<Effect>,
    booking: history::Booking,
    r: Result<(), Error>,
    post: RefundVault,
    post_env: Env,
)
    requires
        types::concludes(
            pre,
            env,
            error,
            next,
            float,
            effects,
            booking,
            r,
            post,
            post_env,
        ),
    ensures
        r is Ok <==> error is None,
        error matches Some(e) ==> {
            &&& r == Err::<(), Error>(e)
            &&& post@ == pre@
            &&& post_env.float == env.float
            &&& post_env.effects@ == env.effects@
        },
        error is None ==> {
            &&& post@ == next
            &&& post_env.float == float
            &&& post_env.effects@ == env.effects@ + effects
        },
        post_env.ledger == env.ledger,
        post_env.signers@ == env.signers@,
        pre.admin is Some ==> post.admin is Some && (post.admin == pre.admin || post.admin
            == pre.pending_admin),
        post@.legacy_refunds == pre@.legacy_refunds,
        post.reentrancy_lock == pre.reentrancy_lock,
        post@.version() >= pre@.version(),
{
    assert(env.effects@ + Seq::<Effect>::empty() =~= env.effects@);
}

/// The flag goes around the effects of a guarded call, and the renewal is that of the
/// instance, by 518400 ledgers once fewer than 100 are left.
pub proof fn law_flag_goes_around(effects: Seq<Effect>)
    ensures
        types::under_lock(effects).len() == effects.len() + 2,
        types::under_lock(effects)[0] == Effect::SetReentrancyLock(true),
        types::under_lock(effects).last() == Effect::SetReentrancyLock(false),
        types::under_lock(effects).subrange(1, 1 + effects.len() as int) == effects,
        types::renewal() == (Effect::ExtendInstanceTtl { threshold: 100, extend_to: 518_400 }),
{
    assert(types::under_lock(effects).subrange(1, 1 + effects.len() as int) =~= effects);
}

/// When a deposit is accepted: no guarded call runs, the vault is not paused, it is a
/// positive amount, and the merchant, who signed, makes it. The other cases have their
/// errors, in this order.
pub proof fn law_deposit_is_the_merchants(v: VaultState, env: Env, from: Address, amount: i128)
    ensures
        ({
            let e = funds::deposit_error(v, env, from, amount);
            &&& e is None <==> !v.reentrancy_lock && !v.paused && amount > 0 && v.admin == Some(
                from,
            ) && env.signers@.contains(from)
            &&& v.reentrancy_lock ==> e == Some(Error::ReentrancyBlocked)
            &&& !v.reentrancy_lock && v.paused ==> e == Some(Error::Paused)
            &&& !v.reentrancy_lock && !v.paused && amount <= 0 ==> e == Some(Error::InvalidAmount)
            &&& !v.reentrancy_lock && !v.paused && amount > 0 && v.admin is None ==> e == Some(
                Error::NotInitialized,
            )
            &&& !v.reentrancy_lock && !v.paused && amount > 0 && v.admin is Some && e is Some ==> e
                == Some(Error::Unauthorized)
        }),
{
}

/// What a deposit does: one transfer, of the amount, from the depositor to the vault in the
/// settlement token, and one event. The float grows by as much.
pub proof fn law_deposit_pays_in(v: VaultState, env: Env, from: Address, amount: i128)
    ensures
        ({
            let effects = funds::deposit_effects(v, env, from, amount);
            &&& claim_rules::transfers_of(effects) == seq![
                Effect::Transfer {
                    token: v.token->0,
                    from,
                    to: env.ledger.contract,
                    amount,
                },
            ]
            &&& claim_rules::events_of(effects) == seq![
                Event::Deposit(DepositEvent { from, amount }),
            ]
            &&& effects.contains(
                Effect::ExtendInstanceTtl { threshold: 100, extend_to: 518_400 },
            )
            &&& effects.len() == 3
            &&& from != env.ledger.contract ==> funds::deposit_float(env, from, amount) - env.float
                == amount
            &&& from == env.ledger.contract ==> funds::deposit_float(env, from, amount)
                == env.float
        }),
{
    let effects = funds::deposit_effects(v, env, from, amount);
    reveal_with_fuel(claim_rules::transfers_of, 5);
    reveal_with_fuel(claim_rules::events_of, 5);
    assert(effects.drop_last().drop_last().drop_last() =~= Seq::<Effect>::empty());
    assert(effects[2] == types::renewal());
    assert(claim_rules::transfers_of(effects) =~= seq![effects[0]]);
    assert(claim_rules::events_of(effects) =~= seq![
        Event::Deposit(DepositEvent { from, amount }),
    ]);
}

/// When a withdrawal is accepted: no guarded call runs, the vault is not paused, it is a
/// positive amount to somebody else than the vault, the merchant signed, and the float
/// covers it. The other cases have their errors, in this order.
pub proof fn law_withdrawal_is_covered(v: VaultState, env: Env, amount: i128, to: Address)
    ensures
        ({
            let e = funds::withdraw_error(v, env, amount, to);
            let free = !v.reentrancy_lock && !v.paused;
            &&& e is None <==> free && amount > 0 && to != env.ledger.contract && signed(v, env)
                && amount <= env.float
            &&& v.reentrancy_lock ==> e == Some(Error::ReentrancyBlocked)
            &&& !v.reentrancy_lock && v.paused ==> e == Some(Error::Paused)
            &&& free && amount <= 0 ==> e == Some(Error::InvalidAmount)
            &&& free && amount > 0 && to == env.ledger.contract ==> e == Some(Error::SelfTransfer)
            &&& free && amount > 0 && to != env.ledger.contract && v.admin is None ==> e == Some(
                Error::NotInitialized,
            )
            &&& free && amount > 0 && to != env.ledger.contract && v.admin is Some && !signed(
                v,
                env,
            ) ==> e == Some(Error::Unauthorized)
            &&& free && amount > 0 && to != env.ledger.contract && signed(v, env) && amount
                > env.float ==> e == Some(Error::InsufficientFloat)
        }),
{
}

/// What a withdrawal does: one transfer, of the amount, from the vault to the given address
/// in the settlement token, and one event.
pub proof fn law_withdrawal_pays_out(v: VaultState, env: Env, amount: i128, to: Address)
    ensures
        ({
            let effects = funds::withdraw_effects(v, env, amount, to);
            &&& claim_rules::transfers_of(effects) == seq![
                Effect::Transfer {
                    token: v.token->0,
                    from: env.ledger.contract,
                    to,
                    amount,
                },
            ]
            &&& claim_rules::events_of(effects) == seq![
                Event::Withdraw(WithdrawEvent { to, amount }),
            ]
            &&& effects.contains(
                Effect::ExtendInstanceTtl { threshold: 100, extend_to: 518_400 },
            )
            &&& effects.len() == 3
        }),
{
    let effects = funds::withdraw_effects(v, env, amount, to);
    reveal_with_fuel(claim_rules::transfers_of, 5);
    reveal_with_fuel(claim_rules::events_of, 5);
    assert(effects.drop_last().drop_last().drop_last() =~= Seq::<Effect>::empty());
    assert(effects[2] == types::renewal());
    assert(claim_rules::transfers_of(effects) =~= seq![effects[0]]);
    assert(claim_rules::events_of(effects) =~= seq![Event::Withdraw(WithdrawEvent { to, amount })]);
}

/// The token is replaced by the merchant alone, and only while the vault holds none of it.
pub proof fn law_token_is_replaced_when_empty(v: VaultState, env: Env)
    ensures
        funds::set_token_error(v, env) is None <==> signed(v, env) && env.float <= 0,
        signed(v, env) && env.float > 0 ==> funds::set_token_error(v, env) == Some(
            Error::FloatNotEmpty,
        ),
        v.admin is None ==> funds::set_token_error(v, env) == Some(Error::NotInitialized),
        v.admin is Some && !signed(v, env) ==> funds::set_token_error(v, env) == Some(
            Error::Unauthorized,
        ),
{
}

/// The total value: what is liquid and what is deployed, less the yield received.
pub proof fn law_total_value_is_without_the_yield(v: VaultState, float: int)
    ensures
        v.total_value(float) == float + (if v.deployed_principal is Some {
            v.deployed_principal->0 as int
        } else {
            0
        }) - (if v.harvested_yield is Some {
            v.harvested_yield->0 as int
        } else {
            0
        }),
{
}

/// A share is rounded towards zero.
pub proof fn law_share_is_rounded_towards_zero(total: int, bps: int)
    ensures
        ({
            let share = yields::share_of(total, bps);
            let exact = total * bps;
            &&& exact >= 0 ==> share * 10_000 <= exact < (share + 1) * 10_000
            &&& exact <= 0 ==> (share - 1) * 10_000 < exact <= share * 10_000
        }),
{
}

/// When a deployment is accepted: it may be asked for, what stays liquid is the share of
/// the total value that has to, and what is then deployed no more than the share that may
/// be. The other cases have their errors, in this order.
pub proof fn law_deployment_is_accepted_when(v: VaultState, env: Env, amount: i128)
    ensures
        ({
            let e = yields::deploy_error(v, env, amount);
            let free = !v.reentrancy_lock && !v.paused;
            let asked = free && amount > 0 && signed(v, env) && v.yield_strategy is Some && amount
                <= env.float;
            let deployed = if v.deployed_principal is Some {
                v.deployed_principal->0 as int
            } else {
                0
            };
            let total = v.total_value(env.float as int);
            let reserve = yields::share_of(
                total,
                if v.reserve_ratio is Some {
                    v.reserve_ratio->0 as int
                } else {
                    0
                },
            );
            let most = yields::share_of(
                total,
                if v.max_deploy_ratio is Some {
                    v.max_deploy_ratio->0 as int
                } else {
                    10_000
                },
            );
            &&& e is None <==> asked && env.float - amount >= reserve && deployed + amount <= most
            &&& v.reentrancy_lock ==> e == Some(Error::ReentrancyBlocked)
            &&& !v.reentrancy_lock && v.paused ==> e == Some(Error::Paused)
            &&& free && amount <= 0 ==> e == Some(Error::InvalidAmount)
            &&& free && amount > 0 && v.admin is None ==> e == Some(Error::NotInitialized)
            &&& free && amount > 0 && v.admin is Some && !signed(v, env) ==> e == Some(
                Error::Unauthorized,
            )
            &&& free && amount > 0 && signed(v, env) && v.yield_strategy is None ==> e == Some(
                Error::StrategyNotSet,
            )
            &&& free && amount > 0 && signed(v, env) && v.yield_strategy is Some && amount
                > env.float ==> e == Some(Error::InsufficientFloat)
            &&& asked && env.float - amount < reserve ==> e == Some(Error::InsufficientReserve)
            &&& asked && env.float - amount >= reserve && deployed + amount > most ==> e == Some(
                Error::DeploymentExceedsMax,
            )
        }),
{
}

/// What a deployment does: one transfer of the amount from the vault to the strategy in the
/// settlement token, then one notice of it to the strategy, and one event. The deployed
/// principal is kept alive. The float falls by as much.
pub proof fn law_deployment_pays_the_strategy(v: VaultState, env: Env, amount: i128)
    ensures
        ({
            let effects = yields::deploy_effects(v, env, amount);
            let to = v.yield_strategy->0;
            &&& claim_rules::transfers_of(effects) == seq![
                Effect::Transfer {
                    token: v.token->0,
                    from: env.ledger.contract,
                    to,
                    amount,
                },
            ]
            &&& effects[0] is Transfer
            &&& effects[1] == (Effect::StrategyDeposit { strategy: to, amount })
            &&& claim_rules::events_of(effects) == seq![
                Event::YieldDeployed(YieldDeployedEvent { strategy: to, amount }),
            ]
            &&& effects.contains(
                Effect::ExtendTtl {
                    key: DataKey::DeployedPrincipal,
                    threshold: 518_400,
                    extend_to: 518_400,
                },
            )
            &&& effects.contains(
                Effect::ExtendInstanceTtl { threshold: 100, extend_to: 518_400 },
            )
            &&& effects.len() == 5
            &&& to != env.ledger.contract ==> env.float - yields::deploy_float(v, env, amount)
                == amount
            &&& to == env.ledger.contract ==> yields::deploy_float(v, env, amount) == env.float
        }),
{
    let effects = yields::deploy_effects(v, env, amount);
    let to = v.yield_strategy->0;
    reveal_with_fuel(claim_rules::transfers_of, 7);
    reveal_with_fuel(claim_rules::events_of, 7);
    assert(effects.drop_last().drop_last().drop_last().drop_last().drop_last() =~= Seq::<
        Effect,
    >::empty());
    assert(effects[2] == yields::yield_renewal(DataKey::DeployedPrincipal));
    assert(effects[4] == types::renewal());
    assert(claim_rules::transfers_of(effects) =~= seq![effects[0]]);
    assert(claim_rules::events_of(effects) =~= seq![
        Event::YieldDeployed(YieldDeployedEvent { strategy: to, amount }),
    ]);
}

/// When principal can be asked back: no guarded call runs, the vault is not paused, it is a
/// positive amount, the merchant signed, there is a strategy, and no more is asked than is
/// deployed. The other cases have their errors, in this order.
pub proof fn law_principal_is_asked_back_when(v: VaultState, env: Env, principal: i128)
    ensures
        ({
            let e = yields::withdraw_yield_error(v, env, principal);
            let free = !v.reentrancy_lock && !v.paused;
            let deployed = if v.deployed_principal is Some {
                v.deployed_principal->0 as int
            } else {
                0
            };
            &&& e is None <==> free && 0 < principal <= deployed && signed(v, env)
                && v.yield_strategy is Some
            &&& v.reentrancy_lock ==> e == Some(Error::ReentrancyBlocked)
            &&& !v.reentrancy_lock && v.paused ==> e == Some(Error::Paused)
            &&& free && principal <= 0 ==> e == Some(Error::InvalidAmount)
            &&& free && principal > 0 && v.admin is None ==> e == Some(Error::NotInitialized)
            &&& free && principal > 0 && v.admin is Some && !signed(v, env) ==> e == Some(
                Error::Unauthorized,
            )
            &&& free && principal > 0 && signed(v, env) && v.yield_strategy is None ==> e == Some(
                Error::StrategyNotSet,
            )
            &&& free && principal > 0 && signed(v, env) && v.yield_strategy is Some && principal
                > deployed ==> e == Some(Error::NothingToWithdraw)
        }),
{
}

/// What is booked of what the strategy returned: the principal leaves what is deployed, the
/// yield joins what was harvested, and nothing else changes. One event reports both, and
/// both entries are kept alive. No tokens are moved: the strategy did.
pub proof fn law_returned_principal_is_booked(
    v: VaultState,
    strategy: Address,
    principal: i128,
    yield_amount: i128,
)
    requires
        yields::withdrawal_fits(v, principal as int, yield_amount as int),
    ensures
        ({
            let w = yields::after_withdrawal(v, principal as int, yield_amount as int);
            let effects = yields::withdrawal_effects(strategy, principal, yield_amount);
            &&& w.deployed_principal matches Some(deployed) && deployed == (
            if v.deployed_principal is Some {
                v.deployed_principal->0 as int
            } else {
                0
            }) - principal
            &&& w.harvested_yield matches Some(harvested) && harvested == (
            if v.harvested_yield is Some {
                v.harvested_yield->0 as int
            } else {
                0
            }) + yield_amount
            &&& w == (VaultState {
                deployed_principal: w.deployed_principal,
                harvested_yield: w.harvested_yield,
                ..v
            })
            &&& claim_rules::transfers_of(effects) == Seq::<Effect>::empty()
            &&& claim_rules::events_of(effects) == seq![
                Event::YieldWithdrawn(YieldWithdrawnEvent { strategy, principal, yield_amount }),
            ]
            &&& effects.contains(
                Effect::ExtendTtl {
                    key: DataKey::DeployedPrincipal,
                    threshold: 518_400,
                    extend_to: 518_400,
                },
            )
            &&& effects.contains(
                Effect::ExtendTtl {
                    key: DataKey::HarvestedYield,
                    threshold: 518_400,
                    extend_to: 518_400,
                },
            )
            &&& effects.contains(
                Effect::ExtendInstanceTtl { threshold: 100, extend_to: 518_400 },
            )
            &&& effects.len() == 4
        }),
{
    let effects = yields::withdrawal_effects(strategy, principal, yield_amount);
    reveal_with_fuel(claim_rules::transfers_of, 6);
    reveal_with_fuel(claim_rules::events_of, 6);
    assert(effects.drop_last().drop_last().drop_last().drop_last() =~= Seq::<Effect>::empty());
    assert(effects[0] == yields::yield_renewal(DataKey::DeployedPrincipal));
    assert(effects[1] == yields::yield_renewal(DataKey::HarvestedYield));
    assert(effects[3] == types::renewal());
    assert(claim_rules::events_of(effects) =~= seq![
        Event::YieldWithdrawn(YieldWithdrawnEvent { strategy, principal, yield_amount }),
    ]);
}

/// What can be booked: what fits the number type of amounts.
pub proof fn law_only_overflow_cannot_be_booked(v: VaultState, principal: int, yield_amount: int)
    ensures
        yields::withdrawal_fits(v, principal, yield_amount) <==> {
            &&& i128::MIN <= v.deployed() - principal <= i128::MAX
            &&& i128::MIN <= v.harvested() + yield_amount <= i128::MAX
        },
{
}

/// When yield can be asked for: no guarded call runs, the vault is not paused, the merchant
/// signed, and there is a strategy. What comes is reported by one event, and no tokens are
/// moved but by the strategy.
pub proof fn law_yield_is_asked_for_when(v: VaultState, env: Env, amount: i128)
    ensures
        ({
            let e = yields::harvest_request_error(v, env);
            let free = !v.reentrancy_lock && !v.paused;
            let effects = yields::harvest_effects(amount);
            &&& e is None <==> free && signed(v, env) && v.yield_strategy is Some
            &&& v.reentrancy_lock ==> e == Some(Error::ReentrancyBlocked)
            &&& !v.reentrancy_lock && v.paused ==> e == Some(Error::Paused)
            &&& free && v.admin is None ==> e == Some(Error::NotInitialized)
            &&& free && v.admin is Some && !signed(v, env) ==> e == Some(Error::Unauthorized)
            &&& free && signed(v, env) && v.yield_strategy is None ==> e == Some(
                Error::StrategyNotSet,
            )
            &&& claim_rules::transfers_of(effects) == Seq::<Effect>::empty()
            &&& claim_rules::events_of(effects) == seq![
                Event::YieldHarvested(YieldHarvestedEvent { amount }),
            ]
            &&& effects.contains(
                Effect::ExtendTtl {
                    key: DataKey::HarvestedYield,
                    threshold: 518_400,
                    extend_to: 518_400,
                },
            )
            &&& effects.contains(
                Effect::ExtendInstanceTtl { threshold: 100, extend_to: 518_400 },
            )
            &&& effects.len() == 3
        }),
{
    let effects = yields::harvest_effects(amount);
    reveal_with_fuel(claim_rules::transfers_of, 5);
    reveal_with_fuel(claim_rules::events_of, 5);
    assert(effects.drop_last().drop_last().drop_last() =~= Seq::<Effect>::empty());
    assert(effects[0] == yields::yield_renewal(DataKey::HarvestedYield));
    assert(effects[2] == types::renewal());
    assert(claim_rules::events_of(effects) =~= seq![
        Event::YieldHarvested(YieldHarvestedEvent { amount }),
    ]);
}

/// A ratio is at most the whole, and the merchant's to set.
pub proof fn law_ratios_are_at_most_the_whole(v: VaultState, env: Env, basis_points: u32)
    ensures
        yields::set_ratio_error(v, env, basis_points) is None <==> basis_points <= 10_000
            && signed(v, env),
        basis_points > 10_000 ==> yields::set_ratio_error(v, env, basis_points) == Some(
            Error::InvalidRatio,
        ),
        admin::set_fee_bps_error(v, env, basis_points) == yields::set_ratio_error(
            v,
            env,
            basis_points,
        ),
        basis_points <= 10_000 && v.admin is None ==> yields::set_ratio_error(v, env, basis_points)
            == Some(Error::NotInitialized),
        basis_points <= 10_000 && v.admin is Some && !signed(v, env) ==> yields::set_ratio_error(
            v,
            env,
            basis_points,
        ) == Some(Error::Unauthorized),
{
}

/// The entries that the yield calls keep alive are kept for 518400 ledgers.
pub proof fn law_yield_entries_are_kept_alive(key: DataKey)
    ensures
        yields::yield_renewal(key) == (Effect::ExtendTtl {
            key,
            threshold: 518_400,
            extend_to: 518_400,
        }),
{
}

/// When a policy takes effect: the merchant signed, there is one, and 17280 ledgers have
/// passed since it was proposed. Then two events report the window, before and after, and
/// the policy.
pub proof fn law_policy_takes_effect_when(v: VaultState, env: Env)
    ensures
        ({
            let e = policy::execute_error(v, env);
            let effects = policy::execute_effects(v);
            let due = v.pending_policy is Some && env.ledger.sequence
                >= v.pending_policy->0.proposed_at_ledger + 17_280;
            &&& e is None <==> signed(v, env) && due
            &&& v.admin is None ==> e == Some(Error::NotInitialized)
            &&& v.admin is Some && !signed(v, env) ==> e == Some(Error::Unauthorized)
            &&& signed(v, env) && v.pending_policy is None ==> e == Some(Error::NoPendingPolicy)
            &&& signed(v, env) && v.pending_policy is Some && !due ==> e == Some(
                Error::TimelockNotExpired,
            )
            &&& claim_rules::transfers_of(effects) == Seq::<Effect>::empty()
            &&& claim_rules::events_of(effects) == seq![
                Event::RefundWindowUpdated(
                    RefundWindowUpdatedEvent {
                        previous_window: v.refund_window->0,
                        new_window: v.pending_policy->0.window,
                    },
                ),
                Event::PolicyExecuted(
                    PolicyExecutedEvent {
                        window: v.pending_policy->0.window,
                        deadline: v.pending_policy->0.deadline,
                    },
                ),
            ]
            &&& effects.contains(
                Effect::ExtendInstanceTtl { threshold: 100, extend_to: 518_400 },
            )
            &&& effects.len() == 3
        }),
{
    let effects = policy::execute_effects(v);
    reveal_with_fuel(claim_rules::transfers_of, 5);
    reveal_with_fuel(claim_rules::events_of, 5);
    assert(effects.drop_last().drop_last().drop_last() =~= Seq::<Effect>::empty());
    assert(effects[2] == types::renewal());
    assert(claim_rules::events_of(effects) =~= seq![
        Event::RefundWindowUpdated(
            RefundWindowUpdatedEvent {
                previous_window: v.refund_window->0,
                new_window: v.pending_policy->0.window,
            },
        ),
        Event::PolicyExecuted(
            PolicyExecutedEvent {
                window: v.pending_policy->0.window,
                deadline: v.pending_policy->0.deadline,
            },
        ),
    ]);
}

/// When the merchant's oracles and oracle policy can be changed: an oracle is added once,
/// removed while it is there, and a policy cleared while there is one.
pub proof fn law_oracles_are_changed_when(v: VaultState, env: Env, oracle: Address)
    ensures
        ({
            let listed = v.oracles is Some && v.oracles->0.contains(oracle);
            let adding = policy::add_oracle_error(v, env, oracle);
            let removing = policy::remove_oracle_error(v, env, oracle);
            let clearing = policy::clear_policy_error(v, env);
            &&& adding is None <==> signed(v, env) && !listed
            &&& removing is None <==> signed(v, env) && listed
            &&& clearing is None <==> signed(v, env) && v.oracle_policy is Some
            &&& signed(v, env) && listed ==> adding == Some(Error::OracleAlreadyAdded)
            &&& signed(v, env) && v.oracles is None ==> removing == Some(
                Error::NoOraclesConfigured,
            )
            &&& signed(v, env) && v.oracles is Some && !listed ==> removing == Some(
                Error::OracleNotFound,
            )
            &&& signed(v, env) && v.oracle_policy is None ==> clearing == Some(
                Error::NoOraclePolicy,
            )
            &&& !signed(v, env) ==> {
                let e = if v.admin is None {
                    Some(Error::NotInitialized)
                } else {
                    Some(Error::Unauthorized)
                };
                adding == e && removing == e && clearing == e
            }
            &&& v.oracles is Some ==> policy::whitelist(v) == v.oracles->0
            &&& v.oracles is None ==> policy::whitelist(v).len() == 0
        }),
{
}

/// When the other entries can be changed: the vault is no fee recipient; a layout version
/// only goes up; a transfer of the merchant's role is accepted by the one who was proposed,
/// and cancelled by the merchant, while one is pending.
pub proof fn law_administration(
    v: VaultState,
    env: Env,
    recipient: Address,
    target_version: u32,
)
    ensures
        ({
            let e = if v.admin is None {
                Some(Error::NotInitialized)
            } else {
                Some(Error::Unauthorized)
            };
            let fee = admin::set_fee_recipient_error(v, env, recipient);
            let migration = admin::migrate_error(v, env, target_version);
            let accepting = admin::accept_error(v, env);
            let cancelling = admin::cancel_error(v, env);
            &&& fee is None <==> recipient != env.ledger.contract && signed(v, env)
            &&& recipient == env.ledger.contract ==> fee == Some(Error::SelfTransfer)
            &&& recipient != env.ledger.contract && !signed(v, env) ==> fee == e
            &&& migration is None <==> signed(v, env) && target_version > v.version()
            &&& !signed(v, env) ==> migration == e
            &&& signed(v, env) && target_version <= v.version() ==> migration == Some(
                Error::InvalidMigrationVersion,
            )
            &&& accepting is None <==> v.pending_admin is Some && env.signers@.contains(
                v.pending_admin->0,
            )
            &&& v.pending_admin is None ==> accepting == Some(Error::NoPendingTransfer)
            &&& v.pending_admin is Some && !env.signers@.contains(v.pending_admin->0) ==> accepting
                == Some(Error::Unauthorized)
            &&& cancelling is None <==> signed(v, env) && v.pending_admin is Some
            &&& !signed(v, env) ==> cancelling == e
            &&& signed(v, env) && v.pending_admin is None ==> cancelling == Some(
                Error::NoPendingTransfer,
            )
        }),
{
}

/// The share of the yield that the in-memory strategy pays with some principal is in
/// proportion to it, rounded down.
pub proof fn law_portion_is_rounded_down(s: StrategyState, principal: int)
    requires
        s.yield_accrued >= 0,
        principal >= 0,
        s.total_deposited > 0,
    ensures
        s.yield_portion(principal) * s.total_deposited <= s.yield_accrued * principal < (
        s.yield_portion(principal) + 1) * s.total_deposited,
{
    let exact = s.yield_accrued * principal;
    let total = s.total_deposited as int;
    assert(exact >= 0) by (nonlinear_arith)
        requires
            exact == s.yield_accrued * principal,
            s.yield_accrued >= 0,
            principal >= 0,
    ;
    let portion = exact / total;
    lemma_fundamental_div_mod(exact, total);
    lemma_mod_bound(exact, total);
    assert(portion * total <= exact < (portion + 1) * total) by (nonlinear_arith)
        requires
            exact == total * portion + exact % total,
            0 <= exact % total < total,
    ;
}

/// What the in-memory strategy does with a withdrawal that it can answer: it pays the
/// principal and its share of the yield to its vault in its token, by one transfer, and
/// holds as much less of each. It refuses a principal that it does not hold, and then does
/// nothing.
pub proof fn law_strategy_pays_principal_and_share(
    s: StrategyState,
    strategy: Address,
    principal: i128,
)
    requires
        s.solvent(),
    ensures
        ({
            let reply = <strategy::MockYieldStrategy as YieldStrategy>::withdraw_reply(
                s,
                strategy,
                principal,
            );
            let t = s.withdrawn(principal);
            let share = s.yield_portion(principal as int);
            &&& reply is Ok <==> 0 < principal <= s.total_deposited
            &&& reply is Err ==> reply == Err::<(i128, i128), Error>(Error::NothingToWithdraw) && t
                == s
            &&& reply matches Ok((paid, gain)) ==> {
                &&& paid == principal
                &&& gain == share
                &&& t.total_deposited == s.total_deposited - principal
                &&& t.yield_accrued == s.yield_accrued - share
                &&& t.float == s.float - principal - share
                &&& t.effects == s.effects.push(
                    Effect::Transfer {
                        token: s.token->0,
                        from: s.contract,
                        to: s.admin->0,
                        amount: (principal + share) as i128,
                    },
                )
                &&& t.contract == s.contract && t.token == s.token && t.admin == s.admin
            }
        }),
{
    super::laws::law_solvent_strategy_keeps_paying(s, principal);
    if s.holds_principal(principal as int) {
        super::laws::law_yield_is_paid_in_proportion(s, principal as int);
    }
}

/// What the in-memory strategy does with a harvest: it pays all accrued yield to its vault
/// in its token, by one transfer, and none is left; without any it refuses and does
/// nothing. A deposit adds to what it holds of principal.
pub proof fn law_strategy_pays_all_yield(s: StrategyState, strategy: Address, amount: i128)
    requires
        s.solvent(),
        amount > 0 ==> s.total_deposited + amount <= i128::MAX,
    ensures
        ({
            let reply = <strategy::MockYieldStrategy as YieldStrategy>::harvest_reply(s, strategy);
            let t = s.harvested();
            &&& reply is Ok <==> s.yield_accrued > 0
            &&& reply is Err ==> reply == Err::<i128, Error>(Error::NothingToHarvest) && t == s
            &&& reply matches Ok(gain) ==> {
                &&& gain == s.yield_accrued
                &&& t.yield_accrued == 0
                &&& t.total_deposited == s.total_deposited
                &&& t.float == s.float - gain
                &&& t.effects == s.effects.push(
                    Effect::Transfer {
                        token: s.token->0,
                        from: s.contract,
                        to: s.admin->0,
                        amount: gain,
                    },
                )
                &&& t.contract == s.contract && t.token == s.token && t.admin == s.admin
            }
        }),
        ({
            let t = s.deposited(amount);
            &&& amount > 0 ==> t.total_deposited == s.total_deposited + amount
            &&& amount <= 0 ==> t == s
            &&& t == (StrategyState { total_deposited: t.total_deposited, ..s })
        }),
{
}

/// A deployment can be computed while the amounts are not negative and, ten thousand times
/// over, within the range of amounts.
pub proof fn law_ordinary_deployments_are_computable(v: VaultState, env: Env, amount: i128)
    requires
        v.wf(),
        0 <= v.harvested() <= env.float,
        0 <= v.deployed(),
        (env.float + v.deployed()) * 10_000 <= i128::MAX,
    ensures
        yields::deploy_computable(v, env, amount),
{
    let total = v.total_value(env.float as int);
    let reserve = v.reserve_bps() as int;
    let most = v.max_deploy_bps() as int;
    assert(0 <= total * reserve <= total * 10_000) by (nonlinear_arith)
        requires
            0 <= total,
            0 <= reserve <= 10_000,
    ;
    assert(0 <= total * most <= total * 10_000) by (nonlinear_arith)
        requires
            0 <= total,
            0 <= most <= 10_000,
    ;
}

/// What the in-memory strategy answers to a deposit, and what it says it holds. A deposit of
/// nothing is refused, and what is deposited can be asked back.
pub proof fn law_strategy_keeps_what_is_deposited(s: StrategyState, strategy: Address, amount: i128)
    requires
        amount > 0 ==> 0 <= s.total_deposited && s.total_deposited + amount <= i128::MAX,
    ensures
        ({
            let reply = <strategy::MockYieldStrategy as YieldStrategy>::deposit_reply(
                s,
                strategy,
                amount,
            );
            let t = <strategy::MockYieldStrategy as YieldStrategy>::after_deposit(
                s,
                strategy,
                amount,
            );
            &&& reply is Ok <==> amount > 0
            &&& reply is Err ==> reply == Err::<(), Error>(Error::InvalidAmount) && t == s
            &&& reply is Ok ==> t.total_deposited == s.total_deposited + amount
            &&& (StrategyState { total_deposited: s.total_deposited, ..t }) == s
            &&& reply is Ok ==> <strategy::MockYieldStrategy as YieldStrategy>::withdraw_reply(
                t,
                strategy,
                amount,
            ) is Ok
            &&& <strategy::MockYieldStrategy as YieldStrategy>::can_deposit(s, strategy, amount)
                <==> strategy == s.contract
            &&& <strategy::MockYieldStrategy as YieldStrategy>::total_balance_reply(s, strategy)
                == s.float
            &&& <strategy::MockYieldStrategy as YieldStrategy>::accrued_yield_reply(s, strategy)
                == s.yield_accrued
        }),
{
}

/// The in-memory strategy is set up with nothing deposited and no yield, and yield accrues on
/// top of what has accrued. Neither moves tokens.
pub proof fn law_strategy_starts_empty(
    s: StrategyState,
    token: Address,
    vault: Address,
    amount: i128,
)
    requires
        i128::MIN <= s.yield_accrued + amount <= i128::MAX,
    ensures
        ({
            let t = s.set_up(token, vault);
            let u = s.accrued(amount);
            &&& t.token == Some(token)
            &&& t.admin == Some(vault)
            &&& t.total_deposited == 0
            &&& t.yield_accrued == 0
            &&& t.contract == s.contract && t.float == s.float && t.effects == s.effects
            &&& u.yield_accrued - s.yield_accrued == amount
            &&& (StrategyState { yield_accrued: s.yield_accrued, ..u }) == s
        }),
{
}

/// The in-memory strategy can always be asked for yield, and for principal, while it is
/// solvent.
pub proof fn law_solvent_strategy_can_be_asked(s: StrategyState, principal: i128)
    requires
        s.solvent(),
    ensures
        <strategy::MockYieldStrategy as YieldStrategy>::can_harvest(s, s.contract),
        <strategy::MockYieldStrategy as YieldStrategy>::can_withdraw(s, s.contract, principal),
        <strategy::MockYieldStrategy as YieldStrategy>::after_harvest(s, s.contract)
            == s.harvested(),
        <strategy::MockYieldStrategy as YieldStrategy>::after_withdraw(s, s.contract, principal)
            == s.withdrawn(principal),
{
    laws::law_solvent_strategy_keeps_paying(s, principal);
}

} // verus!
