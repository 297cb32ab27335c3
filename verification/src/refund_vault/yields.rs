//! Deploying idle float to a yield strategy and getting it back.

use super::history;
use super::strategy;
use super::strategy::YieldStrategy;
use super::types;
use super::types::{
    DataKey, Effect, Env, Event, RefundVault, VaultState, YieldDeployedEvent, YieldHarvestedEvent,
    YieldInfo, YieldWithdrawnEvent, BASIS_POINTS, TTL_EXTEND,
};
use crate::error::Error;
use crate::primitives::Address;
use vstd::prelude::*;

verus! {

impl VaultState {
    /// Principal that the strategy holds.
    pub open spec fn deployed(self) -> i128 {
        match self.deployed_principal {
            Some(deployed) => deployed,
            None => 0,
        }
    }

    /// Yield received so far.
    pub open spec fn harvested(self) -> i128 {
        match self.harvested_yield {
            Some(harvested) => harvested,
            None => 0,
        }
    }

    /// Share of the total value that must stay liquid, in basis points.
    pub open spec fn reserve_bps(self) -> u32 {
        match self.reserve_ratio {
            Some(ratio) => ratio,
            None => 0,
        }
    }

    /// Share of the total value that may be deployed, in basis points.
    pub open spec fn max_deploy_bps(self) -> u32 {
        match self.max_deploy_ratio {
            Some(ratio) => ratio,
            None => BASIS_POINTS,
        }
    }

    /// Liquid tokens and deployed principal, without the yield received, which belongs
    /// to the operator.
    pub open spec fn total_value(self, float: int) -> int {
        float + self.deployed() - self.harvested()
    }
}

/// `bps` basis points of `total`, rounded towards zero.
pub open spec fn share_of(total: int, bps: int) -> int {
    strategy::trunc_div(total * bps, 10_000)
}

/// Why a deployment is refused before its ratios are looked at.
pub open spec fn deploy_request_error(v: VaultState, env: Env, amount: i128) -> Option<Error> {
    if v.reentrancy_lock {
        Some(Error::ReentrancyBlocked)
    } else if v.paused {
        Some(Error::Paused)
    } else if amount <= 0 {
        Some(Error::InvalidAmount)
    } else if v.merchant_error(env) is Some {
        v.merchant_error(env)
    } else if v.yield_strategy is None {
        Some(Error::StrategyNotSet)
    } else if env.float < amount {
        Some(Error::InsufficientFloat)
    } else {
        None
    }
}

/// Whether the liquid rest of a deployment falls short of the reserve.
pub open spec fn breaches_reserve(v: VaultState, float: int, amount: int) -> bool {
    float - amount < share_of(v.total_value(float), v.reserve_bps() as int)
}

/// Whether a deployment exceeds the largest share that may be deployed.
pub open spec fn exceeds_max(v: VaultState, float: int, amount: int) -> bool {
    v.deployed() + amount > share_of(v.total_value(float), v.max_deploy_bps() as int)
}

/// Why a deployment is refused.
pub open spec fn deploy_error(v: VaultState, env: Env, amount: i128) -> Option<Error> {
    if deploy_request_error(v, env, amount) is Some {
        deploy_request_error(v, env, amount)
    } else if breaches_reserve(v, env.float as int, amount as int) {
        Some(Error::InsufficientReserve)
    } else if exceeds_max(v, env.float as int, amount as int) {
        Some(Error::DeploymentExceedsMax)
    } else {
        None
    }
}

/// Whether the ratios of a deployment, as far as they are looked at, can be computed
/// without overflow.
pub open spec fn deploy_computable(v: VaultState, env: Env, amount: i128) -> bool {
    let total = v.total_value(env.float as int);
    deploy_request_error(v, env, amount) is None ==> {
        &&& strategy::fits_amount(env.float + v.deployed())
        &&& strategy::fits_amount(total)
        &&& strategy::fits_amount(total * v.reserve_bps())
        &&& !breaches_reserve(v, env.float as int, amount as int) ==> {
            &&& strategy::fits_amount(v.deployed() + amount)
            &&& strategy::fits_amount(total * v.max_deploy_bps())
        }
    }
}

/// The extension that keeps a yield entry alive.
pub open spec fn yield_renewal(key: DataKey) -> Effect {
    Effect::ExtendTtl { key, threshold: TTL_EXTEND, extend_to: TTL_EXTEND }
}

/// What a deployment asks of the host: the transfer, then the notice to the strategy.
pub open spec fn deploy_effects(v: VaultState, env: Env, amount: i128) -> Seq<Effect> {
    let strategy = v.yield_strategy->0;
    seq![
        Effect::Transfer {
            token: v.token->0,
            from: env.ledger.contract,
            to: strategy,
            amount,
        },
        Effect::StrategyDeposit { strategy, amount },
        yield_renewal(DataKey::DeployedPrincipal),
        Effect::Publish(Event::YieldDeployed(YieldDeployedEvent { strategy, amount })),
        types::renewal(),
    ]
}

/// The float after a deployment. Tokens sent to the vault itself stay.
pub open spec fn deploy_float(v: VaultState, env: Env, amount: i128) -> int {
    if v.yield_strategy->0 == env.ledger.contract {
        env.float as int
    } else {
        env.float - amount
    }
}

/// What a deployment books.
pub open spec fn deploy_booking(v: VaultState, env: Env, amount: i128) -> history::Booking {
    history::Booking::Deployment {
        amount: amount as int,
        paid: env.float - deploy_float(v, env, amount),
    }
}

/// Why principal cannot be asked back.
pub open spec fn withdraw_yield_error(v: VaultState, env: Env, principal: i128) -> Option<Error> {
    if v.reentrancy_lock {
        Some(Error::ReentrancyBlocked)
    } else if v.paused {
        Some(Error::Paused)
    } else if principal <= 0 {
        Some(Error::InvalidAmount)
    } else if v.merchant_error(env) is Some {
        v.merchant_error(env)
    } else if v.yield_strategy is None {
        Some(Error::StrategyNotSet)
    } else if principal > v.deployed() {
        Some(Error::NothingToWithdraw)
    } else {
        None
    }
}

/// Whether what the strategy returned can be booked without overflow.
pub open spec fn withdrawal_fits(v: VaultState, principal: int, yield_amount: int) -> bool {
    &&& strategy::fits_amount(v.deployed() - principal)
    &&& strategy::fits_amount(v.harvested() + yield_amount)
}

/// The vault after the strategy returned principal and yield.
pub open spec fn after_withdrawal(v: VaultState, principal: int, yield_amount: int) -> VaultState {
    VaultState {
        deployed_principal: Some((v.deployed() - principal) as i128),
        harvested_yield: Some((v.harvested() + yield_amount) as i128),
        ..v
    }
}

/// What booking returned principal and yield asks of the host.
pub open spec fn withdrawal_effects(strategy: Address, principal: i128, yield_amount: i128) -> Seq<
    Effect,
> {
    seq![
        yield_renewal(DataKey::DeployedPrincipal),
        yield_renewal(DataKey::HarvestedYield),
        Effect::Publish(
            Event::YieldWithdrawn(YieldWithdrawnEvent { strategy, principal, yield_amount }),
        ),
        types::renewal(),
    ]
}

/// Why yield cannot be harvested.
pub open spec fn harvest_request_error(v: VaultState, env: Env) -> Option<Error> {
    if v.guarded_error(env) is Some {
        v.guarded_error(env)
    } else if v.yield_strategy is None {
        Some(Error::StrategyNotSet)
    } else {
        None
    }
}

/// What booking harvested yield asks of the host.
pub open spec fn harvest_effects(amount: i128) -> Seq<Effect> {
    seq![
        yield_renewal(DataKey::HarvestedYield),
        Effect::Publish(Event::YieldHarvested(YieldHarvestedEvent { amount })),
        types::renewal(),
    ]
}

/// Why a ratio is refused.
pub open spec fn set_ratio_error(v: VaultState, env: Env, basis_points: u32) -> Option<Error> {
    if basis_points > BASIS_POINTS {
        Some(Error::InvalidRatio)
    } else {
        v.merchant_error(env)
    }
}

/// `bps` basis points of `total`, rounded towards zero.
fn share(total: i128, bps: u32) -> (r: i128)
    requires
        strategy::fits_amount(total * bps),
    ensures
        r == share_of(total as int, bps as int),
{
    total * bps as i128 / 10_000
}

/// How the strategy is registered.
pub open spec fn set_yield_strategy_outcome(
    pre: RefundVault,
    env: Env,
    strategy: Address,
    r: Result<(), Error>,
    post: RefundVault,
    post_env: Env,
) -> bool {
    types::concludes(
        pre,
        env,
        pre@.merchant_error(env),
        (VaultState { yield_strategy: Some(strategy), ..pre@ }),
        env.float as int,
        seq![yield_renewal(DataKey::YieldStrategy), types::renewal()],
        history::Booking::Nothing,
        r,
        post,
        post_env,
    )
}

/// How the share that stays liquid is set.
pub open spec fn set_reserve_ratio_outcome(
    pre: RefundVault,
    env: Env,
    basis_points: u32,
    r: Result<(), Error>,
    post: RefundVault,
    post_env: Env,
) -> bool {
    types::concludes(
        pre,
        env,
        set_ratio_error(pre@, env, basis_points),
        (VaultState { reserve_ratio: Some(basis_points), ..pre@ }),
        env.float as int,
        seq![yield_renewal(DataKey::ReserveRatio), types::renewal()],
        history::Booking::Nothing,
        r,
        post,
        post_env,
    )
}

/// How the share that may be deployed is set.
pub open spec fn set_max_deploy_ratio_outcome(
    pre: RefundVault,
    env: Env,
    basis_points: u32,
    r: Result<(), Error>,
    post: RefundVault,
    post_env: Env,
) -> bool {
    types::concludes(
        pre,
        env,
        set_ratio_error(pre@, env, basis_points),
        (VaultState { max_deploy_ratio: Some(basis_points), ..pre@ }),
        env.float as int,
        seq![yield_renewal(DataKey::MaxDeployRatio), types::renewal()],
        history::Booking::Nothing,
        r,
        post,
        post_env,
    )
}

/// How float is deployed.
pub open spec fn deploy_to_yield_outcome(
    pre: RefundVault,
    env: Env,
    amount: i128,
    r: Result<(), Error>,
    post: RefundVault,
    post_env: Env,
) -> bool {
    types::concludes(
        pre,
        env,
        deploy_error(pre@, env, amount),
        (VaultState {
            deployed_principal: Some((pre@.deployed() + amount) as i128),
            ..pre@
        }),
        deploy_float(pre@, env, amount),
        types::under_lock(deploy_effects(pre@, env, amount)),
        deploy_booking(pre@, env, amount),
        r,
        post,
        post_env,
    )
}

/// How what the strategy returned is booked.
pub open spec fn settle_withdrawal_outcome(
    pre: RefundVault,
    env: Env,
    strategy: Address,
    principal: i128,
    yield_amount: i128,
    post: RefundVault,
    post_env: Env,
) -> bool {
    &&& pre@.evolves_to(post@)
    &&& post@ == after_withdrawal(pre@, principal as int, yield_amount as int)
    &&& env.advanced(
        post_env,
        env.float as int,
        withdrawal_effects(strategy, principal, yield_amount),
    )
    &&& history::books(
        pre@,
        env.float as int,
        (history::Booking::YieldReturn {
            principal: principal as int,
            yield_amount: yield_amount as int,
        }),
        post@,
        env.float + principal + yield_amount,
    )
}

/// How principal is asked back from the strategy, whose reply is booked.
pub open spec fn withdraw_from_yield_outcome<S: YieldStrategy>(
    pre: RefundVault,
    env: Env,
    model: S::Model,
    principal: i128,
    r: Result<(), Error>,
    post: RefundVault,
    post_env: Env,
    post_model: S::Model,
) -> bool {
    let strategy = pre.yield_strategy->0;
    let reply = S::withdraw_reply(model, strategy, principal);
    &&& post_model == match r {
        Ok(()) => S::after_withdraw(model, strategy, principal),
        Err(_) => model,
    }
    &&& types::concludes(
        pre,
        env,
        if withdraw_yield_error(pre@, env, principal) is Some {
            withdraw_yield_error(pre@, env, principal)
        } else {
            reply.err()
        },
        after_withdrawal(pre@, reply->Ok_0.0 as int, reply->Ok_0.1 as int),
        env.float as int,
        types::under_lock(withdrawal_effects(strategy, reply->Ok_0.0, reply->Ok_0.1)),
        (history::Booking::YieldReturn {
            principal: reply->Ok_0.0 as int,
            yield_amount: reply->Ok_0.1 as int,
        }),
        r,
        post,
        post_env,
    )
}

/// How harvested yield is booked.
pub open spec fn settle_harvest_outcome(
    pre: RefundVault,
    env: Env,
    amount: i128,
    r: Result<(), Error>,
    post: RefundVault,
    post_env: Env,
) -> bool {
    types::concludes(
        pre,
        env,
        if amount <= 0 {
            Some(Error::NothingToHarvest)
        } else {
            None
        },
        (VaultState { harvested_yield: Some((pre@.harvested() + amount) as i128), ..pre@ }),
        env.float as int,
        harvest_effects(amount),
        (history::Booking::YieldReturn { principal: 0, yield_amount: amount as int }),
        r,
        post,
        post_env,
    )
}

/// How the strategy is asked for its yield, and its reply booked.
pub open spec fn harvest_yield_outcome<S: YieldStrategy>(
    pre: RefundVault,
    env: Env,
    model: S::Model,
    r: Result<(), Error>,
    post: RefundVault,
    post_env: Env,
    post_model: S::Model,
) -> bool {
    let reply = S::harvest_reply(model, pre.yield_strategy->0);
    &&& post_model == match r {
        Ok(()) => S::after_harvest(model, pre.yield_strategy->0),
        Err(_) => model,
    }
    &&& types::concludes(
        pre,
        env,
        if harvest_request_error(pre@, env) is Some {
            harvest_request_error(pre@, env)
        } else if reply is Err {
            reply.err()
        } else if reply->Ok_0 <= 0 {
            Some(Error::NothingToHarvest)
        } else {
            None
        },
        (VaultState {
            harvested_yield: Some((pre@.harvested() + reply->Ok_0) as i128),
            ..pre@
        }),
        env.float as int,
        types::under_lock(harvest_effects(reply->Ok_0)),
        (history::Booking::YieldReturn { principal: 0, yield_amount: reply->Ok_0 as int }),
        r,
        post,
        post_env,
    )
}

impl RefundVault {
    fn deployed_or_zero(&self) -> (r: i128)
        ensures
            r == self@.deployed(),
    {
        match self.deployed_principal {
            Some(deployed) => deployed,
            None => 0,
        }
    }

    fn harvested_or_zero(&self) -> (r: i128)
        ensures
            r == self@.harvested(),
    {
        match self.harvested_yield {
            Some(harvested) => harvested,
            None => 0,
        }
    }

    fn reserve_or_default(&self) -> (r: u32)
        ensures
            r == self@.reserve_bps(),
    {
        match self.reserve_ratio {
            Some(ratio) => ratio,
            None => 0,
        }
    }

    fn max_deploy_or_default(&self) -> (r: u32)
        ensures
            r == self@.max_deploy_bps(),
    {
        match self.max_deploy_ratio {
            Some(ratio) => ratio,
            None => BASIS_POINTS,
        }
    }

    /// Registers the yield strategy.
    pub fn set_yield_strategy(&mut self, env: &mut Env, strategy: Address) -> (r: Result<(), Error>)
        requires
            old(self).wf(),
        ensures
            final(self).wf(),
            set_yield_strategy_outcome(
                *old(self),
                *old(env),
                strategy,
                r,
                *final(self),
                *final(env),
            ),
    {
        assert(env.effects@ =~= old(env).effects@ + Seq::<Effect>::empty());
        if let Err(e) = self.require_merchant(env) {
            return Err(e);
        }
        self.yield_strategy = Some(strategy);
        persist_yield_ttl(env, DataKey::YieldStrategy);
        env.renew_instance();
        assert(env.effects@ =~= old(env).effects@ + seq![
            yield_renewal(DataKey::YieldStrategy),
            types::renewal(),
        ]);
        Ok(())
    }

    /// Sets the share of the total value that must stay liquid, in basis points.
    pub fn set_reserve_ratio(&mut self, env: &mut Env, basis_points: u32) -> (r: Result<(), Error>)
        requires
            old(self).wf(),
        ensures
            final(self).wf(),
            set_reserve_ratio_outcome(
                *old(self),
                *old(env),
                basis_points,
                r,
                *final(self),
                *final(env),
            ),
    {
        assert(env.effects@ =~= old(env).effects@ + Seq::<Effect>::empty());
        if basis_points > BASIS_POINTS {
            return Err(Error::InvalidRatio);
        }
        if let Err(e) = self.require_merchant(env) {
            return Err(e);
        }
        self.reserve_ratio = Some(basis_points);
        persist_yield_ttl(env, DataKey::ReserveRatio);
        env.renew_instance();
        assert(env.effects@ =~= old(env).effects@ + seq![
            yield_renewal(DataKey::ReserveRatio),
            types::renewal(),
        ]);
        Ok(())
    }

    /// Sets the share of the total value that may be deployed, in basis points.
    pub fn set_max_deploy_ratio(&mut self, env: &mut Env, basis_points: u32) -> (r: Result<
        (),
        Error,
    >)
        requires
            old(self).wf(),
        ensures
            final(self).wf(),
            set_max_deploy_ratio_outcome(
                *old(self),
                *old(env),
                basis_points,
                r,
                *final(self),
                *final(env),
            ),
    {
        assert(env.effects@ =~= old(env).effects@ + Seq::<Effect>::empty());
        if basis_points > BASIS_POINTS {
            return Err(Error::InvalidRatio);
        }
        if let Err(e) = self.require_merchant(env) {
            return Err(e);
        }
        self.max_deploy_ratio = Some(basis_points);
        persist_yield_ttl(env, DataKey::MaxDeployRatio);
        env.renew_instance();
        assert(env.effects@ =~= old(env).effects@ + seq![
            yield_renewal(DataKey::MaxDeployRatio),
            types::renewal(),
        ]);
        Ok(())
    }

    /// Whether the ratios of a deployment can be computed without overflow; see
    /// [`deploy_computable`].
    pub fn deploy_in_range(&self, env: &Env, amount: i128) -> (r: bool)
        requires
            self.wf(),
        ensures
            r == deploy_computable(self@, *env, amount),
    {
        if self.reentrancy_lock || self.check_deploy_request(env, amount).is_err() {
            return true;
        }
        let total: i128 = match env.float.checked_add(self.deployed_or_zero()) {
            None => return false,
            Some(sum) => match sum.checked_sub(self.harvested_or_zero()) {
                None => return false,
                Some(total) => total,
            },
        };
        let reserve: u32 = self.reserve_or_default();
        let max_deploy: u32 = self.max_deploy_or_default();
        if total.checked_mul(reserve as i128).is_none() {
            return false;
        }
        env.float - amount < share(total, reserve) || (self.deployed_or_zero().checked_add(
            amount,
        ).is_some() && total.checked_mul(max_deploy as i128).is_some())
    }

    fn check_deploy_request(&self, env: &Env, amount: i128) -> (r: Result<Address, Error>)
        ensures
            match deploy_request_error(
                (VaultState { reentrancy_lock: false, ..self@ }),
                *env,
                amount,
            ) {
                Some(e) => r == Err::<Address, Error>(e),
                None => r == Ok::<Address, Error>(self.yield_strategy->0),
            },
    {
        if self.paused {
            return Err(Error::Paused);
        }
        if amount <= 0 {
            return Err(Error::InvalidAmount);
        }
        if let Err(e) = self.require_merchant(env) {
            return Err(e);
        }
        let strategy = match self.yield_strategy {
            None => return Err(Error::StrategyNotSet),
            Some(strategy) => strategy,
        };
        if env.float < amount {
            return Err(Error::InsufficientFloat);
        }
        Ok(strategy)
    }

    /// Deploys idle float to the strategy, within the reserve and the largest share.
    pub fn deploy_to_yield(&mut self, env: &mut Env, amount: i128) -> (r: Result<(), Error>)
        requires
            old(self).wf(),
            deploy_computable(old(self)@, *old(env), amount),
        ensures
            final(self).wf(),
            deploy_to_yield_outcome(*old(self), *old(env), amount, r, *final(self), *final(env)),
    {
        assert(env.effects@ =~= old(env).effects@ + Seq::<Effect>::empty());
        if let Err(e) = self.acquire_reentrancy_lock(env) {
            return Err(e);
        }
        let result = self.deploy_locked(env, amount);
        proof {
            types::lemma_guarded_effects(old(env).effects@);
        }
        self.release_reentrancy_lock(env, result)
    }

    fn deploy_locked(&mut self, env: &mut Env, amount: i128) -> (r: Result<(), Error>)
        requires
            old(self).reentrancy_lock,
            old(self).wf(),
            deploy_computable(
                (VaultState { reentrancy_lock: false, ..old(self)@ }),
                *old(env),
                amount,
            ),
        ensures
            final(self).wf(),
            types::concludes(
                *old(self),
                *old(env),
                deploy_error(
                    (VaultState { reentrancy_lock: false, ..old(self)@ }),
                    *old(env),
                    amount,
                ),
                (VaultState {
                    deployed_principal: Some((old(self)@.deployed() + amount) as i128),
                    ..old(self)@
                }),
                deploy_float(old(self)@, *old(env), amount),
                deploy_effects(old(self)@, *old(env), amount),
                deploy_booking(old(self)@, *old(env), amount),
                r,
                *final(self),
                *final(env),
            ),
    {
        assert(env.effects@ =~= old(env).effects@ + Seq::<Effect>::empty());
        let strategy = match self.check_deploy_request(env, amount) {
            Err(e) => return Err(e),
            Ok(strategy) => strategy,
        };
        let deployed: i128 = self.deployed_or_zero();
        let total: i128 = env.float + deployed - self.harvested_or_zero();
        if env.float - amount < share(total, self.reserve_or_default()) {
            return Err(Error::InsufficientReserve);
        }
        if deployed + amount > share(total, self.max_deploy_or_default()) {
            return Err(Error::DeploymentExceedsMax);
        }
        let contract = env.ledger.contract;
        env.ask(
            Effect::Transfer { token: self.token.unwrap(), from: contract, to: strategy, amount },
        );
        env.ask(Effect::StrategyDeposit { strategy, amount });
        if strategy != contract {
            env.float = env.float - amount;
        }
        self.deployed_principal = Some(deployed + amount);
        persist_yield_ttl(env, DataKey::DeployedPrincipal);
        env.publish(Event::YieldDeployed(YieldDeployedEvent { strategy, amount }));
        env.renew_instance();
        assert(env.effects@ =~= old(env).effects@ + deploy_effects(
            old(self)@,
            *old(env),
            amount,
        ));
        Ok(())
    }

    /// Books what the strategy returned: `principal` leaves the deployed principal,
    /// `yield_amount` joins the harvested yield.
    pub fn settle_withdrawal(
        &mut self,
        env: &mut Env,
        strategy: Address,
        principal: i128,
        yield_amount: i128,
    )
        requires
            old(self).wf(),
            withdrawal_fits(old(self)@, principal as int, yield_amount as int),
        ensures
            final(self).wf(),
            settle_withdrawal_outcome(
                *old(self),
                *old(env),
                strategy,
                principal,
                yield_amount,
                *final(self),
                *final(env),
            ),
    {
        self.deployed_principal = Some(self.deployed_or_zero() - principal);
        self.harvested_yield = Some(self.harvested_or_zero() + yield_amount);
        persist_yield_ttl(env, DataKey::DeployedPrincipal);
        persist_yield_ttl(env, DataKey::HarvestedYield);
        env.publish(
            Event::YieldWithdrawn(YieldWithdrawnEvent { strategy, principal, yield_amount }),
        );
        env.renew_instance();
        assert(env.effects@ =~= old(env).effects@ + withdrawal_effects(
            strategy,
            principal,
            yield_amount,
        ));
    }

    /// Asks principal back from the strategy, which returns it with its share of the
    /// yield. An error of the strategy is passed on. A refused call leaves the vault and
    /// the strategies unchanged. The strategy is called with the reentrancy flag set.
    pub fn withdraw_from_yield<S: YieldStrategy>(
        &mut self,
        env: &mut Env,
        strategies: &mut S,
        principal: i128,
    ) -> (r: Result<(), Error>)
        requires
            old(self).wf(),
            withdraw_yield_error(old(self)@, *old(env), principal) is None ==> {
                let strategy = old(self).yield_strategy->0;
                let model = old(strategies).model();
                &&& S::can_withdraw(model, strategy, principal)
                &&& S::withdraw_reply(model, strategy, principal) matches Ok((p, y))
                    ==> withdrawal_fits(old(self)@, p as int, y as int)
            },
        ensures
            final(self).wf(),
            withdraw_from_yield_outcome::<S>(
                *old(self),
                *old(env),
                old(strategies).model(),
                principal,
                r,
                *final(self),
                *final(env),
                final(strategies).model(),
            ),
    {
        assert(env.effects@ =~= old(env).effects@ + Seq::<Effect>::empty());
        if let Err(e) = self.acquire_reentrancy_lock(env) {
            return Err(e);
        }
        let result = match self.check_withdraw_request(env, principal) {
            Err(e) => Err(e),
            Ok(strategy) => match strategies.withdraw(&*self, strategy, principal) {
                Err(e) => Err(e),
                Ok((returned, yield_amount)) => {
                    self.settle_withdrawal(env, strategy, returned, yield_amount);
                    Ok(())
                },
            },
        };
        proof {
            types::lemma_guarded_effects(old(env).effects@);
        }
        self.release_reentrancy_lock(env, result)
    }

    fn check_withdraw_request(&self, env: &Env, principal: i128) -> (r: Result<Address, Error>)
        ensures
            match withdraw_yield_error(
                (VaultState { reentrancy_lock: false, ..self@ }),
                *env,
                principal,
            ) {
                Some(e) => r == Err::<Address, Error>(e),
                None => r == Ok::<Address, Error>(self.yield_strategy->0),
            },
    {
        if self.paused {
            return Err(Error::Paused);
        }
        if principal <= 0 {
            return Err(Error::InvalidAmount);
        }
        if let Err(e) = self.require_merchant(env) {
            return Err(e);
        }
        let strategy = match self.yield_strategy {
            None => return Err(Error::StrategyNotSet),
            Some(strategy) => strategy,
        };
        if principal > self.deployed_or_zero() {
            return Err(Error::NothingToWithdraw);
        }
        Ok(strategy)
    }

    /// Books harvested yield; nothing harvested is an error.
    pub fn settle_harvest(&mut self, env: &mut Env, amount: i128) -> (r: Result<(), Error>)
        requires
            old(self).wf(),
            amount > 0 ==> strategy::fits_amount(old(self)@.harvested() + amount),
        ensures
            final(self).wf(),
            settle_harvest_outcome(*old(self), *old(env), amount, r, *final(self), *final(env)),
    {
        assert(env.effects@ =~= old(env).effects@ + Seq::<Effect>::empty());
        if amount <= 0 {
            return Err(Error::NothingToHarvest);
        }
        self.harvested_yield = Some(self.harvested_or_zero() + amount);
        persist_yield_ttl(env, DataKey::HarvestedYield);
        env.publish(Event::YieldHarvested(YieldHarvestedEvent { amount }));
        env.renew_instance();
        assert(env.effects@ =~= old(env).effects@ + harvest_effects(amount));
        Ok(())
    }

    /// Harvests the accrued yield without touching deployed principal. An error of the
    /// strategy is passed on. A refused call leaves the vault and the strategies unchanged.
    /// The strategy is called with the reentrancy flag set.
    pub fn harvest_yield<S: YieldStrategy>(&mut self, env: &mut Env, strategies: &mut S) -> (r:
        Result<(), Error>)
        requires
            old(self).wf(),
            harvest_request_error(old(self)@, *old(env)) is None ==> {
                let strategy = old(self).yield_strategy->0;
                let model = old(strategies).model();
                &&& S::can_harvest(model, strategy)
                &&& S::harvest_reply(model, strategy) matches Ok(amount) ==> (amount > 0
                    ==> strategy::fits_amount(old(self)@.harvested() + amount))
            },
        ensures
            final(self).wf(),
            harvest_yield_outcome::<S>(
                *old(self),
                *old(env),
                old(strategies).model(),
                r,
                *final(self),
                *final(env),
                final(strategies).model(),
            ),
    {
        assert(env.effects@ =~= old(env).effects@ + Seq::<Effect>::empty());
        if let Err(e) = self.acquire_reentrancy_lock(env) {
            return Err(e);
        }
        let result = match self.require_open(env) {
            Err(e) => Err(e),
            Ok(_) => match self.yield_strategy {
                None => Err(Error::StrategyNotSet),
                Some(strategy) => match strategies.harvest(&*self, strategy) {
                    Err(e) => Err(e),
                    Ok(amount) => self.settle_harvest(env, amount),
                },
            },
        };
        proof {
            types::lemma_guarded_effects(old(env).effects@);
        }
        self.release_reentrancy_lock(env, result)
    }

    /// State of the yield deployment.
    pub fn get_yield_info(&self) -> (r: YieldInfo)
        ensures
            r == (YieldInfo {
                deployed_principal: self@.deployed(),
                harvested_yield: self@.harvested(),
                strategy: self.yield_strategy,
                reserve_ratio: self@.reserve_bps(),
                max_deploy_ratio: self@.max_deploy_bps(),
            }),
    {
        YieldInfo {
            deployed_principal: self.deployed_or_zero(),
            harvested_yield: self.harvested_or_zero(),
            strategy: self.yield_strategy,
            reserve_ratio: self.reserve_or_default(),
            max_deploy_ratio: self.max_deploy_or_default(),
        }
    }
}

/// Keeps a yield entry alive.
fn persist_yield_ttl(env: &mut Env, key: DataKey)
    ensures
        old(env).advanced(*final(env), old(env).float as int, seq![yield_renewal(key)]),
{
    env.ask(Effect::ExtendTtl { key, threshold: TTL_EXTEND, extend_to: TTL_EXTEND });
}

} // verus!
