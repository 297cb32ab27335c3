//! The refund policy: window, deadline and delay under a timelock, and the oracles.

use super::history;
use super::oracle;
use super::oracle::{Oracle, OraclePolicy};
use super::types;
use super::types::{
    Effect, Env, Event, OraclePolicyClearedEvent, OraclePolicySetEvent, PolicyExecutedEvent,
    PolicyProposal, PolicyProposedEvent, RefundVault, RefundWindowUpdatedEvent, VaultState,
    VdfProof, POLICY_TIMELOCK,
};
use super::vdf;
use crate::error::Error;
use crate::primitives::{Address, BytesN};
use vstd::prelude::*;

verus! {

/// Why the pending policy cannot be executed.
pub open spec fn execute_error(v: VaultState, env: Env) -> Option<Error> {
    if v.merchant_error(env) is Some {
        v.merchant_error(env)
    } else if v.pending_policy is None {
        Some(Error::NoPendingPolicy)
    } else if env.ledger.sequence < v.pending_policy->0.proposed_at_ledger + POLICY_TIMELOCK {
        Some(Error::TimelockNotExpired)
    } else {
        None
    }
}

/// What executing a policy publishes.
pub open spec fn execute_effects(v: VaultState) -> Seq<Effect> {
    let policy = v.pending_policy->0;
    seq![
        Effect::Publish(
            Event::RefundWindowUpdated(
                RefundWindowUpdatedEvent {
                    previous_window: v.window(),
                    new_window: policy.window,
                },
            ),
        ),
        Effect::Publish(
            Event::PolicyExecuted(
                PolicyExecutedEvent { window: policy.window, deadline: policy.deadline },
            ),
        ),
        types::renewal(),
    ]
}

/// The whitelist; none reads as empty.
pub open spec fn whitelist(v: VaultState) -> Seq<Address> {
    match v.oracles {
        Some(list) => list,
        None => Seq::empty(),
    }
}

/// Why an oracle cannot be added.
pub open spec fn add_oracle_error(v: VaultState, env: Env, oracle: Address) -> Option<Error> {
    if v.merchant_error(env) is Some {
        v.merchant_error(env)
    } else if whitelist(v).contains(oracle) {
        Some(Error::OracleAlreadyAdded)
    } else {
        None
    }
}

/// Why an oracle cannot be removed.
pub open spec fn remove_oracle_error(v: VaultState, env: Env, oracle: Address) -> Option<Error> {
    if v.merchant_error(env) is Some {
        v.merchant_error(env)
    } else if v.oracles is None {
        Some(Error::NoOraclesConfigured)
    } else if !whitelist(v).contains(oracle) {
        Some(Error::OracleNotFound)
    } else {
        None
    }
}

/// Why the oracle policy cannot be removed.
pub open spec fn clear_policy_error(v: VaultState, env: Env) -> Option<Error> {
    if v.merchant_error(env) is Some {
        v.merchant_error(env)
    } else if v.oracle_policy is None {
        Some(Error::NoOraclePolicy)
    } else {
        None
    }
}

/// Where `who` stands in the list.
fn position(list: &Vec<Address>, who: Address) -> (r: Option<usize>)
    ensures
        match r {
            Some(i) => i < list.len() && list@[i as int] == who,
            None => !list@.contains(who),
        },
{
    let mut i: usize = 0;
    while i < list.len()
        invariant
            i <= list.len(),
            forall|k: int| 0 <= k < i ==> list@[k] != who,
        decreases list.len() - i,
    {
        if list[i] == who {
            return Some(i);
        }
        i = i + 1;
    }
    None
}

/// How a policy is proposed: as it is, from the current ledger.
pub open spec fn propose_policy_outcome(
    pre: RefundVault,
    env: Env,
    ledgers: u32,
    deadline: u64,
    vdf_delay: u32,
    r: Result<(), Error>,
    post: RefundVault,
    post_env: Env,
) -> bool {
    types::concludes(
        pre,
        env,
        pre@.merchant_error(env),
        (VaultState {
            pending_policy: Some(
                PolicyProposal {
                    window: ledgers,
                    deadline,
                    vdf_delay,
                    proposed_at_ledger: env.ledger.sequence,
                },
            ),
            ..pre@
        }),
        env.float as int,
        seq![
            Effect::Publish(
                Event::PolicyProposed(
                    PolicyProposedEvent {
                        window: ledgers,
                        deadline,
                        proposed_at_ledger: env.ledger.sequence,
                        execute_after_ledger: (env.ledger.sequence
                            + POLICY_TIMELOCK) as u32,
                    },
                ),
            ),
            types::renewal(),
        ],
        history::Booking::Nothing,
        r,
        post,
        post_env,
    )
}

/// How the pending policy takes effect.
pub open spec fn execute_policy_outcome(
    pre: RefundVault,
    env: Env,
    r: Result<(), Error>,
    post: RefundVault,
    post_env: Env,
) -> bool {
    types::concludes(
        pre,
        env,
        execute_error(pre@, env),
        (VaultState {
            refund_window: Some(pre.pending_policy->0.window),
            refund_deadline: pre.pending_policy->0.deadline,
            vdf_delay: pre.pending_policy->0.vdf_delay,
            pending_policy: None,
            ..pre@
        }),
        env.float as int,
        execute_effects(pre@),
        history::Booking::Nothing,
        r,
        post,
        post_env,
    )
}

/// How an oracle joins the whitelist: last.
pub open spec fn add_oracle_outcome(
    pre: RefundVault,
    env: Env,
    oracle: Address,
    r: Result<(), Error>,
    post: RefundVault,
    post_env: Env,
) -> bool {
    types::concludes(
        pre,
        env,
        add_oracle_error(pre@, env, oracle),
        (VaultState { oracles: Some(whitelist(pre@).push(oracle)), ..pre@ }),
        env.float as int,
        seq![types::renewal()],
        history::Booking::Nothing,
        r,
        post,
        post_env,
    )
}

/// How an oracle leaves the whitelist: the others keep their order.
pub open spec fn remove_oracle_outcome(
    pre: RefundVault,
    env: Env,
    oracle: Address,
    r: Result<(), Error>,
    post: RefundVault,
    post_env: Env,
) -> bool {
    types::concludes(
        pre,
        env,
        remove_oracle_error(pre@, env, oracle),
        (VaultState {
            oracles: Some(
                whitelist(pre@).remove(whitelist(pre@).index_of(oracle)),
            ),
            ..pre@
        }),
        env.float as int,
        seq![types::renewal()],
        history::Booking::Nothing,
        r,
        post,
        post_env,
    )
}

/// How an oracle policy is installed.
pub open spec fn set_oracle_policy_outcome(
    pre: RefundVault,
    env: Env,
    policy: OraclePolicy,
    r: Result<(), Error>,
    post: RefundVault,
    post_env: Env,
) -> bool {
    types::concludes(
        pre,
        env,
        pre@.merchant_error(env),
        (VaultState { oracle_policy: Some(policy), ..pre@ }),
        env.float as int,
        seq![
            Effect::Publish(
                Event::OraclePolicySet(
                    OraclePolicySetEvent {
                        feed_id: policy.feed_id,
                        threshold: policy.threshold,
                        refund_when_below: policy.refund_when_below,
                        max_staleness_ledgers: policy.max_staleness_ledgers,
                    },
                ),
            ),
            types::renewal(),
        ],
        history::Booking::Nothing,
        r,
        post,
        post_env,
    )
}

/// How the oracle policy is removed.
pub open spec fn clear_oracle_policy_outcome(
    pre: RefundVault,
    env: Env,
    r: Result<(), Error>,
    post: RefundVault,
    post_env: Env,
) -> bool {
    types::concludes(
        pre,
        env,
        clear_policy_error(pre@, env),
        (VaultState { oracle_policy: None, ..pre@ }),
        env.float as int,
        seq![
            Effect::Publish(
                Event::OraclePolicyCleared(
                    OraclePolicyClearedEvent {
                        feed_id: pre.oracle_policy->0.feed_id,
                    },
                ),
            ),
            types::renewal(),
        ],
        history::Booking::Nothing,
        r,
        post,
        post_env,
    )
}

impl RefundVault {
    /// Proposes a refund policy: a window in ledgers, a Unix deadline and a delay in
    /// squarings, each 0 for none. It can be executed after the timelock, and replaces
    /// any pending proposal.
    ///
    /// The end of the timelock has to be a valid ledger number.
    pub fn propose_policy(
        &mut self,
        env: &mut Env,
        ledgers: u32,
        deadline: u64,
        vdf_delay: u32,
    ) -> (r: Result<(), Error>)
        requires
            old(self).wf(),
            old(self)@.merchant_error(*old(env)) is None ==> old(env).ledger.sequence
                + POLICY_TIMELOCK <= u32::MAX,
        ensures
            final(self).wf(),
            propose_policy_outcome(
                *old(self),
                *old(env),
                ledgers,
                deadline,
                vdf_delay,
                r,
                *final(self),
                *final(env),
            ),
    {
        assert(env.effects@ =~= old(env).effects@ + Seq::<Effect>::empty());
        if let Err(e) = self.require_merchant(env) {
            return Err(e);
        }
        let sequence: u32 = env.ledger.sequence;
        self.pending_policy = Some(
            PolicyProposal { window: ledgers, deadline, vdf_delay, proposed_at_ledger: sequence },
        );
        let event = PolicyProposedEvent {
            window: ledgers,
            deadline,
            proposed_at_ledger: sequence,
            execute_after_ledger: sequence + POLICY_TIMELOCK,
        };
        env.publish(Event::PolicyProposed(event));
        env.renew_instance();
        assert(env.effects@ =~= old(env).effects@ + seq![
            Effect::Publish(Event::PolicyProposed(event)),
            types::renewal(),
        ]);
        Ok(())
    }

    /// Applies the pending policy once its timelock has elapsed.
    pub fn execute_policy(&mut self, env: &mut Env) -> (r: Result<(), Error>)
        requires
            old(self).wf(),
        ensures
            final(self).wf(),
            execute_policy_outcome(*old(self), *old(env), r, *final(self), *final(env)),
    {
        assert(env.effects@ =~= old(env).effects@ + Seq::<Effect>::empty());
        if let Err(e) = self.require_merchant(env) {
            return Err(e);
        }
        let policy = match self.pending_policy {
            None => return Err(Error::NoPendingPolicy),
            Some(policy) => policy,
        };
        if env.ledger.sequence < policy.proposed_at_ledger + POLICY_TIMELOCK {
            return Err(Error::TimelockNotExpired);
        }
        let previous_window: u32 = self.refund_window.unwrap();
        self.refund_window = Some(policy.window);
        self.refund_deadline = policy.deadline;
        self.vdf_delay = policy.vdf_delay;
        self.pending_policy = None;
        env.publish(
            Event::RefundWindowUpdated(
                RefundWindowUpdatedEvent { previous_window, new_window: policy.window },
            ),
        );
        env.publish(
            Event::PolicyExecuted(
                PolicyExecutedEvent { window: policy.window, deadline: policy.deadline },
            ),
        );
        env.renew_instance();
        assert(env.effects@ =~= old(env).effects@ + execute_effects(old(self)@));
        Ok(())
    }

    /// The pending policy, if any.
    pub fn get_pending_policy(&self) -> (r: Option<PolicyProposal>)
        ensures
            r == self.pending_policy,
    {
        self.pending_policy
    }

    /// Ledgers between the proposal of a policy and its execution.
    pub fn get_policy_timelock() -> (r: u32)
        ensures
            r == POLICY_TIMELOCK,
    {
        POLICY_TIMELOCK
    }

    /// The refund window in ledgers; 0 means no bound.
    pub fn get_refund_window(&self) -> (r: Result<u32, Error>)
        ensures
            match self.refund_window {
                Some(window) => r == Ok::<u32, Error>(window),
                None => r == Err::<u32, Error>(Error::NotInitialized),
            },
    {
        match self.refund_window {
            Some(window) => Ok(window),
            None => Err(Error::NotInitialized),
        }
    }

    /// The policy deadline as a Unix timestamp; 0 means none.
    pub fn get_refund_deadline(&self) -> (r: u64)
        ensures
            r == self.refund_deadline,
    {
        self.refund_deadline
    }

    /// The policy's delay in squarings; 0 means no proof is required.
    pub fn get_vdf_delay(&self) -> (r: u32)
        ensures
            r == self.vdf_delay,
    {
        self.vdf_delay
    }

    /// Verifies a delay proof that `output = challenge^(2^delay) mod N`, for anyone.
    pub fn verify_vdf(challenge: BytesN<128>, delay: u32, proof: VdfProof) -> (r: Result<
        (),
        Error,
    >)
        ensures
            r == (if vdf::vdf_accepts(challenge@, delay, proof.output@, proof.proof@) {
                Ok::<(), Error>(())
            } else {
                Err::<(), Error>(Error::InvalidVdfProof)
            }),
    {
        vdf::verify_vdf(&challenge.bytes, delay, &proof.output.bytes, &proof.proof.bytes)
    }

    /// Whitelists an oracle.
    pub fn add_oracle(&mut self, env: &mut Env, oracle: Address) -> (r: Result<(), Error>)
        requires
            old(self).wf(),
        ensures
            final(self).wf(),
            add_oracle_outcome(*old(self), *old(env), oracle, r, *final(self), *final(env)),
    {
        assert(env.effects@ =~= old(env).effects@ + Seq::<Effect>::empty());
        if let Err(e) = self.require_merchant(env) {
            return Err(e);
        }
        if let Some(list) = &self.oracles {
            if position(list, oracle).is_some() {
                return Err(Error::OracleAlreadyAdded);
            }
        }
        let mut list: Vec<Address> = match self.oracles.take() {
            Some(list) => list,
            None => Vec::new(),
        };
        list.push(oracle);
        self.oracles = Some(list);
        env.renew_instance();
        Ok(())
    }

    /// Removes an oracle from the whitelist.
    pub fn remove_oracle(&mut self, env: &mut Env, oracle: Address) -> (r: Result<(), Error>)
        requires
            old(self).wf(),
        ensures
            final(self).wf(),
            remove_oracle_outcome(*old(self), *old(env), oracle, r, *final(self), *final(env)),
    {
        assert(env.effects@ =~= old(env).effects@ + Seq::<Effect>::empty());
        if let Err(e) = self.require_merchant(env) {
            return Err(e);
        }
        let index: usize = match &self.oracles {
            None => return Err(Error::NoOraclesConfigured),
            Some(list) => match position(list, oracle) {
                None => return Err(Error::OracleNotFound),
                Some(index) => index,
            },
        };
        let mut list: Vec<Address> = match self.oracles.take() {
            Some(list) => list,
            None => Vec::new(),
        };
        list.remove(index);
        self.oracles = Some(list);
        env.renew_instance();
        Ok(())
    }

    /// The oracle whitelist, in insertion order.
    pub fn get_oracles(&self) -> (r: Vec<Address>)
        ensures
            r@ == whitelist(self@),
    {
        let mut copy: Vec<Address> = Vec::new();
        if let Some(list) = &self.oracles {
            let mut i: usize = 0;
            while i < list.len()
                invariant
                    i <= list.len(),
                    copy@ == list@.take(i as int),
                decreases list.len() - i,
            {
                copy.push(list[i]);
                i = i + 1;
                assert(copy@ =~= list@.take(i as int));
            }
            assert(copy@ =~= list@);
        }
        copy
    }

    /// The median of the fresh values that the whitelisted oracles report for a feed.
    pub fn get_median_price<O: Oracle>(
        &self,
        env: &Env,
        feeds: &O,
        feed_id: BytesN<32>,
        max_staleness_ledgers: u32,
    ) -> (r: Result<i128, Error>)
        requires
            oracle::median_computable(
                *feeds,
                self@.oracles,
                feed_id,
                max_staleness_ledgers,
                env.ledger.sequence,
            ),
        ensures
            match oracle::median_answer(
                *feeds,
                self@.oracles,
                feed_id,
                max_staleness_ledgers,
                env.ledger.sequence,
            ) {
                Ok(m) => r is Ok && r->Ok_0 == m,
                Err(e) => r == Err::<i128, Error>(e),
            },
    {
        oracle::median_price(
            feeds,
            &self.oracles,
            feed_id,
            max_staleness_ledgers,
            env.ledger.sequence,
        )
    }

    /// Installs or replaces the oracle policy that gates refunds.
    pub fn set_oracle_policy(&mut self, env: &mut Env, policy: OraclePolicy) -> (r: Result<
        (),
        Error,
    >)
        requires
            old(self).wf(),
        ensures
            final(self).wf(),
            set_oracle_policy_outcome(*old(self), *old(env), policy, r, *final(self), *final(env)),
    {
        assert(env.effects@ =~= old(env).effects@ + Seq::<Effect>::empty());
        if let Err(e) = self.require_merchant(env) {
            return Err(e);
        }
        self.oracle_policy = Some(policy);
        let event = OraclePolicySetEvent {
            feed_id: policy.feed_id,
            threshold: policy.threshold,
            refund_when_below: policy.refund_when_below,
            max_staleness_ledgers: policy.max_staleness_ledgers,
        };
        env.publish(Event::OraclePolicySet(event));
        env.renew_instance();
        assert(env.effects@ =~= old(env).effects@ + seq![
            Effect::Publish(Event::OraclePolicySet(event)),
            types::renewal(),
        ]);
        Ok(())
    }

    /// Removes the oracle policy.
    pub fn clear_oracle_policy(&mut self, env: &mut Env) -> (r: Result<(), Error>)
        requires
            old(self).wf(),
        ensures
            final(self).wf(),
            clear_oracle_policy_outcome(*old(self), *old(env), r, *final(self), *final(env)),
    {
        assert(env.effects@ =~= old(env).effects@ + Seq::<Effect>::empty());
        if let Err(e) = self.require_merchant(env) {
            return Err(e);
        }
        let policy = match self.oracle_policy {
            None => return Err(Error::NoOraclePolicy),
            Some(policy) => policy,
        };
        self.oracle_policy = None;
        let event = OraclePolicyClearedEvent { feed_id: policy.feed_id };
        env.publish(Event::OraclePolicyCleared(event));
        env.renew_instance();
        assert(env.effects@ =~= old(env).effects@ + seq![
            Effect::Publish(Event::OraclePolicyCleared(event)),
            types::renewal(),
        ]);
        Ok(())
    }

    /// The oracle policy in force, if any.
    pub fn get_oracle_policy(&self) -> (r: Option<OraclePolicy>)
        ensures
            r == self.oracle_policy,
    {
        self.oracle_policy
    }
}

} // verus!
