//! What each call of the vault leaves behind, and what follows when one call follows another.

use super::admin;
use super::claims;
use super::funds;
use super::oracle::{Oracle, OraclePolicy};
use super::policy;
use super::refunds;
use super::strategy::YieldStrategy;
use super::types::{
    AdminTransferAcceptedEvent, AdminTransferInitiatedEvent, DataKey, DepositEvent, Effect, Env,
    Event, FeeConfigUpdatedEvent, FeeField, OraclePolicyClearedEvent,
    OraclePolicySetEvent, PauseEvent, PolicyExecutedEvent, PolicyProposedEvent, RefundClaim,
    RefundVault, RefundWindowUpdatedEvent, UnpauseEvent, VaultState, WithdrawEvent,
    YieldDeployedEvent, YieldHarvestedEvent, YieldWithdrawnEvent,
};
use super::vault_rules;
use super::yields;
use crate::error::Error;
use crate::primitives::{Address, BytesN};
use vstd::prelude::*;

verus! {

/// The call has done nothing: every entry, the float and the effects are as they were.
pub open spec fn nothing_happened(
    pre: RefundVault,
    env: Env,
    post: RefundVault,
    post_env: Env,
) -> bool {
    &&& post@ == pre@
    &&& post_env.float == env.float
    &&& post_env.effects@ == env.effects@
    &&& post_env.ledger == env.ledger
    &&& post_env.signers@ == env.signers@
}

/// The call has moved no float and asked for these effects, in this order, after the
/// earlier ones.
pub open spec fn asked_for(env: Env, effects: Seq<Effect>, post_env: Env) -> bool {
    &&& post_env.float == env.float
    &&& post_env.effects@.len() == env.effects@.len() + effects.len()
    &&& forall|i: int|
        0 <= i < env.effects@.len() ==> #[trigger] post_env.effects@[i] == env.effects@[i]
    &&& forall|i: int|
        0 <= i < effects.len() ==> #[trigger] effects[i] == post_env.effects@[env.effects@.len()
            + i]
    &&& post_env.ledger == env.ledger
    &&& post_env.signers@ == env.signers@
}

/// How the instance is kept alive.
pub open spec fn kept_alive() -> Effect {
    Effect::ExtendInstanceTtl { threshold: 100, extend_to: 518_400 }
}

/// How one entry is kept alive.
pub open spec fn entry_kept_alive(key: DataKey) -> Effect {
    Effect::ExtendTtl { key, threshold: 518_400, extend_to: 518_400 }
}

/// The fee rate that is set is the fee rate, from then on. The event names who collects fees.
pub proof fn law_fee_rate_is_stored(
    pre: RefundVault,
    env: Env,
    bps: u32,
    r: Result<(), Error>,
    post: RefundVault,
    post_env: Env,
)
    requires
        admin::set_fee_bps_outcome(
            pre,
            env,
            bps,
            r,
            post,
            post_env,
        ),
    ensures
        r is Ok <==> bps <= 10_000 && vault_rules::signed(pre@, env),
        r is Err ==> nothing_happened(pre, env, post, post_env),
        r is Ok ==> {
            &&& post@.fee_bps == bps
            &&& (VaultState { fee_bps: pre@.fee_bps, ..post@ }) == pre@
            &&& asked_for(
                env,
                seq![
                    Effect::Publish(
                        Event::FeeConfigUpdated(
                            FeeConfigUpdatedEvent {
                                field: FeeField::FeeBps,
                                fee_bps: bps,
                                fee_recipient: if pre.fee_recipient is Some {
                                    pre.fee_recipient->0
                                } else {
                                    pre.admin->0
                                },
                            },
                        ),
                    ),
                    kept_alive(),
                ],
                post_env,
            )
        },
{
}

/// The fee recipient that is set collects the fees, from then on.
pub proof fn law_fee_recipient_is_stored(
    pre: RefundVault,
    env: Env,
    recipient: Address,
    r: Result<(), Error>,
    post: RefundVault,
    post_env: Env,
)
    requires
        admin::set_fee_recipient_outcome(
            pre,
            env,
            recipient,
            r,
            post,
            post_env,
        ),
    ensures
        r is Ok <==> recipient != env.ledger.contract && vault_rules::signed(pre@, env),
        r is Err ==> nothing_happened(pre, env, post, post_env),
        r is Ok ==> {
            &&& post@.fee_recipient == Some(recipient)
            &&& (VaultState { fee_recipient: pre@.fee_recipient, ..post@ }) == pre@
            &&& asked_for(
                env,
                seq![
                    Effect::Publish(
                        Event::FeeConfigUpdated(
                            FeeConfigUpdatedEvent {
                                field: FeeField::FeeRecipient,
                                fee_bps: pre.fee_bps,
                                fee_recipient: recipient,
                            },
                        ),
                    ),
                    kept_alive(),
                ],
                post_env,
            )
        },
{
}

/// A migration is marked by its version, which is later than the one before.
pub proof fn law_version_is_stored(
    pre: RefundVault,
    env: Env,
    target_version: u32,
    r: Result<(), Error>,
    post: RefundVault,
    post_env: Env,
)
    requires
        admin::migrate_state_outcome(
            pre,
            env,
            target_version,
            r,
            post,
            post_env,
        ),
    ensures
        r is Ok <==> vault_rules::signed(pre@, env) && target_version > (
        if pre.storage_version is Some {
            pre.storage_version->0
        } else {
            1u32
        }),
        r is Err ==> nothing_happened(pre, env, post, post_env),
        r is Ok ==> {
            &&& post@.storage_version == Some(target_version)
            &&& (VaultState { storage_version: pre@.storage_version, ..post@ }) == pre@
            &&& asked_for(
                env,
                seq![kept_alive()],
                post_env,
            )
        },
{
}

/// The token is replaced while the vault holds no float.
pub proof fn law_token_is_stored(
    pre: RefundVault,
    env: Env,
    new_token: Address,
    r: Result<(), Error>,
    post: RefundVault,
    post_env: Env,
)
    requires
        funds::set_token_outcome(
            pre,
            env,
            new_token,
            r,
            post,
            post_env,
        ),
    ensures
        r is Ok <==> vault_rules::signed(pre@, env) && env.float <= 0,
        r is Err ==> nothing_happened(pre, env, post, post_env),
        r is Ok ==> {
            &&& post@.token == Some(new_token)
            &&& (VaultState { token: pre@.token, ..post@ }) == pre@
            &&& asked_for(
                env,
                seq![kept_alive()],
                post_env,
            )
        },
{
}

/// The strategy that is registered is the strategy, from then on.
pub proof fn law_strategy_is_stored(
    pre: RefundVault,
    env: Env,
    strategy: Address,
    r: Result<(), Error>,
    post: RefundVault,
    post_env: Env,
)
    requires
        yields::set_yield_strategy_outcome(
            pre,
            env,
            strategy,
            r,
            post,
            post_env,
        ),
    ensures
        r is Ok <==> vault_rules::signed(pre@, env),
        r is Err ==> nothing_happened(pre, env, post, post_env),
        r is Ok ==> {
            &&& post@.yield_strategy == Some(strategy)
            &&& (VaultState { yield_strategy: pre@.yield_strategy, ..post@ }) == pre@
            &&& asked_for(
                env,
                seq![entry_kept_alive(DataKey::YieldStrategy), kept_alive()],
                post_env,
            )
        },
{
}

/// The share that stays liquid is stored as it is set.
pub proof fn law_reserve_is_stored(
    pre: RefundVault,
    env: Env,
    basis_points: u32,
    r: Result<(), Error>,
    post: RefundVault,
    post_env: Env,
)
    requires
        yields::set_reserve_ratio_outcome(
            pre,
            env,
            basis_points,
            r,
            post,
            post_env,
        ),
    ensures
        r is Ok <==> basis_points <= 10_000 && vault_rules::signed(pre@, env),
        r is Err ==> nothing_happened(pre, env, post, post_env),
        r is Ok ==> {
            &&& post@.reserve_ratio == Some(basis_points)
            &&& (VaultState { reserve_ratio: pre@.reserve_ratio, ..post@ }) == pre@
            &&& asked_for(
                env,
                seq![entry_kept_alive(DataKey::ReserveRatio), kept_alive()],
                post_env,
            )
        },
{
}

/// The share that may be deployed is stored as it is set.
pub proof fn law_largest_share_is_stored(
    pre: RefundVault,
    env: Env,
    basis_points: u32,
    r: Result<(), Error>,
    post: RefundVault,
    post_env: Env,
)
    requires
        yields::set_max_deploy_ratio_outcome(
            pre,
            env,
            basis_points,
            r,
            post,
            post_env,
        ),
    ensures
        r is Ok <==> basis_points <= 10_000 && vault_rules::signed(pre@, env),
        r is Err ==> nothing_happened(pre, env, post, post_env),
        r is Ok ==> {
            &&& post@.max_deploy_ratio == Some(basis_points)
            &&& (VaultState { max_deploy_ratio: pre@.max_deploy_ratio, ..post@ }) == pre@
            &&& asked_for(
                env,
                seq![entry_kept_alive(DataKey::MaxDeployRatio), kept_alive()],
                post_env,
            )
        },
{
}

/// The code is replaced by the merchant alone, and no entry changes.
pub proof fn law_upgrade_keeps_the_entries(
    pre: RefundVault,
    env: Env,
    wasm_hash: BytesN<32>,
    r: Result<(), Error>,
    post: RefundVault,
    post_env: Env,
)
    requires
        admin::upgrade_wasm_outcome(pre, env, wasm_hash, r, post, post_env),
    ensures
        r is Ok <==> vault_rules::signed(pre@, env),
        r is Err ==> nothing_happened(pre, env, post, post_env),
        post@ == pre@,
        r is Ok ==> asked_for(env, seq![Effect::UpgradeWasm { wasm_hash }], post_env),
{
}

/// The vault is bound once: the first merchant, token and window are stored, as is the first
/// layout version, and a second attempt, by anyone, changes nothing.
pub proof fn law_vault_is_bound_once(
    pre: RefundVault,
    env: Env,
    merchant: Address,
    token: Address,
    window: u32,
    r: Result<(), Error>,
    post: RefundVault,
    post_env: Env,
    later: Env,
    other: Address,
    other_token: Address,
    other_window: u32,
    r2: Result<(), Error>,
    post2: RefundVault,
    later_env: Env,
)
    requires
        admin::initialize_outcome(pre, env, merchant, token, window, r, post, post_env),
        admin::initialize_outcome(
            post,
            later,
            other,
            other_token,
            other_window,
            r2,
            post2,
            later_env,
        ),
    ensures
        r is Ok <==> pre.admin is None,
        r is Err ==> r == Err::<(), Error>(Error::AlreadyInitialized),
        r is Err ==> nothing_happened(pre, env, post, post_env),
        r is Ok ==> {
            &&& post@.admin == Some(merchant)
            &&& post@.token == Some(token)
            &&& post@.refund_window == Some(window)
            &&& post@.storage_version == Some(1u32)
            &&& (VaultState {
                admin: pre@.admin,
                token: pre@.token,
                refund_window: pre@.refund_window,
                storage_version: pre@.storage_version,
                ..post@
            }) == pre@
            &&& asked_for(env, seq![kept_alive()], post_env)
        },
        r2 == Err::<(), Error>(Error::AlreadyInitialized),
        nothing_happened(post, later, post2, later_env),
{
}

/// The merchant halts the vault and resumes it: what a halted vault held is there when it is
/// resumed.
pub proof fn law_resumed_vault_is_as_before(
    pre: RefundVault,
    env: Env,
    r: Result<(), Error>,
    post: RefundVault,
    post_env: Env,
    later: Env,
    r2: Result<(), Error>,
    post2: RefundVault,
    later_env: Env,
)
    requires
        admin::pause_outcome(pre, env, r, post, post_env),
        admin::unpause_outcome(post, later, r2, post2, later_env),
    ensures
        r is Ok <==> vault_rules::signed(pre@, env),
        r2 is Ok <==> vault_rules::signed(post@, later),
        r is Err ==> nothing_happened(pre, env, post, post_env),
        r2 is Err ==> nothing_happened(post, later, post2, later_env),
        r is Ok ==> {
            &&& post@.paused
            &&& (VaultState { paused: pre@.paused, ..post@ }) == pre@
            &&& asked_for(
                env,
                seq![
                    Effect::Publish(Event::Pause(PauseEvent { ledger: env.ledger.sequence })),
                    kept_alive(),
                ],
                post_env,
            )
        },
        r2 is Ok ==> {
            &&& !post2@.paused
            &&& (VaultState { paused: post@.paused, ..post2@ }) == post@
            &&& asked_for(
                later,
                seq![
                    Effect::Publish(Event::Unpause(UnpauseEvent { ledger: later.ledger.sequence })),
                    kept_alive(),
                ],
                later_env,
            )
        },
        r2 is Ok && !pre@.paused ==> post2@ == pre@,
{
}

/// Between a halt and the resumption nothing is refunded.
pub proof fn law_halted_vault_refunds_nothing<O: Oracle>(
    pre: RefundVault,
    env: Env,
    r: Result<(), Error>,
    post: RefundVault,
    post_env: Env,
    later: Env,
    feeds: O,
    c: RefundClaim,
    r2: Result<(), Error>,
    post2: RefundVault,
    later_env: Env,
)
    requires
        admin::pause_outcome(pre, env, r, post, post_env),
        r is Ok,
        refunds::refund_outcome(post, later, feeds, c, r2, post2, later_env),
    ensures
        r2 is Err,
        !pre@.reentrancy_lock ==> r2 == Err::<(), Error>(Error::Paused),
        nothing_happened(post, later, post2, later_env),
{
}

/// A policy takes effect as it was proposed, and no sooner than 17280 ledgers later. Until
/// then nothing of it is in force; afterwards it is pending no more.
pub proof fn law_policy_takes_effect_as_proposed(
    pre: RefundVault,
    env: Env,
    ledgers: u32,
    deadline: u64,
    vdf_delay: u32,
    r: Result<(), Error>,
    post: RefundVault,
    post_env: Env,
    later: Env,
    r2: Result<(), Error>,
    post2: RefundVault,
    later_env: Env,
)
    requires
        env.ledger.sequence + 17_280 <= u32::MAX,
        policy::propose_policy_outcome(
            pre,
            env,
            ledgers,
            deadline,
            vdf_delay,
            r,
            post,
            post_env,
        ),
        policy::execute_policy_outcome(post, later, r2, post2, later_env),
    ensures
        r is Ok <==> vault_rules::signed(pre@, env),
        r is Err ==> nothing_happened(pre, env, post, post_env),
        r is Ok ==> {
            &&& (VaultState { pending_policy: pre@.pending_policy, ..post@ }) == pre@
            &&& post@.pending_policy is Some
            &&& asked_for(
                env,
                seq![
                    Effect::Publish(
                        Event::PolicyProposed(
                            PolicyProposedEvent {
                                window: ledgers,
                                deadline,
                                proposed_at_ledger: env.ledger.sequence,
                                execute_after_ledger: (env.ledger.sequence + 17_280) as u32,
                            },
                        ),
                    ),
                    kept_alive(),
                ],
                post_env,
            )
            &&& r2 is Ok <==> vault_rules::signed(post@, later) && later.ledger.sequence
                >= env.ledger.sequence + 17_280
            &&& vault_rules::signed(post@, later) && r2 is Err ==> r2 == Err::<(), Error>(
                Error::TimelockNotExpired,
            )
        },
        r2 is Err ==> nothing_happened(post, later, post2, later_env),
        r is Ok && r2 is Ok ==> {
            &&& post2@.refund_window == Some(ledgers)
            &&& post2@.refund_deadline == deadline
            &&& post2@.vdf_delay == vdf_delay
            &&& post2@.pending_policy is None
            &&& (VaultState {
                refund_window: pre@.refund_window,
                refund_deadline: pre@.refund_deadline,
                vdf_delay: pre@.vdf_delay,
                pending_policy: pre@.pending_policy,
                ..post2@
            }) == pre@
            &&& asked_for(
                later,
                seq![
                    Effect::Publish(
                        Event::RefundWindowUpdated(
                            RefundWindowUpdatedEvent {
                                previous_window: pre@.refund_window->0,
                                new_window: ledgers,
                            },
                        ),
                    ),
                    Effect::Publish(
                        Event::PolicyExecuted(
                            PolicyExecutedEvent { window: ledgers, deadline },
                        ),
                    ),
                    kept_alive(),
                ],
                later_env,
            )
        },
{
}

/// The merchant's role goes to the one who was proposed, once they accept: nobody else can
/// take it, and until then the merchant keeps it.
pub proof fn law_role_goes_to_the_one_proposed(
    pre: RefundVault,
    env: Env,
    successor: Address,
    r: Result<(), Error>,
    post: RefundVault,
    post_env: Env,
    later: Env,
    r2: Result<(), Error>,
    post2: RefundVault,
    later_env: Env,
)
    requires
        admin::transfer_admin_outcome(pre, env, successor, r, post, post_env),
        admin::accept_admin_outcome(post, later, r2, post2, later_env),
    ensures
        r is Ok <==> vault_rules::signed(pre@, env),
        r is Err ==> nothing_happened(pre, env, post, post_env),
        r is Ok ==> {
            &&& post@.admin == pre@.admin
            &&& (VaultState { pending_admin: pre@.pending_admin, ..post@ }) == pre@
            &&& asked_for(
                env,
                seq![
                    Effect::Publish(
                        Event::AdminTransferInitiated(
                            AdminTransferInitiatedEvent { from: pre@.admin->0, to: successor },
                        ),
                    ),
                    kept_alive(),
                ],
                post_env,
            )
            &&& r2 is Ok <==> later.signers@.contains(successor)
        },
        r2 is Err ==> nothing_happened(post, later, post2, later_env),
        r is Ok && r2 is Ok ==> {
            &&& post2@.admin == Some(successor)
            &&& post2@.pending_admin is None
            &&& (VaultState {
                admin: pre@.admin,
                pending_admin: pre@.pending_admin,
                ..post2@
            }) == pre@
            &&& asked_for(
                later,
                seq![
                    Effect::Publish(
                        Event::AdminTransferAccepted(
                            AdminTransferAcceptedEvent { from: pre@.admin->0, to: successor },
                        ),
                    ),
                    kept_alive(),
                ],
                later_env,
            )
        },
{
}

/// A transfer that is withdrawn cannot be accepted any more.
pub proof fn law_withdrawn_transfer_is_void(
    pre: RefundVault,
    env: Env,
    r: Result<(), Error>,
    post: RefundVault,
    post_env: Env,
    later: Env,
    r2: Result<(), Error>,
    post2: RefundVault,
    later_env: Env,
)
    requires
        admin::cancel_admin_transfer_outcome(pre, env, r, post, post_env),
        admin::accept_admin_outcome(post, later, r2, post2, later_env),
    ensures
        r is Ok <==> vault_rules::signed(pre@, env) && pre.pending_admin is Some,
        r is Err ==> nothing_happened(pre, env, post, post_env),
        r is Ok ==> {
            &&& post@.pending_admin is None
            &&& (VaultState { pending_admin: pre@.pending_admin, ..post@ }) == pre@
            &&& asked_for(env, seq![kept_alive()], post_env)
            &&& r2 == Err::<(), Error>(Error::NoPendingTransfer)
            &&& nothing_happened(post, later, post2, later_env)
        },
{
}

/// An oracle that is added stands last in the whitelist, and the whitelist without it is the
/// one from before. A second attempt to add it is refused.
pub proof fn law_added_oracle_is_listed(
    pre: RefundVault,
    env: Env,
    oracle: Address,
    r: Result<(), Error>,
    post: RefundVault,
    post_env: Env,
    later: Env,
    r2: Result<(), Error>,
    post2: RefundVault,
    later_env: Env,
    r3: Result<(), Error>,
    post3: RefundVault,
    third_env: Env,
)
    requires
        policy::add_oracle_outcome(pre, env, oracle, r, post, post_env),
        policy::remove_oracle_outcome(post, later, oracle, r2, post2, later_env),
        policy::add_oracle_outcome(post, later, oracle, r3, post3, third_env),
    ensures
        r is Err ==> nothing_happened(pre, env, post, post_env),
        r is Ok ==> {
            let before = if pre@.oracles is Some {
                pre@.oracles->0
            } else {
                Seq::<Address>::empty()
            };
            &&& !before.contains(oracle)
            &&& post@.oracles is Some
            &&& post@.oracles->0.len() == before.len() + 1
            &&& post@.oracles->0.last() == oracle
            &&& post@.oracles->0.drop_last() == before
            &&& (VaultState { oracles: pre@.oracles, ..post@ }) == pre@
            &&& asked_for(env, seq![kept_alive()], post_env)
            &&& r2 is Ok <==> vault_rules::signed(post@, later)
            &&& r2 is Ok ==> post2@.oracles == Some(before)
            &&& r2 is Ok ==> (VaultState { oracles: pre@.oracles, ..post2@ }) == pre@
            &&& vault_rules::signed(post@, later) ==> r3 == Err::<(), Error>(
                Error::OracleAlreadyAdded,
            )
            &&& post3@ == post@
        },
{
    if r is Ok {
        let before = policy::whitelist(pre@);
        let list = before.push(oracle);
        assert(list.last() == oracle);
        assert(list.contains(oracle)) by {
            assert(list[before.len() as int] == oracle);
        }
        let i = list.index_of(oracle);
        assert(list[i] == oracle);
        assert(i == before.len()) by {
            if i < before.len() {
                assert(before[i] == oracle);
                assert(before.contains(oracle));
            }
        }
        assert(list.remove(i) =~= before);
        assert(list.drop_last() =~= before);
    }
}

/// An oracle that is removed is in the whitelist no more. Every other stays, in its order.
pub proof fn law_removed_oracle_is_gone(
    pre: RefundVault,
    env: Env,
    oracle: Address,
    i: int,
    r: Result<(), Error>,
    post: RefundVault,
    post_env: Env,
)
    requires
        pre.wf(),
        policy::remove_oracle_outcome(pre, env, oracle, r, post, post_env),
        pre@.oracles is Some && 0 <= i < pre@.oracles->0.len() && pre@.oracles->0[i] == oracle,
    ensures
        r is Ok <==> vault_rules::signed(pre@, env),
        r is Err ==> nothing_happened(pre, env, post, post_env),
        r is Ok ==> {
            &&& post@.oracles is Some
            &&& !post@.oracles->0.contains(oracle)
            &&& post@.oracles->0 == pre@.oracles->0.take(i) + pre@.oracles->0.skip(i + 1)
            &&& (VaultState { oracles: pre@.oracles, ..post@ }) == pre@
            &&& asked_for(env, seq![kept_alive()], post_env)
        },
{
    let list = pre@.oracles->0;
    assert(list.contains(oracle));
    let k = list.index_of(oracle);
    assert(list[k] == oracle);
    assert(k == i);
    assert(list.remove(k) =~= list.take(i) + list.skip(i + 1));
    if r is Ok && post@.oracles->0.contains(oracle) {
        let rest = post@.oracles->0;
        let j = choose|j: int| 0 <= j < rest.len() && rest[j] == oracle;
        assert(rest[j] == list[if j < i {
            j
        } else {
            j + 1
        }]);
    }
}

/// An oracle policy gates refunds as it was set, until it is cleared.
pub proof fn law_oracle_policy_stands_until_cleared(
    pre: RefundVault,
    env: Env,
    gate: OraclePolicy,
    r: Result<(), Error>,
    post: RefundVault,
    post_env: Env,
    later: Env,
    r2: Result<(), Error>,
    post2: RefundVault,
    later_env: Env,
)
    requires
        policy::set_oracle_policy_outcome(pre, env, gate, r, post, post_env),
        policy::clear_oracle_policy_outcome(post, later, r2, post2, later_env),
    ensures
        r is Ok <==> vault_rules::signed(pre@, env),
        r is Err ==> nothing_happened(pre, env, post, post_env),
        r2 is Err ==> nothing_happened(post, later, post2, later_env),
        r is Ok ==> {
            &&& post@.oracle_policy == Some(gate)
            &&& (VaultState { oracle_policy: pre@.oracle_policy, ..post@ }) == pre@
            &&& asked_for(
                env,
                seq![
                    Effect::Publish(
                        Event::OraclePolicySet(
                            OraclePolicySetEvent {
                                feed_id: gate.feed_id,
                                threshold: gate.threshold,
                                refund_when_below: gate.refund_when_below,
                                max_staleness_ledgers: gate.max_staleness_ledgers,
                            },
                        ),
                    ),
                    kept_alive(),
                ],
                post_env,
            )
            &&& r2 is Ok <==> vault_rules::signed(post@, later)
        },
        r is Ok && r2 is Ok ==> {
            &&& post2@.oracle_policy is None
            &&& (VaultState { oracle_policy: pre@.oracle_policy, ..post2@ }) == pre@
            &&& asked_for(
                later,
                seq![
                    Effect::Publish(
                        Event::OraclePolicyCleared(
                            OraclePolicyClearedEvent { feed_id: gate.feed_id },
                        ),
                    ),
                    kept_alive(),
                ],
                later_env,
            )
        },
{
}

/// What the merchant deposits can be withdrawn: the float is then what it was, and no entry has
/// changed.
pub proof fn law_deposit_can_be_withdrawn(
    pre: RefundVault,
    env: Env,
    from: Address,
    amount: i128,
    r: Result<(), Error>,
    post: RefundVault,
    post_env: Env,
    later: Env,
    to: Address,
    r2: Result<(), Error>,
    post2: RefundVault,
    later_env: Env,
)
    requires
        funds::deposit_outcome(pre, env, from, amount, r, post, post_env),
        r is Ok,
        from != env.ledger.contract,
        env.float >= 0,
        later.float == post_env.float,
        funds::withdraw_outcome(post, later, amount, to, r2, post2, later_env),
    ensures
        post@ == pre@,
        post2@ == pre@,
        post_env.float == env.float + amount,
        r2 is Ok <==> vault_rules::signed(pre@, later) && to != later.ledger.contract,
        r2 is Ok ==> later_env.float == env.float,
        r2 is Err ==> nothing_happened(post, later, post2, later_env),
        post_env.effects@.contains(Effect::Publish(Event::Deposit(DepositEvent { from, amount }))),
        r2 is Ok ==> later_env.effects@.contains(
            Effect::Publish(Event::Withdraw(WithdrawEvent { to, amount })),
        ),
{
    let n = env.effects@.len() as int;
    assert(post_env.effects@[n + 2] == Effect::Publish(
        Event::Deposit(DepositEvent { from, amount }),
    ));
    if r2 is Ok {
        let m = later.effects@.len() as int;
        assert(later_env.effects@[m + 2] == Effect::Publish(
            Event::Withdraw(WithdrawEvent { to, amount }),
        ));
    }
}

/// Float that is deployed leaves the float and joins the deployed principal; the total value
/// stays.
pub proof fn law_deployed_float_is_principal(
    pre: RefundVault,
    env: Env,
    amount: i128,
    r: Result<(), Error>,
    post: RefundVault,
    post_env: Env,
)
    requires
        yields::deploy_to_yield_outcome(pre, env, amount, r, post, post_env),
        i128::MIN <= pre@.deployed() + amount <= i128::MAX,
        pre.yield_strategy is Some ==> pre.yield_strategy->0 != env.ledger.contract,
    ensures
        r is Err ==> nothing_happened(pre, env, post, post_env),
        r is Ok ==> {
            let before = if pre@.deployed_principal is Some {
                pre@.deployed_principal->0
            } else {
                0
            };
            &&& amount > 0
            &&& pre.yield_strategy is Some
            &&& post@.deployed_principal is Some
            &&& post@.deployed_principal->0 == before + amount
            &&& (VaultState { deployed_principal: pre@.deployed_principal, ..post@ }) == pre@
            &&& post_env.float == env.float - amount
            &&& post@.total_value(post_env.float as int) == pre@.total_value(env.float as int)
            &&& post_env.effects@.contains(
                Effect::Transfer {
                    token: pre@.token->0,
                    from: env.ledger.contract,
                    to: pre.yield_strategy->0,
                    amount,
                },
            )
            &&& post_env.effects@.contains(
                Effect::Publish(
                    Event::YieldDeployed(
                        YieldDeployedEvent { strategy: pre.yield_strategy->0, amount },
                    ),
                ),
            )
        },
{
    if r is Ok {
        let n = env.effects@.len() as int;
        let strategy = pre.yield_strategy->0;
        assert(post_env.effects@[n + 1] == (Effect::Transfer {
            token: pre@.token->0,
            from: env.ledger.contract,
            to: strategy,
            amount,
        }));
        assert(post_env.effects@[n + 4] == Effect::Publish(
            Event::YieldDeployed(YieldDeployedEvent { strategy, amount }),
        ));
    }
}

/// Principal that the strategy returns leaves the deployed principal, and the yield that comes
/// with it joins the harvested yield, by what the strategy says it paid. What the strategy
/// refuses is refused, and then nothing has changed.
pub proof fn law_reply_of_the_strategy_is_booked<S: YieldStrategy>(
    pre: RefundVault,
    env: Env,
    model: S::Model,
    principal: i128,
    r: Result<(), Error>,
    post: RefundVault,
    post_env: Env,
    post_model: S::Model,
)
    requires
        yields::withdraw_from_yield_outcome::<S>(
            pre,
            env,
            model,
            principal,
            r,
            post,
            post_env,
            post_model,
        ),
        S::withdraw_reply(model, pre.yield_strategy->0, principal) matches Ok((p, y))
            ==> i128::MIN <= pre@.deployed() - p <= i128::MAX && i128::MIN <= pre@.harvested() + y
            <= i128::MAX,
    ensures
        r is Err ==> nothing_happened(pre, env, post, post_env) && post_model == model,
        r is Ok ==> {
            &&& vault_rules::signed(pre@, env) && !pre@.paused && !pre@.reentrancy_lock
            &&& 0 < principal <= pre@.deployed()
            &&& pre.yield_strategy is Some
            &&& S::withdraw_reply(model, pre.yield_strategy->0, principal) matches Ok((p, y)) && {
                &&& post@.deployed_principal is Some
                &&& post@.deployed_principal->0 == pre@.deployed() - p
                &&& post@.harvested_yield is Some
                &&& post@.harvested_yield->0 == pre@.harvested() + y
                &&& post_env.effects@.contains(
                    Effect::Publish(
                        Event::YieldWithdrawn(
                            YieldWithdrawnEvent {
                                strategy: pre.yield_strategy->0,
                                principal: p,
                                yield_amount: y,
                            },
                        ),
                    ),
                )
            }
            &&& post_model == S::after_withdraw(model, pre.yield_strategy->0, principal)
            &&& (VaultState {
                deployed_principal: pre@.deployed_principal,
                harvested_yield: pre@.harvested_yield,
                ..post@
            }) == pre@
            &&& post_env.float == env.float
        },
        vault_rules::signed(pre@, env) && !pre@.paused && !pre@.reentrancy_lock && 0 < principal
            <= pre@.deployed() && pre.yield_strategy is Some ==> {
            let reply = S::withdraw_reply(model, pre.yield_strategy->0, principal);
            &&& r is Ok <==> reply is Ok
            &&& reply matches Err(e) ==> r == Err::<(), Error>(e)
        },
{
    if r is Ok {
        let n = env.effects@.len() as int;
        let reply = S::withdraw_reply(model, pre.yield_strategy->0, principal);
        assert(post_env.effects@[n + 3] == Effect::Publish(
            Event::YieldWithdrawn(
                YieldWithdrawnEvent {
                    strategy: pre.yield_strategy->0,
                    principal: reply->Ok_0.0,
                    yield_amount: reply->Ok_0.1,
                },
            ),
        ));
    }
}

/// Yield that the strategy pays joins the harvested yield, and leaves the deployed principal
/// alone. Yield of nothing is refused, as is what the strategy refuses.
pub proof fn law_harvest_books_what_was_paid<S: YieldStrategy>(
    pre: RefundVault,
    env: Env,
    model: S::Model,
    r: Result<(), Error>,
    post: RefundVault,
    post_env: Env,
    post_model: S::Model,
)
    requires
        yields::harvest_yield_outcome::<S>(pre, env, model, r, post, post_env, post_model),
        S::harvest_reply(model, pre.yield_strategy->0) matches Ok(amount) ==> i128::MIN
            <= pre@.harvested() + amount <= i128::MAX,
    ensures
        r is Err ==> nothing_happened(pre, env, post, post_env) && post_model == model,
        r is Ok ==> {
            &&& S::harvest_reply(model, pre.yield_strategy->0) matches Ok(amount) && {
                &&& amount > 0
                &&& post@.harvested_yield is Some
                &&& post@.harvested_yield->0 == pre@.harvested() + amount
                &&& post_env.effects@.contains(
                    Effect::Publish(Event::YieldHarvested(YieldHarvestedEvent { amount })),
                )
            }
            &&& post_model == S::after_harvest(model, pre.yield_strategy->0)
            &&& (VaultState { harvested_yield: pre@.harvested_yield, ..post@ }) == pre@
            &&& post_env.float == env.float
        },
        vault_rules::signed(pre@, env) && !pre@.paused && !pre@.reentrancy_lock
            && pre.yield_strategy is Some ==> match S::harvest_reply(
            model,
            pre.yield_strategy->0,
        ) {
            Err(e) => r == Err::<(), Error>(e),
            Ok(amount) => if amount > 0 {
                r is Ok
            } else {
                r == Err::<(), Error>(Error::NothingToHarvest)
            },
        },
{
    if r is Ok {
        let n = env.effects@.len() as int;
        assert(post_env.effects@[n + 2] == Effect::Publish(
            Event::YieldHarvested(
                YieldHarvestedEvent {
                    amount: S::harvest_reply(model, pre.yield_strategy->0)->Ok_0,
                },
            ),
        ));
    }
}

/// Booking a reply of the strategy and booking harvested yield agree: yield that comes alone is
/// booked alike by both.
pub proof fn law_yield_is_booked_alike(
    pre: RefundVault,
    env: Env,
    strategy: Address,
    amount: i128,
    r: Result<(), Error>,
    post: RefundVault,
    post_env: Env,
    returned: RefundVault,
    returned_env: Env,
)
    requires
        amount > 0,
        i128::MIN <= pre@.harvested() + amount <= i128::MAX,
        yields::settle_harvest_outcome(pre, env, amount, r, post, post_env),
        yields::settle_withdrawal_outcome(pre, env, strategy, 0, amount, returned, returned_env),
    ensures
        r is Ok,
        post@.harvested_yield is Some && post@.harvested_yield->0 == pre@.harvested() + amount,
        returned@.harvested_yield == post@.harvested_yield,
        returned@.deployed() == pre@.deployed(),
        (VaultState { harvested_yield: pre@.harvested_yield, ..post@ }) == pre@,
        (VaultState {
            deployed_principal: pre@.deployed_principal,
            harvested_yield: pre@.harvested_yield,
            ..returned@
        }) == pre@,
        post_env.float == env.float && returned_env.float == env.float,
{
}

/// A harvest of nothing books nothing.
pub proof fn law_nothing_is_no_harvest(
    pre: RefundVault,
    env: Env,
    amount: i128,
    r: Result<(), Error>,
    post: RefundVault,
    post_env: Env,
)
    requires
        amount <= 0,
        yields::settle_harvest_outcome(pre, env, amount, r, post, post_env),
    ensures
        r == Err::<(), Error>(Error::NothingToHarvest),
        nothing_happened(pre, env, post, post_env),
{
}

/// Anyone can keep a refund record alive; without a record there is nothing to keep, and no entry
/// changes in either case.
pub proof fn law_record_is_kept_alive_by_anyone(
    pre: RefundVault,
    env: Env,
    payment_ref: BytesN<32>,
    r: Result<(), Error>,
    post: RefundVault,
    post_env: Env,
)
    requires
        admin::extend_refund_ttl_outcome(pre, env, payment_ref, r, post, post_env),
    ensures
        r is Ok <==> pre@.refunds.dom().contains(payment_ref),
        r is Err ==> r == Err::<(), Error>(Error::RefundNotFound),
        r is Err ==> nothing_happened(pre, env, post, post_env),
        post@ == pre@,
        r is Ok ==> {
            let ttl = claims::record_ttl(
                env.ledger,
                pre@.refund_window->0,
                pre@.refunds[payment_ref].paid_at_ledger,
            ) as u32;
            asked_for(
                env,
                seq![
                    Effect::ExtendTtl {
                        key: DataKey::RefundV2(payment_ref),
                        threshold: ttl,
                        extend_to: ttl,
                    },
                ],
                post_env,
            )
        },
{
}

} // verus!
