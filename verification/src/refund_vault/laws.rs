//! What holds of the vault across its calls.

use super::claims;
use super::funds;
use super::history;
use super::oracle;
use super::oracle::Oracle;
use super::policy;
use super::refunds;
use super::refunds::BatchState;
use super::strategy::StrategyState;
use super::types;
use super::types::{
    Effect, Env, RefundClaim, RefundParam, VaultState, BASIS_POINTS, POLICY_TIMELOCK, TTL_EXTEND,
};
use super::yields;
use crate::error::Error;
use crate::hash;
use crate::primitives::{Address, BytesN, Ledger};
use vstd::arithmetic::div_mod::*;
use vstd::arithmetic::mul::*;
use vstd::prelude::*;

verus! {

/// What an effect adds to the balance of `contract`.
pub open spec fn flow(effect: Effect, contract: Address) -> int {
    match effect {
        Effect::Transfer { from, to, amount, .. } => (if to == contract {
            amount as int
        } else {
            0
        }) - (if from == contract {
            amount as int
        } else {
            0
        }),
        _ => 0,
    }
}

/// What a list of effects adds to the balance of `contract`.
pub open spec fn net_flow(effects: Seq<Effect>, contract: Address) -> int
    decreases effects.len(),
{
    if effects.len() == 0 {
        0
    } else {
        net_flow(effects.drop_last(), contract) + flow(effects.last(), contract)
    }
}

proof fn lemma_net_flow_of_concatenation(a: Seq<Effect>, b: Seq<Effect>, contract: Address)
    ensures
        net_flow(a + b, contract) == net_flow(a, contract) + net_flow(b, contract),
    decreases b.len(),
{
    if b.len() == 0 {
        assert(a + b =~= a);
    } else {
        lemma_net_flow_of_concatenation(a, b.drop_last(), contract);
        assert((a + b).drop_last() =~= a + b.drop_last());
        assert((a + b).last() == b.last());
    }
}

/// What every call keeps is kept by any number of calls: see
/// [`VaultState::evolves_to`], which stands in the contract of every call.
///
/// The merchant is the exception: each call may hand over to the proposed one.
pub proof fn law_evolution_composes(a: VaultState, b: VaultState, c: VaultState)
    requires
        a.evolves_to(b),
        b.evolves_to(c),
    ensures
        a.admin is Some ==> c.admin is Some,
        a.admin is Some && a.pending_admin is None && b.pending_admin is None ==> c.admin
            == a.admin,
        forall|r: BytesN<32>| #[trigger]
            a.refunds.contains_key(r) ==> {
                &&& c.refunds.contains_key(r)
                &&& c.refunds[r].payment_amount == a.refunds[r].payment_amount
                &&& c.refunds[r].amount_refunded >= a.refunds[r].amount_refunded
            },
        c.legacy_refunds == a.legacy_refunds,
        c.version() >= a.version(),
        c.reentrancy_lock == a.reentrancy_lock,
{
}

/// The fee rounds up: it covers the exact share, and less than one unit more.
pub proof fn law_fee_rounds_up(amount: int, fee_bps: int)
    requires
        amount > 0,
        0 <= fee_bps <= BASIS_POINTS,
    ensures
        ({
            let fee = claims::fee_of(amount, fee_bps);
            &&& 0 <= fee <= amount
            &&& amount * fee_bps <= fee * BASIS_POINTS < amount * fee_bps + BASIS_POINTS
            &&& fee == 0 <==> fee_bps == 0
        }),
{
    assert(0 <= amount * fee_bps <= amount * 10_000) by (nonlinear_arith)
        requires
            amount > 0,
            0 <= fee_bps <= 10_000,
    ;
    assert(fee_bps > 0 ==> amount * fee_bps > 0) by (nonlinear_arith)
        requires
            amount > 0,
    ;
    assert(fee_bps == 0 ==> amount * fee_bps == 0) by (nonlinear_arith);
}

/// An accepted claim moves exactly its amount out of the vault, payout and fee together.
pub proof fn law_claim_pays_exactly_its_amount<O: Oracle>(
    v: VaultState,
    ledger: Ledger,
    float: int,
    feeds: O,
    c: RefundClaim,
)
    requires
        v.wf(),
        claims::claim_error(v, ledger, float, feeds, c) is None,
    ensures
        net_flow(claims::claim_effects(v, ledger, c), ledger.contract) == -c.amount,
        net_flow(refunds::refund_effects(v, ledger, c), ledger.contract) == -c.amount,
        c.amount <= float,
{
    reveal(claims::claim_error);
    law_fee_rounds_up(c.amount as int, v.fee_bps as int);
    let effects = claims::claim_effects(v, ledger, c);
    let contract = ledger.contract;
    reveal_with_fuel(net_flow, 6);
    if claims::claim_fee(v, c) > 0 {
        assert(effects.drop_last().drop_last().drop_last().drop_last() =~= Seq::<Effect>::empty());
    } else {
        assert(effects.drop_last().drop_last().drop_last() =~= Seq::<Effect>::empty());
    }
    let with_event = refunds::refund_effects(v, ledger, c);
    assert(with_event.drop_last() =~= effects);
}

/// The float after a batch is the float before it less everything claimed, which is also
/// what the transfers moved. A batch never overdraws the vault.
pub proof fn law_batch_accounts_for_the_float<O: Oracle>(
    v: VaultState,
    ledger: Ledger,
    float: int,
    feeds: O,
    claims: Seq<RefundClaim>,
)
    requires
        v.wf(),
        v.initialized(),
    ensures
        refunds::batch_outcome(v, ledger, float, feeds, claims) matches Ok(s) ==> {
            &&& s.vault.wf()
            &&& s.vault.initialized()
            &&& s.float == float - history::claimed_in_all(claims)
            &&& s.float == float + net_flow(s.effects, ledger.contract)
            &&& s.float == float + net_flow(types::under_lock(s.effects), ledger.contract)
            &&& float >= 0 ==> s.float >= 0
        },
    decreases claims.len(),
{
    if claims.len() > 0 {
        law_batch_accounts_for_the_float(v, ledger, float, feeds, claims.drop_last());
        if let Ok(s) = refunds::batch_outcome(v, ledger, float, feeds, claims.drop_last()) {
            let c = claims.last();
            if claims::claim_error(s.vault, ledger, s.float, feeds, c) is None {
                law_claim_pays_exactly_its_amount(s.vault, ledger, s.float, feeds, c);
                lemma_net_flow_of_concatenation(
                    s.effects,
                    refunds::refund_effects(s.vault, ledger, c),
                    ledger.contract,
                );
                claims::lemma_claim_evolves(s.vault, ledger, s.float, feeds, c);
            }
        }
    }
    if let Ok(s) = refunds::batch_outcome(v, ledger, float, feeds, claims) {
        law_lock_moves_no_money(s.effects, ledger.contract);
    }
}

/// Refunds of a payment accumulate, across the claims of a batch too, and never exceed
/// the ceiling that the first of them set.
pub proof fn law_refunds_accumulate_below_the_ceiling<O: Oracle>(
    v: VaultState,
    ledger: Ledger,
    float: int,
    feeds: O,
    claims: Seq<RefundClaim>,
    payment_ref: BytesN<32>,
)
    requires
        v.wf(),
        v.initialized(),
    ensures
        refunds::batch_outcome(v, ledger, float, feeds, claims) matches Ok(s) ==> {
            &&& s.vault.refunded(payment_ref) == v.refunded(payment_ref) + history::claimed_for(
                claims,
                payment_ref,
            )
            &&& s.vault.refunds.contains_key(payment_ref) ==> s.vault.refunded(payment_ref)
                <= s.vault.refunds[payment_ref].payment_amount
            &&& v.refunds.contains_key(payment_ref) ==> s.vault.refunds.contains_key(payment_ref)
                && s.vault.refunds[payment_ref].payment_amount
                == v.refunds[payment_ref].payment_amount
        },
    decreases claims.len(),
{
    if claims.len() > 0 {
        law_refunds_accumulate_below_the_ceiling(
            v,
            ledger,
            float,
            feeds,
            claims.drop_last(),
            payment_ref,
        );
        law_batch_accounts_for_the_float(v, ledger, float, feeds, claims);
        if let Ok(s) = refunds::batch_outcome(v, ledger, float, feeds, claims.drop_last()) {
            let c = claims.last();
            if claims::claim_error(s.vault, ledger, s.float, feeds, c) is None {
                claims::lemma_claim_evolves(s.vault, ledger, s.float, feeds, c);
            }
        }
    }
}

/// A batch does what its claims do one after the other: splitting it in two and running
/// the parts in turn gives the same.
pub proof fn law_batch_is_a_sequence_of_refunds<O: Oracle>(
    v: VaultState,
    ledger: Ledger,
    float: int,
    feeds: O,
    first: Seq<RefundClaim>,
    second: Seq<RefundClaim>,
)
    ensures
        match refunds::batch_outcome(v, ledger, float, feeds, first) {
            Err(e) => refunds::batch_outcome(v, ledger, float, feeds, first + second) == Err::<
                BatchState,
                Error,
            >(e),
            Ok(s) => match refunds::batch_outcome(s.vault, ledger, s.float, feeds, second) {
                Err(e) => refunds::batch_outcome(v, ledger, float, feeds, first + second) == Err::<
                    BatchState,
                    Error,
                >(e),
                Ok(t) => refunds::batch_outcome(v, ledger, float, feeds, first + second) == Ok::<
                    BatchState,
                    Error,
                >(
                    BatchState {
                        vault: t.vault,
                        float: t.float,
                        effects: s.effects + t.effects,
                    },
                ),
            },
        },
    decreases second.len(),
{
    let whole = first + second;
    if second.len() == 0 {
        assert(whole =~= first);
        if let Ok(s) = refunds::batch_outcome(v, ledger, float, feeds, first) {
            assert(s.effects + Seq::<Effect>::empty() =~= s.effects);
        }
    } else {
        law_batch_is_a_sequence_of_refunds(v, ledger, float, feeds, first, second.drop_last());
        assert(whole.drop_last() =~= first + second.drop_last());
        assert(whole.last() == second.last());
        if let Ok(s) = refunds::batch_outcome(v, ledger, float, feeds, first) {
            if let Ok(t) = refunds::batch_outcome(
                s.vault,
                ledger,
                s.float,
                feeds,
                second.drop_last(),
            ) {
                let more = refunds::refund_effects(t.vault, ledger, second.last());
                assert((s.effects + t.effects) + more =~= s.effects + (t.effects + more));
            }
        }
    }
}

/// A batch of one claim does what a single refund does.
pub proof fn law_batch_of_one_is_a_refund<O: Oracle>(
    v: VaultState,
    ledger: Ledger,
    float: int,
    feeds: O,
    c: RefundClaim,
)
    ensures
        match claims::claim_error(v, ledger, float, feeds, c) {
            Some(e) => refunds::batch_outcome(v, ledger, float, feeds, seq![c]) == Err::<
                BatchState,
                Error,
            >(e),
            None => refunds::batch_outcome(v, ledger, float, feeds, seq![c]) == Ok::<
                BatchState,
                Error,
            >(
                BatchState {
                    vault: claims::claimed(v, ledger, c),
                    float: float - c.amount,
                    effects: refunds::refund_effects(v, ledger, c),
                },
            ),
        },
{
    reveal_with_fuel(refunds::batch_outcome, 2);
    assert(seq![c].drop_last() =~= Seq::<RefundClaim>::empty());
    assert(Seq::<Effect>::empty() + refunds::refund_effects(v, ledger, c)
        =~= refunds::refund_effects(v, ledger, c));
}

/// A best-effort batch answers for every item, and does to the vault and the float what
/// an atomic batch of exactly the applied items does.
pub proof fn law_process_applies_what_it_reports<O: Oracle>(
    v: VaultState,
    ledger: Ledger,
    float: int,
    feeds: O,
    items: Seq<RefundParam>,
)
    ensures
        ({
            let s = refunds::process_outcome(v, ledger, float, feeds, items);
            &&& s.results.len() == items.len()
            &&& refunds::batch_outcome(
                v,
                ledger,
                float,
                feeds,
                refunds::applied_claims(items, s.results),
            ) matches Ok(t) && t.vault == s.vault && t.float == s.float
        }),
    decreases items.len(),
{
    if items.len() > 0 {
        law_process_applies_what_it_reports(v, ledger, float, feeds, items.drop_last());
        let before = refunds::process_outcome(v, ledger, float, feeds, items.drop_last());
        let s = refunds::process_outcome(v, ledger, float, feeds, items);
        assert(s.results.drop_last() =~= before.results);
        let applied = refunds::applied_claims(items, s.results);
        if s.results.last() {
            assert(applied.drop_last() =~= refunds::applied_claims(items.drop_last(), before.results));
        }
    }
}

/// The float after a best-effort batch is the float before it and what the transfers of
/// the applied items moved. A best-effort batch never overdraws the vault either.
pub proof fn law_process_accounts_for_the_float<O: Oracle>(
    v: VaultState,
    ledger: Ledger,
    float: int,
    feeds: O,
    items: Seq<RefundParam>,
)
    requires
        v.wf(),
        v.initialized(),
    ensures
        ({
            let s = refunds::process_outcome(v, ledger, float, feeds, items);
            &&& s.vault.wf()
            &&& s.vault.initialized()
            &&& s.float == float + net_flow(s.effects, ledger.contract)
            &&& float >= 0 ==> s.float >= 0
        }),
    decreases items.len(),
{
    if items.len() > 0 {
        law_process_accounts_for_the_float(v, ledger, float, feeds, items.drop_last());
        let s = refunds::process_outcome(v, ledger, float, feeds, items.drop_last());
        let c = refunds::item_claim(items.last());
        if claims::claim_error(s.vault, ledger, s.float, feeds, c) is None {
            law_claim_pays_exactly_its_amount(s.vault, ledger, s.float, feeds, c);
            lemma_net_flow_of_concatenation(
                s.effects,
                claims::claim_effects(s.vault, ledger, c),
                ledger.contract,
            );
            claims::lemma_claim_evolves(s.vault, ledger, s.float, feeds, c);
        }
    }
}

/// The window, the deadline and the delay do not move: an accepted claim changes nothing
/// about when any claim is accepted.
pub proof fn law_refunds_do_not_extend_the_window(
    v: VaultState,
    ledger: Ledger,
    earlier: RefundClaim,
    later_ledger: Ledger,
    c: RefundClaim,
)
    ensures
        claims::time_error(claims::claimed(v, ledger, earlier), later_ledger, c)
            == claims::time_error(v, later_ledger, c),
{
}

/// A claim is never accepted after its window, measured from the payment, nor after the
/// deadline; 0 disables either.
pub proof fn law_no_refund_after_window_or_deadline<O: Oracle>(
    v: VaultState,
    ledger: Ledger,
    float: int,
    feeds: O,
    c: RefundClaim,
)
    requires
        claims::claim_error(v, ledger, float, feeds, c) is None,
    ensures
        v.window() == 0 || ledger.sequence <= c.paid_at_ledger + v.window(),
        v.refund_deadline == 0 || ledger.timestamp <= v.refund_deadline,
{
    reveal(claims::claim_error);
}

/// A payment refunded under the single-refund rule is never refunded again.
pub proof fn law_legacy_refund_is_final<O: Oracle>(
    v: VaultState,
    ledger: Ledger,
    float: int,
    feeds: O,
    c: RefundClaim,
)
    requires
        v.legacy_refunds.contains(c.payment_ref),
    ensures
        claims::claim_error(v, ledger, float, feeds, c) is Some,
        c.amount > 0 && c.recipient != ledger.contract ==> claims::claim_error(
            v,
            ledger,
            float,
            feeds,
            c,
        ) == Some(Error::ExceedsPayment),
{
    reveal(claims::claim_error);
}

/// An oracle policy fails closed: without a median that satisfies it, every claim is
/// refused.
pub proof fn law_oracle_policy_fails_closed<O: Oracle>(
    v: VaultState,
    ledger: Ledger,
    float: int,
    feeds: O,
    c: RefundClaim,
)
    requires
        v.oracle_policy is Some,
        claims::claim_error(v, ledger, float, feeds, c) is None,
    ensures
        ({
            let p = v.oracle_policy->0;
            oracle::median_answer(
                feeds,
                v.oracles,
                p.feed_id,
                p.max_staleness_ledgers,
                ledger.sequence,
            ) matches Ok(median) && oracle::policy_permits(p, median)
        }),
{
    reveal(claims::claim_error);
}

/// A delay proof is bound to its payment: two payments share a challenge only if their
/// references collide under SHA-256.
pub proof fn law_delay_challenge_binds_the_payment(a: BytesN<32>, b: BytesN<32>)
    requires
        claims::payment_challenge(a) == claims::payment_challenge(b),
    ensures
        hash::sha256_of(a@) == hash::sha256_of(b@),
{
    let x = claims::payment_challenge(a);
    assert(x.skip(96) =~= hash::sha256_of(a@));
    assert(claims::payment_challenge(b).skip(96) =~= hash::sha256_of(b@));
}

/// Without the merchant's signature no call of the merchant does anything.
pub proof fn law_only_the_merchant_acts<O: Oracle>(
    v: VaultState,
    env: Env,
    feeds: O,
    c: RefundClaim,
    items: nat,
    who: Address,
    amount: i128,
    number: u32,
)
    requires
        v.merchant_error(env) is Some,
    ensures
        refunds::refund_error(v, env, feeds, c) is Some,
        v.guarded_error(env) is Some,
        refunds::process_error(v, env, items) is Some,
        funds::deposit_error(v, env, who, amount) is Some,
        funds::withdraw_error(v, env, amount, who) is Some,
        funds::set_token_error(v, env) is Some,
        policy::execute_error(v, env) is Some,
        policy::add_oracle_error(v, env, who) is Some,
        policy::remove_oracle_error(v, env, who) is Some,
        policy::clear_policy_error(v, env) is Some,
        super::admin::set_fee_bps_error(v, env, number) is Some,
        super::admin::set_fee_recipient_error(v, env, who) is Some,
        super::admin::migrate_error(v, env, number) is Some,
        super::admin::cancel_error(v, env) is Some,
        yields::set_ratio_error(v, env, number) is Some,
        yields::deploy_error(v, env, amount) is Some,
        yields::withdraw_yield_error(v, env, amount) is Some,
        yields::harvest_request_error(v, env) is Some,
{
}

/// A paused vault moves no money: deposits, refunds, withdrawals and yield operations are
/// all refused.
pub proof fn law_paused_vault_moves_no_money<O: Oracle>(
    v: VaultState,
    env: Env,
    feeds: O,
    c: RefundClaim,
    items: nat,
    who: Address,
    amount: i128,
)
    requires
        v.paused,
    ensures
        refunds::refund_error(v, env, feeds, c) is Some,
        v.guarded_error(env) is Some,
        refunds::process_error(v, env, items) == Some(Error::Paused),
        funds::deposit_error(v, env, who, amount) is Some,
        funds::withdraw_error(v, env, amount, who) is Some,
        yields::deploy_error(v, env, amount) is Some,
        yields::withdraw_yield_error(v, env, amount) is Some,
        yields::harvest_request_error(v, env) is Some,
        !v.reentrancy_lock ==> refunds::refund_error(v, env, feeds, c) == Some(Error::Paused),
{
}

/// While a guarded call runs, every guarded call is refused.
pub proof fn law_guarded_calls_do_not_nest<O: Oracle>(
    v: VaultState,
    env: Env,
    feeds: O,
    c: RefundClaim,
    who: Address,
    amount: i128,
)
    requires
        v.reentrancy_lock,
    ensures
        refunds::refund_error(v, env, feeds, c) == Some(Error::ReentrancyBlocked),
        v.guarded_error(env) == Some(Error::ReentrancyBlocked),
        funds::deposit_error(v, env, who, amount) == Some(Error::ReentrancyBlocked),
        funds::withdraw_error(v, env, amount, who) == Some(Error::ReentrancyBlocked),
        yields::deploy_error(v, env, amount) == Some(Error::ReentrancyBlocked),
        yields::withdraw_yield_error(v, env, amount) == Some(Error::ReentrancyBlocked),
        yields::harvest_request_error(v, env) == Some(Error::ReentrancyBlocked),
{
}

/// Whether an effect runs the code of another contract.
pub open spec fn calls_out(effect: Effect) -> bool {
    effect is Transfer || effect is StrategyDeposit
}

/// Whether the stored reentrancy flag is set once the effects are performed in order, from
/// a clear one.
pub open spec fn lock_held(effects: Seq<Effect>) -> bool
    decreases effects.len(),
{
    if effects.len() == 0 {
        false
    } else {
        match effects.last() {
            Effect::SetReentrancyLock(held) => held,
            _ => lock_held(effects.drop_last()),
        }
    }
}

/// Whether other contracts run only while the flag is set, and it is clear at the end.
pub open spec fn calls_out_under_lock(effects: Seq<Effect>) -> bool {
    &&& forall|i: int|
        0 <= i < effects.len() && calls_out(#[trigger] effects[i]) ==> lock_held(effects.take(i))
    &&& !lock_held(effects)
}

spec fn leaves_lock_alone(effects: Seq<Effect>) -> bool {
    forall|i: int| 0 <= i < effects.len() ==> !(#[trigger] effects[i] is SetReentrancyLock)
}

proof fn lemma_lock_is_held_between(effects: Seq<Effect>, i: int)
    requires
        leaves_lock_alone(effects),
        0 < i <= effects.len() + 1,
    ensures
        lock_held(types::under_lock(effects).take(i)),
    decreases i,
{
    let all = types::under_lock(effects);
    if i == 1 {
        assert(all.take(1).last() == Effect::SetReentrancyLock(true));
    } else {
        lemma_lock_is_held_between(effects, i - 1);
        assert(all.take(i).drop_last() =~= all.take(i - 1));
        assert(all.take(i).last() == effects[i - 2]);
    }
}

proof fn lemma_guarded_effects_call_out_under_lock(effects: Seq<Effect>)
    requires
        leaves_lock_alone(effects),
    ensures
        calls_out_under_lock(types::under_lock(effects)),
{
    let all = types::under_lock(effects);
    assert forall|i: int| 0 <= i < all.len() && calls_out(#[trigger] all[i]) implies lock_held(
        all.take(i),
    ) by {
        if i == 0 {
            assert(all[i] == Effect::SetReentrancyLock(true));
        } else {
            lemma_lock_is_held_between(effects, i);
        }
    }
    assert(all.last() == Effect::SetReentrancyLock(false));
}

proof fn lemma_batch_leaves_lock_alone<O: Oracle>(
    v: VaultState,
    ledger: Ledger,
    float: int,
    feeds: O,
    claims: Seq<RefundClaim>,
)
    ensures
        refunds::batch_outcome(v, ledger, float, feeds, claims) matches Ok(s) ==> leaves_lock_alone(
            s.effects,
        ),
    decreases claims.len(),
{
    if claims.len() > 0 {
        lemma_batch_leaves_lock_alone(v, ledger, float, feeds, claims.drop_last());
    }
}

/// While a guarded call moves tokens or calls a strategy, the stored reentrancy flag is
/// set, so that no other guarded call can run; afterwards it is clear. This holds of the
/// effects of every guarded call.
pub proof fn law_guarded_calls_hold_the_lock<O: Oracle>(
    v: VaultState,
    env: Env,
    feeds: O,
    c: RefundClaim,
    claims: Seq<RefundClaim>,
    who: Address,
    amount: i128,
    yield_amount: i128,
)
    ensures
        calls_out_under_lock(types::under_lock(refunds::refund_effects(v, env.ledger, c))),
        refunds::batch_outcome(v, env.ledger, env.float as int, feeds, claims) matches Ok(s)
            ==> calls_out_under_lock(types::under_lock(s.effects)),
        calls_out_under_lock(types::under_lock(funds::deposit_effects(v, env, who, amount))),
        calls_out_under_lock(types::under_lock(funds::withdraw_effects(v, env, amount, who))),
        calls_out_under_lock(types::under_lock(yields::deploy_effects(v, env, amount))),
        calls_out_under_lock(
            types::under_lock(yields::withdrawal_effects(who, amount, yield_amount)),
        ),
        calls_out_under_lock(types::under_lock(yields::harvest_effects(amount))),
{
    lemma_guarded_effects_call_out_under_lock(refunds::refund_effects(v, env.ledger, c));
    lemma_batch_leaves_lock_alone(v, env.ledger, env.float as int, feeds, claims);
    if let Ok(s) = refunds::batch_outcome(v, env.ledger, env.float as int, feeds, claims) {
        lemma_guarded_effects_call_out_under_lock(s.effects);
    }
    lemma_guarded_effects_call_out_under_lock(funds::deposit_effects(v, env, who, amount));
    lemma_guarded_effects_call_out_under_lock(funds::withdraw_effects(v, env, amount, who));
    lemma_guarded_effects_call_out_under_lock(yields::deploy_effects(v, env, amount));
    lemma_guarded_effects_call_out_under_lock(yields::withdrawal_effects(who, amount, yield_amount));
    lemma_guarded_effects_call_out_under_lock(yields::harvest_effects(amount));
}

/// The reentrancy flag moves no money.
pub proof fn law_lock_moves_no_money(effects: Seq<Effect>, contract: Address)
    ensures
        net_flow(types::under_lock(effects), contract) == net_flow(effects, contract),
{
    let set = seq![Effect::SetReentrancyLock(true)];
    let clear = seq![Effect::SetReentrancyLock(false)];
    reveal_with_fuel(net_flow, 2);
    assert(set.drop_last() =~= Seq::<Effect>::empty());
    assert(clear.drop_last() =~= Seq::<Effect>::empty());
    lemma_net_flow_of_concatenation(set, effects, contract);
    lemma_net_flow_of_concatenation(set + effects, clear, contract);
}

/// A policy takes effect no sooner than the timelock after it was proposed.
pub proof fn law_policy_waits_for_its_timelock(v: VaultState, env: Env)
    requires
        policy::execute_error(v, env) is None,
    ensures
        v.pending_policy is Some,
        env.ledger.sequence >= v.pending_policy->0.proposed_at_ledger + POLICY_TIMELOCK,
{
}

/// Deposits and withdrawals move the float by what their transfers move.
pub proof fn law_float_follows_transfers(
    v: VaultState,
    env: Env,
    who: Address,
    amount: i128,
)
    requires
        amount > 0,
    ensures
        funds::deposit_error(v, env, who, amount) is None ==> funds::deposit_float(env, who, amount)
            == env.float + net_flow(
            types::under_lock(funds::deposit_effects(v, env, who, amount)),
            env.ledger.contract,
        ),
        funds::withdraw_error(v, env, amount, who) is None ==> env.float - amount == env.float
            + net_flow(
            types::under_lock(funds::withdraw_effects(v, env, amount, who)),
            env.ledger.contract,
        ),
        yields::deploy_error(v, env, amount) is None ==> yields::deploy_float(v, env, amount)
            == env.float + net_flow(
            types::under_lock(yields::deploy_effects(v, env, amount)),
            env.ledger.contract,
        ),
{
    reveal_with_fuel(net_flow, 6);
    let d = funds::deposit_effects(v, env, who, amount);
    assert(d.drop_last().drop_last().drop_last() =~= Seq::<Effect>::empty());
    let w = funds::withdraw_effects(v, env, amount, who);
    assert(w.drop_last().drop_last().drop_last() =~= Seq::<Effect>::empty());
    let y = yields::deploy_effects(v, env, amount);
    assert(y.drop_last().drop_last().drop_last().drop_last().drop_last() =~= Seq::<
        Effect,
    >::empty());
    law_lock_moves_no_money(d, env.ledger.contract);
    law_lock_moves_no_money(w, env.ledger.contract);
    law_lock_moves_no_money(y, env.ledger.contract);
}

/// A withdrawal never overdraws the vault, and neither does a deployment.
pub proof fn law_float_stays_non_negative(v: VaultState, env: Env, who: Address, amount: i128)
    requires
        env.float >= 0,
    ensures
        funds::withdraw_error(v, env, amount, who) is None ==> env.float - amount >= 0,
        yields::deploy_error(v, env, amount) is None ==> yields::deploy_float(v, env, amount) >= 0,
{
}

/// A deployment leaves the required reserve liquid and stays within the largest share.
pub proof fn law_deployment_respects_its_ratios(v: VaultState, env: Env, amount: i128)
    requires
        yields::deploy_error(v, env, amount) is None,
    ensures
        ({
            let total = v.total_value(env.float as int);
            &&& env.float - amount >= yields::share_of(total, v.reserve_bps() as int)
            &&& v.deployed() + amount <= yields::share_of(total, v.max_deploy_bps() as int)
        }),
{
}

/// A refund record is kept alive until the window of its payment has passed, and at least
/// for [`TTL_EXTEND`] ledgers; without a window, as long as the network allows.
pub proof fn law_record_outlives_its_window(ledger: Ledger, window: u32, paid_at_ledger: u32)
    requires
        paid_at_ledger + window <= u32::MAX,
    ensures
        window == 0 ==> claims::record_ttl(ledger, window, paid_at_ledger) == ledger.max_ttl,
        window > 0 ==> {
            &&& ledger.sequence + claims::record_ttl(ledger, window, paid_at_ledger)
                >= paid_at_ledger + window
            &&& claims::record_ttl(ledger, window, paid_at_ledger) >= TTL_EXTEND
        },
        0 <= claims::record_ttl(ledger, window, paid_at_ledger) <= u32::MAX,
{
}

/// The in-memory strategy pays out a share of the yield that is never more than what has
/// accrued, and all of it with the last principal.
pub proof fn law_yield_is_paid_in_proportion(s: StrategyState, principal: int)
    requires
        s.holds_principal(principal),
        s.yield_accrued >= 0,
    ensures
        0 <= s.yield_portion(principal) <= s.yield_accrued,
        principal == s.total_deposited ==> s.yield_portion(principal) == s.yield_accrued,
{
    let accrued = s.yield_accrued as int;
    let total = s.total_deposited as int;
    assert(0 <= accrued * principal <= accrued * total) by (nonlinear_arith)
        requires
            accrued >= 0,
            0 < principal <= total,
    ;
    lemma_div_multiples_vanish(accrued, total);
    lemma_mul_is_commutative(accrued, total);
    lemma_div_is_ordered(accrued * principal, accrued * total, total);
    lemma_div_pos_is_pos(accrued * principal, total);
}

/// A solvent in-memory strategy can answer every withdrawal and every harvest, and is
/// solvent afterwards, so that the next one can be answered too. After a harvest nothing
/// is accrued.
pub proof fn law_solvent_strategy_keeps_paying(s: StrategyState, principal: i128)
    requires
        s.solvent(),
    ensures
        s.withdrawable(principal),
        s.withdrawn(principal).solvent(),
        s.harvestable(),
        s.harvested().solvent(),
        s.harvested().yield_accrued == 0,
{
    if s.holds_principal(principal as int) {
        law_yield_is_paid_in_proportion(s, principal as int);
        let accrued = s.yield_accrued as int;
        let total = s.total_deposited as int;
        let portion = s.yield_portion(principal as int);
        assert(0 <= accrued * principal <= accrued * total) by (nonlinear_arith)
            requires
                accrued >= 0,
                0 < principal <= total,
        ;
        assert(0 <= (accrued - portion) * (total - principal) <= accrued * total)
            by (nonlinear_arith)
            requires
                0 <= portion <= accrued,
                0 < principal <= total,
        ;
    }
}

} // verus!
