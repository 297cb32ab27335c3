//! What refunds do, on the fields of the claims and of the stored entries alone.

use super::claims;
use super::laws;
use super::oracle;
use super::oracle::Oracle;
use super::refunds;
use super::refunds::{BatchState, ProcessState};
use super::types;
use super::types::{
    DataKey, Effect, Env, Event, RefundClaim, RefundParam, RefundVault, VaultState,
};
use super::vdf;
use crate::error::Error;
use crate::hash;
use crate::primitives::{Address, BytesN, Ledger};
use vstd::prelude::*;

verus! {

/// The transfers among some effects, in order.
pub open spec fn transfers_of(effects: Seq<Effect>) -> Seq<Effect>
    decreases effects.len(),
{
    if effects.len() == 0 {
        Seq::empty()
    } else if effects.last() is Transfer {
        transfers_of(effects.drop_last()).push(effects.last())
    } else {
        transfers_of(effects.drop_last())
    }
}

/// The events among some effects, in order.
pub open spec fn events_of(effects: Seq<Effect>) -> Seq<Event>
    decreases effects.len(),
{
    if effects.len() == 0 {
        Seq::empty()
    } else {
        match effects.last() {
            Effect::Publish(event) => events_of(effects.drop_last()).push(event),
            _ => events_of(effects.drop_last()),
        }
    }
}

/// What one more effect adds.
pub proof fn lemma_one_more(effects: Seq<Effect>, e: Effect)
    ensures
        transfers_of(effects.push(e)) == if e is Transfer {
            transfers_of(effects).push(e)
        } else {
            transfers_of(effects)
        },
        events_of(effects.push(e)) == match e {
            Effect::Publish(event) => events_of(effects).push(event),
            _ => events_of(effects),
        },
        forall|who: Address| #[trigger]
            laws::net_flow(effects.push(e), who) == laws::net_flow(effects, who) + laws::flow(
                e,
                who,
            ),
{
    assert(effects.push(e).drop_last() =~= effects);
}

/// What more effects add.
pub proof fn lemma_some_more(first: Seq<Effect>, second: Seq<Effect>)
    ensures
        transfers_of(first + second) == transfers_of(first) + transfers_of(second),
        events_of(first + second) == events_of(first) + events_of(second),
    decreases second.len(),
{
    if second.len() == 0 {
        assert(first + second =~= first);
        assert(transfers_of(first) + transfers_of(second) =~= transfers_of(first));
        assert(events_of(first) + events_of(second) =~= events_of(first));
    } else {
        let rest = second.drop_last();
        lemma_some_more(first, rest);
        assert((first + second).drop_last() =~= first + rest);
        assert((first + second).last() == second.last());
        if second.last() is Transfer {
            assert(transfers_of(first) + transfers_of(second) =~= (transfers_of(first)
                + transfers_of(rest)).push(second.last()));
        }
        if let Effect::Publish(event) = second.last() {
            assert(events_of(first) + events_of(second) =~= (events_of(first) + events_of(
                rest,
            )).push(event));
        }
    }
}

/// Why the delay rule refuses a claim: a proof is owed exactly where the policy has a
/// delay, and its first half is the output and its second the witness of that delay, for
/// the digest of the payment reference as the challenge.
pub proof fn law_delay_is_proved_for_the_payment(
    vdf_delay: u32,
    payment_ref: BytesN<32>,
    vdf_proof: Option<BytesN<256>>,
)
    ensures
        ({
            let e = claims::vdf_error(vdf_delay, payment_ref, vdf_proof);
            let challenge = Seq::new(96, |i: int| 0u8) + hash::sha256_of(payment_ref@);
            &&& vdf_delay == 0 && vdf_proof is None ==> e is None
            &&& vdf_delay == 0 && vdf_proof is Some ==> e == Some(Error::VdfNotConfigured)
            &&& vdf_delay > 0 && vdf_proof is None ==> e == Some(Error::VdfProofRequired)
            &&& vdf_delay > 0 && vdf_proof is Some ==> {
                let packed = vdf_proof->0@;
                let sound = vdf::vdf_accepts(
                    challenge,
                    vdf_delay,
                    packed.take(128),
                    packed.skip(128),
                );
                &&& sound ==> e is None
                &&& !sound ==> e == Some(Error::InvalidVdfProof)
            }
        }),
{
    let challenge = Seq::new(96, |i: int| 0u8) + hash::sha256_of(payment_ref@);
    assert(claims::payment_challenge(payment_ref) =~= challenge);
    if let Some(packed) = vdf_proof {
        assert(packed@.len() == 256);
        assert(packed@.subrange(0, 128) =~= packed@.take(128));
        assert(packed@.subrange(128, 256) =~= packed@.skip(128));
    }
}

/// Whether the policy's window, deadline and delay let a claim pass.
pub open spec fn in_time(v: VaultState, ledger: Ledger, c: RefundClaim) -> bool {
    &&& v.refund_window->0 == 0 || ledger.sequence <= c.paid_at_ledger + v.refund_window->0
    &&& v.refund_deadline == 0 || ledger.timestamp <= v.refund_deadline
    &&& claims::vdf_error(v.vdf_delay, c.payment_ref, c.vdf_proof) is None
}

/// What has been refunded of the payment so far.
pub open spec fn refunded_so_far(v: VaultState, c: RefundClaim) -> int {
    if v.refunds.dom().contains(c.payment_ref) {
        v.refunds[c.payment_ref].amount_refunded as int
    } else {
        0
    }
}

/// The ceiling that the claim counts against.
pub open spec fn limit(v: VaultState, c: RefundClaim) -> int {
    if v.refunds.dom().contains(c.payment_ref) {
        v.refunds[c.payment_ref].payment_amount as int
    } else {
        c.payment_amount as int
    }
}

/// Who collects the fee.
pub open spec fn collector(v: VaultState) -> Address {
    if v.fee_recipient is Some {
        v.fee_recipient->0
    } else {
        v.admin->0
    }
}

/// When a claim is accepted: it asks for something, for somebody else than the vault, on a
/// payment that was not refunded under the single-refund rule; it is in time; the median of
/// the oracles is on the right side of the policy's threshold, if there is a policy; and,
/// with what was refunded before, it stays within the payment, and within the float; and
/// the vault does not collect its own fee.
pub proof fn law_claim_is_accepted_when<O: Oracle>(
    v: VaultState,
    ledger: Ledger,
    float: int,
    feeds: O,
    c: RefundClaim,
)
    requires
        v.wf(),
        v.initialized(),
    ensures
        claims::claim_error(v, ledger, float, feeds, c) is None <==> {
            &&& c.amount > 0
            &&& c.recipient != ledger.contract
            &&& !v.legacy_refunds.contains(c.payment_ref)
            &&& v.refund_window->0 > 0 ==> ledger.sequence <= c.paid_at_ledger
                + v.refund_window->0
            &&& v.refund_deadline > 0 ==> ledger.timestamp <= v.refund_deadline
            &&& claims::vdf_error(v.vdf_delay, c.payment_ref, c.vdf_proof) is None
            &&& v.oracle_policy matches Some(policy) ==> (oracle::median_answer(
                feeds,
                v.oracles,
                policy.feed_id,
                policy.max_staleness_ledgers,
                ledger.sequence,
            ) matches Ok(median) && (if policy.refund_when_below {
                median < policy.threshold
            } else {
                median > policy.threshold
            }))
            &&& if v.refunds.dom().contains(c.payment_ref) {
                v.refunds[c.payment_ref].amount_refunded + c.amount
                    <= v.refunds[c.payment_ref].payment_amount
            } else {
                c.amount <= c.payment_amount
            }
            &&& c.amount <= float
            &&& v.fee_bps > 0 ==> (if v.fee_recipient is Some {
                v.fee_recipient->0
            } else {
                v.admin->0
            }) != ledger.contract
        },
{
    reveal(claims::claim_error);
    if c.amount > 0 {
        laws::law_fee_rounds_up(c.amount as int, v.fee_bps as int);
    }
    assert(v.refunds.contains_key(c.payment_ref) <==> v.refunds.dom().contains(c.payment_ref));
}

/// Which error a refused claim gets: each one where the rules before it are met and its own
/// is not, in this order.
pub proof fn law_claim_gets_the_first_error<O: Oracle>(
    v: VaultState,
    ledger: Ledger,
    float: int,
    feeds: O,
    c: RefundClaim,
)
    requires
        v.wf(),
        v.initialized(),
    ensures
        ({
            let e = claims::claim_error(v, ledger, float, feeds, c);
            let formed = c.amount > 0 && c.recipient != ledger.contract
                && !v.legacy_refunds.contains(c.payment_ref);
            let gate = claims::gate_error(v, ledger, feeds);
            let open = formed && in_time(v, ledger, c) && gate is None;
            let covered = refunded_so_far(v, c) + c.amount <= limit(v, c);
            &&& c.amount <= 0 ==> e == Some(Error::InvalidAmount)
            &&& c.amount > 0 && c.recipient == ledger.contract ==> e == Some(Error::SelfTransfer)
            &&& c.amount > 0 && c.recipient != ledger.contract && !formed ==> e == Some(
                Error::ExceedsPayment,
            )
            &&& formed && v.refund_window->0 > 0 && ledger.sequence > c.paid_at_ledger
                + v.refund_window->0 ==> e == Some(Error::WindowExpired)
            &&& formed && !(v.refund_window->0 > 0 && ledger.sequence > c.paid_at_ledger
                + v.refund_window->0) && v.refund_deadline > 0 && ledger.timestamp
                > v.refund_deadline ==> e == Some(Error::RefundExpired)
            &&& formed && in_time(v, ledger, c) && gate is Some ==> e == gate
            &&& open && !covered ==> e == Some(Error::ExceedsPayment)
            &&& open && covered && c.amount > float ==> e == Some(Error::InsufficientFloat)
            &&& open && covered && c.amount <= float && v.fee_bps > 0 && collector(v)
                == ledger.contract ==> e == Some(Error::SelfTransfer)
        }),
{
    reveal(claims::claim_error);
    if c.amount > 0 {
        laws::law_fee_rounds_up(c.amount as int, v.fee_bps as int);
    }
    assert(v.refunds.contains_key(c.payment_ref) <==> v.refunds.dom().contains(c.payment_ref));
}

/// The delay rule has its turn after the window and the deadline.
pub proof fn law_delay_error_is_passed_on<O: Oracle>(
    v: VaultState,
    ledger: Ledger,
    float: int,
    feeds: O,
    c: RefundClaim,
)
    requires
        c.amount > 0,
        c.recipient != ledger.contract,
        !v.legacy_refunds.contains(c.payment_ref),
        v.refund_window->0 > 0 ==> ledger.sequence <= c.paid_at_ledger + v.refund_window->0,
        v.refund_deadline > 0 ==> ledger.timestamp <= v.refund_deadline,
        claims::vdf_error(v.vdf_delay, c.payment_ref, c.vdf_proof) is Some,
    ensures
        claims::claim_error(v, ledger, float, feeds, c) == claims::vdf_error(
            v.vdf_delay,
            c.payment_ref,
            c.vdf_proof,
        ),
{
    reveal(claims::claim_error);
}

/// What the oracle gate answers: nothing without a policy; the aggregator's error; or
/// `OraclePolicyDenied` where the median is not strictly on the side that the policy names.
pub proof fn law_gate_asks_the_median<O: Oracle>(v: VaultState, ledger: Ledger, feeds: O)
    ensures
        ({
            let e = claims::gate_error(v, ledger, feeds);
            match v.oracle_policy {
                None => e is None,
                Some(policy) => {
                    let answer = oracle::median_answer(
                        feeds,
                        v.oracles,
                        policy.feed_id,
                        policy.max_staleness_ledgers,
                        ledger.sequence,
                    );
                    &&& answer matches Err(refusal) ==> e == Some(refusal)
                    &&& answer matches Ok(median) ==> {
                        let permitted = if policy.refund_when_below {
                            median < policy.threshold
                        } else {
                            median > policy.threshold
                        };
                        &&& permitted ==> e is None
                        &&& !permitted ==> e == Some(Error::OraclePolicyDenied)
                    }
                },
            }
        }),
{
}

/// Whom an accepted claim pays: its own recipient, the amount less the fee, whatever is on
/// record for the payment; then, if there is a fee, the fee recipient, or else the
/// merchant, the fee. All in the settlement token, from the vault, and nobody else. `fee`
/// is the share of the amount, rounded up.
pub proof fn law_claim_pays_its_recipient<O: Oracle>(
    v: VaultState,
    ledger: Ledger,
    float: int,
    feeds: O,
    c: RefundClaim,
    fee: int,
    who: Address,
)
    requires
        v.wf(),
        v.initialized(),
        claims::claim_error(v, ledger, float, feeds, c) is None,
        c.amount * v.fee_bps <= fee * 10_000 < c.amount * v.fee_bps + 10_000,
    ensures
        ({
            let payout = Effect::Transfer {
                token: v.token->0,
                from: ledger.contract,
                to: c.recipient,
                amount: (c.amount - fee) as i128,
            };
            let fee_payment = Effect::Transfer {
                token: v.token->0,
                from: ledger.contract,
                to: if v.fee_recipient is Some {
                    v.fee_recipient->0
                } else {
                    v.admin->0
                },
                amount: fee as i128,
            };
            let effects = claims::claim_effects(v, ledger, c);
            &&& 0 <= fee <= c.amount
            &&& transfers_of(effects) == if fee > 0 {
                seq![payout, fee_payment]
            } else {
                seq![payout]
            }
            &&& transfers_of(refunds::refund_effects(v, ledger, c)) == transfers_of(effects)
            &&& events_of(effects) == Seq::<Event>::empty()
            &&& laws::net_flow(effects, who) == (if who == c.recipient {
                c.amount - fee
            } else {
                0
            }) + (if fee > 0 && who == fee_payment->Transfer_to {
                fee
            } else {
                0
            }) - (if who == ledger.contract {
                c.amount as int
            } else {
                0
            })
        }),
{
    reveal(claims::claim_error);
    laws::law_fee_rounds_up(c.amount as int, v.fee_bps as int);
    assert(fee == claims::claim_fee(v, c));
    let effects = claims::claim_effects(v, ledger, c);
    let payout = effects[0];
    let nothing = Seq::<Effect>::empty();
    let renewal = types::renewal();
    let record = claims::record_renewal(
        ledger,
        v.refund_window->0,
        c.payment_ref,
        c.paid_at_ledger,
    );
    let one = nothing.push(payout);
    lemma_one_more(nothing, payout);
    assert(laws::net_flow(one, who) == laws::flow(payout, who));
    if fee > 0 {
        let second = effects[1];
        let two = one.push(second);
        let three = two.push(renewal);
        lemma_one_more(one, second);
        lemma_one_more(two, renewal);
        lemma_one_more(three, record);
        assert(effects =~= three.push(record));
        assert(transfers_of(effects) =~= seq![payout, second]);
        assert(laws::net_flow(two, who) == laws::flow(payout, who) + laws::flow(second, who));
        assert(laws::net_flow(three, who) == laws::net_flow(two, who));
    } else {
        let two = one.push(renewal);
        lemma_one_more(one, renewal);
        lemma_one_more(two, record);
        assert(effects =~= two.push(record));
        assert(transfers_of(effects) =~= seq![payout]);
        assert(laws::net_flow(two, who) == laws::net_flow(one, who));
    }
    let event = Effect::Publish(Event::Refund(claims::claim_event(v, ledger, c)));
    lemma_one_more(effects, event);
    assert(refunds::refund_effects(v, ledger, c) =~= effects.push(event));
}

/// What an accepted claim leaves on record: the total so far and the claim, against the
/// ceiling that the first one set, with the claim's own recipient and ledger of payment.
/// Nothing else is touched.
pub proof fn law_claim_is_recorded<O: Oracle>(
    v: VaultState,
    ledger: Ledger,
    float: int,
    feeds: O,
    c: RefundClaim,
    other: BytesN<32>,
)
    requires
        v.wf(),
        v.initialized(),
        claims::claim_error(v, ledger, float, feeds, c) is None,
    ensures
        ({
            let w = claims::claimed(v, ledger, c);
            let record = w.refunds[c.payment_ref];
            &&& w.refunds.dom().contains(c.payment_ref)
            &&& if v.refunds.dom().contains(c.payment_ref) {
                &&& record.amount_refunded == v.refunds[c.payment_ref].amount_refunded + c.amount
                &&& record.payment_amount == v.refunds[c.payment_ref].payment_amount
            } else {
                &&& record.amount_refunded == c.amount
                &&& record.payment_amount == c.payment_amount
            }
            &&& record.recipient == c.recipient
            &&& record.paid_at_ledger == c.paid_at_ledger
            &&& record.ledger == ledger.sequence
            &&& other != c.payment_ref ==> {
                &&& w.refunds.dom().contains(other) == v.refunds.dom().contains(other)
                &&& w.refunds[other] == v.refunds[other]
            }
            &&& w == (VaultState { refunds: w.refunds, ..v })
        }),
{
    reveal(claims::claim_error);
    assert(v.refunds.contains_key(c.payment_ref) <==> v.refunds.dom().contains(c.payment_ref));
}

/// What an accepted refund publishes: one event, with the claim's payment, amount and
/// recipient, the fee, the running total and the ledger.
pub proof fn law_refund_publishes_one_event<O: Oracle>(
    v: VaultState,
    ledger: Ledger,
    float: int,
    feeds: O,
    c: RefundClaim,
    fee: int,
)
    requires
        v.wf(),
        v.initialized(),
        claims::claim_error(v, ledger, float, feeds, c) is None,
        c.amount * v.fee_bps <= fee * 10_000 < c.amount * v.fee_bps + 10_000,
    ensures
        ({
            let e = claims::claim_event(v, ledger, c);
            &&& e.payment_ref == c.payment_ref
            &&& e.amount == c.amount
            &&& e.fee == fee
            &&& e.cumulative_refunded == c.amount + (if v.refunds.dom().contains(c.payment_ref) {
                v.refunds[c.payment_ref].amount_refunded as int
            } else {
                0
            })
            &&& e.recipient == c.recipient
            &&& e.ledger == ledger.sequence
            &&& events_of(refunds::refund_effects(v, ledger, c)) == seq![Event::Refund(e)]
        }),
{
    law_claim_pays_its_recipient(v, ledger, float, feeds, c, fee, c.recipient);
    reveal(claims::claim_error);
    laws::law_fee_rounds_up(c.amount as int, v.fee_bps as int);
    let effects = claims::claim_effects(v, ledger, c);
    let event = Effect::Publish(Event::Refund(claims::claim_event(v, ledger, c)));
    lemma_one_more(effects, event);
    assert(refunds::refund_effects(v, ledger, c) =~= effects.push(event));
    assert(v.refunds.contains_key(c.payment_ref) <==> v.refunds.dom().contains(c.payment_ref));
    assert(seq![Event::Refund(claims::claim_event(v, ledger, c))] =~= Seq::<Event>::empty().push(
        Event::Refund(claims::claim_event(v, ledger, c)),
    ));
}

/// How long a record is kept alive: for 518400 ledgers, or until the window of its payment
/// ends where that is later, and no longer; without a window, as long as the network
/// allows. An accepted claim asks for that, and for the instance.
pub proof fn law_claim_keeps_its_record_alive(v: VaultState, ledger: Ledger, c: RefundClaim)
    requires
        c.paid_at_ledger + v.refund_window->0 <= u32::MAX,
    ensures
        ({
            let ttl = claims::record_ttl(ledger, v.refund_window->0, c.paid_at_ledger);
            let left = c.paid_at_ledger + v.refund_window->0 - ledger.sequence;
            let effects = claims::claim_effects(v, ledger, c);
            let n = effects.len() as int;
            &&& v.refund_window->0 == 0 ==> ttl == ledger.max_ttl
            &&& v.refund_window->0 > 0 ==> ttl >= 518_400 && ttl >= left && (ttl == 518_400 || ttl
                == left)
            &&& n >= 3
            &&& effects[n - 1] == (Effect::ExtendTtl {
                key: DataKey::RefundV2(c.payment_ref),
                threshold: ttl as u32,
                extend_to: ttl as u32,
            })
            &&& effects[n - 2] == (Effect::ExtendInstanceTtl { threshold: 100, extend_to: 518_400 })
        }),
{
}

/// An extension of a record is that of its payment: the same one that a claim with its
/// ledger of payment asks for.
pub proof fn law_extension_is_of_the_record(
    ledger: Ledger,
    window: u32,
    payment_ref: BytesN<32>,
    paid_at_ledger: u32,
)
    requires
        paid_at_ledger + window <= u32::MAX,
    ensures
        claims::record_renewal(ledger, window, payment_ref, paid_at_ledger) matches Effect::ExtendTtl {
            key,
            threshold,
            extend_to,
        } && {
            let left = paid_at_ledger + window - ledger.sequence;
            &&& key == DataKey::RefundV2(payment_ref)
            &&& threshold == extend_to
            &&& window == 0 ==> extend_to == ledger.max_ttl
            &&& window > 0 ==> extend_to >= 518_400 && extend_to >= left && (extend_to == 518_400
                || extend_to == left)
        },
{
}

/// A window beyond the last ledger ends with it.
pub proof fn law_record_of_an_endless_window(ledger: Ledger, window: u32, paid_at_ledger: u32)
    requires
        paid_at_ledger + window > u32::MAX,
        window > 0,
    ensures
        ({
            let ttl = claims::record_ttl(ledger, window, paid_at_ledger);
            let left = u32::MAX - ledger.sequence;
            ttl >= 518_400 && ttl >= left && (ttl == 518_400 || ttl == left)
        }),
{
}

/// A batch without claims does nothing.
pub proof fn law_empty_batch_does_nothing<O: Oracle>(
    v: VaultState,
    ledger: Ledger,
    float: int,
    feeds: O,
)
    ensures
        refunds::batch_outcome(v, ledger, float, feeds, Seq::empty()) == Ok::<BatchState, Error>(
            BatchState { vault: v, float, effects: Seq::empty() },
        ),
        refunds::process_outcome(v, ledger, float, feeds, Seq::empty()) == (ProcessState {
            vault: v,
            float,
            effects: Seq::empty(),
            results: Seq::empty(),
        }),
{
}

proof fn lemma_results_of_a_prefix<O: Oracle>(
    v: VaultState,
    ledger: Ledger,
    float: int,
    feeds: O,
    items: Seq<RefundParam>,
    k: int,
)
    requires
        0 <= k <= items.len(),
    ensures
        refunds::process_outcome(v, ledger, float, feeds, items).results.len() == items.len(),
        refunds::process_outcome(v, ledger, float, feeds, items).results.take(k)
            == refunds::process_outcome(v, ledger, float, feeds, items.take(k)).results,
    decreases items.len(),
{
    let whole = refunds::process_outcome(v, ledger, float, feeds, items).results;
    if k == items.len() {
        assert(items.take(k) =~= items);
        if items.len() > 0 {
            lemma_results_of_a_prefix(v, ledger, float, feeds, items.drop_last(), 0);
        }
        assert(whole.take(k) =~= whole);
    } else {
        let rest = items.drop_last();
        lemma_results_of_a_prefix(v, ledger, float, feeds, rest, k);
        assert(rest.take(k) =~= items.take(k));
        let before = refunds::process_outcome(v, ledger, float, feeds, rest).results;
        assert(whole.drop_last() =~= before);
        assert(whole.take(k) =~= before.take(k));
    }
}

/// An item of a best-effort batch is a refund of its own fields: it is applied if and only
/// if a claim with the item's payment, recipient, amount, ledger of payment, payment amount
/// and proof is accepted at that point, and it then does what that claim does. One that is
/// not applied does nothing.
pub proof fn law_item_is_a_refund_of_its_fields<O: Oracle>(
    v: VaultState,
    ledger: Ledger,
    float: int,
    feeds: O,
    items: Seq<RefundParam>,
    k: int,
)
    requires
        0 <= k < items.len(),
    ensures
        ({
            let before = refunds::process_outcome(v, ledger, float, feeds, items.take(k));
            let after = refunds::process_outcome(v, ledger, float, feeds, items.take(k + 1));
            let results = refunds::process_outcome(v, ledger, float, feeds, items).results;
            let claim = RefundClaim {
                payment_ref: items[k].payment_ref,
                recipient: items[k].recipient,
                amount: items[k].amount,
                paid_at_ledger: items[k].paid_at_ledger,
                payment_amount: items[k].payment_amount,
                vdf_proof: items[k].vdf_proof,
            };
            &&& results.len() == items.len()
            &&& results[k] <==> claims::claim_error(
                before.vault,
                ledger,
                before.float,
                feeds,
                claim,
            ) is None
            &&& after.results == results.take(k + 1)
            &&& if results[k] {
                &&& after.vault == claims::claimed(before.vault, ledger, claim)
                &&& after.float == before.float - items[k].amount
                &&& after.effects == before.effects + claims::claim_effects(
                    before.vault,
                    ledger,
                    claim,
                )
            } else {
                &&& after.vault == before.vault
                &&& after.float == before.float
                &&& after.effects == before.effects
            }
        }),
{
    lemma_results_of_a_prefix(v, ledger, float, feeds, items, k + 1);
    assert(items.take(k + 1).drop_last() =~= items.take(k));
    assert(items.take(k + 1).last() == items[k]);
    let results = refunds::process_outcome(v, ledger, float, feeds, items).results;
    lemma_results_of_a_prefix(v, ledger, float, feeds, items.take(k), k);
    assert(items.take(k).take(k) =~= items.take(k));
    let after = refunds::process_outcome(v, ledger, float, feeds, items.take(k + 1));
    assert(after.results[k] == results.take(k + 1)[k]);
}

/// An item never goes beyond its payment: without a record of the payment it is applied
/// only if its amount is positive and within its own payment amount, which becomes the
/// ceiling; with one, only within the ceiling on record, which stays. The record then names
/// the item's own recipient and ledger of payment.
pub proof fn law_item_stays_within_its_payment<O: Oracle>(
    v: VaultState,
    ledger: Ledger,
    float: int,
    feeds: O,
    items: Seq<RefundParam>,
    k: int,
)
    requires
        v.wf(),
        v.initialized(),
        0 <= k < items.len(),
        refunds::process_outcome(v, ledger, float, feeds, items).results[k],
    ensures
        ({
            let before = refunds::process_outcome(v, ledger, float, feeds, items.take(k)).vault;
            let after = refunds::process_outcome(v, ledger, float, feeds, items.take(k + 1)).vault;
            let item = items[k];
            let record = after.refunds[item.payment_ref];
            &&& item.amount > 0
            &&& after.refunds.dom().contains(item.payment_ref)
            &&& if before.refunds.dom().contains(item.payment_ref) {
                let had = before.refunds[item.payment_ref];
                &&& had.amount_refunded + item.amount <= had.payment_amount
                &&& record.amount_refunded == had.amount_refunded + item.amount
                &&& record.payment_amount == had.payment_amount
            } else {
                &&& item.amount <= item.payment_amount
                &&& record.amount_refunded == item.amount
                &&& record.payment_amount == item.payment_amount
            }
            &&& record.recipient == item.recipient
            &&& record.paid_at_ledger == item.paid_at_ledger
            &&& record.ledger == ledger.sequence
        }),
{
    law_item_is_a_refund_of_its_fields(v, ledger, float, feeds, items, k);
    laws::law_process_accounts_for_the_float(v, ledger, float, feeds, items.take(k));
    let before = refunds::process_outcome(v, ledger, float, feeds, items.take(k));
    let claim = RefundClaim {
        payment_ref: items[k].payment_ref,
        recipient: items[k].recipient,
        amount: items[k].amount,
        paid_at_ledger: items[k].paid_at_ledger,
        payment_amount: items[k].payment_amount,
        vdf_proof: items[k].vdf_proof,
    };
    law_claim_is_accepted_when(before.vault, ledger, before.float, feeds, claim);
    law_claim_is_recorded(before.vault, ledger, before.float, feeds, claim, claim.payment_ref);
}

/// The claims that a best-effort batch books are the items that it applied: the last item
/// is the last of them, with its own fields, if it was applied, and does not count
/// otherwise.
pub proof fn law_applied_items_are_booked(
    items: Seq<RefundParam>,
    results: Seq<bool>,
    item: RefundParam,
    applied: bool,
)
    requires
        items.len() == results.len(),
    ensures
        ({
            let before = refunds::applied_claims(items, results);
            let after = refunds::applied_claims(items.push(item), results.push(applied));
            if applied {
                after == before.push(
                    RefundClaim {
                        payment_ref: item.payment_ref,
                        recipient: item.recipient,
                        amount: item.amount,
                        paid_at_ledger: item.paid_at_ledger,
                        payment_amount: item.payment_amount,
                        vdf_proof: item.vdf_proof,
                    },
                )
            } else {
                after == before
            }
        }),
        refunds::applied_claims(Seq::empty(), Seq::empty()) == Seq::<RefundClaim>::empty(),
{
    assert(items.push(item).drop_last() =~= items);
    assert(results.push(applied).drop_last() =~= results);
}

/// Nothing of a best-effort batch publishes an event on its own.
pub proof fn law_items_publish_nothing<O: Oracle>(
    v: VaultState,
    ledger: Ledger,
    float: int,
    feeds: O,
    items: Seq<RefundParam>,
)
    ensures
        events_of(refunds::process_outcome(v, ledger, float, feeds, items).effects) == Seq::<
            Event,
        >::empty(),
    decreases items.len(),
{
    if items.len() > 0 {
        law_items_publish_nothing(v, ledger, float, feeds, items.drop_last());
        let s = refunds::process_outcome(v, ledger, float, feeds, items.drop_last());
        let claim = refunds::item_claim(items.last());
        let effects = claims::claim_effects(s.vault, ledger, claim);
        lemma_some_more(s.effects, effects);
        reveal_with_fuel(events_of, 6);
        if effects.len() == 4 {
            assert(effects.drop_last().drop_last().drop_last().drop_last() =~= Seq::<
                Effect,
            >::empty());
        } else {
            assert(effects.drop_last().drop_last().drop_last() =~= Seq::<Effect>::empty());
        }
    }
}

/// When a best-effort batch is refused as a whole, and what a run of it reports. It is
/// refused if the vault is paused, not initialized, or the merchant did not sign, or if it
/// has more than 100 items. A run answers for each item, and its only event names the
/// payment of each item, and whether it was applied, in order.
pub proof fn law_best_effort_batch_reports_each_item<O: Oracle>(
    pre: RefundVault,
    env: Env,
    feeds: O,
    items: Seq<RefundParam>,
    r: Result<Vec<bool>, Error>,
    post: RefundVault,
    post_env: Env,
)
    requires
        refunds::process_batch_outcome(pre, env, feeds, items, r, post, post_env),
    ensures
        r is Err <==> pre.paused || pre.admin is None || !env.signers@.contains(pre.admin->0)
            || items.len() > 100,
        pre.paused ==> r == Err::<Vec<bool>, Error>(Error::Paused),
        !pre.paused && pre.admin is None ==> r == Err::<Vec<bool>, Error>(Error::NotInitialized),
        !pre.paused && pre.admin is Some && !env.signers@.contains(pre.admin->0) ==> r == Err::<
            Vec<bool>,
            Error,
        >(Error::Unauthorized),
        !pre.paused && pre.admin is Some && env.signers@.contains(pre.admin->0) && items.len()
            > 100 ==> r == Err::<Vec<bool>, Error>(Error::BatchTooLarge),
        r is Err ==> {
            &&& post@ == pre@
            &&& post_env.float == env.float
            &&& post_env.effects@ == env.effects@
        },
        r matches Ok(applied) ==> {
            let s = refunds::process_outcome(pre@, env.ledger, env.float as int, feeds, items);
            let n = post_env.effects@.len() as int;
            &&& applied@.len() == items.len()
            &&& applied@ == s.results
            &&& post@ == s.vault
            &&& items.len() == 0 ==> post_env.effects@ == env.effects@ && post_env.float
                == env.float
            &&& items.len() > 0 ==> {
                &&& post_env.float == s.float
                &&& post_env.effects@.take(n - 2) == env.effects@ + s.effects
                &&& post_env.effects@[n - 1] == (Effect::ExtendInstanceTtl {
                    threshold: 100,
                    extend_to: 518_400,
                })
                &&& post_env.effects@[n - 2] matches Effect::Publish(Event::BatchRefund(report))
                    && {
                    &&& report.payment_refs@.len() == items.len()
                    &&& report.results@ == applied@
                    &&& forall|i: int|
                        0 <= i < items.len() ==> (#[trigger] report.payment_refs@[i])
                            == items[i].payment_ref
                }
            }
        },
{
    assert(env.effects@ + Seq::<Effect>::empty() =~= env.effects@);
    lemma_results_of_a_prefix(pre@, env.ledger, env.float as int, feeds, items, 0);
    if r is Ok && items.len() > 0 {
        let s = refunds::process_outcome(pre@, env.ledger, env.float as int, feeds, items);
        let n = post_env.effects@.len() as int;
        let event = post_env.effects@[n - 2];
        assert(post_env.effects@ == env.effects@ + s.effects.push(event).push(types::renewal()));
        assert(post_env.effects@.take(n - 2) =~= env.effects@ + s.effects);
        assert(refunds::reports_batch(event, items, s.results));
    }
}

/// What a single refund does as a whole. It goes ahead only if no guarded call runs, the
/// vault is not paused, the merchant signed, and the claim is accepted. A refused one
/// leaves no trace.
pub proof fn law_refund_as_a_whole<O: Oracle>(
    pre: RefundVault,
    env: Env,
    feeds: O,
    c: RefundClaim,
    r: Result<(), Error>,
    post: RefundVault,
    post_env: Env,
)
    requires
        refunds::refund_outcome(pre, env, feeds, c, r, post, post_env),
    ensures
        ({
            let e = claims::claim_error(pre@, env.ledger, env.float as int, feeds, c);
            let signed = pre.admin is Some && env.signers@.contains(pre.admin->0);
            &&& r is Ok <==> !pre.reentrancy_lock && !pre.paused && signed && e is None
            &&& pre.reentrancy_lock ==> r == Err::<(), Error>(Error::ReentrancyBlocked)
            &&& !pre.reentrancy_lock && pre.paused ==> r == Err::<(), Error>(Error::Paused)
            &&& !pre.reentrancy_lock && !pre.paused && signed && e is Some ==> r == Err::<
                (),
                Error,
            >(e->0)
            &&& r is Err ==> {
                &&& post@ == pre@
                &&& post_env.float == env.float
                &&& post_env.effects@ == env.effects@
            }
            &&& r is Ok ==> {
                let asked = post_env.effects@.skip(env.effects@.len() as int);
                let n = asked.len() as int;
                &&& post@ == claims::claimed(pre@, env.ledger, c)
                &&& post_env.float == env.float - c.amount
                &&& env.effects@.is_prefix_of(post_env.effects@)
                &&& asked.subrange(1, n - 1) == refunds::refund_effects(pre@, env.ledger, c)
                &&& asked[0] == Effect::SetReentrancyLock(true)
                &&& asked[n - 1] == Effect::SetReentrancyLock(false)
            }
        }),
{
    assert(env.effects@ + Seq::<Effect>::empty() =~= env.effects@);
    if r is Ok {
        let inner = refunds::refund_effects(pre@, env.ledger, c);
        let asked = post_env.effects@.skip(env.effects@.len() as int);
        assert(asked =~= types::under_lock(inner));
        assert(asked.subrange(1, asked.len() - 1) =~= inner);
    }
}

/// What an atomic batch does as a whole: all of its claims, one after the other, or
/// nothing.
pub proof fn law_atomic_batch_as_a_whole<O: Oracle>(
    pre: RefundVault,
    env: Env,
    feeds: O,
    claims: Seq<RefundClaim>,
    r: Result<(), Error>,
    post: RefundVault,
    post_env: Env,
)
    requires
        refunds::claim_batch_outcome(pre, env, feeds, claims, r, post, post_env),
    ensures
        ({
            let outcome = refunds::batch_outcome(
                pre@,
                env.ledger,
                env.float as int,
                feeds,
                claims,
            );
            let signed = pre.admin is Some && env.signers@.contains(pre.admin->0);
            &&& r is Ok <==> !pre.reentrancy_lock && !pre.paused && signed && outcome is Ok
            &&& pre.reentrancy_lock ==> r == Err::<(), Error>(Error::ReentrancyBlocked)
            &&& !pre.reentrancy_lock && pre.paused ==> r == Err::<(), Error>(Error::Paused)
            &&& !pre.reentrancy_lock && !pre.paused && signed ==> (outcome matches Err(e) ==> r
                == Err::<(), Error>(e))
            &&& r is Err ==> {
                &&& post@ == pre@
                &&& post_env.float == env.float
                &&& post_env.effects@ == env.effects@
            }
            &&& r is Ok ==> {
                let asked = post_env.effects@.skip(env.effects@.len() as int);
                let n = asked.len() as int;
                &&& post@ == outcome->Ok_0.vault
                &&& post_env.float == outcome->Ok_0.float
                &&& env.effects@.is_prefix_of(post_env.effects@)
                &&& asked.subrange(1, n - 1) == outcome->Ok_0.effects
                &&& asked[0] == Effect::SetReentrancyLock(true)
                &&& asked[n - 1] == Effect::SetReentrancyLock(false)
            }
        }),
{
    assert(env.effects@ + Seq::<Effect>::empty() =~= env.effects@);
    if r is Ok {
        let inner = refunds::batch_outcome(
            pre@,
            env.ledger,
            env.float as int,
            feeds,
            claims,
        )->Ok_0.effects;
        let asked = post_env.effects@.skip(env.effects@.len() as int);
        assert(asked =~= types::under_lock(inner));
        assert(asked.subrange(1, asked.len() - 1) =~= inner);
    }
}

/// The signature is asked for after the flag and the pause, of a single refund and of an
/// atomic batch.
pub proof fn law_refunds_are_signed<O: Oracle>(
    pre: RefundVault,
    env: Env,
    feeds: O,
    c: RefundClaim,
    claims: Seq<RefundClaim>,
    r: Result<(), Error>,
    post: RefundVault,
    post_env: Env,
)
    requires
        !pre.reentrancy_lock,
        !pre.paused,
        pre.admin is Some ==> !env.signers@.contains(pre.admin->0),
        refunds::refund_outcome(pre, env, feeds, c, r, post, post_env)
            || refunds::claim_batch_outcome(pre, env, feeds, claims, r, post, post_env),
    ensures
        pre.admin is None ==> r == Err::<(), Error>(Error::NotInitialized),
        pre.admin is Some ==> r == Err::<(), Error>(Error::Unauthorized),
{
}

/// A claim can be checked unless the end of its window is no ledger, or the oracles that
/// gate it are too far apart to be averaged. Prices that are not negative never are.
pub proof fn law_ordinary_claims_are_computable<O: Oracle>(
    v: VaultState,
    ledger: Ledger,
    feeds: O,
    c: RefundClaim,
)
    requires
        v.window() > 0 ==> c.paid_at_ledger + v.window() <= u32::MAX,
        v.oracle_policy is Some && v.oracles is Some ==> forall|i: int|
            0 <= i < v.oracles->0.len() ==> feeds.price(
                #[trigger] v.oracles->0[i],
                v.oracle_policy->0.feed_id,
            ) >= 0,
    ensures
        claims::claim_computable(v, ledger, feeds, c),
{
    if v.oracle_policy is Some && v.oracles is Some {
        oracle::law_ordinary_prices_are_computable(
            feeds,
            v.oracles,
            v.oracle_policy->0.feed_id,
            v.oracle_policy->0.max_staleness_ledgers,
            ledger.sequence,
        );
    }
}

} // verus!
