//! What the calls of the anchor do, on their arguments and the stored entries alone.

use super::anchor;
use super::merkle;
use super::shard;
use super::shard::{ConversionError, InvokeError, ShardInterface};
use super::shard_set::{BatchKey, ShardSet, ShardSetModel};
use super::types;
use super::types::{
    AnchorEvent, AnchorState, BatchRecord, Effect, Env, PruneEvent, ReceiptAnchor,
    ShardCreatedEvent,
};
use super::zk_verifier::ZkProof;
use crate::bytes;
use crate::error::Error;
use crate::hash;
use crate::primitives::{Address, BytesN, Ledger};
use vstd::prelude::*;

verus! {

/// Whether the merchant signed.
pub open spec fn signed(a: AnchorState, env: Env) -> bool {
    a.admin is Some && env.signers@.contains(a.admin->0)
}

/// A merchant's call needs a merchant, and the merchant's signature.
pub proof fn law_merchant_of_the_anchor_is_asked(a: AnchorState, env: Env)
    ensures
        a.merchant_error(env) is None <==> signed(a, env),
        a.admin is None ==> a.merchant_error(env) == Some(Error::NotInitialized),
        a.admin is Some && !signed(a, env) ==> a.merchant_error(env) == Some(Error::Unauthorized),
        a.initialized() <==> a.admin is Some,
        a.batch_count is None ==> a.count() == 0,
        a.batch_count matches Some(count) ==> a.count() == count,
        a.root_buffer matches Some(roots) ==> a.roots() == roots,
        types::renewal() == (Effect::ExtendInstanceTtl { threshold: 100, extend_to: 518_400 }),
{
}

/// The batch ids come in runs of 200, one for each shard, from 1 on.
pub proof fn law_shards_take_200_ids(id: int, index: int)
    requires
        id >= 1,
    ensures
        anchor::shard_index(id) == index <==> 200 * index + 1 <= id < 200 * index + 201,
        anchor::shard_start(index) == 200 * index + 1,
{
}

/// What a reply comes down to: the value, the shard's own error, or `ShardCallFailed` for
/// everything else.
pub proof fn law_reply_comes_down_to<T>(value: T, e: Error)
    ensures
        shard::reply_result::<T>(Ok(Ok(value))) == Ok::<T, Error>(value),
        shard::reply_result::<T>(Err(Ok(e))) == Err::<T, Error>(e),
        shard::reply_result::<T>(Ok(Err(ConversionError))) == Err::<T, Error>(
            Error::ShardCallFailed,
        ),
        shard::reply_result::<T>(Err(Err(InvokeError))) == Err::<T, Error>(Error::ShardCallFailed),
{
}

/// A batch is looked up in the shard of its run of ids, under its own id, and what that
/// shard answers is the answer; an id without a shard is not found.
pub proof fn law_batches_are_looked_up_in_their_shard<S: ShardInterface>(
    a: AnchorState,
    m: S::Model,
    id: u64,
    index: u64,
    leaf: BytesN<32>,
    proof: Seq<BytesN<32>>,
)
    requires
        200 * index + 1 <= id < 200 * index + 201,
    ensures
        if a.shards.dom().contains(index) {
            let home = a.shards[index];
            &&& anchor::batch_home(a, id) == Ok::<Address, Error>(home)
            &&& anchor::batch_answer::<S>(a, m, id) == shard::reply_result(
                S::get_batch_reply(m, home, id),
            )
            &&& anchor::receipt_answer::<S>(a, m, id, leaf, proof) == shard::reply_result(
                S::verify_receipt_reply(m, home, id, leaf, proof),
            )
        } else {
            &&& anchor::batch_home(a, id) == Err::<Address, Error>(Error::BatchNotFound)
            &&& anchor::batch_answer::<S>(a, m, id) == Err::<BatchRecord, Error>(
                Error::BatchNotFound,
            )
            &&& anchor::receipt_answer::<S>(a, m, id, leaf, proof) == Err::<bool, Error>(
                Error::BatchNotFound,
            )
        },
        anchor::batch_home(a, 0) == Err::<Address, Error>(Error::BatchNotFound),
{
    assert(a.shards.contains_key(index) <==> a.shards.dom().contains(index));
}

/// A parent is the digest of its two children, the smaller one first.
pub proof fn law_parent_is_a_digest(a: Seq<u8>, b: Seq<u8>)
    ensures
        bytes::be_nat(a) <= bytes::be_nat(b) ==> merkle::parent(a, b) == hash::sha256_of(a + b),
        bytes::be_nat(a) > bytes::be_nat(b) ==> merkle::parent(a, b) == hash::sha256_of(b + a),
{
}

/// A path is followed sibling by sibling: none leads from a leaf to itself, and one more
/// leads to the digest of what was reached and the sibling. A leaf verifies where it leads
/// to the root.
pub proof fn law_paths_are_followed_upwards(
    root: BytesN<32>,
    leaf: BytesN<32>,
    proof: Seq<BytesN<32>>,
    sibling: BytesN<32>,
)
    ensures
        merkle::proof_root(leaf@, Seq::empty()) == leaf@,
        ({
            let reached = merkle::proof_root(leaf@, proof);
            merkle::proof_root(leaf@, proof.push(sibling)) == hash::sha256_of(
                if bytes::be_nat(reached) <= bytes::be_nat(sibling@) {
                    reached + sibling@
                } else {
                    sibling@ + reached
                },
            )
        }),
        merkle::proves(root, leaf, proof) <==> merkle::proof_root(leaf@, proof) == root@,
{
    assert(proof.push(sibling).drop_last() =~= proof);
}

/// What `verify_receipt_by_root` answers: with at most ten siblings, for a root that is in
/// the buffer, whether the path leads there; and otherwise an error, in this order.
pub proof fn law_root_is_looked_up(
    a: AnchorState,
    root: BytesN<32>,
    leaf: BytesN<32>,
    proof: Seq<BytesN<32>>,
)
    ensures
        ({
            let answer = anchor::root_answer(a, root, leaf, proof);
            let known = a.root_buffer is Some && a.root_buffer->0.contains(root);
            &&& proof.len() > 10 ==> answer == Err::<bool, Error>(Error::ProofTooLong)
            &&& proof.len() <= 10 && a.root_buffer is None ==> answer == Err::<bool, Error>(
                Error::NotInitialized,
            )
            &&& proof.len() <= 10 && a.root_buffer is Some && !known ==> answer == Err::<
                bool,
                Error,
            >(Error::RootNotFound)
            &&& proof.len() <= 10 && known ==> answer == Ok::<bool, Error>(
                merkle::proof_root(leaf@, proof) == root@,
            )
        }),
{
}

/// When a batch is anchored: it has at most 1000 receipts, the merchant signed, the minimum
/// interval since the last one has passed, and its root is not that of the latest batch.
/// The other cases have their errors, in this order.
pub proof fn law_batch_is_anchored_when<S: ShardInterface>(
    a: AnchorState,
    env: Env,
    m: S::Model,
    root: BytesN<32>,
    count: u32,
)
    ensures
        ({
            let e = anchor::anchor_error::<S>(a, env, m, root, count);
            let soon = a.min_anchor_interval > 0 && a.last_anchor_time is Some
                && env.ledger.timestamp < a.last_anchor_time->0 + a.min_anchor_interval;
            let latest = anchor::batch_answer::<S>(a, m, a.count());
            let repeated = a.count() > 0 && latest is Ok && latest->Ok_0.root == root;
            &&& e is None <==> count <= 1000 && signed(a, env) && !soon && !repeated
            &&& count > 1000 ==> e == Some(Error::BatchTooLarge)
            &&& count <= 1000 && a.admin is None ==> e == Some(Error::NotInitialized)
            &&& count <= 1000 && a.admin is Some && !signed(a, env) ==> e == Some(
                Error::Unauthorized,
            )
            &&& count <= 1000 && signed(a, env) && soon ==> e == Some(Error::AnchorRateLimited)
            &&& count <= 1000 && signed(a, env) && !soon && repeated ==> e == Some(
                Error::DuplicateRoot,
            )
        }),
{
}

/// When a batch with a validity proof is anchored: the proof is good, and it would be
/// anchored without. A proof that is not good is the first thing that is refused.
pub proof fn law_proved_batch_is_anchored_when<S: ShardInterface>(
    a: AnchorState,
    env: Env,
    m: S::Model,
    proof: ZkProof,
    root: BytesN<32>,
    count: u32,
)
    ensures
        ({
            let e = anchor::anchor_zk_error::<S>(a, env, m, proof, root, count);
            let good = count >= 1 && proof.a@.len() >= 32 && proof.b@.len() >= 32 && proof.c@.len()
                >= 32 && (exists|i: int| 0 <= i < proof.a@.len() && proof.a@[i] != 0);
            &&& !good ==> e == Some(Error::InvalidProof)
            &&& good ==> e == anchor::anchor_error::<S>(a, env, m, root, count)
        }),
{
}

/// What anchoring changes: there is one more batch; its root is the latest, and the oldest
/// of a hundred is dropped for it; its time is the last one. Besides, at most a shard is
/// added.
pub proof fn law_anchoring_adds_one_batch<S: ShardInterface>(
    a: AnchorState,
    ledger: Ledger,
    m: S::Model,
    root: BytesN<32>,
)
    requires
        a.wf(),
        a.initialized(),
        a.count() < u64::MAX,
    ensures
        ({
            let b = anchor::anchored::<S>(a, ledger, m, root);
            &&& b.batch_count == Some((a.batch_count->0 + 1) as u64)
            &&& b.last_anchor_time == Some(ledger.timestamp)
            &&& b.root_buffer is Some
            &&& b.root_buffer->0.len() == if a.root_buffer->0.len() < 100 {
                a.root_buffer->0.len() + 1
            } else {
                100
            }
            &&& b.root_buffer->0.last() == root
            &&& b.root_buffer->0.drop_last() == if a.root_buffer->0.len() < 100 {
                a.root_buffer->0
            } else {
                a.root_buffer->0.drop_first()
            }
            &&& b == (AnchorState {
                batch_count: b.batch_count,
                last_anchor_time: b.last_anchor_time,
                root_buffer: b.root_buffer,
                shards: b.shards,
                shard_count: b.shard_count,
                ..a
            })
        }),
{
    let b = anchor::anchored::<S>(a, ledger, m, root);
    assert(b.root_buffer->0.drop_last() =~= if a.root_buffer->0.len() < 100 {
        a.root_buffer->0
    } else {
        a.root_buffer->0.drop_first()
    });
}

/// Where a batch is anchored: in the shard of the next id, which is deployed if there is
/// none, under that id, with its root, count and period, and the ledger of the call. The
/// events say the same.
pub proof fn law_batch_is_stored_in_its_shard<S: ShardInterface>(
    a: AnchorState,
    ledger: Ledger,
    m: S::Model,
    root: BytesN<32>,
    count: u32,
    period_start: u64,
    period_end: u64,
    index: u64,
)
    requires
        a.count() < u64::MAX - 201,
        200 * index + 1 <= a.count() + 1 < 200 * index + 201,
    ensures
        ({
            let id = (a.count() + 1) as u64;
            let record = anchor::record_of(ledger, root, count, period_start, period_end);
            let after = anchor::model_after_anchor::<S>(a, ledger, m, record);
            let b = anchor::anchored::<S>(a, ledger, m, root);
            let effects = anchor::anchor_effects::<S>(a, ledger, m, record);
            let n = effects.len() as int;
            let salt = anchor::shard_salt_bytes(index);
            let hash = a.shard_wasm_hash->0;
            let start = (200 * index + 1) as u64;
            let end = (200 * index + 201) as u64;
            &&& record.root == root
            &&& record.count == count
            &&& record.period_start == period_start
            &&& record.period_end == period_end
            &&& record.anchored_ledger == ledger.sequence
            &&& n >= 2
            &&& effects[n - 1] == Effect::PublishAnchor(
                AnchorEvent {
                    batch_id: id,
                    root,
                    count,
                    period_start,
                    period_end,
                    anchored_ledger: ledger.sequence,
                },
            )
            &&& effects[n - 2] == (Effect::ExtendInstanceTtl { threshold: 100, extend_to: 518_400 })
            &&& if a.shards.dom().contains(index) {
                &&& after == S::after_anchor(m, a.shards[index], id, record)
                &&& b.shards == a.shards
                &&& b.shard_count == a.shard_count
                &&& n == 2
            } else {
                let home = S::deploy_address(m, ledger.contract, salt, hash);
                &&& after == S::after_anchor(
                    S::after_deploy(m, ledger.contract, salt, hash, start, end),
                    home,
                    id,
                    record,
                )
                &&& b.shards == a.shards.insert(index, home)
                &&& n == 3
                &&& effects[0] == Effect::PublishShardCreated(
                    ShardCreatedEvent {
                        shard_index: index,
                        shard_address: home,
                        start_batch_id: start,
                        end_batch_id: end,
                    },
                )
            }
        }),
{
    assert(a.shards.contains_key(index) <==> a.shards.dom().contains(index));
    assert(anchor::shard_index(a.count() + 1) == index);
}

/// What a call that anchors does: all of it, or nothing.
pub proof fn law_anchoring_is_all_or_nothing<S: ShardInterface>(
    pre: ReceiptAnchor,
    env: Env,
    shards: S,
    error: Option<Error>,
    record: BatchRecord,
    r: Result<u64, Error>,
    post: ReceiptAnchor,
    post_env: Env,
    post_shards: S,
)
    requires
        anchor::anchors(pre, env, shards, error, record, r, post, post_env, post_shards),
        pre@.count() < u64::MAX,
    ensures
        r is Ok <==> error is None,
        error matches Some(e) ==> {
            &&& r == Err::<u64, Error>(e)
            &&& post@ == pre@
            &&& post_env.effects@ == env.effects@
            &&& post_shards.model() == shards.model()
        },
        r matches Ok(id) ==> {
            &&& id == pre@.count() + 1
            &&& post@ == anchor::anchored::<S>(pre@, env.ledger, shards.model(), record.root)
            &&& post_env.effects@ == env.effects@ + anchor::anchor_effects::<S>(
                pre@,
                env.ledger,
                shards.model(),
                record,
            )
            &&& post_shards.model() == anchor::model_after_anchor::<S>(
                pre@,
                env.ledger,
                shards.model(),
                record,
            )
        },
        post_env.ledger == env.ledger,
        post_env.signers@ == env.signers@,
{
    assert(env.effects@ + Seq::<Effect>::empty() =~= env.effects@);
}

/// How pruning goes from shard to shard: the shard of the cursor is asked to delete what
/// was anchored before the given ledger, at most what remains of the allowance, and below
/// the end of its run and after the latest batch. It goes on from the answer while there
/// was progress and some of the allowance is left.
pub proof fn law_pruning_asks_shard_after_shard<S: ShardInterface>(
    a: AnchorState,
    m: S::Model,
    before_ledger: u32,
    cursor: u64,
    remaining: nat,
    index: u64,
)
    requires
        200 * index + 1 <= cursor < 200 * index + 201,
        a.count() < u64::MAX - 201,
        remaining <= 100,
    ensures
        ({
            let walk = anchor::prune_walk::<S>(a, m, before_ledger, cursor, remaining);
            let high = if 200 * index + 201 <= a.count() + 1 {
                (200 * index + 201) as u64
            } else {
                (a.count() + 1) as u64
            };
            if remaining == 0 || cursor > a.count() || !a.shards.dom().contains(index) {
                walk.cursor == cursor && walk.model == m
            } else {
                let home = a.shards[index];
                let (next, pruned) = S::prune_reply(
                    m,
                    home,
                    before_ledger,
                    remaining as u32,
                    high,
                );
                let after = S::after_prune(m, home, before_ledger, remaining as u32, high);
                &&& pruned == 0 ==> walk.cursor == next && walk.model == after
                &&& 0 < pruned <= remaining ==> walk == anchor::prune_walk::<S>(
                    a,
                    after,
                    before_ledger,
                    next,
                    (remaining - pruned) as nat,
                )
            }
        }),
{
    assert(a.shards.contains_key(index) <==> a.shards.dom().contains(index));
    assert(anchor::shard_index(cursor as int) == index);
}

/// What a prune does: refused, nothing; otherwise the cursor moves up to where the shards
/// have got to, at most 100 batches from where it was, and one event reports the move, if
/// there was one.
pub proof fn law_prune_as_a_whole<S: ShardInterface>(
    pre: ReceiptAnchor,
    env: Env,
    shards: S,
    before_ledger: u32,
    r: Result<(), Error>,
    post: ReceiptAnchor,
    post_env: Env,
    post_shards: S,
)
    requires
        anchor::prunes(pre, env, shards, before_ledger, r, post, post_env, post_shards),
        pre.pruned_up_to is Some,
    ensures
        r is Ok <==> signed(pre@, env),
        pre.admin is None ==> r == Err::<(), Error>(Error::NotInitialized),
        pre.admin is Some && !signed(pre@, env) ==> r == Err::<(), Error>(Error::Unauthorized),
        r is Err ==> {
            &&& post@ == pre@
            &&& post_env.effects@ == env.effects@
            &&& post_shards.model() == shards.model()
        },
        r is Ok ==> {
            let start = pre.pruned_up_to->0;
            let walk = anchor::prune_walk::<S>(pre@, shards.model(), before_ledger, start, 100);
            let asked = post_env.effects@.skip(env.effects@.len() as int);
            let renewal = Effect::ExtendInstanceTtl { threshold: 100, extend_to: 518_400 };
            &&& post_shards.model() == walk.model
            &&& post@ == (AnchorState { pruned_up_to: post.pruned_up_to, ..pre@ })
            &&& env.effects@.is_prefix_of(post_env.effects@)
            &&& if walk.cursor > start {
                &&& post.pruned_up_to == Some(walk.cursor)
                &&& asked == seq![
                    Effect::PublishPrune(
                        PruneEvent { start_batch_id: start, end_batch_id: walk.cursor },
                    ),
                    renewal,
                ]
            } else {
                &&& post.pruned_up_to == Some(start)
                &&& asked == seq![renewal]
            }
        },
        post_env.ledger == env.ledger,
        post_env.signers@ == env.signers@,
{
    assert(env.effects@ + Seq::<Effect>::empty() =~= env.effects@);
    if r is Ok {
        let start = pre.pruned_up_to->0;
        let walk = anchor::prune_walk::<S>(pre@, shards.model(), before_ledger, start, 100);
        let asked = post_env.effects@.skip(env.effects@.len() as int);
        assert(asked =~= anchor::prune_effects(pre@, walk.cursor));
    }
}

/// What keeping a batch alive does: its shard is asked, and what it answers is the answer.
pub proof fn law_extension_as_a_whole<S: ShardInterface>(
    a: AnchorState,
    m: S::Model,
    id: u64,
    index: u64,
    r: Result<(), Error>,
    after: S::Model,
)
    requires
        200 * index + 1 <= id < 200 * index + 201,
        anchor::extends::<S>(a, m, id, r, after),
    ensures
        !a.shards.dom().contains(index) ==> r == Err::<(), Error>(Error::BatchNotFound),
        a.shards.dom().contains(index) ==> r == shard::reply_result(
            S::extend_reply(m, a.shards[index], id),
        ),
        r is Ok ==> after == S::after_extend(m, a.shards[index], id),
        r is Err ==> after == m,
{
    assert(a.shards.contains_key(index) <==> a.shards.dom().contains(index));
    assert(anchor::shard_index(id as int) == index);
}

/// What can be computed: the end of the minimum interval, unless it lies beyond the range of
/// time; and the next id, while a run of 200 is left after it.
pub proof fn law_only_overflow_stops_an_anchor(a: AnchorState)
    ensures
        a.min_anchor_interval == 0 || a.last_anchor_time is None || a.last_anchor_time->0
            + a.min_anchor_interval <= u64::MAX <==> anchor::rate_limit_computable(a),
        a.count() + 201 < u64::MAX <==> anchor::ids_left(a),
{
}

/// What a shard in memory answers: of a batch that it holds, its record, whether a path of
/// at most ten siblings leads to its root, and that it is kept alive; of any other,
/// `BatchNotFound`.
pub proof fn law_memory_shards_answer(
    m: ShardSetModel,
    shard: Address,
    batch_id: u64,
    leaf: BytesN<32>,
    proof: Seq<BytesN<32>>,
)
    requires
        m.bounds.dom().contains(shard),
    ensures
        ({
            let key = BatchKey { shard, batch_id };
            let get = shard::reply_result(ShardSet::get_batch_reply(m, shard, batch_id));
            let verify = shard::reply_result(
                ShardSet::verify_receipt_reply(m, shard, batch_id, leaf, proof),
            );
            let extend = shard::reply_result(ShardSet::extend_reply(m, shard, batch_id));
            &&& m.batches.dom().contains(key) ==> {
                &&& get == Ok::<BatchRecord, Error>(m.batches[key])
                &&& extend is Ok
                &&& proof.len() <= 10 ==> verify == Ok::<bool, Error>(
                    merkle::proof_root(leaf@, proof) == m.batches[key].root@,
                )
            }
            &&& !m.batches.dom().contains(key) ==> {
                &&& get == Err::<BatchRecord, Error>(Error::BatchNotFound)
                &&& extend == Err::<(), Error>(Error::BatchNotFound)
                &&& proof.len() <= 10 ==> verify == Err::<bool, Error>(Error::BatchNotFound)
            }
            &&& proof.len() > 10 ==> verify == Err::<bool, Error>(Error::ProofTooLong)
        }),
{
    assert(m.bounds.contains_key(shard));
    assert(m.batches.contains_key(BatchKey { shard, batch_id }) <==> m.batches.dom().contains(
        BatchKey { shard, batch_id },
    ));
}

/// An answer to a prune can be booked unless it counts more batches than were asked for, or
/// goes on to no batch at all.
pub proof fn law_prune_answers_are_booked(next: u64, pruned: u64, max_batches: int)
    ensures
        !anchor::prune_fits(next, pruned, max_batches) <==> pruned > max_batches || (next == 0
            && pruned != 0 && pruned != max_batches),
{
}

/// The anchor is bound once: to the first merchant and shard code, with no batch, and with
/// batch one as the next to prune. A second attempt, by anyone, changes nothing.
pub proof fn law_anchor_is_bound_once(
    pre: ReceiptAnchor,
    env: Env,
    merchant: Address,
    wasm_hash: BytesN<32>,
    r: Result<(), Error>,
    post: ReceiptAnchor,
    post_env: Env,
    later: Env,
    other: Address,
    other_hash: BytesN<32>,
    r2: Result<(), Error>,
    post2: ReceiptAnchor,
    later_env: Env,
)
    requires
        anchor::initializes(pre, env, merchant, wasm_hash, r, post, post_env),
        anchor::initializes(post, later, other, other_hash, r2, post2, later_env),
    ensures
        r is Ok <==> pre.admin is None,
        r is Err ==> r == Err::<(), Error>(Error::AlreadyInitialized) && post@ == pre@
            && post_env.effects@ == env.effects@,
        r is Ok ==> {
            &&& post@.admin == Some(merchant)
            &&& post@.shard_wasm_hash == Some(wasm_hash)
            &&& post@.batch_count == Some(0u64)
            &&& post@.pruned_up_to == Some(1u64)
            &&& post@.root_buffer is Some && post@.root_buffer->0.len() == 0
            &&& post@.min_anchor_interval == 0
            &&& post@.shard_count == 0
            &&& post@.shards == pre@.shards
            &&& post@.last_anchor_time == pre@.last_anchor_time
            &&& post_env.effects@ == env.effects@.push(
                Effect::ExtendInstanceTtl { threshold: 100, extend_to: 518_400 },
            )
        },
        r2 == Err::<(), Error>(Error::AlreadyInitialized),
        post2@ == post@,
        later_env.effects@ == later.effects@,
{
    if r is Ok {
        assert(post_env.effects@ =~= env.effects@.push(
            Effect::ExtendInstanceTtl { threshold: 100, extend_to: 518_400 },
        ));
    }
}

/// The time between anchors is the merchant's to set, up to a day, and nothing else changes.
pub proof fn law_interval_is_stored(
    pre: ReceiptAnchor,
    env: Env,
    interval: u32,
    r: Result<(), Error>,
    post: ReceiptAnchor,
)
    requires
        anchor::sets_interval(pre, env, interval, r, post),
    ensures
        r is Ok <==> signed(pre@, env) && interval <= 86_400,
        signed(pre@, env) && interval > 86_400 ==> r == Err::<(), Error>(Error::BatchTooLarge),
        pre.admin is None ==> r == Err::<(), Error>(Error::NotInitialized),
        pre.admin is Some && !signed(pre@, env) ==> r == Err::<(), Error>(Error::Unauthorized),
        r is Err ==> post@ == pre@,
        r is Ok ==> post@.min_anchor_interval == interval && (AnchorState {
            min_anchor_interval: pre@.min_anchor_interval,
            ..post@
        }) == pre@,
{
}

/// When the in-memory shards can be asked: a shard is deployed where none is, takes the ids
/// it was deployed for, and can be pruned whenever it is there.
pub proof fn law_memory_shards_can_be_asked(
    m: ShardSetModel,
    salt: BytesN<32>,
    shard: Address,
    batch_id: u64,
)
    ensures
        <ShardSet as ShardInterface>::can_deploy(m, salt) <==> !m.bounds.dom().contains(
            Address::Contract(salt),
        ),
        <ShardSet as ShardInterface>::can_anchor(m, shard, batch_id) <==> {
            &&& m.bounds.dom().contains(shard)
            &&& m.bounds[shard].start_batch_id <= batch_id
            &&& batch_id < m.bounds[shard].end_batch_id
        },
        <ShardSet as ShardInterface>::can_prune(m, shard, batch_id) <==> m.bounds.dom().contains(
            shard,
        ),
{
}

} // verus!
