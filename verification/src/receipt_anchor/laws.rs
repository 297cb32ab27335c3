//! What holds of the anchor and its shards together.

use super::anchor;
use super::merkle;
use super::merkle::{MerkleTree, MAX_BATCH_SIZE, MAX_PROOF_LEN};
use super::shard::ShardInterface;
use super::shard_set;
use super::shard_set::{BatchKey, ShardBounds, ShardSet, ShardSetModel};
use super::types::{
    AnchorState, BatchRecord, Effect, Env, ReceiptAnchor, ShardCreatedEvent,
    MAX_PRUNE_BATCHES, ROOT_BUFFER_SIZE, SHARD_CAPACITY,
};
use super::zk_verifier;
use super::zk_verifier::ZkProof;
use crate::bytes;
use crate::error::Error;
use crate::primitives;
use crate::primitives::{Address, BytesN, Ledger};
use vstd::arithmetic::power::*;
use vstd::prelude::*;

verus! {

/// The address of a shard in memory.
pub open spec fn home_of(index: u64) -> Address {
    Address::Contract(anchor::shard_salt_bytes(index))
}

/// The cursor of a shard when everything below `pruned` is pruned.
pub open spec fn shard_cursor(index: int, pruned: int) -> int {
    let start = anchor::shard_start(index);
    if pruned < start {
        start
    } else if pruned > start + SHARD_CAPACITY {
        start + SHARD_CAPACITY
    } else {
        pruned
    }
}

/// Whether the anchor and its shards agree when everything below `pruned` is pruned:
/// each shard covers its range of ids, and exactly the batches from `pruned` up to the
/// latest one are stored, each in its shard.
pub open spec fn consistent_at(a: AnchorState, m: ShardSetModel, pruned: int) -> bool {
    &&& a.wf()
    &&& a.initialized()
    &&& 1 <= pruned <= a.count() + 1
    &&& forall|i: u64|
        i < a.shard_count ==> {
            &&& #[trigger] a.shards[i] == home_of(i)
            &&& m.bounds.contains_key(home_of(i))
            &&& m.bounds[home_of(i)] == (ShardBounds {
                start_batch_id: anchor::shard_start(i as int) as u64,
                end_batch_id: (anchor::shard_start(i as int) + SHARD_CAPACITY) as u64,
                cursor: shard_cursor(i as int, pruned) as u64,
            })
        }
    &&& forall|h: Address| #[trigger]
        m.bounds.contains_key(h) ==> exists|i: u64| i < a.shard_count && h == #[trigger] home_of(i)
    &&& forall|k: BatchKey| #[trigger] m.batches.contains_key(k) ==> m.bounds.contains_key(k.shard)
    &&& forall|i: u64, id: u64|
        i < a.shard_count ==> (#[trigger] m.batches.contains_key(
            (BatchKey { shard: home_of(i), batch_id: id }),
        ) <==> anchor::shard_index(id as int) == i && pruned <= id <= a.count())
}

/// Whether the anchor and its shards agree.
pub open spec fn consistent(a: AnchorState, m: ShardSetModel) -> bool {
    consistent_at(a, m, a.pruned_up_to->0 as int)
}

/// Different shards have different salts, so their addresses never collide.
pub proof fn law_shard_salts_are_distinct(i: u64, j: u64)
    ensures
        anchor::shard_salt_bytes(i) == anchor::shard_salt_bytes(j) ==> i == j,
        anchor::shard_salt_bytes(i)@ == anchor::salt_of(i),
{
    bytes::lemma_pow_256_16();
    lemma_pow_increases(256, 16, 32);
    bytes::lemma_be_bytes_round_trip(i as nat, 32);
    bytes::lemma_be_bytes_round_trip(j as nat, 32);
    primitives::lemma_bytes32(anchor::salt_of(i));
    primitives::lemma_bytes32(anchor::salt_of(j));
}

/// A freshly initialized anchor agrees with an empty set of shards.
pub proof fn law_fresh_anchor_is_consistent(a: AnchorState, m: ShardSetModel)
    requires
        a.wf(),
        a.initialized(),
        a.count() == 0,
        a.pruned_up_to == Some(1u64),
        m.bounds == Map::<Address, ShardBounds>::empty(),
        m.batches == Map::<BatchKey, BatchRecord>::empty(),
    ensures
        consistent(a, m),
{
}

proof fn lemma_anchor_keeps_consistency(
    a: AnchorState,
    m: ShardSetModel,
    ledger: Ledger,
    record: BatchRecord,
)
    requires
        consistent(a, m),
        a.count() < u64::MAX - SHARD_CAPACITY - 1,
    ensures
        anchor::can_take_batch::<ShardSet>(a, ledger, m),
        consistent(
            anchor::anchored::<ShardSet>(a, ledger, m, record.root),
            anchor::model_after_anchor::<ShardSet>(a, ledger, m, record),
        ),
{
    let index = anchor::shard_index(a.count() + 1) as u64;
    let id = (a.count() + 1) as u64;
    let a2 = anchor::anchored::<ShardSet>(a, ledger, m, record.root);
    let m2 = anchor::model_after_anchor::<ShardSet>(a, ledger, m, record);
    let pruned = a.pruned_up_to->0 as int;
    assert forall|i: u64, j: u64| #[trigger] home_of(i) == #[trigger] home_of(j) implies i == j by {
        law_shard_salts_are_distinct(i, j);
    }
    if index < a.shard_count {
        assert(a.shards.contains_key(index));
        assert(a.shards[index] == home_of(index));
        assert(a2.shards == a.shards);
    } else {
        assert(index == a.shard_count);
        assert(!a.shards.contains_key(index));
        if m.bounds.contains_key(home_of(index)) {
            let i = choose|i: u64| i < a.shard_count && home_of(index) == #[trigger] home_of(i);
            assert(false);
        }
        assert(a2.shards == a.shards.insert(index, home_of(index)));
        assert(a2.shard_count == a.shard_count + 1);
    }
    assert(a2.wf()) by {
        assert forall|i: u64| #[trigger] a2.shards.contains_key(i) <==> i < a2.shard_count by {
            assert(a.shards.contains_key(i) <==> i < a.shard_count);
        }
    }
    assert forall|i: u64| i < a2.shard_count implies {
        &&& #[trigger] a2.shards[i] == home_of(i)
        &&& m2.bounds.contains_key(home_of(i))
        &&& m2.bounds[home_of(i)] == (ShardBounds {
            start_batch_id: anchor::shard_start(i as int) as u64,
            end_batch_id: (anchor::shard_start(i as int) + SHARD_CAPACITY) as u64,
            cursor: shard_cursor(i as int, pruned) as u64,
        })
    } by {
        if i < a.shard_count {
            assert(a.shards[i] == home_of(i));
        }
    }
    assert forall|h: Address| #[trigger] m2.bounds.contains_key(h) implies exists|i: u64|
        i < a2.shard_count && h == #[trigger] home_of(i) by {
        if m.bounds.contains_key(h) {
            let i = choose|i: u64| i < a.shard_count && h == #[trigger] home_of(i);
            assert(i < a2.shard_count && h == home_of(i));
        } else {
            assert(index < a2.shard_count && h == home_of(index));
        }
    }
    assert forall|i: u64, x: u64| i < a2.shard_count implies (#[trigger] m2.batches.contains_key(
        (BatchKey { shard: home_of(i), batch_id: x }),
    ) <==> anchor::shard_index(x as int) == i && pruned <= x <= a2.count()) by {
        let key = BatchKey { shard: home_of(i), batch_id: x };
        let new = BatchKey { shard: home_of(index), batch_id: id };
        if i < a.shard_count {
            assert(m.batches.contains_key(key) <==> anchor::shard_index(x as int) == i && pruned
                <= x <= a.count());
        } else {
            assert(i == index);
            if m.batches.contains_key(key) {
                assert(m.bounds.contains_key(home_of(index)));
            }
        }
        assert(m2.batches.contains_key(key) <==> m.batches.contains_key(key) || key == new);
    }
}

/// Anchoring keeps the anchor and its shards in agreement, and is always possible while
/// batch ids last.
pub proof fn law_anchor_keeps_consistency(
    a: AnchorState,
    m: ShardSetModel,
    ledger: Ledger,
    record: BatchRecord,
)
    requires
        consistent(a, m),
        a.count() < u64::MAX - SHARD_CAPACITY - 1,
    ensures
        anchor::can_take_batch::<ShardSet>(a, ledger, m),
        consistent(
            anchor::anchored::<ShardSet>(a, ledger, m, record.root),
            anchor::model_after_anchor::<ShardSet>(a, ledger, m, record),
        ),
{
    lemma_anchor_keeps_consistency(a, m, ledger, record);
}

/// What `get_batch` answers when the anchor and its shards agree: the stored record for
/// the batches from the prune cursor up to the latest, and `BatchNotFound` otherwise.
pub proof fn law_stored_batches_are_readable(a: AnchorState, m: ShardSetModel, id: u64)
    requires
        consistent(a, m),
    ensures
        if a.pruned_up_to->0 <= id <= a.count() {
            let key = BatchKey {
                shard: home_of(anchor::shard_index(id as int) as u64),
                batch_id: id,
            };
            m.batches.contains_key(key) && anchor::batch_answer::<ShardSet>(a, m, id) == Ok::<
                BatchRecord,
                Error,
            >(m.batches[key])
        } else {
            anchor::batch_answer::<ShardSet>(a, m, id) == Err::<BatchRecord, Error>(
                Error::BatchNotFound,
            )
        },
{
    let index = anchor::shard_index(id as int) as u64;
    if id > 0 && a.shards.contains_key(index) {
        assert(index < a.shard_count);
        assert(a.shards[index] == home_of(index));
        let key = BatchKey { shard: home_of(index), batch_id: id };
        assert(m.batches.contains_key(key) <==> anchor::shard_index(id as int) == index
            && a.pruned_up_to->0 <= id <= a.count());
    }
}

/// A batch reads back as it was anchored, and no other batch is affected.
pub proof fn law_anchored_batch_reads_back(
    a: AnchorState,
    m: ShardSetModel,
    ledger: Ledger,
    record: BatchRecord,
    other: u64,
)
    requires
        consistent(a, m),
        a.count() < u64::MAX - SHARD_CAPACITY - 1,
        other != a.count() + 1,
    ensures
        ({
            let a2 = anchor::anchored::<ShardSet>(a, ledger, m, record.root);
            let m2 = anchor::model_after_anchor::<ShardSet>(a, ledger, m, record);
            &&& anchor::batch_answer::<ShardSet>(a2, m2, (a.count() + 1) as u64) == Ok::<
                BatchRecord,
                Error,
            >(record)
            &&& anchor::batch_answer::<ShardSet>(a2, m2, other) == anchor::batch_answer::<ShardSet>(
                a,
                m,
                other,
            )
        }),
{
    let a2 = anchor::anchored::<ShardSet>(a, ledger, m, record.root);
    let m2 = anchor::model_after_anchor::<ShardSet>(a, ledger, m, record);
    let id = (a.count() + 1) as u64;
    let index = anchor::shard_index(id as int) as u64;
    lemma_anchor_keeps_consistency(a, m, ledger, record);
    law_stored_batches_are_readable(a2, m2, id);
    law_stored_batches_are_readable(a2, m2, other);
    law_stored_batches_are_readable(a, m, other);
    assert(a.shards.contains_key(index) ==> a.shards[index] == home_of(index));
}

/// A receipt of a stored batch is accepted if and only if its path leads to the
/// anchored root.
pub proof fn law_receipts_verify_against_their_batch(
    a: AnchorState,
    m: ShardSetModel,
    id: u64,
    leaf: BytesN<32>,
    proof: Seq<BytesN<32>>,
)
    requires
        consistent(a, m),
        a.pruned_up_to->0 <= id <= a.count(),
        proof.len() <= MAX_PROOF_LEN,
    ensures
        anchor::batch_answer::<ShardSet>(a, m, id) is Ok,
        anchor::receipt_answer::<ShardSet>(a, m, id, leaf, proof) == Ok::<bool, Error>(
            merkle::proves(anchor::batch_answer::<ShardSet>(a, m, id)->Ok_0.root, leaf, proof),
        ),
{
    law_stored_batches_are_readable(a, m, id);
    let index = anchor::shard_index(id as int) as u64;
    assert(a.shards.contains_key(index));
    assert(a.shards[index] == home_of(index));
}

/// An accepted receipt is in the anchored tree: where `verify_receipt` answers true, for a
/// batch whose root is that of `tree`, the receipt follows a path of the tree, as
/// [`merkle::law_what_verifies_is_in_the_tree`] says.
pub proof fn law_accepted_receipt_is_in_the_tree(
    a: AnchorState,
    m: ShardSetModel,
    id: u64,
    leaf: BytesN<32>,
    proof: Seq<BytesN<32>>,
    tree: MerkleTree,
) -> (path: Seq<bool>)
    requires
        consistent(a, m),
        anchor::receipt_answer::<ShardSet>(a, m, id, leaf, proof) == Ok::<bool, Error>(true),
        anchor::batch_answer::<ShardSet>(a, m, id) matches Ok(record) ==> record.root
            == tree.root(),
        tree.valid(),
    ensures
        a.pruned_up_to->0 <= id <= a.count(),
        tree.accounts_for(leaf, proof, path),
{
    law_stored_batches_are_readable(a, m, id);
    let index = anchor::shard_index(id as int) as u64;
    assert(a.shards.contains_key(index));
    assert(a.shards[index] == home_of(index));
    law_receipts_verify_against_their_batch(a, m, id, leaf, proof);
    merkle::law_what_verifies_is_in_the_tree(tree, leaf, proof)
}

/// Every receipt of an anchored tree is accepted with its sibling path.
pub proof fn law_every_anchored_receipt_is_accepted(
    a: AnchorState,
    m: ShardSetModel,
    id: u64,
    tree: MerkleTree,
    path: Seq<bool>,
)
    requires
        consistent(a, m),
        anchor::batch_answer::<ShardSet>(a, m, id) is Ok,
        anchor::batch_answer::<ShardSet>(a, m, id)->Ok_0.root == tree.root(),
        tree.valid(),
        tree.reaches_leaf(path),
        path.len() <= MAX_PROOF_LEN,
    ensures
        anchor::receipt_answer::<ShardSet>(a, m, id, tree.leaf_at(path), tree.siblings(path))
            == Ok::<bool, Error>(true),
{
    law_stored_batches_are_readable(a, m, id);
    merkle::law_every_leaf_verifies(tree, path);
    law_receipts_verify_against_their_batch(
        a,
        m,
        id,
        tree.leaf_at(path),
        tree.siblings(path),
    );
}

/// Anchoring with a validity proof is anchoring, once the proof is accepted: the same
/// result, state and events. Without an acceptable proof it is `InvalidProof` and changes
/// nothing.
pub proof fn law_zk_anchor_is_an_anchor<S: ShardInterface>(
    pre: ReceiptAnchor,
    env: Env,
    shards: S,
    proof: ZkProof,
    record: BatchRecord,
    r: Result<u64, Error>,
    post: ReceiptAnchor,
    post_env: Env,
    post_shards: S,
)
    ensures
        ({
            let plain = anchor::anchor_error::<S>(
                pre@,
                env,
                shards.model(),
                record.root,
                record.count,
            );
            let zk = anchor::anchor_zk_error::<S>(
                pre@,
                env,
                shards.model(),
                proof,
                record.root,
                record.count,
            );
            let done = anchor::anchors(
                pre,
                env,
                shards,
                zk,
                record,
                r,
                post,
                post_env,
                post_shards,
            );
            if zk_verifier::batch_proof_accepts(proof, record.count) {
                done == anchor::anchors(
                    pre,
                    env,
                    shards,
                    plain,
                    record,
                    r,
                    post,
                    post_env,
                    post_shards,
                )
            } else {
                done ==> {
                    &&& r == Err::<u64, Error>(Error::InvalidProof)
                    &&& post@ == pre@
                    &&& post_env.effects@ == env.effects@
                    &&& post_shards.model() == shards.model()
                }
            }
        }),
{
    assert(env.effects@ + Seq::empty() =~= env.effects@);
}

/// A shard is deployed once: looking for one that exists finds its address and does
/// nothing; otherwise it is deployed by the anchor under the salt of its index, for the
/// ids of its range, and stored, counted and reported. Looking again finds the same one.
pub proof fn law_shard_is_created_once<S: ShardInterface>(
    a: AnchorState,
    ledger: Ledger,
    m: S::Model,
    index: u64,
    again: Ledger,
)
    requires
        anchor::shard_start(index as int) + SHARD_CAPACITY <= u64::MAX,
        a.shard_count < u64::MAX,
    ensures
        ({
            let salt = anchor::shard_salt_bytes(index);
            let p = anchor::place::<S>(a, ledger, m, index, salt);
            let q = anchor::place::<S>(p.anchor, again, p.model, index, salt);
            let start = (SHARD_CAPACITY * index + 1) as u64;
            let end = (SHARD_CAPACITY * index + SHARD_CAPACITY + 1) as u64;
            &&& if a.shards.contains_key(index) {
                &&& p.home == a.shards[index]
                &&& p.anchor == a
                &&& p.model == m
                &&& p.effects == Seq::<Effect>::empty()
            } else {
                let hash = a.shard_wasm_hash->0;
                &&& p.home == S::deploy_address(m, ledger.contract, salt, hash)
                &&& p.model == S::after_deploy(m, ledger.contract, salt, hash, start, end)
                &&& p.anchor.shards == a.shards.insert(index, p.home)
                &&& p.anchor.shard_count == a.shard_count + 1
                &&& p.effects == seq![
                    Effect::PublishShardCreated(
                        ShardCreatedEvent {
                            shard_index: index,
                            shard_address: p.home,
                            start_batch_id: start,
                            end_batch_id: end,
                        },
                    ),
                ]
            }
            &&& salt@ == bytes::zeros(24) + bytes::be_bytes(index as nat, 8)
            &&& q.home == p.home
            &&& q.anchor == p.anchor
            &&& q.model == p.model
            &&& q.effects == Seq::<Effect>::empty()
        }),
{
    law_shard_salts_are_distinct(index, index);
    bytes::lemma_pow_256_8();
    bytes::lemma_be_bytes_leading_zeros(index as nat, 24, 8);
}

/// Anchoring the latest root again is refused.
pub proof fn law_latest_root_cannot_be_repeated(
    a: AnchorState,
    m: ShardSetModel,
    ledger: Ledger,
    record: BatchRecord,
)
    requires
        consistent(a, m),
        a.count() < u64::MAX - SHARD_CAPACITY - 1,
    ensures
        anchor::repeats_last_root::<ShardSet>(
            anchor::anchored::<ShardSet>(a, ledger, m, record.root),
            anchor::model_after_anchor::<ShardSet>(a, ledger, m, record),
            record.root,
        ),
{
    law_anchored_batch_reads_back(a, m, ledger, record, 0);
}

/// The ring buffer holds the latest roots: the new one is always among them, and one
/// that was among them stays unless it was the oldest of a full buffer.
pub proof fn law_ring_buffer_keeps_the_latest(roots: Seq<BytesN<32>>, root: BytesN<32>)
    requires
        roots.len() <= ROOT_BUFFER_SIZE,
    ensures
        anchor::with_root(roots, root).len() <= ROOT_BUFFER_SIZE,
        anchor::with_root(roots, root).last() == root,
        forall|i: int|
            (if roots.len() == ROOT_BUFFER_SIZE {
                1int
            } else {
                0int
            }) <= i < roots.len() ==> anchor::with_root(roots, root).contains(#[trigger] roots[i]),
{
    let next = anchor::with_root(roots, root);
    let dropped: int = if roots.len() == ROOT_BUFFER_SIZE {
        1
    } else {
        0
    };
    assert forall|i: int| dropped <= i < roots.len() implies next.contains(#[trigger] roots[i]) by {
        assert(next[i - dropped] == roots[i]);
    }
}

/// The ring buffer after a history of roots, oldest first.
pub open spec fn buffer_after(history: Seq<BytesN<32>>) -> Seq<BytesN<32>>
    decreases history.len(),
{
    if history.len() == 0 {
        Seq::empty()
    } else {
        anchor::with_root(buffer_after(history.drop_last()), history.last())
    }
}

/// The ring buffer is the tail of the history: all roots, or the latest
/// [`ROOT_BUFFER_SIZE`] once there are more.
pub proof fn law_ring_buffer_is_the_tail_of_history(history: Seq<BytesN<32>>)
    ensures
        buffer_after(history) == if history.len() <= ROOT_BUFFER_SIZE {
            history
        } else {
            history.skip(history.len() - ROOT_BUFFER_SIZE)
        },
    decreases history.len(),
{
    if history.len() > 0 {
        law_ring_buffer_is_the_tail_of_history(history.drop_last());
    }
    assert(buffer_after(history) =~= if history.len() <= ROOT_BUFFER_SIZE {
        history
    } else {
        history.skip(history.len() - ROOT_BUFFER_SIZE)
    });
}

/// A receipt can be verified against the root of the latest batch without its id, and
/// against every other root that the ring buffer still holds.
pub proof fn law_buffered_roots_verify(
    a: AnchorState,
    m: ShardSetModel,
    ledger: Ledger,
    root: BytesN<32>,
    other: BytesN<32>,
    leaf: BytesN<32>,
    proof: Seq<BytesN<32>>,
)
    requires
        a.wf(),
        a.initialized(),
        proof.len() <= MAX_PROOF_LEN,
    ensures
        ({
            let a2 = anchor::anchored::<ShardSet>(a, ledger, m, root);
            &&& anchor::root_answer(a2, root, leaf, proof) == Ok::<bool, Error>(
                merkle::proves(root, leaf, proof),
            )
            &&& a2.roots().contains(other) ==> anchor::root_answer(a2, other, leaf, proof) == Ok::<
                bool,
                Error,
            >(merkle::proves(other, leaf, proof))
            &&& !a2.roots().contains(other) ==> anchor::root_answer(a2, other, leaf, proof) == Err::<
                bool,
                Error,
            >(Error::RootNotFound)
        }),
{
    let a2 = anchor::anchored::<ShardSet>(a, ledger, m, root);
    assert(a2.roots().last() == root);
}

/// Until the minimum interval since the latest anchor has passed, no batch is anchored;
/// after it, the interval refuses none.
pub proof fn law_anchors_keep_their_distance(
    a: AnchorState,
    m: ShardSetModel,
    ledger: Ledger,
    root: BytesN<32>,
    later: Env,
    later_m: ShardSetModel,
    next: BytesN<32>,
    count: u32,
)
    requires
        a.wf(),
        a.initialized(),
        later.signed_by(a.admin->0),
        count <= MAX_BATCH_SIZE,
        a.min_anchor_interval > 0,
    ensures
        ({
            let a2 = anchor::anchored::<ShardSet>(a, ledger, m, root);
            let e = anchor::anchor_error::<ShardSet>(a2, later, later_m, next, count);
            e == Some(Error::AnchorRateLimited) <==> later.ledger.timestamp < ledger.timestamp
                + a.min_anchor_interval
        }),
{
}

/// The evolution of the stored entries over one call after another is itself one.
pub proof fn law_anchor_evolution_composes(a: AnchorState, b: AnchorState, c: AnchorState)
    requires
        a.evolves_to(b),
        b.evolves_to(c),
    ensures
        a.evolves_to(c),
{
}

/// The shard entry of a batch.
pub open spec fn entry_of(id: int) -> BatchKey {
    BatchKey { shard: home_of(anchor::shard_index(id) as u64), batch_id: id as u64 }
}

/// `after` holds what `before` held, except the batches from `from` up to, not
/// including, `to`.
pub open spec fn dropped(before: ShardSetModel, after: ShardSetModel, from: int, to: int) -> bool {
    &&& forall|k: BatchKey| #[trigger]
        after.batches.contains_key(k) ==> before.batches.contains_key(k) && after.batches[k]
            == before.batches[k]
    &&& forall|id: int|
        from <= id < to ==> before.batches.contains_key(#[trigger] entry_of(id))
}

/// The batches from `from` up to, not including, `to` were anchored before a ledger.
pub open spec fn all_older(m: ShardSetModel, from: int, to: int, before_ledger: u32) -> bool {
    forall|id: int|
        from <= id < to ==> m.batches[#[trigger] entry_of(id)].anchored_ledger < before_ledger
}

proof fn lemma_drop_one(a: AnchorState, m: ShardSetModel, cursor: int)
    requires
        consistent_at(a, m, cursor),
        cursor <= a.count(),
    ensures
        ({
            let index = anchor::shard_index(cursor) as u64;
            let m2 = shard_set::without_batch(m, home_of(index), cursor as u64);
            &&& index < a.shard_count
            &&& m.bounds[home_of(index)].cursor == cursor
            &&& m.batches.contains_key(entry_of(cursor))
            &&& consistent_at(a, m2, cursor + 1)
            &&& dropped(m, m2, cursor, cursor + 1)
        }),
{
    let index = anchor::shard_index(cursor) as u64;
    let home = home_of(index);
    let m2 = shard_set::without_batch(m, home, cursor as u64);
    assert forall|i: u64, j: u64| #[trigger] home_of(i) == #[trigger] home_of(j) implies i == j by {
        law_shard_salts_are_distinct(i, j);
    }
    assert(a.shards[index] == home);
    assert(m.batches.contains_key((BatchKey { shard: home, batch_id: cursor as u64 })));
    assert forall|i: u64| i < a.shard_count implies {
        &&& #[trigger] a.shards[i] == home_of(i)
        &&& m2.bounds.contains_key(home_of(i))
        &&& m2.bounds[home_of(i)] == (ShardBounds {
            start_batch_id: anchor::shard_start(i as int) as u64,
            end_batch_id: (anchor::shard_start(i as int) + SHARD_CAPACITY) as u64,
            cursor: shard_cursor(i as int, cursor + 1) as u64,
        })
    } by {
        assert(a.shards[i] == home_of(i));
    }
    assert forall|i: u64, x: u64| i < a.shard_count implies (#[trigger] m2.batches.contains_key(
        (BatchKey { shard: home_of(i), batch_id: x }),
    ) <==> anchor::shard_index(x as int) == i && cursor + 1 <= x <= a.count()) by {
        let key = BatchKey { shard: home_of(i), batch_id: x };
        assert(m.batches.contains_key(key) <==> anchor::shard_index(x as int) == i && cursor <= x
            <= a.count());
    }
}

proof fn lemma_prune_shard(
    a: AnchorState,
    m: ShardSetModel,
    index: u64,
    before_ledger: u32,
    max: nat,
    cursor: int,
)
    requires
        consistent_at(a, m, cursor),
        index < a.shard_count,
        anchor::shard_start(index as int) <= cursor <= anchor::high_water(a, index as int),
    ensures
        ({
            let high = anchor::high_water(a, index as int);
            let (m2, k) = shard_set::prune_shard(
                m,
                home_of(index),
                before_ledger,
                max,
                high as u64,
            );
            &&& k <= max
            &&& cursor + k <= high
            &&& consistent_at(a, m2, cursor + k)
            &&& m2.bounds[home_of(index)].cursor == cursor + k
            &&& dropped(m, m2, cursor, cursor + k)
            &&& all_older(m, cursor, cursor + k, before_ledger)
            &&& k == max || cursor + k == high || m.batches[entry_of(cursor + k)].anchored_ledger
                >= before_ledger
        }),
    decreases max,
{
    let home = home_of(index);
    let high = anchor::high_water(a, index as int) as u64;
    let (m2, k) = shard_set::prune_shard(m, home, before_ledger, max, high);
    assert(a.shards[index] == home);
    if cursor < high {
        assert(anchor::shard_index(cursor) == index);
        lemma_drop_one(a, m, cursor);
        assert(entry_of(cursor) == (BatchKey { shard: home, batch_id: cursor as u64 }));
    }
    if max == 0 || cursor >= high || !shard_set::prunable(m, home, cursor as u64, before_ledger) {
        assert(k == 0 && m2 == m);
    } else {
        let next = shard_set::without_batch(m, home, cursor as u64);
        let rest = shard_set::prune_shard(next, home, before_ledger, (max - 1) as nat, high);
        lemma_prune_shard(a, next, index, before_ledger, (max - 1) as nat, cursor + 1);
        assert(m2 == rest.0 && k == rest.1 + 1);
        assert forall|id: int| cursor <= id < cursor + k implies m.batches.contains_key(
            #[trigger] entry_of(id),
        ) && m.batches[entry_of(id)].anchored_ledger < before_ledger by {
            if id > cursor {
                assert(next.batches.contains_key(entry_of(id)));
                assert(next.batches[entry_of(id)] == m.batches[entry_of(id)]);
            }
        }
        if rest.1 != max - 1 && cursor + k != high {
            assert(anchor::shard_index(cursor + k) == index);
            assert(next.batches.contains_key(entry_of(cursor + k)));
        }
    }
}

proof fn lemma_prune_walk(
    a: AnchorState,
    m: ShardSetModel,
    before_ledger: u32,
    cursor: u64,
    remaining: nat,
)
    requires
        consistent_at(a, m, cursor as int),
        remaining <= MAX_PRUNE_BATCHES,
    ensures
        anchor::prune_walk_ok::<ShardSet>(a, m, before_ledger, cursor, remaining),
        ({
            let walk = anchor::prune_walk::<ShardSet>(a, m, before_ledger, cursor, remaining);
            &&& cursor <= walk.cursor <= cursor + remaining
            &&& consistent_at(a, walk.model, walk.cursor as int)
            &&& dropped(m, walk.model, cursor as int, walk.cursor as int)
            &&& all_older(m, cursor as int, walk.cursor as int, before_ledger)
            &&& walk.cursor == cursor + remaining || walk.cursor == a.count() + 1
                || m.batches[entry_of(walk.cursor as int)].anchored_ledger >= before_ledger
        }),
    decreases remaining,
{
    if remaining > 0 && cursor <= a.count() {
        let index = anchor::shard_index(cursor as int) as u64;
        assert(index < a.shard_count);
        assert(a.shards.contains_key(index));
        assert(a.shards[index] == home_of(index));
        let high = anchor::high_water(a, index as int) as u64;
        lemma_prune_shard(a, m, index, before_ledger, remaining, cursor as int);
        let (m2, k) = shard_set::prune_shard(m, home_of(index), before_ledger, remaining, high);
        if k > 0 {
            let next = (cursor + k) as u64;
            let left = (remaining - k) as nat;
            lemma_prune_walk(a, m2, before_ledger, next, left);
            let walk = anchor::prune_walk::<ShardSet>(a, m2, before_ledger, next, left);
            assert(walk == anchor::prune_walk::<ShardSet>(a, m, before_ledger, cursor, remaining));
            assert forall|id: int|
                cursor <= id < walk.cursor implies m.batches.contains_key(
                #[trigger] entry_of(id),
            ) && m.batches[entry_of(id)].anchored_ledger < before_ledger by {
                if id >= next {
                    assert(m2.batches.contains_key(entry_of(id)));
                    assert(m2.batches[entry_of(id)] == m.batches[entry_of(id)]);
                }
            }
            if walk.cursor != cursor + remaining && walk.cursor != a.count() + 1 {
                let stop = walk.cursor as int;
                let home = anchor::shard_index(stop) as u64;
                assert(home < a.shard_count);
                assert(walk.model.batches.contains_key(
                    (BatchKey { shard: home_of(home), batch_id: stop as u64 }),
                ));
                assert(m2.batches.contains_key(entry_of(stop)));
                assert(m2.batches[entry_of(stop)] == m.batches[entry_of(stop)]);
            }
        }
    }
}

/// Pruning deletes a contiguous prefix of the stored batches, at most
/// [`MAX_PRUNE_BATCHES`] of them, all anchored before the given ledger. It stops only at
/// that limit, after the latest batch, or at a batch that is too recent. The cursor never
/// moves back, the batches from the cursor on are untouched, and those below it are gone.
pub proof fn law_prune_deletes_a_prefix(
    a: AnchorState,
    m: ShardSetModel,
    before_ledger: u32,
    id: u64,
)
    requires
        consistent(a, m),
    ensures
        ({
            let start = a.pruned_up_to->0;
            let walk = anchor::prune_walk::<ShardSet>(
                a,
                m,
                before_ledger,
                start,
                MAX_PRUNE_BATCHES as nat,
            );
            let a2 = anchor::pruned_to(a, walk.cursor);
            let was = anchor::batch_answer::<ShardSet>(a, m, id);
            let is = anchor::batch_answer::<ShardSet>(a2, walk.model, id);
            &&& anchor::prune_walk_ok::<ShardSet>(
                a,
                m,
                before_ledger,
                start,
                MAX_PRUNE_BATCHES as nat,
            )
            &&& consistent(a2, walk.model)
            &&& a2.pruned_up_to == Some(walk.cursor)
            &&& start <= walk.cursor <= start + MAX_PRUNE_BATCHES
            &&& walk.cursor <= a.count() + 1
            &&& id < walk.cursor ==> is == Err::<BatchRecord, Error>(Error::BatchNotFound)
            &&& id >= walk.cursor ==> is == was
            &&& start <= id < walk.cursor ==> was is Ok && was->Ok_0.anchored_ledger < before_ledger
            &&& id == walk.cursor && walk.cursor < start + MAX_PRUNE_BATCHES && walk.cursor
                <= a.count() ==> was is Ok && was->Ok_0.anchored_ledger >= before_ledger
        }),
{
    let start = a.pruned_up_to->0;
    let walk = anchor::prune_walk::<ShardSet>(a, m, before_ledger, start, MAX_PRUNE_BATCHES as nat);
    let a2 = anchor::pruned_to(a, walk.cursor);
    lemma_prune_walk(a, m, before_ledger, start, MAX_PRUNE_BATCHES as nat);
    assert(consistent(a2, walk.model));
    law_stored_batches_are_readable(a, m, id);
    law_stored_batches_are_readable(a2, walk.model, id);
    assert(entry_of(id as int) == (BatchKey {
        shard: home_of(anchor::shard_index(id as int) as u64),
        batch_id: id,
    }));
}

} // verus!
