//! The entry points of the anchor.

use super::merkle;
use super::merkle::{MAX_BATCH_SIZE, MAX_PROOF_LEN};
use super::shard;
use super::shard::ShardInterface;
use super::types;
use super::types::{
    AnchorEvent, AnchorState, BatchRecord, Effect, Env, PruneEvent, ReceiptAnchor,
    ShardCreatedEvent, MAX_ANCHOR_INTERVAL, MAX_PRUNE_BATCHES, ROOT_BUFFER_SIZE, SHARD_CAPACITY,
};
use super::zk_verifier;
use super::zk_verifier::{VerifyingKey, ZkProof};
use crate::bytes;
use crate::error::Error;
use crate::primitives;
use crate::primitives::{Address, BytesN, Ledger};
use vstd::prelude::*;

verus! {

/// The shard that holds a batch id.
pub open spec fn shard_index(batch_id: int) -> int {
    (batch_id - 1) / SHARD_CAPACITY as int
}

/// The first batch id of a shard.
pub open spec fn shard_start(index: int) -> int {
    index * SHARD_CAPACITY + 1
}

/// The deploy salt of a shard: its index in the low eight bytes, zeros above.
pub open spec fn salt_of(index: u64) -> Seq<u8> {
    bytes::be_bytes(index as nat, 32)
}

/// Where a batch id is looked up.
pub open spec fn batch_home(a: AnchorState, batch_id: u64) -> Result<Address, Error> {
    if batch_id == 0 || !a.shards.contains_key(shard_index(batch_id as int) as u64) {
        Err(Error::BatchNotFound)
    } else {
        Ok(a.shards[shard_index(batch_id as int) as u64])
    }
}

/// What `get_batch` answers.
pub open spec fn batch_answer<S: ShardInterface>(a: AnchorState, m: S::Model, batch_id: u64) -> Result<
    BatchRecord,
    Error,
> {
    match batch_home(a, batch_id) {
        Err(e) => Err(e),
        Ok(home) => shard::reply_result(S::get_batch_reply(m, home, batch_id)),
    }
}

/// What `verify_receipt` answers.
pub open spec fn receipt_answer<S: ShardInterface>(
    a: AnchorState,
    m: S::Model,
    batch_id: u64,
    leaf: BytesN<32>,
    proof: Seq<BytesN<32>>,
) -> Result<bool, Error> {
    match batch_home(a, batch_id) {
        Err(e) => Err(e),
        Ok(home) => shard::reply_result(
            S::verify_receipt_reply(m, home, batch_id, leaf, proof),
        ),
    }
}

/// What `verify_receipt_by_root` answers.
pub open spec fn root_answer(
    a: AnchorState,
    root: BytesN<32>,
    leaf: BytesN<32>,
    proof: Seq<BytesN<32>>,
) -> Result<bool, Error> {
    if proof.len() > MAX_PROOF_LEN {
        Err(Error::ProofTooLong)
    } else if a.root_buffer is None {
        Err(Error::NotInitialized)
    } else if !a.root_buffer->0.contains(root) {
        Err(Error::RootNotFound)
    } else {
        Ok(merkle::proves(root, leaf, proof))
    }
}

/// Whether the minimum interval since the last anchor has not elapsed.
pub open spec fn rate_limited(a: AnchorState, timestamp: u64) -> bool {
    a.min_anchor_interval > 0 && a.last_anchor_time is Some && timestamp < a.last_anchor_time->0
        + a.min_anchor_interval
}

/// Whether `root` is that of the latest batch.
pub open spec fn repeats_last_root<S: ShardInterface>(
    a: AnchorState,
    m: S::Model,
    root: BytesN<32>,
) -> bool {
    a.count() > 0 && (batch_answer::<S>(a, m, a.count()) matches Ok(last) && last.root == root)
}

/// Why a batch cannot be anchored.
pub open spec fn anchor_error<S: ShardInterface>(
    a: AnchorState,
    env: Env,
    m: S::Model,
    root: BytesN<32>,
    count: u32,
) -> Option<Error> {
    if count > MAX_BATCH_SIZE {
        Some(Error::BatchTooLarge)
    } else if a.merchant_error(env) is Some {
        a.merchant_error(env)
    } else if rate_limited(a, env.ledger.timestamp) {
        Some(Error::AnchorRateLimited)
    } else if repeats_last_root::<S>(a, m, root) {
        Some(Error::DuplicateRoot)
    } else {
        None
    }
}

/// Why a batch with a validity proof cannot be anchored.
pub open spec fn anchor_zk_error<S: ShardInterface>(
    a: AnchorState,
    env: Env,
    m: S::Model,
    proof: ZkProof,
    root: BytesN<32>,
    count: u32,
) -> Option<Error> {
    if zk_verifier::batch_proof_accepts(proof, count) {
        anchor_error::<S>(a, env, m, root, count)
    } else {
        Some(Error::InvalidProof)
    }
}

/// Whether the end of the minimum interval is a valid time, where it is looked at.
pub open spec fn rate_limit_computable(a: AnchorState) -> bool {
    a.min_anchor_interval > 0 && a.last_anchor_time is Some ==> a.last_anchor_time->0
        + a.min_anchor_interval <= u64::MAX
}

/// The shard that takes the next batch, and what there is once it exists.
pub struct Placement<M> {
    pub home: Address,
    pub anchor: AnchorState,
    pub model: M,
    pub effects: Seq<Effect>,
}

/// Finds the shard with an index, deploying it if there is none.
pub open spec fn place<S: ShardInterface>(
    a: AnchorState,
    ledger: Ledger,
    m: S::Model,
    index: u64,
    salt: BytesN<32>,
) -> Placement<S::Model> {
    if a.shards.contains_key(index) {
        Placement { home: a.shards[index], anchor: a, model: m, effects: Seq::empty() }
    } else {
        let start = shard_start(index as int) as u64;
        let end = (shard_start(index as int) + SHARD_CAPACITY) as u64;
        let wasm_hash = a.shard_wasm_hash->0;
        let home = S::deploy_address(m, ledger.contract, salt, wasm_hash);
        Placement {
            home,
            anchor: AnchorState {
                shards: a.shards.insert(index, home),
                shard_count: (a.shard_count + 1) as u64,
                ..a
            },
            model: S::after_deploy(m, ledger.contract, salt, wasm_hash, start, end),
            effects: seq![
                Effect::PublishShardCreated(
                    ShardCreatedEvent {
                        shard_index: index,
                        shard_address: home,
                        start_batch_id: start,
                        end_batch_id: end,
                    },
                ),
            ],
        }
    }
}

/// The salt of a shard as a byte string.
pub open spec fn shard_salt_bytes(index: u64) -> BytesN<32> {
    primitives::bytes32(salt_of(index))
}

/// The placement of the batch that comes next.
pub open spec fn next_placement<S: ShardInterface>(
    a: AnchorState,
    ledger: Ledger,
    m: S::Model,
) -> Placement<S::Model> {
    let index = shard_index(a.count() + 1) as u64;
    place::<S>(a, ledger, m, index, shard_salt_bytes(index))
}

/// The record of a batch anchored now.
pub open spec fn record_of(
    ledger: Ledger,
    root: BytesN<32>,
    count: u32,
    period_start: u64,
    period_end: u64,
) -> BatchRecord {
    BatchRecord { root, count, period_start, period_end, anchored_ledger: ledger.sequence }
}

/// The ring buffer with one more root: the oldest leaves once it is full.
pub open spec fn with_root(roots: Seq<BytesN<32>>, root: BytesN<32>) -> Seq<BytesN<32>> {
    if roots.len() >= ROOT_BUFFER_SIZE {
        roots.drop_first().push(root)
    } else {
        roots.push(root)
    }
}

/// The anchor after a batch was anchored.
pub open spec fn anchored<S: ShardInterface>(
    a: AnchorState,
    ledger: Ledger,
    m: S::Model,
    root: BytesN<32>,
) -> AnchorState {
    AnchorState {
        batch_count: Some((a.count() + 1) as u64),
        last_anchor_time: Some(ledger.timestamp),
        root_buffer: Some(with_root(a.roots(), root)),
        ..next_placement::<S>(a, ledger, m).anchor
    }
}

/// What the shards store after a batch was anchored.
pub open spec fn model_after_anchor<S: ShardInterface>(
    a: AnchorState,
    ledger: Ledger,
    m: S::Model,
    record: BatchRecord,
) -> S::Model {
    let placement = next_placement::<S>(a, ledger, m);
    S::after_anchor(placement.model, placement.home, (a.count() + 1) as u64, record)
}

/// What anchoring a batch asks of the host.
pub open spec fn anchor_effects<S: ShardInterface>(
    a: AnchorState,
    ledger: Ledger,
    m: S::Model,
    record: BatchRecord,
) -> Seq<Effect> {
    next_placement::<S>(a, ledger, m).effects + seq![
        types::renewal(),
        Effect::PublishAnchor(
            AnchorEvent {
                batch_id: (a.count() + 1) as u64,
                root: record.root,
                count: record.count,
                period_start: record.period_start,
                period_end: record.period_end,
                anchored_ledger: record.anchored_ledger,
            },
        ),
    ]
}

/// Whether the next batch id leaves room for the bounds of one more shard.
pub open spec fn ids_left(a: AnchorState) -> bool {
    a.count() < u64::MAX - SHARD_CAPACITY - 1
}

/// Whether the shards can take the next batch, and its id leaves room for one more
/// shard.
pub open spec fn can_take_batch<S: ShardInterface>(
    a: AnchorState,
    ledger: Ledger,
    m: S::Model,
) -> bool {
    let index = shard_index(a.count() + 1) as u64;
    let placement = next_placement::<S>(a, ledger, m);
    &&& ids_left(a)
    &&& !a.shards.contains_key(index) ==> S::can_deploy(m, shard_salt_bytes(index))
    &&& S::can_anchor(placement.model, placement.home, (a.count() + 1) as u64)
}

/// What a call that anchors a batch does.
pub open spec fn anchors<S: ShardInterface>(
    pre: ReceiptAnchor,
    env: Env,
    shards: S,
    error: Option<Error>,
    record: BatchRecord,
    r: Result<u64, Error>,
    post: ReceiptAnchor,
    post_env: Env,
    post_shards: S,
) -> bool {
    match error {
        Some(e) => {
            &&& r == Err::<u64, Error>(e)
            &&& post@ == pre@
            &&& env.advanced(post_env, Seq::empty())
            &&& post_shards.model() == shards.model()
        },
        None => {
            &&& r == Ok::<u64, Error>((pre@.count() + 1) as u64)
            &&& post@ == anchored::<S>(pre@, env.ledger, shards.model(), record.root)
            &&& env.advanced(
                post_env,
                anchor_effects::<S>(pre@, env.ledger, shards.model(), record),
            )
            &&& post_shards.model() == model_after_anchor::<S>(
                pre@,
                env.ledger,
                shards.model(),
                record,
            )
        },
    }
}

/// What [`ReceiptAnchor::extend_batch_ttl`] does.
pub open spec fn extends<S: ShardInterface>(
    a: AnchorState,
    m: S::Model,
    batch_id: u64,
    r: Result<(), Error>,
    after: S::Model,
) -> bool {
    match batch_home(a, batch_id) {
        Err(e) => r == Err::<(), Error>(e) && after == m,
        Ok(home) => {
            &&& r == shard::reply_result(S::extend_reply(m, home, batch_id))
            &&& after == match r {
                Ok(()) => S::after_extend(m, home, batch_id),
                Err(_) => m,
            }
        },
    }
}

/// The upper bound, exclusive, of the ids that a shard may prune.
pub open spec fn high_water(a: AnchorState, index: int) -> int {
    if shard_start(index) + SHARD_CAPACITY < a.count() + 1 {
        shard_start(index) + SHARD_CAPACITY
    } else {
        a.count() + 1
    }
}

/// Where a prune has got to.
pub struct PruneState<M> {
    pub model: M,
    pub cursor: u64,
}

/// What pruning does from `cursor` on, with `remaining` batches left to go: shard after
/// shard, until one makes no progress.
pub open spec fn prune_walk<S: ShardInterface>(
    a: AnchorState,
    m: S::Model,
    before_ledger: u32,
    cursor: u64,
    remaining: nat,
) -> PruneState<S::Model>
    decreases remaining,
{
    let index = shard_index(cursor as int) as u64;
    if remaining == 0 || cursor > a.count() || !a.shards.contains_key(index) {
        PruneState { model: m, cursor }
    } else {
        let high = high_water(a, index as int) as u64;
        let (next, pruned) = S::prune_reply(
            m,
            a.shards[index],
            before_ledger,
            remaining as u32,
            high,
        );
        let model = S::after_prune(m, a.shards[index], before_ledger, remaining as u32, high);
        if pruned == 0 || pruned > remaining {
            PruneState { model, cursor: next }
        } else {
            prune_walk::<S>(a, model, before_ledger, next, (remaining - pruned) as nat)
        }
    }
}

/// Whether a shard's answer to `prune_batches` can be booked: it went past at most as many
/// batches as it was allowed, and where the prune goes on, it goes on to a batch id.
pub open spec fn prune_fits(next: u64, pruned: u64, max_batches: int) -> bool {
    pruned <= max_batches && (0 < pruned < max_batches ==> next >= 1)
}

/// Whether a shard's answer to `prune_batches` can be booked; see [`prune_fits`].
pub fn prune_in_range(next: u64, pruned: u64, max_batches: u32) -> (r: bool)
    ensures
        r == prune_fits(next, pruned, max_batches as int),
{
    pruned <= max_batches as u64 && (pruned == 0 || pruned == max_batches as u64 || next >= 1)
}

/// Whether the shards keep to their part while pruning: each call can be made, and its
/// answer can be booked.
pub open spec fn prune_walk_ok<S: ShardInterface>(
    a: AnchorState,
    m: S::Model,
    before_ledger: u32,
    cursor: u64,
    remaining: nat,
) -> bool
    decreases remaining,
{
    let index = shard_index(cursor as int) as u64;
    if remaining == 0 || cursor > a.count() {
        true
    } else {
        a.shards.contains_key(index) ==> {
            let high = high_water(a, index as int) as u64;
            let (next, pruned) = S::prune_reply(
                m,
                a.shards[index],
                before_ledger,
                remaining as u32,
                high,
            );
            let model = S::after_prune(m, a.shards[index], before_ledger, remaining as u32, high);
            &&& S::can_prune(m, a.shards[index], high)
            &&& prune_fits(next, pruned, remaining as int)
            &&& pruned > 0 ==> prune_walk_ok::<S>(
                a,
                model,
                before_ledger,
                next,
                (remaining - pruned) as nat,
            )
        }
    }
}

/// The anchor after pruning up to `cursor`.
pub open spec fn pruned_to(a: AnchorState, cursor: u64) -> AnchorState {
    if cursor > a.pruned_up_to->0 {
        AnchorState { pruned_up_to: Some(cursor), ..a }
    } else {
        a
    }
}

/// What pruning up to `cursor` asks of the host.
pub open spec fn prune_effects(a: AnchorState, cursor: u64) -> Seq<Effect> {
    if cursor > a.pruned_up_to->0 {
        seq![
            Effect::PublishPrune(
                PruneEvent { start_batch_id: a.pruned_up_to->0, end_batch_id: cursor },
            ),
            types::renewal(),
        ]
    } else {
        seq![types::renewal()]
    }
}

/// What [`ReceiptAnchor::prune_batches`] does.
pub open spec fn prunes<S: ShardInterface>(
    pre: ReceiptAnchor,
    env: Env,
    shards: S,
    before_ledger: u32,
    r: Result<(), Error>,
    post: ReceiptAnchor,
    post_env: Env,
    post_shards: S,
) -> bool {
    match pre@.merchant_error(env) {
        Some(e) => {
            &&& r == Err::<(), Error>(e)
            &&& post@ == pre@
            &&& env.advanced(post_env, Seq::empty())
            &&& post_shards.model() == shards.model()
        },
        None => {
            let walk = prune_walk::<S>(
                pre@,
                shards.model(),
                before_ledger,
                pre.pruned_up_to->0,
                MAX_PRUNE_BATCHES as nat,
            );
            &&& r is Ok
            &&& post@ == pruned_to(pre@, walk.cursor)
            &&& env.advanced(post_env, prune_effects(pre@, walk.cursor))
            &&& post_shards.model() == walk.model
        },
    }
}

/// The deploy salt of a shard.
pub fn shard_salt(index: u64) -> (r: BytesN<32>)
    ensures
        r@ == salt_of(index),
        r == shard_salt_bytes(index),
{
    let r = BytesN::from_array(bytes::write_be([0u8; 32], index as u128));
    proof {
        primitives::lemma_bytes32(r@);
        primitives::lemma_bytes_are_their_view(r, shard_salt_bytes(index));
    }
    r
}

/// How the anchor is bound to a merchant and to the shard code: once.
pub open spec fn initializes(
    pre: ReceiptAnchor,
    env: Env,
    merchant: Address,
    shard_wasm_hash: BytesN<32>,
    r: Result<(), Error>,
    post: ReceiptAnchor,
    post_env: Env,
) -> bool {
    if pre@.initialized() {
        &&& r == Err::<(), Error>(Error::AlreadyInitialized)
        &&& post@ == pre@
        &&& env.advanced(post_env, Seq::empty())
    } else {
        &&& r is Ok
        &&& post@ == (AnchorState {
            admin: Some(merchant),
            batch_count: Some(0),
            pruned_up_to: Some(1),
            root_buffer: Some(Seq::empty()),
            min_anchor_interval: 0,
            shard_wasm_hash: Some(shard_wasm_hash),
            shard_count: 0,
            ..pre@
        })
        &&& env.advanced(post_env, seq![types::renewal()])
    }
}

/// How the merchant sets the time between anchors.
pub open spec fn sets_interval(
    pre: ReceiptAnchor,
    env: Env,
    interval: u32,
    r: Result<(), Error>,
    post: ReceiptAnchor,
) -> bool {
    if pre@.merchant_error(env) is Some {
        &&& r == Err::<(), Error>(pre@.merchant_error(env)->0)
        &&& post@ == pre@
    } else if interval > MAX_ANCHOR_INTERVAL {
        &&& r == Err::<(), Error>(Error::BatchTooLarge)
        &&& post@ == pre@
    } else {
        &&& r is Ok
        &&& post@ == (AnchorState { min_anchor_interval: interval, ..pre@ })
    }
}

impl ReceiptAnchor {
    /// Binds the anchor to a merchant and to the shard code that the factory deploys.
    pub fn initialize(
        &mut self,
        env: &mut Env,
        merchant: Address,
        shard_wasm_hash: BytesN<32>,
    ) -> (r: Result<(), Error>)
        requires
            old(self).wf(),
        ensures
            final(self).wf(),
            old(self)@.evolves_to(final(self)@),
            initializes(
                *old(self),
                *old(env),
                merchant,
                shard_wasm_hash,
                r,
                *final(self),
                *final(env),
            ),
    {
        assert(env.effects@ =~= old(env).effects@ + Seq::<Effect>::empty());
        if self.admin.is_some() {
            return Err(Error::AlreadyInitialized);
        }
        self.admin = Some(merchant);
        self.batch_count = Some(0);
        self.pruned_up_to = Some(1);
        self.root_buffer = Some(Vec::new());
        self.min_anchor_interval = 0;
        self.shard_wasm_hash = Some(shard_wasm_hash);
        self.shard_count = 0;
        env.renew_instance();
        assert(self@.shards == old(self)@.shards);
        Ok(())
    }

    /// Where a batch id is looked up.
    fn shard_for_batch(&self, batch_id: u64) -> (r: Result<Address, Error>)
        ensures
            r == batch_home(self@, batch_id),
    {
        if batch_id == 0 {
            return Err(Error::BatchNotFound);
        }
        match self.shards.get((batch_id - 1) / SHARD_CAPACITY) {
            Some(home) => Ok(home),
            None => Err(Error::BatchNotFound),
        }
    }

    /// Reads an anchored batch.
    pub fn get_batch<S: ShardInterface>(&self, shards: &S, batch_id: u64) -> (r: Result<
        BatchRecord,
        Error,
    >)
        ensures
            r == batch_answer::<S>(self@, shards.model(), batch_id),
    {
        match self.shard_for_batch(batch_id) {
            Err(e) => Err(e),
            Ok(home) => shard::unwrap_shard_result(shards.get_batch(home, batch_id)),
        }
    }

    /// Verifies a receipt against an anchored batch.
    pub fn verify_receipt<S: ShardInterface>(
        &self,
        shards: &S,
        batch_id: u64,
        leaf: BytesN<32>,
        proof: &Vec<BytesN<32>>,
    ) -> (r: Result<bool, Error>)
        ensures
            r == receipt_answer::<S>(self@, shards.model(), batch_id, leaf, proof@),
    {
        match self.shard_for_batch(batch_id) {
            Err(e) => Err(e),
            Ok(home) => shard::unwrap_shard_result(
                shards.verify_receipt(home, batch_id, leaf, proof),
            ),
        }
    }

    /// Verifies a receipt against any root that is still in the ring buffer.
    pub fn verify_receipt_by_root(
        &self,
        root: BytesN<32>,
        leaf: BytesN<32>,
        proof: &Vec<BytesN<32>>,
    ) -> (r: Result<bool, Error>)
        ensures
            r == root_answer(self@, root, leaf, proof@),
    {
        if proof.len() > MAX_PROOF_LEN as usize {
            return Err(Error::ProofTooLong);
        }
        match &self.root_buffer {
            None => Err(Error::NotInitialized),
            Some(roots) => {
                let mut i: usize = 0;
                while i < roots.len()
                    invariant
                        i <= roots.len(),
                        forall|k: int| 0 <= k < i ==> roots@[k] != root,
                        buffer_is(self.root_buffer, *roots),
                        proof.len() <= MAX_PROOF_LEN,
                    decreases roots.len() - i,
                {
                    if roots[i] == root {
                        assert(roots@[i as int] == root);
                        return Ok(merkle::verify(root, leaf, proof));
                    }
                    i = i + 1;
                }
                Err(Error::RootNotFound)
            },
        }
    }

    /// Whether the next anchor can be computed: the end of the minimum interval is a valid
    /// time, and the next batch id leaves room for one more shard.
    pub fn anchor_in_range(&self) -> (r: bool)
        ensures
            r == (rate_limit_computable(self@) && ids_left(self@)),
    {
        let timely = match self.last_anchor_time {
            None => true,
            Some(last) => self.min_anchor_interval == 0 || last.checked_add(
                self.min_anchor_interval as u64,
            ).is_some(),
        };
        let count: u64 = match self.batch_count {
            None => 0,
            Some(count) => count,
        };
        timely && count < u64::MAX - SHARD_CAPACITY - 1
    }

    /// Anchors a batch of receipts by its Merkle root and returns its id.
    pub fn anchor_batch<S: ShardInterface>(
        &mut self,
        env: &mut Env,
        shards: &mut S,
        root: BytesN<32>,
        count: u32,
        period_start: u64,
        period_end: u64,
    ) -> (r: Result<u64, Error>)
        requires
            old(self).wf(),
            anchor_computable(*old(self), *old(env), *old(shards), root, count),
        ensures
            final(self).wf(),
            old(self)@.evolves_to(final(self)@),
            anchors(
                *old(self),
                *old(env),
                *old(shards),
                anchor_error::<S>(old(self)@, *old(env), old(shards).model(), root, count),
                record_of(old(env).ledger, root, count, period_start, period_end),
                r,
                *final(self),
                *final(env),
                *final(shards),
            ),
    {
        self.anchor_batch_internal(env, shards, root, count, period_start, period_end)
    }

    /// Anchors a batch whose state root comes with a validity proof.
    pub fn anchor_batch_zk<S: ShardInterface>(
        &mut self,
        env: &mut Env,
        shards: &mut S,
        state_root: BytesN<32>,
        proof: &ZkProof,
        count: u32,
        period_start: u64,
        period_end: u64,
    ) -> (r: Result<u64, Error>)
        requires
            old(self).wf(),
            zk_verifier::batch_proof_accepts(*proof, count) ==> anchor_computable(
                *old(self),
                *old(env),
                *old(shards),
                state_root,
                count,
            ),
        ensures
            final(self).wf(),
            old(self)@.evolves_to(final(self)@),
            anchors(
                *old(self),
                *old(env),
                *old(shards),
                anchor_zk_error::<S>(
                    old(self)@,
                    *old(env),
                    old(shards).model(),
                    *proof,
                    state_root,
                    count,
                ),
                record_of(old(env).ledger, state_root, count, period_start, period_end),
                r,
                *final(self),
                *final(env),
                *final(shards),
            ),
    {
        assert(env.effects@ =~= old(env).effects@ + Seq::<Effect>::empty());
        match zk_verifier::verify_batch_zk_proof(&state_root, proof, count) {
            Err(e) => Err(e),
            Ok(valid) => if valid {
                self.anchor_batch_internal(
                    env,
                    shards,
                    state_root,
                    count,
                    period_start,
                    period_end,
                )
            } else {
                Err(Error::InvalidProof)
            },
        }
    }

    fn anchor_batch_internal<S: ShardInterface>(
        &mut self,
        env: &mut Env,
        shards: &mut S,
        root: BytesN<32>,
        count: u32,
        period_start: u64,
        period_end: u64,
    ) -> (r: Result<u64, Error>)
        requires
            old(self).wf(),
            anchor_computable(*old(self), *old(env), *old(shards), root, count),
        ensures
            final(self).wf(),
            old(self)@.evolves_to(final(self)@),
            anchors(
                *old(self),
                *old(env),
                *old(shards),
                anchor_error::<S>(old(self)@, *old(env), old(shards).model(), root, count),
                record_of(old(env).ledger, root, count, period_start, period_end),
                r,
                *final(self),
                *final(env),
                *final(shards),
            ),
    {
        assert(env.effects@ =~= old(env).effects@ + Seq::<Effect>::empty());
        if count > MAX_BATCH_SIZE {
            return Err(Error::BatchTooLarge);
        }
        if let Err(e) = self.require_merchant(env) {
            return Err(e);
        }
        if self.min_anchor_interval > 0 {
            if let Some(last) = self.last_anchor_time {
                if env.ledger.timestamp < last + self.min_anchor_interval as u64 {
                    return Err(Error::AnchorRateLimited);
                }
            }
        }
        let batch_count: u64 = self.batch_count.unwrap();
        if batch_count > 0 {
            if let Ok(last) = self.get_batch(shards, batch_count) {
                if last.root == root {
                    return Err(Error::DuplicateRoot);
                }
            }
        }
        let batch_id: u64 = batch_count + 1;
        let index: u64 = (batch_id - 1) / SHARD_CAPACITY;
        let ghost placement = next_placement::<S>(self@, env.ledger, shards.model());
        let home = self.get_or_create_shard(env, shards, index);
        let sequence: u32 = env.ledger.sequence;
        shards.anchor_batch(sequence, home, batch_id, root, count, period_start, period_end);
        self.batch_count = Some(batch_id);
        self.last_anchor_time = Some(env.ledger.timestamp);
        self.push_root(root);
        env.renew_instance();
        let event = AnchorEvent {
            batch_id,
            root,
            count,
            period_start,
            period_end,
            anchored_ledger: sequence,
        };
        env.ask(Effect::PublishAnchor(event));
        proof {
            assert(env.effects@ =~= old(env).effects@ + (placement.effects + seq![
                types::renewal(),
                Effect::PublishAnchor(event),
            ]));
        }
        Ok(batch_id)
    }

    /// Puts a root into the ring buffer; the oldest leaves once it is full.
    fn push_root(&mut self, root: BytesN<32>)
        requires
            old(self).root_buffer is Some,
        ensures
            final(self)@ == (AnchorState {
                root_buffer: Some(with_root(old(self)@.roots(), root)),
                ..old(self)@
            }),
    {
        let mut roots: Vec<BytesN<32>> = match self.root_buffer.take() {
            Some(roots) => roots,
            None => Vec::new(),
        };
        if roots.len() >= ROOT_BUFFER_SIZE as usize {
            roots.remove(0);
            assert(roots@ =~= old(self)@.roots().drop_first());
        }
        roots.push(root);
        self.root_buffer = Some(roots);
    }

    /// The shard with an index, deployed if there is none yet.
    fn get_or_create_shard<S: ShardInterface>(
        &mut self,
        env: &mut Env,
        shards: &mut S,
        index: u64,
    ) -> (r: Address)
        requires
            old(self).shard_wasm_hash is Some,
            shard_start(index as int) + SHARD_CAPACITY <= u64::MAX,
            old(self).shard_count < u64::MAX,
            !old(self)@.shards.contains_key(index) ==> S::can_deploy(
                old(shards).model(),
                shard_salt_bytes(index),
            ),
        ensures
            ({
                let placement = place::<S>(
                    old(self)@,
                    old(env).ledger,
                    old(shards).model(),
                    index,
                    shard_salt_bytes(index),
                );
                &&& r == placement.home
                &&& final(self)@ == placement.anchor
                &&& final(shards).model() == placement.model
                &&& old(env).advanced(*final(env), placement.effects)
            }),
    {
        assert(env.effects@ =~= old(env).effects@ + Seq::<Effect>::empty());
        if let Some(home) = self.shards.get(index) {
            return home;
        }
        let start_batch_id: u64 = index * SHARD_CAPACITY + 1;
        let end_batch_id: u64 = start_batch_id + SHARD_CAPACITY;
        let home = shards.deploy(
            env.ledger.contract,
            shard_salt(index),
            self.shard_wasm_hash.unwrap(),
            start_batch_id,
            end_batch_id,
        );
        self.shards.set(index, home);
        self.shard_count = self.shard_count + 1;
        env.ask(
            Effect::PublishShardCreated(
                ShardCreatedEvent {
                    shard_index: index,
                    shard_address: home,
                    start_batch_id,
                    end_batch_id,
                },
            ),
        );
        home
    }

    /// Checks a Groth16 proof against a verifying key and public inputs.
    pub fn verify_zk_proof(
        proof: &ZkProof,
        vk: &VerifyingKey,
        public_inputs: &Vec<BytesN<32>>,
    ) -> (r: Result<bool, Error>)
        ensures
            r == Ok::<bool, Error>(
                zk_verifier::groth16_accepts(*proof, *vk, public_inputs@.len()),
            ),
    {
        zk_verifier::verify_groth16(proof, vk, public_inputs)
    }

    /// Keeps a batch alive. A refused call leaves the shards unchanged.
    pub fn extend_batch_ttl<S: ShardInterface>(&self, shards: &mut S, batch_id: u64) -> (r: Result<
        (),
        Error,
    >)
        ensures
            extends::<S>(self@, old(shards).model(), batch_id, r, final(shards).model()),
    {
        match self.shard_for_batch(batch_id) {
            Err(e) => Err(e),
            Ok(home) => shard::unwrap_shard_result(shards.extend_batch_ttl(home, batch_id)),
        }
    }

    /// Deletes batches anchored before `before_ledger`, oldest first, at most
    /// [`MAX_PRUNE_BATCHES`] at a time. The next call resumes where this one stopped.
    pub fn prune_batches<S: ShardInterface>(
        &mut self,
        env: &mut Env,
        shards: &mut S,
        before_ledger: u32,
    ) -> (r: Result<(), Error>)
        requires
            old(self).wf(),
            old(self)@.merchant_error(*old(env)) is None ==> prune_walk_ok::<S>(
                old(self)@,
                old(shards).model(),
                before_ledger,
                old(self).pruned_up_to->0,
                MAX_PRUNE_BATCHES as nat,
            ),
        ensures
            final(self).wf(),
            old(self)@.evolves_to(final(self)@),
            prunes(
                *old(self),
                *old(env),
                *old(shards),
                before_ledger,
                r,
                *final(self),
                *final(env),
                *final(shards),
            ),
    {
        assert(env.effects@ =~= old(env).effects@ + Seq::<Effect>::empty());
        if let Err(e) = self.require_merchant(env) {
            return Err(e);
        }
        let start_batch_id: u64 = self.pruned_up_to.unwrap();
        let batch_count: u64 = self.batch_count.unwrap();
        let mut cursor: u64 = start_batch_id;
        let mut remaining: u64 = MAX_PRUNE_BATCHES;
        let ghost walk = prune_walk::<S>(
            self@,
            shards.model(),
            before_ledger,
            cursor,
            remaining as nat,
        );
        while remaining > 0 && cursor <= batch_count
            invariant_except_break
                remaining > 0 ==> cursor >= 1,
                prune_walk_ok::<S>(self@, shards.model(), before_ledger, cursor, remaining as nat),
                prune_walk::<S>(self@, shards.model(), before_ledger, cursor, remaining as nat)
                    == walk,
            invariant
                self.wf(),
                self@ == old(self)@,
                batch_count == self@.count(),
                remaining <= MAX_PRUNE_BATCHES,
            ensures
                (PruneState { model: shards.model(), cursor }) == walk,
            decreases remaining,
        {
            let index: u64 = (cursor - 1) / SHARD_CAPACITY;
            let home = match self.shards.get(index) {
                None => break,
                Some(home) => home,
            };
            let shard_end: u64 = index * SHARD_CAPACITY + SHARD_CAPACITY + 1;
            let high: u64 = if shard_end < batch_count + 1 {
                shard_end
            } else {
                batch_count + 1
            };
            let (next, pruned) = shards.prune_batches(home, before_ledger, remaining as u32, high);
            cursor = next;
            remaining = remaining - pruned;
            if pruned == 0 {
                break;
            }
        }
        if cursor > start_batch_id {
            self.pruned_up_to = Some(cursor);
            env.ask(
                Effect::PublishPrune(PruneEvent { start_batch_id, end_batch_id: cursor }),
            );
        }
        env.renew_instance();
        assert(env.effects@ =~= old(env).effects@ + prune_effects(old(self)@, cursor));
        Ok(())
    }

    /// Sets the minimum number of seconds between anchors; 0 disables the limit.
    pub fn set_min_anchor_interval(&mut self, env: &Env, interval: u32) -> (r: Result<(), Error>)
        requires
            old(self).wf(),
        ensures
            final(self).wf(),
            old(self)@.evolves_to(final(self)@),
            sets_interval(*old(self), *env, interval, r, *final(self)),
    {
        if let Err(e) = self.require_merchant(env) {
            return Err(e);
        }
        if interval > MAX_ANCHOR_INTERVAL {
            return Err(Error::BatchTooLarge);
        }
        self.min_anchor_interval = interval;
        assert(self@.shards == old(self)@.shards);
        Ok(())
    }

    /// The minimum number of seconds between anchors.
    pub fn get_min_anchor_interval(&self) -> (r: u32)
        ensures
            r == self.min_anchor_interval,
    {
        self.min_anchor_interval
    }

    /// The ring buffer of historical roots, oldest first.
    pub fn get_root_buffer(&self) -> (r: Vec<BytesN<32>>)
        ensures
            r@ == self@.roots(),
    {
        let mut copy: Vec<BytesN<32>> = Vec::new();
        if let Some(roots) = &self.root_buffer {
            let mut i: usize = 0;
            while i < roots.len()
                invariant
                    i <= roots.len(),
                    copy@ == roots@.take(i as int),
                decreases roots.len() - i,
            {
                copy.push(roots[i]);
                i = i + 1;
                assert(copy@ =~= roots@.take(i as int));
            }
            assert(copy@ =~= roots@);
        }
        copy
    }

    /// Number of historical roots that stay verifiable.
    pub fn get_root_buffer_size() -> (r: u32)
        ensures
            r == ROOT_BUFFER_SIZE,
    {
        ROOT_BUFFER_SIZE
    }

    /// Number of batches anchored so far.
    pub fn get_batch_count(&self) -> (r: Result<u64, Error>)
        ensures
            match self.batch_count {
                Some(count) => r == Ok::<u64, Error>(count),
                None => r == Err::<u64, Error>(Error::NotInitialized),
            },
    {
        match self.batch_count {
            Some(count) => Ok(count),
            None => Err(Error::NotInitialized),
        }
    }

    /// The merchant.
    pub fn get_admin(&self) -> (r: Result<Address, Error>)
        ensures
            match self.admin {
                Some(merchant) => r == Ok::<Address, Error>(merchant),
                None => r == Err::<Address, Error>(Error::NotInitialized),
            },
    {
        match self.admin {
            Some(merchant) => Ok(merchant),
            None => Err(Error::NotInitialized),
        }
    }

    /// The prune cursor: the oldest batch that has not been pruned.
    pub fn get_pruned_up_to(&self) -> (r: Result<u64, Error>)
        ensures
            match self.pruned_up_to {
                Some(cursor) => r == Ok::<u64, Error>(cursor),
                None => r == Err::<u64, Error>(Error::NotInitialized),
            },
    {
        match self.pruned_up_to {
            Some(cursor) => Ok(cursor),
            None => Err(Error::NotInitialized),
        }
    }

    /// Largest number of receipts in a batch.
    pub fn get_max_batch_size() -> (r: u32)
        ensures
            r == MAX_BATCH_SIZE,
    {
        MAX_BATCH_SIZE
    }

    /// Length of the longest valid proof.
    pub fn get_max_proof_len() -> (r: u32)
        ensures
            r == MAX_PROOF_LEN,
    {
        MAX_PROOF_LEN
    }

    /// Number of batch ids that one shard holds.
    pub fn get_shard_capacity() -> (r: u64)
        ensures
            r == SHARD_CAPACITY,
    {
        SHARD_CAPACITY
    }

    /// Number of shards deployed so far.
    pub fn get_shard_count(&self) -> (r: u64)
        ensures
            r == self.shard_count,
    {
        self.shard_count
    }

    /// The address of a shard.
    pub fn get_shard_address(&self, shard_index: u64) -> (r: Result<Address, Error>)
        ensures
            r == (if self@.shards.contains_key(shard_index) {
                Ok::<Address, Error>(self@.shards[shard_index])
            } else {
                Err::<Address, Error>(Error::BatchNotFound)
            }),
    {
        match self.shards.get(shard_index) {
            Some(home) => Ok(home),
            None => Err(Error::BatchNotFound),
        }
    }
}

spec fn buffer_is(buffer: Option<Vec<BytesN<32>>>, roots: Vec<BytesN<32>>) -> bool {
    buffer == Some(roots)
}

/// Whether anchoring, as far as it gets, can be computed and the shards can take the
/// batch.
pub open spec fn anchor_computable<S: ShardInterface>(
    pre: ReceiptAnchor,
    env: Env,
    shards: S,
    root: BytesN<32>,
    count: u32,
) -> bool {
    count <= MAX_BATCH_SIZE && pre@.merchant_error(env) is None ==> {
        &&& rate_limit_computable(pre@)
        &&& anchor_error::<S>(pre@, env, shards.model(), root, count) is None ==> can_take_batch::<
            S,
        >(pre@, env.ledger, shards.model())
    }
}

} // verus!
