//! The shards that hold anchored batches: the interface that the anchor routes to.

use super::types::BatchRecord;
use crate::error::Error;
use crate::primitives::{Address, BytesN};
use vstd::prelude::*;

verus! {

/// A reply could not be decoded.
#[derive(Clone, Copy, Debug, PartialEq, Eq, Structural)]
pub struct ConversionError;

/// A call ended without a contract error.
#[derive(Clone, Copy, Debug, PartialEq, Eq, Structural)]
pub struct InvokeError;

/// What a call to a shard can come back with.
pub type Reply<T> = Result<Result<T, ConversionError>, Result<Error, InvokeError>>;

/// The result that a reply carries: the value, the shard's own error, or
/// `ShardCallFailed` for a reply of unexpected shape.
pub open spec fn reply_result<T>(reply: Reply<T>) -> Result<T, Error> {
    match reply {
        Ok(Ok(value)) => Ok(value),
        Ok(Err(_)) => Err(Error::ShardCallFailed),
        Err(Ok(e)) => Err(e),
        Err(Err(_)) => Err(Error::ShardCallFailed),
    }
}

/// The result that a reply carries.
pub fn unwrap_shard_result<T>(reply: Reply<T>) -> (r: Result<T, Error>)
    ensures
        r == reply_result(reply),
{
    match reply {
        Ok(Ok(value)) => Ok(value),
        Ok(Err(_)) => Err(Error::ShardCallFailed),
        Err(Ok(e)) => Err(e),
        Err(Err(_)) => Err(Error::ShardCallFailed),
    }
}

/// The shards that the anchor can reach, by contract address, and the factory that
/// deploys them.
///
/// `Model` stands for everything that the shards store once the anchor's call is over; the
/// host undoes what a refused call wrote. Each entry point names what it answers and what
/// it leaves stored as functions of the model and the arguments. Where
/// an implementation does not define a name, it stands for one fixed, unspecified value,
/// whatever the model and the arguments.
pub trait ShardInterface: Sized {
    type Model;

    /// What the shards store.
    open spec fn model(&self) -> Self::Model {
        arbitrary()
    }

    /// Whether a shard can be deployed under `salt`.
    open spec fn can_deploy(m: Self::Model, salt: BytesN<32>) -> bool {
        arbitrary()
    }

    /// The address of a shard deployed by `deployer` under `salt`.
    open spec fn deploy_address(
        m: Self::Model,
        deployer: Address,
        salt: BytesN<32>,
        wasm_hash: BytesN<32>,
    ) -> Address {
        arbitrary()
    }

    /// What is stored once a shard for the ids from `start` up to `end` is deployed.
    open spec fn after_deploy(
        m: Self::Model,
        deployer: Address,
        salt: BytesN<32>,
        wasm_hash: BytesN<32>,
        start_batch_id: u64,
        end_batch_id: u64,
    ) -> Self::Model {
        arbitrary()
    }

    /// Whether the shard accepts the batch.
    open spec fn can_anchor(m: Self::Model, shard: Address, batch_id: u64) -> bool {
        arbitrary()
    }

    /// What is stored once the shard holds the batch.
    open spec fn after_anchor(
        m: Self::Model,
        shard: Address,
        batch_id: u64,
        record: BatchRecord,
    ) -> Self::Model {
        arbitrary()
    }

    /// What the shard answers to `get_batch`.
    open spec fn get_batch_reply(m: Self::Model, shard: Address, batch_id: u64) -> Reply<BatchRecord> {
        arbitrary()
    }

    /// What the shard answers to `verify_receipt`.
    open spec fn verify_receipt_reply(
        m: Self::Model,
        shard: Address,
        batch_id: u64,
        leaf: BytesN<32>,
        proof: Seq<BytesN<32>>,
    ) -> Reply<bool> {
        arbitrary()
    }

    /// What the shard answers to `extend_batch_ttl`.
    open spec fn extend_reply(m: Self::Model, shard: Address, batch_id: u64) -> Reply<()> {
        arbitrary()
    }

    /// What is stored after an `extend_batch_ttl` that succeeded.
    open spec fn after_extend(m: Self::Model, shard: Address, batch_id: u64) -> Self::Model {
        arbitrary()
    }

    /// Whether the shard can answer `prune_batches`.
    open spec fn can_prune(m: Self::Model, shard: Address, high_water_batch_id: u64) -> bool {
        arbitrary()
    }

    /// What the shard answers to `prune_batches`: its new cursor, and how many batches
    /// it went past.
    open spec fn prune_reply(
        m: Self::Model,
        shard: Address,
        before_ledger: u32,
        max_batches: u32,
        high_water_batch_id: u64,
    ) -> (u64, u64) {
        arbitrary()
    }

    /// What is stored after `prune_batches`.
    open spec fn after_prune(
        m: Self::Model,
        shard: Address,
        before_ledger: u32,
        max_batches: u32,
        high_water_batch_id: u64,
    ) -> Self::Model {
        arbitrary()
    }

    /// Deploys a shard for the ids from `start_batch_id` up to `end_batch_id`.
    fn deploy(
        &mut self,
        deployer: Address,
        salt: BytesN<32>,
        wasm_hash: BytesN<32>,
        start_batch_id: u64,
        end_batch_id: u64,
    ) -> (r: Address)
        requires
            Self::can_deploy(old(self).model(), salt),
        ensures
            r == Self::deploy_address(old(self).model(), deployer, salt, wasm_hash),
            final(self).model() == Self::after_deploy(
                old(self).model(),
                deployer,
                salt,
                wasm_hash,
                start_batch_id,
                end_batch_id,
            ),
    ;

    /// Stores a batch, anchored at ledger `sequence`.
    fn anchor_batch(
        &mut self,
        sequence: u32,
        shard: Address,
        batch_id: u64,
        root: BytesN<32>,
        count: u32,
        period_start: u64,
        period_end: u64,
    )
        requires
            Self::can_anchor(old(self).model(), shard, batch_id),
        ensures
            final(self).model() == Self::after_anchor(
                old(self).model(),
                shard,
                batch_id,
                (BatchRecord {
                    root,
                    count,
                    period_start,
                    period_end,
                    anchored_ledger: sequence,
                }),
            ),
    ;

    /// Reads a batch.
    fn get_batch(&self, shard: Address, batch_id: u64) -> (r: Reply<BatchRecord>)
        ensures
            r == Self::get_batch_reply(self.model(), shard, batch_id),
    ;

    /// Verifies a receipt against a batch.
    fn verify_receipt(
        &self,
        shard: Address,
        batch_id: u64,
        leaf: BytesN<32>,
        proof: &Vec<BytesN<32>>,
    ) -> (r: Reply<bool>)
        ensures
            r == Self::verify_receipt_reply(self.model(), shard, batch_id, leaf, proof@),
    ;

    /// Keeps a batch alive.
    fn extend_batch_ttl(&mut self, shard: Address, batch_id: u64) -> (r: Reply<()>)
        ensures
            r == Self::extend_reply(old(self).model(), shard, batch_id),
            final(self).model() == match reply_result(r) {
                Ok(()) => Self::after_extend(old(self).model(), shard, batch_id),
                Err(_) => old(self).model(),
            },
    ;

    /// Deletes at most `max_batches` batches anchored before `before_ledger`, from the
    /// shard's cursor on and below `high_water_batch_id`.
    fn prune_batches(
        &mut self,
        shard: Address,
        before_ledger: u32,
        max_batches: u32,
        high_water_batch_id: u64,
    ) -> (r: (u64, u64))
        requires
            Self::can_prune(old(self).model(), shard, high_water_batch_id),
        ensures
            r == Self::prune_reply(
                old(self).model(),
                shard,
                before_ledger,
                max_batches,
                high_water_batch_id,
            ),
            final(self).model() == Self::after_prune(
                old(self).model(),
                shard,
                before_ledger,
                max_batches,
                high_water_batch_id,
            ),
    ;
}

} // verus!
