//! Receipt shards kept in memory.

use super::merkle;
use super::merkle::MAX_PROOF_LEN;
use super::shard::{InvokeError, Reply, ShardInterface};
use super::types::BatchRecord;
use crate::error::Error;
use crate::primitives::{Address, BytesN, Key, Table};
use vstd::prelude::*;

verus! {

/// The range of batch ids that a shard holds, `end_batch_id` excluded, and the oldest
/// one that it has not pruned.
#[derive(Clone, Copy, Debug, PartialEq, Eq, Structural)]
pub struct ShardBounds {
    pub start_batch_id: u64,
    pub end_batch_id: u64,
    pub cursor: u64,
}

/// A batch in a shard.
#[derive(Clone, Copy, Debug, PartialEq, Eq)]
pub struct BatchKey {
    pub shard: Address,
    pub batch_id: u64,
}

impl Key for BatchKey {
    fn same(&self, other: &Self) -> (r: bool) {
        self.shard == other.shard && self.batch_id == other.batch_id
    }
}

/// A set of deployed shards. A shard deployed under a salt has that salt as its contract
/// id.
#[derive(Debug)]
pub struct ShardSet {
    pub bounds: Table<Address, ShardBounds>,
    /// The batches of all shards; `None` marks one that was deleted.
    pub batches: Table<BatchKey, Option<BatchRecord>>,
}

/// What a set of shards stores.
#[verifier::ext_equal]
pub struct ShardSetModel {
    pub bounds: Map<Address, ShardBounds>,
    pub batches: Map<BatchKey, BatchRecord>,
}

/// The entries that are not deleted.
pub open spec fn present(batches: Map<BatchKey, Option<BatchRecord>>) -> Map<
    BatchKey,
    BatchRecord,
> {
    Map::new(
        |k: BatchKey| batches.contains_key(k) && batches[k] is Some,
        |k: BatchKey| batches[k]->0,
    )
}

/// Whether a batch does not stop a prune: it was anchored before the given ledger, or it
/// is gone.
pub open spec fn prunable(m: ShardSetModel, shard: Address, batch_id: u64, before_ledger: u32) -> bool {
    let key = BatchKey { shard, batch_id };
    !m.batches.contains_key(key) || m.batches[key].anchored_ledger < before_ledger
}

/// What a shard stores after pruning from its cursor, and how many batches it went past:
/// at most `max`, below `high`, up to the first batch that is too recent.
pub open spec fn prune_shard(
    m: ShardSetModel,
    shard: Address,
    before_ledger: u32,
    max: nat,
    high: u64,
) -> (ShardSetModel, nat)
    decreases max,
{
    let cursor = m.bounds[shard].cursor;
    if max == 0 || cursor >= high || !prunable(m, shard, cursor, before_ledger) {
        (m, 0)
    } else {
        let (rest, pruned) = prune_shard(
            without_batch(m, shard, cursor),
            shard,
            before_ledger,
            (max - 1) as nat,
            high,
        );
        (rest, pruned + 1)
    }
}

/// The shard without its oldest batch.
pub open spec fn without_batch(m: ShardSetModel, shard: Address, batch_id: u64) -> ShardSetModel {
    ShardSetModel {
        bounds: m.bounds.insert(
            shard,
            ShardBounds { cursor: (batch_id + 1) as u64, ..m.bounds[shard] },
        ),
        batches: m.batches.remove(BatchKey { shard, batch_id }),
    }
}

impl ShardSet {
    /// No shards.
    pub fn new() -> (r: Self)
        ensures
            r.model().bounds == Map::<Address, ShardBounds>::empty(),
            r.model().batches == Map::<BatchKey, BatchRecord>::empty(),
    {
        let r = ShardSet { bounds: Table::new(), batches: Table::new() };
        assert(r.model().batches =~= Map::<BatchKey, BatchRecord>::empty());
        r
    }

    /// The batch that a shard holds.
    fn find(&self, shard: Address, batch_id: u64) -> (r: Option<BatchRecord>)
        ensures
            r == (if self.model().batches.contains_key((BatchKey { shard, batch_id })) {
                Some(self.model().batches[(BatchKey { shard, batch_id })])
            } else {
                None
            }),
    {
        match self.batches.get(BatchKey { shard, batch_id }) {
            None => None,
            Some(entry) => entry,
        }
    }
}

impl ShardInterface for ShardSet {
    type Model = ShardSetModel;

    open spec fn model(&self) -> ShardSetModel {
        ShardSetModel { bounds: self.bounds@, batches: present(self.batches@) }
    }

    open spec fn can_deploy(m: ShardSetModel, salt: BytesN<32>) -> bool {
        !m.bounds.contains_key(Address::Contract(salt))
    }

    open spec fn deploy_address(
        m: ShardSetModel,
        deployer: Address,
        salt: BytesN<32>,
        wasm_hash: BytesN<32>,
    ) -> Address {
        Address::Contract(salt)
    }

    open spec fn after_deploy(
        m: ShardSetModel,
        deployer: Address,
        salt: BytesN<32>,
        wasm_hash: BytesN<32>,
        start_batch_id: u64,
        end_batch_id: u64,
    ) -> ShardSetModel {
        ShardSetModel {
            bounds: m.bounds.insert(
                Address::Contract(salt),
                ShardBounds { start_batch_id, end_batch_id, cursor: start_batch_id },
            ),
            ..m
        }
    }

    open spec fn can_anchor(m: ShardSetModel, shard: Address, batch_id: u64) -> bool {
        m.bounds.contains_key(shard) && m.bounds[shard].start_batch_id <= batch_id
            < m.bounds[shard].end_batch_id
    }

    open spec fn after_anchor(
        m: ShardSetModel,
        shard: Address,
        batch_id: u64,
        record: BatchRecord,
    ) -> ShardSetModel {
        ShardSetModel { batches: m.batches.insert(BatchKey { shard, batch_id }, record), ..m }
    }

    open spec fn get_batch_reply(m: ShardSetModel, shard: Address, batch_id: u64) -> Reply<
        BatchRecord,
    > {
        let key = BatchKey { shard, batch_id };
        if !m.bounds.contains_key(shard) {
            Err(Err(InvokeError))
        } else if !m.batches.contains_key(key) {
            Err(Ok(Error::BatchNotFound))
        } else {
            Ok(Ok(m.batches[key]))
        }
    }

    open spec fn verify_receipt_reply(
        m: ShardSetModel,
        shard: Address,
        batch_id: u64,
        leaf: BytesN<32>,
        proof: Seq<BytesN<32>>,
    ) -> Reply<bool> {
        let key = BatchKey { shard, batch_id };
        if !m.bounds.contains_key(shard) {
            Err(Err(InvokeError))
        } else if proof.len() > MAX_PROOF_LEN {
            Err(Ok(Error::ProofTooLong))
        } else if !m.batches.contains_key(key) {
            Err(Ok(Error::BatchNotFound))
        } else {
            Ok(Ok(merkle::proves(m.batches[key].root, leaf, proof)))
        }
    }

    open spec fn extend_reply(m: ShardSetModel, shard: Address, batch_id: u64) -> Reply<()> {
        if !m.bounds.contains_key(shard) {
            Err(Err(InvokeError))
        } else if !m.batches.contains_key(BatchKey { shard, batch_id }) {
            Err(Ok(Error::BatchNotFound))
        } else {
            Ok(Ok(()))
        }
    }

    open spec fn after_extend(m: ShardSetModel, shard: Address, batch_id: u64) -> ShardSetModel {
        m
    }

    open spec fn can_prune(m: ShardSetModel, shard: Address, high_water_batch_id: u64) -> bool {
        m.bounds.contains_key(shard)
    }

    open spec fn prune_reply(
        m: ShardSetModel,
        shard: Address,
        before_ledger: u32,
        max_batches: u32,
        high_water_batch_id: u64,
    ) -> (u64, u64) {
        let (rest, pruned) = prune_shard(
            m,
            shard,
            before_ledger,
            max_batches as nat,
            high_water_batch_id,
        );
        (rest.bounds[shard].cursor, pruned as u64)
    }

    open spec fn after_prune(
        m: ShardSetModel,
        shard: Address,
        before_ledger: u32,
        max_batches: u32,
        high_water_batch_id: u64,
    ) -> ShardSetModel {
        prune_shard(m, shard, before_ledger, max_batches as nat, high_water_batch_id).0
    }

    fn deploy(
        &mut self,
        deployer: Address,
        salt: BytesN<32>,
        wasm_hash: BytesN<32>,
        start_batch_id: u64,
        end_batch_id: u64,
    ) -> (r: Address) {
        let home = Address::Contract(salt);
        self.bounds.set(
            home,
            ShardBounds { start_batch_id, end_batch_id, cursor: start_batch_id },
        );
        home
    }

    fn anchor_batch(
        &mut self,
        sequence: u32,
        shard: Address,
        batch_id: u64,
        root: BytesN<32>,
        count: u32,
        period_start: u64,
        period_end: u64,
    ) {
        let record = BatchRecord {
            root,
            count,
            period_start,
            period_end,
            anchored_ledger: sequence,
        };
        self.batches.set(BatchKey { shard, batch_id }, Some(record));
        assert(self.model() =~= Self::after_anchor(old(self).model(), shard, batch_id, record));
    }

    fn get_batch(&self, shard: Address, batch_id: u64) -> (r: Reply<BatchRecord>) {
        if !self.bounds.has(shard) {
            return Err(Err(InvokeError));
        }
        match self.find(shard, batch_id) {
            None => Err(Ok(Error::BatchNotFound)),
            Some(record) => Ok(Ok(record)),
        }
    }

    fn verify_receipt(
        &self,
        shard: Address,
        batch_id: u64,
        leaf: BytesN<32>,
        proof: &Vec<BytesN<32>>,
    ) -> (r: Reply<bool>) {
        if !self.bounds.has(shard) {
            return Err(Err(InvokeError));
        }
        if proof.len() > MAX_PROOF_LEN as usize {
            return Err(Ok(Error::ProofTooLong));
        }
        match self.find(shard, batch_id) {
            None => Err(Ok(Error::BatchNotFound)),
            Some(record) => Ok(Ok(merkle::verify(record.root, leaf, proof))),
        }
    }

    fn extend_batch_ttl(&mut self, shard: Address, batch_id: u64) -> (r: Reply<()>) {
        if !self.bounds.has(shard) {
            return Err(Err(InvokeError));
        }
        match self.find(shard, batch_id) {
            None => Err(Ok(Error::BatchNotFound)),
            Some(_) => Ok(Ok(())),
        }
    }

    fn prune_batches(
        &mut self,
        shard: Address,
        before_ledger: u32,
        max_batches: u32,
        high_water_batch_id: u64,
    ) -> (r: (u64, u64)) {
        let ghost target = prune_shard(
            self.model(),
            shard,
            before_ledger,
            max_batches as nat,
            high_water_batch_id,
        );
        let mut bounds = self.bounds.get(shard).unwrap();
        let mut pruned: u64 = 0;
        while pruned < max_batches as u64 && bounds.cursor < high_water_batch_id
            invariant_except_break
                ({
                    let (rest, more) = prune_shard(
                        self.model(),
                        shard,
                        before_ledger,
                        (max_batches - pruned) as nat,
                        high_water_batch_id,
                    );
                    target == (rest, more + pruned as nat)
                }),
            invariant
                pruned <= max_batches,
                self.bounds@.contains_key(shard),
                self.bounds@[shard] == bounds,
            ensures
                target == (self.model(), pruned as nat),
            decreases max_batches - pruned,
        {
            if let Some(record) = self.find(shard, bounds.cursor) {
                if record.anchored_ledger >= before_ledger {
                    break;
                }
            }
            let ghost before = self.model();
            let batch_id: u64 = bounds.cursor;
            self.batches.set(BatchKey { shard, batch_id }, None);
            bounds.cursor = batch_id + 1;
            self.bounds.set(shard, bounds);
            assert(self.model() =~= without_batch(before, shard, batch_id));
            pruned = pruned + 1;
        }
        (bounds.cursor, pruned)
    }
}

} // verus!
