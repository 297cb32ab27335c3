//! Records, events and stored state of the anchor.

use crate::error::Error;
use crate::primitives;
use crate::primitives::{Address, BytesN, Ledger, Table};
use vstd::prelude::*;

verus! {

/// About 30 days of ledgers at 5 seconds each: how far a time to live is extended.
pub const TTL_EXTEND: u32 = 518_400;

/// Remaining time to live below which an entry is extended.
pub const TTL_THRESHOLD: u32 = 100;

/// Largest number of batches that one `prune_batches` call deletes.
pub const MAX_PRUNE_BATCHES: u64 = 100;

/// Number of historical roots that stay verifiable.
pub const ROOT_BUFFER_SIZE: u32 = 100;

/// Largest minimum interval between anchors, in seconds.
pub const MAX_ANCHOR_INTERVAL: u32 = 86_400;

/// Number of batch ids that one shard holds.
pub const SHARD_CAPACITY: u64 = 200;

/// Names of the stored entries.
#[derive(Clone, Copy, Debug, PartialEq, Eq, Structural)]
pub enum DataKey {
    Admin,
    BatchCount,
    PrunedUpTo,
    RootBuffer,
    LastAnchorTime,
    MinAnchorInterval,
    ShardWasmHash,
    ShardCount,
    /// The address of a shard, by shard index.
    Shard(u64),
}

/// An anchored batch of receipts.
#[derive(Clone, Copy, Debug, PartialEq, Eq)]
pub struct BatchRecord {
    pub root: BytesN<32>,
    pub count: u32,
    pub period_start: u64,
    pub period_end: u64,
    pub anchored_ledger: u32,
}

/// A batch was anchored; the data mirrors [`BatchRecord`].
#[derive(Clone, Copy, Debug, PartialEq, Eq)]
pub struct AnchorEvent {
    pub batch_id: u64,
    pub root: BytesN<32>,
    pub count: u32,
    pub period_start: u64,
    pub period_end: u64,
    pub anchored_ledger: u32,
}

/// The batches from `start_batch_id` up to, not including, `end_batch_id` were deleted.
#[derive(Clone, Copy, Debug, PartialEq, Eq, Structural)]
pub struct PruneEvent {
    pub start_batch_id: u64,
    pub end_batch_id: u64,
}

/// A shard was deployed for the batch ids from `start_batch_id` up to, not including,
/// `end_batch_id`.
#[derive(Clone, Copy, Debug, PartialEq, Eq)]
pub struct ShardCreatedEvent {
    pub shard_index: u64,
    pub shard_address: Address,
    pub start_batch_id: u64,
    pub end_batch_id: u64,
}

/// What a call asks of the host, in order.
#[derive(Clone, Copy, Debug, PartialEq, Eq)]
pub enum Effect {
    /// Extend the instance to `extend_to` ledgers if fewer than `threshold` are left.
    ExtendInstanceTtl { threshold: u32, extend_to: u32 },
    PublishAnchor(AnchorEvent),
    PublishPrune(PruneEvent),
    PublishShardCreated(ShardCreatedEvent),
}

/// The effect that keeps the instance alive.
pub open spec fn renewal() -> Effect {
    Effect::ExtendInstanceTtl { threshold: TTL_THRESHOLD, extend_to: TTL_EXTEND }
}

/// The surroundings of a call: the ledger, who signed, and what the call asks of the
/// host.
#[derive(Debug)]
pub struct Env {
    pub ledger: Ledger,
    /// The addresses that authorized the call.
    pub signers: Vec<Address>,
    /// What the call asks of the host, in order.
    pub effects: Vec<Effect>,
}

impl Env {
    /// Whether `who` authorized the call.
    pub open spec fn signed_by(self, who: Address) -> bool {
        self.signers@.contains(who)
    }

    /// `post` sees the same ledger; the call has asked for `effects`.
    pub open spec fn advanced(self, post: Env, effects: Seq<Effect>) -> bool {
        &&& post.ledger == self.ledger
        &&& post.signers@ == self.signers@
        &&& post.effects@ == self.effects@ + effects
    }

    /// Whether `who` authorized the call.
    pub fn is_signed_by(&self, who: Address) -> (r: bool)
        ensures
            r == self.signed_by(who),
    {
        let mut i: usize = 0;
        while i < self.signers.len()
            invariant
                i <= self.signers.len(),
                forall|k: int| 0 <= k < i ==> self.signers@[k] != who,
            decreases self.signers.len() - i,
        {
            if self.signers[i] == who {
                assert(self.signers@[i as int] == who);
                return true;
            }
            i = i + 1;
        }
        false
    }

    /// Asks for one more effect.
    pub(crate) fn ask(&mut self, effect: Effect)
        ensures
            old(self).advanced(*final(self), seq![effect]),
    {
        self.effects.push(effect);
        assert(self.effects@ =~= old(self).effects@ + seq![effect]);
    }

    /// Keeps the instance alive.
    pub(crate) fn renew_instance(&mut self)
        ensures
            old(self).advanced(*final(self), seq![renewal()]),
    {
        self.ask(Effect::ExtendInstanceTtl { threshold: TTL_THRESHOLD, extend_to: TTL_EXTEND });
    }
}

/// The anchor contract: its stored entries.
///
/// An entry that the contract can find missing is an `Option`; the others have the
/// default that a missing entry reads as.
#[derive(Debug)]
pub struct ReceiptAnchor {
    pub admin: Option<Address>,
    /// Number of batches anchored so far; the id of the latest one.
    pub batch_count: Option<u64>,
    /// The oldest batch that has not been pruned.
    pub pruned_up_to: Option<u64>,
    /// The latest roots, oldest first.
    pub root_buffer: Option<Vec<BytesN<32>>>,
    pub last_anchor_time: Option<u64>,
    pub min_anchor_interval: u32,
    pub shard_wasm_hash: Option<BytesN<32>>,
    pub shard_count: u64,
    /// Addresses of the shards, by shard index.
    pub shards: Table<u64, Address>,
}

/// The stored entries as mathematical values.
#[verifier::ext_equal]
pub struct AnchorState {
    pub admin: Option<Address>,
    pub batch_count: Option<u64>,
    pub pruned_up_to: Option<u64>,
    pub root_buffer: Option<Seq<BytesN<32>>>,
    pub last_anchor_time: Option<u64>,
    pub min_anchor_interval: u32,
    pub shard_wasm_hash: Option<BytesN<32>>,
    pub shard_count: u64,
    pub shards: Map<u64, Address>,
}

/// A root buffer as a sequence.
pub open spec fn buffer_view(buffer: Option<Vec<BytesN<32>>>) -> Option<Seq<BytesN<32>>> {
    match buffer {
        Some(roots) => Some(roots@),
        None => None,
    }
}

impl View for ReceiptAnchor {
    type V = AnchorState;

    open spec fn view(&self) -> AnchorState {
        AnchorState {
            admin: self.admin,
            batch_count: self.batch_count,
            pruned_up_to: self.pruned_up_to,
            root_buffer: buffer_view(self.root_buffer),
            last_anchor_time: self.last_anchor_time,
            min_anchor_interval: self.min_anchor_interval,
            shard_wasm_hash: self.shard_wasm_hash,
            shard_count: self.shard_count,
            shards: self.shards@,
        }
    }
}

impl AnchorState {
    /// Whether the anchor has been initialized.
    pub open spec fn initialized(self) -> bool {
        self.admin is Some
    }

    /// The invariant of the stored entries.
    ///
    /// The entries of `initialize` are written together. The ring buffer never
    /// overflows. Every batch id has its shard, and the shards are numbered from zero
    /// without gaps. Batch ids leave room for the bounds of one more shard.
    pub open spec fn wf(self) -> bool {
        &&& self.admin is Some <==> self.batch_count is Some
        &&& self.admin is Some <==> self.pruned_up_to is Some
        &&& self.admin is Some <==> self.root_buffer is Some
        &&& self.admin is Some <==> self.shard_wasm_hash is Some
        &&& self.pruned_up_to is Some ==> self.pruned_up_to->0 >= 1
        &&& self.root_buffer is Some ==> self.root_buffer->0.len() <= ROOT_BUFFER_SIZE
        &&& self.min_anchor_interval <= MAX_ANCHOR_INTERVAL
        &&& self.count() <= u64::MAX - SHARD_CAPACITY - 1
        &&& self.shard_count == (self.count() + SHARD_CAPACITY - 1) / SHARD_CAPACITY as int
        &&& forall|i: u64| #[trigger] self.shards.contains_key(i) <==> i < self.shard_count
    }

    /// What every call keeps: the merchant and the shard code stay once they are set,
    /// the number of batches and the prune cursor never go back, and a shard keeps its
    /// address.
    pub open spec fn evolves_to(self, post: AnchorState) -> bool {
        &&& self.admin is Some ==> post.admin == self.admin && post.shard_wasm_hash
            == self.shard_wasm_hash
        &&& post.count() >= self.count()
        &&& self.pruned_up_to is Some ==> post.pruned_up_to is Some && post.pruned_up_to->0
            >= self.pruned_up_to->0
        &&& post.shard_count >= self.shard_count
        &&& forall|i: u64| #[trigger]
            self.shards.contains_key(i) ==> post.shards.contains_key(i) && post.shards[i]
                == self.shards[i]
    }

    /// Number of batches anchored so far.
    pub open spec fn count(self) -> u64 {
        match self.batch_count {
            Some(count) => count,
            None => 0,
        }
    }

    /// The latest roots, oldest first.
    pub open spec fn roots(self) -> Seq<BytesN<32>> {
        match self.root_buffer {
            Some(roots) => roots,
            None => Seq::empty(),
        }
    }

    /// Why a merchant call is refused before it does anything: the anchor is not
    /// initialized, or the merchant did not sign.
    pub open spec fn merchant_error(self, env: Env) -> Option<Error> {
        if self.admin is None {
            Some(Error::NotInitialized)
        } else if !env.signed_by(self.admin->0) {
            Some(Error::Unauthorized)
        } else {
            None
        }
    }
}

impl ReceiptAnchor {
    /// The invariant of the stored entries; see [`AnchorState::wf`].
    pub open spec fn wf(self) -> bool {
        self@.wf()
    }

    /// Whether the stored entries keep the invariant.
    pub fn is_well_formed(&self) -> (r: bool)
        ensures
            r == self.wf(),
    {
        let set = self.admin.is_some();
        if self.batch_count.is_some() != set || self.pruned_up_to.is_some() != set
            || self.root_buffer.is_some() != set || self.shard_wasm_hash.is_some() != set {
            return false;
        }
        if let Some(cursor) = self.pruned_up_to {
            if cursor == 0 {
                return false;
            }
        }
        if let Some(roots) = &self.root_buffer {
            if roots.len() > ROOT_BUFFER_SIZE as usize {
                return false;
            }
        }
        let count: u64 = match self.batch_count {
            Some(count) => count,
            None => 0,
        };
        if self.min_anchor_interval > MAX_ANCHOR_INTERVAL || count > u64::MAX - SHARD_CAPACITY - 1
            || self.shard_count != (count + SHARD_CAPACITY - 1) / SHARD_CAPACITY {
            return false;
        }
        self.numbers_its_shards()
    }

    /// Whether the shards are numbered from zero without gaps.
    fn numbers_its_shards(&self) -> (r: bool)
        ensures
            r == (forall|i: u64| #[trigger]
                self@.shards.contains_key(i) <==> i < self@.shard_count),
    {
        let mut index: u64 = 0;
        while index < self.shard_count
            invariant
                index <= self.shard_count,
                forall|i: u64| i < index ==> #[trigger] self@.shards.contains_key(i),
            decreases self.shard_count - index,
        {
            if !self.shards.has(index) {
                assert(!self@.shards.contains_key(index));
                return false;
            }
            index = index + 1;
        }
        let mut k: usize = 0;
        while k < self.shards.entries.len()
            invariant
                k <= self.shards.entries.len(),
                forall|j: int|
                    0 <= j < k && self@.shards.contains_key(
                        (#[trigger] self.shards.entries@[j]).0,
                    ) ==> self.shards.entries@[j].0 < self.shard_count,
            decreases self.shards.entries.len() - k,
        {
            let number: u64 = self.shards.entries[k].0;
            if number >= self.shard_count && self.shards.has(number) {
                assert(self@.shards.contains_key(number));
                return false;
            }
            k = k + 1;
        }
        assert forall|i: u64| #[trigger] self@.shards.contains_key(i) implies i
            < self@.shard_count by {
            if i >= self.shard_count {
                primitives::lemma_lookup_absent(self.shards.entries@, i);
            }
        }
        true
    }

    /// A freshly deployed anchor.
    pub fn new() -> (r: Self)
        ensures
            r.wf(),
            !r@.initialized(),
            r@ == (AnchorState {
                admin: None,
                batch_count: None,
                pruned_up_to: None,
                root_buffer: None,
                last_anchor_time: None,
                min_anchor_interval: 0,
                shard_wasm_hash: None,
                shard_count: 0,
                shards: Map::empty(),
            }),
    {
        ReceiptAnchor {
            admin: None,
            batch_count: None,
            pruned_up_to: None,
            root_buffer: None,
            last_anchor_time: None,
            min_anchor_interval: 0,
            shard_wasm_hash: None,
            shard_count: 0,
            shards: Table::new(),
        }
    }

    /// The merchant, if the anchor is initialized and the merchant signed the call.
    pub(crate) fn require_merchant(&self, env: &Env) -> (r: Result<Address, Error>)
        ensures
            match self@.merchant_error(*env) {
                Some(e) => r == Err::<Address, Error>(e),
                None => self.admin is Some && r == Ok::<Address, Error>(self.admin->0),
            },
    {
        match self.admin {
            None => Err(Error::NotInitialized),
            Some(merchant) => if env.is_signed_by(merchant) {
                Ok(merchant)
            } else {
                Err(Error::Unauthorized)
            },
        }
    }
}

} // verus!
