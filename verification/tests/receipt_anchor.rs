use accensa_contracts::error::Error;
use accensa_contracts::primitives::{Address, BytesN, Ledger};
use accensa_contracts::receipt_anchor::anchor::prune_in_range;
use accensa_contracts::receipt_anchor::merkle::{MAX_BATCH_SIZE, MAX_PROOF_LEN};
use accensa_contracts::receipt_anchor::shard_set::ShardSet;
use accensa_contracts::receipt_anchor::types::{
    AnchorEvent, BatchRecord, Effect, Env, PruneEvent, ShardCreatedEvent, MAX_ANCHOR_INTERVAL,
    MAX_PRUNE_BATCHES, ROOT_BUFFER_SIZE, SHARD_CAPACITY,
};
use accensa_contracts::receipt_anchor::zk_verifier::{VerifyingKey, ZkProof};
use accensa_contracts::receipt_anchor::ReceiptAnchor;
use sha2::{Digest, Sha256};

/// An anchor with its shards on a ledger whose calls are all signed by the merchant.
struct Client {
    anchor: ReceiptAnchor,
    shards: ShardSet,
    ledger: Ledger,
    signers: Vec<Address>,
    merchant: Address,
    /// What the latest call asked of the host.
    effects: Vec<Effect>,
}

fn b32(fill: u8) -> BytesN<32> {
    BytesN::from_array([fill; 32])
}

fn setup() -> Client {
    let merchant = Address::Account(b32(0xA1));
    Client {
        anchor: ReceiptAnchor::new(),
        shards: ShardSet::new(),
        ledger: Ledger {
            contract: Address::Contract(b32(0xC0)),
            sequence: 0,
            timestamp: 0,
            max_ttl: 6_312_000,
        },
        signers: vec![merchant],
        merchant,
        effects: Vec::new(),
    }
}

fn setup_initialized() -> Client {
    let mut client = setup();
    client.init();
    client
}

impl Client {
    fn env(&self) -> Env {
        Env { ledger: self.ledger, signers: self.signers.clone(), effects: Vec::new() }
    }

    fn init(&mut self) {
        self.try_initialize().unwrap();
    }

    fn try_initialize(&mut self) -> Result<(), Error> {
        let mut env = self.env();
        let r = self.anchor.initialize(&mut env, self.merchant, b32(0x5A));
        self.effects = env.effects;
        r
    }

    fn try_anchor_batch(
        &mut self,
        root: BytesN<32>,
        count: u32,
        start: u64,
        end: u64,
    ) -> Result<u64, Error> {
        let mut env = self.env();
        let r = self.anchor.anchor_batch(&mut env, &mut self.shards, root, count, start, end);
        self.effects = env.effects;
        r
    }

    fn anchor_batch(&mut self, root: BytesN<32>, count: u32, start: u64, end: u64) -> u64 {
        self.try_anchor_batch(root, count, start, end).unwrap()
    }

    fn try_anchor_batch_zk(
        &mut self,
        root: BytesN<32>,
        proof: &ZkProof,
        count: u32,
        start: u64,
        end: u64,
    ) -> Result<u64, Error> {
        let mut env = self.env();
        let r = self.anchor.anchor_batch_zk(
            &mut env,
            &mut self.shards,
            root,
            proof,
            count,
            start,
            end,
        );
        self.effects = env.effects;
        r
    }

    fn try_get_batch(&self, id: u64) -> Result<BatchRecord, Error> {
        self.anchor.get_batch(&self.shards, id)
    }

    fn get_batch(&self, id: u64) -> BatchRecord {
        self.try_get_batch(id).unwrap()
    }

    fn try_verify_receipt(
        &self,
        id: u64,
        leaf: BytesN<32>,
        proof: Vec<BytesN<32>>,
    ) -> Result<bool, Error> {
        self.anchor.verify_receipt(&self.shards, id, leaf, &proof)
    }

    fn verify_receipt(&self, id: u64, leaf: BytesN<32>, proof: Vec<BytesN<32>>) -> bool {
        self.try_verify_receipt(id, leaf, proof).unwrap()
    }

    fn try_verify_by_root(
        &self,
        root: BytesN<32>,
        leaf: BytesN<32>,
        proof: Vec<BytesN<32>>,
    ) -> Result<bool, Error> {
        self.anchor.verify_receipt_by_root(root, leaf, &proof)
    }

    fn verify_by_root(&self, root: BytesN<32>, leaf: BytesN<32>, proof: Vec<BytesN<32>>) -> bool {
        self.try_verify_by_root(root, leaf, proof).unwrap()
    }

    fn try_prune_batches(&mut self, before: u32) -> Result<(), Error> {
        let mut env = self.env();
        let r = self.anchor.prune_batches(&mut env, &mut self.shards, before);
        self.effects = env.effects;
        r
    }

    fn prune_batches(&mut self, before: u32) {
        self.try_prune_batches(before).unwrap();
    }

    fn try_extend_batch_ttl(&mut self, id: u64) -> Result<(), Error> {
        self.anchor.extend_batch_ttl(&mut self.shards, id)
    }

    fn try_set_interval(&mut self, interval: u32) -> Result<(), Error> {
        let env = self.env();
        self.anchor.set_min_anchor_interval(&env, interval)
    }

    fn set_interval(&mut self, interval: u32) {
        self.try_set_interval(interval).unwrap();
    }

    fn at(&mut self, sequence: u32, timestamp: u64) {
        self.ledger.sequence = sequence;
        self.ledger.timestamp = timestamp;
    }

    /// The events that the latest call published.
    fn events(&self) -> Vec<Effect> {
        self.effects
            .iter()
            .filter(|e| !matches!(e, Effect::ExtendInstanceTtl { .. }))
            .copied()
            .collect()
    }
}

fn hash_pair(a: &BytesN<32>, b: &BytesN<32>) -> BytesN<32> {
    let (lo, hi) = if a.to_array() <= b.to_array() { (a, b) } else { (b, a) };
    let mut combined = [0u8; 64];
    combined[..32].copy_from_slice(&lo.to_array());
    combined[32..].copy_from_slice(&hi.to_array());
    BytesN::from_array(Sha256::digest(combined).into())
}

fn numbered_root(n: u32) -> BytesN<32> {
    let mut b = [0u8; 32];
    b[..4].copy_from_slice(&n.to_be_bytes());
    BytesN::from_array(b)
}

#[test]
fn test_initialize() {
    let mut client = setup();
    client.init();
    assert_eq!(client.anchor.get_admin(), Ok(client.merchant));
    assert_eq!(client.anchor.get_batch_count(), Ok(0));
    assert_eq!(client.anchor.get_pruned_up_to(), Ok(1));
}

#[test]
fn test_double_initialize_fails() {
    let mut client = setup();
    client.init();
    assert_eq!(client.try_initialize(), Err(Error::AlreadyInitialized));
}

#[test]
fn test_anchor_batch_before_initialize_fails() {
    let mut client = setup();
    assert_eq!(client.try_anchor_batch(b32(1), 10, 0, 100), Err(Error::NotInitialized));
}

#[test]
fn test_anchor_batch_assigns_sequential_ids() {
    let mut client = setup_initialized();
    assert_eq!(client.anchor_batch(b32(1), 5, 0, 50), 1);
    assert_eq!(client.anchor_batch(b32(2), 7, 51, 99), 2);
}

#[test]
fn test_duplicate_root_anchoring_fails() {
    let mut client = setup_initialized();
    assert_eq!(client.anchor_batch(b32(1), 5, 0, 50), 1);
    assert_eq!(client.try_anchor_batch(b32(1), 5, 51, 100), Err(Error::DuplicateRoot));
}

#[test]
fn test_distinct_root_anchoring_succeeds() {
    let mut client = setup_initialized();
    assert_eq!(client.anchor_batch(b32(1), 5, 0, 50), 1);
    assert_eq!(client.anchor_batch(b32(2), 5, 51, 100), 2);
}

#[test]
fn test_get_batch_returns_stored_record() {
    let mut client = setup_initialized();
    let root = b32(9);
    let batch_id = client.anchor_batch(root, 42, 1000, 2000);

    let record = client.get_batch(batch_id);
    assert_eq!(record.root, root);
    assert_eq!(record.count, 42);
    assert_eq!(record.period_start, 1000);
    assert_eq!(record.period_end, 2000);
}

#[test]
fn test_get_batch_missing_fails() {
    let client = setup_initialized();
    assert_eq!(client.try_get_batch(99), Err(Error::BatchNotFound));
}

#[test]
fn test_get_batch_zero_fails() {
    let client = setup_initialized();
    assert_eq!(client.try_get_batch(0), Err(Error::BatchNotFound));
}

#[test]
#[should_panic]
fn test_anchor_batch_requires_merchant_auth() {
    let mut client = setup_initialized();
    client.signers.clear();
    client.anchor_batch(b32(1), 1, 0, 1);
}

#[test]
fn test_verify_receipt_single_leaf_tree() {
    let mut client = setup_initialized();
    let leaf = b32(7);
    let batch_id = client.anchor_batch(leaf, 1, 0, 10);
    assert!(client.verify_receipt(batch_id, leaf, vec![]));
}

#[test]
fn test_verify_receipt_four_leaf_tree() {
    let mut client = setup_initialized();
    let (l1, l2, l3, l4) = (b32(1), b32(2), b32(3), b32(4));
    let n12 = hash_pair(&l1, &l2);
    let n34 = hash_pair(&l3, &l4);
    let root = hash_pair(&n12, &n34);
    let batch_id = client.anchor_batch(root, 4, 0, 100);

    assert!(client.verify_receipt(batch_id, l1, vec![l2, n34]));
    assert!(client.verify_receipt(batch_id, l2, vec![l1, n34]));
    assert!(client.verify_receipt(batch_id, l3, vec![l4, n12]));
    assert!(client.verify_receipt(batch_id, l4, vec![l3, n12]));
}

#[test]
fn test_verify_receipt_rejects_wrong_leaf_and_proof() {
    let mut client = setup_initialized();
    let (l1, l2) = (b32(1), b32(2));
    let root = hash_pair(&l1, &l2);
    let batch_id = client.anchor_batch(root, 2, 0, 100);

    assert!(!client.verify_receipt(batch_id, b32(99), vec![l2]));
    assert!(!client.verify_receipt(batch_id, l1, vec![b32(88)]));
}

#[test]
fn test_verify_receipt_missing_batch_fails() {
    let client = setup_initialized();
    assert_eq!(client.try_verify_receipt(5, b32(1), vec![]), Err(Error::BatchNotFound));
}

#[test]
fn test_get_batch_count_tracks_anchors() {
    let mut client = setup_initialized();
    assert_eq!(client.anchor.get_batch_count(), Ok(0));
    client.anchor_batch(b32(1), 5, 0, 50);
    assert_eq!(client.anchor.get_batch_count(), Ok(1));
    client.anchor_batch(b32(2), 7, 51, 99);
    assert_eq!(client.anchor.get_batch_count(), Ok(2));
}

#[test]
fn test_get_batch_count_before_initialize_fails() {
    let client = setup();
    assert_eq!(client.anchor.get_batch_count(), Err(Error::NotInitialized));
}

#[test]
fn test_get_max_batch_size() {
    assert_eq!(ReceiptAnchor::get_max_batch_size(), MAX_BATCH_SIZE);
    assert_eq!(ReceiptAnchor::get_max_batch_size(), 1000);
}

#[test]
fn test_anchor_batch_at_max_size_succeeds() {
    let mut client = setup_initialized();
    let batch_id = client.anchor_batch(b32(1), MAX_BATCH_SIZE, 0, 50);
    assert_eq!(batch_id, 1);
    assert_eq!(client.get_batch(batch_id).count, MAX_BATCH_SIZE);
}

#[test]
fn test_anchor_batch_enforces_max_size() {
    let mut client = setup_initialized();
    assert_eq!(
        client.try_anchor_batch(b32(1), MAX_BATCH_SIZE + 1, 0, 50),
        Err(Error::BatchTooLarge)
    );
}

#[test]
fn test_extend_batch_ttl_fails_if_missing() {
    let mut client = setup_initialized();
    assert_eq!(client.try_extend_batch_ttl(99), Err(Error::BatchNotFound));
}

#[test]
fn test_extend_batch_ttl_succeeds() {
    let mut client = setup_initialized();
    let batch_id = client.anchor_batch(b32(1), 5, 0, 50);
    assert_eq!(client.try_extend_batch_ttl(batch_id), Ok(()));
}

#[test]
fn test_get_shard_capacity() {
    assert_eq!(ReceiptAnchor::get_shard_capacity(), SHARD_CAPACITY);
}

#[test]
fn test_first_anchor_creates_one_shard() {
    let mut client = setup_initialized();
    assert_eq!(client.anchor.get_shard_count(), 0);
    client.anchor_batch(b32(1), 1, 0, 10);
    assert_eq!(client.anchor.get_shard_count(), 1);
    client.anchor.get_shard_address(0).unwrap();
}

#[test]
fn test_get_shard_address_missing_fails() {
    let client = setup_initialized();
    assert_eq!(client.anchor.get_shard_address(0), Err(Error::BatchNotFound));
}

#[test]
fn test_anchor_batch_crosses_shard_boundary() {
    let mut client = setup_initialized();
    for i in 0..SHARD_CAPACITY {
        client.anchor_batch(numbered_root(i as u32 + 1), 1, 0, 1);
    }
    assert_eq!(client.anchor.get_batch_count(), Ok(SHARD_CAPACITY));
    assert_eq!(client.anchor.get_shard_count(), 1);

    let overflow_id = client.anchor_batch(numbered_root((SHARD_CAPACITY + 1) as u32), 1, 0, 1);
    assert_eq!(overflow_id, SHARD_CAPACITY + 1);
    assert_eq!(client.anchor.get_shard_count(), 2);

    assert_eq!(client.get_batch(SHARD_CAPACITY).period_end, 1);
    assert_eq!(client.get_batch(overflow_id).period_end, 1);

    let shard0 = client.anchor.get_shard_address(0).unwrap();
    let shard1 = client.anchor.get_shard_address(1).unwrap();
    assert_ne!(shard0, shard1);
}

#[test]
fn test_shard_created_event_emitted_once_per_shard() {
    let mut client = setup_initialized();
    client.anchor_batch(b32(1), 1, 0, 1);
    assert_eq!(client.events().len(), 2, "expected ShardCreatedEvent + AnchorEvent");
    client.anchor_batch(b32(2), 1, 0, 1);
    assert_eq!(client.events().len(), 1);
}

#[test]
fn test_prune_batches_deletes_old_records() {
    let mut client = setup_initialized();
    client.ledger.sequence = 100;
    let b1 = client.anchor_batch(b32(1), 10, 0, 10);
    client.ledger.sequence = 200;
    let b2 = client.anchor_batch(b32(2), 10, 11, 20);
    client.ledger.sequence = 300;
    let b3 = client.anchor_batch(b32(3), 10, 21, 30);

    client.prune_batches(200);
    assert_eq!(client.try_get_batch(b1), Err(Error::BatchNotFound));
    assert!(client.get_batch(b2).period_end == 20);
    assert!(client.get_batch(b3).period_end == 30);

    client.prune_batches(400);
    assert_eq!(client.try_get_batch(b2), Err(Error::BatchNotFound));
    assert_eq!(client.try_get_batch(b3), Err(Error::BatchNotFound));
}

#[test]
fn test_prune_batches_crosses_shard_boundary() {
    let mut client = setup_initialized();
    client.ledger.sequence = 100;
    for i in 0..(SHARD_CAPACITY + 5) {
        client.anchor_batch(numbered_root(i as u32 + 1), 1, 0, 1);
    }
    assert_eq!(client.anchor.get_shard_count(), 2);

    client.ledger.sequence = 1_000_000;
    for _ in 0..(SHARD_CAPACITY / MAX_PRUNE_BATCHES) {
        client.prune_batches(1_000_000);
    }
    assert_eq!(client.try_get_batch(SHARD_CAPACITY), Err(Error::BatchNotFound));
    assert!(client.get_batch(SHARD_CAPACITY + 1).period_end == 1);

    client.prune_batches(1_000_000);
    for offset in 1..=5u64 {
        assert_eq!(client.try_get_batch(SHARD_CAPACITY + offset), Err(Error::BatchNotFound));
    }
}

#[test]
#[should_panic]
fn test_prune_batches_requires_admin_auth() {
    let mut client = setup_initialized();
    client.signers.clear();
    client.prune_batches(100);
}

#[test]
fn test_anchor_and_prune_events_emitted() {
    let mut client = setup_initialized();
    client.ledger.sequence = 100;
    client.anchor_batch(b32(1), 10, 0, 10);
    let batch = client.get_batch(1);
    let shard0 = client.anchor.get_shard_address(0).unwrap();
    assert_eq!(
        client.events(),
        vec![
            Effect::PublishShardCreated(ShardCreatedEvent {
                shard_index: 0,
                shard_address: shard0,
                start_batch_id: 1,
                end_batch_id: SHARD_CAPACITY + 1,
            }),
            Effect::PublishAnchor(AnchorEvent {
                batch_id: 1,
                root: batch.root,
                count: batch.count,
                period_start: batch.period_start,
                period_end: batch.period_end,
                anchored_ledger: batch.anchored_ledger,
            }),
        ]
    );
    assert_eq!(batch.anchored_ledger, 100);

    client.ledger.sequence = 200;
    client.prune_batches(150);
    assert_eq!(
        client.events(),
        vec![Effect::PublishPrune(PruneEvent { start_batch_id: 1, end_batch_id: 2 })]
    );
}

#[test]
fn test_root_buffer_starts_empty() {
    let client = setup_initialized();
    assert_eq!(client.anchor.get_root_buffer().len(), 0);
}

#[test]
fn test_root_buffer_grows_with_anchors() {
    let mut client = setup_initialized();
    client.anchor_batch(b32(1), 1, 0, 10);
    client.anchor_batch(b32(2), 1, 11, 20);
    assert_eq!(client.anchor.get_root_buffer(), vec![b32(1), b32(2)]);
}

#[test]
fn test_verify_receipt_by_root_succeeds() {
    let mut client = setup_initialized();
    let leaf = b32(7);
    client.anchor_batch(leaf, 1, 0, 10);
    assert!(client.verify_by_root(leaf, leaf, vec![]));
}

#[test]
fn test_verify_receipt_by_root_with_merkle_proof() {
    let mut client = setup_initialized();
    let (l1, l2) = (b32(1), b32(2));
    let n12 = hash_pair(&l1, &l2);
    client.anchor_batch(n12, 2, 0, 100);
    assert!(client.verify_by_root(n12, l1, vec![l2]));
    assert!(client.verify_by_root(n12, l2, vec![l1]));
}

#[test]
fn test_verify_receipt_by_root_rejects_unknown_root() {
    let mut client = setup_initialized();
    client.anchor_batch(b32(1), 1, 0, 10);
    assert_eq!(client.try_verify_by_root(b32(99), b32(1), vec![]), Err(Error::RootNotFound));
}

#[test]
fn test_verify_receipt_by_root_rejects_wrong_proof() {
    let mut client = setup_initialized();
    let (l1, l2) = (b32(1), b32(2));
    let root = hash_pair(&l1, &l2);
    client.anchor_batch(root, 2, 0, 100);
    assert!(!client.verify_by_root(root, b32(99), vec![l2]));
}

#[test]
fn test_verify_receipt_by_root_rejects_swapped_proof() {
    let mut client = setup_initialized();
    let (l1, l2) = (b32(1), b32(2));
    let root = hash_pair(&l1, &l2);
    client.anchor_batch(root, 2, 0, 100);
    assert!(!client.verify_by_root(root, l1, vec![b32(88)]));
}

#[test]
fn test_root_buffer_evicts_oldest_when_full() {
    let mut client = setup_initialized();
    for i in 0..ROOT_BUFFER_SIZE {
        client.anchor_batch(b32(i as u8), 1, 0, 1);
    }
    let buffer = client.anchor.get_root_buffer();
    assert_eq!(buffer.len(), ROOT_BUFFER_SIZE as usize);
    assert_eq!(buffer[0], b32(0));

    client.anchor_batch(b32(255), 1, 0, 1);
    let buffer = client.anchor.get_root_buffer();
    assert_eq!(buffer.len(), ROOT_BUFFER_SIZE as usize);
    assert_eq!(buffer[0], b32(1));
    assert_eq!(buffer[ROOT_BUFFER_SIZE as usize - 1], b32(255));
}

#[test]
fn test_verify_receipt_by_root_works_for_eviction_boundary() {
    let mut client = setup_initialized();
    for i in 0..=ROOT_BUFFER_SIZE {
        client.anchor_batch(b32(i as u8), 1, 0, 1);
    }
    assert_eq!(client.try_verify_by_root(b32(0), b32(0), vec![]), Err(Error::RootNotFound));
    assert!(client.verify_by_root(b32(1), b32(1), vec![]));
    let last = b32(ROOT_BUFFER_SIZE as u8);
    assert!(client.verify_by_root(last, last, vec![]));
}

#[test]
fn test_get_root_buffer_size() {
    assert_eq!(ReceiptAnchor::get_root_buffer_size(), ROOT_BUFFER_SIZE);
    assert_eq!(ReceiptAnchor::get_root_buffer_size(), 100);
}

#[test]
fn test_verify_receipt_by_root_before_init_fails() {
    let client = setup();
    assert_eq!(client.try_verify_by_root(b32(1), b32(1), vec![]), Err(Error::NotInitialized));
}

#[test]
fn test_existing_verify_receipt_still_works_with_buffer() {
    let mut client = setup_initialized();
    let (l1, l2) = (b32(1), b32(2));
    let root = hash_pair(&l1, &l2);
    let batch_id = client.anchor_batch(root, 2, 0, 100);
    assert!(client.verify_receipt(batch_id, l1, vec![l2]));
    assert!(client.verify_receipt(batch_id, l2, vec![l1]));
}

/// A chain of `depth` siblings above a leaf, and the root it leads to.
fn build_chain_proof(leaf: &BytesN<32>, depth: u32) -> (BytesN<32>, Vec<BytesN<32>>) {
    let mut proof = Vec::new();
    let mut acc = *leaf;
    for i in 0..depth {
        let mut sibling_bytes = [0u8; 32];
        sibling_bytes[0] = (i + 1) as u8;
        let sibling = BytesN::from_array(sibling_bytes);
        acc = hash_pair(&acc, &sibling);
        proof.push(sibling);
    }
    (acc, proof)
}

#[test]
fn test_verify_receipt_empty_proof_succeeds() {
    let mut client = setup_initialized();
    let leaf = b32(42);
    let batch_id = client.anchor_batch(leaf, 1, 0, 10);
    assert!(client.verify_receipt(batch_id, leaf, vec![]));
}

#[test]
fn test_verify_receipt_at_bound_succeeds() {
    let mut client = setup_initialized();
    let leaf = b32(7);
    let (root, proof) = build_chain_proof(&leaf, MAX_PROOF_LEN);
    assert_eq!(proof.len(), MAX_PROOF_LEN as usize);
    let batch_id = client.anchor_batch(root, 1000, 0, 1000);
    assert!(client.verify_receipt(batch_id, leaf, proof));
}

#[test]
fn test_verify_receipt_one_over_bound_fails() {
    let mut client = setup_initialized();
    let leaf = b32(7);
    let (root, proof) = build_chain_proof(&leaf, MAX_PROOF_LEN + 1);
    assert_eq!(proof.len(), MAX_PROOF_LEN as usize + 1);
    let batch_id = client.anchor_batch(root, 1000, 0, 1000);
    assert_eq!(client.try_verify_receipt(batch_id, leaf, proof), Err(Error::ProofTooLong));
}

#[test]
fn test_verify_receipt_by_root_at_bound_succeeds() {
    let mut client = setup_initialized();
    let leaf = b32(7);
    let (root, proof) = build_chain_proof(&leaf, MAX_PROOF_LEN);
    client.anchor_batch(root, 1000, 0, 1000);
    assert!(client.verify_by_root(root, leaf, proof));
}

#[test]
fn test_verify_receipt_by_root_one_over_bound_fails() {
    let mut client = setup_initialized();
    let leaf = b32(7);
    let (root, proof) = build_chain_proof(&leaf, MAX_PROOF_LEN + 1);
    client.anchor_batch(root, 1000, 0, 1000);
    assert_eq!(client.try_verify_by_root(root, leaf, proof), Err(Error::ProofTooLong));
}

#[test]
fn test_verify_receipt_valid_deep_proof() {
    let mut client = setup_initialized();
    let leaf = b32(5);
    let (root, proof) = build_chain_proof(&leaf, 5);
    assert_eq!(proof.len(), 5);
    let batch_id = client.anchor_batch(root, 32, 0, 32);
    assert!(client.verify_receipt(batch_id, leaf, proof.clone()));
    assert!(client.verify_by_root(root, leaf, proof));
}

#[test]
fn test_get_max_proof_len() {
    assert_eq!(ReceiptAnchor::get_max_proof_len(), MAX_PROOF_LEN);
    assert_eq!(ReceiptAnchor::get_max_proof_len(), 10);
}

#[test]
fn test_first_anchor_always_succeeds() {
    let mut client = setup_initialized();
    client.set_interval(60);
    client.at(10, 1000);
    assert_eq!(client.anchor_batch(b32(1), 1, 0, 10), 1);
}

#[test]
fn test_anchor_rejected_within_interval() {
    let mut client = setup_initialized();
    client.set_interval(60);
    client.at(10, 1000);
    client.anchor_batch(b32(1), 1, 0, 10);
    client.at(11, 1000);
    assert_eq!(client.try_anchor_batch(b32(2), 1, 11, 20), Err(Error::AnchorRateLimited));
}

#[test]
fn test_anchor_succeeds_after_interval() {
    let mut client = setup_initialized();
    client.set_interval(60);
    client.at(10, 1000);
    client.anchor_batch(b32(1), 1, 0, 10);
    client.at(20, 1060);
    assert_eq!(client.anchor_batch(b32(2), 1, 11, 20), 2);
}

#[test]
fn test_anchor_rejected_one_second_before_boundary() {
    let mut client = setup_initialized();
    client.set_interval(60);
    client.at(10, 1000);
    client.anchor_batch(b32(1), 1, 0, 10);
    client.at(20, 1059);
    assert_eq!(client.try_anchor_batch(b32(2), 1, 11, 20), Err(Error::AnchorRateLimited));
    client.at(21, 1060);
    assert_eq!(client.anchor_batch(b32(3), 1, 21, 30), 2);
}

#[test]
fn test_interval_zero_disables_rate_limit() {
    let mut client = setup_initialized();
    client.at(10, 1000);
    client.anchor_batch(b32(1), 1, 0, 10);
    client.at(11, 1000);
    assert_eq!(client.anchor_batch(b32(2), 1, 11, 20), 2);
}

#[test]
fn test_changing_interval_takes_effect() {
    let mut client = setup_initialized();
    client.at(10, 1000);
    client.anchor_batch(b32(1), 1, 0, 10);
    client.at(11, 1000);
    client.anchor_batch(b32(2), 1, 11, 20);
    client.set_interval(60);
    client.at(12, 1000);
    assert_eq!(client.try_anchor_batch(b32(3), 1, 21, 30), Err(Error::AnchorRateLimited));
}

#[test]
#[should_panic]
fn test_set_min_anchor_interval_requires_admin_auth() {
    let mut client = setup_initialized();
    client.signers.clear();
    client.set_interval(60);
}

#[test]
fn test_set_min_anchor_interval_requires_init() {
    let mut client = setup();
    assert_eq!(client.try_set_interval(60), Err(Error::NotInitialized));
}

#[test]
fn test_set_min_anchor_interval_enforces_cap() {
    let mut client = setup_initialized();
    client.set_interval(MAX_ANCHOR_INTERVAL);
    assert_eq!(client.anchor.get_min_anchor_interval(), MAX_ANCHOR_INTERVAL);
    assert_eq!(client.try_set_interval(MAX_ANCHOR_INTERVAL + 1), Err(Error::BatchTooLarge));
}

#[test]
fn test_get_min_anchor_interval_default() {
    let client = setup_initialized();
    assert_eq!(client.anchor.get_min_anchor_interval(), 0);
}

#[test]
fn test_rate_limit_with_large_interval() {
    let mut client = setup_initialized();
    client.set_interval(3600);
    client.at(10, 1000);
    client.anchor_batch(b32(1), 1, 0, 10);
    client.at(100, 2800);
    assert_eq!(client.try_anchor_batch(b32(2), 1, 11, 20), Err(Error::AnchorRateLimited));
    client.at(100, 4600);
    assert_eq!(client.anchor_batch(b32(3), 1, 21, 30), 2);
}

#[test]
fn test_rate_limit_resets_after_successful_anchor() {
    let mut client = setup_initialized();
    client.set_interval(60);
    client.at(10, 1000);
    client.anchor_batch(b32(1), 1, 0, 10);
    client.at(20, 1060);
    client.anchor_batch(b32(2), 1, 11, 20);
    client.at(21, 1060);
    assert_eq!(client.try_anchor_batch(b32(3), 1, 21, 30), Err(Error::AnchorRateLimited));
}

fn zk_proof(a: Vec<u8>, b: Vec<u8>, c: Vec<u8>) -> ZkProof {
    ZkProof { a, b, c }
}

#[test]
fn test_anchor_batch_zk_valid_proof_succeeds() {
    let mut client = setup_initialized();
    let state_root = b32(42);
    let proof = zk_proof(vec![1u8; 64], vec![2u8; 128], vec![3u8; 64]);
    let batch_id = client.try_anchor_batch_zk(state_root, &proof, 50, 100, 200).unwrap();
    assert_eq!(batch_id, 1);

    let record = client.get_batch(batch_id);
    assert_eq!(record.root, state_root);
    assert_eq!(record.count, 50);
    assert_eq!(record.period_start, 100);
    assert_eq!(record.period_end, 200);
}

#[test]
fn test_anchor_batch_zk_invalid_proof_rejected() {
    let mut client = setup_initialized();
    let state_root = b32(42);
    let invalid = zk_proof(vec![0u8; 64], vec![0u8; 128], vec![0u8; 64]);
    assert_eq!(
        client.try_anchor_batch_zk(state_root, &invalid, 50, 100, 200),
        Err(Error::InvalidProof)
    );
    let empty = zk_proof(vec![], vec![], vec![]);
    assert_eq!(
        client.try_anchor_batch_zk(state_root, &empty, 50, 100, 200),
        Err(Error::InvalidProof)
    );
}

#[test]
fn test_verify_zk_proof_end_to_end() {
    let proof = zk_proof(vec![1u8; 64], vec![2u8; 128], vec![3u8; 64]);
    let vk = VerifyingKey {
        alpha_g1: vec![4u8; 64],
        beta_g2: vec![5u8; 128],
        gamma_g2: vec![6u8; 128],
        delta_g2: vec![7u8; 128],
        ic: vec![vec![10u8; 64], vec![11u8; 64]],
    };
    assert_eq!(ReceiptAnchor::verify_zk_proof(&proof, &vk, &vec![b32(99)]), Ok(true));
    assert_eq!(ReceiptAnchor::verify_zk_proof(&proof, &vk, &vec![b32(99), b32(100)]), Ok(false));
    let corrupted = zk_proof(vec![0u8; 64], vec![0u8; 128], vec![0u8; 64]);
    assert_eq!(ReceiptAnchor::verify_zk_proof(&corrupted, &vk, &vec![b32(99)]), Ok(false));
}

/// Deterministic 32-byte leaves from a seed (splitmix64).
fn leaves_from_seed(seed: u64, count: usize) -> Vec<BytesN<32>> {
    let mut s = seed.wrapping_add(0x9E3779B97F4A7C15);
    let mut next = move || {
        s = s.wrapping_add(0x9E3779B97F4A7C15);
        let mut z = s;
        z = (z ^ (z >> 30)).wrapping_mul(0xBF58476D1CE4E5B9);
        z = (z ^ (z >> 27)).wrapping_mul(0x94D049BB133111EB);
        z ^ (z >> 31)
    };
    let mut leaves = Vec::with_capacity(count);
    for _ in 0..count {
        let hi = next();
        let lo = next();
        let mut leaf = [0u8; 32];
        leaf[..8].copy_from_slice(&hi.to_le_bytes());
        leaf[8..16].copy_from_slice(&lo.to_le_bytes());
        leaf[16..24].copy_from_slice(&next().to_le_bytes());
        leaf[24..32].copy_from_slice(&next().to_le_bytes());
        leaves.push(BytesN::from_array(leaf));
    }
    leaves
}

/// A balanced Merkle tree, the last leaf repeated up to a power of two: its root and the
/// sibling path of each leaf.
fn build_tree(leaves: &[BytesN<32>]) -> (BytesN<32>, Vec<Vec<BytesN<32>>>) {
    let n = leaves.len();
    let mut width = 1;
    while width < n {
        width *= 2;
    }
    let mut levels: Vec<Vec<BytesN<32>>> = Vec::new();
    let mut cur: Vec<BytesN<32>> = leaves.to_vec();
    while cur.len() < width {
        cur.push(leaves[n - 1]);
    }
    levels.push(cur.clone());
    while cur.len() > 1 {
        let next: Vec<BytesN<32>> = cur.chunks(2).map(|p| hash_pair(&p[0], &p[1])).collect();
        levels.push(next.clone());
        cur = next;
    }
    let root = levels[levels.len() - 1][0];
    let mut proofs = vec![Vec::new(); n];
    for (li, proof) in proofs.iter_mut().enumerate() {
        let mut idx = li;
        for level in &levels[..levels.len() - 1] {
            let sibling_idx = if idx % 2 == 0 { idx + 1 } else { idx - 1 };
            proof.push(level[sibling_idx]);
            idx /= 2;
        }
    }
    (root, proofs)
}

#[test]
fn test_regression_prune_prefix_stays_contiguous_after_full_prune() {
    let mut client = setup_initialized();
    client.ledger.sequence = 100;
    let (root, _) = build_tree(&leaves_from_seed(1, 2));
    let b1 = client.anchor_batch(root, 2, 0, 100);
    client.ledger.sequence = 200;
    let (root2, _) = build_tree(&leaves_from_seed(2, 2));
    let b2 = client.anchor_batch(root2, 2, 0, 100);

    client.prune_batches(300);
    assert_eq!(client.try_get_batch(b1), Err(Error::BatchNotFound));
    assert_eq!(client.try_get_batch(b2), Err(Error::BatchNotFound));
    assert_eq!(client.anchor.get_pruned_up_to(), Ok(3));

    client.ledger.sequence = 400;
    let (root3, _) = build_tree(&leaves_from_seed(3, 2));
    let b3 = client.anchor_batch(root3, 2, 0, 100);
    assert_eq!(b3, 3);
    client.get_batch(b3);
}

#[test]
fn test_regression_verify_wrong_batch_rejected() {
    let mut client = setup_initialized();
    let leaves_a = leaves_from_seed(10, 4);
    let (root_a, proofs_a) = build_tree(&leaves_a);
    let ba = client.anchor_batch(root_a, 4, 0, 100);
    let (root_b, _) = build_tree(&leaves_from_seed(20, 4));
    let bb = client.anchor_batch(root_b, 4, 0, 100);

    assert!(client.verify_receipt(ba, leaves_a[0], proofs_a[0].clone()));
    assert!(!client.verify_receipt(bb, leaves_a[0], proofs_a[0].clone()));
}

#[test]
fn test_regression_mirrored_tree_position_irrelevant() {
    let mut client = setup_initialized();
    let leaves = leaves_from_seed(7, 4);
    let (root, _) = build_tree(&leaves);
    let batch = client.anchor_batch(root, 4, 0, 100);

    let mut mirrored = leaves.clone();
    mirrored.reverse();
    let (mirror_root, mirror_proofs) = build_tree(&mirrored);
    assert_eq!(mirror_root, root, "mirror tree must share the root");
    for (li, leaf) in leaves.iter().enumerate() {
        let mirror_proof = mirror_proofs[leaves.len() - 1 - li].clone();
        assert!(client.verify_receipt(batch, *leaf, mirror_proof));
    }
}

#[test]
fn test_regression_reversed_level_sequence_rejected() {
    let mut client = setup_initialized();
    let leaves = leaves_from_seed(7, 4);
    let (root, proofs) = build_tree(&leaves);
    let batch = client.anchor_batch(root, 4, 0, 100);
    let mut reversed = proofs[0].clone();
    reversed.reverse();
    assert!(!client.verify_receipt(batch, leaves[0], reversed));
}

#[test]
fn full_proofs_are_accepted_of_leaves_alone() {
    let mut client = setup_initialized();
    let leaves = leaves_from_seed(31, 4);
    let (root, proofs) = build_tree(&leaves);
    let batch = client.anchor_batch(root, 4, 0, 100);
    for (leaf, proof) in leaves.iter().zip(&proofs) {
        assert!(client.verify_receipt(batch, *leaf, proof.clone()));
    }
    let strangers = leaves_from_seed(32, 4);
    for stranger in &strangers {
        for proof in &proofs {
            assert!(!client.verify_receipt(batch, *stranger, proof.clone()));
        }
    }
    // A leaf verifies on its own path only.
    assert!(!client.verify_receipt(batch, leaves[0], proofs[1].clone()));
}

#[test]
fn inner_nodes_and_longer_paths_verify_too() {
    let mut client = setup_initialized();
    let leaves = leaves_from_seed(33, 4);
    let (root, proofs) = build_tree(&leaves);
    let batch = client.anchor_batch(root, 4, 0, 100);
    // An inner node is accepted with the rest of the path above it.
    let inner = hash_pair(&leaves[0], &leaves[1]);
    assert!(client.verify_receipt(batch, inner, proofs[0][1..].to_vec()));
    assert!(client.verify_receipt(batch, root, vec![]));

    // So is what lies below a leaf that is itself the digest of a pair.
    let below = hash_pair(&b32(1), &b32(2));
    let root = hash_pair(&below, &b32(3));
    let batch = client.anchor_batch(root, 2, 101, 200);
    assert!(client.verify_receipt(batch, b32(1), vec![b32(2), b32(3)]));
}

#[test]
fn a_proved_anchor_is_an_anchor() {
    let (mut plain, mut proved) = (setup_initialized(), setup_initialized());
    plain.at(7, 70);
    proved.at(7, 70);
    let proof = zk_proof(vec![1u8; 64], vec![2u8; 128], vec![3u8; 64]);
    let id = plain.anchor_batch(b32(5), 3, 10, 20);
    assert_eq!(proved.try_anchor_batch_zk(b32(5), &proof, 3, 10, 20), Ok(id));
    assert_eq!(proved.effects, plain.effects);
    assert_eq!(proved.get_batch(id), plain.get_batch(id));
    assert_eq!(proved.anchor.get_root_buffer(), plain.anchor.get_root_buffer());
    // The same refusals, too.
    assert_eq!(plain.try_anchor_batch(b32(5), 3, 10, 20), Err(Error::DuplicateRoot));
    let again = proved.try_anchor_batch_zk(b32(5), &proof, 3, 10, 20);
    assert_eq!(again, Err(Error::DuplicateRoot));
}

#[test]
fn a_shard_is_created_once() {
    let mut client = setup_initialized();
    client.anchor_batch(b32(1), 1, 0, 1);
    let shard = client.anchor.get_shard_address(0).unwrap();
    assert_eq!(client.events().len(), 2);
    client.anchor_batch(b32(2), 1, 2, 3);
    assert_eq!(client.anchor.get_shard_address(0), Ok(shard));
    assert_eq!(client.events().len(), 1);
}

#[test]
fn pruned_batches_are_a_prefix() {
    let mut client = setup_initialized();
    for (k, sequence) in [10u32, 20, 15, 40].iter().enumerate() {
        client.ledger.sequence = *sequence;
        client.anchor_batch(numbered_root(k as u32), 1, 0, 1);
    }
    client.ledger.sequence = 50;
    // The batch of ledger 20 stops the walk before the older one behind it.
    client.prune_batches(20);
    assert_eq!(client.anchor.get_pruned_up_to(), Ok(2));
    assert_eq!(client.try_get_batch(1), Err(Error::BatchNotFound));
    assert_eq!(client.get_batch(3).anchored_ledger, 15);
    client.prune_batches(30);
    assert_eq!(client.anchor.get_pruned_up_to(), Ok(4));
    for id in 1..4 {
        assert_eq!(client.try_get_batch(id), Err(Error::BatchNotFound));
    }
    assert_eq!(client.get_batch(4).anchored_ledger, 40);
}

#[test]
fn well_formed_anchors_are_told_apart() {
    assert!(ReceiptAnchor::new().is_well_formed());
    let mut client = setup_initialized();
    client.anchor_batch(b32(1), 1, 0, 1);
    assert!(client.anchor.is_well_formed());
    client.anchor.shards.set(1, Address::Contract(b32(9)));
    assert!(!client.anchor.is_well_formed());
    let mut client = setup_initialized();
    client.anchor.shard_count = 1;
    assert!(!client.anchor.is_well_formed());
    let mut client = setup_initialized();
    client.anchor.pruned_up_to = Some(0);
    assert!(!client.anchor.is_well_formed());
    let mut client = setup_initialized();
    client.anchor.batch_count = None;
    assert!(!client.anchor.is_well_formed());
}

#[test]
fn the_range_of_an_anchor_is_tested_beforehand() {
    let mut client = setup_initialized();
    assert!(client.anchor.anchor_in_range());
    client.anchor.last_anchor_time = Some(u64::MAX - 5);
    assert!(client.anchor.anchor_in_range());
    client.set_interval(6);
    assert!(!client.anchor.anchor_in_range());
    client.set_interval(5);
    assert!(client.anchor.anchor_in_range());
    client.anchor.batch_count = Some(u64::MAX - SHARD_CAPACITY - 1);
    assert!(!client.anchor.anchor_in_range());

    assert!(prune_in_range(0, 0, 100));
    assert!(prune_in_range(4, 3, 100));
    assert!(!prune_in_range(0, 3, 100));
    assert!(prune_in_range(0, 100, 100));
    assert!(!prune_in_range(200, 101, 100));
}

#[test]
fn extending_a_missing_batch_changes_nothing() {
    let mut client = setup_initialized();
    client.anchor_batch(b32(1), 1, 0, 1);
    assert_eq!(client.try_extend_batch_ttl(2), Err(Error::BatchNotFound));
    assert_eq!(client.try_extend_batch_ttl(1), Ok(()));
    assert_eq!(client.get_batch(1).root, b32(1));
}
