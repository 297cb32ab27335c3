use accensa_contracts::error::Error;
use accensa_contracts::primitives::{Address, BytesN, Ledger};
use accensa_contracts::receipt_anchor::shard_set::ShardSet;
use accensa_contracts::receipt_anchor::types::Env as AnchorEnv;
use accensa_contracts::receipt_anchor::ReceiptAnchor;
use accensa_contracts::refund_vault::oracle::FeedTable;
use accensa_contracts::refund_vault::types::{Effect, Env, RefundRecord};
use accensa_contracts::refund_vault::RefundVault;
use sha2::{Digest, Sha256};

const WINDOW: u32 = 100;

/// Both contracts of one merchant on the same ledger.
struct TestEnv {
    anchor: ReceiptAnchor,
    shards: ShardSet,
    vault: RefundVault,
    sequence: u32,
    float: i128,
    merchant: Address,
}

fn b32(fill: u8) -> BytesN<32> {
    BytesN::from_array([fill; 32])
}

fn ledger(contract: Address, sequence: u32) -> Ledger {
    Ledger { contract, sequence, timestamp: 0, max_ttl: 6_312_000 }
}

fn setup() -> TestEnv {
    let mut t = TestEnv {
        anchor: ReceiptAnchor::new(),
        shards: ShardSet::new(),
        vault: RefundVault::new(),
        sequence: 0,
        float: 0,
        merchant: Address::Account(b32(0xA1)),
    };
    let merchant = t.merchant;
    let mut env = t.anchor_env();
    t.anchor.initialize(&mut env, merchant, b32(0x5A)).unwrap();
    t.vault(|v, e| v.initialize(e, merchant, Address::Contract(b32(0xC2)), WINDOW)).unwrap();
    t.sequence = 10;
    t
}

impl TestEnv {
    fn anchor_env(&self) -> AnchorEnv {
        AnchorEnv {
            ledger: ledger(Address::Contract(b32(0xC0)), self.sequence),
            signers: vec![self.merchant],
            effects: Vec::new(),
        }
    }

    fn anchor_batch(&mut self, root: BytesN<32>, count: u32) {
        let mut env = self.anchor_env();
        self.anchor.anchor_batch(&mut env, &mut self.shards, root, count, 0, 100).unwrap();
    }

    fn prune_batches(&mut self, before: u32) {
        let mut env = self.anchor_env();
        self.anchor.prune_batches(&mut env, &mut self.shards, before).unwrap();
    }

    fn verify_receipt(&self, leaf: BytesN<32>, proof: Vec<BytesN<32>>) -> bool {
        self.anchor.verify_receipt(&self.shards, 1, leaf, &proof).unwrap()
    }

    fn vault<R>(
        &mut self,
        f: impl FnOnce(&mut RefundVault, &mut Env) -> Result<R, Error>,
    ) -> Result<R, Error> {
        let mut env = Env {
            ledger: ledger(Address::Contract(b32(0xC1)), self.sequence),
            signers: vec![self.merchant],
            float: self.float,
            effects: Vec::new(),
        };
        let r = f(&mut self.vault, &mut env);
        self.float = env.float;
        let paid_to_itself = env.effects.iter().any(|e| match e {
            Effect::Transfer { from, to, .. } => from == to,
            _ => false,
        });
        assert!(!paid_to_itself);
        r
    }

    fn deposit(&mut self, amount: i128) {
        let merchant = self.merchant;
        self.vault(|v, e| v.deposit(e, merchant, amount)).unwrap();
    }

    fn refund(
        &mut self,
        payment_ref: BytesN<32>,
        amount: i128,
        paid_at_ledger: u32,
        payment_amount: i128,
    ) -> Result<(), Error> {
        let feeds = FeedTable::new();
        let buyer = Address::Account(b32(0xB1));
        self.vault(|v, e| {
            v.refund(e, &feeds, payment_ref, buyer, amount, paid_at_ledger, payment_amount, None)
        })
    }

    fn get_refund(&self, payment_ref: BytesN<32>) -> RefundRecord {
        self.vault.get_refund(payment_ref).unwrap()
    }
}

fn hash_pair(a: &BytesN<32>, b: &BytesN<32>) -> BytesN<32> {
    let (lo, hi) = if a.to_array() <= b.to_array() { (a, b) } else { (b, a) };
    let mut combined = [0u8; 64];
    combined[..32].copy_from_slice(&lo.to_array());
    combined[32..].copy_from_slice(&hi.to_array());
    BytesN::from_array(Sha256::digest(combined).into())
}

#[test]
fn readme_claim_refunds_outlive_pruned_batches() {
    let mut t = setup();
    let payment_ref = b32(7);
    t.anchor_batch(payment_ref, 1);

    t.sequence = 200;
    t.prune_batches(150);
    assert!(t.anchor.get_batch(&t.shards, 1).is_err());

    // The vault is unaffected within the refund window.
    t.deposit(500_000);
    t.refund(payment_ref, 100, 150, 100).unwrap();
    assert_eq!(t.get_refund(payment_ref).amount_refunded, 100);
}

#[test]
fn readme_claim_payment_ref_is_receipt_leaf() {
    let mut t = setup();
    let payment_ref = b32(9);
    let sibling = b32(10);
    t.anchor_batch(hash_pair(&payment_ref, &sibling), 2);
    assert!(t.verify_receipt(payment_ref, vec![sibling]));

    t.deposit(500_000);
    t.refund(payment_ref, 100, 0, 100).unwrap();

    assert!(t.verify_receipt(payment_ref, vec![sibling]));
    assert_eq!(t.get_refund(payment_ref).amount_refunded, 100);
}

#[test]
fn test_happy_path_and_payment_ref_correspondence() {
    let mut t = setup();
    let payment_ref = b32(7);
    let sibling = b32(8);
    t.anchor_batch(hash_pair(&payment_ref, &sibling), 2);
    assert!(t.verify_receipt(payment_ref, vec![sibling]));

    t.deposit(500_000);
    t.refund(payment_ref, 100, 0, 100).unwrap();

    assert!(t.verify_receipt(payment_ref, vec![sibling]));
    assert_eq!(t.get_refund(payment_ref).amount_refunded, 100);
}

#[test]
fn test_refund_of_payment_in_pruned_batch() {
    let mut t = setup();
    let payment_ref = b32(7);
    t.anchor_batch(payment_ref, 1);

    t.sequence = 200;
    t.prune_batches(150);
    assert_eq!(t.anchor.get_batch(&t.shards, 1), Err(Error::BatchNotFound));

    t.deposit(500_000);
    t.refund(payment_ref, 100, 150, 100).unwrap();
    assert_eq!(t.get_refund(payment_ref).amount_refunded, 100);
}

#[test]
#[should_panic(expected = "Error(Contract, #19)")]
fn test_full_refund_then_exceed_payment() {
    let mut t = setup();
    let payment_ref = b32(7);
    t.anchor_batch(payment_ref, 1);
    t.deposit(500_000);

    t.refund(payment_ref, 100, 0, 100).unwrap();
    assert_eq!(t.get_refund(payment_ref).amount_refunded, 100);

    if let Err(e) = t.refund(payment_ref, 100, 0, 100) {
        panic!("Error(Contract, #{})", e.code());
    }
}

#[test]
fn test_pause_interaction() {
    let mut t = setup();
    t.vault(|v, e| v.pause(e)).unwrap();

    let payment_ref = b32(7);
    assert!(t.refund(payment_ref, 100, 0, 100).is_err());

    t.anchor_batch(payment_ref, 1);
    assert!(t.verify_receipt(payment_ref, vec![]));
}

#[test]
fn test_ttl_archival_across_both() {
    let mut t = setup();
    let payment_ref = b32(7);
    t.anchor_batch(payment_ref, 1);
    t.deposit(500_000);
    t.refund(payment_ref, 100, 0, 100).unwrap();

    t.anchor.extend_batch_ttl(&mut t.shards, 1).unwrap();
    t.vault(|v, e| v.extend_refund_ttl(e, payment_ref)).unwrap();

    assert!(t.verify_receipt(payment_ref, vec![]));
    assert_eq!(t.get_refund(payment_ref).amount_refunded, 100);
}
