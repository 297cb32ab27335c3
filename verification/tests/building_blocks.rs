use accensa_contracts::bytes::{append, at_most, read_u128, slice_at, write_be};
use accensa_contracts::error::Error;
use accensa_contracts::primitives::{Address, BytesN, Ledger, Table};
use accensa_contracts::receipt_anchor::anchor::shard_salt;
use accensa_contracts::receipt_anchor::merkle;
use accensa_contracts::receipt_anchor::shard::{
    unwrap_shard_result, ConversionError, InvokeError, ShardInterface,
};
use accensa_contracts::receipt_anchor::shard_set::ShardSet;
use accensa_contracts::receipt_anchor::types::{Env, ROOT_BUFFER_SIZE, SHARD_CAPACITY};
use accensa_contracts::receipt_anchor::ReceiptAnchor;

fn b32(fill: u8) -> BytesN<32> {
    BytesN::from_array([fill; 32])
}

fn bytes32(hex: &str) -> BytesN<32> {
    let mut out = [0u8; 32];
    for i in 0..32 {
        out[i] = u8::from_str_radix(&hex[2 * i..2 * i + 2], 16).unwrap();
    }
    BytesN::from_array(out)
}

#[test]
fn byte_strings_compare_by_content() {
    assert_eq!(b32(1), b32(1));
    assert_ne!(b32(1), b32(2));
    assert_eq!(b32(7).to_array(), [7u8; 32]);
    assert_ne!(Address::Account(b32(1)), Address::Contract(b32(1)));
    assert_eq!(Address::Contract(b32(1)), Address::Contract(b32(1)));
}

#[test]
fn a_table_keeps_the_latest_value_of_each_key() {
    let mut t: Table<u64, u32> = Table::new();
    assert_eq!(t.get(1), None);
    t.set(1, 10);
    t.set(2, 20);
    t.set(1, 11);
    assert_eq!(t.get(1), Some(11));
    assert_eq!(t.get(2), Some(20));
    assert!(t.has(2));
    assert!(!t.has(3));
    let copy = t.duplicate();
    t.set(2, 21);
    assert_eq!(copy.get(2), Some(20));
}

#[test]
fn big_endian_bytes() {
    assert_eq!(write_be([0u8; 4], 0x0102_0304), [1, 2, 3, 4]);
    assert_eq!(write_be([9u8; 2], 5), [0, 5]);
    assert_eq!(read_u128(&write_be([0u8; 16], u128::MAX - 7)), u128::MAX - 7);
    assert_eq!(slice_at([0u8; 2], &[1, 2, 3, 4], 1), [2, 3]);
    let mut v = vec![1u8];
    append(&mut v, &[2, 3]);
    assert_eq!(v, vec![1, 2, 3]);
    assert!(at_most(&[0, 9], &[1, 0]));
    assert!(at_most(&[1, 0], &[1, 0]));
    assert!(!at_most(&[1, 1], &[1, 0]));
}

#[test]
fn salts_are_the_shard_index() {
    let mut expected = [0u8; 32];
    assert_eq!(shard_salt(0).to_array(), expected);
    expected[30] = 1;
    expected[31] = 2;
    assert_eq!(shard_salt(258).to_array(), expected);
    expected[24..].copy_from_slice(&[0xff; 8]);
    assert_eq!(shard_salt(u64::MAX).to_array(), expected);
}

#[test]
fn a_parent_is_the_digest_of_its_children() {
    // The digest of 64 zero bytes, and of that digest twice.
    let one = bytes32("f5a5fd42d16a20302798ef6ed309979b43003d2320d9f0e8ea9831a92759fb4b");
    let two = bytes32("db56114e00fdd4c1f85c892bf35ac9a89289aaecb1ebd0a96cde606a748b5d71");
    assert!(merkle::verify(one, b32(0), &vec![b32(0)]));
    assert!(merkle::verify(two, b32(0), &vec![b32(0), one]));
    assert!(merkle::verify(b32(3), b32(3), &vec![]));
    assert!(!merkle::verify(one, b32(1), &vec![b32(0)]));
    assert_eq!(
        merkle::fold_proof(b32(1).to_array(), &vec![b32(2)]),
        merkle::fold_proof(b32(2).to_array(), &vec![b32(1)])
    );
}

#[test]
fn shard_replies_of_every_shape() {
    assert_eq!(unwrap_shard_result(Ok(Ok(5u32))), Ok(5));
    assert_eq!(
        unwrap_shard_result::<u32>(Ok(Err(ConversionError))),
        Err(Error::ShardCallFailed)
    );
    assert_eq!(
        unwrap_shard_result::<u32>(Err(Ok(Error::ProofTooLong))),
        Err(Error::ProofTooLong)
    );
    assert_eq!(
        unwrap_shard_result::<u32>(Err(Err(InvokeError))),
        Err(Error::ShardCallFailed)
    );
}

#[test]
fn a_shard_prunes_from_its_cursor_on() {
    let mut shards = ShardSet::new();
    let home = shards.deploy(Address::Contract(b32(1)), shard_salt(0), b32(2), 1, 5);
    for id in 1..4u64 {
        shards.anchor_batch(10 * id as u32, home, id, b32(id as u8), 1, 0, 0);
    }
    // Batch 2 is too recent.
    assert_eq!(shards.prune_batches(home, 20, 10, 4), (2, 1));
    assert_eq!(shards.get_batch(home, 1), Err(Ok(Error::BatchNotFound)));
    assert_eq!(shards.get_batch(home, 2).unwrap().unwrap().anchored_ledger, 20);
    // No more than allowed, and not past the bound.
    assert_eq!(shards.prune_batches(home, 100, 1, 4), (3, 1));
    assert_eq!(shards.prune_batches(home, 100, 10, 3), (3, 0));
    assert_eq!(shards.prune_batches(home, 100, 10, 4), (4, 1));
    assert_eq!(shards.extend_batch_ttl(home, 3), Err(Ok(Error::BatchNotFound)));
}

#[test]
fn the_anchor_only_moves_forward() {
    let merchant = Address::Account(b32(1));
    let mut anchor = ReceiptAnchor::new();
    let mut shards = ShardSet::new();
    let mut history: Vec<BytesN<32>> = Vec::new();
    let mut first_shard = None;
    for step in 0..(SHARD_CAPACITY + 3) {
        let mut env = Env {
            ledger: Ledger {
                contract: Address::Contract(b32(9)),
                sequence: step as u32 + 1,
                timestamp: step,
                max_ttl: 6_312_000,
            },
            signers: vec![merchant],
            effects: Vec::new(),
        };
        if step == 0 {
            anchor.initialize(&mut env, merchant, b32(2)).unwrap();
        }
        let root = shard_salt(1_000 + step);
        assert_eq!(
            anchor.anchor_batch(&mut env, &mut shards, root, 1, step, step),
            Ok(step + 1)
        );
        history.push(root);
        // The ring buffer is the tail of the history.
        let kept = history.len().min(ROOT_BUFFER_SIZE as usize);
        if step % 50 == 0 {
            assert_eq!(anchor.get_root_buffer(), history[history.len() - kept..].to_vec());
        }
        assert_eq!(
            anchor.anchor_batch(&mut env, &mut shards, root, 1, step, step),
            Err(Error::DuplicateRoot)
        );
        let home = anchor.get_shard_address(0).unwrap();
        assert_eq!(*first_shard.get_or_insert(home), home);
        assert_eq!(anchor.get_shard_count(), step / SHARD_CAPACITY + 1);
    }
    assert_ne!(anchor.get_shard_address(0), anchor.get_shard_address(1));
    assert_eq!(anchor.get_pruned_up_to(), Ok(1));
}

#[test]
fn errors_keep_their_numbers() {
    assert_eq!(Error::AlreadyInitialized.code(), 1);
    assert_eq!(Error::RefundNotFound.code(), 9);
    assert_eq!(Error::NoPendingTransfer.code(), 12);
    assert_eq!(Error::ExceedsPayment.code(), 19);
    assert_eq!(Error::RefundExpired.code(), 23);
    assert_eq!(Error::BatchNotFound.code(), 100);
    assert_eq!(Error::InvalidProof.code(), 203);
    assert_eq!(Error::TimelockNotExpired.code(), 301);
    assert_eq!(Error::OraclePolicyDenied.code(), 307);
}
