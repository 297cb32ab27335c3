use accensa_contracts::error::Error;
use accensa_contracts::primitives::{Address, BytesN, Ledger};
use accensa_contracts::refund_vault::claims::{refund_fee, refund_record_ttl_extend_to};
use accensa_contracts::refund_vault::oracle::{median, FeedTable, OraclePolicy};
use accensa_contracts::refund_vault::strategy::{
    MockYieldStrategy, StrategyError, YieldStrategy,
};
use accensa_contracts::refund_vault::token::MockSep41Token;
use accensa_contracts::refund_vault::types::{
    AdminTransferAcceptedEvent, AdminTransferInitiatedEvent, BatchRefundEvent, DataKey,
    DepositEvent, Effect, Env, Event, FeeConfigUpdatedEvent, FeeField, OraclePolicyClearedEvent,
    OraclePolicySetEvent, PauseEvent, PolicyExecutedEvent, PolicyProposedEvent, RefundClaim,
    RefundEvent, RefundParam, RefundRecord, RefundWindowUpdatedEvent, UnpauseEvent, VdfProof,
    WithdrawEvent, YieldDeployedEvent, YieldHarvestedEvent, YieldInfo, YieldWithdrawnEvent,
    MAX_REFUND_BATCH_SIZE, POLICY_TIMELOCK, TTL_EXTEND, TTL_THRESHOLD,
};
use accensa_contracts::refund_vault::vdf;
use accensa_contracts::refund_vault::RefundVault;
use crypto_bigint::modular::runtime_mod::{DynResidue, DynResidueParams};
use crypto_bigint::{Encoding, NonZero, U1024};
use sha2::{Digest, Sha256};

const FLOAT: i128 = 10_000_000;

/// Why a call did not go through.
#[derive(Clone, Copy, Debug, PartialEq, Eq)]
enum Failure {
    /// The contract refused it.
    Contract(Error),
    /// The token refused a transfer.
    Host,
}

/// A vault with its token, feeds and strategy on a ledger whose calls are all signed by
/// the merchant. Transfers that a call asks for are carried out on the token.
struct Client {
    vault: RefundVault,
    address: Address,
    token: MockSep41Token,
    token_id: Address,
    merchant: Address,
    feeds: FeedTable,
    strategy: MockYieldStrategy,
    ledger: Ledger,
    signers: Vec<Address>,
    /// The effects of the latest call, in order.
    effects: Vec<Effect>,
    /// Time to live of the persistent entries that were ever extended.
    ttls: Vec<(DataKey, u32)>,
    next_address: u8,
}

fn b32(fill: u8) -> BytesN<32> {
    BytesN::from_array([fill; 32])
}

fn account(n: u8) -> Address {
    Address::Account(b32(n))
}

fn contract(n: u8) -> Address {
    Address::Contract(b32(n))
}

/// A vault that has not been initialized; `minted` tokens are the merchant's.
fn fresh(minted: i128) -> Client {
    let merchant = account(0xA1);
    let address = contract(0xC1);
    let token_id = contract(0xC2);
    let mut token = MockSep41Token::new();
    token.initialize(account(0xA2), 7);
    token.mint(merchant, minted);
    Client {
        vault: RefundVault::new(),
        address,
        token,
        token_id,
        merchant,
        feeds: FeedTable::new(),
        strategy: MockYieldStrategy::new(contract(0xC3)),
        ledger: Ledger { contract: address, sequence: 0, timestamp: 0, max_ttl: 6_312_000 },
        signers: vec![merchant],
        effects: Vec::new(),
        ttls: Vec::new(),
        next_address: 1,
    }
}

/// An initialized vault.
fn setup(minted: i128, window: u32) -> Client {
    let mut c = fresh(minted);
    c.initialize(window).unwrap();
    c
}

/// An initialized vault with a funded strategy.
fn setup_with_strategy(reserve_bp: u32, max_deploy_bp: u32) -> Client {
    let mut c = setup(FLOAT, 17_280);
    c.strategy.initialize(c.token_id, c.address);
    c.token.mint(c.strategy.contract, FLOAT);
    let strategy = c.strategy.contract;
    c.set_yield_strategy(strategy).unwrap();
    c.set_reserve_ratio(reserve_bp).unwrap();
    c.set_max_deploy_ratio(max_deploy_bp).unwrap();
    c
}

/// An initialized vault on a token with the given decimals.
fn setup_with_token(decimals: u32, minted: i128) -> Client {
    let mut c = fresh(minted);
    c.token.initialize(account(0xA2), decimals);
    c.initialize(100).unwrap();
    c
}

impl Client {
    fn generate(&mut self) -> Address {
        self.next_address += 1;
        account(self.next_address)
    }

    fn balance(&self, id: Address) -> i128 {
        self.token.balance(id)
    }

    fn float(&self) -> i128 {
        self.token.balance(self.address)
    }

    fn env(&self) -> Env {
        Env {
            ledger: self.ledger,
            signers: self.signers.clone(),
            float: self.float(),
            effects: Vec::new(),
        }
    }

    /// Makes a call and carries out what it asks of the host.
    fn call<R>(
        &mut self,
        f: impl FnOnce(
            &mut RefundVault,
            &mut Env,
            &FeedTable,
            &mut MockYieldStrategy,
        ) -> Result<R, Error>,
    ) -> Result<R, Failure> {
        let mut env = self.env();
        self.strategy.float = self.balance(self.strategy.contract);
        let r = f(&mut self.vault, &mut env, &self.feeds, &mut self.strategy);
        assert_eq!(env.ledger, self.ledger);
        let mut effects: Vec<Effect> = self.strategy.effects.drain(..).collect();
        let paid_in: i128 = self.float() + if effects.is_empty() { 0 } else { sum(&effects) };
        if r.is_err() {
            assert!(env.effects.is_empty());
            assert_eq!(env.float, self.float());
        }
        let expected_float = env.float + (paid_in - self.float());
        effects.append(&mut env.effects);
        for effect in &effects {
            if let Effect::Transfer { token, from, to: _, amount } = effect {
                assert_eq!(*token, self.token_id);
                if self.balance(*from) < *amount {
                    return Err(Failure::Host);
                }
            }
            self.perform(effect);
        }
        assert_eq!(self.float(), expected_float);
        self.effects = effects;
        r.map_err(Failure::Contract)
    }

    fn perform(&mut self, effect: &Effect) {
        match effect {
            Effect::Transfer { token: _, from, to, amount } => {
                self.token.transfer(*from, *to, *amount);
            }
            Effect::StrategyDeposit { strategy, amount } => {
                assert_eq!(*strategy, self.strategy.contract);
                self.strategy.deposit(*amount).unwrap();
            }
            Effect::ExtendTtl { key, threshold, extend_to } => {
                let left = self.ttl(*key);
                if left < *threshold {
                    self.ttls.retain(|(k, _)| k != key);
                    self.ttls.push((*key, *extend_to));
                }
            }
            _ => {}
        }
    }

    fn ttl(&self, key: DataKey) -> u32 {
        self.ttls.iter().find(|(k, _)| *k == key).map(|(_, t)| *t).unwrap_or(0)
    }

    /// The events of the latest call.
    fn events(&self) -> Vec<&Event> {
        self.effects
            .iter()
            .filter_map(|e| match e {
                Effect::Publish(event) => Some(event),
                _ => None,
            })
            .collect()
    }

    fn initialize(&mut self, window: u32) -> Result<(), Failure> {
        let (merchant, token) = (self.merchant, self.token_id);
        self.call(|v, e, _, _| v.initialize(e, merchant, token, window))
    }

    fn deposit(&mut self, from: Address, amount: i128) -> Result<(), Failure> {
        self.call(|v, e, _, _| v.deposit(e, from, amount))
    }

    fn fund(&mut self, amount: i128) {
        let merchant = self.merchant;
        self.deposit(merchant, amount).unwrap();
    }

    fn withdraw(&mut self, amount: i128, to: Address) -> Result<(), Failure> {
        self.call(|v, e, _, _| v.withdraw(e, amount, to))
    }

    fn refund(
        &mut self,
        payment_ref: BytesN<32>,
        recipient: Address,
        amount: i128,
        paid_at_ledger: u32,
        payment_amount: i128,
        vdf_proof: Option<BytesN<256>>,
    ) -> Result<(), Failure> {
        self.call(|v, e, feeds, _| {
            v.refund(
                e,
                feeds,
                payment_ref,
                recipient,
                amount,
                paid_at_ledger,
                payment_amount,
                vdf_proof,
            )
        })
    }

    fn claim_batch(&mut self, claims: Vec<RefundClaim>) -> Result<(), Failure> {
        self.call(|v, e, feeds, _| v.claim_batch(e, feeds, &claims))
    }

    fn process_batch(&mut self, items: &Vec<RefundParam>) -> Result<Vec<bool>, Failure> {
        self.call(|v, e, feeds, _| v.process_batch(e, feeds, items))
    }

    fn get_refund(&self, payment_ref: BytesN<32>) -> Option<RefundRecord> {
        self.vault.get_refund(payment_ref)
    }

    fn pause(&mut self) -> Result<(), Failure> {
        self.call(|v, e, _, _| v.pause(e))
    }

    fn unpause(&mut self) -> Result<(), Failure> {
        self.call(|v, e, _, _| v.unpause(e))
    }

    fn propose_policy(
        &mut self,
        window: u32,
        deadline: u64,
        vdf_delay: u32,
    ) -> Result<(), Failure> {
        self.call(|v, e, _, _| v.propose_policy(e, window, deadline, vdf_delay))
    }

    fn execute_policy(&mut self) -> Result<(), Failure> {
        self.call(|v, e, _, _| v.execute_policy(e))
    }

    /// Proposes a policy, waits for its timelock and executes it.
    fn apply_policy(&mut self, window: u32, deadline: u64, vdf_delay: u32) {
        self.propose_policy(window, deadline, vdf_delay).unwrap();
        self.ledger.sequence += 17_280;
        self.execute_policy().unwrap();
    }

    fn apply_vdf_policy(&mut self, vdf_delay: u32) {
        self.fund(500_000);
        self.apply_policy(0, 0, vdf_delay);
    }

    fn set_yield_strategy(&mut self, strategy: Address) -> Result<(), Failure> {
        self.call(|v, e, _, _| v.set_yield_strategy(e, strategy))
    }

    fn set_reserve_ratio(&mut self, bps: u32) -> Result<(), Failure> {
        self.call(|v, e, _, _| v.set_reserve_ratio(e, bps))
    }

    fn set_max_deploy_ratio(&mut self, bps: u32) -> Result<(), Failure> {
        self.call(|v, e, _, _| v.set_max_deploy_ratio(e, bps))
    }

    fn deploy_to_yield(&mut self, amount: i128) -> Result<(), Failure> {
        self.call(|v, e, _, _| v.deploy_to_yield(e, amount))
    }

    fn withdraw_from_yield(&mut self, principal: i128) -> Result<(), Failure> {
        self.call(|v, e, _, s| v.withdraw_from_yield(e, s, principal))
    }

    fn harvest_yield(&mut self) -> Result<(), Failure> {
        self.call(|v, e, _, s| v.harvest_yield(e, s))
    }

    fn simulate_yield(&mut self, amount: i128) {
        let vault = self.address;
        self.strategy.simulate_yield(vault, amount).unwrap();
    }

    fn yield_info(&self) -> YieldInfo {
        self.vault.get_yield_info()
    }

    fn deploy_oracle(&mut self) -> Address {
        self.next_address += 1;
        contract(self.next_address)
    }

    fn set_feed_price(&mut self, oracle: Address, price: i128) {
        self.feeds.set_price(oracle, feed(), price, self.ledger.sequence);
    }

    fn add_oracle(&mut self, oracle: Address) -> Result<(), Failure> {
        self.call(|v, e, _, _| v.add_oracle(e, oracle))
    }

    fn remove_oracle(&mut self, oracle: Address) -> Result<(), Failure> {
        self.call(|v, e, _, _| v.remove_oracle(e, oracle))
    }

    fn median_price(&self, staleness: u32) -> Result<i128, Error> {
        self.vault.get_median_price(&self.env(), &self.feeds, feed(), staleness)
    }

    fn set_oracle_policy(&mut self, policy: OraclePolicy) -> Result<(), Failure> {
        self.call(|v, e, _, _| v.set_oracle_policy(e, policy))
    }

    fn clear_oracle_policy(&mut self) -> Result<(), Failure> {
        self.call(|v, e, _, _| v.clear_oracle_policy(e))
    }

    fn set_fee_bps(&mut self, bps: u32) -> Result<(), Failure> {
        self.call(|v, e, _, _| v.set_fee_bps(e, bps))
    }

    fn set_fee_recipient(&mut self, recipient: Address) -> Result<(), Failure> {
        self.call(|v, e, _, _| v.set_fee_recipient(e, recipient))
    }

    fn transfer_admin(&mut self, to: Address) -> Result<(), Failure> {
        self.call(|v, e, _, _| v.transfer_admin(e, to))
    }

    fn accept_admin(&mut self) -> Result<(), Failure> {
        self.call(|v, e, _, _| v.accept_admin(e))
    }

    fn cancel_admin_transfer(&mut self) -> Result<(), Failure> {
        self.call(|v, e, _, _| v.cancel_admin_transfer(e))
    }

    fn migrate_state(&mut self, version: u32) -> Result<(), Failure> {
        self.call(|v, e, _, _| v.migrate_state(e, version))
    }

    fn set_token(&mut self, token: Address) -> Result<(), Failure> {
        self.call(|v, e, _, _| v.set_token(e, token))
    }

    fn extend_refund_ttl(&mut self, payment_ref: BytesN<32>) -> Result<(), Failure> {
        self.call(|v, e, _, _| v.extend_refund_ttl(e, payment_ref))
    }
}

fn sum(effects: &[Effect]) -> i128 {
    effects
        .iter()
        .map(|e| match e {
            Effect::Transfer { amount, .. } => *amount,
            _ => 0,
        })
        .sum()
}

fn denied<R>(e: Error) -> Result<R, Failure> {
    Err(Failure::Contract(e))
}

fn feed() -> BytesN<32> {
    b32(0xAA)
}

fn payment_ref(slot: u8) -> BytesN<32> {
    b32(slot)
}

fn policy(threshold: i128, max_staleness_ledgers: u32, refund_when_below: bool) -> OraclePolicy {
    OraclePolicy { feed_id: feed(), threshold, max_staleness_ledgers, refund_when_below }
}

fn param(slot: u8, recipient: Address, amount: i128) -> RefundParam {
    RefundParam {
        payment_ref: b32(slot),
        recipient,
        amount,
        paid_at_ledger: 0,
        payment_amount: amount,
        vdf_proof: None,
    }
}

fn claim(slot: u8, recipient: Address, amount: i128, payment_amount: i128) -> RefundClaim {
    RefundClaim {
        payment_ref: b32(slot),
        recipient,
        amount,
        paid_at_ledger: 0,
        payment_amount,
        vdf_proof: None,
    }
}

/// The delay challenge of a payment: its digest in the low 32 bytes.
fn challenge_for(payment_ref: &BytesN<32>) -> [u8; 128] {
    let mut challenge = [0u8; 128];
    challenge[96..].copy_from_slice(&Sha256::digest(payment_ref.to_array()));
    challenge
}

/// Honest evaluation of the delay by `t` sequential squarings, with its witness.
fn eval_vdf(challenge: &[u8; 128], t: u32) -> ([u8; 128], [u8; 128]) {
    let n = U1024::from_be_slice(&vdf::MODULUS);
    let x = U1024::from_be_slice(challenge).rem(&NonZero::new(n).unwrap());

    let params = DynResidueParams::new(&n);
    let mut acc = DynResidue::new(&x, params);
    for _ in 0..t {
        acc = acc.square();
    }
    let y = acc.retrieve();

    let ell = vdf::derive_challenge(challenge, &y.to_be_bytes(), t);
    let mut ell_buf = [0u8; 128];
    ell_buf[112..].copy_from_slice(&ell.to_be_bytes());
    let q = U1024::ONE
        .shl(t as usize)
        .div_rem(&NonZero::new(U1024::from_be_slice(&ell_buf)).unwrap())
        .0;
    let pi = DynResidue::new(&x, params).pow(&q).retrieve();

    (y.to_be_bytes(), pi.to_be_bytes())
}

/// `output || witness`, as claims carry it.
fn pack(output: &[u8; 128], witness: &[u8; 128]) -> BytesN<256> {
    let mut buf = [0u8; 256];
    buf[..128].copy_from_slice(output);
    buf[128..].copy_from_slice(witness);
    BytesN::from_array(buf)
}

#[test]
fn test_add_oracle_whitelists_and_reads() {
    let mut c = setup(FLOAT, 17_280);
    let oracle = c.deploy_oracle();

    c.add_oracle(oracle).unwrap();

    assert_eq!(c.vault.get_oracles(), vec![oracle]);
    assert_eq!(c.add_oracle(oracle), denied(Error::OracleAlreadyAdded));
}

#[test]
fn test_add_oracle_uninitialized_fails() {
    let mut c = fresh(FLOAT);
    let oracle = c.generate();
    assert_eq!(c.add_oracle(oracle), denied(Error::NotInitialized));
}

#[test]
#[should_panic]
fn test_add_oracle_requires_auth() {
    let mut c = setup(FLOAT, 17_280);
    c.signers.clear();
    let oracle = c.generate();
    c.add_oracle(oracle).unwrap();
}

#[test]
fn test_remove_oracle_works() {
    let mut c = setup(FLOAT, 17_280);
    let oracle = c.deploy_oracle();
    c.add_oracle(oracle).unwrap();

    c.remove_oracle(oracle).unwrap();
    assert_eq!(c.vault.get_oracles().len(), 0);
}

#[test]
fn test_remove_missing_oracle_fails() {
    let mut c = setup(FLOAT, 17_280);
    let oracle = c.deploy_oracle();
    c.add_oracle(oracle).unwrap();

    let stranger = c.generate();
    assert_eq!(c.remove_oracle(stranger), denied(Error::OracleNotFound));
}

#[test]
fn test_remove_oracle_with_empty_whitelist_fails() {
    let mut c = setup(FLOAT, 17_280);
    let oracle = c.generate();
    assert_eq!(c.remove_oracle(oracle), denied(Error::NoOraclesConfigured));
}

#[test]
fn test_median_without_oracles_fails() {
    let c = setup(FLOAT, 17_280);
    assert_eq!(c.median_price(0), Err(Error::NoOraclesConfigured));
}

#[test]
fn test_median_single_oracle() {
    let mut c = setup(FLOAT, 17_280);
    let oracle = c.deploy_oracle();
    c.set_feed_price(oracle, 100);
    c.add_oracle(oracle).unwrap();

    assert_eq!(c.median_price(0), Ok(100));
}

#[test]
fn test_median_of_odd_number_of_oracles() {
    let mut c = setup(FLOAT, 17_280);
    let (a, b, d) = (c.deploy_oracle(), c.deploy_oracle(), c.deploy_oracle());
    c.set_feed_price(a, 300);
    c.set_feed_price(b, 100);
    c.set_feed_price(d, 200);

    // The whitelist is in another order than the prices.
    c.add_oracle(a).unwrap();
    c.add_oracle(d).unwrap();
    c.add_oracle(b).unwrap();

    assert_eq!(c.median_price(0), Ok(200));
}

#[test]
fn test_median_of_even_number_of_oracles_averages_middle() {
    let mut c = setup(FLOAT, 17_280);
    for price in [400, 100, 200, 300] {
        let oracle = c.deploy_oracle();
        c.set_feed_price(oracle, price);
        c.add_oracle(oracle).unwrap();
    }

    // (200 + 300) / 2
    assert_eq!(c.median_price(0), Ok(250));
}

#[test]
fn test_median_ignores_single_extreme_outlier() {
    let mut c = setup(FLOAT, 17_280);
    for price in [250, 260, 270, 100_000] {
        let oracle = c.deploy_oracle();
        c.set_feed_price(oracle, price);
        c.add_oracle(oracle).unwrap();
    }

    // (260 + 270) / 2: the outlier does not show.
    assert_eq!(c.median_price(0), Ok(265));
}

#[test]
fn test_remove_oracle_updates_median() {
    let mut c = setup(FLOAT, 17_280);
    let (a, b, d) = (c.deploy_oracle(), c.deploy_oracle(), c.deploy_oracle());
    c.set_feed_price(a, 100);
    c.set_feed_price(b, 200);
    c.set_feed_price(d, 300);
    c.add_oracle(a).unwrap();
    c.add_oracle(b).unwrap();
    c.add_oracle(d).unwrap();

    assert_eq!(c.median_price(0), Ok(200));

    c.remove_oracle(b).unwrap();
    // (100 + 300) / 2
    assert_eq!(c.median_price(0), Ok(200));

    c.remove_oracle(a).unwrap();
    assert_eq!(c.median_price(0), Ok(300));
}

#[test]
fn test_stale_oracle_excluded_from_median() {
    let mut c = setup(FLOAT, 17_280);
    let (fresh, stale) = (c.deploy_oracle(), c.deploy_oracle());

    c.ledger.sequence = 100;
    c.set_feed_price(fresh, 50);
    c.set_feed_price(stale, 250);

    // Only the fresh oracle updates at ledger 200.
    c.ledger.sequence = 200;
    c.set_feed_price(fresh, 100);

    c.add_oracle(fresh).unwrap();
    c.add_oracle(stale).unwrap();

    // The stale oracle is 100 ledgers old.
    assert_eq!(c.median_price(50), Ok(100));
    assert_eq!(c.median_price(150), Ok(175));
}

#[test]
fn test_all_oracles_stale_fails() {
    let mut c = setup(FLOAT, 17_280);
    c.ledger.sequence = 100;
    let (a, b) = (c.deploy_oracle(), c.deploy_oracle());
    c.set_feed_price(a, 100);
    c.set_feed_price(b, 200);

    c.ledger.sequence = 500;
    c.add_oracle(a).unwrap();
    c.add_oracle(b).unwrap();

    assert_eq!(c.median_price(10), Err(Error::StaleOracleData));
}

#[test]
fn test_zero_staleness_disables_filtering() {
    let mut c = setup(FLOAT, 17_280);
    c.ledger.sequence = 100;
    let oracle = c.deploy_oracle();
    c.set_feed_price(oracle, 300);

    c.ledger.sequence = 10_000;
    c.add_oracle(oracle).unwrap();

    assert_eq!(c.median_price(0), Ok(300));
}

#[test]
fn test_set_and_get_oracle_policy_roundtrip() {
    let mut c = setup(FLOAT, 17_280);
    let p = policy(250, 100, true);
    c.set_oracle_policy(p).unwrap();
    assert_eq!(c.vault.get_oracle_policy(), Some(p));
}

#[test]
fn test_clear_oracle_policy() {
    let mut c = setup(FLOAT, 17_280);
    c.set_oracle_policy(policy(250, 0, true)).unwrap();
    c.clear_oracle_policy().unwrap();

    assert_eq!(c.vault.get_oracle_policy(), None);
    assert_eq!(c.clear_oracle_policy(), denied(Error::NoOraclePolicy));
}

#[test]
#[should_panic]
fn test_set_oracle_policy_requires_auth() {
    let mut c = setup(FLOAT, 17_280);
    c.signers.clear();
    c.set_oracle_policy(policy(250, 0, true)).unwrap();
}

#[test]
#[should_panic]
fn test_clear_oracle_policy_requires_auth() {
    let mut c = setup(FLOAT, 17_280);
    c.signers.clear();
    c.clear_oracle_policy().unwrap();
}

#[test]
fn test_refund_gated_by_price_drop_policy() {
    let mut c = setup(FLOAT, 17_280);
    let oracle = c.deploy_oracle();
    c.add_oracle(oracle).unwrap();
    c.set_feed_price(oracle, 300);
    c.set_oracle_policy(policy(250, 0, true)).unwrap();
    c.fund(1_000_000);
    let (p, buyer) = (payment_ref(0xBB), c.generate());

    // 300 >= 250: the condition does not hold and nothing is recorded.
    assert_eq!(
        c.refund(p, buyer, 100_000, 0, 100_000, None),
        denied(Error::OraclePolicyDenied)
    );
    assert!(c.get_refund(p).is_none());

    // Below the floor the same refund goes through.
    c.set_feed_price(oracle, 200);
    c.refund(p, buyer, 100_000, 0, 100_000, None).unwrap();

    let record = c.get_refund(p).unwrap();
    assert_eq!(record.amount_refunded, 100_000);
    assert_eq!(c.balance(buyer), 100_000);
}

#[test]
fn test_refund_gated_by_rise_policy() {
    let mut c = setup(FLOAT, 17_280);
    let oracle = c.deploy_oracle();
    c.add_oracle(oracle).unwrap();
    c.set_feed_price(oracle, 100);
    c.set_oracle_policy(policy(250, 0, false)).unwrap();
    c.fund(1_000_000);
    let (p, buyer) = (payment_ref(0xBB), c.generate());

    assert_eq!(
        c.refund(p, buyer, 100_000, 0, 100_000, None),
        denied(Error::OraclePolicyDenied)
    );

    c.set_feed_price(oracle, 300);
    c.refund(p, buyer, 100_000, 0, 100_000, None).unwrap();
    assert!(c.get_refund(p).is_some());
}

#[test]
fn test_policy_comparisons_are_strict() {
    let mut c = setup(FLOAT, 17_280);
    let oracle = c.deploy_oracle();
    c.add_oracle(oracle).unwrap();
    c.set_feed_price(oracle, 250);
    c.set_oracle_policy(policy(250, 0, true)).unwrap();
    c.fund(1_000_000);
    let (p, buyer) = (payment_ref(0xBB), c.generate());

    // 250 is not below 250.
    assert_eq!(
        c.refund(p, buyer, 100_000, 0, 100_000, None),
        denied(Error::OraclePolicyDenied)
    );
}

#[test]
fn test_no_policy_means_no_gating() {
    let mut c = setup(FLOAT, 17_280);
    let oracle = c.deploy_oracle();
    c.add_oracle(oracle).unwrap();
    c.set_feed_price(oracle, 1);
    c.fund(1_000_000);
    let (p, buyer) = (payment_ref(0xBB), c.generate());

    c.refund(p, buyer, 100_000, 0, 100_000, None).unwrap();
    assert!(c.get_refund(p).is_some());
}

#[test]
fn test_policy_without_oracles_fails_closed() {
    let mut c = setup(FLOAT, 17_280);
    c.set_oracle_policy(policy(250, 0, true)).unwrap();
    c.fund(1_000_000);
    let (p, buyer) = (payment_ref(0xBB), c.generate());

    assert_eq!(
        c.refund(p, buyer, 100_000, 0, 100_000, None),
        denied(Error::NoOraclesConfigured)
    );
}

#[test]
fn test_policy_with_all_stale_oracles_fails_closed() {
    let mut c = setup(FLOAT, 17_280);
    c.ledger.sequence = 100;
    let oracle = c.deploy_oracle();
    c.set_feed_price(oracle, 100);
    c.ledger.sequence = 500;
    c.add_oracle(oracle).unwrap();
    c.set_oracle_policy(policy(250, 10, true)).unwrap();
    c.fund(1_000_000);
    let (p, buyer) = (payment_ref(0xBB), c.generate());

    assert_eq!(
        c.refund(p, buyer, 100_000, 0, 100_000, None),
        denied(Error::StaleOracleData)
    );
}

#[test]
fn test_clearing_policy_disables_gating() {
    let mut c = setup(FLOAT, 17_280);
    let oracle = c.deploy_oracle();
    c.add_oracle(oracle).unwrap();
    c.set_feed_price(oracle, 300);
    c.set_oracle_policy(policy(250, 0, true)).unwrap();
    c.fund(1_000_000);
    let (p, buyer) = (payment_ref(0xBB), c.generate());

    assert_eq!(
        c.refund(p, buyer, 100_000, 0, 100_000, None),
        denied(Error::OraclePolicyDenied)
    );

    c.clear_oracle_policy().unwrap();
    c.refund(p, buyer, 100_000, 0, 100_000, None).unwrap();
    assert!(c.get_refund(p).is_some());
}

#[test]
fn test_process_batch_respects_oracle_policy() {
    let mut c = setup(FLOAT, 17_280);
    let oracle = c.deploy_oracle();
    c.add_oracle(oracle).unwrap();
    c.set_feed_price(oracle, 300);
    c.set_oracle_policy(policy(250, 0, true)).unwrap();
    c.fund(1_000_000);

    let (buyer1, buyer2) = (c.generate(), c.generate());
    let batch = vec![param(0x11, buyer1, 100_000), param(0x22, buyer2, 200_000)];

    // 300 >= 250: every item is denied and nothing is paid.
    assert_eq!(c.process_batch(&batch), Ok(vec![false, false]));
    assert!(c.get_refund(b32(0x11)).is_none());
    assert!(c.get_refund(b32(0x22)).is_none());

    c.set_feed_price(oracle, 200);
    assert_eq!(c.process_batch(&batch), Ok(vec![true, true]));
    assert!(c.get_refund(b32(0x11)).is_some());
    assert!(c.get_refund(b32(0x22)).is_some());
}

#[test]
fn test_oracle_policy_events_emitted() {
    let mut c = setup(FLOAT, 17_280);
    c.set_oracle_policy(policy(250, 100, true)).unwrap();
    assert_eq!(
        c.events(),
        vec![&Event::OraclePolicySet(OraclePolicySetEvent {
            feed_id: feed(),
            threshold: 250,
            refund_when_below: true,
            max_staleness_ledgers: 100,
        })]
    );

    c.clear_oracle_policy().unwrap();
    assert_eq!(
        c.events(),
        vec![&Event::OraclePolicyCleared(OraclePolicyClearedEvent { feed_id: feed() })]
    );
}

#[test]
fn test_verify_vdf_accepts_correct_proofs() {
    for t in [16u32, 32, 64, 300] {
        for slot in [1u8, 2, 7] {
            let challenge = challenge_for(&payment_ref(slot));
            let (output, witness) = eval_vdf(&challenge, t);
            assert_eq!(vdf::verify_vdf(&challenge, t, &output, &witness), Ok(()));
        }
    }
}

#[test]
fn test_verify_vdf_rejects_tampered_output() {
    let challenge = challenge_for(&payment_ref(1));
    let (mut output, witness) = eval_vdf(&challenge, 64);

    output[127] ^= 0x01;
    assert_eq!(
        vdf::verify_vdf(&challenge, 64, &output, &witness),
        Err(Error::InvalidVdfProof)
    );

    // The output for another challenge.
    let other = challenge_for(&payment_ref(2));
    let (output2, _) = eval_vdf(&other, 64);
    assert_eq!(
        vdf::verify_vdf(&challenge, 64, &output2, &witness),
        Err(Error::InvalidVdfProof)
    );
}

#[test]
fn test_verify_vdf_rejects_tampered_witness() {
    let challenge = challenge_for(&payment_ref(3));
    let (output, mut witness) = eval_vdf(&challenge, 300);

    witness[127] ^= 0x01;
    assert_eq!(
        vdf::verify_vdf(&challenge, 300, &output, &witness),
        Err(Error::InvalidVdfProof)
    );
}

#[test]
fn test_verify_vdf_rejects_premature_proof() {
    let challenge = challenge_for(&payment_ref(4));

    // One squaring short.
    let (output, witness) = eval_vdf(&challenge, 63);
    assert_eq!(
        vdf::verify_vdf(&challenge, 64, &output, &witness),
        Err(Error::InvalidVdfProof)
    );

    // One squaring too many.
    let (output2, witness2) = eval_vdf(&challenge, 65);
    assert_eq!(
        vdf::verify_vdf(&challenge, 64, &output2, &witness2),
        Err(Error::InvalidVdfProof)
    );
}

#[test]
fn test_verify_vdf_rejects_degenerate_challenges() {
    let n = U1024::from_be_slice(&vdf::MODULUS);

    let zero = [0u8; 128];
    let mut one = [0u8; 128];
    one[127] = 1;
    let n_minus_1 = n.wrapping_sub(&U1024::ONE).to_be_bytes();
    // The modulus itself reduces to 0.
    let n_bytes = vdf::MODULUS;

    for bad in [&zero, &one, &n_minus_1, &n_bytes] {
        let (output, witness) = eval_vdf(bad, 64);
        assert_eq!(
            vdf::verify_vdf(bad, 64, &output, &witness),
            Err(Error::InvalidVdfProof)
        );
    }
}

#[test]
fn test_verify_vdf_endpoint() {
    let challenge = challenge_for(&payment_ref(1));
    let (output, witness) = eval_vdf(&challenge, 64);

    let proof = VdfProof {
        output: BytesN::from_array(output),
        proof: BytesN::from_array(witness),
    };
    assert_eq!(
        RefundVault::verify_vdf(BytesN::from_array(challenge), 64, proof),
        Ok(())
    );

    let bad = VdfProof {
        output: BytesN::from_array(output),
        proof: BytesN::from_array([0u8; 128]),
    };
    assert_eq!(
        RefundVault::verify_vdf(BytesN::from_array(challenge), 64, bad),
        Err(Error::InvalidVdfProof)
    );
}

#[test]
fn test_vdf_policy_requires_proof_on_refund() {
    let mut c = setup(1_000_000, 100);
    c.apply_vdf_policy(64);

    let (p, buyer) = (payment_ref(1), c.generate());
    let challenge = challenge_for(&p);
    let (output, witness) = eval_vdf(&challenge, 64);

    assert_eq!(c.refund(p, buyer, 100, 0, 100, None), denied(Error::VdfProofRequired));
    assert_eq!(c.refund(p, buyer, 100, 0, 100, Some(pack(&output, &witness))), Ok(()));

    // A proof for a smaller delay.
    let (early_output, early_witness) = eval_vdf(&challenge, 63);
    assert_eq!(
        c.refund(p, buyer, 100, 0, 100, Some(pack(&early_output, &early_witness))),
        denied(Error::InvalidVdfProof)
    );
}

#[test]
fn test_vdf_proof_is_payment_bound() {
    let mut c = setup(1_000_000, 100);
    c.apply_vdf_policy(64);

    let (ref_a, ref_b, buyer) = (payment_ref(1), payment_ref(2), c.generate());
    let (output, witness) = eval_vdf(&challenge_for(&ref_a), 64);

    assert_eq!(
        c.refund(ref_b, buyer, 100, 0, 100, Some(pack(&output, &witness))),
        denied(Error::InvalidVdfProof)
    );
}

#[test]
fn test_vdf_proof_without_configured_delay_fails() {
    let mut c = setup(1_000_000, 100);
    c.fund(500_000);

    let (p, buyer) = (payment_ref(1), c.generate());
    let (output, witness) = eval_vdf(&challenge_for(&p), 64);

    assert_eq!(
        c.refund(p, buyer, 100, 0, 100, Some(pack(&output, &witness))),
        denied(Error::VdfNotConfigured)
    );
    assert_eq!(c.refund(p, buyer, 100, 0, 100, None), Ok(()));
}

#[test]
fn test_vdf_delay_configured_and_readable() {
    let mut c = setup(1_000_000, 100);

    assert_eq!(c.vault.get_vdf_delay(), 0);
    c.fund(500_000);
    c.propose_policy(100, 0, 777).unwrap();

    let proposal = c.vault.get_pending_policy().unwrap();
    assert_eq!(proposal.vdf_delay, 777);
    assert_eq!(c.vault.get_vdf_delay(), 0);

    c.ledger.sequence += 17_280;
    c.execute_policy().unwrap();

    assert_eq!(c.vault.get_vdf_delay(), 777);
    assert_eq!(c.vault.get_pending_policy(), None);
}

#[test]
fn test_claim_batch_with_vdf_proofs() {
    let mut c = setup(1_000_000, 100);
    c.apply_vdf_policy(64);

    let (ref_a, ref_b, buyer) = (payment_ref(1), payment_ref(2), c.generate());
    let (o_a, w_a) = eval_vdf(&challenge_for(&ref_a), 64);
    let (o_b, w_b) = eval_vdf(&challenge_for(&ref_b), 64);

    let claims = vec![
        RefundClaim { vdf_proof: Some(pack(&o_a, &w_a)), ..claim(1, buyer, 100, 100) },
        RefundClaim { vdf_proof: Some(pack(&o_b, &w_b)), ..claim(2, buyer, 200, 200) },
    ];
    assert_eq!(c.claim_batch(claims), Ok(()));
    assert_eq!(c.get_refund(ref_a).unwrap().amount_refunded, 100);
    assert_eq!(c.get_refund(ref_b).unwrap().amount_refunded, 200);

    // One bad proof fails the whole batch.
    let bad = RefundClaim { vdf_proof: Some(pack(&o_a, &[0u8; 128])), ..claim(1, buyer, 100, 100) };
    assert_eq!(c.claim_batch(vec![bad]), denied(Error::InvalidVdfProof));
}

#[test]
fn test_process_batch_with_vdf_proofs() {
    let mut c = setup(1_000_000, 100);
    c.apply_vdf_policy(64);

    let (ref_a, ref_b, buyer) = (payment_ref(1), payment_ref(2), c.generate());
    let (o_a, w_a) = eval_vdf(&challenge_for(&ref_a), 64);
    let (o_b, _) = eval_vdf(&challenge_for(&ref_b), 64);

    let ok = RefundParam { vdf_proof: Some(pack(&o_a, &w_a)), ..param(1, buyer, 100) };
    let bad = RefundParam { vdf_proof: Some(pack(&o_b, &[0u8; 128])), ..param(2, buyer, 100) };
    assert_eq!(c.process_batch(&vec![ok, bad]), Ok(vec![true, false]));
    assert_eq!(c.get_refund(ref_a).unwrap().amount_refunded, 100);
}

#[test]
fn test_set_yield_strategy() {
    let c = setup_with_strategy(2000, 8000);
    let info = c.yield_info();
    assert_eq!(info.strategy, Some(c.strategy.contract));
    assert_eq!(info.reserve_ratio, 2000);
    assert_eq!(info.max_deploy_ratio, 8000);
    assert_eq!(info.deployed_principal, 0);
    assert_eq!(info.harvested_yield, 0);
}

#[test]
fn test_set_yield_strategy_uninitialized_fails() {
    let mut c = fresh(FLOAT);
    let addr = c.generate();
    assert_eq!(c.set_yield_strategy(addr), denied(Error::NotInitialized));
}

#[test]
fn test_set_yield_strategy_requires_auth() {
    let mut c = setup_with_strategy(2000, 8000);
    let new_strategy = c.generate();
    c.signers.clear();
    assert!(c.set_yield_strategy(new_strategy).is_err());
}

#[test]
fn test_set_reserve_ratio_invalid_fails() {
    let mut c = setup_with_strategy(0, 10_000);
    assert_eq!(c.set_reserve_ratio(10_001), denied(Error::InvalidRatio));
}

#[test]
fn test_set_max_deploy_ratio_invalid_fails() {
    let mut c = setup_with_strategy(0, 10_000);
    assert_eq!(c.set_max_deploy_ratio(10_001), denied(Error::InvalidRatio));
}

#[test]
fn test_deploy_to_yield_happy_path() {
    let mut c = setup_with_strategy(2000, 8000);

    c.fund(5_000_000);
    assert_eq!(c.float(), 5_000_000);

    // 60 percent of 5M; 2M stay liquid, and the reserve is 1M.
    c.deploy_to_yield(3_000_000).unwrap();

    assert_eq!(c.yield_info().deployed_principal, 3_000_000);
    assert_eq!(c.float(), 2_000_000);
}

#[test]
fn test_deploy_without_strategy_fails() {
    let mut c = setup(FLOAT, 100);
    c.fund(500_000);
    assert_eq!(c.deploy_to_yield(100_000), denied(Error::StrategyNotSet));
}

#[test]
fn test_deploy_insufficient_reserve_fails() {
    let mut c = setup_with_strategy(2000, 8000);
    c.fund(5_000_000);
    // 500K would stay liquid, and the reserve is 1M.
    assert_eq!(c.deploy_to_yield(4_500_000), denied(Error::InsufficientReserve));
}

#[test]
fn test_deploy_exceeds_max_ratio_fails() {
    let mut c = setup_with_strategy(0, 5000);
    c.fund(5_000_000);
    assert_eq!(c.deploy_to_yield(3_000_000), denied(Error::DeploymentExceedsMax));
}

#[test]
fn test_deploy_insufficient_float_fails() {
    let mut c = setup_with_strategy(0, 10_000);
    c.fund(1_000_000);
    assert_eq!(c.deploy_to_yield(2_000_000), denied(Error::InsufficientFloat));
}

#[test]
fn test_deploy_zero_fails() {
    let mut c = setup_with_strategy(2000, 8000);
    c.fund(5_000_000);
    assert_eq!(c.deploy_to_yield(0), denied(Error::InvalidAmount));
}

#[test]
fn test_deploy_when_paused_fails() {
    let mut c = setup_with_strategy(2000, 8000);
    c.fund(5_000_000);
    c.pause().unwrap();
    assert_eq!(c.deploy_to_yield(1_000_000), denied(Error::Paused));
}

#[test]
fn test_deploy_multiple_times() {
    let mut c = setup_with_strategy(1000, 8000);
    c.fund(5_000_000);

    c.deploy_to_yield(1_000_000).unwrap();
    c.deploy_to_yield(1_000_000).unwrap();
    c.deploy_to_yield(1_000_000).unwrap();

    assert_eq!(c.yield_info().deployed_principal, 3_000_000);
    assert_eq!(c.float(), 2_000_000);
}

#[test]
fn test_withdraw_from_yield_returns_principal_and_yield() {
    let mut c = setup_with_strategy(0, 10_000);
    c.fund(5_000_000);
    c.deploy_to_yield(3_000_000).unwrap();
    c.simulate_yield(500_000);
    let before = c.float();

    c.withdraw_from_yield(1_000_000).unwrap();

    let info = c.yield_info();
    assert_eq!(info.deployed_principal, 2_000_000);
    let expected_yield = 500_000i128 * 1_000_000 / 3_000_000;
    assert_eq!(info.harvested_yield, expected_yield);
    assert_eq!(c.float(), before + 1_000_000 + expected_yield);
}

#[test]
fn test_withdraw_more_than_deployed_fails() {
    let mut c = setup_with_strategy(0, 10_000);
    c.fund(5_000_000);
    c.deploy_to_yield(2_000_000).unwrap();
    assert_eq!(c.withdraw_from_yield(3_000_000), denied(Error::NothingToWithdraw));
}

#[test]
fn test_withdraw_zero_fails() {
    let mut c = setup_with_strategy(0, 10_000);
    c.fund(5_000_000);
    c.deploy_to_yield(2_000_000).unwrap();
    assert_eq!(c.withdraw_from_yield(0), denied(Error::InvalidAmount));
}

#[test]
fn test_withdraw_without_strategy_fails() {
    let mut c = setup(FLOAT, 100);
    assert_eq!(c.withdraw_from_yield(100), denied(Error::StrategyNotSet));
}

#[test]
fn test_withdraw_full_principal() {
    let mut c = setup_with_strategy(0, 10_000);
    c.fund(5_000_000);
    c.deploy_to_yield(3_000_000).unwrap();
    c.simulate_yield(300_000);

    c.withdraw_from_yield(3_000_000).unwrap();

    let info = c.yield_info();
    assert_eq!(info.deployed_principal, 0);
    assert_eq!(info.harvested_yield, 300_000);
    assert_eq!(c.float(), 5_300_000);
}

#[test]
fn test_harvest_yield_happy_path() {
    let mut c = setup_with_strategy(0, 10_000);
    c.fund(5_000_000);
    c.deploy_to_yield(3_000_000).unwrap();
    c.simulate_yield(200_000);
    let before = c.float();

    c.harvest_yield().unwrap();

    let info = c.yield_info();
    assert_eq!(info.harvested_yield, 200_000);
    assert_eq!(info.deployed_principal, 3_000_000);
    assert_eq!(c.float(), before + 200_000);
}

#[test]
fn test_harvest_nothing_fails() {
    let mut c = setup_with_strategy(0, 10_000);
    c.fund(5_000_000);
    c.deploy_to_yield(3_000_000).unwrap();
    assert_eq!(c.harvest_yield(), denied(Error::NothingToHarvest));
}

#[test]
fn test_harvest_accumulates() {
    let mut c = setup_with_strategy(0, 10_000);
    c.fund(5_000_000);
    c.deploy_to_yield(3_000_000).unwrap();

    c.simulate_yield(100_000);
    c.harvest_yield().unwrap();
    c.simulate_yield(150_000);
    c.harvest_yield().unwrap();

    assert_eq!(c.yield_info().harvested_yield, 250_000);
}

#[test]
fn test_refund_succeeds_after_deploy_within_reserve() {
    let mut c = setup_with_strategy(2000, 8000);
    c.fund(5_000_000);
    c.deploy_to_yield(3_000_000).unwrap();

    let buyer = c.generate();
    c.refund(b32(1), buyer, 500_000, 0, 500_000, None).unwrap();

    assert_eq!(c.balance(buyer), 500_000);
    assert_eq!(c.float(), 1_500_000);
}

#[test]
fn test_refund_exceeding_liquid_after_deploy_fails() {
    let mut c = setup_with_strategy(2000, 8000);
    c.fund(5_000_000);
    c.deploy_to_yield(3_000_000).unwrap();

    let buyer = c.generate();
    assert_eq!(
        c.refund(b32(2), buyer, 2_500_000, 0, 2_500_000, None),
        denied(Error::InsufficientFloat)
    );
}

#[test]
fn test_refund_after_withdraw_from_yield() {
    let mut c = setup_with_strategy(0, 10_000);
    c.fund(5_000_000);
    c.deploy_to_yield(4_000_000).unwrap();
    c.withdraw_from_yield(2_000_000).unwrap();

    let buyer = c.generate();
    c.refund(b32(3), buyer, 2_500_000, 0, 2_500_000, None).unwrap();

    assert_eq!(c.balance(buyer), 2_500_000);
}

#[test]
fn test_operator_withdraw_harvested_yield() {
    let mut c = setup_with_strategy(0, 10_000);
    c.fund(5_000_000);
    c.deploy_to_yield(3_000_000).unwrap();
    c.simulate_yield(300_000);
    c.harvest_yield().unwrap();

    let operator = c.generate();
    c.withdraw(300_000, operator).unwrap();

    assert_eq!(c.balance(operator), 300_000);
    assert_eq!(c.float(), 2_000_000);
}

#[test]
fn test_yield_accounting_after_full_cycle() {
    let mut c = setup_with_strategy(1000, 8000);
    c.fund(5_000_000);
    c.deploy_to_yield(3_000_000).unwrap();
    c.simulate_yield(500_000);
    c.harvest_yield().unwrap();
    c.withdraw_from_yield(1_500_000).unwrap();

    let info = c.yield_info();
    assert_eq!(info.deployed_principal, 1_500_000);
    // The harvest left no yield to go with the withdrawn principal.
    assert_eq!(info.harvested_yield, 500_000);
    assert_eq!(c.float(), 4_000_000);
}

#[test]
fn test_deploy_when_paused() {
    let mut c = setup_with_strategy(2000, 8000);
    c.fund(5_000_000);
    c.pause().unwrap();
    assert_eq!(c.deploy_to_yield(1_000_000), denied(Error::Paused));
}

#[test]
fn test_withdraw_from_yield_when_paused() {
    let mut c = setup_with_strategy(0, 10_000);
    c.fund(5_000_000);
    c.deploy_to_yield(3_000_000).unwrap();
    c.pause().unwrap();
    assert_eq!(c.withdraw_from_yield(1_000_000), denied(Error::Paused));
}

#[test]
fn test_harvest_when_paused() {
    let mut c = setup_with_strategy(0, 10_000);
    c.fund(5_000_000);
    c.deploy_to_yield(3_000_000).unwrap();
    c.simulate_yield(100_000);
    c.pause().unwrap();
    assert_eq!(c.harvest_yield(), denied(Error::Paused));
}

#[test]
fn test_yield_deployed_event() {
    let mut c = setup_with_strategy(2000, 8000);
    c.fund(5_000_000);
    c.deploy_to_yield(2_000_000).unwrap();
    assert_eq!(
        c.events(),
        vec![&Event::YieldDeployed(YieldDeployedEvent {
            strategy: c.strategy.contract,
            amount: 2_000_000,
        })]
    );
}

#[test]
fn test_yield_harvested_event() {
    let mut c = setup_with_strategy(0, 10_000);
    c.fund(5_000_000);
    c.deploy_to_yield(3_000_000).unwrap();
    c.simulate_yield(200_000);
    c.harvest_yield().unwrap();
    assert_eq!(
        c.events(),
        vec![&Event::YieldHarvested(YieldHarvestedEvent { amount: 200_000 })]
    );
}

#[test]
fn test_zero_reserve_full_deploy() {
    let mut c = setup_with_strategy(0, 10_000);
    c.fund(5_000_000);
    c.deploy_to_yield(5_000_000).unwrap();

    assert_eq!(c.yield_info().deployed_principal, 5_000_000);
    assert_eq!(c.float(), 0);
}

#[test]
fn test_full_reserve_cannot_deploy() {
    let mut c = setup_with_strategy(10_000, 10_000);
    c.fund(5_000_000);
    assert_eq!(c.deploy_to_yield(1), denied(Error::InsufficientReserve));
}

#[test]
fn test_existing_deposit_refund_withdraw_still_works() {
    let mut c = setup_with_strategy(2000, 8000);
    c.fund(5_000_000);

    let buyer = c.generate();
    c.refund(b32(7), buyer, 120_000, 0, 120_000, None).unwrap();
    assert_eq!(c.balance(buyer), 120_000);
    assert_eq!(c.float(), 4_880_000);

    let merchant = c.merchant;
    c.withdraw(200_000, merchant).unwrap();
    assert_eq!(c.float(), 4_680_000);
}

#[test]
fn test_yield_strategy_key_is_persistent_with_ttl() {
    let c = setup_with_strategy(2000, 8000);
    assert!(c.ttl(DataKey::YieldStrategy) >= TTL_EXTEND);
}

#[test]
fn test_reserve_ratio_key_is_persistent_with_ttl() {
    let c = setup_with_strategy(2000, 8000);
    assert!(c.ttl(DataKey::ReserveRatio) >= TTL_EXTEND);
}

#[test]
fn test_max_deploy_ratio_key_is_persistent_with_ttl() {
    let c = setup_with_strategy(2000, 8000);
    assert!(c.ttl(DataKey::MaxDeployRatio) >= TTL_EXTEND);
}

#[test]
fn test_deployed_principal_key_is_persistent_with_ttl() {
    let mut c = setup_with_strategy(0, 10_000);
    c.fund(5_000_000);
    c.deploy_to_yield(3_000_000).unwrap();
    assert!(c.ttl(DataKey::DeployedPrincipal) >= TTL_EXTEND);
}

#[test]
fn test_harvested_yield_key_is_persistent_with_ttl() {
    let mut c = setup_with_strategy(0, 10_000);
    c.fund(5_000_000);
    c.deploy_to_yield(3_000_000).unwrap();
    c.simulate_yield(200_000);
    c.harvest_yield().unwrap();
    assert!(c.ttl(DataKey::HarvestedYield) >= TTL_EXTEND);
}

#[test]
fn test_non_yield_calls_do_not_create_yield_persistent_keys() {
    let mut c = setup_with_strategy(2000, 8000);
    c.fund(5_000_000);
    assert!(c.vault.deployed_principal.is_none());
    assert!(c.vault.harvested_yield.is_none());
    assert_eq!(c.ttl(DataKey::DeployedPrincipal), 0);
    assert_eq!(c.ttl(DataKey::HarvestedYield), 0);
}

#[test]
fn test_yield_info_survives_refund() {
    let mut c = setup_with_strategy(2000, 8000);
    c.fund(5_000_000);
    c.deploy_to_yield(3_000_000).unwrap();
    let before = c.yield_info();

    let buyer = c.generate();
    c.refund(b32(0xAA), buyer, 500_000, 0, 500_000, None).unwrap();

    let after = c.yield_info();
    assert_eq!(before.deployed_principal, after.deployed_principal);
    assert_eq!(before.harvested_yield, after.harvested_yield);
    assert_eq!(before.strategy, after.strategy);
    assert_eq!(before.reserve_ratio, after.reserve_ratio);
    assert_eq!(before.max_deploy_ratio, after.max_deploy_ratio);
}

#[test]
fn test_full_lifecycle_with_zero_decimal_token() {
    let mut c = setup_with_token(0, 1_000_000);
    let merchant = c.merchant;
    assert_eq!(c.token.decimals(), 0);

    c.fund(1_000);
    assert_eq!(c.float(), 1_000);
    assert_eq!(c.balance(merchant), 1_000_000 - 1_000);

    let buyer = c.generate();
    c.refund(b32(7), buyer, 1, 0, 1, None).unwrap();
    assert_eq!(c.balance(buyer), 1);
    assert_eq!(c.float(), 999);

    c.withdraw(999, merchant).unwrap();
    assert_eq!(c.float(), 0);
    assert_eq!(c.balance(merchant), 1_000_000 - 1);
}

#[test]
fn test_full_lifecycle_with_two_decimal_token() {
    let mut c = setup_with_token(2, 1_000_000);
    assert_eq!(c.token.decimals(), 2);

    c.fund(12_345);
    assert_eq!(c.float(), 12_345);

    let (buyer, merchant) = (c.generate(), c.merchant);
    c.refund(b32(8), buyer, 45, 0, 45, None).unwrap();
    c.withdraw(12_300, merchant).unwrap();

    assert_eq!(c.balance(buyer), 45);
    assert_eq!(c.float(), 0);
}

#[test]
fn test_float_bound_check_with_non_7_decimal_token() {
    let mut c = setup_with_token(0, 1_000_000);
    c.fund(100);
    let buyer = c.generate();
    assert_eq!(
        c.refund(b32(14), buyer, 101, 0, 101, None),
        denied(Error::InsufficientFloat)
    );
}

#[test]
fn test_refund_exactly_equal_to_float_succeeds() {
    let mut c = setup_with_token(0, 1_000_000);
    c.fund(1_000);

    let buyer = c.generate();
    c.refund(b32(9), buyer, 1_000, 0, 1_000, None).unwrap();
    assert_eq!(c.float(), 0);

    assert_eq!(c.refund(b32(10), buyer, 1, 0, 1, None), denied(Error::InsufficientFloat));
}

#[test]
fn test_smallest_unit_round_trip() {
    let mut c = setup_with_token(0, 1_000_000);
    c.fund(2);
    assert_eq!(c.float(), 2);

    let (buyer, merchant) = (c.generate(), c.merchant);
    c.refund(b32(11), buyer, 1, 0, 1, None).unwrap();
    assert_eq!(c.balance(buyer), 1);

    c.withdraw(1, merchant).unwrap();
    assert_eq!(c.float(), 0);
}

#[test]
fn test_i128_extreme_deposit_and_withdraw() {
    let extreme = i128::MAX;
    let mut c = setup_with_token(0, extreme);
    c.fund(extreme);
    assert_eq!(c.float(), extreme);

    let recipient = c.generate();
    c.withdraw(extreme, recipient).unwrap();
    assert_eq!(c.balance(recipient), extreme);
    assert_eq!(c.float(), 0);
}

#[test]
fn test_i128_extreme_refund() {
    let extreme = i128::MAX;
    let mut c = setup_with_token(0, extreme);
    c.fund(extreme);

    let buyer = c.generate();
    c.refund(b32(12), buyer, extreme, 0, extreme, None).unwrap();
    assert_eq!(c.balance(buyer), extreme);
    assert_eq!(c.float(), 0);

    assert_eq!(c.refund(b32(13), buyer, 1, 0, 1, None), denied(Error::InsufficientFloat));
}

#[test]
fn test_guard_blocks_deposit_while_lock_held() {
    let mut c = setup(1_000_000, 100);
    c.fund(1_000_000);
    c.vault.reentrancy_lock = true;
    let merchant = c.merchant;
    assert_eq!(c.deposit(merchant, 1_000), denied(Error::ReentrancyBlocked));
}

#[test]
fn test_guard_blocks_refund_while_lock_held() {
    let mut c = setup(1_000_000, 100);
    c.fund(1_000_000);
    c.vault.reentrancy_lock = true;

    let buyer = c.generate();
    assert_eq!(
        c.refund(b32(20), buyer, 1_000, 0, 1_000, None),
        denied(Error::ReentrancyBlocked)
    );
    assert!(c.get_refund(b32(20)).is_none());
}

#[test]
fn test_guard_blocks_withdraw_while_lock_held() {
    let mut c = setup(1_000_000, 100);
    c.fund(1_000_000);
    c.vault.reentrancy_lock = true;
    let merchant = c.merchant;
    assert_eq!(c.withdraw(1_000, merchant), denied(Error::ReentrancyBlocked));
}

#[test]
fn test_guard_blocks_deploy_to_yield_while_lock_held() {
    let mut c = setup(1_000_000, 100);
    c.fund(1_000_000);
    c.strategy.initialize(c.token_id, c.address);
    let strategy = c.strategy.contract;
    c.set_yield_strategy(strategy).unwrap();
    c.set_reserve_ratio(0).unwrap();
    c.set_max_deploy_ratio(10_000).unwrap();
    c.vault.reentrancy_lock = true;

    assert_eq!(c.deploy_to_yield(1_000), denied(Error::ReentrancyBlocked));
}

#[test]
fn test_lock_is_released_after_successful_call() {
    let mut c = setup(1_000_000, 100);
    c.fund(1_000_000);
    let (buyer, merchant) = (c.generate(), c.merchant);

    c.refund(b32(9), buyer, 1_000, 0, 1_000, None).unwrap();
    c.refund(b32(10), buyer, 2_000, 0, 2_000, None).unwrap();
    c.withdraw(500, merchant).unwrap();
}

#[test]
fn test_regression_deposit_extreme_amounts() {
    let mut c = setup(FLOAT, 100);
    let merchant = c.merchant;

    assert_eq!(c.deposit(merchant, -1), denied(Error::InvalidAmount));
    assert_eq!(c.deposit(merchant, 0), denied(Error::InvalidAmount));

    c.deposit(merchant, 5_000_000).unwrap();
    assert_eq!(c.float(), 5_000_000);

    // Beyond what the merchant has left the token refuses the transfer.
    assert_eq!(c.deposit(merchant, 6_000_000), Err(Failure::Host));
    assert_eq!(c.float(), 5_000_000);
}

#[test]
fn test_regression_float_accounts_across_full_cycle() {
    let mut c = setup(FLOAT, 100);
    c.fund(1_000_000);
    c.fund(2_000_000);
    assert_eq!(c.float(), 3_000_000);

    let (ref_a, buyer, merchant) = (payment_ref(0), c.generate(), c.merchant);
    c.refund(ref_a, buyer, 400_000, 0, 400_000, None).unwrap();
    assert_eq!(c.float(), 2_600_000);

    c.withdraw(500_000, merchant).unwrap();
    assert_eq!(c.float(), 2_100_000);

    assert_eq!(
        c.refund(ref_a, buyer, 100, 0, 400_000, None),
        denied(Error::ExceedsPayment)
    );
    assert_eq!(c.float(), 2_100_000);
}

#[test]
fn test_regression_pause_blocks_and_preserves_state() {
    let mut c = setup(FLOAT, 100);
    let (buyer, merchant) = (c.generate(), c.merchant);
    c.fund(1_000_000);
    c.pause().unwrap();

    assert_eq!(c.deposit(merchant, 100), denied(Error::Paused));
    assert_eq!(c.withdraw(100, merchant), denied(Error::Paused));

    let p = payment_ref(1);
    assert_eq!(c.refund(p, buyer, 100, 0, 100, None), denied(Error::Paused));
    assert!(c.get_refund(p).is_none());
    assert_eq!(c.float(), 1_000_000);

    c.unpause().unwrap();
    c.refund(p, buyer, 100, 0, 100, None).unwrap();
    assert_eq!(c.float(), 999_900);
}

#[test]
fn a_fresh_vault_refuses_everything_but_initialize() {
    let mut c = fresh(FLOAT);
    let (someone, merchant) = (c.generate(), c.merchant);
    assert_eq!(c.vault.get_admin(), Err(Error::NotInitialized));
    assert_eq!(c.vault.get_token(), Err(Error::NotInitialized));
    assert_eq!(c.vault.is_paused(), Err(Error::NotInitialized));
    assert_eq!(c.vault.get_refund_window(), Err(Error::NotInitialized));
    assert_eq!(c.vault.get_storage_version(), Err(Error::NotInitialized));
    assert_eq!(c.deposit(merchant, 1), denied(Error::NotInitialized));
    assert_eq!(c.withdraw(1, someone), denied(Error::NotInitialized));
    assert_eq!(c.refund(b32(1), someone, 1, 0, 1, None), denied(Error::NotInitialized));
    assert_eq!(c.claim_batch(vec![]), denied(Error::NotInitialized));
    assert_eq!(c.process_batch(&vec![]), denied(Error::NotInitialized));
    assert_eq!(c.pause(), denied(Error::NotInitialized));
    assert_eq!(c.propose_policy(1, 0, 0), denied(Error::NotInitialized));
    assert_eq!(c.accept_admin(), denied(Error::NoPendingTransfer));

    c.initialize(100).unwrap();
    assert_eq!(c.vault.get_admin(), Ok(merchant));
    assert_eq!(c.vault.get_token(), Ok(c.token_id));
    assert_eq!(c.vault.is_paused(), Ok(false));
    assert_eq!(c.vault.get_refund_window(), Ok(100));
    assert_eq!(c.vault.get_storage_version(), Ok(1));
    assert_eq!(c.initialize(100), denied(Error::AlreadyInitialized));
}

#[test]
fn merchant_calls_need_the_merchants_signature() {
    let mut c = setup(FLOAT, 100);
    c.fund(1_000);
    let someone = c.generate();
    c.signers = vec![someone];
    assert_eq!(c.deposit(someone, 1), denied(Error::Unauthorized));
    assert_eq!(c.withdraw(1, someone), denied(Error::Unauthorized));
    assert_eq!(c.refund(b32(1), someone, 1, 0, 1, None), denied(Error::Unauthorized));
    assert_eq!(c.claim_batch(vec![]), denied(Error::Unauthorized));
    assert_eq!(c.process_batch(&vec![]), denied(Error::Unauthorized));
    assert_eq!(c.pause(), denied(Error::Unauthorized));
    assert_eq!(c.unpause(), denied(Error::Unauthorized));
    assert_eq!(c.propose_policy(1, 0, 0), denied(Error::Unauthorized));
    assert_eq!(c.execute_policy(), denied(Error::Unauthorized));
    assert_eq!(c.transfer_admin(someone), denied(Error::Unauthorized));
    assert_eq!(c.cancel_admin_transfer(), denied(Error::Unauthorized));
    assert_eq!(c.migrate_state(2), denied(Error::Unauthorized));
    assert_eq!(c.set_token(someone), denied(Error::Unauthorized));
    assert_eq!(c.set_fee_bps(1), denied(Error::Unauthorized));
    assert_eq!(c.set_fee_recipient(someone), denied(Error::Unauthorized));
    assert_eq!(c.set_reserve_ratio(1), denied(Error::Unauthorized));
    assert_eq!(c.set_max_deploy_ratio(1), denied(Error::Unauthorized));
    assert_eq!(c.deploy_to_yield(1), denied(Error::Unauthorized));
    assert_eq!(c.withdraw_from_yield(1), denied(Error::Unauthorized));
    assert_eq!(c.harvest_yield(), denied(Error::Unauthorized));
    assert_eq!(c.float(), 1_000);
}

#[test]
fn only_the_merchant_deposits_and_not_to_itself_withdraws() {
    let mut c = setup(FLOAT, 100);
    let (someone, vault) = (c.generate(), c.address);
    c.signers.push(someone);
    assert_eq!(c.deposit(someone, 5), denied(Error::Unauthorized));

    let merchant = c.merchant;
    c.deposit(merchant, 500).unwrap();
    assert_eq!(
        c.effects,
        vec![
            Effect::SetReentrancyLock(true),
            Effect::Transfer { token: c.token_id, from: merchant, to: vault, amount: 500 },
            Effect::Publish(Event::Deposit(DepositEvent { from: merchant, amount: 500 })),
            Effect::ExtendInstanceTtl { threshold: TTL_THRESHOLD, extend_to: TTL_EXTEND },
            Effect::SetReentrancyLock(false),
        ]
    );
    assert_eq!(c.withdraw(1, vault), denied(Error::SelfTransfer));
    assert_eq!(c.withdraw(0, someone), denied(Error::InvalidAmount));
    assert_eq!(c.withdraw(501, someone), denied(Error::InsufficientFloat));
    c.withdraw(200, someone).unwrap();
    assert_eq!(
        c.events(),
        vec![&Event::Withdraw(WithdrawEvent { to: someone, amount: 200 })]
    );
    assert_eq!(c.float(), 300);
    assert_eq!(c.balance(someone), 200);
}

#[test]
fn fee_rounds_up() {
    assert_eq!(refund_fee(0, 10_000), 0);
    assert_eq!(refund_fee(1, 0), 0);
    assert_eq!(refund_fee(1, 1), 1);
    assert_eq!(refund_fee(10_000, 250), 250);
    assert_eq!(refund_fee(10_001, 250), 251);
    assert_eq!(refund_fee(99, 10_000), 99);
    assert_eq!(refund_fee(i128::MAX, 10_000), i128::MAX);
    assert_eq!(refund_fee(i128::MAX, 5_000), i128::MAX / 2 + 1);
}

#[test]
fn fee_is_taken_from_the_refund() {
    let mut c = setup(FLOAT, 0);
    c.fund(10_000);
    assert_eq!(c.vault.get_fee_bps(), 0);
    assert_eq!(c.vault.get_fee_recipient(), None);

    assert_eq!(c.set_fee_bps(10_001), denied(Error::InvalidRatio));
    c.set_fee_bps(250).unwrap();
    let merchant = c.merchant;
    assert_eq!(
        c.events(),
        vec![&Event::FeeConfigUpdated(FeeConfigUpdatedEvent {
            field: FeeField::FeeBps,
            fee_bps: 250,
            fee_recipient: merchant,
        })]
    );

    // Without a recipient the merchant collects: 2.5 percent of 1,001, rounded up.
    let (buyer, before) = (c.generate(), c.balance(merchant));
    c.refund(b32(1), buyer, 1_001, 0, 2_000, None).unwrap();
    assert_eq!(c.balance(buyer), 975);
    assert_eq!(c.balance(merchant), before + 26);
    assert_eq!(c.float(), 10_000 - 1_001);
    assert_eq!(
        c.events(),
        vec![&Event::Refund(RefundEvent {
            payment_ref: b32(1),
            amount: 1_001,
            fee: 26,
            cumulative_refunded: 1_001,
            recipient: buyer,
            ledger: 0,
        })]
    );

    let (collector, vault) = (c.generate(), c.address);
    assert_eq!(c.set_fee_recipient(vault), denied(Error::SelfTransfer));
    c.set_fee_recipient(collector).unwrap();
    assert_eq!(c.vault.get_fee_recipient(), Some(collector));
    assert_eq!(
        c.events(),
        vec![&Event::FeeConfigUpdated(FeeConfigUpdatedEvent {
            field: FeeField::FeeRecipient,
            fee_bps: 250,
            fee_recipient: collector,
        })]
    );
    c.refund(b32(1), buyer, 999, 0, 2_000, None).unwrap();
    assert_eq!(c.balance(collector), 25);
    assert_eq!(c.get_refund(b32(1)).unwrap().amount_refunded, 2_000);
}

#[test]
fn a_vault_that_is_its_own_merchant_cannot_collect_a_fee() {
    let mut c = setup(FLOAT, 0);
    c.fund(100);
    c.set_fee_bps(1).unwrap();
    let vault = c.address;
    c.transfer_admin(vault).unwrap();
    c.signers = vec![vault];
    c.accept_admin().unwrap();
    let buyer = c.generate();
    assert_eq!(c.refund(b32(1), buyer, 10, 0, 10, None), denied(Error::SelfTransfer));
    c.set_fee_bps(0).unwrap();
    c.refund(b32(1), buyer, 10, 0, 10, None).unwrap();
}

#[test]
fn a_claim_is_checked_on_its_own_terms() {
    let mut c = setup(FLOAT, 100);
    c.fund(1_000);
    let (buyer, vault) = (c.generate(), c.address);
    assert_eq!(c.refund(b32(1), buyer, 0, 0, 10, None), denied(Error::InvalidAmount));
    assert_eq!(c.refund(b32(1), buyer, -5, 0, 10, None), denied(Error::InvalidAmount));
    assert_eq!(c.refund(b32(1), vault, 5, 0, 10, None), denied(Error::SelfTransfer));
    assert_eq!(c.refund(b32(1), buyer, 5, 0, 0, None), denied(Error::ExceedsPayment));
    assert_eq!(c.refund(b32(1), buyer, 5, 0, -10, None), denied(Error::ExceedsPayment));
    assert_eq!(c.refund(b32(1), buyer, 11, 0, 10, None), denied(Error::ExceedsPayment));
    assert_eq!(c.refund(b32(1), buyer, 1_001, 0, 1_001, None), denied(Error::InsufficientFloat));
    assert!(c.get_refund(b32(1)).is_none());
}

#[test]
fn partial_refunds_accumulate_below_the_first_ceiling() {
    let mut c = setup(FLOAT, 100);
    c.fund(10_000);
    let (buyer, other) = (c.generate(), c.generate());

    c.refund(b32(1), buyer, 300, 5, 1_000, None).unwrap();
    c.ledger.sequence = 50;
    // The ceiling of the first refund counts, whatever is claimed later.
    assert_eq!(c.refund(b32(1), buyer, 701, 5, 5_000, None), denied(Error::ExceedsPayment));
    c.refund(b32(1), other, 700, 6, 1, None).unwrap();
    assert_eq!(
        c.get_refund(b32(1)),
        Some(RefundRecord {
            amount_refunded: 1_000,
            payment_amount: 1_000,
            paid_at_ledger: 6,
            recipient: other,
            ledger: 50,
        })
    );
    assert_eq!(c.refund(b32(1), buyer, 1, 5, 5_000, None), denied(Error::ExceedsPayment));
    assert_eq!(c.float(), 9_000);
}

#[test]
fn the_window_is_measured_from_the_payment() {
    let mut c = setup(FLOAT, 100);
    c.fund(10_000);
    let buyer = c.generate();
    c.ledger.sequence = 110;
    c.refund(b32(1), buyer, 10, 10, 100, None).unwrap();
    // A refund does not move the window.
    c.ledger.sequence = 111;
    assert_eq!(c.refund(b32(1), buyer, 10, 10, 100, None), denied(Error::WindowExpired));
    c.refund(b32(1), buyer, 10, 11, 100, None).unwrap();

    // Without a window nothing expires.
    c.apply_policy(0, 0, 0);
    c.refund(b32(2), buyer, 10, 0, 100, None).unwrap();
}

#[test]
fn the_deadline_is_the_last_second_for_claims() {
    let mut c = setup(FLOAT, 0);
    c.fund(10_000);
    c.apply_policy(0, 5_000, 0);
    assert_eq!(c.vault.get_refund_deadline(), 5_000);
    let buyer = c.generate();
    c.ledger.timestamp = 5_000;
    c.refund(b32(1), buyer, 10, 0, 100, None).unwrap();
    c.ledger.timestamp = 5_001;
    assert_eq!(c.refund(b32(1), buyer, 10, 0, 100, None), denied(Error::RefundExpired));
}

#[test]
fn a_payment_refunded_under_the_single_refund_rule_is_final() {
    let mut c = setup(FLOAT, 100);
    c.fund(10_000);
    c.vault.legacy_refunds.push(b32(9));
    let buyer = c.generate();
    assert_eq!(c.refund(b32(9), buyer, 1, 0, 100, None), denied(Error::ExceedsPayment));
    assert!(c.get_refund(b32(9)).is_none());
    c.refund(b32(8), buyer, 1, 0, 100, None).unwrap();
}

#[test]
fn record_ttl_covers_the_window() {
    let at = |sequence| Ledger {
        contract: contract(1),
        sequence,
        timestamp: 0,
        max_ttl: 3_110_400,
    };
    // Without a window, as long as the network allows.
    assert_eq!(refund_record_ttl_extend_to(&at(7), 0, 3), 3_110_400);
    // At least the usual extension.
    assert_eq!(refund_record_ttl_extend_to(&at(100), 50, 60), TTL_EXTEND);
    assert_eq!(refund_record_ttl_extend_to(&at(1_000_000), 50, 60), TTL_EXTEND);
    // Until the window has passed.
    assert_eq!(refund_record_ttl_extend_to(&at(1_000), 1_000_000, 500), 999_500);
    assert_eq!(refund_record_ttl_extend_to(&at(10), u32::MAX, u32::MAX), u32::MAX - 10);

    let mut c = setup(FLOAT, 1_000_000);
    c.fund(100);
    let buyer = c.generate();
    assert_eq!(c.extend_refund_ttl(b32(1)), denied(Error::RefundNotFound));
    c.ledger.sequence = 1_000;
    c.refund(b32(1), buyer, 10, 500, 10, None).unwrap();
    assert_eq!(c.ttl(DataKey::RefundV2(b32(1))), 999_500);
    c.extend_refund_ttl(b32(1)).unwrap();
    assert_eq!(
        c.effects,
        vec![Effect::ExtendTtl {
            key: DataKey::RefundV2(b32(1)),
            threshold: 999_500,
            extend_to: 999_500,
        }]
    );
}

#[test]
fn claim_batch_is_all_or_nothing() {
    let mut c = setup(FLOAT, 100);
    c.fund(1_000);
    let buyer = c.generate();

    assert_eq!(c.claim_batch(vec![]), Ok(()));
    assert!(c.events().is_empty());

    // The second claim of the same payment breaks the ceiling.
    let bad = vec![claim(1, buyer, 60, 100), claim(2, buyer, 10, 10), claim(1, buyer, 50, 100)];
    assert_eq!(c.claim_batch(bad), denied(Error::ExceedsPayment));
    assert!(c.get_refund(b32(1)).is_none());
    assert!(c.get_refund(b32(2)).is_none());
    assert_eq!(c.float(), 1_000);

    // The float is counted down through the batch.
    let broke = vec![claim(1, buyer, 600, 600), claim(2, buyer, 500, 500)];
    assert_eq!(c.claim_batch(broke), denied(Error::InsufficientFloat));

    let good = vec![claim(1, buyer, 60, 100), claim(2, buyer, 10, 10), claim(1, buyer, 40, 100)];
    assert_eq!(c.claim_batch(good), Ok(()));
    let totals: Vec<i128> = c
        .events()
        .iter()
        .map(|e| match e {
            Event::Refund(r) => r.cumulative_refunded,
            _ => unreachable!(),
        })
        .collect();
    assert_eq!(totals, vec![60, 10, 100]);
    assert_eq!(c.balance(buyer), 110);
    assert_eq!(c.float(), 890);

    c.pause().unwrap();
    assert_eq!(c.claim_batch(vec![]), denied(Error::Paused));
}

#[test]
fn a_batch_of_one_is_a_refund() {
    let (mut a, mut b) = (setup(FLOAT, 100), setup(FLOAT, 100));
    for c in [&mut a, &mut b] {
        c.fund(1_000);
        c.set_fee_bps(77).unwrap();
    }
    let buyer = account(0x77);
    a.refund(b32(1), buyer, 60, 0, 100, None).unwrap();
    b.claim_batch(vec![claim(1, buyer, 60, 100)]).unwrap();
    assert_eq!(a.effects, b.effects);
    assert_eq!(a.get_refund(b32(1)), b.get_refund(b32(1)));
    assert_eq!(a.float(), b.float());
}

#[test]
fn process_batch_reports_what_it_applied() {
    let mut c = setup(FLOAT, 100);
    c.fund(1_000);
    let buyer = c.generate();

    assert_eq!(c.process_batch(&vec![]), Ok(vec![]));
    assert!(c.effects.is_empty());

    let items = vec![
        param(1, buyer, 600),
        param(2, buyer, 0),
        param(3, buyer, 500),
        param(4, buyer, 400),
        param(1, buyer, 600),
    ];
    assert_eq!(c.process_batch(&items), Ok(vec![true, false, false, true, false]));
    assert_eq!(
        c.events(),
        vec![&Event::BatchRefund(BatchRefundEvent {
            payment_refs: vec![b32(1), b32(2), b32(3), b32(4), b32(1)],
            results: vec![true, false, false, true, false],
        })]
    );
    assert_eq!(c.float(), 0);
    assert_eq!(c.balance(buyer), 1_000);
    assert!(c.get_refund(b32(3)).is_none());
    assert_eq!(c.get_refund(b32(1)).unwrap().amount_refunded, 600);
}

#[test]
fn process_batch_is_capped() {
    let mut c = setup(FLOAT, 100);
    c.fund(1_000);
    let buyer = c.generate();
    assert_eq!(MAX_REFUND_BATCH_SIZE, 100);
    let mut items: Vec<RefundParam> = (0..100).map(|i| param(i, buyer, 1)).collect();
    assert_eq!(c.process_batch(&items), Ok(vec![true; 100]));
    items.push(param(200, buyer, 1));
    assert_eq!(c.process_batch(&items), denied(Error::BatchTooLarge));
    assert_eq!(c.float(), 900);
    c.pause().unwrap();
    assert_eq!(c.process_batch(&vec![]), denied(Error::Paused));
}

#[test]
fn pausing_is_reported() {
    let mut c = setup(FLOAT, 100);
    c.ledger.sequence = 42;
    c.pause().unwrap();
    assert_eq!(c.vault.is_paused(), Ok(true));
    assert_eq!(c.events(), vec![&Event::Pause(PauseEvent { ledger: 42 })]);
    c.unpause().unwrap();
    assert_eq!(c.vault.is_paused(), Ok(false));
    assert_eq!(c.events(), vec![&Event::Unpause(UnpauseEvent { ledger: 42 })]);
}

#[test]
fn the_merchant_changes_in_two_steps() {
    let mut c = setup(FLOAT, 100);
    let (old, new) = (c.merchant, c.generate());
    assert_eq!(c.accept_admin(), denied(Error::NoPendingTransfer));
    assert_eq!(c.cancel_admin_transfer(), denied(Error::NoPendingTransfer));

    c.transfer_admin(new).unwrap();
    assert_eq!(
        c.events(),
        vec![&Event::AdminTransferInitiated(AdminTransferInitiatedEvent { from: old, to: new })]
    );
    // The proposed merchant has to sign.
    assert_eq!(c.accept_admin(), denied(Error::Unauthorized));
    assert_eq!(c.vault.get_admin(), Ok(old));
    c.cancel_admin_transfer().unwrap();
    c.signers = vec![new];
    assert_eq!(c.accept_admin(), denied(Error::NoPendingTransfer));

    c.signers = vec![old];
    c.transfer_admin(new).unwrap();
    c.signers = vec![new];
    c.accept_admin().unwrap();
    assert_eq!(
        c.events(),
        vec![&Event::AdminTransferAccepted(AdminTransferAcceptedEvent { from: old, to: new })]
    );
    assert_eq!(c.vault.get_admin(), Ok(new));
    c.signers = vec![old];
    assert_eq!(c.pause(), denied(Error::Unauthorized));
}

#[test]
fn the_layout_version_only_grows() {
    let mut c = setup(FLOAT, 100);
    assert_eq!(c.migrate_state(1), denied(Error::InvalidMigrationVersion));
    c.migrate_state(3).unwrap();
    assert_eq!(c.vault.get_storage_version(), Ok(3));
    assert_eq!(c.migrate_state(3), denied(Error::InvalidMigrationVersion));
    assert_eq!(c.migrate_state(2), denied(Error::InvalidMigrationVersion));
    // A vault that stores no version has the first one.
    c.vault.storage_version = None;
    assert_eq!(c.vault.get_storage_version(), Ok(1));
    assert_eq!(c.migrate_state(1), denied(Error::InvalidMigrationVersion));
    c.migrate_state(2).unwrap();

    c.call(|v, e, _, _| v.upgrade_wasm(e, b32(0x77))).unwrap();
    assert_eq!(c.effects, vec![Effect::UpgradeWasm { wasm_hash: b32(0x77) }]);
}

#[test]
fn the_token_changes_only_while_the_vault_is_empty() {
    let mut c = setup(FLOAT, 100);
    let other = c.deploy_oracle();
    c.fund(1);
    assert_eq!(c.set_token(other), denied(Error::FloatNotEmpty));
    let merchant = c.merchant;
    c.withdraw(1, merchant).unwrap();
    c.set_token(other).unwrap();
    assert_eq!(c.vault.get_token(), Ok(other));
}

#[test]
fn a_policy_waits_for_its_timelock() {
    let mut c = setup(FLOAT, 100);
    assert_eq!(RefundVault::get_policy_timelock(), 17_280);
    assert_eq!(c.execute_policy(), denied(Error::NoPendingPolicy));

    c.ledger.sequence = 1_000;
    c.propose_policy(7, 8, 9).unwrap();
    assert_eq!(
        c.events(),
        vec![&Event::PolicyProposed(PolicyProposedEvent {
            window: 7,
            deadline: 8,
            proposed_at_ledger: 1_000,
            execute_after_ledger: 18_280,
        })]
    );
    // A later proposal starts its own timelock.
    c.ledger.sequence = 2_000;
    c.propose_policy(5, 6, 0).unwrap();
    c.ledger.sequence = 2_000 + POLICY_TIMELOCK - 1;
    assert_eq!(c.execute_policy(), denied(Error::TimelockNotExpired));
    assert_eq!(c.vault.get_refund_window(), Ok(100));
    c.ledger.sequence = 2_000 + POLICY_TIMELOCK;
    c.execute_policy().unwrap();
    assert_eq!(
        c.events(),
        vec![
            &Event::RefundWindowUpdated(RefundWindowUpdatedEvent {
                previous_window: 100,
                new_window: 5,
            }),
            &Event::PolicyExecuted(PolicyExecutedEvent { window: 5, deadline: 6 }),
        ]
    );
    assert_eq!(c.vault.get_refund_window(), Ok(5));
    assert_eq!(c.vault.get_refund_deadline(), 6);
    assert_eq!(c.execute_policy(), denied(Error::NoPendingPolicy));
}

#[test]
fn the_median_averages_from_the_lower_middle_and_ignores_order() {
    assert_eq!(median(&mut vec![5]), 5);
    assert_eq!(median(&mut vec![3, 1, 2]), 2);
    assert_eq!(median(&mut vec![2, 3, 1]), 2);
    assert_eq!(median(&mut vec![1, 2]), 1);
    assert_eq!(median(&mut vec![-1, -2]), -2);
    assert_eq!(median(&mut vec![i128::MAX, i128::MIN, 0]), 0);
    assert_eq!(median(&mut vec![7, 7, 7, 1_000_000, -1_000_000]), 7);
}

#[test]
fn an_unknown_feed_reads_as_zero_and_is_stale() {
    let mut c = setup(FLOAT, 100);
    c.ledger.sequence = 50;
    let oracle = c.deploy_oracle();
    c.add_oracle(oracle).unwrap();
    assert_eq!(c.median_price(0), Ok(0));
    assert_eq!(c.median_price(50), Ok(0));
    assert_eq!(c.median_price(49), Err(Error::StaleOracleData));
    // The last oracle gone, the whitelist is empty but present.
    c.remove_oracle(oracle).unwrap();
    assert_eq!(c.median_price(0), Err(Error::NoOraclesConfigured));
}

#[test]
fn the_yield_goes_with_the_principal() {
    let mut c = setup_with_strategy(0, 10_000);
    c.fund(1_000);
    c.deploy_to_yield(300).unwrap();
    c.simulate_yield(100);
    c.withdraw_from_yield(100).unwrap();
    assert_eq!(
        c.events(),
        vec![&Event::YieldWithdrawn(YieldWithdrawnEvent {
            strategy: c.strategy.contract,
            principal: 100,
            yield_amount: 33,
        })]
    );
    c.withdraw_from_yield(200).unwrap();
    // Whoever withdraws last gets what rounding left.
    assert_eq!(c.yield_info().harvested_yield, 100);
    assert_eq!(c.float(), 1_100);
    assert_eq!(c.strategy.total_deposited, 0);
    assert_eq!(c.strategy.accrued_yield(), 0);
    assert_eq!(c.withdraw_from_yield(1), denied(Error::NothingToWithdraw));
}

#[test]
fn a_deployment_keeps_its_ratios() {
    let mut c = setup_with_strategy(2_500, 5_000);
    c.fund(1_000);
    // Deployed principal counts toward the total.
    c.deploy_to_yield(500).unwrap();
    assert_eq!(c.deploy_to_yield(1), denied(Error::DeploymentExceedsMax));
    c.set_max_deploy_ratio(10_000).unwrap();
    assert_eq!(c.deploy_to_yield(251), denied(Error::InsufficientReserve));
    c.deploy_to_yield(250).unwrap();
    assert_eq!(c.float(), 250);
    assert_eq!(c.balance(c.strategy.contract), FLOAT + 750);
    assert_eq!(c.strategy.total_deposited, 750);
}

#[test]
fn only_the_vault_lets_yield_accrue() {
    let mut s = MockYieldStrategy::new(contract(1));
    s.initialize(contract(2), contract(3));
    assert_eq!(s.simulate_yield(contract(4), 5), Err(StrategyError::Unauthorized));
    assert_eq!(s.accrued_yield(), 0);
    assert_eq!(s.simulate_yield(contract(3), 5), Ok(()));
    assert_eq!(s.accrued_yield(), 5);
    assert_eq!(s.deposit(0), Err(Error::InvalidAmount));
    assert_eq!(s.withdraw(1), Err(Error::NothingToWithdraw));
}

#[test]
fn a_transfer_moves_tokens_between_two_holders() {
    let mut t = MockSep41Token::new();
    t.initialize(account(1), 2);
    t.mint(account(2), 10);
    t.mint(account(4), 3);
    t.transfer(account(2), account(3), 4);
    assert_eq!(t.balance(account(2)), 6);
    assert_eq!(t.balance(account(3)), 4);
    assert_eq!(t.balance(account(4)), 3);
}

#[test]
fn guarded_calls_leave_the_lock_as_they_found_it() {
    let mut c = setup_with_strategy(0, 10_000);
    c.fund(1_000);
    let buyer = c.generate();
    assert_eq!(c.refund(b32(1), buyer, 0, 0, 1, None), denied(Error::InvalidAmount));
    assert!(!c.vault.reentrancy_lock);
    c.vault.reentrancy_lock = true;
    assert_eq!(c.claim_batch(vec![]), denied(Error::ReentrancyBlocked));
    assert_eq!(c.withdraw_from_yield(1), denied(Error::ReentrancyBlocked));
    assert_eq!(c.harvest_yield(), denied(Error::ReentrancyBlocked));
    assert!(c.vault.reentrancy_lock);
}

#[test]
fn miller_rabin_agrees_with_trial_division() {
    for n in (0u128..4).chain((5..6_000).step_by(2)) {
        let prime = n > 1 && (2..n).take_while(|d| d * d <= n).all(|d| n % d != 0);
        assert_eq!(vdf::miller_rabin(n), prime);
    }
}

#[test]
fn miller_rabin_on_large_numbers() {
    // Mersenne primes, and the largest prime below 2^128.
    assert!(vdf::miller_rabin((1 << 61) - 1));
    assert!(vdf::miller_rabin((1 << 127) - 1));
    assert!(vdf::miller_rabin(u128::MAX - 158));
    // A Carmichael number, strong pseudoprimes to the first bases, a square.
    assert!(!vdf::miller_rabin(561));
    assert!(!vdf::miller_rabin(3_215_031_751));
    assert!(!vdf::miller_rabin(3_825_123_056_546_413_051));
    assert!(!vdf::miller_rabin(((1 << 61) - 1) * ((1 << 61) - 1)));
    assert!(!vdf::miller_rabin(u128::MAX));
}

#[test]
fn the_challenge_prime_depends_on_the_whole_transcript() {
    let (x, y) = ([1u8; 128], [2u8; 128]);
    let ell = vdf::derive_challenge(&x, &y, 5);
    assert!(vdf::miller_rabin(ell));
    assert_ne!(ell, vdf::derive_challenge(&x, &y, 6));
    assert_ne!(ell, vdf::derive_challenge(&y, &x, 5));

    // The first prime from the high half of the digest on, made odd.
    let mut transcript = Vec::new();
    transcript.extend_from_slice(&x);
    transcript.extend_from_slice(&y);
    transcript.extend_from_slice(&5u32.to_be_bytes());
    let digest = Sha256::digest(&transcript);
    let mut head = [0u8; 16];
    head.copy_from_slice(&digest[..16]);
    let start = u128::from_be_bytes(head) | 1;
    assert!(ell >= start);
    assert!(((start..ell).step_by(2)).all(|n| !vdf::miller_rabin(n)));
}

/// Whether the vault's effects move tokens and call the strategy only while the flag is
/// set, and clear it in the end.
fn calls_out_under_lock(effects: &[Effect]) -> bool {
    let mut held = false;
    for effect in effects {
        match effect {
            Effect::SetReentrancyLock(h) => held = *h,
            Effect::Transfer { .. } | Effect::StrategyDeposit { .. } if !held => return false,
            _ => {}
        }
    }
    !held
}

fn claim_of(payment: u8, recipient: Address, amount: i128, payment_amount: i128) -> RefundClaim {
    RefundClaim {
        payment_ref: b32(payment),
        recipient,
        amount,
        paid_at_ledger: 0,
        payment_amount,
        vdf_proof: None,
    }
}

#[test]
fn guarded_calls_move_tokens_under_the_flag() {
    let mut c = setup_with_strategy(0, 10_000);
    let buyer = c.generate();
    c.set_fee_bps(100).unwrap();
    c.fund(1_000);
    assert!(calls_out_under_lock(&c.effects));
    c.refund(b32(1), buyer, 100, 0, 100, None).unwrap();
    assert_eq!(c.effects[0], Effect::SetReentrancyLock(true));
    assert!(calls_out_under_lock(&c.effects));
    c.claim_batch(vec![claim_of(2, buyer, 10, 50), claim_of(2, buyer, 20, 50)]).unwrap();
    assert_eq!(c.effects.iter().filter(|e| matches!(e, Effect::Transfer { .. })).count(), 4);
    assert!(calls_out_under_lock(&c.effects));
    c.withdraw(100, buyer).unwrap();
    assert!(calls_out_under_lock(&c.effects));
    c.deploy_to_yield(200).unwrap();
    assert!(calls_out_under_lock(&c.effects));
    c.claim_batch(vec![]).unwrap();
    assert_eq!(
        c.effects,
        vec![Effect::SetReentrancyLock(true), Effect::SetReentrancyLock(false)]
    );
}

/// A strategy that notes whether the vault's flag is set when it is called.
struct Watcher {
    seen: Vec<bool>,
}

impl YieldStrategy for Watcher {
    type Model = ();

    fn deposit(&mut self, vault: &RefundVault, _: Address, _: i128) -> Result<(), Error> {
        self.seen.push(vault.reentrancy_lock);
        Ok(())
    }

    fn withdraw(
        &mut self,
        vault: &RefundVault,
        _: Address,
        principal: i128,
    ) -> Result<(i128, i128), Error> {
        self.seen.push(vault.reentrancy_lock);
        Ok((principal, 1))
    }

    fn harvest(&mut self, vault: &RefundVault, _: Address) -> Result<i128, Error> {
        self.seen.push(vault.reentrancy_lock);
        Ok(2)
    }

    fn total_balance(&self, _: Address) -> i128 {
        0
    }

    fn accrued_yield(&self, _: Address) -> i128 {
        0
    }
}

#[test]
fn the_strategy_runs_while_the_flag_is_set() {
    let mut c = setup_with_strategy(0, 10_000);
    c.fund(1_000);
    c.deploy_to_yield(300).unwrap();
    let mut watcher = Watcher { seen: Vec::new() };
    let mut env = c.env();
    c.vault.withdraw_from_yield(&mut env, &mut watcher, 100).unwrap();
    c.vault.harvest_yield(&mut env, &mut watcher).unwrap();
    assert_eq!(watcher.seen, vec![true, true]);
    assert!(!c.vault.reentrancy_lock);
    assert_eq!(c.yield_info().harvested_yield, 3);
    assert_eq!(c.yield_info().deployed_principal, 200);
    assert_eq!(env.effects[0], Effect::SetReentrancyLock(true));
    assert_eq!(env.effects.last(), Some(&Effect::SetReentrancyLock(false)));
}

#[test]
fn a_refused_guarded_call_asks_for_nothing() {
    let mut c = setup_with_strategy(0, 10_000);
    let mut env = c.env();
    env.effects.push(Effect::UpgradeWasm { wasm_hash: b32(1) });
    let (merchant, buyer) = (c.merchant, c.generate());
    assert_eq!(c.vault.deposit(&mut env, merchant, 0), Err(Error::InvalidAmount));
    assert_eq!(c.vault.withdraw(&mut env, 1, buyer), Err(Error::InsufficientFloat));
    assert_eq!(c.vault.harvest_yield(&mut env, &mut c.strategy), Err(Error::NothingToHarvest));
    assert_eq!(env.effects, vec![Effect::UpgradeWasm { wasm_hash: b32(1) }]);
}

#[test]
fn refunds_add_up_over_all_kinds_of_calls() {
    let mut c = setup(FLOAT, 17_280);
    let buyer = c.generate();
    c.fund(1_000);
    c.refund(b32(1), buyer, 100, 0, 500, None).unwrap();
    c.withdraw(50, buyer).unwrap();
    // A later claim with another ceiling counts toward the first one.
    c.claim_batch(vec![claim_of(1, buyer, 150, 9_000), claim_of(2, buyer, 7, 7)]).unwrap();
    c.pause().unwrap();
    assert_eq!(c.refund(b32(1), buyer, 1, 0, 500, None), denied(Error::Paused));
    c.unpause().unwrap();
    let item = |amount| RefundParam {
        payment_ref: b32(1),
        recipient: buyer,
        amount,
        paid_at_ledger: 0,
        payment_amount: 500,
        vdf_proof: None,
    };
    assert_eq!(c.process_batch(&vec![item(200), item(51), item(50)]).unwrap(), [true, false, true]);
    let record = c.get_refund(b32(1)).unwrap();
    assert_eq!(record.amount_refunded, 100 + 150 + 200 + 50);
    assert_eq!(record.payment_amount, 500);
    assert_eq!(c.get_refund(b32(2)).unwrap().amount_refunded, 7);
    assert_eq!(c.get_refund(b32(3)), None);
    assert_eq!(c.refund(b32(1), buyer, 1, 0, 500, None), denied(Error::ExceedsPayment));
    // The float is what came in less what went out.
    assert_eq!(c.float(), 1_000 - (500 + 7) - 50);
}

#[test]
fn yield_keeps_the_total_value() {
    let mut c = setup_with_strategy(0, 10_000);
    let buyer = c.generate();
    let total = |c: &Client| {
        c.float() + c.yield_info().deployed_principal - c.yield_info().harvested_yield
    };
    c.fund(1_000);
    c.deploy_to_yield(600).unwrap();
    assert_eq!(total(&c), 1_000);
    c.simulate_yield(90);
    c.withdraw_from_yield(200).unwrap();
    assert_eq!(total(&c), 1_000);
    assert_eq!(c.float(), 400 + 200 + 30);
    c.refund(b32(1), buyer, 40, 0, 40, None).unwrap();
    assert_eq!(total(&c), 960);
    c.harvest_yield().unwrap();
    assert_eq!(total(&c), 960);
    // Nothing is accrued after a harvest, and the principal can still be asked back.
    assert_eq!(c.strategy.accrued_yield(), 0);
    assert_eq!(c.harvest_yield(), denied(Error::NothingToHarvest));
    c.withdraw_from_yield(400).unwrap();
    assert_eq!(total(&c), 960);
    assert_eq!(c.yield_info().deployed_principal, 0);
    assert_eq!(c.yield_info().harvested_yield, 90);
    assert_eq!(c.float(), 1_050);
}

/// The vault as another contract finds it while one of its calls runs: the entries that
/// are stored, with the flag as the effects performed so far have left it.
fn found(v: &RefundVault, locked: bool) -> RefundVault {
    RefundVault {
        admin: v.admin,
        token: v.token,
        refund_window: v.refund_window,
        refund_deadline: v.refund_deadline,
        vdf_delay: v.vdf_delay,
        fee_bps: v.fee_bps,
        fee_recipient: v.fee_recipient,
        refunds: v.refunds.duplicate(),
        legacy_refunds: v.legacy_refunds.clone(),
        paused: v.paused,
        pending_admin: v.pending_admin,
        yield_strategy: v.yield_strategy,
        deployed_principal: v.deployed_principal,
        harvested_yield: v.harvested_yield,
        reserve_ratio: v.reserve_ratio,
        max_deploy_ratio: v.max_deploy_ratio,
        pending_policy: v.pending_policy,
        oracles: v.oracles.clone(),
        oracle_policy: v.oracle_policy,
        reentrancy_lock: locked,
        storage_version: v.storage_version,
    }
}

/// The stored flag once the effects before `effect` of the latest call are performed.
fn lock_at(c: &Client, effect: fn(&Effect) -> bool) -> bool {
    let at = c.effects.iter().position(effect).unwrap();
    c.effects[..at]
        .iter()
        .rev()
        .find_map(|e| match e {
            Effect::SetReentrancyLock(held) => Some(*held),
            _ => None,
        })
        .unwrap_or(false)
}

fn is_transfer(effect: &Effect) -> bool {
    matches!(effect, Effect::Transfer { .. })
}

/// A vault whose whole float is deposited.
fn setup_funded(float: i128) -> Client {
    let mut c = setup(float, 100);
    c.fund(float);
    c
}

#[test]
fn test_reentrant_refund_same_payment_ref_is_blocked() {
    let mut c = setup_funded(1_000_000);
    let buyer = c.generate();
    let amount = 100_000;
    c.refund(b32(1), buyer, amount, 0, amount, None).unwrap();

    // The token calls back while it transfers.
    let mut inner = found(&c.vault, lock_at(&c, is_transfer));
    let mut env = c.env();
    let again = inner.refund(&mut env, &c.feeds, b32(1), buyer, amount, 0, amount, None);
    assert_eq!(again, Err(Error::ReentrancyBlocked));
    assert!(env.effects.is_empty());

    assert_eq!(c.balance(buyer), amount);
    assert_eq!(c.float(), 1_000_000 - amount);
    assert_eq!(c.get_refund(b32(1)).unwrap().amount_refunded, amount);
}

#[test]
fn test_reentrant_refund_other_payment_ref_is_blocked() {
    let mut c = setup_funded(1_000_000);
    let buyer = c.generate();
    let amount = 50_000;
    c.refund(b32(3), buyer, amount, 0, amount, None).unwrap();

    let mut inner = found(&c.vault, lock_at(&c, is_transfer));
    let mut env = c.env();
    let other = inner.refund(&mut env, &c.feeds, b32(4), buyer, amount, 0, amount, None);
    assert_eq!(other, Err(Error::ReentrancyBlocked));
    assert!(inner.get_refund(b32(4)).is_none());
    assert!(c.get_refund(b32(4)).is_none());
    assert_eq!(c.float(), 1_000_000 - amount);
}

#[test]
fn test_reentrant_withdraw_during_refund_is_blocked() {
    let mut c = setup_funded(1_000_000);
    let (buyer, merchant) = (c.generate(), c.merchant);
    let amount = 25_000;
    c.refund(b32(5), buyer, amount, 0, amount, None).unwrap();

    let mut inner = found(&c.vault, lock_at(&c, is_transfer));
    let mut env = c.env();
    assert_eq!(inner.withdraw(&mut env, amount, merchant), Err(Error::ReentrancyBlocked));
    assert!(env.effects.is_empty());
    assert_eq!(c.float(), 1_000_000 - amount);
}

/// A strategy that calls back into the vault before it does what it was asked.
struct Intruder {
    inner: MockYieldStrategy,
    env: Env,
    amount: i128,
    answers: Vec<Result<(), Error>>,
}

impl YieldStrategy for Intruder {
    type Model = ();

    fn deposit(&mut self, vault: &RefundVault, _: Address, amount: i128) -> Result<(), Error> {
        let mut entered = found(vault, vault.reentrancy_lock);
        self.answers.push(entered.deploy_to_yield(&mut self.env, self.amount));
        self.inner.deposit(amount)
    }

    fn withdraw(
        &mut self,
        vault: &RefundVault,
        _: Address,
        principal: i128,
    ) -> Result<(i128, i128), Error> {
        let mut entered = found(vault, vault.reentrancy_lock);
        let answer = entered.withdraw_from_yield(&mut self.env, &mut self.inner, self.amount);
        self.answers.push(answer);
        self.inner.withdraw(principal)
    }

    fn harvest(&mut self, vault: &RefundVault, _: Address) -> Result<i128, Error> {
        let mut entered = found(vault, vault.reentrancy_lock);
        self.answers.push(entered.harvest_yield(&mut self.env, &mut self.inner));
        self.inner.harvest()
    }

    fn total_balance(&self, _: Address) -> i128 {
        self.inner.total_balance()
    }

    fn accrued_yield(&self, _: Address) -> i128 {
        self.inner.accrued_yield()
    }
}

/// A vault with a float of ten million whose strategy holds as much.
fn setup_with_intruder(deployed: i128, amount: i128) -> (Client, Intruder) {
    let mut c = setup_with_strategy(1000, 9000);
    c.fund(10_000_000);
    if deployed > 0 {
        c.deploy_to_yield(deployed).unwrap();
    }
    let (address, token) = (c.strategy.contract, c.token_id);
    let env = c.env();
    let mut inner = MockYieldStrategy::new(address);
    inner.initialize(token, c.address);
    inner.float = c.balance(address);
    inner.total_deposited = deployed;
    (c, Intruder { inner, env, amount, answers: Vec::new() })
}

#[test]
fn test_reentrant_deploy_to_yield_is_blocked() {
    let (mut c, mut intruder) = setup_with_intruder(0, 500_000);
    c.deploy_to_yield(1_000_000).unwrap();

    // The strategy calls back when it is told of the deposit.
    let locked = lock_at(&c, |e| matches!(e, Effect::StrategyDeposit { .. }));
    let strategy = c.strategy.contract;
    intruder.deposit(&found(&c.vault, locked), strategy, 1_000_000).unwrap();
    assert_eq!(intruder.answers, vec![Err(Error::ReentrancyBlocked)]);
    assert!(intruder.env.effects.is_empty());
    assert_eq!(c.yield_info().deployed_principal, 1_000_000);
}

#[test]
fn test_reentrant_withdraw_from_yield_is_blocked() {
    let (mut c, mut intruder) = setup_with_intruder(2_000_000, 2_000_000);
    let mut env = c.env();
    c.vault.withdraw_from_yield(&mut env, &mut intruder, 1_000_000).unwrap();
    assert_eq!(intruder.answers, vec![Err(Error::ReentrancyBlocked)]);
    assert_eq!(c.yield_info().deployed_principal, 1_000_000);
    assert_eq!(intruder.inner.total_deposited, 1_000_000);
}

#[test]
fn test_reentrant_harvest_yield_is_blocked() {
    let (mut c, mut intruder) = setup_with_intruder(2_000_000, 0);
    intruder.inner.simulate_yield(c.address, 100_000).unwrap();
    let mut env = c.env();
    c.vault.harvest_yield(&mut env, &mut intruder).unwrap();
    assert_eq!(intruder.answers, vec![Err(Error::ReentrancyBlocked)]);
    assert_eq!(c.yield_info().harvested_yield, 100_000);
    assert_eq!(intruder.inner.accrued_yield(), 0);
}

#[test]
fn a_refused_yield_call_leaves_the_strategy_alone() {
    let mut c = setup_with_strategy(0, 10_000);
    c.fund(1_000);
    c.deploy_to_yield(300).unwrap();
    // More is booked than the strategy holds.
    c.strategy.total_deposited = 200;
    assert_eq!(c.withdraw_from_yield(250), denied(Error::NothingToWithdraw));
    assert_eq!(c.harvest_yield(), denied(Error::NothingToHarvest));
    assert_eq!(c.strategy.total_deposited, 200);
    assert_eq!(c.yield_info().deployed_principal, 300);
}

#[test]
fn well_formed_vaults_are_told_apart() {
    let mut c = setup(FLOAT, 100);
    assert!(RefundVault::new().is_well_formed());
    assert!(c.vault.is_well_formed());
    let buyer = c.generate();
    c.fund(100);
    c.refund(b32(1), buyer, 60, 0, 100, None).unwrap();
    assert!(c.vault.is_well_formed());

    let mut v = found(&c.vault, false);
    v.token = None;
    assert!(!v.is_well_formed());
    let mut v = found(&c.vault, false);
    v.fee_bps = 10_001;
    assert!(!v.is_well_formed());
    let mut v = found(&c.vault, false);
    v.oracles = Some(vec![contract(1), contract(2), contract(1)]);
    assert!(!v.is_well_formed());
    let mut v = found(&c.vault, false);
    let record = v.get_refund(b32(1)).unwrap();
    v.refunds.set(b32(1), RefundRecord { amount_refunded: 101, ..record });
    assert!(!v.is_well_formed());
    let mut v = RefundVault::new();
    v.pending_admin = Some(buyer);
    assert!(!v.is_well_formed());
}
