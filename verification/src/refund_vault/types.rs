//! Records, events and stored state of the vault.

use super::history;
use super::history::Booking;
use super::oracle::OraclePolicy;
use crate::error::Error;
use crate::primitives;
use crate::primitives::{Address, BytesN, Ledger, Table};
use vstd::prelude::*;

verus! {

/// About 30 days of ledgers at 5 seconds each: how far a time to live is extended.
pub const TTL_EXTEND: u32 = 518_400;

/// Remaining time to live below which the instance is extended.
pub const TTL_THRESHOLD: u32 = 100;

/// Ledgers between the proposal of a policy and its execution, about 24 hours.
pub const POLICY_TIMELOCK: u32 = 17_280;

/// Largest number of refunds in one `process_batch` call.
pub const MAX_REFUND_BATCH_SIZE: u32 = 100;

/// Basis points in a whole.
pub const BASIS_POINTS: u32 = 10_000;

/// Layout version of a freshly initialized vault, and of one that stores none.
pub const INITIAL_STORAGE_VERSION: u32 = 1;

/// One refund of a [`process_batch`](super::RefundVault::process_batch) call.
#[derive(Clone, Copy, Debug, PartialEq, Eq)]
pub struct RefundParam {
    pub payment_ref: BytesN<32>,
    pub recipient: Address,
    pub amount: i128,
    pub paid_at_ledger: u32,
    pub payment_amount: i128,
    /// Delay proof: 128 bytes of output, then 128 bytes of witness.
    pub vdf_proof: Option<BytesN<256>>,
}

/// One refund claim, as passed to [`refund`](super::RefundVault::refund) and in
/// [`claim_batch`](super::RefundVault::claim_batch).
#[derive(Clone, Copy, Debug, PartialEq, Eq)]
pub struct RefundClaim {
    pub payment_ref: BytesN<32>,
    pub recipient: Address,
    /// Amount to refund, before any fee is deducted.
    pub amount: i128,
    /// Ledger of the original payment; the window is measured from here.
    pub paid_at_ledger: u32,
    /// The original payment: the ceiling on cumulative refunds.
    pub payment_amount: i128,
    /// Delay proof: 128 bytes of output, then 128 bytes of witness.
    pub vdf_proof: Option<BytesN<256>>,
}

/// Names of the stored entries.
#[derive(Clone, Copy, Debug, PartialEq, Eq)]
pub enum DataKey {
    Admin,
    Token,
    RefundWindow,
    RefundDeadline,
    VdfDelay,
    FeeBps,
    FeeRecipient,
    /// Cumulative refund record of a payment.
    RefundV2(BytesN<32>),
    /// Record of the single-refund rule: the payment was refunded in full.
    Refund(BytesN<32>),
    IsPaused,
    PendingAdmin,
    YieldStrategy,
    DeployedPrincipal,
    HarvestedYield,
    ReserveRatio,
    MaxDeployRatio,
    PendingPolicy,
    Oracles,
    OraclePolicy,
    ReentrancyLock,
    StorageVersion,
}

/// What has been refunded of a payment.
#[derive(Clone, Copy, Debug, PartialEq, Eq)]
pub struct RefundRecord {
    /// Total refunded so far.
    pub amount_refunded: i128,
    /// The original payment: the ceiling on `amount_refunded`.
    pub payment_amount: i128,
    /// Ledger of the original payment.
    pub paid_at_ledger: u32,
    pub recipient: Address,
    /// Ledger of the latest refund.
    pub ledger: u32,
}

/// A policy change that waits for its timelock.
#[derive(Clone, Copy, Debug, PartialEq, Eq)]
pub struct PolicyProposal {
    /// Refund window in ledgers; 0 means no bound.
    pub window: u32,
    /// Unix timestamp after which claims are refused; 0 means no deadline.
    pub deadline: u64,
    /// Squarings that a claim must prove; 0 means no proof.
    pub vdf_delay: u32,
    pub proposed_at_ledger: u32,
}

/// State of the yield deployment.
#[derive(Clone, Copy, Debug, PartialEq, Eq)]
pub struct YieldInfo {
    pub deployed_principal: i128,
    pub harvested_yield: i128,
    pub strategy: Option<Address>,
    pub reserve_ratio: u32,
    pub max_deploy_ratio: u32,
}

/// A delay proof: the claimed output and its witness, big-endian.
#[derive(Clone, Copy, Debug, PartialEq, Eq)]
pub struct VdfProof {
    pub output: BytesN<128>,
    pub proof: BytesN<128>,
}

/// A refund was made.
#[derive(Clone, Copy, Debug, PartialEq, Eq)]
pub struct RefundEvent {
    pub payment_ref: BytesN<32>,
    /// Amount of this refund, before the fee.
    pub amount: i128,
    /// Part of `amount` that went to the fee recipient.
    pub fee: i128,
    /// Running total for the payment.
    pub cumulative_refunded: i128,
    pub recipient: Address,
    pub ledger: u32,
}

/// A best-effort batch was processed.
#[derive(Debug, PartialEq, Eq)]
pub struct BatchRefundEvent {
    pub payment_refs: Vec<BytesN<32>>,
    pub results: Vec<bool>,
}

/// Which part of the fee configuration changed.
#[derive(Clone, Copy, Debug, PartialEq, Eq)]
pub enum FeeField {
    FeeBps,
    FeeRecipient,
}

/// The fee configuration changed; the effective configuration afterwards.
#[derive(Clone, Copy, Debug, PartialEq, Eq)]
pub struct FeeConfigUpdatedEvent {
    pub field: FeeField,
    pub fee_bps: u32,
    pub fee_recipient: Address,
}

/// Float was added.
#[derive(Clone, Copy, Debug, PartialEq, Eq)]
pub struct DepositEvent {
    pub from: Address,
    pub amount: i128,
}

/// The vault was paused.
#[derive(Clone, Copy, Debug, PartialEq, Eq)]
pub struct PauseEvent {
    pub ledger: u32,
}

/// The vault was resumed.
#[derive(Clone, Copy, Debug, PartialEq, Eq)]
pub struct UnpauseEvent {
    pub ledger: u32,
}

/// Float was withdrawn.
#[derive(Clone, Copy, Debug, PartialEq, Eq)]
pub struct WithdrawEvent {
    pub to: Address,
    pub amount: i128,
}

/// An admin transfer was proposed.
#[derive(Clone, Copy, Debug, PartialEq, Eq)]
pub struct AdminTransferInitiatedEvent {
    pub from: Address,
    pub to: Address,
}

/// An admin transfer was accepted.
#[derive(Clone, Copy, Debug, PartialEq, Eq)]
pub struct AdminTransferAcceptedEvent {
    pub from: Address,
    pub to: Address,
}

/// Float was deployed to the strategy.
#[derive(Clone, Copy, Debug, PartialEq, Eq)]
pub struct YieldDeployedEvent {
    pub strategy: Address,
    pub amount: i128,
}

/// Principal came back from the strategy.
#[derive(Clone, Copy, Debug, PartialEq, Eq)]
pub struct YieldWithdrawnEvent {
    pub strategy: Address,
    pub principal: i128,
    pub yield_amount: i128,
}

/// Yield was harvested.
#[derive(Clone, Copy, Debug, PartialEq, Eq)]
pub struct YieldHarvestedEvent {
    pub amount: i128,
}

/// A policy was proposed.
#[derive(Clone, Copy, Debug, PartialEq, Eq)]
pub struct PolicyProposedEvent {
    pub window: u32,
    pub deadline: u64,
    pub proposed_at_ledger: u32,
    pub execute_after_ledger: u32,
}

/// The refund window was replaced.
#[derive(Clone, Copy, Debug, PartialEq, Eq)]
pub struct RefundWindowUpdatedEvent {
    pub previous_window: u32,
    pub new_window: u32,
}

/// A policy was executed.
#[derive(Clone, Copy, Debug, PartialEq, Eq)]
pub struct PolicyExecutedEvent {
    pub window: u32,
    pub deadline: u64,
}

/// An oracle policy was installed.
#[derive(Clone, Copy, Debug, PartialEq, Eq)]
pub struct OraclePolicySetEvent {
    pub feed_id: BytesN<32>,
    pub threshold: i128,
    pub refund_when_below: bool,
    pub max_staleness_ledgers: u32,
}

/// The oracle policy was removed.
#[derive(Clone, Copy, Debug, PartialEq, Eq)]
pub struct OraclePolicyClearedEvent {
    pub feed_id: BytesN<32>,
}

/// What the vault publishes.
#[derive(Debug, PartialEq, Eq)]
pub enum Event {
    Refund(RefundEvent),
    BatchRefund(BatchRefundEvent),
    FeeConfigUpdated(FeeConfigUpdatedEvent),
    Deposit(DepositEvent),
    Pause(PauseEvent),
    Unpause(UnpauseEvent),
    Withdraw(WithdrawEvent),
    AdminTransferInitiated(AdminTransferInitiatedEvent),
    AdminTransferAccepted(AdminTransferAcceptedEvent),
    YieldDeployed(YieldDeployedEvent),
    YieldWithdrawn(YieldWithdrawnEvent),
    YieldHarvested(YieldHarvestedEvent),
    PolicyProposed(PolicyProposedEvent),
    RefundWindowUpdated(RefundWindowUpdatedEvent),
    PolicyExecuted(PolicyExecutedEvent),
    OraclePolicySet(OraclePolicySetEvent),
    OraclePolicyCleared(OraclePolicyClearedEvent),
}

/// What a call asks of the host, in order.
#[derive(Debug, PartialEq, Eq)]
pub enum Effect {
    /// Set or clear the stored reentrancy flag.
    SetReentrancyLock(bool),
    /// Move tokens; the contract itself, or a signer, authorizes as `from`.
    Transfer { token: Address, from: Address, to: Address, amount: i128 },
    /// Tell the strategy that `amount` tokens were sent to it.
    StrategyDeposit { strategy: Address, amount: i128 },
    /// Extend the instance to `extend_to` ledgers if fewer than `threshold` are left.
    ExtendInstanceTtl { threshold: u32, extend_to: u32 },
    /// Extend a persistent entry to `extend_to` ledgers if fewer than `threshold` are
    /// left.
    ExtendTtl { key: DataKey, threshold: u32, extend_to: u32 },
    /// Replace the contract's code.
    UpgradeWasm { wasm_hash: BytesN<32> },
    /// Publish an event.
    Publish(Event),
}

/// The surroundings of a call: the ledger, who signed, and what the call asks of the
/// host.
#[derive(Debug)]
pub struct Env {
    pub ledger: Ledger,
    /// The addresses that authorized the call.
    pub signers: Vec<Address>,
    /// The vault's balance in the settlement token: what the token reported at the
    /// start of the call, moved by the transfers in `effects`.
    pub float: i128,
    /// What the call asks of the host, in order.
    pub effects: Vec<Effect>,
}

impl Env {
    /// Whether `who` authorized the call.
    pub open spec fn signed_by(self, who: Address) -> bool {
        self.signers@.contains(who)
    }

    /// `post` sees the same ledger; the call has left a float of `float` and asked
    /// for `effects`.
    pub open spec fn advanced(self, post: Env, float: int, effects: Seq<Effect>) -> bool {
        &&& post.ledger == self.ledger
        &&& post.signers@ == self.signers@
        &&& post.float == float
        &&& post.effects@ == self.effects@ + effects
    }

    /// `post` is as if the call had not been made.
    pub open spec fn unchanged(self, post: Env) -> bool {
        self.advanced(post, self.float as int, Seq::empty())
    }

    /// Whether `who` authorized the call.
    pub fn is_signed_by(&self, who: Address) -> (r: bool)
        ensures
            r == self.signed_by(who),
    {
        let mut i: usize = 0;
        while i < self.signers.len()
            invariant
                i <= self.signers.len(),
                forall|k: int| 0 <= k < i ==> self.signers@[k] != who,
            decreases self.signers.len() - i,
        {
            if self.signers[i] == who {
                assert(self.signers@[i as int] == who);
                return true;
            }
            i = i + 1;
        }
        false
    }

    /// Asks for one more effect.
    pub(crate) fn ask(&mut self, effect: Effect)
        ensures
            old(self).advanced(*final(self), old(self).float as int, seq![effect]),
    {
        self.effects.push(effect);
        assert(self.effects@ =~= old(self).effects@ + seq![effect]);
    }

    /// Publishes an event.
    pub(crate) fn publish(&mut self, event: Event)
        ensures
            old(self).advanced(*final(self), old(self).float as int, seq![Effect::Publish(event)]),
    {
        self.ask(Effect::Publish(event));
    }

    /// Keeps the instance alive.
    pub(crate) fn renew_instance(&mut self)
        ensures
            old(self).advanced(*final(self), old(self).float as int, seq![renewal()]),
    {
        self.ask(Effect::ExtendInstanceTtl { threshold: TTL_THRESHOLD, extend_to: TTL_EXTEND });
    }
}

/// The effect that keeps the instance alive.
pub open spec fn renewal() -> Effect {
    Effect::ExtendInstanceTtl { threshold: TTL_THRESHOLD, extend_to: TTL_EXTEND }
}

/// The effects of a guarded call: the reentrancy flag is set before the first of them and
/// cleared after the last.
pub open spec fn under_lock(effects: Seq<Effect>) -> Seq<Effect> {
    seq![Effect::SetReentrancyLock(true)] + effects + seq![Effect::SetReentrancyLock(false)]
}

/// What the flag adds around any effects.
pub proof fn lemma_guarded_effects(before: Seq<Effect>)
    ensures
        forall|effects: Seq<Effect>|
            #![trigger before + seq![Effect::SetReentrancyLock(true)] + effects]
            before + seq![Effect::SetReentrancyLock(true)] + effects
                + seq![Effect::SetReentrancyLock(false)] == before + under_lock(effects),
        (before + seq![Effect::SetReentrancyLock(true)] + Seq::<Effect>::empty()).drop_last()
            == before + Seq::<Effect>::empty(),
{
    assert forall|effects: Seq<Effect>|
        #![trigger before + seq![Effect::SetReentrancyLock(true)] + effects]
        before + seq![Effect::SetReentrancyLock(true)] + effects
            + seq![Effect::SetReentrancyLock(false)] == before + under_lock(effects) by {
        assert(before + seq![Effect::SetReentrancyLock(true)] + effects
            + seq![Effect::SetReentrancyLock(false)] =~= before + under_lock(effects));
    }
    assert((before + seq![Effect::SetReentrancyLock(true)] + Seq::<Effect>::empty()).drop_last()
        =~= before + Seq::<Effect>::empty());
}

/// What a call does: if there is an `error`, it returns that error and leaves no
/// trace; otherwise it leaves the vault as `next` and the float at `float`, and asks
/// for `effects`. Either way the stored entries evolve as [`VaultState::evolves_to`]
/// says, and the call books `booking`, or nothing if it is refused; see
/// [`history::books`].
pub open spec fn concludes(
    pre: RefundVault,
    env: Env,
    error: Option<Error>,
    next: VaultState,
    float: int,
    effects: Seq<Effect>,
    booking: Booking,
    r: Result<(), Error>,
    post: RefundVault,
    post_env: Env,
) -> bool {
    &&& pre@.evolves_to(post@)
    &&& books_unless(pre, env, error, booking, post, post_env)
    &&& match error {
        Some(e) => {
            &&& r == Err::<(), Error>(e)
            &&& post@ == pre@
            &&& env.unchanged(post_env)
        },
        None => {
            &&& r is Ok
            &&& post@ == next
            &&& env.advanced(post_env, float, effects)
        },
    }
}

/// Whether a call booked `booking`, or nothing if there is an `error`. What a strategy says
/// it paid is in the float that the next call finds.
pub open spec fn books_unless(
    pre: RefundVault,
    env: Env,
    error: Option<Error>,
    booking: Booking,
    post: RefundVault,
    post_env: Env,
) -> bool {
    let booked = match error {
        Some(_) => Booking::Nothing,
        None => booking,
    };
    history::books(
        pre@,
        env.float as int,
        booked,
        post@,
        post_env.float + booked.paid_by_strategy(),
    )
}

/// The vault contract: its stored entries.
///
/// An entry that the contract can find missing is an `Option`; the others have the
/// default that a missing entry reads as.
#[derive(Debug)]
pub struct RefundVault {
    pub admin: Option<Address>,
    pub token: Option<Address>,
    pub refund_window: Option<u32>,
    pub refund_deadline: u64,
    pub vdf_delay: u32,
    pub fee_bps: u32,
    pub fee_recipient: Option<Address>,
    /// Cumulative refund records, by payment.
    pub refunds: Table<BytesN<32>, RefundRecord>,
    /// Payments refunded in full under the single-refund rule.
    pub legacy_refunds: Vec<BytesN<32>>,
    pub paused: bool,
    pub pending_admin: Option<Address>,
    pub yield_strategy: Option<Address>,
    pub deployed_principal: Option<i128>,
    pub harvested_yield: Option<i128>,
    pub reserve_ratio: Option<u32>,
    pub max_deploy_ratio: Option<u32>,
    pub pending_policy: Option<PolicyProposal>,
    /// Whitelisted oracles, in insertion order.
    pub oracles: Option<Vec<Address>>,
    pub oracle_policy: Option<OraclePolicy>,
    /// Set while a guarded entry point runs.
    pub reentrancy_lock: bool,
    pub storage_version: Option<u32>,
}

/// Whether no address occurs twice.
fn all_distinct(list: &Vec<Address>) -> (r: bool)
    ensures
        r == list@.no_duplicates(),
{
    let mut i: usize = 0;
    while i < list.len()
        invariant
            i <= list.len(),
            forall|p: int, q: int| 0 <= p < q < i ==> list@[p] != list@[q],
        decreases list.len() - i,
    {
        let mut k: usize = 0;
        while k < i
            invariant
                k <= i < list.len(),
                forall|p: int| 0 <= p < k ==> list@[p] != list@[i as int],
            decreases i - k,
        {
            if list[k] == list[i] {
                assert(list@[k as int] == list@[i as int]);
                return false;
            }
            k = k + 1;
        }
        i = i + 1;
    }
    true
}

/// The stored entries as mathematical values.
#[verifier::ext_equal]
pub struct VaultState {
    pub admin: Option<Address>,
    pub token: Option<Address>,
    pub refund_window: Option<u32>,
    pub refund_deadline: u64,
    pub vdf_delay: u32,
    pub fee_bps: u32,
    pub fee_recipient: Option<Address>,
    pub refunds: Map<BytesN<32>, RefundRecord>,
    pub legacy_refunds: Seq<BytesN<32>>,
    pub paused: bool,
    pub pending_admin: Option<Address>,
    pub yield_strategy: Option<Address>,
    pub deployed_principal: Option<i128>,
    pub harvested_yield: Option<i128>,
    pub reserve_ratio: Option<u32>,
    pub max_deploy_ratio: Option<u32>,
    pub pending_policy: Option<PolicyProposal>,
    pub oracles: Option<Seq<Address>>,
    pub oracle_policy: Option<OraclePolicy>,
    pub reentrancy_lock: bool,
    pub storage_version: Option<u32>,
}

/// An oracle whitelist as a sequence.
pub open spec fn whitelist_view(oracles: Option<Vec<Address>>) -> Option<Seq<Address>> {
    match oracles {
        Some(list) => Some(list@),
        None => None,
    }
}

impl View for RefundVault {
    type V = VaultState;

    open spec fn view(&self) -> VaultState {
        VaultState {
            admin: self.admin,
            token: self.token,
            refund_window: self.refund_window,
            refund_deadline: self.refund_deadline,
            vdf_delay: self.vdf_delay,
            fee_bps: self.fee_bps,
            fee_recipient: self.fee_recipient,
            refunds: self.refunds@,
            legacy_refunds: self.legacy_refunds@,
            paused: self.paused,
            pending_admin: self.pending_admin,
            yield_strategy: self.yield_strategy,
            deployed_principal: self.deployed_principal,
            harvested_yield: self.harvested_yield,
            reserve_ratio: self.reserve_ratio,
            max_deploy_ratio: self.max_deploy_ratio,
            pending_policy: self.pending_policy,
            oracles: whitelist_view(self.oracles),
            oracle_policy: self.oracle_policy,
            reentrancy_lock: self.reentrancy_lock,
            storage_version: self.storage_version,
        }
    }
}

impl VaultState {
    /// Whether the vault has been initialized.
    pub open spec fn initialized(self) -> bool {
        self.admin is Some
    }

    /// The invariant of the stored entries.
    ///
    /// Merchant, token and window are written together, before any refund. Every refund
    /// record stays within its payment. Rates are at most 100 percent, the whitelist names no
    /// oracle twice, and the timelock of a pending policy ends at a valid ledger.
    pub open spec fn wf(self) -> bool {
        &&& self.admin is Some <==> self.token is Some
        &&& self.admin is Some <==> self.refund_window is Some
        &&& self.pending_admin is Some ==> self.admin is Some
        &&& self.storage_version is Some ==> self.admin is Some
        &&& self.fee_bps <= BASIS_POINTS
        &&& self.reserve_ratio is Some ==> self.reserve_ratio->0 <= BASIS_POINTS
        &&& self.max_deploy_ratio is Some ==> self.max_deploy_ratio->0 <= BASIS_POINTS
        &&& self.pending_policy is Some ==> self.pending_policy->0.proposed_at_ledger
            + POLICY_TIMELOCK <= u32::MAX
        &&& self.oracles is Some ==> self.oracles->0.no_duplicates()
        &&& forall|r: BytesN<32>| #[trigger]
            self.refunds.contains_key(r) ==> self.admin is Some && 0
                < self.refunds[r].amount_refunded <= self.refunds[r].payment_amount
    }

    /// What every call keeps: the merchant is replaced only by the one who was proposed,
    /// no refund record is lost, lowered or given another ceiling, payments refunded
    /// under the single-refund rule stay so, the layout version never goes back, and the
    /// reentrancy flag is left as it was found.
    pub open spec fn evolves_to(self, post: VaultState) -> bool {
        &&& self.admin is Some ==> post.admin is Some && (post.admin == self.admin || post.admin
            == self.pending_admin)
        &&& forall|r: BytesN<32>| #[trigger]
            self.refunds.contains_key(r) ==> {
                &&& post.refunds.contains_key(r)
                &&& post.refunds[r].payment_amount == self.refunds[r].payment_amount
                &&& post.refunds[r].amount_refunded >= self.refunds[r].amount_refunded
            }
        &&& post.legacy_refunds == self.legacy_refunds
        &&& post.version() >= self.version()
        &&& post.reentrancy_lock == self.reentrancy_lock
    }

    /// The layout version; a vault that stores none has the initial one.
    pub open spec fn version(self) -> u32 {
        match self.storage_version {
            Some(version) => version,
            None => INITIAL_STORAGE_VERSION,
        }
    }

    /// The refund window in force; 0 means no bound.
    pub open spec fn window(self) -> u32 {
        self.refund_window->0
    }

    /// Who receives refund fees: the configured recipient, or else the merchant.
    pub open spec fn fee_collector(self) -> Address {
        match self.fee_recipient {
            Some(recipient) => recipient,
            None => self.admin->0,
        }
    }

    /// Total refunded of a payment so far.
    pub open spec fn refunded(self, payment_ref: BytesN<32>) -> int {
        if self.refunds.contains_key(payment_ref) {
            self.refunds[payment_ref].amount_refunded as int
        } else {
            0
        }
    }

    /// Why a merchant call is refused before it does anything: the vault is not
    /// initialized, or the merchant did not sign.
    pub open spec fn merchant_error(self, env: Env) -> Option<Error> {
        if self.admin is None {
            Some(Error::NotInitialized)
        } else if !env.signed_by(self.admin->0) {
            Some(Error::Unauthorized)
        } else {
            None
        }
    }
}

impl RefundVault {
    /// The invariant of the stored entries; see [`VaultState::wf`].
    pub open spec fn wf(self) -> bool {
        self@.wf()
    }

    /// Whether the stored entries keep the invariant.
    pub fn is_well_formed(&self) -> (r: bool)
        ensures
            r == self.wf(),
    {
        let set = self.admin.is_some();
        if self.token.is_some() != set || self.refund_window.is_some() != set {
            return false;
        }
        if !set && (self.pending_admin.is_some() || self.storage_version.is_some()) {
            return false;
        }
        if self.fee_bps > BASIS_POINTS {
            return false;
        }
        if let Some(ratio) = self.reserve_ratio {
            if ratio > BASIS_POINTS {
                return false;
            }
        }
        if let Some(ratio) = self.max_deploy_ratio {
            if ratio > BASIS_POINTS {
                return false;
            }
        }
        if let Some(proposal) = self.pending_policy {
            if proposal.proposed_at_ledger > u32::MAX - POLICY_TIMELOCK {
                return false;
            }
        }
        if let Some(list) = &self.oracles {
            if !all_distinct(list) {
                return false;
            }
        }
        self.records_are_bounded()
    }

    /// Whether every refund record stays within its payment.
    fn records_are_bounded(&self) -> (r: bool)
        ensures
            r == (forall|k: BytesN<32>| #[trigger]
                self@.refunds.contains_key(k) ==> self.admin is Some && 0
                    < self@.refunds[k].amount_refunded <= self@.refunds[k].payment_amount),
    {
        let mut i: usize = 0;
        while i < self.refunds.entries.len()
            invariant
                i <= self.refunds.entries.len(),
                forall|j: int|
                    0 <= j < i && self@.refunds.contains_key(
                        (#[trigger] self.refunds.entries@[j]).0,
                    ) ==> {
                        let record = self@.refunds[self.refunds.entries@[j].0];
                        self.admin is Some && 0 < record.amount_refunded <= record.payment_amount
                    },
            decreases self.refunds.entries.len() - i,
        {
            let payment = self.refunds.entries[i].0;
            if let Some(record) = self.refunds.get(payment) {
                if self.admin.is_none() || record.amount_refunded <= 0 || record.amount_refunded
                    > record.payment_amount {
                    assert(self@.refunds.contains_key(payment));
                    return false;
                }
            }
            i = i + 1;
        }
        assert forall|k: BytesN<32>| #[trigger] self@.refunds.contains_key(k) implies self.admin is Some
            && 0 < self@.refunds[k].amount_refunded <= self@.refunds[k].payment_amount by {
            if forall|j: int| 0 <= j < self.refunds.entries.len() ==> (
            #[trigger] self.refunds.entries@[j]).0 != k {
                primitives::lemma_lookup_absent(self.refunds.entries@, k);
            }
        }
        true
    }

    /// A freshly deployed vault.
    pub fn new() -> (r: Self)
        ensures
            r.wf(),
            !r@.initialized(),
            r@ == (VaultState {
                admin: None,
                token: None,
                refund_window: None,
                refund_deadline: 0,
                vdf_delay: 0,
                fee_bps: 0,
                fee_recipient: None,
                refunds: Map::empty(),
                legacy_refunds: Seq::empty(),
                paused: false,
                pending_admin: None,
                yield_strategy: None,
                deployed_principal: None,
                harvested_yield: None,
                reserve_ratio: None,
                max_deploy_ratio: None,
                pending_policy: None,
                oracles: None,
                oracle_policy: None,
                reentrancy_lock: false,
                storage_version: None,
            }),
    {
        RefundVault {
            admin: None,
            token: None,
            refund_window: None,
            refund_deadline: 0,
            vdf_delay: 0,
            fee_bps: 0,
            fee_recipient: None,
            refunds: Table::new(),
            legacy_refunds: Vec::new(),
            paused: false,
            pending_admin: None,
            yield_strategy: None,
            deployed_principal: None,
            harvested_yield: None,
            reserve_ratio: None,
            max_deploy_ratio: None,
            pending_policy: None,
            oracles: None,
            oracle_policy: None,
            reentrancy_lock: false,
            storage_version: None,
        }
    }
}

} // verus!
