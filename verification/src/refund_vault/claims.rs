//! Refund claims: one at a time, as an atomic batch, or best effort.

use super::history;
use super::oracle;
use super::oracle::Oracle;
use super::types::{
    DataKey, Effect, Env, RefundClaim, RefundEvent, RefundRecord, RefundVault, VaultState,
    BASIS_POINTS, TTL_EXTEND,
};
use super::types;
use super::vdf;
use crate::bytes;
use crate::error::Error;
use crate::hash;
use crate::primitives::{Address, BytesN, Ledger};
use vstd::prelude::*;

verus! {

/// The fee on a refund: the given share in basis points, rounded up.
pub open spec fn fee_of(amount: int, fee_bps: int) -> int {
    (amount * fee_bps + 9_999) / 10_000
}

/// Refund fee in raw token units: `ceil(amount * fee_bps / 10_000)`.
///
/// Splitting `amount = q * 10_000 + r` keeps every product in range.
pub fn refund_fee(amount: i128, fee_bps: u32) -> (r: i128)
    requires
        amount >= 0,
        fee_bps <= BASIS_POINTS,
    ensures
        r == fee_of(amount as int, fee_bps as int),
        0 <= r <= amount,
{
    let q: i128 = amount / 10_000;
    let rest: i128 = amount % 10_000;
    proof {
        let bps = fee_bps as int;
        assert(0 <= q * bps <= q * 10_000) by (nonlinear_arith)
            requires
                0 <= q,
                0 <= bps <= 10_000,
        ;
        assert(0 <= rest * bps <= rest * 10_000) by (nonlinear_arith)
            requires
                0 <= rest,
                0 <= bps <= 10_000,
        ;
        assert(amount * bps == 10_000 * (q * bps) + rest * bps) by (nonlinear_arith)
            requires
                amount == 10_000 * q + rest,
        ;
    }
    q * fee_bps as i128 + (rest * fee_bps as i128 + 9_999) / 10_000
}

/// The delay challenge of a payment: the SHA-256 digest of its reference, widened
/// to 128 bytes.
pub open spec fn payment_challenge(payment_ref: BytesN<32>) -> Seq<u8> {
    bytes::zeros(96) + hash::sha256_of(payment_ref@)
}

/// Why the delay rule refuses a claim.
pub open spec fn vdf_error(
    vdf_delay: u32,
    payment_ref: BytesN<32>,
    vdf_proof: Option<BytesN<256>>,
) -> Option<Error> {
    match vdf_proof {
        None => if vdf_delay == 0 {
            None
        } else {
            Some(Error::VdfProofRequired)
        },
        Some(packed) => if vdf_delay == 0 {
            Some(Error::VdfNotConfigured)
        } else if vdf::vdf_accepts(
            payment_challenge(payment_ref),
            vdf_delay,
            packed@.subrange(0, 128),
            packed@.subrange(128, 256),
        ) {
            None
        } else {
            Some(Error::InvalidVdfProof)
        },
    }
}

/// Why a claim is refused on its own terms: amount, recipient, a record of the
/// single-refund rule.
pub open spec fn form_error(v: VaultState, ledger: Ledger, c: RefundClaim) -> Option<Error> {
    if c.amount <= 0 {
        Some(Error::InvalidAmount)
    } else if c.recipient == ledger.contract {
        Some(Error::SelfTransfer)
    } else if v.legacy_refunds.contains(c.payment_ref) {
        Some(Error::ExceedsPayment)
    } else {
        None
    }
}

/// Why the policy's window, deadline or delay refuses a claim.
pub open spec fn time_error(v: VaultState, ledger: Ledger, c: RefundClaim) -> Option<Error> {
    if v.window() > 0 && ledger.sequence > c.paid_at_ledger + v.window() {
        Some(Error::WindowExpired)
    } else if v.refund_deadline > 0 && ledger.timestamp > v.refund_deadline {
        Some(Error::RefundExpired)
    } else {
        vdf_error(v.vdf_delay, c.payment_ref, c.vdf_proof)
    }
}

/// Why the oracle policy refuses claims now.
pub open spec fn gate_error<O: Oracle>(v: VaultState, ledger: Ledger, feeds: O) -> Option<Error> {
    match v.oracle_policy {
        None => None,
        Some(policy) => match oracle::median_answer(
            feeds,
            v.oracles,
            policy.feed_id,
            policy.max_staleness_ledgers,
            ledger.sequence,
        ) {
            Err(e) => Some(e),
            Ok(median) => if oracle::policy_permits(policy, median) {
                None
            } else {
                Some(Error::OraclePolicyDenied)
            },
        },
    }
}

/// The ceiling that a claim counts against: that of the payment's record, or the
/// claimed payment amount for a first refund.
pub open spec fn ceiling(v: VaultState, c: RefundClaim) -> i128 {
    if v.refunds.contains_key(c.payment_ref) {
        v.refunds[c.payment_ref].payment_amount
    } else {
        c.payment_amount
    }
}

/// The fee that is taken from a claim.
pub open spec fn claim_fee(v: VaultState, c: RefundClaim) -> int {
    fee_of(c.amount as int, v.fee_bps as int)
}

/// Why the ceiling, the float or the fee recipient refuses a claim.
pub open spec fn settlement_error(v: VaultState, ledger: Ledger, float: int, c: RefundClaim) -> Option<
    Error,
> {
    if ceiling(v, c) <= 0 || v.refunded(c.payment_ref) + c.amount > ceiling(v, c) {
        Some(Error::ExceedsPayment)
    } else if float < c.amount {
        Some(Error::InsufficientFloat)
    } else if claim_fee(v, c) > 0 && v.fee_collector() == ledger.contract {
        Some(Error::SelfTransfer)
    } else {
        None
    }
}

/// Why a claim is refused, when the vault holds `float`: the first rule, in this
/// order, that it breaks.
#[verifier::opaque]
pub open spec fn claim_error<O: Oracle>(
    v: VaultState,
    ledger: Ledger,
    float: int,
    feeds: O,
    c: RefundClaim,
) -> Option<Error> {
    if form_error(v, ledger, c) is Some {
        form_error(v, ledger, c)
    } else if time_error(v, ledger, c) is Some {
        time_error(v, ledger, c)
    } else if gate_error(v, ledger, feeds) is Some {
        gate_error(v, ledger, feeds)
    } else {
        settlement_error(v, ledger, float, c)
    }
}

/// Whether the rules that a claim reaches can be computed without overflow: the end
/// of its window is a valid ledger, and the oracle prices can be averaged.
pub open spec fn claim_computable<O: Oracle>(
    v: VaultState,
    ledger: Ledger,
    feeds: O,
    c: RefundClaim,
) -> bool {
    form_error(v, ledger, c) is None ==> {
        &&& v.window() > 0 ==> c.paid_at_ledger + v.window() <= u32::MAX
        &&& time_error(v, ledger, c) is None && v.oracle_policy is Some ==> oracle::median_computable(
            feeds,
            v.oracles,
            v.oracle_policy->0.feed_id,
            v.oracle_policy->0.max_staleness_ledgers,
            ledger.sequence,
        )
    }
}

/// The refund record that an accepted claim leaves.
pub open spec fn claim_record(v: VaultState, ledger: Ledger, c: RefundClaim) -> RefundRecord {
    RefundRecord {
        amount_refunded: (v.refunded(c.payment_ref) + c.amount) as i128,
        payment_amount: ceiling(v, c),
        paid_at_ledger: c.paid_at_ledger,
        recipient: c.recipient,
        ledger: ledger.sequence,
    }
}

/// The vault after an accepted claim.
pub open spec fn claimed(v: VaultState, ledger: Ledger, c: RefundClaim) -> VaultState {
    VaultState { refunds: v.refunds.insert(c.payment_ref, claim_record(v, ledger, c)), ..v }
}

/// The event of an accepted claim.
pub open spec fn claim_event(v: VaultState, ledger: Ledger, c: RefundClaim) -> RefundEvent {
    RefundEvent {
        payment_ref: c.payment_ref,
        amount: c.amount,
        fee: claim_fee(v, c) as i128,
        cumulative_refunded: (v.refunded(c.payment_ref) + c.amount) as i128,
        recipient: c.recipient,
        ledger: ledger.sequence,
    }
}

/// For how many ledgers a refund record must stay alive: until the window of its
/// payment has passed, at least [`TTL_EXTEND`], and as long as the network allows
/// when there is no window.
pub open spec fn record_ttl(ledger: Ledger, window: u32, paid_at_ledger: u32) -> int {
    if window == 0 {
        ledger.max_ttl as int
    } else {
        let live_until = if paid_at_ledger + window > u32::MAX {
            u32::MAX as int
        } else {
            paid_at_ledger + window
        };
        if live_until - ledger.sequence > TTL_EXTEND {
            live_until - ledger.sequence
        } else {
            TTL_EXTEND as int
        }
    }
}

/// The extension that keeps a refund record alive.
pub open spec fn record_renewal(
    ledger: Ledger,
    window: u32,
    payment_ref: BytesN<32>,
    paid_at_ledger: u32,
) -> Effect {
    let ttl = record_ttl(ledger, window, paid_at_ledger) as u32;
    Effect::ExtendTtl { key: DataKey::RefundV2(payment_ref), threshold: ttl, extend_to: ttl }
}

/// What an accepted claim asks of the host: the payout, the fee if there is one, and
/// the extensions. The payout and the fee add up to the claimed amount.
pub open spec fn claim_effects(v: VaultState, ledger: Ledger, c: RefundClaim) -> Seq<Effect> {
    let fee = claim_fee(v, c);
    let payout = Effect::Transfer {
        token: v.token->0,
        from: ledger.contract,
        to: c.recipient,
        amount: (c.amount - fee) as i128,
    };
    let renewals = seq![
        types::renewal(),
        record_renewal(ledger, v.window(), c.payment_ref, c.paid_at_ledger),
    ];
    if fee > 0 {
        let fee_payment = Effect::Transfer {
            token: v.token->0,
            from: ledger.contract,
            to: v.fee_collector(),
            amount: fee as i128,
        };
        seq![payout, fee_payment] + renewals
    } else {
        seq![payout] + renewals
    }
}

/// No rule for claims looks at the reentrancy flag, and an accepted claim keeps it.
pub proof fn lemma_claim_ignores_lock<O: Oracle>(
    v: VaultState,
    lock: bool,
    ledger: Ledger,
    float: int,
    feeds: O,
    c: RefundClaim,
)
    ensures
        ({
            let w = VaultState { reentrancy_lock: lock, ..v };
            &&& claim_error(w, ledger, float, feeds, c) == claim_error(v, ledger, float, feeds, c)
            &&& claimed(w, ledger, c) == (VaultState {
                reentrancy_lock: lock,
                ..claimed(v, ledger, c)
            })
            &&& claim_effects(w, ledger, c) == claim_effects(v, ledger, c)
            &&& claim_event(w, ledger, c) == claim_event(v, ledger, c)
        }),
{
    reveal(claim_error);
}

/// Whether a claim can be checked does not depend on the refund records or on the
/// reentrancy flag.
pub proof fn lemma_computable_ignores_records<O: Oracle>(
    v: VaultState,
    w: VaultState,
    ledger: Ledger,
    feeds: O,
    c: RefundClaim,
)
    requires
        w == (VaultState { refunds: w.refunds, reentrancy_lock: w.reentrancy_lock, ..v }),
    ensures
        claim_computable(w, ledger, feeds, c) == claim_computable(v, ledger, feeds, c),
{
}

/// An accepted claim evolves the vault: its payment's record grows, within its ceiling,
/// and every other entry stays.
pub proof fn lemma_claim_evolves<O: Oracle>(
    v: VaultState,
    ledger: Ledger,
    float: int,
    feeds: O,
    c: RefundClaim,
)
    requires
        claim_error(v, ledger, float, feeds, c) is None,
    ensures
        v.evolves_to(claimed(v, ledger, c)),
        v.refunded(c.payment_ref) < claimed(v, ledger, c).refunded(c.payment_ref)
            == v.refunded(c.payment_ref) + c.amount <= ceiling(v, c),
{
    reveal(claim_error);
}

/// An accepted claim is booked as a refund.
pub proof fn lemma_claim_books<O: Oracle>(
    v: VaultState,
    ledger: Ledger,
    float: int,
    feeds: O,
    c: RefundClaim,
)
    requires
        claim_error(v, ledger, float, feeds, c) is None,
    ensures
        history::books(
            v,
            float,
            history::Booking::Refunds(seq![c]),
            claimed(v, ledger, c),
            float - c.amount,
        ),
{
    reveal(claim_error);
    history::lemma_one_claim(v.tallies(), c);
    assert(claimed(v, ledger, c).tallies() =~= history::with_claim(v.tallies(), c));
}

/// For how many ledgers to keep a refund record alive; see [`record_ttl`].
pub fn refund_record_ttl_extend_to(ledger: &Ledger, window: u32, paid_at_ledger: u32) -> (r: u32)
    ensures
        r == record_ttl(*ledger, window, paid_at_ledger),
{
    if window == 0 {
        return ledger.max_ttl;
    }
    let live_until: u32 = paid_at_ledger.saturating_add(window);
    let left: u32 = live_until.saturating_sub(ledger.sequence);
    if left > TTL_EXTEND {
        left
    } else {
        TTL_EXTEND
    }
}

impl RefundVault {
    /// The merchant, if the vault is initialized and the merchant signed the call.
    pub(crate) fn require_merchant(&self, env: &Env) -> (r: Result<Address, Error>)
        ensures
            match self@.merchant_error(*env) {
                Some(e) => r == Err::<Address, Error>(e),
                None => self.admin is Some && r == Ok::<Address, Error>(self.admin->0),
            },
    {
        match self.admin {
            None => Err(Error::NotInitialized),
            Some(merchant) => if env.is_signed_by(merchant) {
                Ok(merchant)
            } else {
                Err(Error::Unauthorized)
            },
        }
    }

    /// Whether the payment was refunded under the single-refund rule.
    fn has_legacy_refund(&self, payment_ref: BytesN<32>) -> (r: bool)
        ensures
            r == self@.legacy_refunds.contains(payment_ref),
    {
        let mut i: usize = 0;
        while i < self.legacy_refunds.len()
            invariant
                i <= self.legacy_refunds.len(),
                forall|k: int| 0 <= k < i ==> self.legacy_refunds@[k] != payment_ref,
            decreases self.legacy_refunds.len() - i,
        {
            if self.legacy_refunds[i] == payment_ref {
                assert(self.legacy_refunds@[i as int] == payment_ref);
                return true;
            }
            i = i + 1;
        }
        false
    }

    fn check_form(&self, ledger: &Ledger, claim: &RefundClaim) -> (r: Result<(), Error>)
        ensures
            match form_error(self@, *ledger, *claim) {
                Some(e) => r == Err::<(), Error>(e),
                None => r is Ok,
            },
    {
        if claim.amount <= 0 {
            return Err(Error::InvalidAmount);
        }
        if claim.recipient == ledger.contract {
            return Err(Error::SelfTransfer);
        }
        if self.has_legacy_refund(claim.payment_ref) {
            return Err(Error::ExceedsPayment);
        }
        Ok(())
    }

    fn check_vdf(&self, claim: &RefundClaim) -> (r: Result<(), Error>)
        ensures
            match vdf_error(self@.vdf_delay, claim.payment_ref, claim.vdf_proof) {
                Some(e) => r == Err::<(), Error>(e),
                None => r is Ok,
            },
    {
        match claim.vdf_proof {
            None => if self.vdf_delay == 0 {
                Ok(())
            } else {
                Err(Error::VdfProofRequired)
            },
            Some(packed) => {
                if self.vdf_delay == 0 {
                    return Err(Error::VdfNotConfigured);
                }
                let digest: [u8; 32] = hash::sha256(&claim.payment_ref.bytes);
                let mut challenge: [u8; 128] = [0u8; 128];
                let mut i: usize = 0;
                while i < 32
                    invariant
                        i <= 32,
                        forall|k: int| 0 <= k < 96 ==> challenge@[k] == 0,
                        forall|k: int| 0 <= k < i ==> challenge@[96 + k] == digest@[k],
                    decreases 32 - i,
                {
                    challenge[96 + i] = digest[i];
                    i = i + 1;
                }
                assert forall|k: int| 96 <= k < 128 implies challenge@[k] == digest@[k - 96] by {
                    assert(challenge@[96 + (k - 96)] == digest@[k - 96]);
                }
                assert(challenge@ =~= payment_challenge(claim.payment_ref));
                let output: [u8; 128] = bytes::slice_at([0u8; 128], &packed.bytes, 0);
                let witness: [u8; 128] = bytes::slice_at([0u8; 128], &packed.bytes, 128);
                vdf::verify_vdf(&challenge, self.vdf_delay, &output, &witness)
            },
        }
    }

    fn check_time(&self, ledger: &Ledger, claim: &RefundClaim) -> (r: Result<(), Error>)
        requires
            self.refund_window is Some,
            self@.window() > 0 ==> claim.paid_at_ledger + self@.window() <= u32::MAX,
        ensures
            match time_error(self@, *ledger, *claim) {
                Some(e) => r == Err::<(), Error>(e),
                None => r is Ok,
            },
    {
        let window: u32 = self.refund_window.unwrap();
        if window > 0 && ledger.sequence > claim.paid_at_ledger + window {
            return Err(Error::WindowExpired);
        }
        if self.refund_deadline > 0 && ledger.timestamp > self.refund_deadline {
            return Err(Error::RefundExpired);
        }
        self.check_vdf(claim)
    }

    fn check_gate<O: Oracle>(&self, ledger: &Ledger, feeds: &O) -> (r: Result<(), Error>)
        requires
            self.oracle_policy is Some ==> oracle::median_computable(
                *feeds,
                self@.oracles,
                self.oracle_policy->0.feed_id,
                self.oracle_policy->0.max_staleness_ledgers,
                ledger.sequence,
            ),
        ensures
            match gate_error(self@, *ledger, *feeds) {
                Some(e) => r == Err::<(), Error>(e),
                None => r is Ok,
            },
    {
        match self.oracle_policy {
            None => Ok(()),
            Some(policy) => match oracle::evaluate_policy(
                feeds,
                &self.oracles,
                &policy,
                ledger.sequence,
            ) {
                Err(e) => Err(e),
                Ok(permitted) => if permitted {
                    Ok(())
                } else {
                    Err(Error::OraclePolicyDenied)
                },
            },
        }
    }

    /// The address that receives refund fees.
    pub(crate) fn active_fee_recipient(&self) -> (r: Address)
        requires
            self.admin is Some,
        ensures
            r == self@.fee_collector(),
    {
        match self.fee_recipient {
            Some(recipient) => recipient,
            None => self.admin.unwrap(),
        }
    }

    /// Whether every rule that the claim reaches can be computed without overflow;
    /// see [`claim_computable`].
    pub fn claim_in_range<O: Oracle>(&self, ledger: &Ledger, feeds: &O, claim: &RefundClaim) -> (r: bool)
        requires
            self.wf(),
            self@.initialized(),
        ensures
            r == claim_computable(self@, *ledger, *feeds, *claim),
    {
        if self.check_form(ledger, claim).is_err() {
            return true;
        }
        let window: u32 = self.refund_window.unwrap();
        if window > 0 && claim.paid_at_ledger.checked_add(window).is_none() {
            return false;
        }
        if self.check_time(ledger, claim).is_err() {
            return true;
        }
        match self.oracle_policy {
            None => true,
            Some(policy) => oracle::median_in_range(
                feeds,
                &self.oracles,
                policy.feed_id,
                policy.max_staleness_ledgers,
                ledger.sequence,
            ),
        }
    }

    /// Applies one claim: the validations, the payout and fee, and the record. The
    /// caller checks the merchant and the pause, and publishes the returned event.
    ///
    /// The float is looked at afresh for every claim, so a batch that overdraws the
    /// vault on a later claim fails there, as a sequence of single refunds would.
    pub fn claim_single<O: Oracle>(
        &mut self,
        env: &mut Env,
        feeds: &O,
        claim: &RefundClaim,
    ) -> (r: Result<RefundEvent, Error>)
        requires
            old(self).wf(),
            old(self)@.initialized(),
            claim_computable(old(self)@, old(env).ledger, *feeds, *claim),
        ensures
            final(self).wf(),
            match claim_error(old(self)@, old(env).ledger, old(env).float as int, *feeds, *claim) {
                Some(e) => {
                    &&& r == Err::<RefundEvent, Error>(e)
                    &&& final(self)@ == old(self)@
                    &&& old(env).unchanged(*final(env))
                },
                None => {
                    &&& r == Ok::<RefundEvent, Error>(claim_event(old(self)@, old(env).ledger, *claim))
                    &&& final(self)@ == claimed(old(self)@, old(env).ledger, *claim)
                    &&& old(env).advanced(
                        *final(env),
                        old(env).float - claim.amount,
                        claim_effects(old(self)@, old(env).ledger, *claim),
                    )
                },
            },
            types::books_unless(
                *old(self),
                *old(env),
                claim_error(old(self)@, old(env).ledger, old(env).float as int, *feeds, *claim),
                history::Booking::Refunds(seq![*claim]),
                *final(self),
                *final(env),
            ),
    {
        proof {
            if claim_error(
                self@,
                env.ledger,
                env.float as int,
                *feeds,
                *claim,
            ) is None {
                lemma_claim_books(self@, env.ledger, env.float as int, *feeds, *claim);
            }
            reveal(claim_error);
        }
        assert(env.effects@ =~= old(env).effects@ + Seq::<Effect>::empty());
        if let Err(e) = self.check_form(&env.ledger, claim) {
            return Err(e);
        }
        if let Err(e) = self.check_time(&env.ledger, claim) {
            return Err(e);
        }
        if let Err(e) = self.check_gate(&env.ledger, feeds) {
            return Err(e);
        }
        let (previous, ceiling): (i128, i128) = match self.refunds.get(claim.payment_ref) {
            Some(record) => (record.amount_refunded, record.payment_amount),
            None => (0, claim.payment_amount),
        };
        let cumulative: i128 = match previous.checked_add(claim.amount) {
            Some(sum) => sum,
            None => return Err(Error::ExceedsPayment),
        };
        if ceiling <= 0 || cumulative > ceiling {
            return Err(Error::ExceedsPayment);
        }
        if env.float < claim.amount {
            return Err(Error::InsufficientFloat);
        }
        let fee: i128 = refund_fee(claim.amount, self.fee_bps);
        let payout: i128 = claim.amount - fee;
        let token = self.token.unwrap();
        let contract = env.ledger.contract;
        if fee > 0 && self.active_fee_recipient() == contract {
            return Err(Error::SelfTransfer);
        }
        env.ask(Effect::Transfer { token, from: contract, to: claim.recipient, amount: payout });
        if fee > 0 {
            env.ask(
                Effect::Transfer {
                    token,
                    from: contract,
                    to: self.active_fee_recipient(),
                    amount: fee,
                },
            );
        }
        env.float = env.float - claim.amount;
        let record = RefundRecord {
            amount_refunded: cumulative,
            payment_amount: ceiling,
            paid_at_ledger: claim.paid_at_ledger,
            recipient: claim.recipient,
            ledger: env.ledger.sequence,
        };
        self.refunds.set(claim.payment_ref, record);
        env.renew_instance();
        let ttl: u32 = refund_record_ttl_extend_to(
            &env.ledger,
            self.refund_window.unwrap(),
            claim.paid_at_ledger,
        );
        env.ask(
            Effect::ExtendTtl {
                key: DataKey::RefundV2(claim.payment_ref),
                threshold: ttl,
                extend_to: ttl,
            },
        );
        assert(env.effects@ =~= old(env).effects@ + claim_effects(
            old(self)@,
            old(env).ledger,
            *claim,
        ));
        Ok(
            RefundEvent {
                payment_ref: claim.payment_ref,
                amount: claim.amount,
                fee,
                cumulative_refunded: cumulative,
                recipient: claim.recipient,
                ledger: env.ledger.sequence,
            },
        )
    }
}

} // verus!
