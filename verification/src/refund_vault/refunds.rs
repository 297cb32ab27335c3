//! The refund entry points: single, atomic batch, best-effort batch.

use super::claims;
use super::history;
use super::oracle::Oracle;
use super::types;
use super::types::{
    BatchRefundEvent, Effect, Env, Event, RefundClaim, RefundParam, RefundVault, VaultState,
    MAX_REFUND_BATCH_SIZE,
};
use crate::error::Error;
use crate::primitives::{Address, BytesN, Ledger};
use vstd::prelude::*;

verus! {

impl VaultState {
    /// Why a guarded merchant call is refused before it does anything: another one is
    /// running, the vault is paused, or the merchant did not sign.
    pub open spec fn guarded_error(self, env: Env) -> Option<Error> {
        if self.reentrancy_lock {
            Some(Error::ReentrancyBlocked)
        } else {
            self.open_error(env)
        }
    }

    /// Why a merchant call that needs an unpaused vault is refused.
    pub open spec fn open_error(self, env: Env) -> Option<Error> {
        if self.paused {
            Some(Error::Paused)
        } else {
            self.merchant_error(env)
        }
    }
}

/// What the claims of a batch have done so far.
pub struct BatchState {
    pub vault: VaultState,
    pub float: int,
    pub effects: Seq<Effect>,
}

/// What a sequence of claims does, one after the other: the state it leaves, or the
/// error of the first claim that is refused.
pub open spec fn batch_outcome<O: Oracle>(
    v: VaultState,
    ledger: Ledger,
    float: int,
    feeds: O,
    claims: Seq<RefundClaim>,
) -> Result<BatchState, Error>
    decreases claims.len(),
{
    if claims.len() == 0 {
        Ok(BatchState { vault: v, float, effects: Seq::empty() })
    } else {
        match batch_outcome(v, ledger, float, feeds, claims.drop_last()) {
            Err(e) => Err(e),
            Ok(s) => match claims::claim_error(s.vault, ledger, s.float, feeds, claims.last()) {
                Some(e) => Err(e),
                None => Ok(
                    BatchState {
                        vault: claims::claimed(s.vault, ledger, claims.last()),
                        float: s.float - claims.last().amount,
                        effects: s.effects + refund_effects(s.vault, ledger, claims.last()),
                    },
                ),
            },
        }
    }
}

/// What an accepted refund asks of the host, its event included.
pub open spec fn refund_effects(v: VaultState, ledger: Ledger, c: RefundClaim) -> Seq<Effect> {
    claims::claim_effects(v, ledger, c).push(
        Effect::Publish(Event::Refund(claims::claim_event(v, ledger, c))),
    )
}

/// Whether every claim that the batch reaches can be checked without overflow.
pub open spec fn batch_computable<O: Oracle>(
    v: VaultState,
    ledger: Ledger,
    float: int,
    feeds: O,
    claims: Seq<RefundClaim>,
) -> bool {
    forall|i: int|
        0 <= i < claims.len() && batch_outcome(v, ledger, float, feeds, claims.take(i)) is Ok
            ==> claims::claim_computable(v, ledger, feeds, #[trigger] claims[i])
}

/// The claim that a batch item makes.
pub open spec fn item_claim(item: RefundParam) -> RefundClaim {
    RefundClaim {
        payment_ref: item.payment_ref,
        recipient: item.recipient,
        amount: item.amount,
        paid_at_ledger: item.paid_at_ledger,
        payment_amount: item.payment_amount,
        vdf_proof: item.vdf_proof,
    }
}

/// What the items of a best-effort batch have done so far, and which were applied.
pub struct ProcessState {
    pub vault: VaultState,
    pub float: int,
    pub effects: Seq<Effect>,
    pub results: Seq<bool>,
}

/// What a best-effort batch does: every item in turn, skipping those that are
/// refused.
pub open spec fn process_outcome<O: Oracle>(
    v: VaultState,
    ledger: Ledger,
    float: int,
    feeds: O,
    items: Seq<RefundParam>,
) -> ProcessState
    decreases items.len(),
{
    if items.len() == 0 {
        ProcessState {
            vault: v,
            float,
            effects: Seq::empty(),
            results: Seq::empty(),
        }
    } else {
        let s = process_outcome(v, ledger, float, feeds, items.drop_last());
        let claim = item_claim(items.last());
        if claims::claim_error(s.vault, ledger, s.float, feeds, claim) is Some {
            ProcessState { results: s.results.push(false), ..s }
        } else {
            ProcessState {
                vault: claims::claimed(s.vault, ledger, claim),
                float: s.float - claim.amount,
                effects: s.effects + claims::claim_effects(s.vault, ledger, claim),
                results: s.results.push(true),
            }
        }
    }
}

/// The claims of the items that a best-effort batch applied.
pub open spec fn applied_claims(items: Seq<RefundParam>, results: Seq<bool>) -> Seq<RefundClaim>
    decreases items.len(),
{
    if items.len() == 0 {
        Seq::empty()
    } else {
        let rest = applied_claims(items.drop_last(), results.drop_last());
        if results.last() {
            rest.push(item_claim(items.last()))
        } else {
            rest
        }
    }
}

/// Why a best-effort batch of `len` items is refused as a whole.
pub open spec fn process_error(v: VaultState, env: Env, len: nat) -> Option<Error> {
    if v.open_error(env) is Some {
        v.open_error(env)
    } else if len > MAX_REFUND_BATCH_SIZE {
        Some(Error::BatchTooLarge)
    } else {
        None
    }
}

/// `event` reports the items of a best-effort batch and what became of them.
pub open spec fn reports_batch(event: Effect, items: Seq<RefundParam>, results: Seq<bool>) -> bool {
    event matches Effect::Publish(Event::BatchRefund(report)) && {
        &&& report.payment_refs@ == items.map_values(|item: RefundParam| item.payment_ref)
        &&& report.results@ == results
    }
}

/// Once a claim of the batch is refused, the whole batch is.
pub proof fn lemma_refused_batch<O: Oracle>(
    v: VaultState,
    ledger: Ledger,
    float: int,
    feeds: O,
    claims: Seq<RefundClaim>,
    n: int,
)
    requires
        0 <= n <= claims.len(),
        batch_outcome(v, ledger, float, feeds, claims.take(n)) is Err,
    ensures
        batch_outcome(v, ledger, float, feeds, claims) == batch_outcome(
            v,
            ledger,
            float,
            feeds,
            claims.take(n),
        ),
    decreases claims.len(),
{
    if n == claims.len() {
        assert(claims.take(n) =~= claims);
    } else {
        assert(claims.drop_last().take(n) =~= claims.take(n));
        lemma_refused_batch(v, ledger, float, feeds, claims.drop_last(), n);
    }
}

/// A batch does the same whether or not the reentrancy flag is set, and keeps it.
pub proof fn lemma_batch_ignores_lock<O: Oracle>(
    v: VaultState,
    lock: bool,
    ledger: Ledger,
    float: int,
    feeds: O,
    claims: Seq<RefundClaim>,
)
    ensures
        ({
            let w = VaultState { reentrancy_lock: lock, ..v };
            match batch_outcome(v, ledger, float, feeds, claims) {
                Err(e) => batch_outcome(w, ledger, float, feeds, claims) == Err::<
                    BatchState,
                    Error,
                >(e),
                Ok(s) => batch_outcome(w, ledger, float, feeds, claims) == Ok::<BatchState, Error>(
                    BatchState {
                        vault: VaultState { reentrancy_lock: lock, ..s.vault },
                        float: s.float,
                        effects: s.effects,
                    },
                ),
            }
        }),
    decreases claims.len(),
{
    if claims.len() > 0 {
        lemma_batch_ignores_lock(v, lock, ledger, float, feeds, claims.drop_last());
        if let Ok(s) = batch_outcome(v, ledger, float, feeds, claims.drop_last()) {
            claims::lemma_claim_ignores_lock(s.vault, lock, ledger, s.float, feeds, claims.last());
        }
    }
}

/// Whether a batch can be checked does not depend on the reentrancy flag.
pub proof fn lemma_batch_computable_ignores_lock<O: Oracle>(
    v: VaultState,
    lock: bool,
    ledger: Ledger,
    float: int,
    feeds: O,
    claims: Seq<RefundClaim>,
)
    requires
        batch_computable(v, ledger, float, feeds, claims),
    ensures
        batch_computable(
            (VaultState { reentrancy_lock: lock, ..v }),
            ledger,
            float,
            feeds,
            claims,
        ),
{
    let w = VaultState { reentrancy_lock: lock, ..v };
    assert forall|i: int|
        0 <= i < claims.len() && batch_outcome(w, ledger, float, feeds, claims.take(
            i,
        )) is Ok implies claims::claim_computable(w, ledger, feeds, #[trigger] claims[i]) by {
        lemma_batch_ignores_lock(v, lock, ledger, float, feeds, claims.take(i));
        claims::lemma_computable_ignores_records(v, w, ledger, feeds, claims[i]);
    }
}

/// A batch evolves the vault.
pub proof fn lemma_batch_evolves<O: Oracle>(
    v: VaultState,
    ledger: Ledger,
    float: int,
    feeds: O,
    claims: Seq<RefundClaim>,
)
    ensures
        batch_outcome(v, ledger, float, feeds, claims) matches Ok(s) ==> v.evolves_to(s.vault),
    decreases claims.len(),
{
    if claims.len() > 0 {
        lemma_batch_evolves(v, ledger, float, feeds, claims.drop_last());
        if let Ok(s) = batch_outcome(v, ledger, float, feeds, claims.drop_last()) {
            if claims::claim_error(s.vault, ledger, s.float, feeds, claims.last()) is None {
                claims::lemma_claim_evolves(s.vault, ledger, s.float, feeds, claims.last());
            }
        }
    }
}

/// A batch is booked as its refunds.
pub proof fn lemma_batch_books<O: Oracle>(
    v: VaultState,
    ledger: Ledger,
    float: int,
    feeds: O,
    claims: Seq<RefundClaim>,
)
    ensures
        batch_outcome(v, ledger, float, feeds, claims) matches Ok(s) ==> history::books(
            v,
            float,
            history::Booking::Refunds(claims),
            s.vault,
            s.float,
        ),
    decreases claims.len(),
{
    if claims.len() > 0 {
        lemma_batch_books(v, ledger, float, feeds, claims.drop_last());
        if let Ok(s) = batch_outcome(v, ledger, float, feeds, claims.drop_last()) {
            let c = claims.last();
            if claims::claim_error(s.vault, ledger, s.float, feeds, c) is None {
                claims::lemma_claim_books(s.vault, ledger, s.float, feeds, c);
                history::lemma_one_claim(s.vault.tallies(), c);
            }
        }
    }
}

/// A best-effort batch is booked as the refunds that it applied.
pub proof fn lemma_process_books<O: Oracle>(
    v: VaultState,
    ledger: Ledger,
    float: int,
    feeds: O,
    items: Seq<RefundParam>,
)
    ensures
        ({
            let s = process_outcome(v, ledger, float, feeds, items);
            &&& s.results.len() == items.len()
            &&& history::books(
                v,
                float,
                history::Booking::Refunds(applied_claims(items, s.results)),
                s.vault,
                s.float,
            )
        }),
    decreases items.len(),
{
    if items.len() > 0 {
        lemma_process_books(v, ledger, float, feeds, items.drop_last());
        let before = process_outcome(v, ledger, float, feeds, items.drop_last());
        let s = process_outcome(v, ledger, float, feeds, items);
        assert(s.results.drop_last() =~= before.results);
        let applied = applied_claims(items, s.results);
        let c = item_claim(items.last());
        if s.results.last() {
            assert(applied.drop_last() =~= applied_claims(items.drop_last(), before.results));
            claims::lemma_claim_books(before.vault, ledger, before.float, feeds, c);
            history::lemma_one_claim(before.vault.tallies(), c);
        }
    }
}

/// A best-effort batch evolves the vault.
pub proof fn lemma_process_evolves<O: Oracle>(
    v: VaultState,
    ledger: Ledger,
    float: int,
    feeds: O,
    items: Seq<RefundParam>,
)
    ensures
        v.evolves_to(process_outcome(v, ledger, float, feeds, items).vault),
    decreases items.len(),
{
    if items.len() > 0 {
        lemma_process_evolves(v, ledger, float, feeds, items.drop_last());
        let s = process_outcome(v, ledger, float, feeds, items.drop_last());
        let claim = item_claim(items.last());
        if claims::claim_error(s.vault, ledger, s.float, feeds, claim) is None {
            claims::lemma_claim_evolves(s.vault, ledger, s.float, feeds, claim);
        }
    }
}

impl RefundVault {
    /// Marks a guarded entry point as running, here and in the stored entries.
    pub(crate) fn acquire_reentrancy_lock(&mut self, env: &mut Env) -> (r: Result<(), Error>)
        ensures
            match r {
                Ok(()) => {
                    &&& !old(self).reentrancy_lock
                    &&& final(self)@ == (VaultState { reentrancy_lock: true, ..old(self)@ })
                    &&& old(env).advanced(
                        *final(env),
                        old(env).float as int,
                        seq![Effect::SetReentrancyLock(true)],
                    )
                },
                Err(e) => {
                    &&& old(self).reentrancy_lock
                    &&& e == Error::ReentrancyBlocked
                    &&& final(self)@ == old(self)@
                    &&& old(env).unchanged(*final(env))
                },
            },
    {
        if self.reentrancy_lock {
            assert(env.effects@ =~= old(env).effects@ + Seq::<Effect>::empty());
            return Err(Error::ReentrancyBlocked);
        }
        self.reentrancy_lock = true;
        env.ask(Effect::SetReentrancyLock(true));
        Ok(())
    }

    /// Marks the guarded entry point as done. If it failed, it has asked for nothing since
    /// [`acquire_reentrancy_lock`](Self::acquire_reentrancy_lock), and that is taken back
    /// too.
    pub(crate) fn release_reentrancy_lock(&mut self, env: &mut Env, result: Result<(), Error>) -> (r:
        Result<(), Error>)
        requires
            result is Err ==> old(env).effects@.len() > 0,
        ensures
            r == result,
            final(self)@ == (VaultState { reentrancy_lock: false, ..old(self)@ }),
            result is Ok ==> old(env).advanced(
                *final(env),
                old(env).float as int,
                seq![Effect::SetReentrancyLock(false)],
            ),
            result is Err ==> {
                &&& final(env).ledger == old(env).ledger
                &&& final(env).signers@ == old(env).signers@
                &&& final(env).float == old(env).float
                &&& final(env).effects@ == old(env).effects@.drop_last()
            },
    {
        self.reentrancy_lock = false;
        match result {
            Ok(()) => env.ask(Effect::SetReentrancyLock(false)),
            Err(_) => {
                env.effects.pop();
            },
        }
        result
    }

    /// The merchant, if the vault is not paused and the merchant signed the call.
    pub(crate) fn require_open(&self, env: &Env) -> (r: Result<Address, Error>)
        ensures
            match self@.open_error(*env) {
                Some(e) => r == Err::<Address, Error>(e),
                None => self.admin is Some && r == Ok::<Address, Error>(self.admin->0),
            },
    {
        if self.paused {
            return Err(Error::Paused);
        }
        self.require_merchant(env)
    }

    /// Refunds part or all of a payment.
    ///
    /// `payment_amount` is the ceiling on cumulative refunds of the payment. The
    /// window is measured from `paid_at_ledger`, never from an earlier refund. A
    /// refused call leaves no trace.
    pub fn refund<O: Oracle>(
        &mut self,
        env: &mut Env,
        feeds: &O,
        payment_ref: BytesN<32>,
        recipient: Address,
        amount: i128,
        paid_at_ledger: u32,
        payment_amount: i128,
        vdf_proof: Option<BytesN<256>>,
    ) -> (r: Result<(), Error>)
        requires
            old(self).wf(),
            old(self)@.guarded_error(*old(env)) is None ==> claims::claim_computable(
                old(self)@,
                old(env).ledger,
                *feeds,
                (RefundClaim {
                    payment_ref,
                    recipient,
                    amount,
                    paid_at_ledger,
                    payment_amount,
                    vdf_proof,
                }),
            ),
        ensures
            final(self).wf(),
            refund_outcome(
                *old(self),
                *old(env),
                *feeds,
                (RefundClaim {
                    payment_ref,
                    recipient,
                    amount,
                    paid_at_ledger,
                    payment_amount,
                    vdf_proof,
                }),
                r,
                *final(self),
                *final(env),
            ),
    {
        let claim = RefundClaim {
            payment_ref,
            recipient,
            amount,
            paid_at_ledger,
            payment_amount,
            vdf_proof,
        };
        assert(env.effects@ =~= old(env).effects@ + Seq::<Effect>::empty());
        if let Err(e) = self.acquire_reentrancy_lock(env) {
            return Err(e);
        }
        proof {
            claims::lemma_claim_ignores_lock(
                old(self)@,
                true,
                env.ledger,
                env.float as int,
                *feeds,
                claim,
            );
            if claims::claim_error(
                old(self)@,
                env.ledger,
                env.float as int,
                *feeds,
                claim,
            ) is None {
                claims::lemma_claim_evolves(
                    old(self)@,
                    env.ledger,
                    env.float as int,
                    *feeds,
                    claim,
                );
                claims::lemma_claim_books(
                    old(self)@,
                    env.ledger,
                    env.float as int,
                    *feeds,
                    claim,
                );
            }
        }
        let result = match self.require_open(env) {
            Err(e) => Err(e),
            Ok(_) => self.apply_one(env, feeds, &claim),
        };
        proof {
            types::lemma_guarded_effects(old(env).effects@);
        }
        self.release_reentrancy_lock(env, result)
    }

    /// Refunds several claims, all or none.
    ///
    /// Every claim is processed in order as by [`refund`](Self::refund), under one
    /// signature of the merchant. Repeated payments accumulate against the same
    /// ceiling. If a claim is refused, the call returns its error and nothing of the
    /// batch remains. An empty batch succeeds.
    pub fn claim_batch<O: Oracle>(
        &mut self,
        env: &mut Env,
        feeds: &O,
        claims: &Vec<RefundClaim>,
    ) -> (r: Result<(), Error>)
        requires
            old(self).wf(),
            old(self)@.guarded_error(*old(env)) is None ==> batch_computable(
                old(self)@,
                old(env).ledger,
                old(env).float as int,
                *feeds,
                claims@,
            ),
        ensures
            final(self).wf(),
            claim_batch_outcome(
                *old(self),
                *old(env),
                *feeds,
                claims@,
                r,
                *final(self),
                *final(env),
            ),
    {
        assert(env.effects@ =~= old(env).effects@ + Seq::<Effect>::empty());
        if let Err(e) = self.acquire_reentrancy_lock(env) {
            return Err(e);
        }
        let result = match self.require_open(env) {
            Err(e) => Err(e),
            Ok(_) => {
                proof {
                    lemma_batch_ignores_lock(
                        old(self)@,
                        true,
                        env.ledger,
                        env.float as int,
                        *feeds,
                        claims@,
                    );
                    lemma_batch_computable_ignores_lock(
                        old(self)@,
                        true,
                        env.ledger,
                        env.float as int,
                        *feeds,
                        claims@,
                    );
                    lemma_batch_evolves(
                        old(self)@,
                        env.ledger,
                        env.float as int,
                        *feeds,
                        claims@,
                    );
                    lemma_batch_books(
                        old(self)@,
                        env.ledger,
                        env.float as int,
                        *feeds,
                        claims@,
                    );
                }
                self.apply_all(env, feeds, claims)
            },
        };
        proof {
            types::lemma_guarded_effects(old(env).effects@);
        }
        self.release_reentrancy_lock(env, result)
    }

    /// Applies one claim and publishes its event, under the reentrancy flag: the oracles
    /// are asked while it is set.
    fn apply_one<O: Oracle>(&mut self, env: &mut Env, feeds: &O, claim: &RefundClaim) -> (r: Result<
        (),
        Error,
    >)
        requires
            old(self).reentrancy_lock,
            old(self).wf(),
            old(self)@.initialized(),
            claims::claim_computable(old(self)@, old(env).ledger, *feeds, *claim),
        ensures
            final(self).wf(),
            match claims::claim_error(
                old(self)@,
                old(env).ledger,
                old(env).float as int,
                *feeds,
                *claim,
            ) {
                Some(e) => {
                    &&& r == Err::<(), Error>(e)
                    &&& final(self)@ == old(self)@
                    &&& old(env).unchanged(*final(env))
                },
                None => {
                    &&& r is Ok
                    &&& final(self)@ == claims::claimed(old(self)@, old(env).ledger, *claim)
                    &&& old(env).advanced(
                        *final(env),
                        old(env).float - claim.amount,
                        refund_effects(old(self)@, old(env).ledger, *claim),
                    )
                },
            },
    {
        match self.claim_single(env, feeds, claim) {
            Err(e) => Err(e),
            Ok(event) => {
                env.publish(Event::Refund(event));
                assert(env.effects@ =~= old(env).effects@ + refund_effects(
                    old(self)@,
                    old(env).ledger,
                    *claim,
                ));
                Ok(())
            },
        }
    }

    /// Applies the claims in order, or none of them, under the reentrancy flag.
    #[verifier::rlimit(40)]
    fn apply_all<O: Oracle>(
        &mut self,
        env: &mut Env,
        feeds: &O,
        claims: &Vec<RefundClaim>,
    ) -> (r: Result<(), Error>)
        requires
            old(self).reentrancy_lock,
            old(self).wf(),
            old(self)@.initialized(),
            batch_computable(
                old(self)@,
                old(env).ledger,
                old(env).float as int,
                *feeds,
                claims@,
            ),
        ensures
            final(self).wf(),
            match batch_outcome(
                old(self)@,
                old(env).ledger,
                old(env).float as int,
                *feeds,
                claims@,
            ) {
                Err(e) => {
                    &&& r == Err::<(), Error>(e)
                    &&& final(self)@ == old(self)@
                    &&& old(env).unchanged(*final(env))
                },
                Ok(s) => {
                    &&& r is Ok
                    &&& final(self)@ == s.vault
                    &&& old(env).advanced(*final(env), s.float, s.effects)
                },
            },
    {
        let ghost start = old(self)@;
        let ghost ledger = old(env).ledger;
        let saved = self.refunds.duplicate();
        let float: i128 = env.float;
        let asked: usize = env.effects.len();
        let mut i: usize = 0;
        assert(claims@.take(0) =~= Seq::<RefundClaim>::empty());
        assert(env.effects@ =~= old(env).effects@ + Seq::<Effect>::empty());
        while i < claims.len()
            invariant
                i <= claims.len(),
                self.wf(),
                self@.initialized(),
                saved@ == start.refunds,
                float == old(env).float,
                asked == old(env).effects.len(),
                start == old(self)@,
                start.wf(),
                start.reentrancy_lock,
                ledger == old(env).ledger,
                self@ == (VaultState { refunds: self@.refunds, ..start }),
                batch_computable(start, ledger, float as int, *feeds, claims@),
                batch_outcome(start, ledger, float as int, *feeds, claims@.take(i as int)) matches Ok(
                    s,
                ) && s.vault == self@ && old(env).advanced(*env, s.float, s.effects),
            decreases claims.len() - i,
        {
            let ghost reached = batch_outcome(
                start,
                ledger,
                float as int,
                *feeds,
                claims@.take(i as int),
            )->Ok_0;
            let ghost next = claims@.take(i + 1);
            proof {
                assert(next.drop_last() =~= claims@.take(i as int));
                assert(next.last() == claims@[i as int]);
                claims::lemma_computable_ignores_records(
                    start,
                    self@,
                    ledger,
                    *feeds,
                    claims@[i as int],
                );
            }
            match self.apply_one(env, feeds, &claims[i]) {
                Err(e) => {
                    self.refunds = saved;
                    env.float = float;
                    env.effects.truncate(asked);
                    proof {
                        lemma_refused_batch(start, ledger, float as int, *feeds, claims@, i + 1);
                        assert(env.effects@ =~= old(env).effects@ + Seq::<Effect>::empty());
                    }
                    return Err(e);
                },
                Ok(()) => {
                    assert(env.effects@ =~= old(env).effects@ + (reached.effects + refund_effects(
                        reached.vault,
                        ledger,
                        claims@[i as int],
                    )));
                },
            }
            i = i + 1;
        }
        assert(claims@.take(claims.len() as int) =~= claims@);
        Ok(())
    }

    /// Processes refunds best effort: every item in turn, as by
    /// [`refund`](Self::refund), and for each whether it was applied.
    ///
    /// A refused item does not undo the others. One event reports the whole batch;
    /// no event is published per item. An empty batch does nothing.
    pub fn process_batch<O: Oracle>(
        &mut self,
        env: &mut Env,
        feeds: &O,
        refunds: &Vec<RefundParam>,
    ) -> (r: Result<Vec<bool>, Error>)
        requires
            old(self).wf(),
            process_error(old(self)@, *old(env), refunds@.len()) is None ==> forall|i: int|
                0 <= i < refunds.len() ==> claims::claim_computable(
                    old(self)@,
                    old(env).ledger,
                    *feeds,
                    item_claim(#[trigger] refunds@[i]),
                ),
        ensures
            final(self).wf(),
            process_batch_outcome(
                *old(self),
                *old(env),
                *feeds,
                refunds@,
                r,
                *final(self),
                *final(env),
            ),
    {
        assert(env.effects@ =~= old(env).effects@ + Seq::<Effect>::empty());
        if let Err(e) = self.require_open(env) {
            return Err(e);
        }
        if refunds.len() > MAX_REFUND_BATCH_SIZE as usize {
            return Err(Error::BatchTooLarge);
        }
        if refunds.len() == 0 {
            return Ok(Vec::new());
        }
        let ghost start = self@;
        let ghost ledger = env.ledger;
        let ghost float = env.float as int;
        let mut results: Vec<bool> = Vec::new();
        let mut payment_refs: Vec<BytesN<32>> = Vec::new();
        let mut reported: Vec<bool> = Vec::new();
        let mut i: usize = 0;
        assert(refunds@.take(0) =~= Seq::<RefundParam>::empty());
        while i < refunds.len()
            invariant
                i <= refunds.len(),
                self.wf(),
                self@.initialized(),
                ledger == old(env).ledger,
                float == old(env).float,
                self@ == (VaultState { refunds: self@.refunds, ..start }),
                forall|k: int|
                    0 <= k < refunds.len() ==> claims::claim_computable(
                        start,
                        ledger,
                        *feeds,
                        item_claim(#[trigger] refunds@[k]),
                    ),
                ({
                    let s = process_outcome(
                        start,
                        ledger,
                        float,
                        *feeds,
                        refunds@.take(i as int),
                    );
                    &&& s.vault == self@
                    &&& old(env).advanced(*env, s.float, s.effects)
                    &&& s.results == results@
                }),
                reported@ == results@,
                payment_refs@ == refunds@.take(i as int).map_values(
                    |item: RefundParam| item.payment_ref,
                ),
            decreases refunds.len() - i,
        {
            let item = refunds[i];
            let claim = RefundClaim {
                payment_ref: item.payment_ref,
                recipient: item.recipient,
                amount: item.amount,
                paid_at_ledger: item.paid_at_ledger,
                payment_amount: item.payment_amount,
                vdf_proof: item.vdf_proof,
            };
            let ghost s = process_outcome(start, ledger, float, *feeds, refunds@.take(i as int));
            proof {
                assert(claim == item_claim(refunds@[i as int]));
                assert(refunds@.take(i + 1).drop_last() =~= refunds@.take(i as int));
                assert(refunds@.take(i + 1).last() == refunds@[i as int]);
                claims::lemma_computable_ignores_records(start, self@, ledger, *feeds, claim);
            }
            let applied = self.claim_single(env, feeds, &claim).is_ok();
            proof {
                if applied {
                    assert(env.effects@ =~= old(env).effects@ + (s.effects
                        + claims::claim_effects(s.vault, ledger, claim)));
                } else {
                    assert(env.effects@ =~= old(env).effects@ + s.effects);
                }
            }
            results.push(applied);
            reported.push(applied);
            payment_refs.push(item.payment_ref);
            i = i + 1;
            assert(payment_refs@ =~= refunds@.take(i as int).map_values(
                |item: RefundParam| item.payment_ref,
            ));
        }
        assert(refunds@.take(refunds.len() as int) =~= refunds@);
        proof {
            lemma_process_evolves(start, ledger, float, *feeds, refunds@);
            lemma_process_books(start, ledger, float, *feeds, refunds@);
        }
        let ghost effects = process_outcome(start, ledger, float, *feeds, refunds@).effects;
        env.publish(Event::BatchRefund(BatchRefundEvent { payment_refs, results: reported }));
        env.renew_instance();
        proof {
            let n = env.effects@.len() as int;
            assert(env.effects@ =~= old(env).effects@ + effects.push(env.effects@[n - 2]).push(
                types::renewal(),
            ));
        }
        Ok(results)
    }
}

/// What [`RefundVault::refund`] does.
pub open spec fn refund_outcome<O: Oracle>(
    pre: RefundVault,
    env: Env,
    feeds: O,
    c: RefundClaim,
    r: Result<(), Error>,
    post: RefundVault,
    post_env: Env,
) -> bool {
    types::concludes(
        pre,
        env,
        refund_error(pre@, env, feeds, c),
        claims::claimed(pre@, env.ledger, c),
        env.float - c.amount,
        types::under_lock(refund_effects(pre@, env.ledger, c)),
        history::Booking::Refunds(seq![c]),
        r,
        post,
        post_env,
    )
}

/// Why a single refund is refused.
pub open spec fn refund_error<O: Oracle>(
    v: VaultState,
    env: Env,
    feeds: O,
    c: RefundClaim,
) -> Option<Error> {
    if v.guarded_error(env) is Some {
        v.guarded_error(env)
    } else {
        claims::claim_error(v, env.ledger, env.float as int, feeds, c)
    }
}

/// What [`RefundVault::claim_batch`] does.
pub open spec fn claim_batch_outcome<O: Oracle>(
    pre: RefundVault,
    env: Env,
    feeds: O,
    claims: Seq<RefundClaim>,
    r: Result<(), Error>,
    post: RefundVault,
    post_env: Env,
) -> bool {
    let outcome = batch_outcome(pre@, env.ledger, env.float as int, feeds, claims);
    types::concludes(
        pre,
        env,
        if pre@.guarded_error(env) is Some {
            pre@.guarded_error(env)
        } else {
            outcome.err()
        },
        outcome->Ok_0.vault,
        outcome->Ok_0.float,
        types::under_lock(outcome->Ok_0.effects),
        history::Booking::Refunds(claims),
        r,
        post,
        post_env,
    )
}

/// What [`RefundVault::process_batch`] does.
pub open spec fn process_batch_outcome<O: Oracle>(
    pre: RefundVault,
    env: Env,
    feeds: O,
    items: Seq<RefundParam>,
    r: Result<Vec<bool>, Error>,
    post: RefundVault,
    post_env: Env,
) -> bool {
    &&& pre@.evolves_to(post@)
    &&& match process_error(pre@, env, items.len()) {
        Some(e) => {
            &&& r == Err::<Vec<bool>, Error>(e)
            &&& post@ == pre@
            &&& env.unchanged(post_env)
        },
        None => {
            let s = process_outcome(pre@, env.ledger, env.float as int, feeds, items);
            &&& history::books(
                pre@,
                env.float as int,
                history::Booking::Refunds(applied_claims(items, s.results)),
                post@,
                post_env.float as int,
            )
            &&& r is Ok
            &&& r->Ok_0@ == s.results
            &&& post@ == s.vault
            &&& if items.len() == 0 {
                env.unchanged(post_env)
            } else {
                let n = post_env.effects@.len() as int;
                &&& n >= 2
                &&& reports_batch(post_env.effects@[n - 2], items, s.results)
                &&& env.advanced(
                    post_env,
                    s.float,
                    s.effects.push(post_env.effects@[n - 2]).push(types::renewal()),
                )
            }
        },
    }
}

} // verus!
