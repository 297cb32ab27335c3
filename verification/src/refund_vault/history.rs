//! What the calls book, and what holds of any sequence of them.

use super::types::{RefundClaim, RefundRecord, VaultState};
use crate::primitives::BytesN;
use vstd::prelude::*;

verus! {

/// What a call did to the refunds and to the money. A refused call booked
/// [`Booking::Nothing`].
pub enum Booking {
    Nothing,
    /// Tokens came in from the merchant.
    Deposit(int),
    /// These claims were accepted, in this order.
    Refunds(Seq<RefundClaim>),
    /// Tokens went out to a place of the merchant's choice.
    Withdrawal(int),
    /// `amount` became deployed principal, and `paid` tokens went out for it.
    Deployment { amount: int, paid: int },
    /// The strategy answered that it paid principal and yield to the vault.
    YieldReturn { principal: int, yield_amount: int },
}

impl Booking {
    /// The claims that were accepted.
    pub open spec fn claims(self) -> Seq<RefundClaim> {
        match self {
            Booking::Refunds(claims) => claims,
            _ => Seq::empty(),
        }
    }

    /// What the merchant deposited.
    pub open spec fn deposited(self) -> int {
        match self {
            Booking::Deposit(amount) => amount,
            _ => 0,
        }
    }

    /// What the merchant withdrew.
    pub open spec fn withdrawn(self) -> int {
        match self {
            Booking::Withdrawal(amount) => amount,
            _ => 0,
        }
    }

    /// What was paid out for deployments.
    pub open spec fn paid_to_strategy(self) -> int {
        match self {
            Booking::Deployment { paid, .. } => paid,
            _ => 0,
        }
    }

    /// What the strategy paid to the vault, on its own account.
    pub open spec fn paid_by_strategy(self) -> int {
        match self {
            Booking::YieldReturn { principal, yield_amount } => principal + yield_amount,
            _ => 0,
        }
    }

    /// What was added to the deployed principal.
    pub open spec fn deployed(self) -> int {
        match self {
            Booking::Deployment { amount, .. } => amount,
            Booking::YieldReturn { principal, .. } => -principal,
            _ => 0,
        }
    }

    /// What was added to the harvested yield.
    pub open spec fn harvested(self) -> int {
        match self {
            Booking::YieldReturn { yield_amount, .. } => yield_amount,
            _ => 0,
        }
    }

    /// What was added to the float.
    pub open spec fn inflow(self) -> int {
        self.deposited() - claimed_in_all(self.claims()) - self.withdrawn()
            - self.paid_to_strategy() + self.paid_by_strategy()
    }
}

/// The sum of the claims made for a payment.
pub open spec fn claimed_for(claims: Seq<RefundClaim>, payment_ref: BytesN<32>) -> int
    decreases claims.len(),
{
    if claims.len() == 0 {
        0
    } else {
        claimed_for(claims.drop_last(), payment_ref) + (if claims.last().payment_ref
            == payment_ref {
            claims.last().amount as int
        } else {
            0
        })
    }
}

/// The sum of all claims.
pub open spec fn claimed_in_all(claims: Seq<RefundClaim>) -> int
    decreases claims.len(),
{
    if claims.len() == 0 {
        0
    } else {
        claimed_in_all(claims.drop_last()) + claims.last().amount
    }
}

/// The payment amount that the first claim for a payment gave, if there is one.
pub open spec fn first_ceiling(claims: Seq<RefundClaim>, payment_ref: BytesN<32>) -> Option<int>
    decreases claims.len(),
{
    if claims.len() == 0 {
        None
    } else {
        let earlier = first_ceiling(claims.drop_last(), payment_ref);
        if earlier is Some {
            earlier
        } else if claims.last().payment_ref == payment_ref {
            Some(claims.last().payment_amount as int)
        } else {
            None
        }
    }
}

/// What has been refunded of a payment, and its ceiling.
pub struct Tally {
    pub refunded: int,
    pub ceiling: int,
}

impl VaultState {
    /// The tallies of the refund records.
    pub open spec fn tallies(self) -> Map<BytesN<32>, Tally> {
        self.refunds.map_values(
            |record: RefundRecord|
                Tally {
                    refunded: record.amount_refunded as int,
                    ceiling: record.payment_amount as int,
                },
        )
    }
}

/// The tallies after one more claim: it adds to the tally of its payment, or opens one.
pub open spec fn with_claim(t: Map<BytesN<32>, Tally>, c: RefundClaim) -> Map<BytesN<32>, Tally> {
    t.insert(
        c.payment_ref,
        if t.contains_key(c.payment_ref) {
            Tally {
                refunded: t[c.payment_ref].refunded + c.amount,
                ceiling: t[c.payment_ref].ceiling,
            }
        } else {
            Tally { refunded: c.amount as int, ceiling: c.payment_amount as int }
        },
    )
}

/// The tallies after some claims.
pub open spec fn with_claims(t: Map<BytesN<32>, Tally>, claims: Seq<RefundClaim>) -> Map<
    BytesN<32>,
    Tally,
>
    decreases claims.len(),
{
    if claims.len() == 0 {
        t
    } else {
        with_claim(with_claims(t, claims.drop_last()), claims.last())
    }
}

/// Whether a call that booked `b` can lead from one vault and float to the next. Every
/// call says in its contract what it booked.
///
/// The float only falls below zero where a strategy claims to have paid less than nothing.
pub open spec fn books(v: VaultState, float: int, b: Booking, w: VaultState, after: int) -> bool {
    &&& w.tallies() == with_claims(v.tallies(), b.claims())
    &&& after == float + b.inflow()
    &&& w.deployed() == v.deployed() + b.deployed()
    &&& w.harvested() == v.harvested() + b.harvested()
    &&& float >= 0 && b.paid_by_strategy() >= 0 ==> after >= 0
}

/// The vault and its float between two calls.
pub struct Moment {
    pub vault: VaultState,
    pub float: int,
}

/// Whether each of a sequence of calls booked what leads from one moment to the next. So
/// each call finds the float that the one before it left, and what the strategy said it
/// paid: nobody else moves the vault's tokens, and after a change of the settlement token
/// the vault holds as much of the new one.
pub open spec fn is_history(moments: Seq<Moment>, bookings: Seq<Booking>) -> bool {
    &&& moments.len() == bookings.len() + 1
    &&& forall|i: int|
        #![trigger bookings[i]]
        0 <= i < bookings.len() ==> books(
            moments[i].vault,
            moments[i].float,
            bookings[i],
            moments[i + 1].vault,
            moments[i + 1].float,
        )
}

/// All claims that a sequence of calls accepted, in order.
pub open spec fn all_claims(bookings: Seq<Booking>) -> Seq<RefundClaim>
    decreases bookings.len(),
{
    if bookings.len() == 0 {
        Seq::empty()
    } else {
        all_claims(bookings.drop_last()) + bookings.last().claims()
    }
}

/// The sum of something over a sequence of calls.
pub open spec fn sum_of(bookings: Seq<Booking>, part: spec_fn(Booking) -> int) -> int
    decreases bookings.len(),
{
    if bookings.len() == 0 {
        0
    } else {
        sum_of(bookings.drop_last(), part) + part(bookings.last())
    }
}

/// All deposits of a sequence of calls.
pub open spec fn all_deposits(bookings: Seq<Booking>) -> int {
    sum_of(bookings, |b: Booking| b.deposited())
}

/// All refunds of a sequence of calls.
pub open spec fn all_refunds(bookings: Seq<Booking>) -> int {
    sum_of(bookings, |b: Booking| claimed_in_all(b.claims()))
}

/// All withdrawals of a sequence of calls.
pub open spec fn all_withdrawals(bookings: Seq<Booking>) -> int {
    sum_of(bookings, |b: Booking| b.withdrawn())
}

/// All payments for deployments of a sequence of calls.
pub open spec fn all_paid_to_strategy(bookings: Seq<Booking>) -> int {
    sum_of(bookings, |b: Booking| b.paid_to_strategy())
}

/// All payments of the strategy over a sequence of calls.
pub open spec fn all_paid_by_strategy(bookings: Seq<Booking>) -> int {
    sum_of(bookings, |b: Booking| b.paid_by_strategy())
}

/// Claims made in two goes are tallied as if made in one.
pub proof fn lemma_claims_concatenate(
    t: Map<BytesN<32>, Tally>,
    a: Seq<RefundClaim>,
    b: Seq<RefundClaim>,
)
    ensures
        with_claims(t, a + b) == with_claims(with_claims(t, a), b),
        claimed_in_all(a + b) == claimed_in_all(a) + claimed_in_all(b),
    decreases b.len(),
{
    if b.len() == 0 {
        assert(a + b =~= a);
    } else {
        lemma_claims_concatenate(t, a, b.drop_last());
        assert((a + b).drop_last() =~= a + b.drop_last());
        assert((a + b).last() == b.last());
    }
}

/// A single claim.
pub proof fn lemma_one_claim(t: Map<BytesN<32>, Tally>, c: RefundClaim)
    ensures
        with_claims(t, seq![c]) == with_claim(t, c),
        claimed_in_all(seq![c]) == c.amount,
{
    reveal_with_fuel(with_claims, 2);
    reveal_with_fuel(claimed_in_all, 2);
    assert(seq![c].drop_last() =~= Seq::<RefundClaim>::empty());
}

/// What claims tally from nothing: for each payment their sum, and the ceiling of the
/// first.
proof fn lemma_tallies_from_nothing(claims: Seq<RefundClaim>, payment_ref: BytesN<32>)
    ensures
        ({
            let t = with_claims(Map::<BytesN<32>, Tally>::empty(), claims);
            match first_ceiling(claims, payment_ref) {
                None => !t.contains_key(payment_ref) && claimed_for(claims, payment_ref) == 0,
                Some(ceiling) => {
                    &&& t.contains_key(payment_ref)
                    &&& t[payment_ref].refunded == claimed_for(claims, payment_ref)
                    &&& t[payment_ref].ceiling == ceiling
                },
            }
        }),
    decreases claims.len(),
{
    if claims.len() > 0 {
        lemma_tallies_from_nothing(claims.drop_last(), payment_ref);
    }
}

proof fn lemma_history_tallies(moments: Seq<Moment>, bookings: Seq<Booking>)
    requires
        is_history(moments, bookings),
    ensures
        moments.last().vault.tallies() == with_claims(
            moments[0].vault.tallies(),
            all_claims(bookings),
        ),
    decreases bookings.len(),
{
    if bookings.len() > 0 {
        let n = bookings.len() - 1;
        lemma_history_shortens(moments, bookings);
        lemma_history_tallies(moments.drop_last(), bookings.drop_last());
        assert(moments.drop_last().last() == moments[n]);
        let b = bookings[n];
        lemma_claims_concatenate(
            moments[0].vault.tallies(),
            all_claims(bookings.drop_last()),
            b.claims(),
        );
    }
}

proof fn lemma_history_shortens(moments: Seq<Moment>, bookings: Seq<Booking>)
    requires
        is_history(moments, bookings),
        bookings.len() > 0,
    ensures
        is_history(moments.drop_last(), bookings.drop_last()),
{
    let earlier = moments.drop_last();
    assert forall|i: int|
        #![trigger bookings.drop_last()[i]]
        0 <= i < bookings.len() - 1 implies books(
        earlier[i].vault,
        earlier[i].float,
        bookings.drop_last()[i],
        earlier[i + 1].vault,
        earlier[i + 1].float,
    ) by {
        assert(bookings.drop_last()[i] == bookings[i]);
    }
}

/// Refunds add up: after any sequence of calls on a vault without refunds, with any other
/// calls in between, a payment has a record if and only if a claim for it was accepted.
/// Its refunded total is the sum of the accepted claims for it, its ceiling that of the
/// first, and the total is positive and within the ceiling.
pub proof fn law_records_add_up(
    moments: Seq<Moment>,
    bookings: Seq<Booking>,
    payment_ref: BytesN<32>,
)
    requires
        is_history(moments, bookings),
        moments[0].vault.refunds == Map::<BytesN<32>, RefundRecord>::empty(),
        moments.last().vault.wf(),
    ensures
        ({
            let refunds = moments.last().vault.refunds;
            let claims = all_claims(bookings);
            match first_ceiling(claims, payment_ref) {
                None => !refunds.contains_key(payment_ref),
                Some(ceiling) => {
                    &&& refunds.contains_key(payment_ref)
                    &&& refunds[payment_ref].amount_refunded == claimed_for(claims, payment_ref)
                    &&& refunds[payment_ref].payment_amount == ceiling
                    &&& 0 < claimed_for(claims, payment_ref) <= ceiling
                },
            }
        }),
{
    assert(moments[0].vault.tallies() =~= Map::<BytesN<32>, Tally>::empty());
    lemma_history_tallies(moments, bookings);
    lemma_tallies_from_nothing(all_claims(bookings), payment_ref);
    let t = moments.last().vault.tallies();
    assert(t.contains_key(payment_ref) <==> moments.last().vault.refunds.contains_key(
        payment_ref,
    ));
}

/// The float is accounted for: after any sequence of calls it is what it was, and all
/// deposits and payments of the strategy, less all refunds, withdrawals and payments to
/// the strategy. The refunds are the claims that were accepted. The float never falls below
/// zero while the strategy pays no negative amounts, so no more goes out than has come in.
pub proof fn law_float_is_accounted_for(moments: Seq<Moment>, bookings: Seq<Booking>)
    requires
        is_history(moments, bookings),
    ensures
        moments.last().float == moments[0].float + all_deposits(bookings) - all_refunds(bookings)
            - all_withdrawals(bookings) - all_paid_to_strategy(bookings) + all_paid_by_strategy(
            bookings,
        ),
        all_refunds(bookings) == claimed_in_all(all_claims(bookings)),
        moments[0].float >= 0 && (forall|i: int|
            0 <= i < bookings.len() ==> (#[trigger] bookings[i]).paid_by_strategy() >= 0)
            ==> moments.last().float >= 0,
    decreases bookings.len(),
{
    if bookings.len() > 0 {
        let n = bookings.len() - 1;
        lemma_history_shortens(moments, bookings);
        law_float_is_accounted_for(moments.drop_last(), bookings.drop_last());
        assert(moments.drop_last().last() == moments[n]);
        let b = bookings[n];
        lemma_claims_concatenate(
            moments[0].vault.tallies(),
            all_claims(bookings.drop_last()),
            b.claims(),
        );
        assert(forall|i: int|
            0 <= i < n ==> #[trigger] bookings.drop_last()[i] == bookings[i]);
    }
}

/// Without a strategy the float of a vault that started empty is all deposits less all
/// refunds and all withdrawals, and never below zero.
pub proof fn law_float_is_deposits_less_refunds_and_withdrawals(
    moments: Seq<Moment>,
    bookings: Seq<Booking>,
)
    requires
        is_history(moments, bookings),
        moments[0].float == 0,
        forall|i: int|
            0 <= i < bookings.len() ==> !((#[trigger] bookings[i]) is Deployment)
                && !(bookings[i] is YieldReturn),
    ensures
        moments.last().float == all_deposits(bookings) - all_refunds(bookings) - all_withdrawals(
            bookings,
        ),
        moments.last().float >= 0,
{
    law_float_is_accounted_for(moments, bookings);
    lemma_no_strategy_no_payments(bookings);
}

proof fn lemma_no_strategy_no_payments(bookings: Seq<Booking>)
    requires
        forall|i: int|
            0 <= i < bookings.len() ==> !((#[trigger] bookings[i]) is Deployment)
                && !(bookings[i] is YieldReturn),
    ensures
        all_paid_to_strategy(bookings) == 0,
        all_paid_by_strategy(bookings) == 0,
    decreases bookings.len(),
{
    if bookings.len() > 0 {
        assert(forall|i: int|
            0 <= i < bookings.len() - 1 ==> #[trigger] bookings.drop_last()[i] == bookings[i]);
        lemma_no_strategy_no_payments(bookings.drop_last());
        let last = bookings[bookings.len() - 1];
    }
}

/// A refused call moves nothing.
pub proof fn law_refused_call_moves_nothing(v: VaultState, float: int, w: VaultState, after: int)
    requires
        books(v, float, Booking::Nothing, w, after),
    ensures
        after == float,
        w.tallies() == v.tallies(),
        w.total_value(after) == v.total_value(float),
{
}

/// Deploying and getting back keeps the total value (liquid tokens and deployed principal,
/// less the harvested yield): returned principal moves from deployed to liquid, and yield
/// adds as much to the tokens as to what is set apart.
pub proof fn law_yield_keeps_the_total_value(
    v: VaultState,
    float: int,
    b: Booking,
    w: VaultState,
    after: int,
)
    requires
        books(v, float, b, w, after),
        b is YieldReturn || (b matches Booking::Deployment { amount, paid } && paid == amount),
    ensures
        w.total_value(after) == v.total_value(float),
{
}

/// The total value is what the merchant put in: after any sequence of calls it is what it
/// was, and all deposits less all refunds and withdrawals, whatever was deployed and got
/// back. Every deployment has to have been paid; the one that is not goes to the vault
/// itself.
pub proof fn law_total_value_is_accounted_for(moments: Seq<Moment>, bookings: Seq<Booking>)
    requires
        is_history(moments, bookings),
        forall|i: int|
            0 <= i < bookings.len() ==> ((#[trigger] bookings[i]) matches Booking::Deployment {
                amount,
                paid,
            } ==> paid == amount),
    ensures
        moments.last().vault.total_value(moments.last().float) == moments[0].vault.total_value(
            moments[0].float,
        ) + all_deposits(bookings) - all_refunds(bookings) - all_withdrawals(bookings),
    decreases bookings.len(),
{
    if bookings.len() > 0 {
        let n = bookings.len() - 1;
        lemma_history_shortens(moments, bookings);
        assert(forall|i: int|
            0 <= i < n ==> #[trigger] bookings.drop_last()[i] == bookings[i]);
        law_total_value_is_accounted_for(moments.drop_last(), bookings.drop_last());
        assert(moments.drop_last().last() == moments[n]);
        let b = bookings[n];
    }
}

} // verus!
