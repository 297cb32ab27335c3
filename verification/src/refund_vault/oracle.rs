//! Oracle aggregation for dynamic refund policies.
//!
//! The vault asks every whitelisted oracle for the same feed, drops stale values
//! and takes the median of the rest, so no single provider can move the price. It
//! fails closed: without a fresh value the policy cannot be evaluated and refunds
//! are refused.

use crate::error::Error;
use crate::primitives::{Address, BytesN, Key, Table};
use vstd::multiset::*;
use vstd::prelude::*;
use vstd::relations::*;
use vstd::seq_lib::*;

verus! {

/// The price oracles that the vault can reach, by contract address.
///
/// A `feed_id` is an opaque identifier of the value being queried; prices are in
/// the feed's own fixed-point scale. The answers have names. Where an implementation
/// does not define a name, it stands for one fixed, unspecified value, whatever the oracle
/// and the feed.
pub trait Oracle {
    /// What the oracle at `oracle` answers to `get_price`.
    open spec fn price(&self, oracle: Address, feed_id: BytesN<32>) -> i128 {
        arbitrary()
    }

    /// What the oracle at `oracle` answers to `get_last_update_ledger`.
    open spec fn last_update(&self, oracle: Address, feed_id: BytesN<32>) -> u32 {
        arbitrary()
    }

    /// Latest value of the feed.
    fn get_price(&self, oracle: Address, feed_id: BytesN<32>) -> (r: i128)
        ensures
            r == self.price(oracle, feed_id),
    ;

    /// Ledger at which the feed was last updated.
    fn get_last_update_ledger(&self, oracle: Address, feed_id: BytesN<32>) -> (r: u32)
        ensures
            r == self.last_update(oracle, feed_id),
    ;
}

/// A value that an oracle reported, and when.
#[derive(Clone, Copy, Debug, PartialEq, Eq)]
pub struct Quote {
    pub price: i128,
    pub last_update: u32,
}

/// One feed of one oracle.
#[derive(Clone, Copy, Debug, PartialEq, Eq)]
pub struct FeedKey {
    pub oracle: Address,
    pub feed_id: BytesN<32>,
}

impl Key for FeedKey {
    fn same(&self, other: &Self) -> (r: bool) {
        self.oracle == other.oracle && self.feed_id == other.feed_id
    }
}

/// Oracles kept in memory: the last quote of each oracle for each feed. A feed
/// that was never set reads as zero, last updated at ledger zero.
#[derive(Debug)]
pub struct FeedTable {
    pub quotes: Table<FeedKey, Quote>,
}

impl FeedTable {
    /// A table without quotes.
    pub fn new() -> (r: Self)
        ensures
            r.quotes@ == Map::<FeedKey, Quote>::empty(),
    {
        FeedTable { quotes: Table::new() }
    }

    /// Records that `oracle` reports `price` for the feed since ledger `sequence`.
    pub fn set_price(&mut self, oracle: Address, feed_id: BytesN<32>, price: i128, sequence: u32)
        ensures
            final(self).quotes@ == old(self).quotes@.insert(
                (FeedKey { oracle, feed_id }),
                (Quote { price, last_update: sequence }),
            ),
    {
        self.quotes.set(FeedKey { oracle, feed_id }, Quote { price, last_update: sequence });
    }
}

impl Oracle for FeedTable {
    open spec fn price(&self, oracle: Address, feed_id: BytesN<32>) -> i128 {
        if self.quotes@.contains_key((FeedKey { oracle, feed_id })) {
            self.quotes@[(FeedKey { oracle, feed_id })].price
        } else {
            0
        }
    }

    open spec fn last_update(&self, oracle: Address, feed_id: BytesN<32>) -> u32 {
        if self.quotes@.contains_key((FeedKey { oracle, feed_id })) {
            self.quotes@[(FeedKey { oracle, feed_id })].last_update
        } else {
            0
        }
    }

    fn get_price(&self, oracle: Address, feed_id: BytesN<32>) -> (r: i128) {
        match self.quotes.get(FeedKey { oracle, feed_id }) {
            Some(quote) => quote.price,
            None => 0,
        }
    }

    fn get_last_update_ledger(&self, oracle: Address, feed_id: BytesN<32>) -> (r: u32) {
        match self.quotes.get(FeedKey { oracle, feed_id }) {
            Some(quote) => quote.last_update,
            None => 0,
        }
    }
}

/// A refund condition on an external value.
///
/// Refunds are permitted while the median of the whitelisted oracles is strictly
/// below `threshold`, or strictly above it when `refund_when_below` is false.
#[derive(Clone, Copy, Debug, PartialEq, Eq)]
pub struct OraclePolicy {
    /// The feed that the policy evaluates.
    pub feed_id: BytesN<32>,
    /// The median at which the condition flips, in the feed's scale.
    pub threshold: i128,
    /// Largest allowed age of a value in ledgers; 0 means never stale.
    pub max_staleness_ledgers: u32,
    /// Direction of the comparison.
    pub refund_when_below: bool,
}

/// Whether a value last updated at `last_update` is too old at ledger `sequence`.
pub open spec fn is_stale(last_update: u32, max_staleness_ledgers: u32, sequence: u32) -> bool {
    max_staleness_ledgers > 0 && last_update + max_staleness_ledgers < sequence
}

/// The values of the oracles that are not stale, in whitelist order.
pub open spec fn fresh_prices<O: Oracle>(
    feeds: O,
    oracles: Seq<Address>,
    feed_id: BytesN<32>,
    max_staleness_ledgers: u32,
    sequence: u32,
) -> Seq<i128>
    decreases oracles.len(),
{
    if oracles.len() == 0 {
        Seq::empty()
    } else {
        let rest = fresh_prices(
            feeds,
            oracles.drop_last(),
            feed_id,
            max_staleness_ledgers,
            sequence,
        );
        if is_stale(feeds.last_update(oracles.last(), feed_id), max_staleness_ledgers, sequence) {
            rest
        } else {
            rest.push(feeds.price(oracles.last(), feed_id))
        }
    }
}

/// The order by which prices are sorted.
pub open spec fn at_most() -> spec_fn(i128, i128) -> bool {
    |a: i128, b: i128| a <= b
}

/// The prices in ascending order.
pub open spec fn ascending(prices: Seq<i128>) -> Seq<i128> {
    prices.sort_by(at_most())
}

/// The middle value of a sorted sequence; of an even number, the lower middle plus
/// half the gap to the upper one.
pub open spec fn middle(sorted: Seq<i128>) -> int {
    let mid = sorted.len() as int / 2;
    if sorted.len() % 2 == 1 {
        sorted[mid] as int
    } else {
        sorted[mid - 1] + (sorted[mid] - sorted[mid - 1]) / 2
    }
}

/// The median of the prices.
pub open spec fn median_of(prices: Seq<i128>) -> int {
    middle(ascending(prices))
}

/// Whether the gap between the two middle values fits the number type, so that an
/// even number of prices can be averaged.
pub open spec fn median_fits(prices: Seq<i128>) -> bool {
    let sorted = ascending(prices);
    let mid = sorted.len() as int / 2;
    sorted.len() > 0 && sorted.len() % 2 == 0 ==> sorted[mid] - sorted[mid - 1] <= i128::MAX
}

/// What the aggregator answers for a whitelist.
pub open spec fn median_answer<O: Oracle>(
    feeds: O,
    oracles: Option<Seq<Address>>,
    feed_id: BytesN<32>,
    max_staleness_ledgers: u32,
    sequence: u32,
) -> Result<int, Error> {
    if oracles is None || oracles->0.len() == 0 {
        Err(Error::NoOraclesConfigured)
    } else {
        let prices = fresh_prices(feeds, oracles->0, feed_id, max_staleness_ledgers, sequence);
        if prices.len() == 0 {
            Err(Error::StaleOracleData)
        } else {
            Ok(median_of(prices))
        }
    }
}

/// Whether the aggregator can compute its answer without overflow.
pub open spec fn median_computable<O: Oracle>(
    feeds: O,
    oracles: Option<Seq<Address>>,
    feed_id: BytesN<32>,
    max_staleness_ledgers: u32,
    sequence: u32,
) -> bool {
    oracles is Some ==> median_fits(
        fresh_prices(feeds, oracles->0, feed_id, max_staleness_ledgers, sequence),
    )
}

/// Whether a median satisfies a policy.
pub open spec fn policy_permits(policy: OraclePolicy, median: int) -> bool {
    if policy.refund_when_below {
        median < policy.threshold
    } else {
        median > policy.threshold
    }
}

proof fn lemma_at_most_is_total()
    ensures
        total_ordering(at_most()),
{
}

proof fn lemma_ascending(prices: Seq<i128>, sorted: Seq<i128>)
    requires
        sorted.to_multiset() == prices.to_multiset(),
        forall|a: int, b: int| 0 <= a < b < sorted.len() ==> sorted[a] <= sorted[b],
    ensures
        sorted == ascending(prices),
{
    lemma_at_most_is_total();
    prices.lemma_sort_by_ensures(at_most());
    assert(sorted_by(sorted, at_most()));
    lemma_sorted_unique(sorted, ascending(prices), at_most());
}

proof fn lemma_ascending_ensures(prices: Seq<i128>)
    ensures
        ascending(prices).to_multiset() == prices.to_multiset(),
        ascending(prices).len() == prices.len(),
        forall|a: int, b: int|
            0 <= a <= b < prices.len() ==> ascending(prices)[a] <= ascending(prices)[b],
{
    lemma_at_most_is_total();
    prices.lemma_sort_by_ensures(at_most());
    broadcast use group_to_multiset_ensures;

    assert(prices.len() == prices.to_multiset().len());
    assert(ascending(prices).len() == ascending(prices).to_multiset().len());
    assert forall|a: int, b: int| 0 <= a <= b < prices.len() implies ascending(prices)[a]
        <= ascending(prices)[b] by {
        if a < b {
            assert(at_most()(ascending(prices)[a], ascending(prices)[b]));
        }
    }
}

/// Sorts the prices in place, by insertion: a whitelist is small.
fn sort(prices: &mut Vec<i128>)
    ensures
        final(prices)@ == ascending(old(prices)@),
{
    let n: usize = prices.len();
    let mut i: usize = 1;
    while i < n
        invariant
            n == prices.len(),
            1 <= i,
            prices@.to_multiset() == old(prices)@.to_multiset(),
            forall|a: int, b: int| 0 <= a < b < i && b < n ==> prices@[a] <= prices@[b],
        decreases n - i,
    {
        let mut j: usize = i;
        while j > 0 && prices[j - 1] > prices[j]
            invariant
                n == prices.len(),
                j <= i < n,
                prices@.to_multiset() == old(prices)@.to_multiset(),
                forall|a: int, b: int|
                    0 <= a < b <= i && a != j && b != j ==> prices@[a] <= prices@[b],
                forall|b: int| j < b <= i ==> prices@[j as int] <= prices@[b],
            decreases j,
        {
            let ghost before = prices@;
            let key: i128 = prices[j];
            let prev: i128 = prices[j - 1];
            prices.set(j, prev);
            prices.set(j - 1, key);
            proof {
                broadcast use group_multiset_axioms;
                broadcast use group_multiset_properties;

                to_multiset_update(before, j as int, prev);
                to_multiset_update(before.update(j as int, prev), j - 1, key);
                to_multiset_contains(before, key);
                to_multiset_contains(before, prev);
                assert(before[j as int] == key && before[j - 1] == prev);
                assert(before.contains(key) && before.contains(prev));
                assert(prices@.to_multiset() =~= before.to_multiset());
            }
            j = j - 1;
        }
        i = i + 1;
    }
    proof {
        lemma_ascending(old(prices)@, prices@);
    }
}

/// Median of a small collection, sorting it in place.
pub fn median(prices: &mut Vec<i128>) -> (r: i128)
    requires
        old(prices).len() > 0,
        median_fits(old(prices)@),
    ensures
        final(prices)@ == ascending(old(prices)@),
        r == median_of(old(prices)@),
{
    sort(prices);
    proof {
        lemma_ascending_ensures(old(prices)@);
    }
    let n: usize = prices.len();
    let mid: usize = n / 2;
    if n % 2 == 1 {
        prices[mid]
    } else {
        let hi: i128 = prices[mid];
        let lo: i128 = prices[mid - 1];
        lo + (hi - lo) / 2
    }
}

/// Asks every oracle and keeps the fresh values, in whitelist order.
fn collect_fresh<O: Oracle>(
    feeds: &O,
    oracles: &Vec<Address>,
    feed_id: BytesN<32>,
    max_staleness_ledgers: u32,
    sequence: u32,
) -> (r: Vec<i128>)
    ensures
        r@ == fresh_prices(*feeds, oracles@, feed_id, max_staleness_ledgers, sequence),
{
    let mut prices: Vec<i128> = Vec::new();
    let mut i: usize = 0;
    assert(oracles@.take(0) =~= Seq::<Address>::empty());
    while i < oracles.len()
        invariant
            i <= oracles.len(),
            prices@ == fresh_prices(
                *feeds,
                oracles@.take(i as int),
                feed_id,
                max_staleness_ledgers,
                sequence,
            ),
        decreases oracles.len() - i,
    {
        let oracle = oracles[i];
        assert(oracles@.take(i + 1).drop_last() =~= oracles@.take(i as int));
        let last_update: u32 = feeds.get_last_update_ledger(oracle, feed_id);
        let stale = max_staleness_ledgers > 0 && last_update.saturating_add(max_staleness_ledgers)
            < sequence;
        if !stale {
            prices.push(feeds.get_price(oracle, feed_id));
        }
        i = i + 1;
    }
    assert(oracles@.take(oracles.len() as int) =~= oracles@);
    prices
}

/// Whether the aggregator can compute its answer without overflow.
pub fn median_in_range<O: Oracle>(
    feeds: &O,
    oracles: &Option<Vec<Address>>,
    feed_id: BytesN<32>,
    max_staleness_ledgers: u32,
    sequence: u32,
) -> (r: bool)
    ensures
        r == median_computable(
            *feeds,
            super::types::whitelist_view(*oracles),
            feed_id,
            max_staleness_ledgers,
            sequence,
        ),
{
    match oracles {
        None => true,
        Some(list) => {
            let mut prices = collect_fresh(feeds, list, feed_id, max_staleness_ledgers, sequence);
            let ghost reported = prices@;
            sort(&mut prices);
            proof {
                lemma_ascending_ensures(reported);
            }
            let n: usize = prices.len();
            if n == 0 || n % 2 == 1 {
                true
            } else {
                prices[n / 2].checked_sub(prices[n / 2 - 1]).is_some()
            }
        },
    }
}

/// Aggregates the median of the fresh values of every whitelisted oracle.
pub fn median_price<O: Oracle>(
    feeds: &O,
    oracles: &Option<Vec<Address>>,
    feed_id: BytesN<32>,
    max_staleness_ledgers: u32,
    sequence: u32,
) -> (r: Result<i128, Error>)
    requires
        median_computable(
            *feeds,
            super::types::whitelist_view(*oracles),
            feed_id,
            max_staleness_ledgers,
            sequence,
        ),
    ensures
        match median_answer(
            *feeds,
            super::types::whitelist_view(*oracles),
            feed_id,
            max_staleness_ledgers,
            sequence,
        ) {
            Ok(m) => r is Ok && r->Ok_0 == m,
            Err(e) => r == Err::<i128, Error>(e),
        },
{
    match oracles {
        None => Err(Error::NoOraclesConfigured),
        Some(list) => {
            if list.len() == 0 {
                return Err(Error::NoOraclesConfigured);
            }
            let mut prices = collect_fresh(feeds, list, feed_id, max_staleness_ledgers, sequence);
            if prices.len() == 0 {
                return Err(Error::StaleOracleData);
            }
            Ok(median(&mut prices))
        },
    }
}

/// Evaluates a policy against the aggregated median: whether refunds are permitted.
pub fn evaluate_policy<O: Oracle>(
    feeds: &O,
    oracles: &Option<Vec<Address>>,
    policy: &OraclePolicy,
    sequence: u32,
) -> (r: Result<bool, Error>)
    requires
        median_computable(
            *feeds,
            super::types::whitelist_view(*oracles),
            policy.feed_id,
            policy.max_staleness_ledgers,
            sequence,
        ),
    ensures
        match median_answer(
            *feeds,
            super::types::whitelist_view(*oracles),
            policy.feed_id,
            policy.max_staleness_ledgers,
            sequence,
        ) {
            Ok(m) => r == Ok::<bool, Error>(policy_permits(*policy, m)),
            Err(e) => r == Err::<bool, Error>(e),
        },
{
    match median_price(feeds, oracles, policy.feed_id, policy.max_staleness_ledgers, sequence) {
        Ok(median) => if policy.refund_when_below {
            Ok(median < policy.threshold)
        } else {
            Ok(median > policy.threshold)
        },
        Err(e) => Err(e),
    }
}

/// How many of the prices lie between `lo` and `hi`.
pub open spec fn count_within(prices: Seq<i128>, lo: int, hi: int) -> nat
    decreases prices.len(),
{
    if prices.len() == 0 {
        0
    } else {
        count_within(prices.drop_last(), lo, hi) + (if lo <= prices.last() <= hi {
            1nat
        } else {
            0nat
        })
    }
}

proof fn lemma_count_within_is_order_independent(prices: Seq<i128>, lo: int, hi: int)
    ensures
        count_within(prices, lo, hi) == prices.to_multiset().filter(
            |p: i128| lo <= p <= hi,
        ).len(),
    decreases prices.len(),
{
    broadcast use group_multiset_axioms;
    broadcast use group_to_multiset_ensures;

    let inside = |p: i128| lo <= p <= hi;
    if prices.len() == 0 {
        assert(prices.to_multiset().len() == 0);
        assert(prices.to_multiset().filter(inside) =~= Multiset::empty());
    } else {
        let rest = prices.drop_last();
        lemma_count_within_is_order_independent(rest, lo, hi);
        assert(prices =~= rest.push(prices.last()));
        let whole = prices.to_multiset();
        assert(whole =~= rest.to_multiset().insert(prices.last()));
        if inside(prices.last()) {
            assert(whole.filter(inside) =~= rest.to_multiset().filter(inside).insert(
                prices.last(),
            ));
        } else {
            assert(whole.filter(inside) =~= rest.to_multiset().filter(inside));
        }
    }
}

proof fn lemma_count_within_bound(prices: Seq<i128>, lo: int, hi: int, from: int, to: int)
    requires
        0 <= from <= to <= prices.len(),
        forall|i: int| from <= i < to ==> !(lo <= #[trigger] prices[i] <= hi),
    ensures
        count_within(prices, lo, hi) <= prices.len() - (to - from),
    decreases prices.len(),
{
    if prices.len() > 0 {
        let rest = prices.drop_last();
        if to == prices.len() {
            if from < to {
                lemma_count_within_bound(rest, lo, hi, from, to - 1);
            } else {
                lemma_count_within_bound(rest, lo, hi, 0, 0);
            }
        } else {
            lemma_count_within_bound(rest, lo, hi, from, to);
        }
    }
}

/// The median does not depend on the order in which the prices were reported.
pub proof fn law_median_is_order_independent(a: Seq<i128>, b: Seq<i128>)
    requires
        a.to_multiset() == b.to_multiset(),
    ensures
        median_of(a) == median_of(b),
{
    lemma_ascending_ensures(a);
    lemma_ascending_ensures(b);
    lemma_ascending(b, ascending(a));
}

/// Moving the median takes a majority: while more than half of the prices lie
/// between `lo` and `hi`, so does the median, whatever the others are.
pub proof fn law_median_stays_with_the_majority(prices: Seq<i128>, lo: int, hi: int)
    requires
        2 * count_within(prices, lo, hi) > prices.len(),
    ensures
        lo <= median_of(prices) <= hi,
{
    let sorted = ascending(prices);
    lemma_ascending_ensures(prices);
    lemma_count_within_is_order_independent(prices, lo, hi);
    lemma_count_within_is_order_independent(sorted, lo, hi);
    lemma_count_within_bound(sorted, lo, hi, 0, 0);
    let n = prices.len() as int;
    let mid = n / 2;
    let low = if n % 2 == 1 {
        mid
    } else {
        mid - 1
    };
    if sorted[low] < lo {
        assert forall|i: int| 0 <= i < low + 1 implies !(lo <= #[trigger] sorted[i] <= hi) by {
            assert(sorted[i] <= sorted[low]);
        }
        lemma_count_within_bound(sorted, lo, hi, 0, low + 1);
    }
    if sorted[mid] > hi {
        assert forall|i: int| mid <= i < n implies !(lo <= #[trigger] sorted[i] <= hi) by {
            assert(sorted[mid] <= sorted[i]);
        }
        lemma_count_within_bound(sorted, lo, hi, mid, n);
    }
    assert(sorted[low] <= sorted[mid]);
}

/// Whether the oracle's value is at most `max_staleness_ledgers` old at ledger `sequence`,
/// or age does not matter, and lies between `lo` and `hi`.
pub open spec fn reports_within<O: Oracle>(
    feeds: O,
    oracle: Address,
    feed_id: BytesN<32>,
    max_staleness_ledgers: u32,
    sequence: u32,
    lo: int,
    hi: int,
) -> bool {
    &&& max_staleness_ledgers == 0 || sequence <= feeds.last_update(oracle, feed_id)
        + max_staleness_ledgers
    &&& lo <= feeds.price(oracle, feed_id) <= hi
}

/// How many of the oracles report a fresh value between `lo` and `hi`.
pub open spec fn reporters<O: Oracle>(
    feeds: O,
    oracles: Seq<Address>,
    feed_id: BytesN<32>,
    max_staleness_ledgers: u32,
    sequence: u32,
    lo: int,
    hi: int,
) -> nat
    decreases oracles.len(),
{
    if oracles.len() == 0 {
        0
    } else {
        reporters(
            feeds,
            oracles.drop_last(),
            feed_id,
            max_staleness_ledgers,
            sequence,
            lo,
            hi,
        ) + (if reports_within(
            feeds,
            oracles.last(),
            feed_id,
            max_staleness_ledgers,
            sequence,
            lo,
            hi,
        ) {
            1nat
        } else {
            0nat
        })
    }
}

/// Every fresh oracle counts once: as many prices enter the median as there are oracles
/// that are not stale, and each value as often as such oracles report it.
pub proof fn law_every_fresh_oracle_counts_once<O: Oracle>(
    feeds: O,
    oracles: Seq<Address>,
    feed_id: BytesN<32>,
    max_staleness_ledgers: u32,
    sequence: u32,
    lo: int,
    hi: int,
)
    ensures
        ({
            let prices = fresh_prices(feeds, oracles, feed_id, max_staleness_ledgers, sequence);
            &&& prices.len() == reporters(
                feeds,
                oracles,
                feed_id,
                max_staleness_ledgers,
                sequence,
                i128::MIN as int,
                i128::MAX as int,
            )
            &&& count_within(prices, lo, hi) == reporters(
                feeds,
                oracles,
                feed_id,
                max_staleness_ledgers,
                sequence,
                lo,
                hi,
            )
            &&& forall|p: i128|
                #![trigger prices.to_multiset().count(p)]
                prices.to_multiset().count(p) == reporters(
                    feeds,
                    oracles,
                    feed_id,
                    max_staleness_ledgers,
                    sequence,
                    p as int,
                    p as int,
                )
        }),
    decreases oracles.len(),
{
    broadcast use group_to_multiset_ensures;
    broadcast use group_multiset_axioms;

    let prices = fresh_prices(feeds, oracles, feed_id, max_staleness_ledgers, sequence);
    if oracles.len() == 0 {
        assert(prices.to_multiset() =~= Multiset::empty());
    } else {
        let rest = fresh_prices(
            feeds,
            oracles.drop_last(),
            feed_id,
            max_staleness_ledgers,
            sequence,
        );
        law_every_fresh_oracle_counts_once(
            feeds,
            oracles.drop_last(),
            feed_id,
            max_staleness_ledgers,
            sequence,
            lo,
            hi,
        );
        let price = feeds.price(oracles.last(), feed_id);
        if prices != rest {
            assert(prices == rest.push(price));
            assert(prices.drop_last() =~= rest);
            assert(prices.to_multiset() =~= rest.to_multiset().insert(price));
        }
        assert forall|p: i128|
            #![trigger prices.to_multiset().count(p)]
            prices.to_multiset().count(p) == reporters(
            feeds,
            oracles,
            feed_id,
            max_staleness_ledgers,
            sequence,
            p as int,
            p as int,
        ) by {
            assert(rest.to_multiset().count(p) == reporters(
                feeds,
                oracles.drop_last(),
                feed_id,
                max_staleness_ledgers,
                sequence,
                p as int,
                p as int,
            ));
        }
    }
}

proof fn lemma_count_within_at_least(prices: Seq<i128>, lo: int, hi: int, from: int, to: int)
    requires
        0 <= from <= to <= prices.len(),
        forall|i: int| from <= i < to ==> lo <= #[trigger] prices[i] <= hi,
    ensures
        count_within(prices, lo, hi) >= to - from,
    decreases prices.len(),
{
    if prices.len() > 0 {
        let rest = prices.drop_last();
        if to == prices.len() {
            if from < to {
                lemma_count_within_at_least(rest, lo, hi, from, to - 1);
            }
        } else {
            lemma_count_within_at_least(rest, lo, hi, from, to);
        }
    }
}

/// What the aggregator answers is the median over the fresh oracles themselves: halfway,
/// rounded down, between two reported values, the lower of which at least half of them
/// report or stay below, and fewer than half stay below; and the upper likewise from above.
/// This fixes the answer. Without oracles, or without a fresh one, it is an error.
///
/// Returns the two values, which are the same one where an odd number of oracles is fresh.
pub proof fn law_answer_is_the_median_of_the_oracles<O: Oracle>(
    feeds: O,
    oracles: Option<Seq<Address>>,
    feed_id: BytesN<32>,
    max_staleness_ledgers: u32,
    sequence: u32,
) -> (middle: (i128, i128))
    ensures
        ({
            let answer = median_answer(
                feeds,
                oracles,
                feed_id,
                max_staleness_ledgers,
                sequence,
            );
            let count = |lo: int, hi: int|
                reporters(
                    feeds,
                    oracles->0,
                    feed_id,
                    max_staleness_ledgers,
                    sequence,
                    lo,
                    hi,
                );
            let (least, most) = (i128::MIN as int, i128::MAX as int);
            let all = count(least, most);
            let (a, b) = middle;
            if oracles is None || oracles->0.len() == 0 {
                answer == Err::<int, Error>(Error::NoOraclesConfigured)
            } else if all == 0 {
                answer == Err::<int, Error>(Error::StaleOracleData)
            } else {
                &&& answer matches Ok(m) && a <= m <= b && 2 * (m - a) <= b - a < 2 * (m - a) + 2
                &&& count(a as int, a as int) > 0
                &&& count(b as int, b as int) > 0
                &&& 2 * count(least, a - 1) < all <= 2 * count(least, a as int)
                &&& 2 * count(b + 1, most) < all <= 2 * count(b as int, most)
            }
        }),
{
    if oracles is Some && oracles->0.len() > 0 {
        let list = oracles->0;
        law_every_fresh_oracle_counts_once(
            feeds,
            list,
            feed_id,
            max_staleness_ledgers,
            sequence,
            0,
            0,
        );
        if fresh_prices(feeds, list, feed_id, max_staleness_ledgers, sequence).len() > 0 {
            lemma_median_of_oracles(feeds, list, feed_id, max_staleness_ledgers, sequence)
        } else {
            (0, 0)
        }
    } else {
        (0, 0)
    }
}

proof fn lemma_median_of_oracles<O: Oracle>(
    feeds: O,
    list: Seq<Address>,
    feed_id: BytesN<32>,
    max_staleness_ledgers: u32,
    sequence: u32,
) -> (middle: (i128, i128))
    requires
        fresh_prices(feeds, list, feed_id, max_staleness_ledgers, sequence).len() > 0,
    ensures
        ({
            let m = median_of(
                fresh_prices(feeds, list, feed_id, max_staleness_ledgers, sequence),
            );
            let count = |lo: int, hi: int|
                reporters(feeds, list, feed_id, max_staleness_ledgers, sequence, lo, hi);
            let (least, most) = (i128::MIN as int, i128::MAX as int);
            let all = count(least, most);
            let (a, b) = middle;
            &&& a <= m <= b
            &&& 2 * (m - a) <= b - a < 2 * (m - a) + 2
            &&& count(a as int, a as int) > 0
            &&& count(b as int, b as int) > 0
            &&& 2 * count(least, a - 1) < all <= 2 * count(least, a as int)
            &&& 2 * count(b + 1, most) < all <= 2 * count(b as int, most)
        }),
{
    let prices = fresh_prices(feeds, list, feed_id, max_staleness_ledgers, sequence);
    let (least, most) = (i128::MIN as int, i128::MAX as int);
    law_every_fresh_oracle_counts_once(
        feeds,
        list,
        feed_id,
        max_staleness_ledgers,
        sequence,
        least,
        most,
    );
    let sorted = ascending(prices);
    lemma_ascending_ensures(prices);
    let n = prices.len() as int;
    let mid = n / 2;
    let low = if n % 2 == 1 {
        mid
    } else {
        mid - 1
    };
    let (a, b) = (sorted[low], sorted[mid]);
    assert(a <= b);
    lemma_reporters_of_sorted(
        feeds,
        list,
        feed_id,
        max_staleness_ledgers,
        sequence,
        a as int,
        a as int,
    );
    lemma_count_within_at_least(sorted, a as int, a as int, low, low + 1);
    lemma_reporters_of_sorted(
        feeds,
        list,
        feed_id,
        max_staleness_ledgers,
        sequence,
        b as int,
        b as int,
    );
    lemma_count_within_at_least(sorted, b as int, b as int, mid, mid + 1);
    lemma_reporters_of_sorted(
        feeds,
        list,
        feed_id,
        max_staleness_ledgers,
        sequence,
        least,
        a as int,
    );
    assert forall|i: int| 0 <= i < low + 1 implies least <= #[trigger] sorted[i] <= a by {
        assert(sorted[i] <= sorted[low]);
    }
    lemma_count_within_at_least(sorted, least, a as int, 0, low + 1);
    lemma_reporters_of_sorted(
        feeds,
        list,
        feed_id,
        max_staleness_ledgers,
        sequence,
        least,
        a - 1,
    );
    assert forall|i: int| low <= i < n implies !(least <= #[trigger] sorted[i] <= a - 1) by {
        assert(sorted[low] <= sorted[i]);
    }
    lemma_count_within_bound(sorted, least, a - 1, low, n);
    lemma_reporters_of_sorted(
        feeds,
        list,
        feed_id,
        max_staleness_ledgers,
        sequence,
        b as int,
        most,
    );
    assert forall|i: int| mid <= i < n implies b <= #[trigger] sorted[i] <= most by {
        assert(sorted[mid] <= sorted[i]);
    }
    lemma_count_within_at_least(sorted, b as int, most, mid, n);
    lemma_reporters_of_sorted(
        feeds,
        list,
        feed_id,
        max_staleness_ledgers,
        sequence,
        b + 1,
        most,
    );
    assert forall|i: int| 0 <= i < mid + 1 implies !(b + 1 <= #[trigger] sorted[i] <= most) by {
        assert(sorted[i] <= sorted[mid]);
    }
    lemma_count_within_bound(sorted, b + 1, most, 0, mid + 1);
    (a, b)
}

proof fn lemma_reporters_of_sorted<O: Oracle>(
    feeds: O,
    oracles: Seq<Address>,
    feed_id: BytesN<32>,
    max_staleness_ledgers: u32,
    sequence: u32,
    lo: int,
    hi: int,
)
    ensures
        count_within(
            ascending(fresh_prices(feeds, oracles, feed_id, max_staleness_ledgers, sequence)),
            lo,
            hi,
        ) == reporters(feeds, oracles, feed_id, max_staleness_ledgers, sequence, lo, hi),
{
    let prices = fresh_prices(feeds, oracles, feed_id, max_staleness_ledgers, sequence);
    lemma_ascending_ensures(prices);
    lemma_count_within_is_order_independent(prices, lo, hi);
    lemma_count_within_is_order_independent(ascending(prices), lo, hi);
    law_every_fresh_oracle_counts_once(
        feeds,
        oracles,
        feed_id,
        max_staleness_ledgers,
        sequence,
        lo,
        hi,
    );
}

/// Moving the answer takes a majority of the oracles: while more than half of the fresh
/// ones report a value between `lo` and `hi`, the answer lies there too.
pub proof fn law_answer_stays_with_most_oracles<O: Oracle>(
    feeds: O,
    oracles: Seq<Address>,
    feed_id: BytesN<32>,
    max_staleness_ledgers: u32,
    sequence: u32,
    lo: int,
    hi: int,
)
    requires
        2 * reporters(feeds, oracles, feed_id, max_staleness_ledgers, sequence, lo, hi)
            > reporters(
            feeds,
            oracles,
            feed_id,
            max_staleness_ledgers,
            sequence,
            i128::MIN as int,
            i128::MAX as int,
        ),
    ensures
        median_answer(
            feeds,
            Some(oracles),
            feed_id,
            max_staleness_ledgers,
            sequence,
        ) matches Ok(m) && lo <= m <= hi,
{
    let prices = fresh_prices(feeds, oracles, feed_id, max_staleness_ledgers, sequence);
    law_every_fresh_oracle_counts_once(
        feeds,
        oracles,
        feed_id,
        max_staleness_ledgers,
        sequence,
        lo,
        hi,
    );
    law_median_stays_with_the_majority(prices, lo, hi);
    lemma_count_within_bound(prices, lo, hi, 0, 0);
}

/// A policy permits refunds on one side of its threshold, and never at it.
pub proof fn law_policy_has_one_side(policy: OraclePolicy, median: int)
    ensures
        !policy_permits(policy, policy.threshold as int),
        median != policy.threshold ==> (policy_permits(policy, median) <==> (
        policy.refund_when_below <==> median < policy.threshold)),
{
}

proof fn lemma_fresh_prices_are_no_less<O: Oracle>(
    feeds: O,
    oracles: Seq<Address>,
    feed_id: BytesN<32>,
    max_staleness_ledgers: u32,
    sequence: u32,
)
    requires
        forall|i: int|
            0 <= i < oracles.len() ==> feeds.price(#[trigger] oracles[i], feed_id) >= 0,
    ensures
        ({
            let prices = fresh_prices(feeds, oracles, feed_id, max_staleness_ledgers, sequence);
            forall|i: int| 0 <= i < prices.len() ==> #[trigger] prices[i] >= 0
        }),
    decreases oracles.len(),
{
    if oracles.len() > 0 {
        let rest = oracles.drop_last();
        assert forall|i: int| 0 <= i < rest.len() implies feeds.price(#[trigger] rest[i], feed_id)
            >= 0 by {
            assert(rest[i] == oracles[i]);
        }
        lemma_fresh_prices_are_no_less(feeds, rest, feed_id, max_staleness_ledgers, sequence);
        let earlier = fresh_prices(feeds, rest, feed_id, max_staleness_ledgers, sequence);
        let prices = fresh_prices(feeds, oracles, feed_id, max_staleness_ledgers, sequence);
        assert(feeds.price(oracles[oracles.len() - 1], feed_id) >= 0);
        assert forall|i: int| 0 <= i < prices.len() implies #[trigger] prices[i] >= 0 by {
            if i < earlier.len() {
                assert(prices[i] == earlier[i]);
            }
        }
    }
}

/// Prices that are not negative can always be averaged, and without oracles there is
/// nothing to average.
pub proof fn law_ordinary_prices_are_computable<O: Oracle>(
    feeds: O,
    oracles: Option<Seq<Address>>,
    feed_id: BytesN<32>,
    max_staleness_ledgers: u32,
    sequence: u32,
)
    requires
        oracles is Some ==> forall|i: int|
            0 <= i < oracles->0.len() ==> feeds.price(#[trigger] oracles->0[i], feed_id) >= 0,
    ensures
        median_computable(feeds, oracles, feed_id, max_staleness_ledgers, sequence),
{
    if oracles is Some {
        let prices = fresh_prices(
            feeds,
            oracles->0,
            feed_id,
            max_staleness_ledgers,
            sequence,
        );
        lemma_fresh_prices_are_no_less(
            feeds,
            oracles->0,
            feed_id,
            max_staleness_ledgers,
            sequence,
        );
        lemma_ascending_ensures(prices);
        broadcast use group_to_multiset_ensures;

        let sorted = ascending(prices);
        let mid = sorted.len() as int / 2;
        if sorted.len() > 0 && sorted.len() % 2 == 0 {
            assert(sorted.contains(sorted[mid - 1]));
            assert(prices.to_multiset().count(sorted[mid - 1]) > 0);
            assert(prices.contains(sorted[mid - 1]));
        }
    }
}

/// The oracles in memory report the last quote of each feed, and zero, as of ledger zero,
/// for one that was never set.
pub proof fn law_memory_oracles_report_the_last_quote(
    t: FeedTable,
    oracle: Address,
    feed_id: BytesN<32>,
)
    ensures
        ({
            let key = FeedKey { oracle, feed_id };
            &&& t.quotes@.dom().contains(key) ==> {
                &&& t.price(oracle, feed_id) == t.quotes@[key].price
                &&& t.last_update(oracle, feed_id) == t.quotes@[key].last_update
            }
            &&& !t.quotes@.dom().contains(key) ==> {
                &&& t.price(oracle, feed_id) == 0
                &&& t.last_update(oracle, feed_id) == 0
            }
        }),
{
    let key = FeedKey { oracle, feed_id };
    assert(t.quotes@.contains_key(key) <==> t.quotes@.dom().contains(key));
}

} // verus!
