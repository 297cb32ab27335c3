//! What the anchor relies on its shards for, and what follows from it, whatever they are.

use super::anchor;
use super::laws;
use super::shard;
use super::shard::ShardInterface;
use super::shard_set;
use super::shard_set::{BatchKey, ShardSet, ShardSetModel};
use super::types::{AnchorState, BatchRecord, MAX_ANCHOR_INTERVAL, MAX_PRUNE_BATCHES};
use crate::primitives::{Address, BytesN, Ledger};
use vstd::prelude::*;

verus! {

/// What a set of shards holds: the prune cursor of each deployed shard, and the batches.
#[verifier::ext_equal]
pub struct ShardContents {
    pub cursors: Map<Address, u64>,
    pub batches: Map<BatchKey, BatchRecord>,
}

impl ShardContents {
    /// The contents once `shard` is deployed for the ids from `start` on.
    pub open spec fn deployed(self, shard: Address, start: u64) -> ShardContents {
        ShardContents { cursors: self.cursors.insert(shard, start), ..self }
    }

    /// The contents once `shard` holds one more batch.
    pub open spec fn stored(self, shard: Address, batch_id: u64, record: BatchRecord) -> ShardContents {
        ShardContents {
            batches: self.batches.insert(BatchKey { shard, batch_id }, record),
            ..self
        }
    }

    /// The contents once `shard` has deleted its batches from its cursor up to, not
    /// including, `next`.
    pub open spec fn pruned(self, shard: Address, next: u64) -> ShardContents {
        ShardContents {
            cursors: self.cursors.insert(shard, next),
            batches: Map::new(
                |k: BatchKey|
                    self.batches.contains_key(k) && !(k.shard == shard && self.cursors[shard]
                        <= k.batch_id < next),
                |k: BatchKey| self.batches[k],
            ),
        }
    }
}

/// Whether the shards, read through `contents`, do their part: a batch that is held reads
/// back as it was stored and any other is an error; a shard is deployed at an address
/// that has none, with nothing pruned; storing a batch adds it and changes nothing else;
/// keeping one alive changes nothing; and pruning goes on from the shard's cursor, past
/// at most as many batches as it is allowed and never past the given id, and deletes what
/// it went past and nothing else.
///
/// Each rule speaks only of calls that the shards can answer.
pub open spec fn keep_batches<S: ShardInterface>(
    contents: spec_fn(S::Model) -> ShardContents,
) -> bool {
    &&& forall|m: S::Model, shard: Address, id: u64|
        #![trigger S::get_batch_reply(m, shard, id)]
        contents(m).cursors.contains_key(shard) ==> match shard::reply_result(
            S::get_batch_reply(m, shard, id),
        ) {
            Ok(record) => {
                let key = BatchKey { shard, batch_id: id };
                contents(m).batches.contains_key(key) && contents(m).batches[key] == record
            },
            Err(_) => !contents(m).batches.contains_key(BatchKey { shard, batch_id: id }),
        }
    &&& forall|
        m: S::Model,
        deployer: Address,
        salt: BytesN<32>,
        wasm_hash: BytesN<32>,
        start: u64,
        end: u64,
    |
        #![trigger S::after_deploy(m, deployer, salt, wasm_hash, start, end)]
        S::can_deploy(m, salt) ==> {
            let home = S::deploy_address(m, deployer, salt, wasm_hash);
            &&& !contents(m).cursors.contains_key(home)
            &&& contents(S::after_deploy(m, deployer, salt, wasm_hash, start, end)) == contents(
                m,
            ).deployed(home, start)
        }
    &&& forall|m: S::Model, shard: Address, id: u64, record: BatchRecord|
        #![trigger S::after_anchor(m, shard, id, record)]
        S::can_anchor(m, shard, id) ==> contents(S::after_anchor(m, shard, id, record))
            == contents(m).stored(shard, id, record)
    &&& forall|m: S::Model, shard: Address, id: u64|
        contents(#[trigger] S::after_extend(m, shard, id)) == contents(m)
    &&& forall|m: S::Model, shard: Address, before_ledger: u32, max: u32, high: u64|
        #![trigger S::after_prune(m, shard, before_ledger, max, high)]
        #![trigger S::prune_reply(m, shard, before_ledger, max, high)]
        S::can_prune(m, shard, high) && contents(m).cursors.contains_key(shard) ==> {
            let (next, pruned) = S::prune_reply(m, shard, before_ledger, max, high);
            &&& next == contents(m).cursors[shard] + pruned
            &&& pruned <= max
            &&& pruned > 0 ==> next <= high
            &&& contents(S::after_prune(m, shard, before_ledger, max, high)) == contents(
                m,
            ).pruned(shard, next)
        }
}

/// Whether the anchor and its shards agree when everything below `pruned` is pruned: the
/// anchor's shards are deployed at addresses of their own, each with its cursor, and hold
/// exactly the batches from `pruned` up to the latest one, each in its shard.
pub open spec fn agrees_at(a: AnchorState, c: ShardContents, pruned: int) -> bool {
    &&& a.wf()
    &&& a.initialized()
    &&& 1 <= pruned <= a.count() + 1
    &&& forall|i: u64|
        i < a.shard_count ==> {
            &&& c.cursors.contains_key(#[trigger] a.shards[i])
            &&& c.cursors[a.shards[i]] == laws::shard_cursor(i as int, pruned)
        }
    &&& forall|i: u64, j: u64|
        i < a.shard_count && j < a.shard_count && #[trigger] a.shards[i] == #[trigger] a.shards[j]
            ==> i == j
    &&& forall|k: BatchKey| #[trigger]
        c.batches.contains_key(k) ==> c.cursors.contains_key(k.shard)
    &&& forall|i: u64, id: u64|
        i < a.shard_count ==> (#[trigger] c.batches.contains_key(
            (BatchKey { shard: a.shards[i], batch_id: id }),
        ) <==> anchor::shard_index(id as int) == i && pruned <= id <= a.count())
}

/// Whether the anchor and its shards agree.
pub open spec fn agrees(a: AnchorState, c: ShardContents) -> bool {
    agrees_at(a, c, a.pruned_up_to->0 as int)
}

/// `after` holds nothing that `before` did not hold.
pub open spec fn holds_no_more(before: ShardContents, after: ShardContents) -> bool {
    forall|k: BatchKey| #[trigger]
        after.batches.contains_key(k) ==> before.batches.contains_key(k) && after.batches[k]
            == before.batches[k]
}

/// A freshly initialized anchor agrees with any shards that hold no batch outside a
/// deployed one.
pub proof fn law_fresh_anchor_agrees(a: AnchorState, c: ShardContents)
    requires
        a.wf(),
        a.initialized(),
        a.count() == 0,
        a.pruned_up_to == Some(1u64),
        forall|k: BatchKey| #[trigger]
            c.batches.contains_key(k) ==> c.cursors.contains_key(k.shard),
    ensures
        agrees(a, c),
{
    assert(a.shard_count == 0);
}

/// What `get_batch` answers when the anchor and its shards agree: a record for the batches
/// from the prune cursor up to the latest, and an error for all others.
pub proof fn law_held_batches_are_readable<S: ShardInterface>(
    contents: spec_fn(S::Model) -> ShardContents,
    a: AnchorState,
    m: S::Model,
    id: u64,
)
    requires
        keep_batches::<S>(contents),
        agrees(a, contents(m)),
    ensures
        match anchor::batch_answer::<S>(a, m, id) {
            Ok(record) => {
                let shard = a.shards[anchor::shard_index(id as int) as u64];
                let key = BatchKey { shard, batch_id: id };
                &&& a.pruned_up_to->0 <= id <= a.count()
                &&& contents(m).batches.contains_key(key)
                &&& contents(m).batches[key] == record
            },
            Err(_) => !(a.pruned_up_to->0 <= id <= a.count()),
        },
{
    let index = anchor::shard_index(id as int) as u64;
    if id > 0 && a.shards.contains_key(index) {
        let home = a.shards[index];
        assert(contents(m).cursors.contains_key(home));
        let reply = S::get_batch_reply(m, home, id);
        assert(contents(m).batches.contains_key((BatchKey { shard: home, batch_id: id })) <==>
            anchor::shard_index(id as int) == index && a.pruned_up_to->0 <= id <= a.count());
    }
}

/// Anchoring keeps the anchor and its shards in agreement, adds the batch, and changes
/// nothing else.
pub proof fn law_anchor_keeps_agreement<S: ShardInterface>(
    contents: spec_fn(S::Model) -> ShardContents,
    a: AnchorState,
    m: S::Model,
    ledger: Ledger,
    record: BatchRecord,
)
    requires
        keep_batches::<S>(contents),
        agrees(a, contents(m)),
        anchor::can_take_batch::<S>(a, ledger, m),
    ensures
        ({
            let a2 = anchor::anchored::<S>(a, ledger, m, record.root);
            let c2 = contents(anchor::model_after_anchor::<S>(a, ledger, m, record));
            let home = anchor::next_placement::<S>(a, ledger, m).home;
            let key = BatchKey { shard: home, batch_id: (a.count() + 1) as u64 };
            &&& agrees(a2, c2)
            &&& c2.batches == contents(m).batches.insert(key, record)
            &&& a2.shards[anchor::shard_index(a.count() + 1) as u64] == home
            &&& forall|i: u64| i < a.shard_count ==> #[trigger] a2.shards[i] == a.shards[i]
        }),
{
    let index = anchor::shard_index(a.count() + 1) as u64;
    let id = (a.count() + 1) as u64;
    let c = contents(m);
    let placement = anchor::next_placement::<S>(a, ledger, m);
    let home = placement.home;
    let c1 = contents(placement.model);
    let a2 = anchor::anchored::<S>(a, ledger, m, record.root);
    let c2 = contents(anchor::model_after_anchor::<S>(a, ledger, m, record));
    let pruned = a.pruned_up_to->0 as int;
    if index < a.shard_count {
        assert(a.shards.contains_key(index));
        assert(c1 == c);
        assert(a2.shards == a.shards);
    } else {
        assert(index == a.shard_count);
        assert(!a.shards.contains_key(index));
        assert(c1 == c.deployed(home, anchor::shard_start(index as int) as u64));
        assert(!c.cursors.contains_key(home));
        assert(a2.shards == a.shards.insert(index, home));
        assert(a2.shard_count == a.shard_count + 1);
    }
    assert(c2 == c1.stored(home, id, record));
    assert(a2.wf()) by {
        assert forall|i: u64| #[trigger] a2.shards.contains_key(i) <==> i < a2.shard_count by {
            assert(a.shards.contains_key(i) <==> i < a.shard_count);
        }
    }
    assert forall|i: u64| i < a.shard_count implies #[trigger] a2.shards[i] == a.shards[i] by {}
    assert forall|i: u64| i < a2.shard_count implies {
        &&& c2.cursors.contains_key(#[trigger] a2.shards[i])
        &&& c2.cursors[a2.shards[i]] == laws::shard_cursor(i as int, pruned)
    } by {
        if i < a.shard_count {
            assert(c.cursors.contains_key(a.shards[i]));
        }
    }
    assert forall|i: u64, j: u64|
        i < a2.shard_count && j < a2.shard_count && #[trigger] a2.shards[i]
            == #[trigger] a2.shards[j] implies i == j by {
        if i < a.shard_count {
            assert(c.cursors.contains_key(a.shards[i]));
        }
        if j < a.shard_count {
            assert(c.cursors.contains_key(a.shards[j]));
        }
    }
    assert forall|i: u64, x: u64| i < a2.shard_count implies (#[trigger] c2.batches.contains_key(
        (BatchKey { shard: a2.shards[i], batch_id: x }),
    ) <==> anchor::shard_index(x as int) == i && pruned <= x <= a2.count()) by {
        let key = BatchKey { shard: a2.shards[i], batch_id: x };
        if i < a.shard_count {
            assert(a2.shards[i] == a.shards[i]);
            assert(c.batches.contains_key(key) <==> anchor::shard_index(x as int) == i && pruned
                <= x <= a.count());
        } else {
            assert(i == index);
            if c.batches.contains_key(key) {
                assert(c.cursors.contains_key(home));
            }
        }
        assert(a2.shards[index] == home);
        if a2.shards[i] == home {
            assert(i == index);
        }
        assert(c2.batches.contains_key(key) <==> c.batches.contains_key(key) || key == (BatchKey {
            shard: home,
            batch_id: id,
        }));
    }
}

proof fn lemma_prune_walk_agrees<S: ShardInterface>(
    contents: spec_fn(S::Model) -> ShardContents,
    a: AnchorState,
    m: S::Model,
    before_ledger: u32,
    cursor: u64,
    remaining: nat,
)
    requires
        keep_batches::<S>(contents),
        agrees_at(a, contents(m), cursor as int),
        remaining <= MAX_PRUNE_BATCHES,
        anchor::prune_walk_ok::<S>(a, m, before_ledger, cursor, remaining),
    ensures
        ({
            let walk = anchor::prune_walk::<S>(a, m, before_ledger, cursor, remaining);
            &&& cursor <= walk.cursor <= cursor + remaining
            &&& agrees_at(a, contents(walk.model), walk.cursor as int)
            &&& holds_no_more(contents(m), contents(walk.model))
        }),
    decreases remaining,
{
    if remaining > 0 && cursor <= a.count() {
        let index = anchor::shard_index(cursor as int) as u64;
        assert(index < a.shard_count);
        assert(a.shards.contains_key(index));
        let home = a.shards[index];
        let c = contents(m);
        assert(c.cursors.contains_key(home));
        assert(c.cursors[home] == cursor);
        let high = anchor::high_water(a, index as int) as u64;
        let (next, pruned) = S::prune_reply(m, home, before_ledger, remaining as u32, high);
        let after = S::after_prune(m, home, before_ledger, remaining as u32, high);
        let c2 = contents(after);
        assert(S::can_prune(m, home, high));
        assert(c2 == c.pruned(home, next));
        assert(next == cursor + pruned);
        assert(next <= high);
        assert(agrees_at(a, c2, next as int)) by {
            assert forall|i: u64| i < a.shard_count implies {
                &&& c2.cursors.contains_key(#[trigger] a.shards[i])
                &&& c2.cursors[a.shards[i]] == laws::shard_cursor(i as int, next as int)
            } by {
                assert(c.cursors.contains_key(a.shards[i]));
                if a.shards[i] == home {
                    assert(i == index);
                }
            }
            assert forall|i: u64, x: u64|
                i < a.shard_count implies (#[trigger] c2.batches.contains_key(
                (BatchKey { shard: a.shards[i], batch_id: x }),
            ) <==> anchor::shard_index(x as int) == i && next <= x <= a.count()) by {
                let key = BatchKey { shard: a.shards[i], batch_id: x };
                assert(c.batches.contains_key(key) <==> anchor::shard_index(x as int) == i
                    && cursor <= x <= a.count());
                if a.shards[i] == home {
                    assert(i == index);
                }
            }
        }
        assert(holds_no_more(c, c2));
        if pruned > 0 {
            lemma_prune_walk_agrees::<S>(
                contents,
                a,
                after,
                before_ledger,
                next,
                (remaining - pruned) as nat,
            );
        }
    }
}

/// Pruning keeps the anchor and its shards in agreement and adds nothing. The cursor never
/// moves back, and by at most [`MAX_PRUNE_BATCHES`].
pub proof fn law_prune_keeps_agreement<S: ShardInterface>(
    contents: spec_fn(S::Model) -> ShardContents,
    a: AnchorState,
    m: S::Model,
    before_ledger: u32,
)
    requires
        keep_batches::<S>(contents),
        agrees(a, contents(m)),
        anchor::prune_walk_ok::<S>(
            a,
            m,
            before_ledger,
            a.pruned_up_to->0,
            MAX_PRUNE_BATCHES as nat,
        ),
    ensures
        ({
            let start = a.pruned_up_to->0;
            let walk = anchor::prune_walk::<S>(
                a,
                m,
                before_ledger,
                start,
                MAX_PRUNE_BATCHES as nat,
            );
            let a2 = anchor::pruned_to(a, walk.cursor);
            &&& agrees(a2, contents(walk.model))
            &&& a2.pruned_up_to == Some(walk.cursor)
            &&& start <= walk.cursor <= start + MAX_PRUNE_BATCHES
            &&& holds_no_more(contents(m), contents(walk.model))
        }),
{
    let start = a.pruned_up_to->0;
    lemma_prune_walk_agrees::<S>(contents, a, m, before_ledger, start, MAX_PRUNE_BATCHES as nat);
    let walk = anchor::prune_walk::<S>(a, m, before_ledger, start, MAX_PRUNE_BATCHES as nat);
    lemma_cursor_alone(a, contents(walk.model), walk.cursor);
}

proof fn lemma_cursor_alone(a: AnchorState, c: ShardContents, cursor: u64)
    requires
        agrees_at(a, c, cursor as int),
        a.pruned_up_to->0 <= cursor,
    ensures
        agrees(anchor::pruned_to(a, cursor), c),
{
    let b = anchor::pruned_to(a, cursor);
    assert(b.shards == a.shards);
    assert(agrees_at(b, c, cursor as int)) by {
        assert forall|i: u64| i < b.shard_count implies {
            &&& c.cursors.contains_key(#[trigger] b.shards[i])
            &&& c.cursors[b.shards[i]] == laws::shard_cursor(i as int, cursor as int)
        } by {
            assert(c.cursors.contains_key(a.shards[i]));
        }
    }
}

/// A new minimum interval changes nothing about the agreement.
pub proof fn law_interval_keeps_agreement(a: AnchorState, c: ShardContents, interval: u32)
    requires
        agrees(a, c),
        interval <= MAX_ANCHOR_INTERVAL,
    ensures
        agrees((AnchorState { min_anchor_interval: interval, ..a }), c),
{
    let b = AnchorState { min_anchor_interval: interval, ..a };
    assert(b.shards == a.shards);
    assert forall|i: u64| i < b.shard_count implies {
        &&& c.cursors.contains_key(#[trigger] b.shards[i])
        &&& c.cursors[b.shards[i]] == laws::shard_cursor(i as int, b.pruned_up_to->0 as int)
    } by {
        assert(c.cursors.contains_key(a.shards[i]));
    }
}

/// What the shards in memory hold.
pub open spec fn memory_contents(m: ShardSetModel) -> ShardContents {
    ShardContents {
        cursors: m.bounds.map_values(|b: shard_set::ShardBounds| b.cursor),
        batches: m.batches,
    }
}

/// What the shards in memory hold, as a function of what they store.
pub open spec fn memory_reader() -> spec_fn(ShardSetModel) -> ShardContents {
    |m: ShardSetModel| memory_contents(m)
}

proof fn lemma_prune_shard_goes_on_from_its_cursor(
    m: ShardSetModel,
    shard: Address,
    before_ledger: u32,
    max: nat,
    high: u64,
)
    requires
        m.bounds.contains_key(shard),
    ensures
        ({
            let (rest, pruned) = shard_set::prune_shard(m, shard, before_ledger, max, high);
            let next = rest.bounds[shard].cursor;
            &&& rest.bounds.contains_key(shard)
            &&& pruned <= max
            &&& next == m.bounds[shard].cursor + pruned
            &&& pruned > 0 ==> next <= high
            &&& memory_contents(rest) == memory_contents(m).pruned(shard, next)
        }),
    decreases max,
{
    let cursor = m.bounds[shard].cursor;
    let (rest, pruned) = shard_set::prune_shard(m, shard, before_ledger, max, high);
    let next = rest.bounds[shard].cursor;
    if max == 0 || cursor >= high || !shard_set::prunable(m, shard, cursor, before_ledger) {
        assert(memory_contents(rest) =~= memory_contents(m).pruned(shard, next));
    } else {
        let one = shard_set::without_batch(m, shard, cursor);
        lemma_prune_shard_goes_on_from_its_cursor(
            one,
            shard,
            before_ledger,
            (max - 1) as nat,
            high,
        );
        assert(memory_contents(rest) =~= memory_contents(m).pruned(shard, next));
    }
}

/// The shards in memory do their part.
pub proof fn law_memory_shards_keep_batches()
    ensures
        keep_batches::<ShardSet>(memory_reader()),
{
    let contents = memory_reader();
    assert forall|m: ShardSetModel, shard: Address, id: u64, record: BatchRecord|
        #![trigger ShardSet::after_anchor(m, shard, id, record)]
        ShardSet::can_anchor(m, shard, id) implies contents(
        ShardSet::after_anchor(m, shard, id, record),
    ) == contents(m).stored(shard, id, record) by {
        assert(contents(ShardSet::after_anchor(m, shard, id, record)) =~= contents(m).stored(
            shard,
            id,
            record,
        ));
    }
    assert forall|
        m: ShardSetModel,
        deployer: Address,
        salt: BytesN<32>,
        wasm_hash: BytesN<32>,
        start: u64,
        end: u64,
    |
        #![trigger ShardSet::after_deploy(m, deployer, salt, wasm_hash, start, end)]
        ShardSet::can_deploy(m, salt) implies {
            let home = ShardSet::deploy_address(m, deployer, salt, wasm_hash);
            &&& !contents(m).cursors.contains_key(home)
            &&& contents(ShardSet::after_deploy(m, deployer, salt, wasm_hash, start, end))
                == contents(m).deployed(home, start)
        } by {
        let home = ShardSet::deploy_address(m, deployer, salt, wasm_hash);
        assert(contents(ShardSet::after_deploy(m, deployer, salt, wasm_hash, start, end))
            =~= contents(m).deployed(home, start));
    }
    assert forall|m: ShardSetModel, shard: Address, before_ledger: u32, max: u32, high: u64|
        #![trigger ShardSet::after_prune(m, shard, before_ledger, max, high)]
        #![trigger ShardSet::prune_reply(m, shard, before_ledger, max, high)]
        ShardSet::can_prune(m, shard, high) && contents(m).cursors.contains_key(shard) implies {
            let (next, pruned) = ShardSet::prune_reply(m, shard, before_ledger, max, high);
            &&& next == contents(m).cursors[shard] + pruned
            &&& pruned <= max
            &&& pruned > 0 ==> next <= high
            &&& contents(ShardSet::after_prune(m, shard, before_ledger, max, high))
                == contents(m).pruned(shard, next)
        } by {
        lemma_prune_shard_goes_on_from_its_cursor(m, shard, before_ledger, max as nat, high);
    }
}

} // verus!
