//! Sequences of calls on the anchor.

use super::anchor;
use super::shard::ShardInterface;
use super::shard_rules;
use super::shard_rules::ShardContents;
use super::shard_set::{BatchKey, ShardSet, ShardSetModel};
use super::types::{
    AnchorState, BatchRecord, Env, ReceiptAnchor, MAX_ANCHOR_INTERVAL, MAX_PRUNE_BATCHES,
};
use crate::error::Error;
use crate::primitives::{Address, Ledger};
use vstd::prelude::*;

verus! {

/// The anchor and its shards between two calls.
pub struct AnchorMoment<M> {
    pub state: AnchorState,
    pub model: M,
}

/// What a call did.
pub enum AnchorStep {
    /// Anchored a batch.
    Anchored { ledger: Ledger, record: BatchRecord },
    /// Pruned.
    Pruned { before_ledger: u32 },
    /// Kept a batch alive.
    Extended { shard: Address, batch_id: u64 },
    /// Was refused, or changed no more than the minimum interval.
    Nothing,
}

/// Whether a call that did `step` leads from one moment to the next. The shards could do
/// their part of it, as the call requires.
pub open spec fn steps_to<S: ShardInterface>(
    pre: AnchorMoment<S::Model>,
    step: AnchorStep,
    post: AnchorMoment<S::Model>,
) -> bool {
    match step {
        AnchorStep::Anchored { ledger, record } => {
            &&& anchor::can_take_batch::<S>(pre.state, ledger, pre.model)
            &&& post.state == anchor::anchored::<S>(
                pre.state,
                ledger,
                pre.model,
                record.root,
            )
            &&& post.model == anchor::model_after_anchor::<S>(
                pre.state,
                ledger,
                pre.model,
                record,
            )
        },
        AnchorStep::Pruned { before_ledger } => {
            let walk = anchor::prune_walk::<S>(
                pre.state,
                pre.model,
                before_ledger,
                pre.state.pruned_up_to->0,
                MAX_PRUNE_BATCHES as nat,
            );
            &&& anchor::prune_walk_ok::<S>(
                pre.state,
                pre.model,
                before_ledger,
                pre.state.pruned_up_to->0,
                MAX_PRUNE_BATCHES as nat,
            )
            &&& post.state == anchor::pruned_to(pre.state, walk.cursor)
            &&& post.model == walk.model
        },
        AnchorStep::Extended { shard, batch_id } => {
            &&& post.state == pre.state
            &&& post.model == S::after_extend(pre.model, shard, batch_id)
        },
        AnchorStep::Nothing => {
            &&& post.model == pre.model
            &&& post.state.min_anchor_interval <= MAX_ANCHOR_INTERVAL
            &&& post.state == (AnchorState {
                min_anchor_interval: post.state.min_anchor_interval,
                ..pre.state
            })
        },
    }
}

/// A call of `anchor_batch` or `anchor_batch_zk` anchors a batch or does nothing.
pub proof fn law_anchor_call_is_a_step<S: ShardInterface>(
    pre: ReceiptAnchor,
    env: Env,
    shards: S,
    error: Option<Error>,
    record: BatchRecord,
    r: Result<u64, Error>,
    post: ReceiptAnchor,
    post_env: Env,
    post_shards: S,
)
    requires
        pre.wf(),
        error is None ==> anchor::can_take_batch::<S>(pre@, env.ledger, shards.model()),
        anchor::anchors(pre, env, shards, error, record, r, post, post_env, post_shards),
    ensures
        steps_to::<S>(
            AnchorMoment { state: pre@, model: shards.model() },
            if r is Ok {
                AnchorStep::Anchored { ledger: env.ledger, record }
            } else {
                AnchorStep::Nothing
            },
            AnchorMoment { state: post@, model: post_shards.model() },
        ),
{
}

/// A call of `prune_batches` prunes or does nothing.
pub proof fn law_prune_call_is_a_step<S: ShardInterface>(
    pre: ReceiptAnchor,
    env: Env,
    shards: S,
    before_ledger: u32,
    r: Result<(), Error>,
    post: ReceiptAnchor,
    post_env: Env,
    post_shards: S,
)
    requires
        pre.wf(),
        pre@.merchant_error(env) is None ==> anchor::prune_walk_ok::<S>(
            pre@,
            shards.model(),
            before_ledger,
            pre.pruned_up_to->0,
            MAX_PRUNE_BATCHES as nat,
        ),
        anchor::prunes(pre, env, shards, before_ledger, r, post, post_env, post_shards),
    ensures
        steps_to::<S>(
            AnchorMoment { state: pre@, model: shards.model() },
            if r is Ok {
                AnchorStep::Pruned { before_ledger }
            } else {
                AnchorStep::Nothing
            },
            AnchorMoment { state: post@, model: post_shards.model() },
        ),
{
}

/// A call of `extend_batch_ttl` keeps a batch alive or does nothing.
pub proof fn law_extend_call_is_a_step<S: ShardInterface>(
    a: AnchorState,
    m: S::Model,
    batch_id: u64,
    r: Result<(), Error>,
    after: S::Model,
)
    requires
        a.wf(),
        anchor::extends::<S>(a, m, batch_id, r, after),
    ensures
        steps_to::<S>(
            AnchorMoment { state: a, model: m },
            if r is Ok {
                AnchorStep::Extended {
                    shard: anchor::batch_home(a, batch_id)->Ok_0,
                    batch_id,
                }
            } else {
                AnchorStep::Nothing
            },
            AnchorMoment { state: a, model: after },
        ),
{
}

/// A new minimum interval is a step that does nothing else.
pub proof fn law_interval_call_is_a_step<S: ShardInterface>(
    a: AnchorState,
    m: S::Model,
    interval: u32,
)
    requires
        interval <= MAX_ANCHOR_INTERVAL,
    ensures
        steps_to::<S>(
            AnchorMoment { state: a, model: m },
            AnchorStep::Nothing,
            AnchorMoment {
                state: AnchorState { min_anchor_interval: interval, ..a },
                model: m,
            },
        ),
{
}

/// Whether each of a sequence of calls leads from one moment to the next.
pub open spec fn is_history<S: ShardInterface>(
    moments: Seq<AnchorMoment<S::Model>>,
    steps: Seq<AnchorStep>,
) -> bool {
    &&& moments.len() == steps.len() + 1
    &&& forall|i: int|
        #![trigger steps[i]]
        0 <= i < steps.len() ==> steps_to::<S>(moments[i], steps[i], moments[i + 1])
}

/// How many batches were anchored.
pub open spec fn anchored_in(steps: Seq<AnchorStep>) -> nat
    decreases steps.len(),
{
    if steps.len() == 0 {
        0
    } else {
        anchored_in(steps.drop_last()) + (if steps.last() is Anchored {
            1nat
        } else {
            0nat
        })
    }
}

proof fn lemma_step_keeps_agreement<S: ShardInterface>(
    contents: spec_fn(S::Model) -> ShardContents,
    pre: AnchorMoment<S::Model>,
    step: AnchorStep,
    post: AnchorMoment<S::Model>,
    id: u64,
)
    requires
        shard_rules::keep_batches::<S>(contents),
        shard_rules::agrees(pre.state, contents(pre.model)),
        steps_to::<S>(pre, step, post),
    ensures
        shard_rules::agrees(post.state, contents(post.model)),
        post.state.count() == pre.state.count() + (if step is Anchored {
            1int
        } else {
            0int
        }),
        pre.state.pruned_up_to->0 <= post.state.pruned_up_to->0
            <= pre.state.pruned_up_to->0 + (if step is Pruned {
            MAX_PRUNE_BATCHES as int
        } else {
            0int
        }),
        anchor::batch_answer::<S>(pre.state, pre.model, id) is Ok && anchor::batch_answer::<S>(
            post.state,
            post.model,
            id,
        ) is Ok ==> anchor::batch_answer::<S>(post.state, post.model, id)
            == anchor::batch_answer::<S>(pre.state, pre.model, id),
        step matches AnchorStep::Anchored { record, .. } ==> anchor::batch_answer::<S>(
            post.state,
            post.model,
            post.state.count(),
        ) == Ok::<BatchRecord, Error>(record),
{
    match step {
        AnchorStep::Anchored { ledger, record } => {
            shard_rules::law_anchor_keeps_agreement::<S>(
                contents,
                pre.state,
                pre.model,
                ledger,
                record,
            );
        },
        AnchorStep::Pruned { before_ledger } => {
            shard_rules::law_prune_keeps_agreement::<S>(
                contents,
                pre.state,
                pre.model,
                before_ledger,
            );
        },
        AnchorStep::Extended { shard, batch_id } => {
            assert(contents(post.model) == contents(pre.model));
        },
        AnchorStep::Nothing => {
            shard_rules::law_interval_keeps_agreement(
                pre.state,
                contents(pre.model),
                post.state.min_anchor_interval,
            );
        },
    }
    shard_rules::law_held_batches_are_readable::<S>(contents, pre.state, pre.model, id);
    shard_rules::law_held_batches_are_readable::<S>(contents, post.state, post.model, id);
    shard_rules::law_held_batches_are_readable::<S>(
        contents,
        post.state,
        post.model,
        post.state.count(),
    );
    let index = anchor::shard_index(id as int) as u64;
    if anchor::batch_answer::<S>(pre.state, pre.model, id) is Ok {
        assert(pre.state.shards.contains_key(index));
        assert(post.state.shards[index] == pre.state.shards[index]);
    }
}

/// After any sequence of calls, refused ones among them, exactly the batches from the
/// prune cursor up to the latest are readable: what is gone is a contiguous prefix, and
/// never comes back. What stays readable reads as before. Pruning changes nothing about
/// how many batches were anchored. The cursor never moves back, and one prune moves it by
/// at most [`MAX_PRUNE_BATCHES`].
///
/// This holds of any shards that do their part; see [`shard_rules::keep_batches`].
pub proof fn law_pruned_batches_are_a_prefix<S: ShardInterface>(
    contents: spec_fn(S::Model) -> ShardContents,
    moments: Seq<AnchorMoment<S::Model>>,
    steps: Seq<AnchorStep>,
    id: u64,
)
    requires
        shard_rules::keep_batches::<S>(contents),
        is_history::<S>(moments, steps),
        shard_rules::agrees(moments[0].state, contents(moments[0].model)),
    ensures
        ({
            let first = moments[0].state;
            let last = moments.last().state;
            let was = anchor::batch_answer::<S>(first, moments[0].model, id);
            let is = anchor::batch_answer::<S>(last, moments.last().model, id);
            &&& shard_rules::agrees(last, contents(moments.last().model))
            &&& last.count() == first.count() + anchored_in(steps)
            &&& first.pruned_up_to->0 <= last.pruned_up_to->0
            &&& is is Ok <==> last.pruned_up_to->0 <= id <= last.count()
            &&& id < first.pruned_up_to->0 ==> is is Err
            &&& was is Ok && is is Ok ==> is == was
        }),
        steps.len() > 0 ==> ({
            let before = moments[steps.len() - 1].state;
            let last = moments.last().state;
            before.pruned_up_to->0 <= last.pruned_up_to->0 <= before.pruned_up_to->0
                + MAX_PRUNE_BATCHES
        }),
    decreases steps.len(),
{
    if steps.len() > 0 {
        let n = steps.len() - 1;
        let earlier = moments.drop_last();
        assert forall|i: int|
            #![trigger steps.drop_last()[i]]
            0 <= i < n implies steps_to::<S>(earlier[i], steps.drop_last()[i], earlier[i + 1]) by {
            assert(steps_to::<S>(moments[i], steps[i], moments[i + 1]));
        }
        law_pruned_batches_are_a_prefix::<S>(contents, earlier, steps.drop_last(), id);
        assert(earlier.last() == moments[n]);
        assert(steps_to::<S>(moments[n], steps[n], moments[n + 1]));
        lemma_step_keeps_agreement::<S>(contents, moments[n], steps[n], moments[n + 1], id);
        shard_rules::law_held_batches_are_readable::<S>(
            contents,
            moments[n].state,
            moments[n].model,
            id,
        );
    }
    shard_rules::law_held_batches_are_readable::<S>(
        contents,
        moments[0].state,
        moments[0].model,
        id,
    );
    shard_rules::law_held_batches_are_readable::<S>(
        contents,
        moments.last().state,
        moments.last().model,
        id,
    );
}

/// The same of the shards in memory, from an anchor without batches and no shards.
pub proof fn law_pruned_batches_are_a_prefix_in_memory(
    moments: Seq<AnchorMoment<ShardSetModel>>,
    steps: Seq<AnchorStep>,
    id: u64,
)
    requires
        is_history::<ShardSet>(moments, steps),
        moments[0].state.wf(),
        moments[0].state.initialized(),
        moments[0].state.count() == 0,
        moments[0].state.pruned_up_to == Some(1u64),
        moments[0].model.batches == Map::<BatchKey, BatchRecord>::empty(),
    ensures
        ({
            let last = moments.last().state;
            &&& last.count() == anchored_in(steps)
            &&& anchor::batch_answer::<ShardSet>(last, moments.last().model, id) is Ok
                <==> last.pruned_up_to->0 <= id <= last.count()
        }),
{
    shard_rules::law_memory_shards_keep_batches();
    shard_rules::law_fresh_anchor_agrees(
        moments[0].state,
        shard_rules::memory_contents(moments[0].model),
    );
    law_pruned_batches_are_a_prefix::<ShardSet>(
        shard_rules::memory_reader(),
        moments,
        steps,
        id,
    );
}

} // verus!
