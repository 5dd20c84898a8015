//! The order of delivery over the whole life of a subscription.
//!
//! A subscriber's life in the hub is a sequence of steps, each either a
//! publication or the subscriber's taking its next message. Whatever the
//! interleaving and however far the subscriber falls behind, what it is
//! handed is a selection of what was published, in the order of publication:
//! messages lost to overflow are skipped, none is reordered and none is
//! handed out twice.

use crate::hub::HubView;
use crate::session::has_next;
use vstd::prelude::*;

verus! {

/// One step in the life of a subscription.
pub enum Step {
    /// The hub publishes this text.
    Publish(Seq<char>),
    /// The subscriber takes its oldest waiting message, if any.
    Take,
}

/// The texts that `steps` publish, in order.
pub open spec fn published(steps: Seq<Step>) -> Seq<Seq<char>>
    decreases steps.len(),
{
    if steps.len() == 0 {
        Seq::empty()
    } else {
        match steps.last() {
            Step::Publish(text) => published(steps.drop_last()).push(text),
            Step::Take => published(steps.drop_last()),
        }
    }
}

/// The hub after `steps`, where the subscriber `id` does the taking.
pub open spec fn after_steps(hub: HubView, id: nat, steps: Seq<Step>) -> HubView
    decreases steps.len(),
{
    if steps.len() == 0 {
        hub
    } else {
        let before = after_steps(hub, id, steps.drop_last());
        match steps.last() {
            Step::Publish(text) => before.publish(text),
            Step::Take => if has_next(before, id) {
                before.take(id)
            } else {
                before
            },
        }
    }
}

/// The messages handed to the subscriber `id` in the course of `steps`, in
/// the order in which it took them.
pub open spec fn handed_out(hub: HubView, id: nat, steps: Seq<Step>) -> Seq<Seq<char>>
    decreases steps.len(),
{
    if steps.len() == 0 {
        Seq::empty()
    } else {
        let before = after_steps(hub, id, steps.drop_last());
        let so_far = handed_out(hub, id, steps.drop_last());
        match steps.last() {
            Step::Publish(_) => so_far,
            Step::Take => if has_next(before, id) {
                so_far.push(before.queues[id][0])
            } else {
                so_far
            },
        }
    }
}

/// For each message handed to `id` in the course of `steps`, its place among
/// the texts that `steps` publish: the place of the head of the queue at the
/// moment it was taken, the queue being the tail of what was published.
pub open spec fn places(hub: HubView, id: nat, steps: Seq<Step>) -> Seq<int>
    decreases steps.len(),
{
    if steps.len() == 0 {
        Seq::empty()
    } else {
        let before = after_steps(hub, id, steps.drop_last());
        let so_far = places(hub, id, steps.drop_last());
        match steps.last() {
            Step::Publish(_) => so_far,
            Step::Take => if has_next(before, id) {
                so_far.push(published(steps.drop_last()).len() - before.queues[id].len())
            } else {
                so_far
            },
        }
    }
}

/// Delivery preserves the order of publication over a subscriber's whole
/// life. For a subscriber that joined with nothing waiting, and whatever
/// steps follow:
///
/// - every message handed out is a published one, found at its place;
/// - the places rise strictly, so that nothing is handed out twice or out of
///   order;
/// - what still waits is the most recent of what was published, and lies
///   behind everything handed out.
pub proof fn lemma_delivery_preserves_order(hub: HubView, id: nat, steps: Seq<Step>)
    requires
        hub.wf(),
        hub.live,
        hub.subscribed(id),
        hub.queues[id].len() == 0,
    ensures
        after_steps(hub, id, steps).wf(),
        after_steps(hub, id, steps).live,
        after_steps(hub, id, steps).capacity == hub.capacity,
        after_steps(hub, id, steps).subscribed(id),
        after_steps(hub, id, steps).queues[id].len() <= published(steps).len(),
        after_steps(hub, id, steps).queues[id] == published(steps).subrange(
            published(steps).len() - after_steps(hub, id, steps).queues[id].len(),
            published(steps).len() as int,
        ),
        places(hub, id, steps).len() == handed_out(hub, id, steps).len(),
        forall|i: int|
            0 <= i < places(hub, id, steps).len() ==> 0 <= #[trigger] places(hub, id, steps)[i]
                < published(steps).len() - after_steps(hub, id, steps).queues[id].len(),
        forall|i: int|
            0 <= i < places(hub, id, steps).len() ==> #[trigger] handed_out(hub, id, steps)[i]
                == published(steps)[places(hub, id, steps)[i]],
        forall|i: int, j: int|
            0 <= i < j < places(hub, id, steps).len() ==> #[trigger] places(hub, id, steps)[i]
                < #[trigger] places(hub, id, steps)[j],
    decreases steps.len(),
{
    if steps.len() == 0 {
        assert(hub.queues[id] =~= published(steps).subrange(0, 0));
    } else {
        let init = steps.drop_last();
        lemma_delivery_preserves_order(hub, id, init);
        let before = after_steps(hub, id, init);
        let after = after_steps(hub, id, steps);
        let texts0 = published(init);
        let texts = published(steps);
        let waiting0 = before.queues[id];
        let waiting = after.queues[id];
        let places0 = places(hub, id, init);
        let places1 = places(hub, id, steps);
        let out0 = handed_out(hub, id, init);
        let out1 = handed_out(hub, id, steps);
        let head0 = texts0.len() - waiting0.len();
        assert(before.queues.contains_key(id));
        assert(waiting0.len() <= before.capacity);
        match steps.last() {
            Step::Publish(text) => {
                assert(after == before.publish(text));
                assert(after.queues.contains_key(id));
                assert(texts == texts0.push(text));
                assert(waiting =~= texts.subrange(texts.len() - waiting.len(), texts.len() as int));
                assert(places1 == places0);
                assert(out1 == out0);
                assert forall|i: int| 0 <= i < places1.len() implies #[trigger] out1[i]
                    == texts[places1[i]] by {
                    assert(out0[i] == texts0[places0[i]]);
                }
            },
            Step::Take => {
                assert(texts == texts0);
                if has_next(before, id) {
                    assert(after == before.take(id));
                    assert(waiting =~= waiting0.drop_first());
                    assert(waiting =~= texts.subrange(
                        texts.len() - waiting.len(),
                        texts.len() as int,
                    ));
                    assert(places1 == places0.push(head0));
                    assert(out1 == out0.push(waiting0[0]));
                    assert(waiting0[0] == texts0[head0]);
                    assert forall|i: int| 0 <= i < places1.len() implies #[trigger] out1[i]
                        == texts[places1[i]] by {
                        if i < places0.len() {
                            assert(out0[i] == texts0[places0[i]]);
                        }
                    }
                    assert forall|i: int, j: int| 0 <= i < j < places1.len() implies #[trigger]
                        places1[i] < #[trigger] places1[j] by {
                        if j < places0.len() {
                            assert(places0[i] < places0[j]);
                        } else {
                            assert(places0[i] < head0);
                        }
                    }
                } else {
                    assert(after == before);
                    assert(places1 == places0);
                    assert(out1 == out0);
                }
            },
        }
    }
}

} // verus!
