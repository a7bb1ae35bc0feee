//! What a whole run comes to: the controller and the worker taking turns
//! until the queue is worked off.
//!
//! One round is the life of one job. The controller has handed over the job
//! for the first pending item; the worker, with no cancellation pending,
//! reports its start and its end; the controller applies both and goes on.
//! The laws here hold of rounds in which every job can be handed over and
//! the user leaves the queue alone.

use crate::controller::{job_for, SessionView};
use crate::processor::{verdict, OutcomeView};
use crate::processor_laws::events_of;
use crate::queue::{
    first_pending, is_first_pending, is_unfinished, lemma_first_pending, ItemView, StateView,
};
use vstd::prelude::*;

verus! {

/// The session after one round: the job for the first pending item runs
/// and comes to `outcome`, and the session applies what the worker reports
/// of it. A session with nothing pending stays as it is.
pub open spec fn round(session: SessionView, outcome: OutcomeView) -> SessionView {
    match first_pending(session.queue) {
        None => session,
        Some(index) => {
            let events = events_of(false, job_for(session, index), outcome);
            session.applied(events[0], Seq::empty()).applied(events[1], Seq::empty())
        },
    }
}

/// The session after one round for each of `outcomes`, in order.
pub open spec fn rounds(session: SessionView, outcomes: Seq<OutcomeView>) -> SessionView
    decreases outcomes.len(),
{
    if outcomes.len() == 0 {
        session
    } else {
        rounds(round(session, outcomes.first()), outcomes.drop_first())
    }
}

/// A queue in which no job is under way and nothing waits to be cleared
/// away: every item is pending or has failed.
pub open spec fn idle(queue: Seq<ItemView>) -> bool {
    forall|i: int|
        0 <= i < queue.len() ==> !((#[trigger] queue[i]).state is Processing) && !(queue[i].state
            is Completed)
}

/// What is left of a queue when the scripts for its pending items come to
/// `outcomes`, first item first: an item whose script succeeds is gone, one
/// whose script fails stays in its place and shows the error, and all others
/// stay as they are. A pending item for which no outcome is left stays
/// pending.
pub open spec fn worked_off(queue: Seq<ItemView>, outcomes: Seq<OutcomeView>) -> Seq<ItemView>
    decreases queue.len(),
{
    if queue.len() == 0 {
        queue
    } else if queue.first().state is Pending && outcomes.len() > 0 {
        match verdict(outcomes.first()) {
            Ok(()) => worked_off(queue.drop_first(), outcomes.drop_first()),
            Err(error) => seq![queue.first().with_state(StateView::Error(error))] + worked_off(
                queue.drop_first(),
                outcomes.drop_first(),
            ),
        }
    } else {
        seq![queue.first()] + worked_off(queue.drop_first(), outcomes)
    }
}

/// Items at the head of the queue that are not pending are left as they
/// are.
proof fn lemma_worked_off_behind(
    head: Seq<ItemView>,
    tail: Seq<ItemView>,
    outcomes: Seq<OutcomeView>,
)
    requires
        forall|i: int| 0 <= i < head.len() ==> !((#[trigger] head[i]).state is Pending),
    ensures
        worked_off(head + tail, outcomes) == head + worked_off(tail, outcomes),
    decreases head.len(),
{
    if head.len() == 0 {
        assert(head + tail =~= tail);
        assert(head + worked_off(tail, outcomes) =~= worked_off(tail, outcomes));
    } else {
        let whole = head + tail;
        assert(whole.first() == head[0]);
        assert(whole.drop_first() =~= head.drop_first() + tail);
        assert forall|i: int| 0 <= i < head.drop_first().len() implies !((
        #[trigger] head.drop_first()[i]).state is Pending) by {
            assert(head.drop_first()[i] == head[i + 1]);
        }
        lemma_worked_off_behind(head.drop_first(), tail, outcomes);
        assert(seq![head[0]] + (head.drop_first() + worked_off(tail, outcomes)) =~= head
            + worked_off(tail, outcomes));
    }
}

/// Clearing completed items away from a queue that has one, at `index`,
/// takes out that item and nothing else.
proof fn lemma_clearing_takes_one(queue: Seq<ItemView>, index: int)
    requires
        0 <= index < queue.len(),
        queue[index].state is Completed,
        forall|i: int|
            0 <= i < queue.len() && i != index ==> !((#[trigger] queue[i]).state is Completed),
    ensures
        queue.filter(is_unfinished()) == queue.remove(index),
{
    let head = queue.subrange(0, index);
    let one = seq![queue[index]];
    let tail = queue.subrange(index + 1, queue.len() as int);
    assert(queue =~= head + one + tail);
    Seq::filter_distributes_over_add(head + one, tail, is_unfinished());
    Seq::filter_distributes_over_add(head, one, is_unfinished());
    lemma_keeps_unfinished(head);
    lemma_keeps_unfinished(tail);
    assert(one.filter(is_unfinished()) =~= Seq::<ItemView>::empty()) by {
        reveal_with_fuel(Seq::filter, 2);
        assert(one.drop_last() =~= Seq::<ItemView>::empty());
    }
    assert(head + Seq::<ItemView>::empty() + tail =~= queue.remove(index));
}

/// Clearing completed items away from a queue that has none changes
/// nothing.
proof fn lemma_keeps_unfinished(queue: Seq<ItemView>)
    requires
        forall|i: int| 0 <= i < queue.len() ==> !((#[trigger] queue[i]).state is Completed),
    ensures
        queue.filter(is_unfinished()) == queue,
    decreases queue.len(),
{
    reveal(Seq::filter);
    if queue.len() > 0 {
        let front = queue.drop_last();
        assert forall|i: int| 0 <= i < front.len() implies !((#[trigger] front[i]).state
            is Completed) by {
            assert(front[i] == queue[i]);
        }
        lemma_keeps_unfinished(front);
        assert(queue =~= front.push(queue.last()));
        front.lemma_filter_push(queue.last(), is_unfinished());
        assert(!(queue[queue.len() - 1].state is Completed));
    } else {
        assert(queue.filter(is_unfinished()) =~= queue);
    }
}

/// The queue after one round: the first pending item is gone if its script
/// succeeded, and shows the error if it failed. Nothing else has changed.
proof fn lemma_round_settles_first(session: SessionView, outcome: OutcomeView, index: int)
    requires
        session.missing_setting() is None,
        idle(session.queue),
        is_first_pending(session.queue, index),
    ensures
        round(session, outcome).queue == first_settled(session.queue, index, outcome),
        round(session, outcome).config == session.config,
        first_pending(round(session, outcome).queue) is None ==> !round(
            session,
            outcome,
        ).is_processing && round(session, outcome).status_message == "All items processed"@,
{
    lemma_first_pending(session.queue);
    let none = Seq::<Seq<char>>::empty();
    let events = events_of(false, job_for(session, index), outcome);
    let locked = session.applied(events[0], none);
    assert(locked.queue == session.queue.update(
        index,
        session.queue[index].with_state(StateView::Processing),
    ));
    match verdict(outcome) {
        Ok(()) => {
            let completed = locked.queue.update(
                index,
                locked.queue[index].with_state(StateView::Completed),
            );
            lemma_clearing_takes_one(completed, index);
            assert(completed.remove(index) =~= session.queue.remove(index));
        },
        Err(error) => {
            let failed = session.queue[index].with_state(StateView::Error(error));
            let marked = locked.queue[index].with_state(StateView::Error(error));
            assert(locked.queue.update(index, marked) =~= session.queue.update(index, failed));
        },
    }
}

/// The queue after the first pending item, at `index`, was settled by
/// `outcome`.
pub open spec fn first_settled(queue: Seq<ItemView>, index: int, outcome: OutcomeView) -> Seq<
    ItemView,
> {
    match verdict(outcome) {
        Ok(()) => queue.remove(index),
        Err(error) => queue.update(index, queue[index].with_state(StateView::Error(error))),
    }
}

/// Settling the first pending item leaves the queue idle.
proof fn lemma_settling_keeps_idle(queue: Seq<ItemView>, index: int, outcome: OutcomeView)
    requires
        idle(queue),
        0 <= index < queue.len(),
    ensures
        idle(first_settled(queue, index, outcome)),
{
    let next = first_settled(queue, index, outcome);
    assert forall|i: int| 0 <= i < next.len() implies !((#[trigger] next[i]).state is Processing)
        && !(next[i].state is Completed) by {
        if verdict(outcome) is Ok {
            if i < index {
                assert(next[i] == queue[i]);
            } else {
                assert(next[i] == queue[i + 1]);
            }
        } else {
            if i != index {
                assert(next[i] == queue[i]);
            }
        }
    }
}

/// Working off a queue whose first item is pending: the item goes or
/// shows its error, and the rest is worked off with the outcomes that are
/// left.
proof fn lemma_worked_off_first(item: ItemView, tail: Seq<ItemView>, outcomes: Seq<OutcomeView>)
    requires
        item.state is Pending,
        outcomes.len() > 0,
    ensures
        worked_off(seq![item] + tail, outcomes) == match verdict(outcomes.first()) {
            Ok(()) => worked_off(tail, outcomes.drop_first()),
            Err(error) => seq![item.with_state(StateView::Error(error))] + worked_off(
                tail,
                outcomes.drop_first(),
            ),
        },
{
    let whole = seq![item] + tail;
    assert(whole.first() == item);
    assert(whole.drop_first() =~= tail);
}

/// Working the queue off is settling its first pending item and working
/// off what is left. Settling an item leaves the queue idle.
proof fn lemma_worked_off_by_steps(queue: Seq<ItemView>, index: int, outcomes: Seq<OutcomeView>)
    requires
        idle(queue),
        is_first_pending(queue, index),
        outcomes.len() > 0,
    ensures
        worked_off(queue, outcomes) == worked_off(
            first_settled(queue, index, outcomes.first()),
            outcomes.drop_first(),
        ),
        idle(first_settled(queue, index, outcomes.first())),
{
    let outcome = outcomes.first();
    let later = outcomes.drop_first();
    let next = first_settled(queue, index, outcome);
    let head = queue.subrange(0, index);
    let tail = queue.subrange(index + 1, queue.len() as int);
    lemma_settling_keeps_idle(queue, index, outcome);
    assert(worked_off(queue, outcomes) == head + worked_off(seq![queue[index]] + tail, outcomes))
        by {
        assert(queue =~= head + (seq![queue[index]] + tail));
        lemma_worked_off_behind(head, seq![queue[index]] + tail, outcomes);
    }
    lemma_worked_off_first(queue[index], tail, outcomes);
    match verdict(outcome) {
        Ok(()) => {
            assert(worked_off(next, later) == head + worked_off(tail, later)) by {
                assert(next =~= head + tail);
                lemma_worked_off_behind(head, tail, later);
            }
        },
        Err(error) => {
            let failed = queue[index].with_state(StateView::Error(error));
            let longer = head.push(failed);
            assert(worked_off(next, later) == longer + worked_off(tail, later)) by {
                assert(next =~= longer + tail);
                assert forall|i: int| 0 <= i < longer.len() implies !((#[trigger] longer[i]).state
                    is Pending) by {
                    if i < index {
                        assert(longer[i] == queue[i]);
                    }
                }
                lemma_worked_off_behind(longer, tail, later);
            }
            assert(longer + worked_off(tail, later) =~= head + (seq![failed] + worked_off(
                tail,
                later,
            )));
        },
    }
}

/// A run works the queue off from the front: after one round for each of
/// `outcomes`, the queue is what `worked_off` says. Every item whose script
/// succeeded is gone, every item whose script failed is still in its place
/// and shows the error, and no other item has changed or moved past
/// another.
pub proof fn lemma_run_works_queue_off(session: SessionView, outcomes: Seq<OutcomeView>)
    requires
        session.missing_setting() is None,
        idle(session.queue),
    ensures
        rounds(session, outcomes).queue == worked_off(session.queue, outcomes),
        idle(rounds(session, outcomes).queue),
        rounds(session, outcomes).config == session.config,
    decreases outcomes.len(),
{
    lemma_first_pending(session.queue);
    let queue = session.queue;
    if outcomes.len() == 0 {
        assert(outcomes =~= Seq::<OutcomeView>::empty());
        lemma_worked_off_without_outcomes(queue);
    } else {
        match first_pending(queue) {
            None => {
                lemma_run_works_queue_off(session, outcomes.drop_first());
                lemma_worked_off_without_pending(queue, outcomes);
                lemma_worked_off_without_pending(queue, outcomes.drop_first());
            },
            Some(index) => {
                lemma_round_settles_first(session, outcomes.first(), index);
                lemma_worked_off_by_steps(queue, index, outcomes);
                lemma_run_works_queue_off(round(session, outcomes.first()), outcomes.drop_first());
            },
        }
    }
}

/// A session with nothing pending stays as it is through any rounds.
proof fn lemma_rounds_at_rest(session: SessionView, outcomes: Seq<OutcomeView>)
    requires
        first_pending(session.queue) is None,
    ensures
        rounds(session, outcomes) == session,
    decreases outcomes.len(),
{
    if outcomes.len() > 0 {
        lemma_rounds_at_rest(session, outcomes.drop_first());
    }
}

/// A run that leaves nothing pending leaves the session at rest, saying
/// that all items are processed.
pub proof fn lemma_run_comes_to_rest(session: SessionView, outcomes: Seq<OutcomeView>)
    requires
        session.missing_setting() is None,
        idle(session.queue),
        first_pending(session.queue) is Some,
        outcomes.len() > 0,
        first_pending(rounds(session, outcomes).queue) is None,
    ensures
        !rounds(session, outcomes).is_processing,
        rounds(session, outcomes).status_message == "All items processed"@,
    decreases outcomes.len(),
{
    lemma_first_pending(session.queue);
    let index = first_pending(session.queue)->0;
    let next = round(session, outcomes.first());
    lemma_round_settles_first(session, outcomes.first(), index);
    lemma_worked_off_by_steps(session.queue, index, outcomes);
    if first_pending(next.queue) is None {
        lemma_rounds_at_rest(next, outcomes.drop_first());
    } else {
        if outcomes.drop_first().len() > 0 {
            lemma_run_comes_to_rest(next, outcomes.drop_first());
        }
    }
}

/// With no outcome left, nothing changes.
proof fn lemma_worked_off_without_outcomes(queue: Seq<ItemView>)
    ensures
        worked_off(queue, Seq::empty()) == queue,
    decreases queue.len(),
{
    if queue.len() > 0 {
        lemma_worked_off_without_outcomes(queue.drop_first());
        assert(seq![queue.first()] + queue.drop_first() =~= queue);
    }
}

/// With nothing pending, nothing changes.
proof fn lemma_worked_off_without_pending(queue: Seq<ItemView>, outcomes: Seq<OutcomeView>)
    requires
        forall|i: int| 0 <= i < queue.len() ==> !((#[trigger] queue[i]).state is Pending),
    ensures
        worked_off(queue, outcomes) == queue,
{
    lemma_worked_off_behind(queue, Seq::empty(), outcomes);
    assert(queue + Seq::<ItemView>::empty() =~= queue);
}

} // verus!
