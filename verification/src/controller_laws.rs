//! What holds of the controller's steps taken together: how many items
//! are being processed before and after each.

use crate::controller::SessionView;
use crate::processor::{MessageView, OutcomeView, ResultView};
use crate::processor_laws::{ends_job, events_of, trace};
use crate::queue::{
    deselected, first_pending, is_locked, is_settled, is_unfinished, lemma_first_pending,
    state_set_at, StateView,
};
use crate::queue_laws::{
    lemma_count_after_clearing, lemma_count_after_update, lemma_user_locks_nothing,
    processing_count,
};
use crate::ui::QueueListInteraction;
use vstd::prelude::*;

verus! {

/// Going on to the next item starts nothing by itself: as many items are
/// being processed afterwards as before, however many jobs could not be
/// handed over. The queue keeps its length.
pub proof fn lemma_going_on_locks_nothing(session: SessionView, failures: Seq<Seq<char>>)
    ensures
        processing_count(session.dispatched(failures).queue) == processing_count(session.queue),
        session.dispatched(failures).queue.len() == session.queue.len(),
    decreases failures.len(),
{
    lemma_first_pending(session.queue);
    match first_pending(session.queue) {
        None => {},
        Some(index) => {
            if session.missing_setting() is None && failures.len() > 0 {
                let failed = session.announced(index).submission_failed(index, failures.first());
                lemma_count_after_update(
                    session.queue,
                    index,
                    session.queue[index].with_state(StateView::Error(failures.first())),
                );
                lemma_going_on_locks_nothing(failed, failures.drop_first());
            }
        },
    }
}

/// When nothing is being processed, the worker's report that a job has
/// started leaves exactly one item being processed: the one in its slot.
pub proof fn lemma_start_locks_one(session: SessionView, index: nat, failures: Seq<Seq<char>>)
    requires
        processing_count(session.queue) == 0,
        index < session.queue.len(),
    ensures
        processing_count(session.applied(ResultView::Started(index), failures).queue) == 1,
        session.applied(ResultView::Started(index), failures).queue[index as int].locked(),
{
    assert(!session.queue[index as int].locked()) by {
        if session.queue[index as int].locked() {
            session.queue.lemma_filter_contains(is_locked(), index as int);
        }
    }
    lemma_count_after_update(
        session.queue,
        index as int,
        session.queue[index as int].with_state(StateView::Processing),
    );
}

/// When the item in its slot is the only one being processed, the worker's
/// report that the job has ended, well or badly, leaves nothing being
/// processed, whatever the session goes on to.
pub proof fn lemma_end_unlocks(session: SessionView, event: ResultView, failures: Seq<Seq<char>>)
    requires
        event is Success || event is Error,
        processing_count(session.queue) == 1,
        match event {
            ResultView::Success(index) | ResultView::Error(index, _) => index < session.queue.len()
                && session.queue[index as int].locked(),
            _ => false,
        },
    ensures
        processing_count(session.applied(event, failures).queue) == 0,
{
    match event {
        ResultView::Success(index) => {
            let logged = session.noted(
                crate::logger::success_message(session.item_name(index as int)),
            );
            let completed = state_set_at(logged.queue, index as int, StateView::Completed);
            lemma_count_after_update(
                session.queue,
                index as int,
                session.queue[index as int].with_state(StateView::Completed),
            );
            lemma_count_after_clearing(completed);
            let cleared = SessionView { queue: completed.filter(is_unfinished()), ..logged };
            lemma_going_on_locks_nothing(cleared, failures);
        },
        ResultView::Error(index, error) => {
            lemma_count_after_update(
                session.queue,
                index as int,
                session.queue[index as int].with_state(StateView::Error(error)),
            );
            lemma_going_on_locks_nothing(session.submission_failed(index as int, error), failures);
        },
        _ => {},
    }
}

/// Nothing that the user does in the queue list starts or ends a job: as
/// many items are being processed afterwards as before. The same holds of
/// adding files.
pub proof fn lemma_user_starts_nothing(session: SessionView, interaction: QueueListInteraction)
    ensures
        processing_count(session.interacted(interaction).queue) == processing_count(session.queue),
{
    let kept = if interaction.delete_pressed {
        session.queue.filter(is_settled())
    } else {
        session.queue
    };
    lemma_user_locks_nothing(session.queue, 0, 0, 0);
    let cleared = deselected(kept);
    let last = match session.last_clicked_index {
        Some(last) => last as int,
        None => 0,
    };
    match interaction.clicked_index {
        None => {
            match interaction.drag_target {
                None => {},
                Some(target) => {
                    lemma_user_locks_nothing(kept, 0, 0, target as int);
                },
            }
        },
        Some(index) => {
            lemma_user_locks_nothing(kept, index as int, last, 0);
            lemma_user_locks_nothing(cleared, index as int, last, 0);
            let clicked = session.interacted(
                QueueListInteraction { drag_target: None, ..interaction },
            ).queue;
            match interaction.drag_target {
                None => {},
                Some(target) => {
                    lemma_user_locks_nothing(clicked, 0, 0, target as int);
                },
            }
        },
    }
}

/// A report of cancellation changes no item.
pub proof fn lemma_cancelled_keeps_queue(session: SessionView, failures: Seq<Seq<char>>)
    ensures
        session.applied(ResultView::Cancelled, failures).queue == session.queue,
        !session.applied(ResultView::Cancelled, failures).is_processing,
{
}

/// Whether a series of events is what a worker reports: every job that
/// starts ends before anything else is reported, and cancellations stand
/// between jobs.
pub open spec fn orderly(events: Seq<ResultView>) -> bool
    decreases events.len(),
{
    if events.len() == 0 {
        true
    } else {
        match events.first() {
            ResultView::Cancelled => orderly(events.drop_first()),
            ResultView::Started(index) => {
                &&& events.len() >= 2
                &&& ends_job(events[1], index)
                &&& orderly(events.skip(2))
            },
            _ => false,
        }
    }
}

/// Two orderly series of events, one after the other, are orderly.
proof fn lemma_orderly_joined(first: Seq<ResultView>, second: Seq<ResultView>)
    requires
        orderly(first),
        orderly(second),
    ensures
        orderly(first + second),
    decreases first.len(),
{
    let joined = first + second;
    if first.len() == 0 {
        assert(joined =~= second);
    } else {
        match first.first() {
            ResultView::Cancelled => {
                lemma_orderly_joined(first.drop_first(), second);
                assert(joined.drop_first() =~= first.drop_first() + second);
            },
            ResultView::Started(index) => {
                lemma_orderly_joined(first.skip(2), second);
                assert(joined.skip(2) =~= first.skip(2) + second);
                assert(joined[1] == first[1]);
            },
            _ => {},
        }
    }
}

/// What the worker reports for any series of messages is orderly.
pub proof fn lemma_worker_reports_orderly(
    cancelled: bool,
    messages: Seq<MessageView>,
    outcomes: Seq<OutcomeView>,
)
    ensures
        orderly(trace(cancelled, messages, outcomes)),
    decreases messages.len(),
{
    if messages.len() > 0 {
        let head = events_of(cancelled, messages.first(), outcomes.first());
        let flag = crate::processor::flag_after(cancelled, messages.first());
        lemma_worker_reports_orderly(flag, messages.drop_first(), outcomes.drop_first());
        assert(orderly(head)) by {
            reveal_with_fuel(orderly, 2);
            if head.len() == 1 {
                assert(head.drop_first() =~= Seq::<ResultView>::empty());
            }
            if head.len() == 2 {
                assert(head.skip(2) =~= Seq::<ResultView>::empty());
            }
        }
        lemma_orderly_joined(head, trace(flag, messages.drop_first(), outcomes.drop_first()));
    }
}

/// Applying one series of events after another is applying the two joined.
proof fn lemma_applied_in_two_parts(
    session: SessionView,
    first: Seq<ResultView>,
    first_failures: Seq<Seq<Seq<char>>>,
    second: Seq<ResultView>,
    second_failures: Seq<Seq<Seq<char>>>,
)
    requires
        first.len() == first_failures.len(),
        second.len() == second_failures.len(),
    ensures
        session.applied_all(first + second, first_failures + second_failures)
            == session.applied_all(first, first_failures).applied_all(second, second_failures),
    decreases second.len(),
{
    if second.len() == 0 {
        assert(first + second =~= first);
        assert(first_failures + second_failures =~= first_failures);
    } else {
        lemma_applied_in_two_parts(
            session,
            first,
            first_failures,
            second.drop_last(),
            second_failures.drop_last(),
        );
        assert((first + second).drop_last() =~= first + second.drop_last());
        assert((first_failures + second_failures).drop_last() =~= first_failures
            + second_failures.drop_last());
    }
}

/// One job at a time: from a session in which nothing is being processed,
/// an orderly series of events never leads to more than one item being
/// processed, and leaves nothing being processed at its end.
pub proof fn lemma_one_job_at_a_time(
    session: SessionView,
    events: Seq<ResultView>,
    failures: Seq<Seq<Seq<char>>>,
    seen: int,
)
    requires
        processing_count(session.queue) == 0,
        orderly(events),
        failures.len() == events.len(),
        0 <= seen <= events.len(),
    ensures
        processing_count(session.applied_all(events, failures).queue) == 0,
        processing_count(session.applied_all(events.take(seen), failures.take(seen)).queue) <= 1,
    decreases events.len(),
{
    let none = Seq::<ResultView>::empty();
    let no_failures = Seq::<Seq<Seq<char>>>::empty();
    assert(events.take(0) =~= none);
    assert(failures.take(0) =~= no_failures);
    if events.len() == 0 {
    } else {
        let block: int = if events.first() is Cancelled {
            1
        } else {
            2
        };
        let head = events.take(block);
        let head_failures = failures.take(block);
        let rest = events.skip(block);
        let rest_failures = failures.skip(block);
        assert(events =~= head + rest);
        assert(failures =~= head_failures + rest_failures);
        let first = session.applied(events[0], failures[0]);
        assert(session.applied_all(head.take(1), head_failures.take(1)) == first) by {
            assert(head.take(1).drop_last() =~= none);
            assert(head_failures.take(1).drop_last() =~= no_failures);
            assert(session.applied_all(none, no_failures) == session);
        }
        assert(processing_count(first.queue) <= 1 && (block == 1 ==> processing_count(first.queue)
            == 0)) by {
            match events[0] {
                ResultView::Started(index) => {
                    if index < session.queue.len() {
                        lemma_start_locks_one(session, index, failures[0]);
                    }
                },
                _ => {},
            }
        }
        let after = session.applied_all(head, head_failures);
        assert(processing_count(after.queue) == 0) by {
            if block == 1 {
                assert(head.take(1) =~= head);
                assert(head_failures.take(1) =~= head_failures);
            } else {
                assert(head.drop_last() =~= head.take(1));
                assert(head_failures.drop_last() =~= head_failures.take(1));
                assert(after == first.applied(events[1], failures[1]));
                let index = events[0]->Started_0;
                if index < session.queue.len() {
                    lemma_start_locks_one(session, index, failures[0]);
                    lemma_end_unlocks(first, events[1], failures[1]);
                } else {
                    lemma_going_on_locks_nothing(first, failures[1]);
                }
            }
        }
        assert(rest =~= if block == 1 {
            events.drop_first()
        } else {
            events.skip(2)
        });
        let rest_seen = if seen <= block {
            0
        } else {
            seen - block
        };
        lemma_one_job_at_a_time(after, rest, rest_failures, rest_seen);
        lemma_applied_in_two_parts(session, head, head_failures, rest, rest_failures);
        if seen == 0 {
            assert(session.applied_all(none, no_failures) == session);
        } else if seen < block {
            assert(events.take(seen) =~= head.take(1));
            assert(failures.take(seen) =~= head_failures.take(1));
        } else {
            lemma_applied_in_two_parts(
                session,
                head,
                head_failures,
                rest.take(rest_seen),
                rest_failures.take(rest_seen),
            );
            assert(events.take(seen) =~= head + rest.take(rest_seen));
            assert(failures.take(seen) =~= head_failures + rest_failures.take(rest_seen));
            if seen == block {
                assert(rest.take(0) =~= none);
                assert(rest_failures.take(0) =~= no_failures);
                assert(after.applied_all(none, no_failures) == after);
            }
        }
    }
}

} // verus!
