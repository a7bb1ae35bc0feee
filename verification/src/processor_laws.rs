//! What holds of the events that the worker reports, proved over the
//! functions that the contracts of `Worker` are stated with.

use crate::processor::{
    concluded, flag_after, reaction, ActionView, MessageView, OutcomeView, ResultView,
};
use vstd::prelude::*;

verus! {

/// The events that one message gives rise to, in order, when the worker's
/// cancel flag is `cancelled` and running the script, if it is run, comes to
/// `outcome`.
pub open spec fn events_of(cancelled: bool, message: MessageView, outcome: OutcomeView) -> Seq<
    ResultView,
> {
    match reaction(cancelled, message) {
        ActionView::Skip => Seq::empty(),
        ActionView::Report(event) => seq![event],
        ActionView::Run { started, index, .. } => seq![started, concluded(index, outcome)],
    }
}

/// The events that a series of messages gives rise to, in order, starting
/// with the cancel flag at `cancelled`. `outcomes[i]` is what running the
/// script for `messages[i]` comes to; it counts only where the script is run.
pub open spec fn trace(
    cancelled: bool,
    messages: Seq<MessageView>,
    outcomes: Seq<OutcomeView>,
) -> Seq<ResultView>
    decreases messages.len(),
{
    if messages.len() == 0 {
        Seq::empty()
    } else {
        events_of(cancelled, messages.first(), outcomes.first()) + trace(
            flag_after(cancelled, messages.first()),
            messages.drop_first(),
            outcomes.drop_first(),
        )
    }
}

/// The cancel flag after a series of messages.
pub open spec fn flag_after_all(cancelled: bool, messages: Seq<MessageView>) -> bool
    decreases messages.len(),
{
    if messages.len() == 0 {
        cancelled
    } else {
        flag_after_all(flag_after(cancelled, messages.first()), messages.drop_first())
    }
}

/// Whether the event ends the job for slot `index`: its success, or an
/// error of it.
pub open spec fn ends_job(event: ResultView, index: nat) -> bool {
    match event {
        ResultView::Success(slot) => slot == index,
        ResultView::Error(slot, _) => slot == index,
        _ => false,
    }
}

/// A job that arrives while no cancellation is pending gives exactly two
/// events: that it started, and then either its success or its error. No
/// cancellation is pending afterwards, and the messages that follow are
/// handled as if the job had never been.
pub proof fn lemma_job_starts_then_ends(messages: Seq<MessageView>, outcomes: Seq<OutcomeView>)
    requires
        messages.len() >= 1,
        outcomes.len() == messages.len(),
        messages[0] is Process,
    ensures
        events_of(false, messages[0], outcomes[0]) == seq![
            ResultView::Started(messages[0]->index),
            concluded(messages[0]->index, outcomes[0]),
        ],
        ends_job(concluded(messages[0]->index, outcomes[0]), messages[0]->index),
        trace(false, messages, outcomes) == events_of(false, messages[0], outcomes[0]) + trace(
            false,
            messages.skip(1),
            outcomes.skip(1),
        ),
{
    assert(messages.drop_first() =~= messages.skip(1));
    assert(outcomes.drop_first() =~= outcomes.skip(1));
}

/// A cancellation followed by a job gives the one event `Cancelled`: the
/// job is neither started nor ended. The job uses the cancellation up, so
/// the messages that follow are handled with no cancellation pending.
pub proof fn lemma_cancel_skips_next_job(
    cancelled: bool,
    messages: Seq<MessageView>,
    outcomes: Seq<OutcomeView>,
)
    requires
        messages.len() >= 2,
        outcomes.len() == messages.len(),
        messages[0] is Cancel,
        messages[1] is Process,
    ensures
        events_of(cancelled, messages[0], outcomes[0]) == seq![ResultView::Cancelled],
        events_of(true, messages[1], outcomes[1]) == Seq::<ResultView>::empty(),
        trace(cancelled, messages, outcomes) == seq![ResultView::Cancelled] + trace(
            false,
            messages.skip(2),
            outcomes.skip(2),
        ),
        messages.len() == 2 ==> trace(cancelled, messages, outcomes) == seq![ResultView::Cancelled],
        flag_after_all(cancelled, messages.take(2)) == false,
{
    let rest = messages.drop_first();
    let rest_outcomes = outcomes.drop_first();
    assert(rest.first() == messages[1]);
    assert(rest.drop_first() =~= messages.skip(2));
    assert(rest_outcomes.drop_first() =~= outcomes.skip(2));
    assert(trace(true, rest, rest_outcomes) == events_of(true, rest.first(), rest_outcomes.first())
        + trace(false, rest.drop_first(), rest_outcomes.drop_first()));
    assert(seq![ResultView::Cancelled] + (Seq::<ResultView>::empty() + trace(
        false,
        messages.skip(2),
        outcomes.skip(2),
    )) =~= seq![ResultView::Cancelled] + trace(false, messages.skip(2), outcomes.skip(2)));
    if messages.len() == 2 {
        assert(trace(false, messages.skip(2), outcomes.skip(2)) =~= Seq::<ResultView>::empty());
        assert(seq![ResultView::Cancelled] + Seq::<ResultView>::empty() =~= seq![
            ResultView::Cancelled,
        ]);
    }
    let pair = messages.take(2);
    assert(pair.first() == messages[0]);
    assert(pair.drop_first().first() == messages[1]);
    assert(pair.drop_first().drop_first().len() == 0);
    assert(flag_after_all(cancelled, pair) == flag_after_all(true, pair.drop_first()));
    assert(flag_after_all(true, pair.drop_first()) == flag_after_all(
        false,
        pair.drop_first().drop_first(),
    ));
}

/// A cancellation that arrives while a job is running takes nothing from
/// that job: it still reports its start and its end. Only the job that is
/// handed over next is skipped, and the one after that runs again.
pub proof fn lemma_cancel_spares_running_job(
    messages: Seq<MessageView>,
    outcomes: Seq<OutcomeView>,
)
    requires
        messages.len() >= 3,
        outcomes.len() == messages.len(),
        messages[0] is Process,
        messages[1] is Cancel,
        messages[2] is Process,
    ensures
        trace(false, messages, outcomes) == seq![
            ResultView::Started(messages[0]->index),
            concluded(messages[0]->index, outcomes[0]),
            ResultView::Cancelled,
        ] + trace(false, messages.skip(3), outcomes.skip(3)),
        ends_job(concluded(messages[0]->index, outcomes[0]), messages[0]->index),
{
    lemma_job_starts_then_ends(messages, outcomes);
    let rest = messages.skip(1);
    let rest_outcomes = outcomes.skip(1);
    lemma_cancel_skips_next_job(false, rest, rest_outcomes);
    assert(rest.skip(2) =~= messages.skip(3));
    assert(rest_outcomes.skip(2) =~= outcomes.skip(3));
    assert(seq![
        ResultView::Started(messages[0]->index),
        concluded(messages[0]->index, outcomes[0]),
    ] + (seq![ResultView::Cancelled] + trace(false, messages.skip(3), outcomes.skip(3))) =~= seq![
        ResultView::Started(messages[0]->index),
        concluded(messages[0]->index, outcomes[0]),
        ResultView::Cancelled,
    ] + trace(false, messages.skip(3), outcomes.skip(3)));
}

/// Every job that is run is reported as started before it is reported as
/// ended, and nothing comes between the two.
pub proof fn lemma_start_directly_before_end(
    cancelled: bool,
    message: MessageView,
    outcome: OutcomeView,
)
    ensures
        ({
            let events = events_of(cancelled, message, outcome);
            forall|i: int|
                0 <= i < events.len() ==> match #[trigger] events[i] {
                    ResultView::Success(slot) | ResultView::Error(slot, _) => i == 1 && events[0]
                        == ResultView::Started(slot),
                    ResultView::Started(slot) => i == 0 && events.len() == 2 && ends_job(
                        events[1],
                        slot,
                    ),
                    ResultView::Cancelled => events.len() == 1,
                }
        }),
{
}

} // verus!
