//! What holds of the queue operations taken together, proved over the
//! functions that their contracts are stated with.

use crate::queue::{
    added, deselected, fresh_item, is_locked, is_movable, is_settled, is_unfinished, landing,
    moved, range_selected, select_at, toggle_at, ItemView,
};
use std::path::PathBuf;
use vstd::prelude::*;

verus! {

/// One call that adds to the queue: `add` with a path, or `add_multiple`
/// with a list of paths.
pub enum Addition {
    One(PathBuf),
    Many(Seq<PathBuf>),
}

impl Addition {
    /// The paths that the call hands over, in order.
    pub open spec fn paths(self) -> Seq<PathBuf> {
        match self {
            Addition::One(path) => seq![path],
            Addition::Many(paths) => paths,
        }
    }

    /// The queue after the call, by the contract of the operation called.
    pub open spec fn apply(self, queue: Seq<ItemView>) -> Seq<ItemView> {
        match self {
            Addition::One(path) => queue.push(fresh_item(path)),
            Addition::Many(paths) => added(queue, paths),
        }
    }
}

/// The queue after a series of adding calls, made in order on `queue`.
pub open spec fn after_additions(queue: Seq<ItemView>, calls: Seq<Addition>) -> Seq<ItemView>
    decreases calls.len(),
{
    if calls.len() == 0 {
        queue
    } else {
        calls.last().apply(after_additions(queue, calls.drop_last()))
    }
}

/// All paths handed over by a series of adding calls, in call order.
pub open spec fn all_paths(calls: Seq<Addition>) -> Seq<PathBuf>
    decreases calls.len(),
{
    if calls.len() == 0 {
        Seq::empty()
    } else {
        all_paths(calls.drop_last()) + calls.last().paths()
    }
}

/// Any series of `add` and `add_multiple` calls leaves the queue as it was,
/// followed by one item for each path handed over, in call order, each of
/// them pending and unselected.
pub proof fn lemma_additions_concatenate(queue: Seq<ItemView>, calls: Seq<Addition>)
    ensures
        after_additions(queue, calls) == added(queue, all_paths(calls)),
        after_additions(queue, calls).len() == queue.len() + all_paths(calls).len(),
        forall|i: int|
            0 <= i < all_paths(calls).len() ==> {
                let item = #[trigger] after_additions(queue, calls)[queue.len() + i];
                &&& item.path == all_paths(calls)[i]
                &&& item.state is Pending
                &&& !item.selected
            },
    decreases calls.len(),
{
    if calls.len() == 0 {
        assert(after_additions(queue, calls) =~= added(queue, all_paths(calls)));
    } else {
        lemma_additions_concatenate(queue, calls.drop_last());
        let before = all_paths(calls.drop_last());
        let last = calls.last().paths();
        assert(calls.last().apply(added(queue, before)) =~= added(queue, before + last));
    }
    assert forall|i: int| 0 <= i < all_paths(calls).len() implies {
        let item = #[trigger] after_additions(queue, calls)[queue.len() + i];
        &&& item.path == all_paths(calls)[i]
        &&& item.state is Pending
        &&& !item.selected
    } by {
        assert(added(queue, all_paths(calls))[queue.len() + i] == fresh_item(all_paths(calls)[i]));
    }
}

/// Filtering for the locked items after filtering for the settled ones is
/// filtering for the locked ones alone: every locked item is settled.
proof fn lemma_locked_within_settled(queue: Seq<ItemView>)
    ensures
        queue.filter(is_settled()).filter(is_locked()) == queue.filter(is_locked()),
    decreases queue.len(),
{
    reveal(Seq::filter);
    if queue.len() > 0 {
        let front = queue.drop_last();
        lemma_locked_within_settled(front);
        assert(queue =~= front.push(queue.last()));
        front.lemma_filter_push(queue.last(), is_settled());
        front.lemma_filter_push(queue.last(), is_locked());
        front.filter(is_settled()).lemma_filter_push(queue.last(), is_locked());
    }
}

/// A filter keeps the whole of a sequence whose items it all picks, and
/// nothing of one whose items it all rejects.
proof fn lemma_filter_uniform(queue: Seq<ItemView>, pick: spec_fn(ItemView) -> bool)
    ensures
        (forall|i: int| 0 <= i < queue.len() ==> pick(#[trigger] queue[i])) ==> queue.filter(pick)
            == queue,
        (forall|i: int| 0 <= i < queue.len() ==> !pick(#[trigger] queue[i])) ==> queue.filter(
            pick,
        ) == Seq::<ItemView>::empty(),
    decreases queue.len(),
{
    reveal(Seq::filter);
    if queue.len() > 0 {
        let front = queue.drop_last();
        lemma_filter_uniform(front, pick);
        assert(queue =~= front.push(queue.last()));
        front.lemma_filter_push(queue.last(), pick);
        if forall|i: int| 0 <= i < queue.len() ==> pick(#[trigger] queue[i]) {
            assert forall|i: int| 0 <= i < front.len() implies pick(#[trigger] front[i]) by {
                assert(front[i] == queue[i]);
            }
            assert(pick(queue[queue.len() - 1]));
        }
        if forall|i: int| 0 <= i < queue.len() ==> !pick(#[trigger] queue[i]) {
            assert forall|i: int| 0 <= i < front.len() implies !pick(#[trigger] front[i]) by {
                assert(front[i] == queue[i]);
            }
            assert(!pick(queue[queue.len() - 1]));
        }
    } else {
        assert(queue.filter(pick) =~= queue);
    }
}

/// Bulk removal never removes an item that is being processed, whatever is
/// selected: the locked items of the queue are the same before and after,
/// in number and in order.
pub proof fn lemma_removal_spares_locked(queue: Seq<ItemView>)
    ensures
        queue.filter(is_settled()).filter(is_locked()) == queue.filter(is_locked()),
        forall|i: int|
            0 <= i < queue.len() && (#[trigger] queue[i]).locked() ==> queue.filter(
                is_settled(),
            ).contains(queue[i]),
{
    lemma_locked_within_settled(queue);
    assert forall|i: int|
        0 <= i < queue.len() && (#[trigger] queue[i]).locked() implies queue.filter(
        is_settled(),
    ).contains(queue[i]) by {
        assert(is_settled()(queue[i]));
        queue.lemma_filter_contains(is_settled(), i);
    }
}

/// `select`, `toggle_select` and `select_range` leave every locked item as
/// it is, wherever they are aimed.
pub proof fn lemma_selection_spares_locked(
    queue: Seq<ItemView>,
    index: int,
    start: int,
    end: int,
    k: int,
)
    requires
        0 <= k < queue.len(),
        queue[k].locked(),
    ensures
        select_at(queue, index)[k] == queue[k],
        toggle_at(queue, index)[k] == queue[k],
        range_selected(queue, start, end)[k] == queue[k],
        queue[index].locked() && 0 <= index < queue.len() ==> select_at(queue, index) == queue
            && toggle_at(queue, index) == queue,
{
}

/// No selection operation changes the length of the queue, a path or a
/// state.
pub proof fn lemma_selection_keeps_items(queue: Seq<ItemView>, index: int, start: int, end: int)
    ensures
        select_at(queue, index).len() == queue.len(),
        toggle_at(queue, index).len() == queue.len(),
        range_selected(queue, start, end).len() == queue.len(),
        forall|k: int|
            0 <= k < queue.len() ==> {
                &&& (#[trigger] select_at(queue, index)[k]).path == queue[k].path
                &&& select_at(queue, index)[k].state == queue[k].state
            },
        forall|k: int|
            0 <= k < queue.len() ==> {
                &&& (#[trigger] toggle_at(queue, index)[k]).path == queue[k].path
                &&& toggle_at(queue, index)[k].state == queue[k].state
            },
        forall|k: int|
            0 <= k < queue.len() ==> {
                &&& (#[trigger] range_selected(queue, start, end)[k]).path == queue[k].path
                &&& range_selected(queue, start, end)[k].state == queue[k].state
            },
{
}

/// Selecting the same index twice is the same as selecting it once.
pub proof fn lemma_select_idempotent(queue: Seq<ItemView>, index: int)
    ensures
        select_at(select_at(queue, index), index) == select_at(queue, index),
{
    assert(select_at(select_at(queue, index), index) =~= select_at(queue, index));
}

/// `select_range` selects exactly the unlocked items between its bounds and
/// leaves the flag of every other item as it was.
pub proof fn lemma_range_selects_between(queue: Seq<ItemView>, start: int, end: int, k: int)
    requires
        0 <= k < queue.len(),
    ensures
        (start <= k <= end || end <= k <= start) && !queue[k].locked() ==> range_selected(
            queue,
            start,
            end,
        )[k].selected,
        !(start <= k <= end || end <= k <= start) ==> range_selected(queue, start, end)[k]
            == queue[k],
        range_selected(queue, start, end) == range_selected(queue, end, start),
{
    assert(range_selected(queue, start, end) =~= range_selected(queue, end, start));
}

/// A filter works through three sequences joined end to end one by one.
proof fn lemma_filter_three(
    head: Seq<ItemView>,
    run: Seq<ItemView>,
    tail: Seq<ItemView>,
    pick: spec_fn(ItemView) -> bool,
)
    ensures
        (head + run + tail).filter(pick) == head.filter(pick) + run.filter(pick) + tail.filter(
            pick,
        ),
{
    Seq::filter_distributes_over_add(head + run, tail, pick);
    Seq::filter_distributes_over_add(head, run, pick);
}

/// What a filter keeps of the queue after a move, where it keeps all of the
/// moved run: the run alone if it rejects every settled item.
proof fn lemma_move_run_kept(queue: Seq<ItemView>, target: int)
    requires
        0 <= target,
    ensures
        moved(queue, target).filter(is_movable()) == queue.filter(is_movable()),
{
    let settled = queue.filter(is_settled());
    let run = queue.filter(is_movable());
    let at = landing(queue, target);
    let head = settled.subrange(0, at);
    let tail = settled.subrange(at, settled.len() as int);
    assert forall|i: int| 0 <= i < head.len() implies !is_movable()(#[trigger] head[i]) by {
        queue.lemma_filter_pred(is_settled(), i);
    }
    assert forall|i: int| 0 <= i < tail.len() implies !is_movable()(#[trigger] tail[i]) by {
        queue.lemma_filter_pred(is_settled(), at + i);
    }
    assert forall|i: int| 0 <= i < run.len() implies is_movable()(#[trigger] run[i]) by {
        queue.lemma_filter_pred(is_movable(), i);
    }
    lemma_filter_uniform(head, is_movable());
    lemma_filter_uniform(tail, is_movable());
    lemma_filter_uniform(run, is_movable());
    lemma_filter_three(head, run, tail, is_movable());
    assert(Seq::<ItemView>::empty() + run + Seq::<ItemView>::empty() =~= run);
}

/// What a filter keeps of the queue after a move, where it rejects all of
/// the moved run: what it keeps of the settled items.
proof fn lemma_move_run_rejected(queue: Seq<ItemView>, target: int, pick: spec_fn(ItemView) -> bool)
    requires
        0 <= target,
        pick == is_settled() || pick == is_locked(),
    ensures
        moved(queue, target).filter(pick) == queue.filter(is_settled()).filter(pick),
{
    let settled = queue.filter(is_settled());
    let run = queue.filter(is_movable());
    let at = landing(queue, target);
    let head = settled.subrange(0, at);
    let tail = settled.subrange(at, settled.len() as int);
    assert(head + tail =~= settled);
    assert forall|i: int| 0 <= i < run.len() implies !pick(#[trigger] run[i]) by {
        queue.lemma_filter_pred(is_movable(), i);
    }
    lemma_filter_uniform(run, pick);
    lemma_filter_three(head, run, tail, pick);
    Seq::filter_distributes_over_add(head, tail, pick);
    assert(head.filter(pick) + Seq::<ItemView>::empty() + tail.filter(pick) =~= head.filter(pick)
        + tail.filter(pick));
}

/// Moving keeps the moved items in the order they had, keeps all other
/// items in the order they had, and so keeps the locked items in the order
/// they had among themselves. The moved items end up next to one another,
/// starting at `landing`.
pub proof fn lemma_move_keeps_orders(queue: Seq<ItemView>, target: int)
    requires
        0 <= target,
    ensures
        moved(queue, target).filter(is_movable()) == queue.filter(is_movable()),
        moved(queue, target).filter(is_settled()) == queue.filter(is_settled()),
        moved(queue, target).filter(is_locked()) == queue.filter(is_locked()),
        moved(queue, target).len() == queue.len(),
        moved(queue, target).subrange(
            landing(queue, target),
            landing(queue, target) + queue.filter(is_movable()).len(),
        ) == queue.filter(is_movable()),
{
    lemma_move_run_kept(queue, target);
    lemma_move_run_rejected(queue, target, is_settled());
    lemma_move_run_rejected(queue, target, is_locked());
    lemma_locked_within_settled(queue);
    lemma_settled_twice(queue);
    lemma_move_run_placed(queue, target);
}

/// An item keeps its very place in a move if nothing movable stands at or
/// before it and the moved run lands behind it.
pub proof fn lemma_move_keeps_leading_items(queue: Seq<ItemView>, target: int, place: int)
    requires
        0 <= place < queue.len(),
        place < target,
        forall|j: int| 0 <= j <= place ==> !(#[trigger] queue[j]).movable(),
    ensures
        place < landing(queue, target),
        moved(queue, target)[place] == queue[place],
{
    let head = queue.subrange(0, place + 1);
    let tail = queue.subrange(place + 1, queue.len() as int);
    assert(queue =~= head + tail);
    Seq::filter_distributes_over_add(head, tail, is_settled());
    assert forall|j: int| 0 <= j < head.len() implies is_settled()(#[trigger] head[j]) by {
        assert(head[j] == queue[j]);
    }
    lemma_filter_uniform(head, is_settled());
    let settled = queue.filter(is_settled());
    assert(settled == head + tail.filter(is_settled()));
    assert(settled[place] == queue[place]);
}

/// Filtering for the settled items a second time changes nothing.
proof fn lemma_settled_twice(queue: Seq<ItemView>)
    ensures
        queue.filter(is_settled()).filter(is_settled()) == queue.filter(is_settled()),
{
    let settled = queue.filter(is_settled());
    assert forall|i: int| 0 <= i < settled.len() implies is_settled()(#[trigger] settled[i]) by {
        queue.lemma_filter_pred(is_settled(), i);
    }
    lemma_filter_uniform(settled, is_settled());
}

/// After a move the queue is as long as before, and the moved run stands
/// at `landing`.
proof fn lemma_move_run_placed(queue: Seq<ItemView>, target: int)
    requires
        0 <= target,
    ensures
        moved(queue, target).len() == queue.len(),
        moved(queue, target).subrange(
            landing(queue, target),
            landing(queue, target) + queue.filter(is_movable()).len(),
        ) == queue.filter(is_movable()),
{
    lemma_split_lengths(queue);
    let at = landing(queue, target);
    let run = queue.filter(is_movable());
    assert(moved(queue, target).subrange(at, at + run.len()) =~= run);
}

/// The number of items of the queue that are being processed.
pub open spec fn processing_count(queue: Seq<ItemView>) -> nat {
    queue.filter(is_locked()).len()
}

/// One more or one fewer item is being processed after the item at
/// `index` was replaced, according to whether the old and the new item are.
pub proof fn lemma_count_after_update(queue: Seq<ItemView>, index: int, item: ItemView)
    requires
        0 <= index < queue.len(),
    ensures
        processing_count(queue.update(index, item)) + (if queue[index].locked() {
            1nat
        } else {
            0nat
        }) == processing_count(queue) + (if item.locked() {
            1nat
        } else {
            0nat
        }),
    decreases queue.len(),
{
    reveal(Seq::filter);
    let front = queue.drop_last();
    let changed = queue.update(index, item);
    assert(queue =~= front.push(queue.last()));
    front.lemma_filter_push(queue.last(), is_locked());
    if index == queue.len() - 1 {
        assert(changed =~= front.push(item));
        front.lemma_filter_push(item, is_locked());
    } else {
        lemma_count_after_update(front, index, item);
        assert(changed =~= front.update(index, item).push(queue.last()));
        front.update(index, item).lemma_filter_push(queue.last(), is_locked());
    }
}

/// Clearing completed items away does not change how many items are being
/// processed.
pub proof fn lemma_count_after_clearing(queue: Seq<ItemView>)
    ensures
        processing_count(queue.filter(is_unfinished())) == processing_count(queue),
    decreases queue.len(),
{
    reveal(Seq::filter);
    if queue.len() > 0 {
        let front = queue.drop_last();
        lemma_count_after_clearing(front);
        assert(queue =~= front.push(queue.last()));
        front.lemma_filter_push(queue.last(), is_unfinished());
        front.lemma_filter_push(queue.last(), is_locked());
        front.filter(is_unfinished()).lemma_filter_push(queue.last(), is_locked());
    }
}

/// Two queues of one length in which the same places are locked have as
/// many items being processed.
proof fn lemma_count_by_places(first: Seq<ItemView>, second: Seq<ItemView>)
    requires
        first.len() == second.len(),
        forall|i: int| 0 <= i < first.len() ==> first[i].locked() == second[i].locked(),
    ensures
        processing_count(first) == processing_count(second),
    decreases first.len(),
{
    reveal(Seq::filter);
    if first.len() > 0 {
        lemma_count_by_places(first.drop_last(), second.drop_last());
        assert(first =~= first.drop_last().push(first.last()));
        assert(second =~= second.drop_last().push(second.last()));
        first.drop_last().lemma_filter_push(first.last(), is_locked());
        second.drop_last().lemma_filter_push(second.last(), is_locked());
    }
}

/// Selecting and deselecting leave as many items being processed as
/// before.
proof fn lemma_selection_locks_nothing(queue: Seq<ItemView>, index: int, other: int)
    ensures
        processing_count(select_at(queue, index)) == processing_count(queue),
        processing_count(toggle_at(queue, index)) == processing_count(queue),
        processing_count(range_selected(queue, other, index)) == processing_count(queue),
        processing_count(deselected(queue)) == processing_count(queue),
{
    lemma_count_by_places(select_at(queue, index), queue);
    lemma_count_by_places(toggle_at(queue, index), queue);
    lemma_count_by_places(range_selected(queue, other, index), queue);
    lemma_count_by_places(deselected(queue), queue);
}

/// Adding files leaves as many items being processed as before.
proof fn lemma_adding_locks_nothing(queue: Seq<ItemView>, paths: Seq<PathBuf>)
    ensures
        processing_count(added(queue, paths)) == processing_count(queue),
{
    let fresh = paths.map_values(|path: PathBuf| fresh_item(path));
    Seq::filter_distributes_over_add(queue, fresh, is_locked());
    lemma_filter_uniform(fresh, is_locked());
    assert(queue.filter(is_locked()) + Seq::<ItemView>::empty() =~= queue.filter(is_locked()));
}

/// Nothing that the user can do to the queue starts or ends a job:
/// selecting, deselecting, removing the selection, moving it and adding
/// files all leave as many items being processed as before.
pub proof fn lemma_user_locks_nothing(queue: Seq<ItemView>, index: int, other: int, target: int)
    requires
        0 <= target,
    ensures
        processing_count(select_at(queue, index)) == processing_count(queue),
        processing_count(toggle_at(queue, index)) == processing_count(queue),
        processing_count(range_selected(queue, other, index)) == processing_count(queue),
        processing_count(deselected(queue)) == processing_count(queue),
        processing_count(queue.filter(is_settled())) == processing_count(queue),
        processing_count(moved(queue, target)) == processing_count(queue),
        forall|paths: Seq<PathBuf>| #[trigger]
            processing_count(added(queue, paths)) == processing_count(queue),
{
    lemma_selection_locks_nothing(queue, index, other);
    assert(processing_count(queue.filter(is_settled())) == processing_count(queue)) by {
        lemma_removal_spares_locked(queue);
    }
    assert(processing_count(moved(queue, target)) == processing_count(queue)) by {
        lemma_move_keeps_orders(queue, target);
    }
    assert forall|paths: Seq<PathBuf>| #[trigger]
        processing_count(added(queue, paths)) == processing_count(queue) by {
        lemma_adding_locks_nothing(queue, paths);
    }
}

/// Every item is either movable or settled, so the two filters split the
/// queue.
proof fn lemma_split_lengths(queue: Seq<ItemView>)
    ensures
        queue.filter(is_settled()).len() + queue.filter(is_movable()).len() == queue.len(),
    decreases queue.len(),
{
    reveal(Seq::filter);
    if queue.len() > 0 {
        let front = queue.drop_last();
        lemma_split_lengths(front);
        assert(queue =~= front.push(queue.last()));
        front.lemma_filter_push(queue.last(), is_settled());
        front.lemma_filter_push(queue.last(), is_movable());
    }
}

} // verus!
