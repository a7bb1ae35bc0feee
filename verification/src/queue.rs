//! The ordered work queue: items, their states and selection flags, and the
//! operations that add, remove, select and reorder them.
//!
//! The order of the queue is both the order in which items are shown and the
//! order in which they are executed. An item that is being processed is
//! *locked*: interaction can neither change its selection flag nor remove it.

use crate::paths::{file_name_of, path_file_name, path_text, path_to_text};
use std::path::PathBuf;
use vstd::prelude::*;

verus! {

/// Where an item stands in its life: `Pending`, then `Processing`, then
/// either `Completed` or `Error` with a message.
#[derive(Debug, Clone, PartialEq)]
pub enum ItemState {
    Pending,
    Processing,
    Completed,
    Error(String),
}

/// The mathematical value of an [`ItemState`].
pub enum StateView {
    Pending,
    Processing,
    Completed,
    Error(Seq<char>),
}

impl View for ItemState {
    type V = StateView;

    open spec fn view(&self) -> StateView {
        match *self {
            ItemState::Pending => StateView::Pending,
            ItemState::Processing => StateView::Processing,
            ItemState::Completed => StateView::Completed,
            ItemState::Error(message) => StateView::Error(message@),
        }
    }
}

/// One unit of work: the file to transform, its state and whether the user
/// has it selected.
#[derive(Debug, Clone)]
pub struct QueueItem {
    pub path: PathBuf,
    pub state: ItemState,
    pub selected: bool,
}

/// The mathematical value of a [`QueueItem`].
pub struct ItemView {
    pub path: PathBuf,
    pub state: StateView,
    pub selected: bool,
}

impl ItemView {
    /// An item is locked exactly while it is being processed.
    pub open spec fn locked(self) -> bool {
        self.state is Processing
    }

    /// The item with its selection flag set to `selected`.
    pub open spec fn with_selected(self, selected: bool) -> ItemView {
        ItemView { path: self.path, state: self.state, selected }
    }

    /// The item with its state replaced by `state`.
    pub open spec fn with_state(self, state: StateView) -> ItemView {
        ItemView { path: self.path, state, selected: self.selected }
    }

    /// A selected item that is not locked: what bulk removal and moving act on.
    pub open spec fn movable(self) -> bool {
        self.selected && !self.locked()
    }
}

impl View for QueueItem {
    type V = ItemView;

    open spec fn view(&self) -> ItemView {
        ItemView { path: self.path, state: self.state@, selected: self.selected }
    }
}

/// The item that adding `path` creates: pending and not selected.
pub open spec fn fresh_item(path: PathBuf) -> ItemView {
    ItemView { path, state: StateView::Pending, selected: false }
}

/// The name shown for a file whose name, as far as it is text, is `name`.
pub open spec fn shown_name(name: Option<Seq<char>>) -> Seq<char> {
    match name {
        Some(text) => text,
        None => "Unknown"@,
    }
}

/// The file name of `path` as text, where the path has a final component
/// and that component is valid UTF-8.
pub open spec fn file_name_text(path: PathBuf) -> Option<Seq<char>> {
    match path_file_name(path) {
        Some(name) => path_text(name),
        None => None,
    }
}

/// The name shown for the file at `path`.
pub open spec fn display_name(path: PathBuf) -> Seq<char> {
    shown_name(file_name_text(path))
}

/// The name to show for a file: its name where it has one, else `Unknown`.
pub fn name_or_unknown(name: Option<String>) -> (shown: String)
    ensures
        shown@ == shown_name(
            match name {
                Some(text) => Some(text@),
                None => None,
            },
        ),
{
    match name {
        Some(text) => text,
        None => "Unknown".to_string(),
    }
}

impl QueueItem {
    /// A new item for `path`: pending and not selected.
    pub fn new(path: PathBuf) -> (item: QueueItem)
        ensures
            item@ == fresh_item(path),
    {
        QueueItem { path, state: ItemState::Pending, selected: false }
    }

    /// Whether the item is being processed, and so closed to interaction.
    pub fn is_locked(&self) -> (locked: bool)
        ensures
            locked == self@.locked(),
    {
        match self.state {
            ItemState::Processing => true,
            _ => false,
        }
    }

    /// The final component of the item's path, or `Unknown` where the path
    /// has none that is valid UTF-8.
    pub fn filename(&self) -> (name: String)
        ensures
            name@ == display_name(self.path),
    {
        let text = match file_name_of(&self.path) {
            Some(name) => path_to_text(&name),
            None => None,
        };
        name_or_unknown(text)
    }
}

/// The values of a sequence of items, in order.
pub open spec fn item_views(items: Seq<QueueItem>) -> Seq<ItemView> {
    items.map_values(|item: QueueItem| item@)
}

/// The queue after `select(index)`: the item there is selected unless it is
/// locked; an index past the end changes nothing.
pub open spec fn select_at(queue: Seq<ItemView>, index: int) -> Seq<ItemView> {
    if 0 <= index < queue.len() && !queue[index].locked() {
        queue.update(index, queue[index].with_selected(true))
    } else {
        queue
    }
}

/// The queue after `toggle_select(index)`: the item's flag is flipped unless
/// the item is locked; an index past the end changes nothing.
pub open spec fn toggle_at(queue: Seq<ItemView>, index: int) -> Seq<ItemView> {
    if 0 <= index < queue.len() && !queue[index].locked() {
        queue.update(index, queue[index].with_selected(!queue[index].selected))
    } else {
        queue
    }
}

/// The queue after `clear_selection()`: no item is selected.
pub open spec fn deselected(queue: Seq<ItemView>) -> Seq<ItemView> {
    queue.map_values(|item: ItemView| item.with_selected(false))
}

/// Whether `index` is the place of the first pending item of the queue.
pub open spec fn is_first_pending(queue: Seq<ItemView>, index: int) -> bool {
    &&& 0 <= index < queue.len()
    &&& queue[index].state is Pending
    &&& forall|k: int| 0 <= k < index ==> !((#[trigger] queue[k]).state is Pending)
}

/// The place of the first pending item of the queue, if it has one.
pub open spec fn first_pending(queue: Seq<ItemView>) -> Option<int> {
    if exists|index: int| is_first_pending(queue, index) {
        Some(choose|index: int| is_first_pending(queue, index))
    } else {
        None
    }
}

/// Where an item is pending, some item is the first pending one.
proof fn lemma_pending_has_first(queue: Seq<ItemView>, index: int)
    requires
        0 <= index < queue.len(),
        queue[index].state is Pending,
    ensures
        exists|first: int| is_first_pending(queue, first),
    decreases index,
{
    if exists|earlier: int| 0 <= earlier < index && (#[trigger] queue[earlier]).state is Pending {
        let earlier = choose|earlier: int|
            0 <= earlier < index && (#[trigger] queue[earlier]).state is Pending;
        lemma_pending_has_first(queue, earlier);
    } else {
        assert(is_first_pending(queue, index));
    }
}

/// There is exactly one first pending item if any item is pending:
/// `first_pending` is the index that `is_first_pending` holds of, and none
/// if and only if no item is pending.
pub proof fn lemma_first_pending(queue: Seq<ItemView>)
    ensures
        forall|index: int| #[trigger]
            is_first_pending(queue, index) ==> first_pending(queue) == Some(index),
        (forall|k: int| 0 <= k < queue.len() ==> !((#[trigger] queue[k]).state is Pending))
            <==> first_pending(queue) is None,
        first_pending(queue) matches Some(index) ==> is_first_pending(queue, index),
{
    if first_pending(queue) is None {
        assert forall|k: int| 0 <= k < queue.len() implies !((#[trigger] queue[k]).state
            is Pending) by {
            if queue[k].state is Pending {
                lemma_pending_has_first(queue, k);
            }
        }
    }
    assert forall|index: int| #[trigger] is_first_pending(queue, index) implies first_pending(queue)
        == Some(index) by {
        let chosen = choose|other: int| is_first_pending(queue, other);
        assert(is_first_pending(queue, chosen));
        if chosen < index {
            assert(!(queue[chosen].state is Pending));
        }
        if index < chosen {
            assert(!(queue[index].state is Pending));
        }
    }
}

/// The queue after `set_state(index, state)`.
pub open spec fn state_set_at(queue: Seq<ItemView>, index: int, state: StateView) -> Seq<
    ItemView,
> {
    if 0 <= index < queue.len() {
        queue.update(index, queue[index].with_state(state))
    } else {
        queue
    }
}

/// The queue after `add_multiple(paths)`: one fresh item for each path, in
/// the order given, behind what was there.
pub open spec fn added(queue: Seq<ItemView>, paths: Seq<PathBuf>) -> Seq<ItemView> {
    queue + paths.map_values(|path: PathBuf| fresh_item(path))
}

/// Picks the items that bulk removal and moving act on.
pub open spec fn is_movable() -> spec_fn(ItemView) -> bool {
    |item: ItemView| item.movable()
}

/// Picks the items that bulk removal and moving leave in place.
pub open spec fn is_settled() -> spec_fn(ItemView) -> bool {
    |item: ItemView| !item.movable()
}

/// Picks the items whose state is `Completed`.
pub open spec fn is_completed() -> spec_fn(ItemView) -> bool {
    |item: ItemView| item.state is Completed
}

/// Picks the items whose state is not `Completed`.
pub open spec fn is_unfinished() -> spec_fn(ItemView) -> bool {
    |item: ItemView| !(item.state is Completed)
}

/// Picks the locked items.
pub open spec fn is_locked() -> spec_fn(ItemView) -> bool {
    |item: ItemView| item.locked()
}

/// The queue after `select_range(a, b)`: every unlocked item whose index
/// lies between the two bounds, both included and in either order, is
/// selected; nothing is ever deselected.
pub open spec fn range_selected(queue: Seq<ItemView>, a: int, b: int) -> Seq<ItemView> {
    let low = if a <= b { a } else { b };
    let high = if a <= b { b } else { a };
    Seq::new(
        queue.len(),
        |i: int|
            if low <= i <= high && !queue[i].locked() {
                queue[i].with_selected(true)
            } else {
                queue[i]
            },
    )
}

/// Where `move_selected(target)` puts the moved run: `target`, counted in
/// the queue from which the run has already been taken, or the end of that
/// queue if `target` lies beyond it.
pub open spec fn landing(queue: Seq<ItemView>, target: int) -> int {
    let settled = queue.filter(is_settled());
    if target <= settled.len() {
        target
    } else {
        settled.len() as int
    }
}

/// The queue after `move_selected(target)`: the movable items leave their
/// places and come back as one run, in their old order, at `landing`.
pub open spec fn moved(queue: Seq<ItemView>, target: int) -> Seq<ItemView> {
    let settled = queue.filter(is_settled());
    let run = queue.filter(is_movable());
    let at = landing(queue, target);
    settled.subrange(0, at) + run + settled.subrange(at, settled.len() as int)
}

/// Which items a sweep over the queue takes out.
enum Sweep {
    Movable,
    Completed,
}

impl Sweep {
    spec fn taken(self) -> spec_fn(ItemView) -> bool {
        match self {
            Sweep::Movable => is_movable(),
            Sweep::Completed => is_completed(),
        }
    }

    spec fn kept(self) -> spec_fn(ItemView) -> bool {
        match self {
            Sweep::Movable => is_settled(),
            Sweep::Completed => is_unfinished(),
        }
    }

    fn takes(&self, item: &QueueItem) -> (taken: bool)
        ensures
            taken == (self.taken())(item@),
            taken == !(self.kept())(item@),
    {
        match self {
            Sweep::Movable => item.selected && !item.is_locked(),
            Sweep::Completed => match item.state {
                ItemState::Completed => true,
                _ => false,
            },
        }
    }
}

/// Extending a prefix of `queue` by one item extends what a filter keeps of
/// it by that item, or by nothing.
proof fn lemma_filter_step(queue: Seq<ItemView>, k: int, pick: spec_fn(ItemView) -> bool)
    requires
        0 <= k < queue.len(),
    ensures
        queue.subrange(0, k + 1).filter(pick) == if pick(queue[k]) {
            queue.subrange(0, k).filter(pick).push(queue[k])
        } else {
            queue.subrange(0, k).filter(pick)
        },
{
    assert(queue.subrange(0, k + 1) =~= queue.subrange(0, k).push(queue[k]));
    queue.subrange(0, k).lemma_filter_push(queue[k], pick);
}

/// An ordered sequence of work items.
#[derive(Debug)]
pub struct Queue {
    items: Vec<QueueItem>,
}

impl View for Queue {
    type V = Seq<ItemView>;

    closed spec fn view(&self) -> Seq<ItemView> {
        item_views(self.items@)
    }
}

impl Default for Queue {
    fn default() -> (queue: Queue)
        ensures
            queue@ == Seq::<ItemView>::empty(),
    {
        Queue { items: Vec::new() }
    }
}

impl Queue {
    /// An empty queue.
    pub fn new() -> (queue: Queue)
        ensures
            queue@ == Seq::<ItemView>::empty(),
    {
        Queue { items: Vec::new() }
    }

    /// Appends a pending, unselected item for `path`.
    pub fn add(&mut self, path: PathBuf)
        ensures
            final(self)@ == old(self)@.push(fresh_item(path)),
    {
        self.items.push(QueueItem::new(path));
    }

    /// Appends a pending, unselected item for each of `paths`, in order.
    pub fn add_multiple(&mut self, paths: Vec<PathBuf>)
        ensures
            final(self)@ == added(old(self)@, paths@),
    {
        let mut i: usize = 0;
        while i < paths.len()
            invariant
                i <= paths.len(),
                self@ == added(old(self)@, paths@.subrange(0, i as int)),
            decreases paths.len() - i,
        {
            self.add(paths[i].clone());
            proof {
                assert(paths@.subrange(0, i + 1) =~= paths@.subrange(0, i as int).push(
                    paths@[i as int],
                ));
            }
            i += 1;
        }
        proof {
            assert(paths@.subrange(0, i as int) =~= paths@);
        }
    }

    /// Takes out of the queue every item that `sweep` takes, and returns
    /// them in their old order. The others keep their order.
    fn extract(&mut self, sweep: Sweep) -> (out: Vec<QueueItem>)
        ensures
            final(self)@ == old(self)@.filter(sweep.kept()),
            item_views(out@) == old(self)@.filter(sweep.taken()),
    {
        let ghost before = self@;
        let mut out: Vec<QueueItem> = Vec::new();
        let mut i: usize = 0;
        let ghost mut seen: int = 0;
        proof {
            assert(before.subrange(0, 0) =~= Seq::<ItemView>::empty());
            assert(before.subrange(0, before.len() as int) =~= before);
            reveal(Seq::filter);
        }
        while i < self.items.len()
            invariant
                before == old(self)@,
                0 <= seen <= before.len(),
                seen == i + out@.len(),
                i <= self.items@.len(),
                self.items@.len() - i == before.len() - seen,
                item_views(self.items@) == before.subrange(0, seen).filter(sweep.kept())
                    + before.subrange(seen, before.len() as int),
                item_views(out@) == before.subrange(0, seen).filter(sweep.taken()),
                i == before.subrange(0, seen).filter(sweep.kept()).len(),
            decreases self.items@.len() - i,
        {
            let ghost current = self.items@;
            proof {
                lemma_filter_step(before, seen, sweep.kept());
                lemma_filter_step(before, seen, sweep.taken());
                assert(item_views(current)[i as int] == before[seen]);
            }
            if sweep.takes(&self.items[i]) {
                let item = self.items.remove(i);
                proof {
                    assert(item_views(self.items@) =~= item_views(current).remove(i as int));
                    assert(item_views(out@.push(item)) =~= item_views(out@).push(item@));
                    assert(item_views(current).remove(i as int) =~= before.subrange(
                        0,
                        seen + 1,
                    ).filter(sweep.kept()) + before.subrange(seen + 1, before.len() as int));
                }
                out.push(item);
            } else {
                proof {
                    assert(item_views(current) =~= before.subrange(0, seen + 1).filter(sweep.kept())
                        + before.subrange(seen + 1, before.len() as int));
                }
                i += 1;
            }
            proof {
                seen = seen + 1;
            }
        }
        proof {
            assert(before.subrange(0, seen) =~= before);
            assert(before.subrange(seen, before.len() as int) =~= Seq::<ItemView>::empty());
        }
        out
    }

    /// Deletes every selected item that is not locked. Locked items stay,
    /// selected or not.
    pub fn remove_selected(&mut self)
        ensures
            final(self)@ == old(self)@.filter(is_settled()),
    {
        let _ = self.extract(Sweep::Movable);
    }

    /// Deletes every item whose state is `Completed`.
    pub fn remove_completed(&mut self)
        ensures
            final(self)@ == old(self)@.filter(is_unfinished()),
    {
        let _ = self.extract(Sweep::Completed);
    }

    /// Selects every unlocked item whose index lies between `start` and
    /// `end`, both included and in either order. Indices past the end of the
    /// queue are ignored.
    pub fn select_range(&mut self, start: usize, end: usize)
        ensures
            final(self)@ == range_selected(old(self)@, start as int, end as int),
    {
        let (low, high) = if start <= end {
            (start, end)
        } else {
            (end, start)
        };
        let mut i: usize = low;
        while i <= high && i < self.items.len()
            invariant
                low <= i <= high + 1,
                self.items@.len() == old(self).items@.len(),
                forall|k: int|
                    0 <= k < self.items@.len() && !(low <= k < i) ==> #[trigger] self.items@[k]
                        == old(self).items@[k],
                forall|k: int|
                    low <= k < i && k < self.items@.len() ==> (#[trigger] self.items@[k])@ == (
                    if old(self).items@[k]@.locked() {
                        old(self).items@[k]@
                    } else {
                        old(self).items@[k]@.with_selected(true)
                    }),
            decreases self.items.len() - i,
        {
            if !self.items[i].is_locked() {
                self.items[i].selected = true;
            }
            i += 1;
        }
        proof {
            assert(self@ =~= range_selected(old(self)@, start as int, end as int));
        }
    }

    /// Moves every selected, unlocked item so that together they form one
    /// run, in their old order, starting at `target_index`. The index is
    /// counted after the run has been taken out, and is cut down to the
    /// length of what is left. All other items keep their order.
    pub fn move_selected(&mut self, target_index: usize)
        ensures
            final(self)@ == moved(old(self)@, target_index as int),
    {
        let mut run = self.extract(Sweep::Movable);
        let at = if target_index <= self.items.len() {
            target_index
        } else {
            self.items.len()
        };
        let ghost settled = self@;
        let ghost whole = item_views(run@);
        while run.len() > 0
            invariant
                at <= settled.len(),
                item_views(run@) == whole.subrange(0, run@.len() as int),
                run@.len() <= whole.len(),
                self.items@.len() == settled.len() + whole.len() - run@.len(),
                item_views(self.items@) == settled.subrange(0, at as int) + whole.subrange(
                    run@.len() as int,
                    whole.len() as int,
                ) + settled.subrange(at as int, settled.len() as int),
            decreases run.len(),
        {
            let ghost rest = run@;
            let ghost current = self.items@;
            let item = run.pop().unwrap();
            self.items.insert(at, item);
            proof {
                assert(item_views(rest)[rest.len() - 1] == item@);
                assert(item_views(run@) =~= whole.subrange(0, run@.len() as int));
                assert(item_views(self.items@) =~= item_views(current).insert(at as int, item@));
                assert(item_views(current).insert(at as int, item@) =~= settled.subrange(
                    0,
                    at as int,
                ) + whole.subrange(run@.len() as int, whole.len() as int) + settled.subrange(
                    at as int,
                    settled.len() as int,
                ));
            }
        }
        proof {
            assert(whole.subrange(0, whole.len() as int) =~= whole);
        }
    }

    /// Clears the selection flag of every item. States are left alone.
    pub fn clear_selection(&mut self)
        ensures
            final(self)@ == deselected(old(self)@),
    {
        let mut i: usize = 0;
        while i < self.items.len()
            invariant
                i <= self.items.len(),
                self.items@.len() == old(self).items@.len(),
                forall|k: int|
                    0 <= k < i ==> (#[trigger] self.items@[k])@ == old(
                        self,
                    ).items@[k]@.with_selected(false),
                forall|k: int|
                    i <= k < self.items@.len() ==> #[trigger] self.items@[k] == old(self).items@[k],
            decreases self.items.len() - i,
        {
            self.items[i].selected = false;
            i += 1;
        }
    }

    /// Marks the item at `index` as selected. Nothing happens if the item is
    /// locked or `index` is past the end.
    pub fn select(&mut self, index: usize)
        ensures
            final(self)@ == select_at(old(self)@, index as int),
    {
        if index < self.items.len() {
            if !self.items[index].is_locked() {
                self.items[index].selected = true;
            }
        }
    }

    /// Flips the selection flag of the item at `index`. Nothing happens if
    /// the item is locked or `index` is past the end.
    pub fn toggle_select(&mut self, index: usize)
        ensures
            final(self)@ == toggle_at(old(self)@, index as int),
    {
        if index < self.items.len() {
            if !self.items[index].is_locked() {
                let flipped = !self.items[index].selected;
                self.items[index].selected = flipped;
            }
        }
    }

    /// Overwrites the state of the item at `index`, whatever it was. Nothing
    /// happens if `index` is past the end.
    pub fn set_state(&mut self, index: usize, state: ItemState)
        ensures
            final(self)@ == state_set_at(old(self)@, index as int, state@),
    {
        if index < self.items.len() {
            self.items[index].state = state;
        }
    }

    /// The position of the first pending item, if there is one.
    pub fn get_next_pending(&self) -> (next: Option<usize>)
        ensures
            match next {
                Some(index) => is_first_pending(self@, index as int),
                None => forall|k: int|
                    0 <= k < self@.len() ==> !((#[trigger] self@[k]).state is Pending),
            },
            match next {
                Some(index) => first_pending(self@) == Some(index as int),
                None => first_pending(self@) is None,
            },
    {
        let mut i: usize = 0;
        while i < self.items.len()
            invariant
                i <= self.items.len(),
                forall|k: int| 0 <= k < i ==> !((#[trigger] self@[k]).state is Pending),
            decreases self.items.len() - i,
        {
            match self.items[i].state {
                ItemState::Pending => {
                    proof {
                        assert(self@[i as int].state is Pending);
                        assert(is_first_pending(self@, i as int));
                        lemma_first_pending(self@);
                    }
                    return Some(i);
                },
                _ => {
                    assert(!(self@[i as int].state is Pending));
                },
            }
            i += 1;
        }
        proof {
            lemma_first_pending(self@);
        }
        None
    }

    /// The items, in order.
    pub fn items(&self) -> (items: &[QueueItem])
        ensures
            item_views(items@) == self@,
    {
        self.items.as_slice()
    }

    /// The items, in order, open to changes in place.
    pub fn items_mut(&mut self) -> (items: &mut [QueueItem])
        ensures
            item_views(items@) == old(self)@,
            final(self)@ == item_views(final(items)@),
    {
        self.items.as_mut_slice()
    }

    /// The number of items.
    pub fn len(&self) -> (count: usize)
        ensures
            count == self@.len(),
    {
        self.items.len()
    }

    /// Whether the queue holds no item.
    pub fn is_empty(&self) -> (empty: bool)
        ensures
            empty == (self@.len() == 0),
    {
        self.items.is_empty()
    }
}

} // verus!
