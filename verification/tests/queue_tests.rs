use std::path::PathBuf;
use taskflow::queue::{ItemState, Queue, QueueItem};

fn queue_of(names: &[&str]) -> Queue {
    let mut queue = Queue::new();
    queue.add_multiple(names.iter().map(PathBuf::from).collect());
    queue
}

fn names(queue: &Queue) -> Vec<String> {
    queue.items().iter().map(|item| item.filename()).collect()
}

fn flags(queue: &Queue) -> Vec<bool> {
    queue.items().iter().map(|item| item.selected).collect()
}

#[test]
fn new_queue_is_empty() {
    let queue = Queue::new();
    assert!(queue.is_empty());
    assert_eq!(queue.len(), 0);
    assert_eq!(queue.get_next_pending(), None);
    assert!(Queue::default().is_empty());
}

#[test]
fn new_item_is_pending_and_unselected() {
    let item = QueueItem::new(PathBuf::from("/data/in/report.csv"));
    assert_eq!(item.path, PathBuf::from("/data/in/report.csv"));
    assert_eq!(item.state, ItemState::Pending);
    assert!(!item.selected);
    assert!(!item.is_locked());
}

#[test]
fn only_processing_items_are_locked() {
    let mut item = QueueItem::new(PathBuf::from("a"));
    item.state = ItemState::Processing;
    assert!(item.is_locked());
    item.state = ItemState::Completed;
    assert!(!item.is_locked());
    item.state = ItemState::Error("boom".to_string());
    assert!(!item.is_locked());
}

#[test]
fn filename_is_last_component_or_unknown() {
    assert_eq!(QueueItem::new(PathBuf::from("/data/in/report.csv")).filename(), "report.csv");
    assert_eq!(QueueItem::new(PathBuf::from("plain.txt")).filename(), "plain.txt");
    assert_eq!(QueueItem::new(PathBuf::from("/data/in/")).filename(), "in");
    assert_eq!(QueueItem::new(PathBuf::from("/")).filename(), "Unknown");
    assert_eq!(QueueItem::new(PathBuf::from("dir/..")).filename(), "Unknown");
    assert_eq!(QueueItem::new(PathBuf::from("")).filename(), "Unknown");
}

#[test]
fn adds_keep_call_order() {
    let mut queue = Queue::new();
    queue.add(PathBuf::from("a.txt"));
    queue.add_multiple(vec![PathBuf::from("b.txt"), PathBuf::from("c.txt")]);
    queue.add_multiple(vec![]);
    queue.add(PathBuf::from("d.txt"));
    assert_eq!(names(&queue), vec!["a.txt", "b.txt", "c.txt", "d.txt"]);
    assert_eq!(queue.len(), 4);
    assert!(!queue.is_empty());
    for item in queue.items() {
        assert_eq!(item.state, ItemState::Pending);
        assert!(!item.selected);
    }
}

#[test]
fn add_keeps_the_path_unchanged() {
    let mut queue = Queue::new();
    queue.add(PathBuf::from("/some/dir/../file name.txt"));
    assert_eq!(queue.items()[0].path, PathBuf::from("/some/dir/../file name.txt"));
}

#[test]
fn remove_selected_drops_selected_pending_item() {
    let mut queue = queue_of(&["A.txt", "B.txt", "C.txt"]);
    queue.select(1);
    assert_eq!(queue.items()[1].state, ItemState::Pending);
    queue.remove_selected();
    assert_eq!(names(&queue), vec!["A.txt", "C.txt"]);
}

#[test]
fn remove_selected_spares_processing_items() {
    let mut queue = queue_of(&["a", "b", "c", "d"]);
    queue.select(0);
    queue.select(1);
    queue.select(3);
    queue.set_state(1, ItemState::Processing);
    queue.remove_selected();
    assert_eq!(names(&queue), vec!["b", "c"]);
    assert_eq!(queue.items()[0].state, ItemState::Processing);
    assert!(queue.items()[0].selected);
}

#[test]
fn remove_selected_without_selection_changes_nothing() {
    let mut queue = queue_of(&["a", "b"]);
    queue.remove_selected();
    assert_eq!(names(&queue), vec!["a", "b"]);
}

#[test]
fn remove_selected_takes_completed_and_failed_items_too() {
    let mut queue = queue_of(&["a", "b", "c"]);
    queue.set_state(0, ItemState::Completed);
    queue.set_state(1, ItemState::Error("bad".to_string()));
    queue.select_range(0, 2);
    queue.remove_selected();
    assert!(queue.is_empty());
}

#[test]
fn clear_selection_clears_every_flag_and_no_state() {
    let mut queue = queue_of(&["a", "b", "c"]);
    queue.select_range(0, 2);
    queue.set_state(1, ItemState::Processing);
    queue.set_state(2, ItemState::Error("x".to_string()));
    queue.clear_selection();
    assert_eq!(flags(&queue), vec![false, false, false]);
    assert_eq!(queue.items()[0].state, ItemState::Pending);
    assert_eq!(queue.items()[1].state, ItemState::Processing);
    assert_eq!(queue.items()[2].state, ItemState::Error("x".to_string()));
}

#[test]
fn select_sets_the_flag_once() {
    let mut queue = queue_of(&["a", "b"]);
    queue.select(1);
    assert_eq!(flags(&queue), vec![false, true]);
    queue.select(1);
    assert_eq!(flags(&queue), vec![false, true]);
}

#[test]
fn select_ignores_locked_items_and_bad_indices() {
    let mut queue = queue_of(&["a", "b"]);
    queue.set_state(0, ItemState::Processing);
    queue.select(0);
    queue.select(2);
    queue.select(usize::MAX);
    assert_eq!(flags(&queue), vec![false, false]);
    assert_eq!(queue.len(), 2);
}

#[test]
fn toggle_flips_the_flag() {
    let mut queue = queue_of(&["a", "b"]);
    queue.toggle_select(0);
    assert_eq!(flags(&queue), vec![true, false]);
    queue.toggle_select(0);
    assert_eq!(flags(&queue), vec![false, false]);
}

#[test]
fn toggle_ignores_locked_items_and_bad_indices() {
    let mut queue = queue_of(&["a", "b"]);
    queue.select(1);
    queue.set_state(1, ItemState::Processing);
    queue.toggle_select(1);
    queue.toggle_select(5);
    assert_eq!(flags(&queue), vec![false, true]);
}

#[test]
fn select_range_selects_zero_to_two_of_five() {
    let mut queue = queue_of(&["a", "b", "c", "d", "e"]);
    queue.select_range(0, 2);
    assert_eq!(flags(&queue), vec![true, true, true, false, false]);

    let mut queue = queue_of(&["a", "b", "c", "d", "e"]);
    queue.select(3);
    queue.select(4);
    queue.select_range(0, 2);
    assert_eq!(flags(&queue), vec![true, true, true, true, true]);
}

#[test]
fn select_range_takes_bounds_in_either_order() {
    let mut queue = queue_of(&["a", "b", "c", "d"]);
    queue.select_range(3, 1);
    assert_eq!(flags(&queue), vec![false, true, true, true]);
}

#[test]
fn select_range_ignores_indices_past_the_end() {
    let mut queue = queue_of(&["a", "b", "c"]);
    queue.select_range(1, usize::MAX);
    assert_eq!(flags(&queue), vec![false, true, true]);
    let mut queue = queue_of(&["a", "b", "c"]);
    queue.select_range(7, 9);
    assert_eq!(flags(&queue), vec![false, false, false]);
    let mut empty = Queue::new();
    empty.select_range(0, 0);
    assert!(empty.is_empty());
}

#[test]
fn select_range_skips_locked_items() {
    let mut queue = queue_of(&["a", "b", "c"]);
    queue.set_state(1, ItemState::Processing);
    queue.select_range(0, 2);
    assert_eq!(flags(&queue), vec![true, false, true]);
}

#[test]
fn select_range_of_one_index() {
    let mut queue = queue_of(&["a", "b", "c"]);
    queue.select_range(1, 1);
    assert_eq!(flags(&queue), vec![false, true, false]);
}

#[test]
fn move_selected_to_front() {
    let mut queue = queue_of(&["a", "b", "c", "d", "e"]);
    queue.select(1);
    queue.select(3);
    queue.move_selected(0);
    assert_eq!(names(&queue), vec!["b", "d", "a", "c", "e"]);
    assert_eq!(flags(&queue), vec![true, true, false, false, false]);
}

#[test]
fn move_selected_counts_target_after_removal() {
    let mut queue = queue_of(&["a", "b", "c", "d", "e"]);
    queue.select(0);
    queue.select(1);
    queue.move_selected(2);
    assert_eq!(names(&queue), vec!["c", "d", "a", "b", "e"]);
}

#[test]
fn move_selected_past_the_end_lands_at_the_end() {
    let mut queue = queue_of(&["a", "b", "c"]);
    queue.select(0);
    queue.move_selected(100);
    assert_eq!(names(&queue), vec!["b", "c", "a"]);
    let mut queue = queue_of(&["a", "b", "c"]);
    queue.select(0);
    queue.move_selected(2);
    assert_eq!(names(&queue), vec!["b", "c", "a"]);
}

#[test]
fn move_selected_leaves_locked_items_behind() {
    let mut queue = queue_of(&["a", "b", "c", "d"]);
    queue.select(1);
    queue.select(2);
    queue.set_state(1, ItemState::Processing);
    queue.move_selected(0);
    assert_eq!(names(&queue), vec!["c", "a", "b", "d"]);
    assert_eq!(queue.items()[2].state, ItemState::Processing);
    assert!(queue.items()[2].selected);
}

#[test]
fn move_selected_without_selection_changes_nothing() {
    let mut queue = queue_of(&["a", "b", "c"]);
    queue.move_selected(1);
    assert_eq!(names(&queue), vec!["a", "b", "c"]);
    let mut empty = Queue::new();
    empty.move_selected(3);
    assert!(empty.is_empty());
}

#[test]
fn remove_completed_drops_completed_items_only() {
    let mut queue = queue_of(&["a", "b", "c", "d"]);
    queue.set_state(0, ItemState::Completed);
    queue.set_state(1, ItemState::Processing);
    queue.set_state(2, ItemState::Error("x".to_string()));
    queue.remove_completed();
    assert_eq!(names(&queue), vec!["b", "c", "d"]);
    queue.set_state(0, ItemState::Completed);
    queue.set_state(2, ItemState::Completed);
    queue.remove_completed();
    assert_eq!(names(&queue), vec!["c"]);
}

#[test]
fn next_pending_is_the_lowest_pending_index() {
    let mut queue = queue_of(&["a", "b", "c"]);
    assert_eq!(queue.get_next_pending(), Some(0));
    queue.set_state(0, ItemState::Error("x".to_string()));
    assert_eq!(queue.get_next_pending(), Some(1));
    queue.set_state(1, ItemState::Processing);
    assert_eq!(queue.get_next_pending(), Some(2));
    queue.set_state(2, ItemState::Completed);
    assert_eq!(queue.get_next_pending(), None);
    queue.set_state(1, ItemState::Pending);
    assert_eq!(queue.get_next_pending(), Some(1));
}

#[test]
fn set_state_overwrites_any_state() {
    let mut queue = queue_of(&["a"]);
    queue.set_state(0, ItemState::Completed);
    assert_eq!(queue.items()[0].state, ItemState::Completed);
    queue.set_state(0, ItemState::Pending);
    assert_eq!(queue.items()[0].state, ItemState::Pending);
    queue.set_state(0, ItemState::Error("late".to_string()));
    assert_eq!(queue.items()[0].state, ItemState::Error("late".to_string()));
}

#[test]
fn set_state_ignores_bad_indices() {
    let mut queue = queue_of(&["a"]);
    queue.set_state(1, ItemState::Completed);
    queue.set_state(usize::MAX, ItemState::Completed);
    assert_eq!(queue.items()[0].state, ItemState::Pending);
    assert_eq!(queue.len(), 1);
}

#[test]
fn items_mut_changes_items_in_place() {
    let mut queue = queue_of(&["a", "b"]);
    queue.items_mut()[1].selected = true;
    queue.items_mut()[0].state = ItemState::Completed;
    assert_eq!(flags(&queue), vec![false, true]);
    assert_eq!(queue.items()[0].state, ItemState::Completed);
    assert_eq!(queue.items_mut().len(), 2);
}
