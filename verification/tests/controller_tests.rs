use std::path::PathBuf;
use std::sync::mpsc::{channel, Receiver, Sender};
use taskflow::config::Config;
use taskflow::controller::Controller;
use taskflow::processor::{
    Processor, ProcessorMessage, ProcessorResult, ScriptOutcome, Worker, WorkerAction,
};
use taskflow::queue::ItemState;
use taskflow::ui::{ControlsState, QueueListInteraction};

/// A session wired to the far ends of its two channels.
struct Bench {
    controller: Controller,
    jobs: Receiver<ProcessorMessage>,
    events: Sender<ProcessorResult>,
    worker: Worker,
}

fn ready_config() -> Config {
    Config {
        selected_script: Some("/bin/convert.sh".to_string()),
        output_directory: Some(PathBuf::from("/out")),
        logging_enabled: true,
        available_scripts: vec!["/bin/convert.sh".to_string()],
    }
}

fn bench(config: Config, files: &[&str]) -> Bench {
    let (tx, jobs) = channel();
    let (events, rx) = channel();
    let mut controller = Controller::new(config, Processor::connect(tx, rx));
    controller.handle_file_drops(files.iter().map(PathBuf::from).collect());
    Bench { controller, jobs, events, worker: Worker::new() }
}

impl Bench {
    /// Lets the worker take every message that waits; the script of each
    /// job that runs comes to what `outcome` gives for its file name.
    fn work(&mut self, outcome: fn(&str) -> ScriptOutcome) {
        while let Ok(message) = self.jobs.try_recv() {
            match self.worker.receive(message) {
                WorkerAction::Skip => {}
                WorkerAction::Report(event) => self.events.send(event).unwrap(),
                WorkerAction::Run { started, index, file, .. } => {
                    self.events.send(started).unwrap();
                    let name = file.file_name().unwrap().to_str().unwrap().to_string();
                    self.events.send(Worker::finish(index, outcome(&name))).unwrap();
                }
            }
        }
    }

    /// Applies every event that waits.
    fn poll(&mut self) {
        self.controller.poll_processor(usize::MAX);
    }

    fn names(&self) -> Vec<String> {
        self.controller.queue.items().iter().map(|item| item.filename()).collect()
    }

    fn flags(&self) -> Vec<bool> {
        self.controller.queue.items().iter().map(|item| item.selected).collect()
    }

    fn messages(&mut self) -> Vec<String> {
        self.controller.logger.take_pending().into_iter().map(|entry| entry.message).collect()
    }
}

fn a_ok_b_bad(name: &str) -> ScriptOutcome {
    if name == "A.txt" {
        ScriptOutcome::Exited { success: true, stderr: Vec::new() }
    } else {
        ScriptOutcome::Exited { success: false, stderr: b"bad format".to_vec() }
    }
}

fn all_ok(_name: &str) -> ScriptOutcome {
    ScriptOutcome::Exited { success: true, stderr: Vec::new() }
}

fn click(index: usize) -> QueueListInteraction {
    QueueListInteraction { clicked_index: Some(index), ..QueueListInteraction::default() }
}

#[test]
fn new_controller_is_ready() {
    let bench = bench(ready_config(), &[]);
    assert!(bench.controller.queue.is_empty());
    assert!(!bench.controller.is_processing);
    assert_eq!(bench.controller.status_message, "Ready");
    assert_eq!(bench.controller.last_clicked_index, None);
    assert!(bench.controller.logger.is_enabled());
    assert!(bench.controller.logger.log_file().is_some());
    assert_eq!(bench.controller.config.selected_script, Some("/bin/convert.sh".to_string()));
}

#[test]
fn one_success_and_one_failure_leave_the_failed_item() {
    let mut bench = bench(ready_config(), &["A.txt", "B.txt"]);
    bench.controller.start_processing();
    assert!(bench.controller.is_processing);
    while bench.controller.is_processing {
        bench.work(a_ok_b_bad);
        bench.poll();
    }
    assert_eq!(bench.names(), vec!["B.txt"]);
    assert_eq!(
        bench.controller.queue.items()[0].state,
        ItemState::Error("bad format".to_string())
    );
    assert_eq!(bench.controller.status_message, "All items processed");
    assert_eq!(
        bench.messages(),
        vec![
            "Starting: A.txt with script: /bin/convert.sh",
            "Success: A.txt",
            "Starting: B.txt with script: /bin/convert.sh",
            "Error: B.txt - bad format",
        ]
    );
}

#[test]
fn start_submits_only_the_first_pending_item() {
    let mut bench = bench(ready_config(), &["A.txt", "B.txt"]);
    bench.controller.start_processing();
    match bench.jobs.try_recv() {
        Ok(ProcessorMessage::Process { index, file, script, output_dir }) => {
            assert_eq!(index, 0);
            assert_eq!(file, PathBuf::from("A.txt"));
            assert_eq!(script, "/bin/convert.sh");
            assert_eq!(output_dir, PathBuf::from("/out"));
        }
        other => panic!("unexpected message {:?}", other),
    }
    assert!(bench.jobs.try_recv().is_err());
    assert_eq!(bench.controller.queue.items()[0].state, ItemState::Pending);
}

#[test]
fn started_event_locks_the_item() {
    let mut bench = bench(ready_config(), &["A.txt", "B.txt"]);
    bench.controller.start_processing();
    bench.controller.apply_result(ProcessorResult::Started(0));
    assert_eq!(bench.controller.queue.items()[0].state, ItemState::Processing);
    assert_eq!(bench.controller.status_message, "Processing: A.txt");
    assert!(bench.controller.is_processing);
    bench.controller.handle_queue_interaction(click(0));
    assert_eq!(bench.flags(), vec![false, false]);
}

#[test]
fn start_without_script_is_refused() {
    let mut config = ready_config();
    config.selected_script = None;
    let mut bench = bench(config, &["A.txt"]);
    bench.controller.start_processing();
    assert!(!bench.controller.is_processing);
    assert_eq!(bench.controller.status_message, "Error: No script selected");
    assert!(bench.jobs.try_recv().is_err());
}

#[test]
fn start_without_output_directory_is_refused() {
    let mut config = ready_config();
    config.output_directory = None;
    let mut bench = bench(config, &["A.txt"]);
    bench.controller.start_processing();
    assert!(!bench.controller.is_processing);
    assert_eq!(bench.controller.status_message, "Error: No output directory selected");
    assert!(bench.jobs.try_recv().is_err());
}

#[test]
fn start_with_empty_queue_is_refused() {
    let mut bench = bench(ready_config(), &[]);
    bench.controller.start_processing();
    assert!(!bench.controller.is_processing);
    assert_eq!(bench.controller.status_message, "Error: Queue is empty");
}

#[test]
fn missing_script_is_reported_before_missing_directory() {
    let mut bench = bench(Config::default(), &[]);
    bench.controller.start_processing();
    assert_eq!(bench.controller.status_message, "Error: No script selected");
}

#[test]
fn start_with_nothing_pending_comes_to_rest() {
    let mut bench = bench(ready_config(), &["A.txt"]);
    bench.controller.queue.set_state(0, ItemState::Error("old".to_string()));
    bench.controller.start_processing();
    assert!(!bench.controller.is_processing);
    assert_eq!(bench.controller.status_message, "All items processed");
    assert!(bench.jobs.try_recv().is_err());
}

#[test]
fn vanished_worker_fails_every_pending_item() {
    let mut bench = bench(ready_config(), &["A.txt", "B.txt", "C.txt"]);
    bench.controller.queue.set_state(1, ItemState::Completed);
    let (tx, gone) = channel();
    let (_events, rx) = channel();
    drop(gone);
    bench.controller.processor = Processor::connect(tx, rx);
    bench.controller.process_next_item();
    let error = "Failed to send process message: sending on a closed channel".to_string();
    assert_eq!(bench.controller.queue.items()[0].state, ItemState::Error(error.clone()));
    assert_eq!(bench.controller.queue.items()[1].state, ItemState::Completed);
    assert_eq!(bench.controller.queue.items()[2].state, ItemState::Error(error.clone()));
    assert!(!bench.controller.is_processing);
    assert_eq!(bench.controller.status_message, "All items processed");
    assert_eq!(
        bench.messages(),
        vec![
            "Starting: A.txt with script: /bin/convert.sh".to_string(),
            format!("Error: A.txt - {}", error),
            "Starting: C.txt with script: /bin/convert.sh".to_string(),
            format!("Error: C.txt - {}", error),
        ]
    );
}

#[test]
fn settle_submission_marks_the_item_on_failure() {
    let mut bench = bench(ready_config(), &["A.txt", "B.txt"]);
    assert!(bench.controller.settle_submission(1, Ok(())));
    assert_eq!(bench.controller.queue.items()[1].state, ItemState::Pending);
    assert!(!bench.controller.settle_submission(1, Err("gone".to_string())));
    assert_eq!(bench.controller.queue.items()[1].state, ItemState::Error("gone".to_string()));
    assert!(!bench.controller.settle_submission(5, Err("gone".to_string())));
    assert_eq!(bench.messages(), vec!["Error: B.txt - gone"]);
}

#[test]
fn process_next_item_without_settings_comes_to_rest() {
    let mut bench = bench(ready_config(), &["A.txt"]);
    bench.controller.is_processing = true;
    bench.controller.config.selected_script = None;
    bench.controller.process_next_item();
    assert!(!bench.controller.is_processing);
    assert_eq!(bench.controller.status_message, "Error: No script selected");
    assert_eq!(bench.controller.queue.items()[0].state, ItemState::Pending);
    assert!(bench.jobs.try_recv().is_err());
}

#[test]
fn cancel_stops_the_session_and_skips_the_next_job() {
    let mut bench = bench(ready_config(), &["A.txt", "B.txt"]);
    bench.controller.start_processing();
    bench.controller.cancel_processing();
    assert!(!bench.controller.is_processing);
    assert_eq!(bench.controller.status_message, "Processing cancelled");
    bench.work(all_ok);
    bench.poll();
    // The job for A.txt was under way when the cancellation came, so it ran;
    // the job for B.txt was handed over next and fell to the cancellation.
    assert_eq!(bench.names(), vec!["B.txt"]);
    assert_eq!(bench.controller.queue.items()[0].state, ItemState::Pending);
    assert_eq!(bench.controller.status_message, "Cancelled");
    assert!(!bench.controller.is_processing);
    bench.work(all_ok);
    bench.poll();
    assert_eq!(bench.names(), vec!["B.txt"]);
}

#[test]
fn cancelled_event_brings_the_session_to_rest() {
    let mut bench = bench(ready_config(), &["A.txt"]);
    bench.controller.is_processing = true;
    bench.controller.apply_result(ProcessorResult::Cancelled);
    assert!(!bench.controller.is_processing);
    assert_eq!(bench.controller.status_message, "Cancelled");
}

#[test]
fn started_event_for_a_slot_past_the_end_changes_nothing() {
    let mut bench = bench(ready_config(), &["A.txt"]);
    bench.controller.is_processing = true;
    bench.controller.apply_result(ProcessorResult::Started(1));
    assert_eq!(bench.names(), vec!["A.txt"]);
    assert_eq!(bench.controller.queue.items()[0].state, ItemState::Pending);
    assert!(bench.controller.is_processing);
    assert_eq!(bench.controller.status_message, "Ready");
    assert!(bench.jobs.try_recv().is_err());
    assert!(bench.messages().is_empty());
}

#[test]
fn end_of_a_job_for_a_slot_past_the_end_still_goes_on() {
    let mut bench = bench(ready_config(), &["A.txt"]);
    bench.controller.is_processing = true;
    bench.controller.apply_result(ProcessorResult::Success(7));
    assert_eq!(bench.names(), vec!["A.txt"]);
    assert_eq!(bench.controller.queue.items()[0].state, ItemState::Pending);
    assert!(matches!(bench.jobs.try_recv(), Ok(ProcessorMessage::Process { index: 0, .. })));
    assert_eq!(bench.messages(), vec!["Starting: A.txt with script: /bin/convert.sh"]);

    bench.controller.queue.set_state(0, ItemState::Processing);
    bench.controller.apply_result(ProcessorResult::Error(usize::MAX, "x".to_string()));
    assert_eq!(bench.controller.queue.items()[0].state, ItemState::Processing);
    assert!(!bench.controller.is_processing);
    assert_eq!(bench.controller.status_message, "All items processed");
    assert!(bench.jobs.try_recv().is_err());
    assert!(bench.messages().is_empty());
}

#[test]
fn next_job_is_the_first_pending_item_with_the_settings() {
    let mut bench = bench(ready_config(), &["A.txt", "B.txt"]);
    bench.controller.queue.set_state(0, ItemState::Error("old".to_string()));
    match bench.controller.next_job() {
        Some(ProcessorMessage::Process { index, file, script, output_dir }) => {
            assert_eq!(index, 1);
            assert_eq!(file, PathBuf::from("B.txt"));
            assert_eq!(script, "/bin/convert.sh");
            assert_eq!(output_dir, PathBuf::from("/out"));
        }
        other => panic!("unexpected job {:?}", other),
    }
    assert_eq!(bench.controller.queue.items()[1].state, ItemState::Pending);
    assert!(bench.jobs.try_recv().is_err());
}

#[test]
fn no_job_without_pending_item_or_settings() {
    let mut bench = bench(ready_config(), &["A.txt"]);
    bench.controller.config.output_directory = None;
    assert!(bench.controller.next_job().is_none());
    bench.controller.config.output_directory = Some(PathBuf::from("/out"));
    bench.controller.config.selected_script = None;
    assert!(bench.controller.next_job().is_none());
    bench.controller.config.selected_script = Some("s".to_string());
    assert!(bench.controller.next_job().is_some());
    bench.controller.queue.set_state(0, ItemState::Completed);
    assert!(bench.controller.next_job().is_none());
}

#[test]
fn submitted_job_is_the_next_job() {
    let mut bench = bench(ready_config(), &["A.txt", "B.txt"]);
    bench.controller.queue.set_state(0, ItemState::Completed);
    let due = format!("{:?}", bench.controller.next_job());
    bench.controller.process_next_item();
    let sent = format!("{:?}", bench.jobs.try_recv().ok());
    assert_eq!(sent, due);
    assert!(bench.jobs.try_recv().is_err());
}

#[test]
fn plain_click_selects_only_the_clicked_item() {
    let mut bench = bench(ready_config(), &["a", "b", "c"]);
    bench.controller.handle_queue_interaction(click(0));
    bench.controller.handle_queue_interaction(click(2));
    assert_eq!(bench.flags(), vec![false, false, true]);
    assert_eq!(bench.controller.last_clicked_index, Some(2));
}

#[test]
fn control_click_toggles() {
    let mut bench = bench(ready_config(), &["a", "b", "c"]);
    bench.controller.handle_queue_interaction(click(0));
    let toggle = QueueListInteraction { ctrl_held: true, ..click(2) };
    bench.controller.handle_queue_interaction(toggle.clone());
    assert_eq!(bench.flags(), vec![true, false, true]);
    bench.controller.handle_queue_interaction(toggle);
    assert_eq!(bench.flags(), vec![true, false, false]);
    assert_eq!(bench.controller.last_clicked_index, Some(2));
}

#[test]
fn shift_click_selects_from_the_last_click() {
    let mut bench = bench(ready_config(), &["a", "b", "c", "d", "e"]);
    bench.controller.handle_queue_interaction(click(4));
    bench.controller.handle_queue_interaction(click(3));
    let extend = QueueListInteraction { shift_held: true, ..click(1) };
    bench.controller.handle_queue_interaction(extend);
    assert_eq!(bench.flags(), vec![false, true, true, true, false]);
    assert_eq!(bench.controller.last_clicked_index, Some(1));
}

#[test]
fn shift_click_without_earlier_click_selects_one() {
    let mut bench = bench(ready_config(), &["a", "b", "c"]);
    let extend = QueueListInteraction { shift_held: true, ..click(1) };
    bench.controller.handle_queue_interaction(extend);
    assert_eq!(bench.flags(), vec![false, true, false]);
}

#[test]
fn control_wins_over_shift() {
    let mut bench = bench(ready_config(), &["a", "b", "c"]);
    bench.controller.handle_queue_interaction(click(0));
    let both = QueueListInteraction { ctrl_held: true, shift_held: true, ..click(2) };
    bench.controller.handle_queue_interaction(both);
    assert_eq!(bench.flags(), vec![true, false, true]);
}

#[test]
fn delete_removes_the_selection_before_the_click_counts() {
    let mut bench = bench(ready_config(), &["a", "b", "c"]);
    bench.controller.handle_queue_interaction(click(1));
    let delete = QueueListInteraction { delete_pressed: true, ..click(0) };
    bench.controller.handle_queue_interaction(delete);
    assert_eq!(bench.names(), vec!["a", "c"]);
    assert_eq!(bench.flags(), vec![true, false]);
}

#[test]
fn drop_moves_the_selection() {
    let mut bench = bench(ready_config(), &["a", "b", "c"]);
    bench.controller.handle_queue_interaction(click(2));
    let drop = QueueListInteraction { drag_target: Some(0), ..QueueListInteraction::default() };
    bench.controller.handle_queue_interaction(drop);
    assert_eq!(bench.names(), vec!["c", "a", "b"]);
    assert_eq!(bench.controller.last_clicked_index, Some(2));
}

#[test]
fn idle_frame_changes_nothing() {
    let mut bench = bench(ready_config(), &["a", "b"]);
    bench.controller.handle_queue_interaction(click(1));
    bench.controller.handle_queue_interaction(QueueListInteraction::default());
    assert_eq!(bench.names(), vec!["a", "b"]);
    assert_eq!(bench.flags(), vec![false, true]);
    assert_eq!(bench.controller.last_clicked_index, Some(1));
    assert!(!bench.controller.handle_controls(ControlsState::default()));
    assert_eq!(bench.controller.status_message, "Ready");
}

#[test]
fn controls_remove_a_script_and_ask_to_save() {
    let mut bench = bench(ready_config(), &[]);
    let state = ControlsState { script_to_remove: Some(0), ..ControlsState::default() };
    assert!(bench.controller.handle_controls(state));
    assert!(bench.controller.config.available_scripts.is_empty());
    assert_eq!(bench.controller.config.selected_script, None);
    let state = ControlsState { script_to_remove: Some(0), ..ControlsState::default() };
    assert!(!bench.controller.handle_controls(state));
}

#[test]
fn controls_ask_to_save_changed_settings() {
    let mut bench = bench(ready_config(), &[]);
    let state = ControlsState { script_changed: true, ..ControlsState::default() };
    assert!(bench.controller.handle_controls(state));
    let state = ControlsState { output_changed: true, ..ControlsState::default() };
    assert!(bench.controller.handle_controls(state));
    let state = ControlsState { add_script_clicked: true, ..ControlsState::default() };
    assert!(!bench.controller.handle_controls(state));
}

#[test]
fn controls_follow_the_logging_switch() {
    let mut bench = bench(ready_config(), &[]);
    bench.controller.config.logging_enabled = false;
    let state = ControlsState { logging_changed: true, ..ControlsState::default() };
    assert!(bench.controller.handle_controls(state));
    assert!(!bench.controller.logger.is_enabled());
    assert_eq!(bench.controller.logger.log_file(), None);
    bench.controller.config.logging_enabled = true;
    bench.controller.config.output_directory = Some(PathBuf::from("/logs"));
    let state = ControlsState { logging_changed: true, ..ControlsState::default() };
    assert!(bench.controller.handle_controls(state));
    let file = bench.controller.logger.log_file().unwrap();
    assert_eq!(file.parent(), Some(PathBuf::from("/logs").as_path()));
}

#[test]
fn controls_start_and_cancel() {
    let mut bench = bench(ready_config(), &["A.txt"]);
    let state = ControlsState { start_clicked: true, ..ControlsState::default() };
    assert!(!bench.controller.handle_controls(state));
    assert!(bench.controller.is_processing);
    assert!(matches!(bench.jobs.try_recv(), Ok(ProcessorMessage::Process { index: 0, .. })));
    let state = ControlsState { cancel_clicked: true, ..ControlsState::default() };
    assert!(!bench.controller.handle_controls(state));
    assert!(!bench.controller.is_processing);
    assert_eq!(bench.controller.status_message, "Processing cancelled");
    assert!(matches!(bench.jobs.try_recv(), Ok(ProcessorMessage::Cancel)));
}

#[test]
fn chosen_script_is_listed_and_selected_once() {
    let mut bench = bench(Config::default(), &[]);
    assert!(bench.controller.script_chosen(&PathBuf::from("/bin/a.sh")));
    assert!(bench.controller.script_chosen(&PathBuf::from("/bin/b.sh")));
    assert!(!bench.controller.script_chosen(&PathBuf::from("/bin/a.sh")));
    assert_eq!(bench.controller.config.available_scripts, vec!["/bin/a.sh", "/bin/b.sh"]);
    assert_eq!(bench.controller.config.selected_script, Some("/bin/b.sh".to_string()));
}

#[test]
fn chosen_output_directory_is_kept() {
    let mut bench = bench(Config::default(), &[]);
    bench.controller.output_chosen(PathBuf::from("/out"));
    assert_eq!(bench.controller.config.output_directory, Some(PathBuf::from("/out")));
}

#[test]
fn dropped_files_join_the_queue_in_order() {
    let mut bench = bench(ready_config(), &["a"]);
    bench.controller.handle_file_drops(vec![PathBuf::from("b"), PathBuf::from("c")]);
    assert_eq!(bench.names(), vec!["a", "b", "c"]);
}

#[test]
fn poll_applies_waiting_events_in_order() {
    let mut bench = bench(ready_config(), &["A.txt", "B.txt"]);
    assert_eq!(bench.controller.poll_processor(10), 0);
    bench.events.send(ProcessorResult::Started(0)).unwrap();
    bench.events.send(ProcessorResult::Error(0, "bad".to_string())).unwrap();
    bench.events.send(ProcessorResult::Cancelled).unwrap();
    assert_eq!(bench.controller.poll_processor(10), 3);
    assert_eq!(bench.controller.queue.items()[0].state, ItemState::Error("bad".to_string()));
    assert_eq!(bench.controller.status_message, "Cancelled");
    assert!(matches!(bench.jobs.try_recv(), Ok(ProcessorMessage::Process { index: 1, .. })));
}

#[test]
fn poll_stops_at_its_limit() {
    let mut bench = bench(ready_config(), &["A.txt"]);
    bench.events.send(ProcessorResult::Started(0)).unwrap();
    bench.events.send(ProcessorResult::Cancelled).unwrap();
    assert_eq!(bench.controller.poll_processor(0), 0);
    assert_eq!(bench.controller.status_message, "Ready");
    assert_eq!(bench.controller.poll_processor(1), 1);
    assert_eq!(bench.controller.status_message, "Processing: A.txt");
    assert_eq!(bench.controller.poll_processor(1), 1);
    assert_eq!(bench.controller.status_message, "Cancelled");
    assert_eq!(bench.controller.poll_processor(1), 0);
}

fn only_b_fails(name: &str) -> ScriptOutcome {
    if name == "B.txt" {
        ScriptOutcome::SpawnFailed("permission denied".to_string())
    } else {
        ScriptOutcome::Exited { success: true, stderr: b"note".to_vec() }
    }
}

#[test]
fn a_run_leaves_the_failed_items_in_place() {
    let mut bench = bench(ready_config(), &["A.txt", "B.txt", "C.txt", "D.txt"]);
    bench.controller.queue.set_state(3, ItemState::Error("earlier".to_string()));
    bench.controller.start_processing();
    let mut rounds = 0;
    while bench.controller.is_processing {
        bench.work(only_b_fails);
        bench.poll();
        rounds += 1;
        assert!(rounds <= 3);
    }
    assert_eq!(bench.names(), vec!["B.txt", "D.txt"]);
    assert_eq!(
        bench.controller.queue.items()[0].state,
        ItemState::Error("permission denied".to_string())
    );
    assert_eq!(bench.controller.queue.items()[1].state, ItemState::Error("earlier".to_string()));
    assert_eq!(bench.controller.status_message, "All items processed");
}
