//! The controller: the state of a session and what each user intent and
//! each worker event does to it.
//!
//! The controller owns the queue. It hands the worker one job at a time:
//! the first pending item, and the next one only when the job before it has
//! ended. A job that cannot be handed over marks its item as failed, and the
//! controller goes on to the next. Nothing here blocks, draws or writes:
//! the caller feeds in intents and events, and takes out log entries.
//!
//! What a step does is stated of the controller's [`SessionView`], which
//! is its value with the times of the log entries left aside: those are
//! read from the clock. Of the entries with their times, every step says
//! that those which were pending are kept.

use crate::config::{Config, ConfigView};
use crate::logger::{
    error_message, lemma_keeps_on, log_file_fits, start_message, success_message, EntryView,
    LogView, Logger, LoggerView,
};
use crate::paths::{path_text, path_to_text};
use crate::processor::{
    begins_with, job_message, process_failure, report_view, MessageView, Processor,
    ProcessorMessage, ProcessorResult, ResultView,
};
use crate::queue::{
    added, deselected, display_name, first_pending, is_settled, is_unfinished, item_views,
    lemma_first_pending, moved, range_selected, select_at, state_set_at, toggle_at, ItemState,
    ItemView, Queue, StateView,
};
use crate::ui::{ControlsState, QueueListInteraction};
use std::path::PathBuf;
use vstd::prelude::*;
use vstd::string::StringExecFns;

verus! {

/// The state of a session.
pub struct Controller {
    pub queue: Queue,
    pub config: Config,
    pub logger: Logger,
    pub processor: Processor,
    /// Whether the queue is being worked through.
    pub is_processing: bool,
    /// The line shown in the status bar.
    pub status_message: String,
    /// The item that was clicked last: a range selection starts there.
    pub last_clicked_index: Option<usize>,
}

/// The mathematical value of a [`Controller`]. The link to the worker
/// stands in it as it is: what goes over the link is no part of the value.
pub struct ControllerView {
    pub queue: Seq<ItemView>,
    pub config: ConfigView,
    pub logger: LoggerView,
    pub processor: Processor,
    pub is_processing: bool,
    pub status_message: Seq<char>,
    pub last_clicked_index: Option<usize>,
}

impl View for Controller {
    type V = ControllerView;

    open spec fn view(&self) -> ControllerView {
        ControllerView {
            queue: self.queue@,
            config: self.config@,
            logger: self.logger@,
            processor: self.processor,
            is_processing: self.is_processing,
            status_message: self.status_message@,
            last_clicked_index: self.last_clicked_index,
        }
    }
}

/// A session as far as the controller decides it: the value of a
/// [`Controller`] with the times of its log entries left aside. Those are
/// the clock's to say, and `Logger::record` states them. Every step of the
/// controller is stated as a function of the session.
pub struct SessionView {
    pub queue: Seq<ItemView>,
    pub config: ConfigView,
    pub logger: LogView,
    pub processor: Processor,
    pub is_processing: bool,
    pub status_message: Seq<char>,
    pub last_clicked_index: Option<usize>,
}

impl ControllerView {
    /// The session, with the times of the log entries left aside.
    pub open spec fn untimed(self) -> SessionView {
        SessionView {
            queue: self.queue,
            config: self.config,
            logger: self.logger.untimed(),
            processor: self.processor,
            is_processing: self.is_processing,
            status_message: self.status_message,
            last_clicked_index: self.last_clicked_index,
        }
    }
}

/// The job for the item at `index`, as the session hands it over: the
/// item's slot and path, the chosen script and the output directory.
pub open spec fn job_for(session: SessionView, index: int) -> MessageView {
    MessageView::Process {
        index: index as nat,
        file: session.queue[index].path,
        script: session.config.selected_script->0,
        output_dir: session.config.output_directory->0,
    }
}

impl SessionView {
    /// The name shown for the item at `index`.
    pub open spec fn item_name(self, index: int) -> Seq<char> {
        display_name(self.queue[index].path)
    }

    /// The session with `status` in the status bar.
    pub open spec fn with_status(self, status: Seq<char>) -> SessionView {
        SessionView { status_message: status, ..self }
    }

    /// The session at rest, with `status` in the status bar.
    pub open spec fn stopped(self, status: Seq<char>) -> SessionView {
        SessionView { is_processing: false, status_message: status, ..self }
    }

    /// The session after `message` was handed to the logger.
    pub open spec fn noted(self, message: Seq<char>) -> SessionView {
        SessionView { logger: self.logger.logged(message), ..self }
    }

    /// The session after the state of the item at `index` was set.
    pub open spec fn marked(self, index: int, state: StateView) -> SessionView {
        SessionView { queue: state_set_at(self.queue, index, state), ..self }
    }

    /// Which setting a job cannot do without and is missing, as the status
    /// bar says it.
    pub open spec fn missing_setting(self) -> Option<Seq<char>> {
        if self.config.selected_script is None {
            Some("Error: No script selected"@)
        } else if self.config.output_directory is None {
            Some("Error: No output directory selected"@)
        } else {
            None
        }
    }

    /// Why processing cannot start, as the status bar says it.
    pub open spec fn start_blocker(self) -> Option<Seq<char>> {
        match self.missing_setting() {
            Some(reason) => Some(reason),
            None => if self.queue.len() == 0 {
                Some("Error: Queue is empty"@)
            } else {
                None
            },
        }
    }

    /// Why the session comes to rest when it cannot go on: a setting is
    /// missing for an item that is pending, or all items are processed.
    pub open spec fn rest_reason(self) -> Seq<char> {
        if first_pending(self.queue) is Some && self.missing_setting() is Some {
            self.missing_setting()->0
        } else {
            "All items processed"@
        }
    }

    /// The session after the job for the item at `index` was announced in
    /// the log.
    pub open spec fn announced(self, index: int) -> SessionView {
        self.noted(start_message(self.item_name(index), self.config.selected_script->0))
    }

    /// The session after the job for the item at `index` could not be
    /// handed over: the failure is logged and the item is marked with it.
    /// An index past the end changes nothing.
    pub open spec fn submission_failed(self, index: int, error: Seq<char>) -> SessionView {
        if 0 <= index < self.queue.len() {
            self.noted(error_message(self.item_name(index), error)).marked(
                index,
                StateView::Error(error),
            )
        } else {
            self
        }
    }

    /// The session after it went on to the next item. `failures` holds, in
    /// order, the error of each job that could not be handed over; the job
    /// after the last of them was handed over, if an item was left for it.
    ///
    /// With no pending item the session comes to rest and says so. With a
    /// setting missing it comes to rest and says which. Else the job for
    /// the first pending item is announced and handed over; if that fails,
    /// the item is marked as failed and the session goes on to the next.
    pub open spec fn dispatched(self, failures: Seq<Seq<char>>) -> SessionView
        decreases failures.len(),
    {
        match first_pending(self.queue) {
            None => self.stopped("All items processed"@),
            Some(index) => match self.missing_setting() {
                Some(reason) => self.stopped(reason),
                None => if failures.len() == 0 {
                    self.announced(index)
                } else {
                    self.announced(index).submission_failed(index, failures.first()).dispatched(
                        failures.drop_first(),
                    )
                },
            },
        }
    }

    /// The session after the user asked to start processing.
    pub open spec fn started(self, failures: Seq<Seq<char>>) -> SessionView {
        match self.start_blocker() {
            Some(reason) => self.with_status(reason),
            None => SessionView { is_processing: true, ..self }.dispatched(failures),
        }
    }

    /// The session after the user asked to cancel processing.
    pub open spec fn cancelled_by_user(self) -> SessionView {
        self.stopped("Processing cancelled"@)
    }

    /// The session after an event from the worker.
    ///
    /// `Started` locks the item. `Success` logs it, completes the item,
    /// clears completed items away and goes on to the next item. `Error`
    /// logs it, marks the item with the error and goes on to the next item.
    /// `Cancelled` brings the session to rest.
    ///
    /// An event for a slot past the end of the queue touches no item and
    /// logs nothing; the end of a job still makes the session go on.
    pub open spec fn applied(self, event: ResultView, failures: Seq<Seq<char>>) -> SessionView {
        match event {
            ResultView::Started(index) => if index < self.queue.len() {
                self.marked(index as int, StateView::Processing).with_status(
                    "Processing: "@ + self.item_name(index as int),
                )
            } else {
                self
            },
            ResultView::Success(index) => if index < self.queue.len() {
                let logged = self.noted(success_message(self.item_name(index as int)));
                let completed = state_set_at(logged.queue, index as int, StateView::Completed);
                SessionView { queue: completed.filter(is_unfinished()), ..logged }.dispatched(
                    failures,
                )
            } else {
                self.dispatched(failures)
            },
            ResultView::Error(index, error) => self.submission_failed(
                index as int,
                error,
            ).dispatched(failures),
            ResultView::Cancelled => self.stopped("Cancelled"@),
        }
    }

    /// The session after a series of events from the worker, applied in
    /// order. `failures[i]` holds what could not be handed over when the
    /// session went on after `events[i]`.
    pub open spec fn applied_all(
        self,
        events: Seq<ResultView>,
        failures: Seq<Seq<Seq<char>>>,
    ) -> SessionView
        decreases events.len(),
    {
        if events.len() == 0 {
            self
        } else {
            self.applied_all(events.drop_last(), failures.drop_last()).applied(
                events.last(),
                failures.last(),
            )
        }
    }

    /// The session after what the user did in the queue list: a press of
    /// delete removes the selection; then a click selects (plain), toggles
    /// (with control) or selects from the last click to this one (with
    /// shift); then a drop moves the selection.
    pub open spec fn interacted(self, interaction: QueueListInteraction) -> SessionView {
        let kept = if interaction.delete_pressed {
            self.queue.filter(is_settled())
        } else {
            self.queue
        };
        let clicked = match interaction.clicked_index {
            None => kept,
            Some(index) => if interaction.ctrl_held {
                toggle_at(kept, index as int)
            } else if interaction.shift_held && self.last_clicked_index is Some {
                range_selected(deselected(kept), self.last_clicked_index->0 as int, index as int)
            } else {
                select_at(deselected(kept), index as int)
            },
        };
        let dropped = match interaction.drag_target {
            None => clicked,
            Some(target) => moved(clicked, target as int),
        };
        SessionView {
            queue: dropped,
            last_clicked_index: match interaction.clicked_index {
                None => self.last_clicked_index,
                Some(index) => Some(index),
            },
            ..self
        }
    }

    /// Whether what the user did in the controls changes the settings that
    /// are kept between sessions.
    pub open spec fn controls_change_settings(self, state: ControlsState) -> bool {
        ||| state.script_to_remove matches Some(index) && index
            < self.config.available_scripts.len()
        ||| state.script_changed
        ||| state.output_changed
        ||| state.logging_changed
    }

    /// The session after what the user did in the controls: a script is
    /// taken off the list; the logger follows a change of the logging
    /// switch and from then on writes to `log_file`; a press of start starts
    /// processing; a press of cancel cancels it.
    pub open spec fn controlled(
        self,
        state: ControlsState,
        log_file: Option<PathBuf>,
        failures: Seq<Seq<char>>,
    ) -> SessionView {
        let config = match state.script_to_remove {
            Some(index) => self.config.script_removed(index as int),
            None => self.config,
        };
        let logger = if state.logging_changed {
            LogView { log_file, enabled: config.logging_enabled, notes: self.logger.notes }
        } else {
            self.logger
        };
        let settled = SessionView { config, logger, ..self };
        let begun = if state.start_clicked {
            settled.started(failures)
        } else {
            settled
        };
        if state.cancel_clicked {
            begun.cancelled_by_user()
        } else {
            begun
        }
    }
}

/// Whether every one of `failures` is the error of a job that could not be
/// handed over.
pub open spec fn are_send_failures(failures: Seq<Seq<char>>) -> bool {
    forall|k: int|
        0 <= k < failures.len() ==> begins_with(#[trigger] failures[k], process_failure())
}

impl Controller {
    /// The session that the controller is in.
    pub open spec fn session(&self) -> SessionView {
        self@.untimed()
    }

    /// A session with an empty queue and the given settings, at rest, whose
    /// jobs go to `processor`.
    pub fn new(config: Config, processor: Processor) -> (controller: Controller)
        ensures
            controller.session().queue == Seq::<ItemView>::empty(),
            controller.session().config == config@,
            controller.session().processor == processor,
            !controller.session().is_processing,
            controller.session().status_message == "Ready"@,
            controller.session().last_clicked_index is None,
            controller@.logger.enabled == config@.logging_enabled,
            controller@.logger.pending == Seq::<EntryView>::empty(),
            log_file_fits(
                controller@.logger.log_file,
                config@.output_directory,
                config@.logging_enabled,
            ),
    {
        let output_dir = match &config.output_directory {
            Some(dir) => Some(dir.clone()),
            None => None,
        };
        let logger = Logger::new(output_dir, config.logging_enabled);
        Controller {
            queue: Queue::new(),
            config,
            logger,
            processor,
            is_processing: false,
            status_message: String::from_str("Ready"),
            last_clicked_index: None,
        }
    }

    /// Puts the files that the user dropped or picked at the end of the
    /// queue.
    pub fn handle_file_drops(&mut self, paths: Vec<PathBuf>)
        ensures
            final(self)@.logger == old(self)@.logger,
            final(self).session() == (SessionView {
                queue: added(old(self).session().queue, paths@),
                ..old(self).session()
            }),
    {
        self.queue.add_multiple(paths);
    }

    /// Applies what the user did in the queue list.
    pub fn handle_queue_interaction(&mut self, interaction: QueueListInteraction)
        ensures
            final(self)@.logger == old(self)@.logger,
            final(self).session() == old(self).session().interacted(interaction),
    {
        if interaction.delete_pressed {
            self.queue.remove_selected();
        }
        match interaction.clicked_index {
            None => {},
            Some(index) => {
                if interaction.ctrl_held {
                    self.queue.toggle_select(index);
                } else {
                    self.queue.clear_selection();
                    match self.last_clicked_index {
                        Some(last) if interaction.shift_held => {
                            self.queue.select_range(last, index);
                        },
                        _ => {
                            self.queue.select(index);
                        },
                    }
                }
                self.last_clicked_index = Some(index);
            },
        }
        match interaction.drag_target {
            None => {},
            Some(target) => {
                self.queue.move_selected(target);
            },
        }
    }

    /// The name shown for the item at `index`.
    fn item_name(&self, index: usize) -> (name: String)
        requires
            index < self.session().queue.len(),
        ensures
            name@ == self.session().item_name(index as int),
    {
        let items = self.queue.items();
        proof {
            assert(items@[index as int]@ == item_views(items@)[index as int]);
        }
        items[index].filename()
    }

    /// The path of the item at `index`.
    fn item_path(&self, index: usize) -> (path: PathBuf)
        requires
            index < self.session().queue.len(),
        ensures
            path == self.session().queue[index as int].path,
    {
        let items = self.queue.items();
        proof {
            assert(items@[index as int]@ == item_views(items@)[index as int]);
        }
        items[index].path.clone()
    }

    /// The script and the output directory for a job, or which of the two
    /// is missing, as the status bar says it.
    fn job_settings(&self) -> (settings: Result<(String, PathBuf), String>)
        ensures
            match settings {
                Ok((script, output_dir)) => {
                    &&& self.session().missing_setting() is None
                    &&& self.session().config.selected_script == Some(script@)
                    &&& self.session().config.output_directory == Some(output_dir)
                },
                Err(reason) => self.session().missing_setting() == Some(reason@),
            },
    {
        match (&self.config.selected_script, &self.config.output_directory) {
            (None, _) => Err(String::from_str("Error: No script selected")),
            (Some(_), None) => Err(String::from_str("Error: No output directory selected")),
            (Some(script), Some(output_dir)) => Ok((script.clone(), output_dir.clone())),
        }
    }

    /// The job that is due: the one for the first pending item, with the
    /// chosen script and output directory. There is none if no item is
    /// pending or a setting is missing.
    pub fn next_job(&self) -> (job: Option<ProcessorMessage>)
        ensures
            match job {
                Some(message) => first_pending(self.session().queue) matches Some(index)
                    && self.session().missing_setting() is None && message@ == job_for(
                    self.session(),
                    index,
                ),
                None => first_pending(self.session().queue) is None
                    || self.session().missing_setting() is Some,
            },
    {
        match self.queue.get_next_pending() {
            None => None,
            Some(index) => match self.job_settings() {
                Err(_) => None,
                Ok((script, output_dir)) => Some(
                    job_message(index, self.item_path(index), script, output_dir),
                ),
            },
        }
    }

    /// Brings the session to rest and says why in the status bar: a
    /// setting is missing for an item that is pending, or all items are
    /// processed.
    fn come_to_rest(&mut self)
        ensures
            final(self)@.logger == old(self)@.logger,
            final(self).session() == old(self).session().stopped(old(self).session().rest_reason()),
    {
        let reason = match (self.queue.get_next_pending(), self.job_settings()) {
            (Some(_), Err(reason)) => reason,
            _ => String::from_str("All items processed"),
        };
        self.is_processing = false;
        self.status_message = reason;
    }

    /// Starts working through the queue, if a script and an output
    /// directory are chosen and the queue is not empty; says what is
    /// missing otherwise.
    pub fn start_processing(&mut self)
        ensures
            final(self)@.logger.keeps(old(self)@.logger),
            exists|failures: Seq<Seq<char>>|
                are_send_failures(failures)
                    && final(self).session() == #[trigger] old(self).session().started(
                    failures,
                ),
    {
        match self.job_settings() {
            Err(reason) => {
                self.status_message = reason;
                proof {
                    assert(self.session() == old(self).session().started(Seq::empty()));
                }
                return ;
            },
            Ok(_) => {},
        }
        if self.queue.is_empty() {
            self.status_message = String::from_str("Error: Queue is empty");
            proof {
                assert(self.session() == old(self).session().started(Seq::empty()));
            }
            return ;
        }
        self.is_processing = true;
        let ghost begun = self.session();
        self.process_next_item();
        proof {
            let failures = choose|failures: Seq<Seq<char>>|
                are_send_failures(failures)
                    && self.session() == #[trigger] begun.dispatched(failures);
            assert(self.session() == old(self).session().started(failures));
        }
    }

    /// Records what came of handing over the job for the item at `index`.
    /// If it failed, the failure is logged and the item is marked with it.
    /// Says whether the job was handed over.
    pub fn settle_submission(&mut self, index: usize, sent: Result<(), String>) -> (delivered: bool)
        ensures
            final(self)@.logger.keeps(old(self)@.logger),
            delivered == sent is Ok,
            final(self).session() == match sent {
                Ok(()) => old(self).session(),
                Err(error) => old(self).session().submission_failed(index as int, error@),
            },
    {
        match sent {
            Ok(()) => true,
            Err(error) => {
                if index < self.queue.len() {
                    let name = self.item_name(index);
                    self.logger.log_error(name.as_str(), error.as_str());
                    self.queue.set_state(index, ItemState::Error(error));
                }
                false
            },
        }
    }

    /// Goes on to the next item: hands the worker the job for the first
    /// pending item, or comes to rest if there is none or a setting is
    /// missing. An item whose job cannot be handed over is marked as failed,
    /// and the next one is tried.
    pub fn process_next_item(&mut self)
        ensures
            final(self)@.logger.keeps(old(self)@.logger),
            exists|failures: Seq<Seq<char>>|
                are_send_failures(failures)
                    && final(self).session() == #[trigger] old(self).session().dispatched(
                    failures,
                ),
    {
        let ghost mut failures: Seq<Seq<char>> = Seq::empty();
        let mut floor: usize = 0;
        proof {
            assert forall|rest: Seq<Seq<char>>|
                old(self).session().dispatched(failures + rest)
                    == #[trigger] self.session().dispatched(rest) by {
                assert(failures + rest =~= rest);
            }
        }
        loop
            invariant_except_break
                are_send_failures(failures),
                forall|rest: Seq<Seq<char>>|
                    old(self).session().dispatched(failures + rest)
                        == #[trigger] self.session().dispatched(rest),
                floor <= self.queue@.len(),
                forall|k: int| 0 <= k < floor ==> !((#[trigger] self.queue@[k]).state is Pending),
            invariant
                self@.logger.keeps(old(self)@.logger),
            ensures
                exists|failures: Seq<Seq<char>>|
                    are_send_failures(failures)
                        && self.session() == #[trigger] old(self).session().dispatched(
                        failures,
                    ),
            decreases self.queue@.len() - floor,
        {
            let ghost before = self.session();
            let ghost logger_before = self@.logger;
            let count = self.queue.len();
            let (index, file, script, output_dir) = match self.next_job() {
                Some(ProcessorMessage::Process { index, file, script, output_dir }) => (
                    index,
                    file,
                    script,
                    output_dir,
                ),
                _ => {
                    self.come_to_rest();
                    proof {
                        assert(self.session() == before.dispatched(Seq::empty()));
                        assert(failures + Seq::<Seq<char>>::empty() =~= failures);
                    }
                    break ;
                },
            };
            proof {
                lemma_first_pending(before.queue);
            }
            let name = self.item_name(index);
            self.logger.log_start(name.as_str(), script.as_str());
            let ghost announced = self.session();
            proof {
                assert(announced == before.announced(index as int));
            }
            proof {
                lemma_keeps_on(self@.logger, logger_before, old(self)@.logger);
            }
            let ghost logger_announced = self@.logger;
            let sent = self.processor.process(index, file, script, output_dir);
            let ghost error = match report_view(sent) {
                Ok(()) => Seq::<char>::empty(),
                Err(text) => text,
            };
            let delivered = self.settle_submission(index, sent);
            proof {
                lemma_keeps_on(self@.logger, logger_announced, old(self)@.logger);
            }
            if delivered {
                proof {
                    assert(self.session() == before.dispatched(Seq::empty()));
                    assert(failures + Seq::<Seq<char>>::empty() =~= failures);
                }
                break ;
            }
            proof {
                let extended = failures.push(error);
                assert forall|rest: Seq<Seq<char>>|
                    old(self).session().dispatched(extended + rest)
                        == #[trigger] self.session().dispatched(rest) by {
                    let longer = seq![error] + rest;
                    assert(extended + rest =~= failures + longer);
                    assert(longer.first() == error);
                    assert(longer.drop_first() =~= rest);
                    assert(before.dispatched(longer) == self.session().dispatched(rest));
                }
                assert forall|k: int| 0 <= k < index + 1 implies !((#[trigger] self.queue@[k]).state
                    is Pending) by {
                    if k < index {
                        assert(self.queue@[k] == before.queue[k]);
                    }
                }
                failures = extended;
            }
            assert(index < count);
            floor = index + 1;
        }
    }

    /// Tells the worker to skip the next job and brings the session to
    /// rest. A job that is running runs on, and its item settles with the
    /// job's own end: completed and cleared away, or marked with its error.
    /// The item whose job falls to the cancellation stays pending.
    pub fn cancel_processing(&mut self)
        ensures
            final(self)@.logger == old(self)@.logger,
            final(self).session() == old(self).session().cancelled_by_user(),
    {
        let _ = self.processor.cancel();
        self.is_processing = false;
        self.status_message = String::from_str("Processing cancelled");
    }

    /// Applies one event from the worker.
    pub fn apply_result(&mut self, event: ProcessorResult)
        ensures
            final(self)@.logger.keeps(old(self)@.logger),
            exists|failures: Seq<Seq<char>>|
                are_send_failures(failures)
                    && final(self).session() == #[trigger] old(self).session().applied(
                    event@,
                    failures,
                ),
    {
        let ghost none = Seq::<Seq<char>>::empty();
        match event {
            ProcessorResult::Started(index) => {
                if index < self.queue.len() {
                    self.queue.set_state(index, ItemState::Processing);
                    let name = self.item_name(index);
                    self.status_message = String::from_str("Processing: ").concat(name.as_str());
                }
                proof {
                    assert(self.session() == old(self).session().applied(event@, none));
                }
            },
            ProcessorResult::Success(index) => {
                if index < self.queue.len() {
                    let name = self.item_name(index);
                    self.logger.log_success(name.as_str());
                    self.queue.set_state(index, ItemState::Completed);
                    self.queue.remove_completed();
                }
                let ghost cleared = self.session();
                self.process_next_item();
                proof {
                    let failures = choose|failures: Seq<Seq<char>>|
                        are_send_failures(failures)
                            && self.session() == #[trigger] cleared.dispatched(
                            failures,
                        );
                    assert(self.session() == old(self).session().applied(event@, failures));
                }
            },
            ProcessorResult::Error(index, error) => {
                let _ = self.settle_submission(index, Err(error));
                let ghost failed = self.session();
                self.process_next_item();
                proof {
                    let failures = choose|failures: Seq<Seq<char>>|
                        are_send_failures(failures)
                            && self.session() == #[trigger] failed.dispatched(
                            failures,
                        );
                    assert(self.session() == old(self).session().applied(event@, failures));
                }
            },
            ProcessorResult::Cancelled => {
                self.is_processing = false;
                self.status_message = String::from_str("Cancelled");
                proof {
                    assert(self.session() == old(self).session().applied(event@, none));
                }
            },
        }
    }

    /// Applies the events that the worker has reported, oldest first, until
    /// none is waiting or `limit` of them have been applied. Never blocks.
    /// Says how many were applied.
    pub fn poll_processor(&mut self, limit: usize) -> (handled: usize)
        ensures
            handled <= limit,
            final(self)@.logger.keeps(old(self)@.logger),
            exists|events: Seq<ResultView>, failures: Seq<Seq<Seq<char>>>|
                {
                    &&& events.len() == handled
                    &&& failures.len() == handled
                    &&& forall|i: int|
                        0 <= i < handled ==> are_send_failures(#[trigger] failures[i])
                    &&& final(self).session()
                        == #[trigger] old(self).session().applied_all(events, failures)
                },
    {
        let mut handled: usize = 0;
        let ghost mut events: Seq<ResultView> = Seq::empty();
        let ghost mut failures: Seq<Seq<Seq<char>>> = Seq::empty();
        while handled < limit
            invariant
                handled <= limit,
                events.len() == handled,
                failures.len() == handled,
                forall|i: int| 0 <= i < handled ==> are_send_failures(#[trigger] failures[i]),
                self.session() == old(self).session().applied_all(events, failures),
                self@.logger.keeps(old(self)@.logger),
            decreases limit - handled,
        {
            match self.processor.try_recv_result() {
                None => {
                    break ;
                },
                Some(event) => {
                    let ghost before = self.session();
                    let ghost logger_before = self@.logger;
                    let ghost reported = event@;
                    self.apply_result(event);
                    proof {
                        lemma_keeps_on(self@.logger, logger_before, old(self)@.logger);
                        let after = choose|after: Seq<Seq<char>>|
                            are_send_failures(after) && self.session() == #[trigger] before.applied(
                                reported,
                                after,
                            );
                        assert(events.push(reported).drop_last() =~= events);
                        assert(failures.push(after).drop_last() =~= failures);
                        events = events.push(reported);
                        failures = failures.push(after);
                    }
                    handled += 1;
                },
            }
        }
        handled
    }

    /// Applies what the user did in the controls. Says whether the settings
    /// changed and are to be saved.
    pub fn handle_controls(&mut self, state: ControlsState) -> (save: bool)
        ensures
            final(self)@.logger.keeps(old(self)@.logger),
            save == old(self).session().controls_change_settings(state),
            exists|log_file: Option<PathBuf>, failures: Seq<Seq<char>>|
                {
                    &&& are_send_failures(failures)
                    &&& state.logging_changed ==> log_file_fits(
                        log_file,
                        old(self).session().config.script_removed_or_same(
                            state.script_to_remove,
                        ).output_directory,
                        old(self).session().config.logging_enabled,
                    )
                    &&& final(self).session()
                        == #[trigger] old(self).session().controlled(state, log_file, failures)
                },
    {
        let mut save = state.script_changed || state.output_changed || state.logging_changed;
        match state.script_to_remove {
            Some(index) => {
                if self.config.remove_script(index) {
                    save = true;
                }
            },
            None => {},
        }
        if state.logging_changed {
            let output_dir = match &self.config.output_directory {
                Some(dir) => Some(dir.clone()),
                None => None,
            };
            self.logger.update(output_dir, self.config.logging_enabled);
        }
        let ghost log_file = self.session().logger.log_file;
        let ghost settled = self.session();
        let ghost mut failures = Seq::<Seq<char>>::empty();
        if state.start_clicked {
            self.start_processing();
            proof {
                failures = choose|failures: Seq<Seq<char>>|
                    are_send_failures(failures)
                        && self.session() == #[trigger] settled.started(failures);
            }
        }
        if state.cancel_clicked {
            self.cancel_processing();
        }
        proof {
            assert(settled == (SessionView {
                config: settled.config,
                logger: settled.logger,
                ..old(self).session()
            }));
            assert(self.session() == old(self).session().controlled(state, log_file, failures));
        }
        save
    }

    /// Takes in the script that the user picked: if its path is valid UTF-8
    /// and not on the list yet, it is put on the list and chosen. Says
    /// whether the settings changed and are to be saved.
    pub fn script_chosen(&mut self, path: &PathBuf) -> (save: bool)
        ensures
            final(self)@.logger == old(self)@.logger,
            final(self).session() == (SessionView {
                config: match path_text(*path) {
                    Some(script) => old(self).session().config.script_added(script),
                    None => old(self).session().config,
                },
                ..old(self).session()
            }),
            save == match path_text(*path) {
                Some(script) => !old(self).session().config.available_scripts.contains(script),
                None => false,
            },
    {
        match path_to_text(path) {
            Some(script) => self.config.add_script(script),
            None => false,
        }
    }

    /// Takes in the output directory that the user picked. The settings
    /// change and are to be saved.
    pub fn output_chosen(&mut self, path: PathBuf)
        ensures
            final(self)@.logger == old(self)@.logger,
            final(self).session() == (SessionView {
                config: ConfigView { output_directory: Some(path), ..old(self).session().config },
                ..old(self).session()
            }),
    {
        self.config.output_directory = Some(path);
    }
}

} // verus!
