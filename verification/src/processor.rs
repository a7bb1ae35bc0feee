//! The sequential executor: the messages it takes, the events it reports,
//! the rules by which its worker decides what to do with each message, and
//! the handle through which a controller talks to that worker.
//!
//! The worker runs one script at a time. Cancelling does not stop a script
//! that is running: it raises a flag that makes the worker skip the next job
//! it is handed, and that job clears the flag again.

use crate::paths::{path_text, path_to_text};
use std::path::PathBuf;
use std::sync::mpsc::{Receiver, Sender};
use vstd::prelude::*;
use vstd::string::StringExecFns;

verus! {

/// What a controller sends to the worker.
#[derive(Debug)]
pub enum ProcessorMessage {
    /// Run `script` on `file`, writing to `output_dir`. `index` is the place
    /// of the file in the queue at the time of sending.
    Process { index: usize, file: PathBuf, script: String, output_dir: PathBuf },
    /// Skip the next job.
    Cancel,
}

/// The mathematical value of a [`ProcessorMessage`].
pub enum MessageView {
    Process { index: nat, file: PathBuf, script: Seq<char>, output_dir: PathBuf },
    Cancel,
}

impl View for ProcessorMessage {
    type V = MessageView;

    open spec fn view(&self) -> MessageView {
        match *self {
            ProcessorMessage::Process { index, file, script, output_dir } => MessageView::Process {
                index: index as nat,
                file,
                script: script@,
                output_dir,
            },
            ProcessorMessage::Cancel => MessageView::Cancel,
        }
    }
}

/// What the worker reports back.
#[derive(Debug)]
pub enum ProcessorResult {
    Started(usize),
    Success(usize),
    Error(usize, String),
    Cancelled,
}

/// The mathematical value of a [`ProcessorResult`].
pub enum ResultView {
    Started(nat),
    Success(nat),
    Error(nat, Seq<char>),
    Cancelled,
}

impl View for ProcessorResult {
    type V = ResultView;

    open spec fn view(&self) -> ResultView {
        match *self {
            ProcessorResult::Started(index) => ResultView::Started(index as nat),
            ProcessorResult::Success(index) => ResultView::Success(index as nat),
            ProcessorResult::Error(index, message) => ResultView::Error(index as nat, message@),
            ProcessorResult::Cancelled => ResultView::Cancelled,
        }
    }
}

/// What came of trying to run a script.
#[derive(Debug)]
pub enum ScriptOutcome {
    /// The script ran and exited, with status zero if `success`, and wrote
    /// `stderr` to its standard error.
    Exited { success: bool, stderr: Vec<u8> },
    /// The script could not be launched; the text says why.
    SpawnFailed(String),
}

/// The mathematical value of a [`ScriptOutcome`].
pub enum OutcomeView {
    Exited { success: bool, stderr: Seq<u8> },
    SpawnFailed(Seq<char>),
}

impl View for ScriptOutcome {
    type V = OutcomeView;

    open spec fn view(&self) -> OutcomeView {
        match *self {
            ScriptOutcome::Exited { success, stderr } => OutcomeView::Exited {
                success,
                stderr: stderr@,
            },
            ScriptOutcome::SpawnFailed(reason) => OutcomeView::SpawnFailed(reason@),
        }
    }
}

/// The text that `String::from_utf8_lossy` decodes `bytes` to.
pub uninterp spec fn utf8_lossy(bytes: Seq<u8>) -> Seq<char>;

/// Calls `String::from_utf8_lossy`, which decodes UTF-8 and puts U+FFFD in
/// the place of every sequence that is not valid. The contract only names
/// the result.
#[verifier::external_body]
fn decode_lossy(bytes: &Vec<u8>) -> (text: String)
    ensures
        text@ == utf8_lossy(bytes@),
{
    String::from_utf8_lossy(bytes).into_owned()
}

/// A path as a command-line argument: its text, or nothing where it is not
/// valid UTF-8.
pub open spec fn argument_text(path: PathBuf) -> Seq<char> {
    match path_text(path) {
        Some(text) => text,
        None => Seq::empty(),
    }
}

/// The text or, where there is none, the empty string.
pub fn text_or_empty(text: Option<String>) -> (argument: String)
    ensures
        argument@ == match text {
            Some(t) => t@,
            None => Seq::empty(),
        },
{
    match text {
        Some(t) => t,
        None => String::new(),
    }
}

/// The two arguments that the script is called with, in order: the input
/// file and the output directory.
pub fn script_arguments(file: &PathBuf, output_dir: &PathBuf) -> (arguments: (String, String))
    ensures
        arguments.0@ == argument_text(*file),
        arguments.1@ == argument_text(*output_dir),
{
    (text_or_empty(path_to_text(file)), text_or_empty(path_to_text(output_dir)))
}

/// How the exit of a script counts: success for exit status zero, whatever
/// the script wrote; else an error whose message is `complaint`, the text
/// that the script wrote to its standard error.
pub open spec fn exit_verdict(success: bool, complaint: Seq<char>) -> Result<(), Seq<char>> {
    if success {
        Ok(())
    } else {
        Err(complaint)
    }
}

/// How a script outcome counts: success for exit status zero; for any other
/// exit an error whose message is what the script wrote to its standard
/// error; for a script that could not be launched an error whose message is
/// the reason that the system gave.
pub open spec fn verdict(outcome: OutcomeView) -> Result<(), Seq<char>> {
    match outcome {
        OutcomeView::Exited { success, stderr } => exit_verdict(success, utf8_lossy(stderr)),
        OutcomeView::SpawnFailed(reason) => Err(reason),
    }
}

/// The value of a result whose error is a string.
pub open spec fn report_view(report: Result<(), String>) -> Result<(), Seq<char>> {
    match report {
        Ok(()) => Ok(()),
        Err(message) => Err(message@),
    }
}

/// The event that ends the job for slot `index` whose script came to
/// `outcome`.
pub open spec fn concluded(index: nat, outcome: OutcomeView) -> ResultView {
    match verdict(outcome) {
        Ok(()) => ResultView::Success(index),
        Err(message) => ResultView::Error(index, message),
    }
}

/// How the exit of a script counts, given what it wrote to its standard
/// error as text.
pub fn exit_report(success: bool, complaint: &str) -> (report: Result<(), String>)
    ensures
        report_view(report) == exit_verdict(success, complaint@),
{
    if success {
        Ok(())
    } else {
        Err(String::from_str(complaint))
    }
}

impl ScriptOutcome {
    /// Success if the script exited with status zero. Otherwise the error to
    /// show: the text that the script wrote to standard error, or the reason
    /// why it could not be launched.
    pub fn verdict(self) -> (report: Result<(), String>)
        ensures
            report_view(report) == verdict(self@),
    {
        match self {
            ScriptOutcome::Exited { success, stderr } => {
                if success {
                    Ok(())
                } else {
                    exit_report(false, decode_lossy(&stderr).as_str())
                }
            },
            ScriptOutcome::SpawnFailed(reason) => Err(reason),
        }
    }
}

/// What the worker is to do about a message.
#[derive(Debug)]
pub enum WorkerAction {
    /// Nothing: the job fell to a pending cancellation.
    Skip,
    /// Report the event and go on to the next message.
    Report(ProcessorResult),
    /// Report `started`, run `script` with the arguments for `file` and
    /// `output_dir`, and report what `Worker::finish` makes of the outcome.
    Run {
        started: ProcessorResult,
        index: usize,
        file: PathBuf,
        script: String,
        output_dir: PathBuf,
    },
}

/// The mathematical value of a [`WorkerAction`].
pub enum ActionView {
    Skip,
    Report(ResultView),
    Run { started: ResultView, index: nat, file: PathBuf, script: Seq<char>, output_dir: PathBuf },
}

impl View for WorkerAction {
    type V = ActionView;

    open spec fn view(&self) -> ActionView {
        match *self {
            WorkerAction::Skip => ActionView::Skip,
            WorkerAction::Report(event) => ActionView::Report(event@),
            WorkerAction::Run { started, index, file, script, output_dir } => ActionView::Run {
                started: started@,
                index: index as nat,
                file,
                script: script@,
                output_dir,
            },
        }
    }
}

/// What the worker does about `message` when its cancel flag is
/// `cancelled`.
pub open spec fn reaction(cancelled: bool, message: MessageView) -> ActionView {
    match message {
        MessageView::Cancel => ActionView::Report(ResultView::Cancelled),
        MessageView::Process { index, file, script, output_dir } => if cancelled {
            ActionView::Skip
        } else {
            ActionView::Run { started: ResultView::Started(index), index, file, script, output_dir }
        },
    }
}

/// The cancel flag after `message`: a cancel raises it, and any job lowers
/// it, whether the job is run or skipped.
pub open spec fn flag_after(cancelled: bool, message: MessageView) -> bool {
    message is Cancel
}

/// The decisions of the worker: a one-shot cancel flag.
#[derive(Debug)]
pub struct Worker {
    cancelled: bool,
}

impl Worker {
    /// Whether a cancellation is waiting for the next job.
    pub closed spec fn cancel_pending(&self) -> bool {
        self.cancelled
    }

    /// A worker with no cancellation pending.
    pub fn new() -> (worker: Worker)
        ensures
            !worker.cancel_pending(),
    {
        Worker { cancelled: false }
    }

    /// Takes the next message and says what to do about it.
    pub fn receive(&mut self, message: ProcessorMessage) -> (action: WorkerAction)
        ensures
            action@ == reaction(old(self).cancel_pending(), message@),
            final(self).cancel_pending() == flag_after(old(self).cancel_pending(), message@),
    {
        match message {
            ProcessorMessage::Cancel => {
                self.cancelled = true;
                WorkerAction::Report(ProcessorResult::Cancelled)
            },
            ProcessorMessage::Process { index, file, script, output_dir } => {
                if self.cancelled {
                    self.cancelled = false;
                    WorkerAction::Skip
                } else {
                    WorkerAction::Run {
                        started: ProcessorResult::Started(index),
                        index,
                        file,
                        script,
                        output_dir,
                    }
                }
            },
        }
    }

    /// The event that ends the job for slot `index`, given what came of
    /// running its script.
    pub fn finish(index: usize, outcome: ScriptOutcome) -> (event: ProcessorResult)
        ensures
            event@ == concluded(index as nat, outcome@),
    {
        match outcome.verdict() {
            Ok(()) => ProcessorResult::Success(index),
            Err(message) => ProcessorResult::Error(index, message),
        }
    }
}

/// `std::sync::mpsc::Sender`, the sending half of a channel.
#[verifier::external_type_specification]
#[verifier::external_body]
#[verifier::reject_recursive_types(T)]
pub struct ExSender<T>(std::sync::mpsc::Sender<T>);

/// `std::sync::mpsc::Receiver`, the receiving half of a channel.
#[verifier::external_type_specification]
#[verifier::external_body]
#[verifier::reject_recursive_types(T)]
pub struct ExReceiver<T>(std::sync::mpsc::Receiver<T>);

/// Calls `Sender::send`, which never blocks and fails only if the receiving
/// half has been dropped. The error comes back as the text that it displays
/// as. Whether sending succeeds depends on the other end of the channel, so
/// nothing is claimed of the result.
#[verifier::external_body]
fn send_message(tx: &Sender<ProcessorMessage>, message: ProcessorMessage) -> (sent: Result<
    (),
    String,
>) {
    match tx.send(message) {
        Ok(()) => Ok(()),
        Err(error) => Err(error.to_string()),
    }
}

/// Calls `Receiver::try_recv`, which never blocks, and drops the reason
/// where nothing came. What comes depends on the other end of the channel,
/// so nothing is claimed of the result.
#[verifier::external_body]
fn try_receive(rx: &Receiver<ProcessorResult>) -> (event: Option<ProcessorResult>) {
    rx.try_recv().ok()
}

/// Whether `text` starts with `context`.
pub open spec fn begins_with(text: Seq<char>, context: Seq<char>) -> bool {
    &&& context.len() <= text.len()
    &&& text.subrange(0, context.len() as int) == context
}

/// How the error of a job that could not be handed over starts.
pub open spec fn process_failure() -> Seq<char> {
    "Failed to send process message: "@
}

/// How the error of a cancellation that could not be handed over starts.
pub open spec fn cancel_failure() -> Seq<char> {
    "Failed to send cancel message: "@
}

/// The message that hands the worker a job: run `script` on `file`, which
/// stands at `index` in the queue, and write to `output_dir`.
pub fn job_message(index: usize, file: PathBuf, script: String, output_dir: PathBuf) -> (message:
    ProcessorMessage)
    ensures
        message@ == (MessageView::Process {
            index: index as nat,
            file,
            script: script@,
            output_dir,
        }),
{
    ProcessorMessage::Process { index, file, script, output_dir }
}

/// The message that tells the worker to skip the next job.
pub fn cancel_message() -> (message: ProcessorMessage)
    ensures
        message@ == MessageView::Cancel,
{
    ProcessorMessage::Cancel
}

/// Puts `context` in front of the reason of a failed send.
pub fn describe_send(context: &str, sent: Result<(), String>) -> (report: Result<(), String>)
    ensures
        report_view(report) == match sent {
            Ok(()) => Ok(()),
            Err(reason) => Err(context@ + reason@),
        },
        report matches Err(error) ==> begins_with(error@, context@),
{
    match sent {
        Ok(()) => Ok(()),
        Err(reason) => {
            let error = String::from_str(context).concat(reason.as_str());
            proof {
                assert(error@.subrange(0, context@.len() as int) =~= context@);
            }
            Err(error)
        },
    }
}

/// The controller's end of the two channels that link it to the worker.
pub struct Processor {
    tx: Sender<ProcessorMessage>,
    rx: Receiver<ProcessorResult>,
}

impl Processor {
    /// The channel that messages are sent on.
    pub closed spec fn outbound(&self) -> Sender<ProcessorMessage> {
        self.tx
    }

    /// The channel that events come in on.
    pub closed spec fn inbound(&self) -> Receiver<ProcessorResult> {
        self.rx
    }

    /// A handle on a worker that takes messages from the other end of `tx`
    /// and reports to the other end of `rx`.
    pub fn connect(tx: Sender<ProcessorMessage>, rx: Receiver<ProcessorResult>) -> (processor:
        Processor)
        ensures
            processor.outbound() == tx,
            processor.inbound() == rx,
    {
        Processor { tx, rx }
    }

    /// Hands the worker the job that `job_message` makes of the arguments and
    /// returns at once. Fails only if the worker is gone; the error then
    /// says so.
    pub fn process(
        &self,
        index: usize,
        file: PathBuf,
        script: String,
        output_dir: PathBuf,
    ) -> (report: Result<(), String>)
        ensures
            report matches Err(error) ==> begins_with(error@, process_failure()),
    {
        let sent = send_message(&self.tx, job_message(index, file, script, output_dir));
        describe_send("Failed to send process message: ", sent)
    }

    /// Hands the worker `cancel_message`, which tells it to skip the next
    /// job, and returns at once. Fails only if the worker is gone; the error
    /// then says so.
    pub fn cancel(&self) -> (report: Result<(), String>)
        ensures
            report matches Err(error) ==> begins_with(error@, cancel_failure()),
    {
        let sent = send_message(&self.tx, cancel_message());
        describe_send("Failed to send cancel message: ", sent)
    }

    /// The next event that the worker has reported, if one is waiting.
    /// Never blocks.
    pub fn try_recv_result(&self) -> (event: Option<ProcessorResult>) {
        try_receive(&self.rx)
    }
}

} // verus!
