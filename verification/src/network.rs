//! Network jobs: one remote-contacting git command at a time, in the
//! background.

use crate::git::{Git, StepOutput};
use crate::job::{decode_result, encode_job, TaskStanding};
use crate::steps::Standing;
use vstd::prelude::*;
use vstd::string::*;
use vstd::utf8::*;

verus! {

/// How one background git command ended.
#[derive(Debug, Clone, PartialEq, Eq)]
pub struct Outcome {
    /// The operation, for the message that reports it.
    pub label: String,
    /// `None` on success.
    pub error: Option<String>,
}

/// What an [`Outcome`] stands for.
pub struct Report {
    pub label: Seq<char>,
    pub error: Option<Seq<char>>,
}

impl View for Outcome {
    type V = Report;

    open spec fn view(&self) -> Report {
        Report { label: self.label@, error: self.error.deep_view() }
    }
}

/// What asking after a job's thread found.
#[derive(Debug)]
pub enum Poll {
    /// No thread, or one that is still at work.
    Pending,
    /// The thread has ended the job: `None` on success.
    Ended(Option<String>),
    /// The thread is gone without a result.
    Stopped,
}

/// What came of starting a job in the background.
#[derive(Debug, Clone, Copy)]
pub enum Spawned {
    /// A thread runs the job, and is polled.
    Thread,
    /// A host task with this id runs the job, and reports by an event.
    Task(u64),
    /// Nothing runs the job.
    Failed,
}

/// What happened to a host task.
#[derive(Debug)]
pub enum TaskEvent {
    /// Bytes that the task reported on its way.
    Progress(Vec<u8>),
    /// The task ended: its output, or why it stopped.
    Done(Result<Vec<u8>, String>),
}

/// The job in flight.
#[derive(Debug)]
struct Flight {
    label: String,
    task: Option<u64>,
}

/// Runs one remote-contacting git command at a time.
///
/// Single-flight rather than a queue: a `pull` takes `index.lock`, and two of
/// them at once fail with three lines of advice about deleting a lock file by
/// hand. Refusing the second is a better answer than racing it.
///
/// A job's work is done elsewhere, in a thread or a host task. This keeps what
/// is running and what came of it.
#[derive(Debug)]
pub struct Network {
    /// What is running, for the row that says so.
    running: Option<Flight>,
    /// Filled when the job ends, drained by [`Network::take_outcome`].
    done: Option<Outcome>,
}

/// What a [`Network`] stands for.
pub struct Channel {
    /// The label of the job in flight.
    pub running: Option<Seq<char>>,
    /// The host task that runs it, where one does.
    pub task: Option<u64>,
    /// How the last job ended, until that is taken.
    pub done: Option<Report>,
}

impl View for Network {
    type V = Channel;

    closed spec fn view(&self) -> Channel {
        Channel {
            running: match self.running {
                Some(flight) => Some(flight.label@),
                None => None,
            },
            task: match self.running {
                Some(flight) => flight.task,
                None => None,
            },
            done: match self.done {
                Some(outcome) => Some(outcome@),
                None => None,
            },
        }
    }
}

/// The message for a job whose thread is gone without a result.
pub const STOPPED: &'static str = "git: the job stopped";

/// The channel once the job in flight, if there is one, has ended.
pub open spec fn finished(channel: Channel, error: Option<Seq<char>>) -> Channel {
    match channel.running {
        Some(label) => Channel { running: None, task: None, done: Some(Report { label, error }) },
        None => channel,
    }
}

/// The channel once a thread has been asked after.
pub open spec fn collected(channel: Channel, poll: Poll) -> Channel {
    match poll {
        Poll::Pending => channel,
        Poll::Ended(error) => finished(channel, error.deep_view()),
        Poll::Stopped => finished(channel, Some(STOPPED@)),
    }
}

/// The channel once a job has been started in the background.
pub open spec fn launched(channel: Channel, label: Seq<char>, spawned: Spawned) -> Channel {
    if channel.running is Some {
        channel
    } else {
        match spawned {
            Spawned::Thread => Channel { running: Some(label), task: None, done: channel.done },
            Spawned::Task(id) => Channel {
                running: Some(label),
                task: Some(id),
                done: channel.done,
            },
            Spawned::Failed => channel,
        }
    }
}

/// How a job ended, from the end of its host task.
pub open spec fn task_end(result: Result<Vec<u8>, String>) -> Option<Seq<char>> {
    match result {
        Ok(output) => crate::job::result_in(output@),
        Err(reason) => Some("git: "@ + reason@),
    }
}

/// The channel once a host task has reported.
pub open spec fn notified(channel: Channel, id: u64, event: TaskEvent) -> Channel {
    match event {
        TaskEvent::Done(result) if channel.task == Some(id) => finished(channel, task_end(result)),
        _ => channel,
    }
}

/// The channel once the outcome has been taken.
pub open spec fn drained(channel: Channel) -> Channel {
    Channel { running: channel.running, task: channel.task, done: None }
}

impl Default for Network {
    fn default() -> (network: Network)
        ensures
            network@ == (Channel { running: None, task: None, done: None }),
    {
        Network { running: None, done: None }
    }
}

impl Network {
    pub fn new() -> (network: Network)
        ensures
            network@ == (Channel { running: None, task: None, done: None }),
    {
        Network::default()
    }

    /// Whether a job is running, once `poll` has been taken in.
    pub fn busy(&mut self, poll: Poll) -> (busy: bool)
        ensures
            final(self)@ == collected(old(self)@, poll),
            busy == (final(self)@.running is Some),
    {
        self.collect(poll);
        self.running.is_some()
    }

    /// What is running right now, if anything, once `poll` has been taken in.
    pub fn running(&mut self, poll: Poll) -> (label: Option<String>)
        ensures
            final(self)@ == collected(old(self)@, poll),
            label.deep_view() == final(self)@.running,
    {
        self.collect(poll);
        match &self.running {
            Some(flight) => Some(flight.label.clone()),
            None => None,
        }
    }

    /// Take the result of the last finished job, if it has not been taken yet,
    /// once `poll` has been taken in.
    pub fn take_outcome(&mut self, poll: Poll) -> (outcome: Option<Outcome>)
        ensures
            final(self)@ == drained(collected(old(self)@, poll)),
            match outcome {
                Some(outcome) => collected(old(self)@, poll).done == Some(outcome@),
                None => collected(old(self)@, poll).done is None,
            },
    {
        self.collect(poll);
        self.done.take()
    }

    fn finish(&mut self, error: Option<String>)
        ensures
            final(self)@ == finished(old(self)@, error.deep_view()),
    {
        if let Some(flight) = self.running.take() {
            self.done = Some(Outcome { label: flight.label, error });
        }
    }

    fn collect(&mut self, poll: Poll)
        ensures
            final(self)@ == collected(old(self)@, poll),
    {
        match poll {
            Poll::Pending => {},
            Poll::Ended(error) => self.finish(error),
            Poll::Stopped => self.finish(Some(STOPPED.to_owned())),
        }
    }

    /// Ask to start a job. `None` when one is already running, once `poll` has
    /// been taken in; otherwise the input to start the job's task with, which
    /// the caller does, and reports to [`Network::spawned`].
    ///
    /// `steps` is run in order and stops at the first failure (see
    /// [`crate::steps::run_steps`]).
    pub fn start(&mut self, poll: Poll, git: &Git, steps: &[Vec<String>]) -> (input: Option<
        Vec<u8>,
    >)
        ensures
            final(self)@ == collected(old(self)@, poll),
            input is None <==> final(self)@.running is Some,
            input matches Some(input) ==> input@ == crate::job::job_encoding(
                crate::job::job_of(*git, steps@),
            ),
    {
        if self.busy(poll) {
            return None;
        }
        Some(encode_job(git, steps))
    }

    /// What came of starting the job that [`Network::start`] gave the input of.
    /// Whether the job is now the one running: not when nothing runs it, nor
    /// when another runs already.
    pub fn spawned(&mut self, label: String, spawned: Spawned) -> (started: bool)
        ensures
            final(self)@ == launched(old(self)@, label@, spawned),
            started == (old(self)@.running is None && !(spawned is Failed)),
    {
        if self.running.is_some() {
            return false;
        }
        match spawned {
            Spawned::Thread => {
                self.running = Some(Flight { label, task: None });
                true
            },
            Spawned::Task(id) => {
                self.running = Some(Flight { label, task: Some(id) });
                true
            },
            Spawned::Failed => false,
        }
    }

    /// News of a host task. The end of the one that runs the job ends the job.
    pub fn on_task_event(&mut self, id: u64, event: TaskEvent)
        ensures
            final(self)@ == notified(old(self)@, id, event),
    {
        let ours: bool = match &self.running {
            Some(flight) => match flight.task {
                Some(task) => task == id,
                None => false,
            },
            None => false,
        };
        if !ours {
            return ;
        }
        if let TaskEvent::Done(result) = event {
            let error: Option<String> = match result {
                Ok(output) => decode_result(output.as_slice()),
                Err(reason) => {
                    let mut message: String = "git: ".to_owned();
                    message.append(reason.as_str());
                    Some(message)
                },
            };
            self.finish(error);
        }
    }
}

// ---------------------------------------------------------------------------
// Laws
// ---------------------------------------------------------------------------

/// Only one job runs at a time: while one is in flight, starting another
/// changes nothing.
pub proof fn law_single_flight(channel: Channel, label: Seq<char>, spawned: Spawned)
    requires
        channel.running is Some,
    ensures
        launched(channel, label, spawned) == channel,
{
}

/// A host task is remembered only while the job that it runs is in flight.
pub proof fn law_task_runs_a_job(network: Network)
    ensures
        network@.task is Some ==> network@.running is Some,
{
}

/// A job that a thread ran leaves its own label and result as the outcome, and
/// nothing running.
pub proof fn law_thread_reports(channel: Channel, label: Seq<char>, error: Option<String>)
    requires
        channel.running is None,
    ensures
        collected(launched(channel, label, Spawned::Thread), Poll::Ended(error)) == (Channel {
            running: None,
            task: None,
            done: Some(Report { label, error: error.deep_view() }),
        }),
{
}

/// A job whose thread is gone without a result has failed, and runs no longer.
pub proof fn law_stopped_thread_fails(channel: Channel, label: Seq<char>)
    requires
        channel.running is None,
    ensures
        collected(launched(channel, label, Spawned::Thread), Poll::Stopped) == (Channel {
            running: None,
            task: None,
            done: Some(Report { label, error: Some(STOPPED@) }),
        }),
{
}

/// The outcome of a job that a host task ran is how its steps ended: what the
/// task gives back as bytes says neither more nor less.
pub proof fn law_task_reports(
    channel: Channel,
    label: Seq<char>,
    id: u64,
    job: crate::job::Job,
    outputs: Seq<StepOutput>,
    error: Option<Seq<char>>,
    output: Vec<u8>,
)
    requires
        channel.running is None,
        crate::steps::standing(job.steps, outputs) == Standing::Done(error),
        crate::job::task_standing(job, outputs) == TaskStanding::Done(output@),
    ensures
        notified(
            launched(channel, label, Spawned::Task(id)),
            id,
            TaskEvent::Done(Ok(output)),
        ) == (Channel { running: None, task: None, done: Some(Report { label, error }) }),
{
    crate::job::law_end_survives(job, outputs, error);
}

/// News of a task that does not run the job, and news that is not an end,
/// change nothing.
pub proof fn law_other_events_change_nothing(channel: Channel, id: u64, event: TaskEvent)
    requires
        channel.task != Some(id) || event is Progress,
    ensures
        notified(channel, id, event) == channel,
{
}

/// An outcome is taken once: until another job ends, there is none to take.
pub proof fn law_outcome_taken_once(channel: Channel, poll: Poll)
    ensures
        collected(drained(collected(channel, poll)), Poll::Pending).done is None,
{
}

/// A job in flight stays in flight until it ends: finding its thread still at
/// work changes nothing.
pub proof fn law_pending_changes_nothing(channel: Channel)
    ensures
        collected(channel, Poll::Pending) == channel,
{
}

/// A job that has been started is in flight, under its own label and task, and
/// still is when its thread is found at work. What came of the job before it
/// waits to be taken.
pub proof fn law_started_job_is_in_flight(
    channel: Channel,
    label: Seq<char>,
    id: u64,
)
    requires
        channel.running is None,
    ensures
        ({
            let thread = collected(launched(channel, label, Spawned::Thread), Poll::Pending);
            let task = collected(launched(channel, label, Spawned::Task(id)), Poll::Pending);
            &&& thread.running == Some(label)
            &&& thread.task is None
            &&& thread.done == channel.done
            &&& task.running == Some(label)
            &&& task.task == Some(id)
            &&& task.done == channel.done
        }),
{
}

/// A job that nothing runs leaves everything as it was.
pub proof fn law_failed_start_changes_nothing(channel: Channel, label: Seq<char>)
    ensures
        launched(channel, label, Spawned::Failed) == channel,
{
}

/// The end of a thread ends the job in flight, whichever it is: its label and
/// result become the outcome, and nothing is running.
pub proof fn law_thread_end_ends_job(channel: Channel, label: Seq<char>, error: Option<String>)
    requires
        channel.running == Some(label),
    ensures
        ({
            let ended = collected(channel, Poll::Ended(error));
            &&& ended.running is None
            &&& ended.task is None
            &&& ended.done matches Some(report)
            &&& report.label == label
            &&& error is None ==> report.error is None
            &&& error matches Some(message) ==> report.error == Some(message@)
        }),
        ({
            let stopped = collected(channel, Poll::Stopped);
            &&& stopped.running is None
            &&& stopped.task is None
            &&& stopped.done matches Some(report)
            &&& report.label == label
            &&& report.error == Some("git: the job stopped"@)
        }),
{
}

/// Without a job in flight there is none to end: no news of a thread or a task
/// changes anything.
pub proof fn law_no_job_no_outcome(channel: Channel, poll: Poll, id: u64, event: TaskEvent)
    requires
        channel.running is None,
    ensures
        collected(channel, poll) == channel,
        notified(channel, id, event) == channel,
{
}

/// The end of the task that runs the job ends the job, under its own label. No
/// output is success; an output is the message of the failure, in UTF-8; and a
/// task that stopped, whatever its id, is a failure that says why.
pub proof fn law_task_end_ends_job(
    channel: Channel,
    label: Seq<char>,
    id: u64,
    result: Result<Vec<u8>, String>,
)
    requires
        channel.running == Some(label),
        channel.task == Some(id),
    ensures
        ({
            let ended = notified(channel, id, TaskEvent::Done(result));
            &&& ended.running is None
            &&& ended.task is None
            &&& ended.done matches Some(report)
            &&& report.label == label
            &&& match result {
                Ok(output) => {
                    &&& report.error is None <==> output@.len() == 0
                    &&& output@.len() > 0 && valid_utf8(output@) ==> report.error == Some(
                        decode_utf8(output@),
                    )
                    &&& !valid_utf8(output@) ==> report.error == Some(
                        crate::job::lossy_text(output@),
                    )
                },
                Err(reason) => report.error == Some("git: "@ + reason@),
            }
        }),
{
}

/// A task that stops fails the job it was started for.
pub proof fn law_stopped_task_fails(
    channel: Channel,
    label: Seq<char>,
    id: u64,
    reason: String,
)
    requires
        channel.running is None,
    ensures
        notified(
            launched(channel, label, Spawned::Task(id)),
            id,
            TaskEvent::Done(Err(reason)),
        ) == (Channel {
            running: None,
            task: None,
            done: Some(Report { label, error: Some("git: "@ + reason@) }),
        }),
{
}

/// Taking the outcome leaves the job in flight alone: it still reports when it
/// ends, by its thread or by its task.
pub proof fn law_taking_leaves_job(
    channel: Channel,
    label: Seq<char>,
    error: Option<String>,
    id: u64,
    result: Result<Vec<u8>, String>,
)
    requires
        channel.running == Some(label),
    ensures
        drained(channel).running == Some(label),
        drained(channel).task == channel.task,
        drained(channel).done is None,
        collected(drained(channel), Poll::Ended(error)).done == Some(
            Report { label, error: error.deep_view() },
        ),
        channel.task == Some(id) ==> notified(drained(channel), id, TaskEvent::Done(result))
            == notified(channel, id, TaskEvent::Done(result)),
{
}

/// Taking the outcome of an idle channel leaves it idle, with none to take.
pub proof fn law_taking_from_idle(channel: Channel)
    requires
        channel.running is None,
    ensures
        drained(channel).running is None,
        drained(channel).task == channel.task,
        drained(channel).done is None,
{
}

/// An outcome says the label and the result that it holds.
pub proof fn law_outcome_view(outcome: Outcome)
    ensures
        outcome@.label == outcome.label@,
        outcome.error is None <==> outcome@.error is None,
        outcome.error matches Some(message) ==> outcome@.error == Some(message@),
{
}

} // verus!
