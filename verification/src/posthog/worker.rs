//! The one task that owns the queue. Nothing else touches the queue file: a
//! [`Msg`] is sent to this worker, and it handles each one in turn, so a
//! capture, a flush, and an opt-out can never interleave on disk.
//!
//! What the worker does about a message is decided here, one [`Task`] at a time;
//! whoever runs the worker carries the task out and reports back what came of
//! it.

use std::time::{Duration, Instant};

use crate::clock;
use crate::posthog::event;
use crate::posthog::event::{Base, Event};
use crate::posthog::identity;
use crate::posthog::send;
use crate::posthog::send::Backoff;
use crate::text;

use vstd::prelude::*;

verus! {

/// The queue file's name inside the app's data directory.
pub const QUEUE_FILE: &'static str = "posthog-queue.jsonl";

/// How often an exit looks again at a full channel, in nanoseconds: 10
/// milliseconds, or what is left of its limit if that is less.
pub const EXIT_RETRY: u128 = 10_000_000;

/// What the worker is asked to do.
pub enum Msg {
    Capture(Event),
    /// Flush now if the backoff allows.
    Flush,
    SetOptOut(bool),
    IsOptedOut,
}

/// Everything the worker needs that comes from the configuration and the app.
pub struct Settings {
    pub api_key: String,
    pub host: String,
    pub flush_at: usize,
    pub app_version: String,
    pub lib_version: &'static str,
    pub os: &'static str,
    pub platform: &'static str,
}

/// What the app's data directory holds when the worker starts.
pub struct Found {
    /// The text of the install's id file, if it could be read.
    pub saved_id: Option<String>,
    /// Whether the opt-out marker was found.
    pub marker: Result<bool, String>,
}

/// What is done before the first message is handled.
pub struct Startup {
    /// The install's id is new and is to be saved.
    pub save_id: bool,
    /// The queue is to be cleared.
    pub clear_queue: bool,
}

/// What the worker does next.
pub enum Task {
    /// Nothing more.
    Rest,
    /// Queue the event, and report the queue's length with
    /// [`Worker::captured`].
    Push(Event),
    /// Count the queue, and report its length with [`Worker::try_flush`].
    Count,
    /// Flush the queue, and report how it went with [`Worker::flushed`].
    Send,
    /// Save the choice first, so an opt-out survives even if the clear fails,
    /// and then clear the queue, if it is an opt-out.
    SaveOptOut { out: bool, clear: bool },
    /// Answer whether the install has opted out.
    Answer(bool),
}

/// What a task says.
pub enum TaskView {
    Rest,
    Push(event::EventView),
    Count,
    Send,
    SaveOptOut { out: bool, clear: bool },
    Answer(bool),
}

impl View for Task {
    type V = TaskView;

    open spec fn view(&self) -> TaskView {
        match self {
            Task::Rest => TaskView::Rest,
            Task::Push(event) => TaskView::Push(event@),
            Task::Count => TaskView::Count,
            Task::Send => TaskView::Send,
            Task::SaveOptOut { out, clear } => TaskView::SaveOptOut { out: *out, clear: *clear },
            Task::Answer(out) => TaskView::Answer(*out),
        }
    }
}

/// How a flush ended.
pub enum Flushed {
    /// Everything was sent, so many events.
    Sent(usize),
    /// It stopped with an error.
    Failed(String),
    /// It did not finish.
    Unfinished(String),
}

/// The worker, less its queue and its network.
pub struct Worker {
    /// Whether there is a data directory, and a queue in it. There is none when
    /// the app's data directory could not be resolved or created, which turns
    /// capture into a no-op rather than an error.
    pub storing: bool,
    pub host: String,
    pub api_key: String,
    pub base: Base,
    pub backoff: Backoff,
    pub flush_at: usize,
    pub opted_out: bool,
}

/// The worker takes an event: it queues it, unless the install opted out or
/// there is nowhere to put it.
pub open spec fn capture_task(worker: Worker, event: event::EventView) -> TaskView {
    if worker.opted_out || !worker.storing {
        TaskView::Rest
    } else {
        TaskView::Push(event::captured(worker.base, event))
    }
}

/// The worker looks whether there is something to send.
pub open spec fn due_task(worker: Worker) -> TaskView {
    if worker.opted_out || !worker.storing {
        TaskView::Rest
    } else {
        TaskView::Count
    }
}

/// The worker sends so many queued events, unless there are none, the install
/// opted out, or a recent failure is still being waited out at `now`.
pub open spec fn flush_task(worker: Worker, queued: usize, now: Instant) -> TaskView {
    if worker.opted_out || !worker.storing || queued == 0 || worker.backoff.wait_at(now) > 0 {
        TaskView::Rest
    } else {
        TaskView::Send
    }
}

/// The worker changes its mind about being watched.
pub open spec fn opt_out_task(worker: Worker, out: bool) -> TaskView {
    if worker.storing {
        TaskView::SaveOptOut { out, clear: out }
    } else {
        TaskView::Rest
    }
}

/// What the worker does about a message.
pub open spec fn task_for(worker: Worker, msg: Msg) -> TaskView {
    match msg {
        Msg::Capture(event) => capture_task(worker, event@),
        Msg::Flush => due_task(worker),
        Msg::SetOptOut(out) => opt_out_task(worker, out),
        Msg::IsOptedOut => TaskView::Answer(worker.opted_out),
    }
}

/// The worker after a message.
pub open spec fn after_msg(worker: Worker, msg: Msg) -> Worker {
    match msg {
        Msg::SetOptOut(out) => Worker { opted_out: out, ..worker },
        _ => worker,
    }
}

impl Worker {
    /// Starts from what the app's data directory holds, if there is one. An
    /// opt-out found there also clears the queue, in case a clear after an
    /// earlier opt-out never happened, so nothing an opted-out user left behind
    /// is ever sent.
    #[must_use]
    pub fn new(settings: Settings, found: Option<Found>) -> (r: (Worker, Startup))
        ensures
            r.0.storing == found is Some,
            r.0.host == settings.host,
            r.0.api_key == settings.api_key,
            r.0.flush_at == settings.flush_at,
            r.0.backoff.last_failure() is None,
            r.0.backoff.next_wait() == send::INITIAL_BACKOFF,
            r.0.base == (Base {
                distinct_id: r.0.base.distinct_id,
                lib_version: settings.lib_version,
                app_version: settings.app_version,
                os: settings.os,
                platform: settings.platform,
            }),
            r.0.opted_out == (found matches Some(f) && f.marker == Ok::<bool, String>(true)),
            r.1.clear_queue == r.0.opted_out,
            found is None ==> r.0.base.distinct_id@.len() == 0 && !r.1.save_id,
            found matches Some(f) ==> {
                let kept = match f.saved_id {
                    Some(saved) => identity::canonical_uuid(text::trimmed(saved@)),
                    None => None,
                };
                &&& r.1.save_id == kept is None
                &&& kept matches Some(id) ==> r.0.base.distinct_id@ == id
                &&& kept is None ==> event::is_v4_uuid(r.0.base.distinct_id@)
                &&& kept is None ==> call_ensures(event::new_uuid, (), r.0.base.distinct_id)
            },
    {
        let storing = found.is_some();
        let (distinct_id, save_id, opted_out) = match found {
            Some(found) => {
                let install = match &found.saved_id {
                    Some(saved) => identity::install_id(Some(saved.as_str())),
                    None => identity::install_id(None),
                };
                (install.id, install.save, identity::opted_out(found.marker))
            },
            None => (String::new(), false, false),
        };
        let worker = Worker {
            storing,
            host: settings.host,
            api_key: settings.api_key,
            base: Base {
                distinct_id,
                lib_version: settings.lib_version,
                app_version: settings.app_version,
                os: settings.os,
                platform: settings.platform,
            },
            backoff: Backoff::new(),
            flush_at: settings.flush_at,
            opted_out,
        };
        (worker, Startup { save_id, clear_queue: opted_out })
    }

    /// Takes one message. Its task, and whatever that leads to, is carried out
    /// to completion, flush included, before the next message is looked at: that
    /// ordering is what keeps the queue file single-owner.
    pub fn handle(&mut self, msg: Msg) -> (task: Task)
        ensures
            *final(self) == after_msg(*old(self), msg),
            task@ == task_for(*old(self), msg),
            msg matches Msg::Capture(event) ==> call_ensures(
                Worker::capture,
                (&*old(self), event),
                task,
            ) && *final(self) == *old(self),
            msg is Flush ==> call_ensures(Worker::due, (&*old(self),), task) && *final(self)
                == *old(self),
            msg matches Msg::SetOptOut(out) ==> *final(self) == (Worker {
                opted_out: out,
                ..*old(self)
            }) && if old(self).storing {
                task == (Task::SaveOptOut { out, clear: out })
            } else {
                task is Rest
            },
            msg is IsOptedOut ==> task == Task::Answer(old(self).opted_out) && *final(self)
                == *old(self),
    {
        match msg {
            Msg::Capture(event) => self.capture(event),
            Msg::Flush => self.due(),
            Msg::SetOptOut(out) => self.set_opt_out(out),
            Msg::IsOptedOut => Task::Answer(self.opted_out),
        }
    }

    /// Queues `event`, with what the worker knows about the install and the app
    /// merged in.
    pub fn capture(&self, event: Event) -> (task: Task)
        ensures
            task@ == capture_task(*self, event@),
            self.opted_out || !self.storing ==> task is Rest,
            !self.opted_out && self.storing ==> (task matches Task::Push(queued) && call_ensures(
                Event::captured_with,
                (event, &self.base),
                queued,
            )),
    {
        if self.opted_out || !self.storing {
            return Task::Rest;
        }
        Task::Push(event.captured_with(&self.base))
    }

    /// After an event was queued, with so many in the queue now: flushes once
    /// there are enough of them. An event that was not queued — too large for
    /// the queue, or the file could not be written — is dropped.
    pub fn captured(&self, queued: Option<usize>) -> (task: Task)
        ensures
            queued is None ==> task is Rest,
            queued matches Some(n) ==> {
                &&& n >= self.flush_at ==> call_ensures(Worker::try_flush, (self, n), task)
                &&& n < self.flush_at ==> task is Rest
                &&& n >= self.flush_at ==> exists|now: Instant| task@ == #[trigger] flush_task(
                    *self,
                    n,
                    now,
                )
            },
    {
        match queued {
            Some(n) => if n >= self.flush_at {
                self.try_flush(n)
            } else {
                Task::Rest
            },
            None => Task::Rest,
        }
    }

    /// As [`Worker::captured`], at `now` rather than at the real clock's time.
    pub fn captured_at(&self, now: Instant, queued: Option<usize>) -> (task: Task)
        ensures
            task@ == (if queued matches Some(n) && n >= self.flush_at {
                flush_task(*self, queued->0, now)
            } else {
                TaskView::Rest
            }),
            queued matches Some(n) && n >= self.flush_at ==> call_ensures(
                Worker::try_flush_at,
                (self, now, queued->0),
                task,
            ),
            !(queued matches Some(n) && n >= self.flush_at) ==> task is Rest,
    {
        match queued {
            Some(n) => if n >= self.flush_at {
                self.try_flush_at(now, n)
            } else {
                Task::Rest
            },
            None => Task::Rest,
        }
    }

    /// What the worker does when it starts, on every tick, and when it is asked
    /// for a flush.
    pub fn due(&self) -> (task: Task)
        ensures
            task@ == due_task(*self),
            task is Count <==> self.storing && !self.opted_out,
            task is Rest <==> !self.storing || self.opted_out,
    {
        if self.opted_out || !self.storing {
            Task::Rest
        } else {
            Task::Count
        }
    }

    /// Persists first, so an opt-out survives even if the clear fails; the next
    /// start clears whatever this one could not.
    pub fn set_opt_out(&mut self, out: bool) -> (task: Task)
        ensures
            *final(self) == (Worker { opted_out: out, ..*old(self) }),
            task@ == opt_out_task(*old(self), out),
            old(self).storing ==> task == (Task::SaveOptOut { out, clear: out }),
            !old(self).storing ==> task is Rest,
    {
        self.opted_out = out;
        if self.storing {
            Task::SaveOptOut { out, clear: out }
        } else {
            Task::Rest
        }
    }

    /// Sends the queue, of so many events, unless there is nothing to send, the
    /// install opted out, or a recent failure is still being waited out.
    pub fn try_flush(&self, queued: usize) -> (task: Task)
        ensures
            exists|now: Instant| task@ == #[trigger] flush_task(*self, queued, now),
            task is Send || task is Rest,
            exists|now: Instant|
                {
                    &&& #[trigger] call_ensures(clock::read, (), now)
                    &&& call_ensures(Worker::try_flush_at, (self, now, queued), task)
                },
    {
        let now = clock::read();
        let task = self.try_flush_at(now, queued);
        assert(task@ == flush_task(*self, queued, now));
        task
    }

    /// As [`Worker::try_flush`], at `now` rather than at the real clock's time.
    pub fn try_flush_at(&self, now: Instant, queued: usize) -> (task: Task)
        ensures
            task@ == flush_task(*self, queued, now),
            task is Send || task is Rest,
            task is Send <==> {
                &&& self.storing
                &&& !self.opted_out
                &&& queued > 0
                &&& self.backoff.last_failure() matches Some((since, waits)) ==> clock::nanos_since(
                    now,
                    since,
                ) >= waits
            },
    {
        if self.opted_out || !self.storing || queued == 0 {
            return Task::Rest;
        }
        let wait = self.backoff.ready_in_at(now);
        if clock::as_nanos(&wait) > 0 {
            return Task::Rest;
        }
        Task::Send
    }

    /// After a flush. One that failed, or did not finish, is waited out: it
    /// counts as one more failure rather than the end of the worker. Returns how
    /// long the wait is.
    pub fn flushed(&mut self, outcome: Flushed) -> (wait: Option<Duration>)
        ensures
            *final(self) == (Worker { backoff: final(self).backoff, ..*old(self) }),
            wait is None <==> outcome is Sent,
            outcome is Sent ==> final(self).backoff.last_failure() is None
                && final(self).backoff.next_wait() == send::INITIAL_BACKOFF,
            wait matches Some(w) ==> {
                &&& clock::nanos(w) == old(self).backoff.next_wait()
                &&& final(self).backoff.next_wait() == send::doubled(old(self).backoff.next_wait())
                &&& final(self).backoff.last_failure() matches Some((_, waits)) && waits
                    == old(self).backoff.next_wait()
                &&& final(self).backoff.last_failure() matches Some((at, _)) && call_ensures(
                    clock::read,
                    (),
                    at,
                )
            },
    {
        self.flushed_at(clock::read(), outcome)
    }

    /// As [`Worker::flushed`], at `now` rather than at the real clock's time.
    pub fn flushed_at(&mut self, now: Instant, outcome: Flushed) -> (wait: Option<Duration>)
        ensures
            *final(self) == (Worker { backoff: final(self).backoff, ..*old(self) }),
            wait is None <==> outcome is Sent,
            outcome is Sent ==> final(self).backoff.last_failure() is None
                && final(self).backoff.next_wait() == send::INITIAL_BACKOFF,
            wait matches Some(w) ==> {
                &&& clock::nanos(w) == old(self).backoff.next_wait()
                &&& final(self).backoff.next_wait() == send::doubled(old(self).backoff.next_wait())
                &&& final(self).backoff.last_failure() == Some((now, old(self).backoff.next_wait()))
            },
    {
        match outcome {
            Flushed::Sent(_) => {
                self.backoff.succeeded();
                None
            },
            _ => Some(self.backoff.failed_at(now)),
        }
    }
}

/// How handing the worker its last message went.
#[derive(Debug, Clone, Copy, PartialEq, Eq, Structural)]
pub enum Handed {
    /// The worker has it.
    Sent,
    /// There is no worker any more.
    Closed,
    /// There is no room for it yet.
    Full,
}

/// What an exit does next.
pub enum Exit {
    /// Wait at most so long for the flush to finish.
    Wait(Duration),
    /// Try again after so long.
    Retry(Duration),
    /// Exit.
    Leave,
}

/// What an exit says, with its times in nanoseconds.
pub enum ExitView {
    Wait(u128),
    Retry(u128),
    Leave,
}

impl View for Exit {
    type V = ExitView;

    open spec fn view(&self) -> ExitView {
        match self {
            Exit::Wait(span) => ExitView::Wait(clock::nanos(*span)),
            Exit::Retry(span) => ExitView::Retry(clock::nanos(*span)),
            Exit::Leave => ExitView::Leave,
        }
    }
}

/// What an exit does with so many nanoseconds of its limit left: it waits for
/// the flush as long as there is time, looks again at a full channel as often as
/// [`EXIT_RETRY`] says and once more when the time is up, and leaves a worker
/// that is gone.
pub open spec fn exit_step(handed: Handed, left: u128) -> ExitView {
    match handed {
        Handed::Sent => ExitView::Wait(left),
        Handed::Closed => ExitView::Leave,
        Handed::Full => if left == 0 {
            ExitView::Leave
        } else if left < EXIT_RETRY {
            ExitView::Retry(left)
        } else {
            ExitView::Retry(EXIT_RETRY)
        },
    }
}

/// Asks the worker for one last flush and waits for it at most `limit`, start to
/// finish: says what to do at `now`, after an exit that `started` earlier tried
/// to hand the worker the message. Whatever is unsent when the time runs out
/// stays on disk for the next launch.
pub fn flush_before_exit(
    started: Instant,
    limit: Duration,
    now: Instant,
    handed: Handed,
) -> (exit: Exit)
    ensures
        exit@ == exit_step(
            handed,
            clock::remaining(clock::nanos(limit), clock::nanos_since(now, started)),
        ),
        ({
            let spent = clock::nanos_since(now, started);
            let whole = clock::nanos(limit);
            match handed {
                Handed::Sent => exit matches Exit::Wait(d) && clock::nanos(d) == if spent < whole {
                    whole - spent
                } else {
                    0
                },
                Handed::Closed => exit is Leave,
                Handed::Full => if spent >= whole {
                    exit is Leave
                } else {
                    exit matches Exit::Retry(d) && clock::nanos(d) == if whole - spent
                        < 10_000_000 {
                        whole - spent
                    } else {
                        10_000_000
                    }
                },
            }
        }),
{
    let whole: u128 = clock::as_nanos(&limit);
    let spent: u128 = clock::elapsed_nanos(&now, &started);
    let left: u128 = if spent >= whole {
        0
    } else {
        whole - spent
    };
    match handed {
        Handed::Sent => Exit::Wait(clock::span_of_nanos(left)),
        Handed::Closed => Exit::Leave,
        Handed::Full => if left == 0 {
            Exit::Leave
        } else if left < EXIT_RETRY {
            Exit::Retry(clock::span_of_nanos(left))
        } else {
            Exit::Retry(clock::span_of_nanos(EXIT_RETRY))
        },
    }
}

/// An exit is over within its limit: neither a wait for the flush nor a pause
/// before a full channel is tried again reaches past it, a pause is never empty,
/// and once the limit is spent there is no further pause.
pub proof fn law_an_exit_stays_within_its_limit(handed: Handed, limit: u128, spent: u128)
    ensures
        ({
            let step = exit_step(handed, clock::remaining(limit, spent));
            &&& step matches ExitView::Wait(pause) ==> pause == 0 || spent + pause <= limit
            &&& step matches ExitView::Retry(pause) ==> 0 < pause && spent + pause <= limit
            &&& spent >= limit ==> step == ExitView::Leave || step == ExitView::Wait(0)
        }),
{
}

/// The worker after a run of messages.
pub open spec fn after_msgs(worker: Worker, msgs: Seq<Msg>) -> Worker
    decreases msgs.len(),
{
    if msgs.len() == 0 {
        worker
    } else {
        after_msg(after_msgs(worker, msgs.drop_last()), msgs.last())
    }
}

/// A message that leaves the choice about being watched as it is.
pub open spec fn is_not_a_choice(msg: Msg) -> bool {
    !(msg is SetOptOut)
}

/// Messages change nothing about the worker but the choice.
proof fn lemma_after_msgs(worker: Worker, msgs: Seq<Msg>)
    ensures
        after_msgs(worker, msgs) == (Worker {
            opted_out: after_msgs(worker, msgs).opted_out,
            ..worker
        }),
    decreases msgs.len(),
{
    if msgs.len() > 0 {
        lemma_after_msgs(worker, msgs.drop_last());
    }
}

/// Once the install has opted out, nothing it does is queued or sent, whatever
/// the worker is asked for and however much is queued, until it opts back in.
pub proof fn law_an_opted_out_install_is_left_alone(
    worker: Worker,
    msgs: Seq<Msg>,
    msg: Msg,
    queued: usize,
    now: Instant,
)
    requires
        worker.opted_out,
        forall|i: int| 0 <= i < msgs.len() ==> #[trigger] msgs[i] != Msg::SetOptOut(false),
    ensures
        after_msgs(worker, msgs).opted_out,
        !(task_for(after_msgs(worker, msgs), msg) is Push),
        !(task_for(after_msgs(worker, msgs), msg) is Count),
        !(task_for(after_msgs(worker, msgs), msg) is Send),
        flush_task(after_msgs(worker, msgs), queued, now) is Rest,
    decreases msgs.len(),
{
    if msgs.len() > 0 {
        let last = msgs.last();
        assert(msgs[msgs.len() - 1] == last);
        law_an_opted_out_install_is_left_alone(worker, msgs.drop_last(), msg, queued, now);
    }
}

/// Opting out clears the queue, and opting back in does not; either is saved.
pub proof fn law_a_choice_is_saved_and_an_opt_out_clears(worker: Worker, out: bool)
    requires
        worker.storing,
    ensures
        task_for(worker, Msg::SetOptOut(out)) == (TaskView::SaveOptOut { out, clear: out }),
        after_msg(worker, Msg::SetOptOut(out)).opted_out == out,
{
}

/// Asked whether the install has opted out, the worker answers with the last
/// choice that was made, whatever else it was asked for since.
pub proof fn law_the_last_choice_is_the_answer(
    worker: Worker,
    earlier: Seq<Msg>,
    out: bool,
    since: Seq<Msg>,
)
    requires
        forall|i: int| 0 <= i < since.len() ==> is_not_a_choice(#[trigger] since[i]),
    ensures
        task_for(
            after_msgs(worker, earlier.push(Msg::SetOptOut(out)) + since),
            Msg::IsOptedOut,
        ) == TaskView::Answer(out),
    decreases since.len(),
{
    let chosen = earlier.push(Msg::SetOptOut(out));
    if since.len() == 0 {
        assert(chosen + since =~= chosen);
        assert(chosen.drop_last() =~= earlier);
    } else {
        let last = since.last();
        assert(is_not_a_choice(since[since.len() - 1]));
        law_the_last_choice_is_the_answer(worker, earlier, out, since.drop_last());
        assert((chosen + since).drop_last() =~= chosen + since.drop_last());
        assert((chosen + since).last() == last);
    }
}

/// With no data directory nothing is queued, sent or saved, and every question
/// is still answered.
pub proof fn law_without_a_data_directory_there_is_only_the_answer(
    worker: Worker,
    msgs: Seq<Msg>,
    msg: Msg,
    queued: usize,
    now: Instant,
)
    requires
        !worker.storing,
    ensures
        task_for(after_msgs(worker, msgs), msg) == if msg is IsOptedOut {
            TaskView::Answer(after_msgs(worker, msgs).opted_out)
        } else {
            TaskView::Rest
        },
        flush_task(after_msgs(worker, msgs), queued, now) is Rest,
{
    lemma_after_msgs(worker, msgs);
}

/// No request is made while a failure is being waited out, and one is made as
/// soon as it has been, if there is anything to send.
pub proof fn law_a_flush_while_backing_off_makes_no_request(
    worker: Worker,
    since: Instant,
    wait: u128,
    queued: usize,
    now: Instant,
)
    requires
        worker.storing,
        !worker.opted_out,
        worker.backoff.last_failure() == Some((since, wait)),
        queued > 0,
    ensures
        clock::nanos_since(now, since) < wait ==> flush_task(worker, queued, now) is Rest,
        clock::nanos_since(now, since) >= wait ==> flush_task(worker, queued, now) is Send,
{
}

/// Whatever a caller captures, what is queued of it carries the install's
/// anonymous id, asks for no person profile, and holds nothing that would build
/// a person.
pub proof fn law_whatever_is_queued_is_anonymous(worker: Worker, event: event::EventView)
    ensures
        capture_task(worker, event) matches TaskView::Push(queued) ==> {
            &&& queued.uuid == event.uuid && queued.event == event.event && queued.timestamp
                == event.timestamp
            &&& queued.properties["distinct_id"@] == crate::json::string_value(
                worker.base.distinct_id@,
            )
            &&& queued.properties["$process_person_profile"@] == crate::json::bool_value(false)
            &&& forall|key: Seq<char>|
                event::is_identity_property(key)
                    ==> !#[trigger] queued.properties.contains_key(key)
        },
{
    event::law_every_event_is_anonymous(worker.base, event.properties);
}

} // verus!
