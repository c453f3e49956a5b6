//! Sends the queue's events to `PostHog` in batches, and tracks how long to
//! wait after a failed send before trying again.
//!
//! A flush alternates between the queue, the network and what to do next. What
//! to do next is decided here, one [`Step`] at a time; whoever runs the flush
//! takes the step and says what came of it.

use std::time::{Duration, Instant};

use serde_json::Value;

use crate::clock;
use crate::json;
use crate::posthog::event;
use crate::posthog::event::{batch_body, Base, Event};
use crate::posthog::queue;
use crate::posthog::queue::Record;
use crate::text;

use vstd::prelude::*;

verus! {

/// The most events a single request carries.
pub const BATCH: usize = 100;

/// How long a single request is allowed to run before it is treated as a
/// failure, in seconds.
pub const REQUEST_TIMEOUT_SECS: u64 = 10;

/// The most of a response body that is read. `PostHog`'s `/batch` response is a
/// tiny JSON object; anything past this is not worth reading, and never worth
/// logging.
pub const MAX_RESPONSE_BODY: u64 = 4_096;

/// How long the first retry waits after a failed send, in nanoseconds: 30
/// seconds.
pub const INITIAL_BACKOFF: u128 = 30_000_000_000;

/// The longest a retry ever waits, however many failures in a row, in
/// nanoseconds: 10 minutes.
pub const MAX_BACKOFF: u128 = 600_000_000_000;

/// What stands in front of the error of a batch that was sent and could not be
/// removed from the queue.
pub const NOT_REMOVED: &'static str = "sent a batch but could not remove it from the queue: ";

/// Builds the `/batch` endpoint URL for `host`, exactly one slash between them
/// whether `host` ends with a trailing slash or not.
#[must_use]
pub fn batch_url(host: &str) -> (url: String)
    ensures
        url@ == text::without_trailing(host@, '/') + "/batch/"@,
{
    text::join(text::trim_end_matches(host, '/'), "/batch/")
}

/// The text a request carries for `body`.
///
/// # Errors
///
/// Returns what is said of a body that has no text.
pub fn payload(body: &Value) -> (r: Result<String, String>)
    ensures
        r is Ok <==> json::compact_text(*body) is Ok,
        r matches Ok(payload) ==> json::compact_text(*body)->Ok_0 == payload@,
        r matches Err(e) ==> json::compact_text(*body)->Err_0 == e@,
{
    json::to_text(body)
}

/// What a flush does next.
pub enum Step {
    /// Read at most this many of the oldest events from the queue.
    Peek(usize),
    /// Post the body to the URL.
    Post { url: String, body: Value },
    /// Remove this many of the oldest events from the queue.
    DropFront(usize),
    /// Stop: everything was sent, so many events, or something failed.
    Done(Result<usize, String>),
}

/// What a step says.
pub enum StepView {
    Peek(int),
    Post { url: Seq<char>, body: Value },
    DropFront(int),
    Sent(int),
    Failed(Seq<char>),
}

impl View for Step {
    type V = StepView;

    open spec fn view(&self) -> StepView {
        match self {
            Step::Peek(n) => StepView::Peek(*n as int),
            Step::Post { url, body } => StepView::Post { url: url@, body: *body },
            Step::DropFront(n) => StepView::DropFront(*n as int),
            Step::Done(Ok(n)) => StepView::Sent(*n as int),
            Step::Done(Err(e)) => StepView::Failed(e@),
        }
    }
}

/// One flush of the queue: everything currently in it is sent, in batches of at
/// most [`BATCH`] events. It stops on the first failed batch, leaving it and
/// everything after it queued; each batch that posted successfully is removed
/// from the queue before the next one is sent.
pub struct Flush {
    /// Where batches are posted.
    pub url: String,
    /// How many events were sent and removed.
    pub sent: usize,
    /// How many events are in the batch that is being sent.
    pub in_flight: usize,
}

/// How far a flush has come.
pub struct FlushView {
    pub url: Seq<char>,
    pub sent: int,
    pub in_flight: int,
}

impl View for Flush {
    type V = FlushView;

    open spec fn view(&self) -> FlushView {
        FlushView { url: self.url@, sent: self.sent as int, in_flight: self.in_flight as int }
    }
}

/// A flush that has sent nothing yet.
pub open spec fn starting(host: Seq<char>) -> FlushView {
    FlushView { url: text::without_trailing(host, '/') + "/batch/"@, sent: 0, in_flight: 0 }
}

/// After the oldest events were read: they are posted, or there are none and
/// the flush is over.
pub open spec fn after_peek(
    flush: FlushView,
    api_key: Seq<char>,
    base: Base,
    batch: Seq<event::EventView>,
) -> (FlushView, StepView) {
    if batch.len() == 0 {
        (flush, StepView::Sent(flush.sent))
    } else {
        (
            FlushView { in_flight: batch.len() as int, ..flush },
            StepView::Post { url: flush.url, body: event::batch_value(api_key, base, batch) },
        )
    }
}

/// After the post: the batch is removed, or the flush fails with the post's
/// error.
pub open spec fn after_post(flush: FlushView, error: Option<Seq<char>>) -> (FlushView, StepView) {
    match error {
        None => (flush, StepView::DropFront(flush.in_flight)),
        Some(e) => (flush, StepView::Failed(e)),
    }
}

/// After the removal: the batch counts as sent and the next one is read, or the
/// flush fails.
pub open spec fn after_drop(flush: FlushView, error: Option<Seq<char>>) -> (FlushView, StepView) {
    match error {
        None => (
            FlushView { sent: flush.sent + flush.in_flight, in_flight: 0, ..flush },
            StepView::Peek(BATCH as int),
        ),
        Some(e) => (flush, StepView::Failed(NOT_REMOVED@ + e)),
    }
}

/// The error of an outcome, if it is one.
pub open spec fn error_of(outcome: Result<(), String>) -> Option<Seq<char>> {
    match outcome {
        Ok(_) => None,
        Err(e) => Some(e@),
    }
}

/// Starts a flush to `{host}/batch/` (see [`batch_url`]). Its first step is to
/// read the queue.
#[must_use]
pub fn flush(host: &str) -> (r: (Flush, Step))
    ensures
        r.0@ == starting(host@),
        r.1@ == StepView::Peek(BATCH as int),
        r.0.url@ == text::without_trailing(host@, '/') + "/batch/"@,
        r.0.sent == 0,
        r.0.in_flight == 0,
        r.1 matches Step::Peek(n) && n == 100,
{
    (Flush { url: batch_url(host), sent: 0, in_flight: 0 }, Step::Peek(BATCH))
}

impl Flush {
    /// Says what to do with the oldest events, as they were read from the
    /// queue.
    pub fn peeked(&mut self, api_key: &str, base: &Base, batch: &[Event]) -> (step: Step)
        ensures
            (final(self)@, step@) == after_peek(
                old(self)@,
                api_key@,
                *base,
                event::views(batch@),
            ),
            final(self).url@ == old(self).url@,
            final(self).sent == old(self).sent,
            batch@.len() == 0 ==> {
                &&& step matches Step::Done(Ok(sent)) && sent == old(self).sent
                &&& final(self).in_flight == old(self).in_flight
            },
            batch@.len() > 0 ==> {
                &&& step matches Step::Post { url, body } && url@ == old(self).url@ && call_ensures(
                    batch_body,
                    (api_key, base, batch),
                    body,
                )
                &&& final(self).in_flight == batch@.len()
            },
    {
        if batch.len() == 0 {
            return Step::Done(Ok(self.sent));
        }
        self.in_flight = batch.len();
        Step::Post { url: self.url.clone(), body: batch_body(api_key, base, batch) }
    }

    /// Says what to do after a post that succeeded, or failed with an error.
    pub fn posted(&mut self, outcome: Result<(), String>) -> (step: Step)
        ensures
            (final(self)@, step@) == after_post(old(self)@, error_of(outcome)),
            *final(self) == *old(self),
            outcome is Ok ==> (step matches Step::DropFront(n) && n == old(self).in_flight),
            outcome matches Err(e) ==> (step matches Step::Done(Err(said)) && said@ == e@),
    {
        match outcome {
            Ok(()) => Step::DropFront(self.in_flight),
            Err(e) => Step::Done(Err(e)),
        }
    }

    /// Says what to do after the batch was removed from the queue, or could not
    /// be. In the latter case the events stay queued and will be resent, which
    /// `PostHog` de-duplicates by `uuid`.
    pub fn dropped(&mut self, outcome: Result<(), String>) -> (step: Step)
        requires
            old(self).sent + old(self).in_flight <= usize::MAX,
        ensures
            (final(self)@, step@) == after_drop(old(self)@, error_of(outcome)),
            final(self).url@ == old(self).url@,
            outcome is Ok ==> {
                &&& step matches Step::Peek(n) && n == 100
                &&& final(self).sent == old(self).sent + old(self).in_flight
                &&& final(self).in_flight == 0
            },
            outcome matches Err(e) ==> {
                &&& step matches Step::Done(Err(said)) && said@
                    == "sent a batch but could not remove it from the queue: "@ + e@
                &&& *final(self) == *old(self)
            },
    {
        match outcome {
            Ok(()) => {
                self.sent += self.in_flight;
                self.in_flight = 0;
                Step::Peek(BATCH)
            },
            Err(e) => Step::Done(Err(text::join(NOT_REMOVED, e.as_str()))),
        }
    }
}

/// Tracks how long to wait before the next retry after a failed send: 30 s on
/// the first failure, doubling on each one after that, capped at 10 minutes.
/// Any success resets it back to no wait at all.
pub struct Backoff {
    /// The wait that the *next* `failed()` call will return and remember, in
    /// nanoseconds.
    next: u128,
    /// When the most recent failure happened, and how many nanoseconds it
    /// decided to wait — `None` once `succeeded()` has reset it, or before any
    /// failure at all.
    waiting_since: Option<(Instant, u128)>,
}

/// The wait after one more failure.
pub open spec fn doubled(wait: u128) -> u128 {
    if 2 * wait <= MAX_BACKOFF {
        (2 * wait) as u128
    } else {
        MAX_BACKOFF
    }
}

impl Backoff {
    /// No wait is past [`MAX_BACKOFF`].
    #[verifier::type_invariant]
    spec fn well_formed(&self) -> bool {
        &&& self.next <= MAX_BACKOFF
        &&& self.waiting_since matches Some((_, wait)) ==> wait <= MAX_BACKOFF
    }

    /// The wait after the next failure, in nanoseconds.
    pub closed spec fn next_wait(&self) -> u128 {
        self.next
    }

    /// When the most recent failure happened, and how many nanoseconds it is
    /// waited out.
    pub closed spec fn last_failure(&self) -> Option<(Instant, u128)> {
        self.waiting_since
    }

    /// How many nanoseconds are still to be waited at `now`.
    pub open spec fn wait_at(&self, now: Instant) -> u128 {
        match self.last_failure() {
            None => 0,
            Some((since, wait)) => clock::remaining(wait, clock::nanos_since(now, since)),
        }
    }

    /// A fresh backoff: no failures yet, so `ready_in()` is zero.
    #[must_use]
    pub fn new() -> (backoff: Backoff)
        ensures
            backoff.next_wait() == INITIAL_BACKOFF,
            backoff.last_failure() is None,
    {
        Backoff { next: INITIAL_BACKOFF, waiting_since: None }
    }

    /// Records a failure now, and returns how long to wait before trying again.
    /// The wait doubles each call, capped at [`MAX_BACKOFF`].
    pub fn failed(&mut self) -> (wait: Duration)
        ensures
            clock::nanos(wait) == old(self).next_wait(),
            final(self).next_wait() == doubled(old(self).next_wait()),
            final(self).last_failure() matches Some((_, waits)) && waits == old(self).next_wait(),
            final(self).last_failure() matches Some((at, _)) && call_ensures(clock::read, (), at),
            final(self).next_wait() == if old(self).next_wait() <= 300_000_000_000 {
                2 * old(self).next_wait()
            } else {
                600_000_000_000
            },
    {
        self.failed_at(clock::read())
    }

    /// As `failed`, but with the failure at `now` rather than at the real
    /// clock's time.
    pub fn failed_at(&mut self, now: Instant) -> (wait: Duration)
        ensures
            clock::nanos(wait) == old(self).next_wait(),
            final(self).next_wait() == doubled(old(self).next_wait()),
            final(self).last_failure() == Some((now, old(self).next_wait())),
            final(self).next_wait() == if old(self).next_wait() <= 300_000_000_000 {
                2 * old(self).next_wait()
            } else {
                600_000_000_000
            },
    {
        proof {
            use_type_invariant(&*self);
        }
        let wait: u128 = self.next;
        self.waiting_since = Some((now, wait));
        self.next = if wait <= MAX_BACKOFF / 2 {
            2 * wait
        } else {
            MAX_BACKOFF
        };
        clock::span_of_nanos(wait)
    }

    /// Resets the backoff: the next failure will wait [`INITIAL_BACKOFF`]
    /// again, and `ready_in()` is zero until then.
    pub fn succeeded(&mut self)
        ensures
            final(self).next_wait() == INITIAL_BACKOFF,
            final(self).last_failure() is None,
    {
        proof {
            use_type_invariant(&*self);
        }
        self.next = INITIAL_BACKOFF;
        self.waiting_since = None;
    }

    /// How much longer to wait, measured from now, before the next attempt
    /// should be made. Zero once the last recorded wait has elapsed, or when
    /// there has been no failure since the last success.
    #[must_use]
    pub fn ready_in(&self) -> (wait: Duration)
        ensures
            exists|now: Instant| clock::nanos(wait) == #[trigger] self.wait_at(now),
            exists|now: Instant|
                {
                    &&& #[trigger] call_ensures(clock::read, (), now)
                    &&& self.last_failure() matches Some((since, waits)) ==> clock::nanos(wait)
                        == if clock::nanos_since(now, since) < waits {
                        waits - clock::nanos_since(now, since)
                    } else {
                        0
                    }
                },
            self.last_failure() is None ==> clock::nanos(wait) == 0,
            self.last_failure() matches Some((_, waits)) ==> clock::nanos(wait) <= waits,
    {
        let now = clock::read();
        let wait = self.ready_in_at(now);
        assert(clock::nanos(wait) == self.wait_at(now));
        wait
    }

    /// As `ready_in`, but measured from `now` rather than the real clock, so it
    /// can be asked without sleeping.
    #[must_use]
    pub fn ready_in_at(&self, now: Instant) -> (wait: Duration)
        ensures
            clock::nanos(wait) == self.wait_at(now),
            self.last_failure() is None ==> clock::nanos(wait) == 0,
            self.last_failure() matches Some((since, waits)) ==> clock::nanos(wait) == if clock::nanos_since(
                now,
                since,
            ) < waits {
                waits - clock::nanos_since(now, since)
            } else {
                0
            },
    {
        proof {
            use_type_invariant(self);
        }
        match &self.waiting_since {
            None => clock::span_of_nanos(0),
            Some((since, wait)) => {
                let elapsed: u128 = clock::elapsed_nanos(&now, since);
                if elapsed >= *wait {
                    clock::span_of_nanos(0)
                } else {
                    clock::span_of_nanos(*wait - elapsed)
                }
            },
        }
    }
}

impl Default for Backoff {
    fn default() -> (backoff: Backoff)
        ensures
            backoff.next_wait() == INITIAL_BACKOFF,
            backoff.last_failure() is None,
    {
        Backoff::new()
    }
}

/// A whole flush: what was posted, what is left in the queue, and the step it
/// ended with.
pub struct Run {
    pub posts: Seq<StepView>,
    pub left: Seq<Record>,
    pub end: StepView,
}

/// What comes of the posts and removals of a run, counted from 0: with which
/// error, if any, each of them ends.
pub struct Outcomes {
    pub posts: spec_fn(int) -> Option<Seq<char>>,
    pub removals: spec_fn(int) -> Option<Seq<char>>,
}

/// The run of `flush` from here on over a queue of `records`, whose first post
/// is the `k`th of the whole.
pub open spec fn run(
    flush: FlushView,
    records: Seq<Record>,
    api_key: Seq<char>,
    base: Base,
    outcomes: Outcomes,
    k: int,
) -> Run
    decreases records.len(),
{
    let batch = queue::events(records.take(queue::at_most(BATCH, records.len())));
    let (reading, step) = after_peek(flush, api_key, base, batch);
    if step is Post {
        let (posting, next) = after_post(reading, (outcomes.posts)(k));
        match next {
            StepView::DropFront(n) => {
                let (flush, last) = after_drop(posting, (outcomes.removals)(k));
                if last is Peek {
                    let rest = run(flush, records.skip(n), api_key, base, outcomes, k + 1);
                    Run { posts: seq![step] + rest.posts, ..rest }
                } else {
                    Run { posts: seq![step], left: records, end: last }
                }
            },
            end => Run { posts: seq![step], left: records, end },
        }
    } else {
        Run { posts: Seq::empty(), left: records, end: step }
    }
}

/// The error that the `k`th batch of a run stops it with, if any: that of its
/// post, or that of its removal, which is said to be one.
pub open spec fn batch_error(outcomes: Outcomes, k: int) -> Option<Seq<char>> {
    if (outcomes.posts)(k) is Some {
        (outcomes.posts)(k)
    } else {
        match (outcomes.removals)(k) {
            Some(e) => Some(NOT_REMOVED@ + e),
            None => None,
        }
    }
}

/// The posts that carry `records`: runs of [`BATCH`] of them, the last of what
/// is left over.
pub open spec fn posts_of(
    url: Seq<char>,
    records: Seq<Record>,
    api_key: Seq<char>,
    base: Base,
) -> Seq<StepView>
    decreases records.len(),
{
    if records.len() == 0 {
        Seq::empty()
    } else {
        let n = queue::at_most(BATCH, records.len());
        seq![
            StepView::Post {
                url,
                body: event::batch_value(api_key, base, queue::events(records.take(n))),
            },
        ] + posts_of(url, records.skip(n), api_key, base)
    }
}

/// Where no post and no removal fails, a flush sends everything, oldest first
/// and in batches of at most [`BATCH`] events, empties the queue, and says how
/// many events it sent. An empty queue makes no request.
pub proof fn law_a_flush_sends_everything(
    flush: FlushView,
    records: Seq<Record>,
    api_key: Seq<char>,
    base: Base,
    outcomes: Outcomes,
    k: int,
)
    requires
        forall|i: int| k <= i ==> (#[trigger] batch_error(outcomes, i)) is None,
    ensures
        run(flush, records, api_key, base, outcomes, k).posts == posts_of(
            flush.url,
            records,
            api_key,
            base,
        ),
        run(flush, records, api_key, base, outcomes, k).left == Seq::<Record>::empty(),
        run(flush, records, api_key, base, outcomes, k).end == StepView::Sent(
            flush.sent + records.len(),
        ),
    decreases records.len(),
{
    if records.len() == 0 {
        assert(run(flush, records, api_key, base, outcomes, k).left =~= Seq::<Record>::empty());
    } else {
        let n = queue::at_most(BATCH, records.len());
        let next = FlushView { sent: flush.sent + n, in_flight: 0, ..flush };
        assert(batch_error(outcomes, k) is None);
        law_a_flush_sends_everything(next, records.skip(n), api_key, base, outcomes, k + 1);
    }
}

/// The first batch that fails stops the flush with its error, and it and
/// everything behind it stay queued; the batches in front of it were sent and
/// are gone.
proof fn lemma_a_failed_batch_stops_the_run(
    flush: FlushView,
    records: Seq<Record>,
    api_key: Seq<char>,
    base: Base,
    outcomes: Outcomes,
    k: int,
    failing: int,
)
    requires
        k <= failing,
        BATCH * (failing - k) < records.len(),
        forall|i: int| k <= i < failing ==> (#[trigger] batch_error(outcomes, i)) is None,
        batch_error(outcomes, failing) is Some,
    ensures
        run(flush, records, api_key, base, outcomes, k).left == records.skip(
            BATCH * (failing - k),
        ),
        run(flush, records, api_key, base, outcomes, k).end == StepView::Failed(
            batch_error(outcomes, failing)->0,
        ),
        run(flush, records, api_key, base, outcomes, k).posts == posts_of(
            flush.url,
            records,
            api_key,
            base,
        ).take(failing - k + 1),
    decreases failing - k,
{
    let n = queue::at_most(BATCH, records.len());
    let posts = posts_of(flush.url, records, api_key, base);
    let whole = run(flush, records, api_key, base, outcomes, k);
    if failing == k {
        assert(records.skip(0) =~= records);
        assert(whole.posts =~= posts.take(1));
    } else {
        let next = FlushView { sent: flush.sent + n, in_flight: 0, ..flush };
        assert(batch_error(outcomes, k) is None);
        assert(n == BATCH);
        lemma_a_failed_batch_stops_the_run(
            next,
            records.skip(n),
            api_key,
            base,
            outcomes,
            k + 1,
            failing,
        );
        assert(records.skip(n).skip(BATCH * (failing - k - 1)) =~= records.skip(
            BATCH * (failing - k),
        ));
        let rest = posts_of(flush.url, records.skip(n), api_key, base);
        lemma_as_many_posts(flush.url, records.skip(n), api_key, base, failing - k - 1);
        assert(posts.take(failing - k + 1) =~= seq![posts[0]] + rest.take(failing - k));
        assert(whole.posts =~= posts.take(failing - k + 1));
    }
}

/// A failed post stops the flush with that post's error and keeps that batch and
/// everything behind it queued; the batches in front of it were sent and are
/// gone.
pub proof fn law_a_failed_post_keeps_its_batch_and_the_rest(
    flush: FlushView,
    records: Seq<Record>,
    api_key: Seq<char>,
    base: Base,
    outcomes: Outcomes,
    k: int,
    failing: int,
)
    requires
        k <= failing,
        BATCH * (failing - k) < records.len(),
        forall|i: int| k <= i < failing ==> (#[trigger] batch_error(outcomes, i)) is None,
        (outcomes.posts)(failing) is Some,
    ensures
        run(flush, records, api_key, base, outcomes, k) == (Run {
            posts: posts_of(flush.url, records, api_key, base).take(failing - k + 1),
            left: records.skip(BATCH * (failing - k)),
            end: StepView::Failed((outcomes.posts)(failing)->0),
        }),
{
    lemma_a_failed_batch_stops_the_run(flush, records, api_key, base, outcomes, k, failing);
}

/// A batch that was posted and cannot be removed stops the flush with an error
/// that says so; it was sent, and it and everything behind it stay queued, so it
/// will be sent again.
pub proof fn law_a_failed_removal_keeps_its_batch_and_the_rest(
    flush: FlushView,
    records: Seq<Record>,
    api_key: Seq<char>,
    base: Base,
    outcomes: Outcomes,
    k: int,
    failing: int,
)
    requires
        k <= failing,
        BATCH * (failing - k) < records.len(),
        forall|i: int| k <= i < failing ==> (#[trigger] batch_error(outcomes, i)) is None,
        (outcomes.posts)(failing) is None,
        (outcomes.removals)(failing) is Some,
    ensures
        run(flush, records, api_key, base, outcomes, k) == (Run {
            posts: posts_of(flush.url, records, api_key, base).take(failing - k + 1),
            left: records.skip(BATCH * (failing - k)),
            end: StepView::Failed(NOT_REMOVED@ + (outcomes.removals)(failing)->0),
        }),
{
    lemma_a_failed_batch_stops_the_run(flush, records, api_key, base, outcomes, k, failing);
}

/// Records past so many batches take one more post than that.
proof fn lemma_as_many_posts(
    url: Seq<char>,
    records: Seq<Record>,
    api_key: Seq<char>,
    base: Base,
    batches: int,
)
    requires
        0 <= batches,
        BATCH * batches < records.len(),
    ensures
        posts_of(url, records, api_key, base).len() > batches,
    decreases batches,
{
    if batches > 0 {
        let n = queue::at_most(BATCH, records.len());
        assert(n == BATCH);
        lemma_as_many_posts(url, records.skip(n), api_key, base, batches - 1);
    }
}

/// The wait after `failures` failures in a row since the last success.
pub open spec fn wait_after(failures: nat) -> u128
    decreases failures,
{
    if failures == 0 {
        INITIAL_BACKOFF
    } else {
        doubled(wait_after((failures - 1) as nat))
    }
}

/// The first failure waits 30 seconds, each further one in a row twice as long
/// as the one before, and none longer than 10 minutes.
pub proof fn law_waits_double_up_to_ten_minutes(failures: nat)
    ensures
        wait_after(0) == 30 * clock::NANOS_PER_SEC,
        wait_after(failures + 1) == if 2 * wait_after(failures) <= 600 * clock::NANOS_PER_SEC {
            2 * wait_after(failures)
        } else {
            600 * clock::NANOS_PER_SEC
        },
        wait_after(failures) <= 600 * clock::NANOS_PER_SEC,
        failures >= 5 ==> wait_after(failures) == 600 * clock::NANOS_PER_SEC,
    decreases failures,
{
    if failures > 0 {
        law_waits_double_up_to_ten_minutes((failures - 1) as nat);
        reveal_with_fuel(wait_after, 6);
    }
}

/// After a failure the whole wait is still to come; it only gets shorter as time
/// passes, and once it has passed there is none.
pub proof fn law_the_wait_counts_down(backoff: Backoff, now: Instant, later: Instant)
    ensures
        backoff.last_failure() is None ==> backoff.wait_at(now) == 0,
        backoff.last_failure() matches Some((since, wait)) ==> {
            &&& clock::nanos_since(now, since) == 0 ==> backoff.wait_at(now) == wait
            &&& clock::nanos_since(now, since) >= wait ==> backoff.wait_at(now) == 0
            &&& clock::nanos_since(now, since) <= clock::nanos_since(later, since)
                ==> backoff.wait_at(later) <= backoff.wait_at(now) <= wait
        },
{
}

/// Wherever the host ends, in one slash, in many or in none, exactly one stands
/// between it and the endpoint.
pub proof fn law_one_slash_before_the_endpoint(host: Seq<char>)
    ensures
        text::without_trailing(host.push('/'), '/') == text::without_trailing(host, '/'),
        text::without_trailing(host, '/').len() > 0 ==> text::without_trailing(host, '/').last()
            != '/',
    decreases host.len(),
{
    assert(host.push('/').drop_last() =~= host);
    if host.len() > 0 && host.last() == '/' {
        law_one_slash_before_the_endpoint(host.drop_last());
    }
}

/// Where no post and no removal fails, the `i`th post carries the queue's events
/// from the `100 * i`th on, a hundred of them or what is left, and there are as
/// many posts as that takes.
pub proof fn law_each_post_carries_the_next_hundred(
    flush: FlushView,
    records: Seq<Record>,
    api_key: Seq<char>,
    base: Base,
    outcomes: Outcomes,
    k: int,
)
    requires
        forall|i: int| k <= i ==> (#[trigger] (outcomes.posts)(i)) is None,
        forall|i: int| k <= i ==> (#[trigger] (outcomes.removals)(i)) is None,
    ensures
        ({
            let posts = run(flush, records, api_key, base, outcomes, k).posts;
            &&& 100 * (posts.len() - 1) < records.len() <= 100 * posts.len()
            &&& forall|i: int|
                0 <= i < posts.len() ==> #[trigger] posts[i] == (StepView::Post {
                    url: flush.url,
                    body: event::batch_value(
                        api_key,
                        base,
                        records.subrange(
                            100 * i,
                            if 100 * i + 100 <= records.len() {
                                100 * i + 100
                            } else {
                                records.len() as int
                            },
                        ).map_values(|record: Record| record.event@),
                    ),
                })
        }),
    decreases records.len(),
{
    let posts = run(flush, records, api_key, base, outcomes, k).posts;
    if records.len() > 0 {
        let n: int = if 100 <= records.len() {
            100
        } else {
            records.len() as int
        };
        let next = FlushView { sent: flush.sent + n, in_flight: 0, ..flush };
        let behind = records.skip(n);
        assert((outcomes.posts)(k) is None && (outcomes.removals)(k) is None);
        law_each_post_carries_the_next_hundred(next, behind, api_key, base, outcomes, k + 1);
        let rest = run(next, behind, api_key, base, outcomes, k + 1).posts;
        assert(posts =~= seq![posts[0]] + rest);
        assert(queue::events(records.take(n)) =~= records.subrange(0, n).map_values(
            |record: Record| record.event@,
        ));
        assert forall|i: int| 0 <= i < posts.len() implies #[trigger] posts[i] == (StepView::Post {
            url: flush.url,
            body: event::batch_value(
                api_key,
                base,
                records.subrange(
                    100 * i,
                    if 100 * i + 100 <= records.len() {
                        100 * i + 100
                    } else {
                        records.len() as int
                    },
                ).map_values(|record: Record| record.event@),
            ),
        }) by {
            if i > 0 {
                assert(posts[i] == rest[i - 1]);
                let j = i - 1;
                let end: int = if 100 * j + 100 <= behind.len() {
                    100 * j + 100
                } else {
                    behind.len() as int
                };
                assert(behind.subrange(100 * j, end) =~= records.subrange(100 * i, end + n));
            }
        }
    }
}

} // verus!
