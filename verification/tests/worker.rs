use serde_json::Value;
use std::time::{Duration, Instant};
use tauri_plugins::posthog::event::Event;
use tauri_plugins::posthog::queue::{serialize_line, Limits, Queue, Record};
use tauri_plugins::posthog::send::{flush, Step};
use tauri_plugins::posthog::worker::{
    flush_before_exit, Exit, Flushed, Found, Handed, Msg, Settings, Task, Worker,
};

enum Outcome {
    Refuse,
    Panic,
}

/// A data directory: the id file, the opt-out marker and the queue.
struct Dir {
    saved_id: Option<String>,
    marker: bool,
    queue: Queue,
}

fn dir() -> Dir {
    Dir { saved_id: None, marker: false, queue: Queue::open(Limits::default()) }
}

/// A worker with its data directory and a network that answers from a script;
/// an exhausted script accepts everything.
struct Running {
    worker: Worker,
    dir: Option<Dir>,
    script: Vec<Outcome>,
    bodies: Vec<Value>,
    now: Instant,
}

fn settings() -> Settings {
    Settings {
        api_key: "phc_test".to_string(),
        host: "https://us.i.posthog.com".to_string(),
        flush_at: 20,
        app_version: "1.2.3".to_string(),
        lib_version: "0.1.0",
        os: "Linux",
        platform: "linux",
    }
}

fn event(name: &str) -> Event {
    Event::new(name, serde_json::Map::new()).unwrap()
}

fn record(event: Event) -> Record {
    let size = serde_json::to_string(&event.properties).unwrap();
    Record { line: serialize_line(&format!("{}{}{}", event.uuid, event.event, size)), event }
}

fn push(queue: &mut Queue, event: Event) -> Option<usize> {
    let record = record(event);
    if queue.push(&record.line).is_err() {
        return None;
    }
    let mut file_bytes = record.line.len() as u64;
    let mut parsed = Vec::new();
    for kept in queue.records.drain(..) {
        file_bytes += kept.line.len() as u64;
        parsed.push(Some(kept));
    }
    parsed.push(Some(record));
    queue.readable_events(file_bytes, parsed);
    let _ = queue.evict();
    Some(queue.len())
}

impl Running {
    fn start(settings: Settings, dir: Option<Dir>, script: Vec<Outcome>) -> Running {
        let found = dir.as_ref().map(|dir| Found {
            saved_id: dir.saved_id.clone(),
            marker: Ok(dir.marker),
        });
        let (worker, startup) = Worker::new(settings, found);
        let mut running = Running { worker, dir, script, bodies: Vec::new(), now: Instant::now() };
        if let Some(dir) = &mut running.dir {
            if startup.save_id {
                dir.saved_id = Some(running.worker.base.distinct_id.clone());
            }
            if startup.clear_queue {
                let _ = dir.queue.clear();
            }
        }
        running
    }

    fn flush(&mut self) -> Flushed {
        let queue = &mut self.dir.as_mut().unwrap().queue;
        let (mut flush, mut step) = flush(&self.worker.host);
        loop {
            step = match step {
                Step::Peek(n) => {
                    let batch = queue.peek(n);
                    flush.peeked(&self.worker.api_key, &self.worker.base, &batch)
                }
                Step::Post { body, .. } => {
                    self.bodies.push(body);
                    let outcome = if self.script.is_empty() {
                        Ok(())
                    } else {
                        match self.script.remove(0) {
                            Outcome::Refuse => Err("refused".to_string()),
                            Outcome::Panic => {
                                return Flushed::Unfinished("the network fell over".to_string())
                            }
                        }
                    };
                    flush.posted(outcome)
                }
                Step::DropFront(n) => {
                    let _ = queue.drop_front(n);
                    flush.dropped(Ok(()))
                }
                Step::Done(Ok(n)) => return Flushed::Sent(n),
                Step::Done(Err(e)) => return Flushed::Failed(e),
            };
        }
    }

    /// Carries a task out, and whatever it leads to.
    fn carry_out(&mut self, task: Task) -> Option<bool> {
        match task {
            Task::Rest => None,
            Task::Push(event) => {
                let queued = push(&mut self.dir.as_mut().unwrap().queue, event);
                let next = self.worker.captured_at(self.now, queued);
                self.carry_out(next)
            }
            Task::Count => {
                let queued = self.dir.as_ref().unwrap().queue.len();
                let next = self.worker.try_flush_at(self.now, queued);
                self.carry_out(next)
            }
            Task::Send => {
                let outcome = self.flush();
                let _ = self.worker.flushed_at(self.now, outcome);
                None
            }
            Task::SaveOptOut { out, clear } => {
                let dir = self.dir.as_mut().unwrap();
                dir.marker = out;
                if clear {
                    let _ = dir.queue.clear();
                }
                None
            }
            Task::Answer(out) => Some(out),
        }
    }

    fn handle(&mut self, msg: Msg) -> Option<bool> {
        let task = self.worker.handle(msg);
        self.carry_out(task)
    }

    fn tick(&mut self) {
        let task = self.worker.due();
        self.carry_out(task);
    }

    fn capture(&mut self, n: usize) {
        for i in 0..n {
            self.handle(Msg::Capture(event(&format!("e{i}"))));
        }
    }

    fn opted_out(&mut self) -> bool {
        self.handle(Msg::IsOptedOut).unwrap()
    }

    fn queued(&self) -> usize {
        self.dir.as_ref().unwrap().queue.len()
    }

    fn batch_sizes(&self) -> Vec<usize> {
        self.bodies
            .iter()
            .map(|b| b["batch"].as_array().unwrap().len())
            .collect()
    }
}

#[test]
fn twenty_captures_send_exactly_one_batch_of_twenty() {
    let mut worker = Running::start(settings(), Some(dir()), vec![]);

    worker.capture(20);

    assert_eq!(worker.batch_sizes(), vec![20]);
    assert_eq!(worker.queued(), 0);
}

#[test]
fn fewer_than_twenty_wait_for_a_flush() {
    let mut worker = Running::start(settings(), Some(dir()), vec![]);

    worker.capture(5);
    assert!(worker.batch_sizes().is_empty());
    assert_eq!(worker.queued(), 5);

    worker.handle(Msg::Flush);
    assert_eq!(worker.batch_sizes(), vec![5]);
    assert_eq!(worker.queued(), 0);
}

#[test]
fn every_event_carries_the_install_and_the_app() {
    let mut worker = Running::start(settings(), Some(dir()), vec![]);

    worker.capture(1);
    worker.handle(Msg::Flush);

    let body = worker.bodies[0].clone();
    let props = &body["batch"][0]["properties"];
    assert_eq!(body["api_key"], "phc_test");
    assert_eq!(
        props["distinct_id"].as_str(),
        worker.dir.as_ref().unwrap().saved_id.as_deref()
    );
    assert_eq!(props["$app_version"], "1.2.3");
    assert_eq!(props["$lib_version"], "0.1.0");
}

#[test]
fn opting_out_clears_the_queue_and_stops_capture_until_opting_back_in() {
    let mut worker = Running::start(settings(), Some(dir()), vec![]);

    worker.capture(3);
    worker.handle(Msg::SetOptOut(true));
    assert_eq!(worker.queued(), 0);
    assert!(worker.dir.as_ref().unwrap().marker);
    assert!(worker.opted_out());

    worker.capture(25);
    worker.handle(Msg::Flush);
    assert_eq!(worker.queued(), 0);
    assert!(worker.batch_sizes().is_empty());

    worker.handle(Msg::SetOptOut(false));
    assert!(!worker.dir.as_ref().unwrap().marker);
    assert!(!worker.opted_out());
    worker.capture(2);
    assert_eq!(worker.queued(), 2);
}

#[test]
fn an_opt_out_on_disk_is_honoured_at_start_and_leaves_nothing_queued() {
    let mut left = dir();
    push(&mut left.queue, event("left-over"));
    left.marker = true;

    let mut worker = Running::start(settings(), Some(left), vec![]);

    assert!(worker.opted_out());
    assert_eq!(worker.queued(), 0);
    worker.capture(1);
    assert_eq!(worker.queued(), 0);
}

#[test]
fn a_flush_while_backing_off_makes_no_request() {
    let mut worker = Running::start(settings(), Some(dir()), vec![Outcome::Refuse]);

    worker.capture(20);
    assert_eq!(worker.batch_sizes(), vec![20]);
    assert_eq!(worker.queued(), 20);

    worker.handle(Msg::Flush);
    worker.capture(5);
    assert_eq!(worker.batch_sizes(), vec![20], "no request while backing off");
    assert_eq!(worker.queued(), 25);

    worker.now += Duration::from_secs(30);
    worker.tick();
    assert_eq!(worker.batch_sizes(), vec![20, 25]);
    assert_eq!(worker.queued(), 0);
}

#[test]
fn a_post_that_panics_counts_as_a_failure_and_the_worker_carries_on() {
    let mut worker = Running::start(settings(), Some(dir()), vec![Outcome::Panic]);

    worker.capture(20);
    assert_eq!(worker.batch_sizes(), vec![20]);
    assert_eq!(worker.queued(), 20, "events kept");

    worker.handle(Msg::Flush);
    assert_eq!(worker.batch_sizes(), vec![20], "backoff engaged");

    // Still answering.
    assert!(!worker.opted_out());
    worker.capture(1);
    assert_eq!(worker.queued(), 21);
}

#[test]
fn an_event_too_large_for_the_queue_is_dropped() {
    let mut small = dir();
    small.queue = Queue::open(Limits { max_events: 1_000, max_bytes: 512 });
    let mut worker = Running::start(settings(), Some(small), vec![]);

    let mut props = serde_json::Map::new();
    props.insert("blob".to_string(), Value::String("x".repeat(4096)));
    worker.handle(Msg::Capture(Event::new("huge", props).unwrap()));
    worker.capture(1);

    assert_eq!(worker.queued(), 1);
}

#[test]
fn with_no_data_dir_every_message_is_still_answered() {
    let mut worker = Running::start(settings(), None, vec![]);

    worker.capture(25);
    worker.handle(Msg::Flush);
    assert!(worker.batch_sizes().is_empty());

    worker.handle(Msg::SetOptOut(true));
    assert!(worker.opted_out());
}

#[test]
fn running_flushes_once_at_start_and_again_on_each_tick() {
    let mut left = dir();
    push(&mut left.queue, event("from-last-run"));
    let mut worker = Running::start(settings(), Some(left), vec![]);

    worker.tick();
    assert!(!worker.opted_out());
    assert_eq!(worker.batch_sizes(), vec![1]);

    worker.handle(Msg::Capture(event("later")));
    worker.tick();
    assert_eq!(worker.batch_sizes(), vec![1, 1]);
}

#[test]
fn exit_waits_for_the_flush_to_finish() {
    let started = Instant::now();
    let exit = flush_before_exit(started, Duration::from_secs(2), started, Handed::Sent);
    assert!(matches!(exit, Exit::Wait(d) if d == Duration::from_secs(2)));
    let later = started + Duration::from_millis(500);
    let exit = flush_before_exit(started, Duration::from_secs(2), later, Handed::Sent);
    assert!(matches!(exit, Exit::Wait(d) if d == Duration::from_millis(1_500)));
}

#[test]
fn exit_gives_up_on_a_worker_that_never_answers() {
    let limit = Duration::from_millis(100);
    let started = Instant::now();
    // A full channel waits out the same deadline, not a second one.
    let exit = flush_before_exit(started, limit, started, Handed::Full);
    assert!(matches!(exit, Exit::Retry(d) if d == Duration::from_millis(10)));
    let exit = flush_before_exit(started, limit, started + limit, Handed::Full);
    assert!(matches!(exit, Exit::Leave));
    let exit = flush_before_exit(started, limit, started + limit, Handed::Sent);
    assert!(matches!(exit, Exit::Wait(d) if d == Duration::ZERO));
}

#[test]
fn exit_never_waits_past_its_limit() {
    let limit = Duration::from_millis(100);
    let started = Instant::now();
    let late = started + Duration::from_millis(93);
    let exit = flush_before_exit(started, limit, late, Handed::Full);
    assert!(matches!(exit, Exit::Retry(d) if d == Duration::from_millis(7)));
    let exit = flush_before_exit(started, limit, late, Handed::Sent);
    assert!(matches!(exit, Exit::Wait(d) if d == Duration::from_millis(7)));
    let ten_left = started + Duration::from_millis(90);
    let exit = flush_before_exit(started, limit, ten_left, Handed::Full);
    assert!(matches!(exit, Exit::Retry(d) if d == Duration::from_millis(10)));
    let exit = flush_before_exit(started, Duration::ZERO, started, Handed::Full);
    assert!(matches!(exit, Exit::Leave));
    let past = started + Duration::from_secs(1);
    let exit = flush_before_exit(started, limit, past, Handed::Full);
    assert!(matches!(exit, Exit::Leave));
}

#[test]
fn exit_does_not_wait_for_a_dead_worker() {
    let started = Instant::now();
    let exit = flush_before_exit(started, Duration::from_secs(2), started, Handed::Closed);
    assert!(matches!(exit, Exit::Leave));
}

#[test]
fn a_fresh_worker_saves_a_new_id_and_keeps_an_old_one() {
    let found = Found { saved_id: None, marker: Ok(false) };
    let (worker, startup) = Worker::new(settings(), Some(found));
    assert!(startup.save_id);
    assert!(!startup.clear_queue);
    let found = Found {
        saved_id: Some(worker.base.distinct_id.clone()),
        marker: Err("unreadable".to_string()),
    };
    let (again, startup) = Worker::new(settings(), Some(found));
    assert!(!startup.save_id);
    assert!(!again.opted_out);
    assert_eq!(again.base.distinct_id, worker.base.distinct_id);
}

#[test]
fn failures_in_a_row_wait_longer_until_a_success() {
    let (mut worker, _) = Worker::new(settings(), Some(Found { saved_id: None, marker: Ok(false) }));
    let failed = || Flushed::Failed("refused".to_string());
    assert_eq!(worker.flushed(failed()), Some(Duration::from_secs(30)));
    assert_eq!(
        worker.flushed(Flushed::Unfinished("panicked".to_string())),
        Some(Duration::from_secs(60))
    );
    assert!(matches!(worker.try_flush(1), Task::Rest));
    assert_eq!(worker.flushed(Flushed::Sent(3)), None);
    assert!(matches!(worker.try_flush(1), Task::Send));
    assert!(matches!(worker.try_flush(0), Task::Rest));
    assert!(matches!(worker.captured(Some(19)), Task::Rest));
    assert!(matches!(worker.captured(Some(20)), Task::Send));
    assert!(matches!(worker.captured(None), Task::Rest));
}
