use serde_json::Value;
use std::time::{Duration, Instant};
use tauri_plugins::posthog::event::{Base, Event};
use tauri_plugins::posthog::queue::{Limits, Queue, Record};
use tauri_plugins::posthog::send::{batch_url, flush, payload, Backoff, Step, BATCH};

fn base() -> Base {
    Base {
        distinct_id: "install-1".to_string(),
        lib_version: "0.1.0-alpha.1",
        app_version: "1.2.3".to_string(),
        os: "macOS",
        platform: "macos",
    }
}

fn queue_of(n: usize) -> Queue {
    let mut queue = Queue::open(Limits::default());
    let records: Vec<Option<Record>> = (0..n)
        .map(|i| {
            let event = Event::new(&format!("e{i}"), serde_json::Map::new()).unwrap();
            Some(Record { line: format!("{}\n", event.uuid), event })
        })
        .collect();
    queue.readable_events(37 * n as u64, records);
    queue
}

/// Records every body it was asked to send, and replays a scripted sequence of
/// results, one per call. Panics if called more times than the script provides
/// for.
struct FakePost {
    results: Vec<Result<(), String>>,
    urls: Vec<String>,
    bodies: Vec<Value>,
}

impl FakePost {
    fn new(results: Vec<Result<(), String>>) -> Self {
        FakePost { results, urls: Vec::new(), bodies: Vec::new() }
    }

    fn batch_sizes(&self) -> Vec<usize> {
        self.bodies
            .iter()
            .map(|b| b["batch"].as_array().unwrap().len())
            .collect()
    }

    fn post(&mut self, url: String, body: Value) -> Result<(), String> {
        self.urls.push(url);
        self.bodies.push(body);
        assert!(
            !self.results.is_empty(),
            "flush made more requests than the test scripted"
        );
        self.results.remove(0)
    }
}

fn run(queue: &mut Queue, post: &mut FakePost, removal: Result<(), String>) -> Result<usize, String> {
    let base = base();
    let (mut flush, mut step) = flush("https://us.i.posthog.com");
    loop {
        step = match step {
            Step::Peek(n) => {
                let batch = queue.peek(n);
                flush.peeked("k", &base, &batch)
            }
            Step::Post { url, body } => {
                let outcome = post.post(url, body);
                flush.posted(outcome)
            }
            Step::DropFront(n) => {
                if removal.is_ok() {
                    let _ = queue.drop_front(n);
                }
                flush.dropped(removal.clone())
            }
            Step::Done(result) => return result,
        };
    }
}

#[test]
fn flush_sends_everything_in_batches_of_at_most_100_and_empties_the_queue() {
    let mut queue = queue_of(250);

    let mut post = FakePost::new(vec![Ok(()), Ok(()), Ok(())]);
    let sent = run(&mut queue, &mut post, Ok(())).unwrap();

    assert_eq!(sent, 250);
    assert_eq!(post.batch_sizes(), vec![100, 100, 50]);
    assert!(queue.is_empty());
}

#[test]
fn a_failed_post_stops_the_flush_and_keeps_that_batch_and_the_rest() {
    let mut queue = queue_of(250);

    let mut post = FakePost::new(vec![Ok(()), Err("boom".to_string())]);
    let err = run(&mut queue, &mut post, Ok(())).unwrap_err();

    assert_eq!(err, "boom");
    assert_eq!(queue.len(), 150);
    assert_eq!(post.batch_sizes(), vec![100, 100]);
}

#[test]
fn an_empty_queue_makes_no_request() {
    let mut queue = queue_of(0);

    let mut post = FakePost::new(vec![]);
    let sent = run(&mut queue, &mut post, Ok(())).unwrap();

    assert_eq!(sent, 0);
    assert!(post.bodies.is_empty());
}

#[test]
fn batch_url_is_exactly_one_slash_between_host_and_batch() {
    assert_eq!(
        batch_url("https://us.i.posthog.com"),
        "https://us.i.posthog.com/batch/"
    );
    assert_eq!(
        batch_url("https://us.i.posthog.com/"),
        "https://us.i.posthog.com/batch/"
    );
}

#[test]
fn backoff_starts_ready() {
    let backoff = Backoff::new();
    assert_eq!(backoff.ready_in(), Duration::ZERO);
}

#[test]
fn backoff_doubles_then_caps() {
    let mut backoff = Backoff::new();
    assert_eq!(backoff.failed(), Duration::from_secs(30));
    assert_eq!(backoff.failed(), Duration::from_secs(60));
    assert_eq!(backoff.failed(), Duration::from_secs(120));
    assert_eq!(backoff.failed(), Duration::from_secs(240));
    assert_eq!(backoff.failed(), Duration::from_secs(480));
    assert_eq!(backoff.failed(), Duration::from_secs(600));
    assert_eq!(backoff.failed(), Duration::from_secs(600));
}

#[test]
fn backoff_succeeded_resets_to_zero() {
    let mut backoff = Backoff::new();
    backoff.failed();
    backoff.failed();
    backoff.succeeded();
    assert_eq!(backoff.ready_in(), Duration::ZERO);
    assert_eq!(backoff.failed(), Duration::from_secs(30));
}

#[test]
fn ready_in_counts_down_from_the_last_failure() {
    // `now` is taken *before* `failed()` records its own instant, so that
    // instant is always a little later than `now` and `ready_in_at(now)`
    // reports the full wait.
    let now = Instant::now();
    let mut backoff = Backoff::new();
    let wait = backoff.failed();
    assert_eq!(wait, Duration::from_secs(30));

    assert_eq!(backoff.ready_in_at(now), Duration::from_secs(30));
    assert_eq!(
        backoff.ready_in_at(now.checked_sub(Duration::from_secs(10)).unwrap()),
        Duration::from_secs(30)
    );
    assert_eq!(
        backoff.ready_in_at(now + Duration::from_secs(999)),
        Duration::ZERO
    );

    // Ten seconds in, about twenty should remain.
    let ten_seconds_later = backoff.ready_in_at(now + Duration::from_secs(10));
    assert!(ten_seconds_later >= Duration::from_secs(20));
    assert!(ten_seconds_later <= Duration::from_secs(20) + Duration::from_millis(500));
}

#[test]
fn a_failure_at_a_given_moment_counts_down_exactly() {
    let at = Instant::now();
    let mut backoff = Backoff::default();
    assert_eq!(backoff.failed_at(at), Duration::from_secs(30));
    assert_eq!(backoff.ready_in_at(at), Duration::from_secs(30));
    assert_eq!(
        backoff.ready_in_at(at + Duration::from_millis(12_345)),
        Duration::from_millis(17_655)
    );
    assert_eq!(backoff.ready_in_at(at + Duration::from_secs(30)), Duration::ZERO);
}

#[test]
fn a_host_of_many_slashes_still_gets_one() {
    assert_eq!(batch_url("https://h///"), "https://h/batch/");
    assert_eq!(batch_url("https://h/a/b/"), "https://h/a/b/batch/");
    assert_eq!(batch_url(""), "/batch/");
}

#[test]
fn every_batch_goes_to_the_same_url_in_order() {
    let mut queue = queue_of(101);
    let names: Vec<String> = queue.peek(101).iter().map(|e| e.event.clone()).collect();
    let mut post = FakePost::new(vec![Ok(()), Ok(())]);
    run(&mut queue, &mut post, Ok(())).unwrap();
    assert_eq!(post.urls, vec!["https://us.i.posthog.com/batch/"; 2]);
    let mut sent = Vec::new();
    for body in &post.bodies {
        assert_eq!(body["api_key"], "k");
        for event in body["batch"].as_array().unwrap() {
            sent.push(event["event"].as_str().unwrap().to_string());
        }
    }
    assert_eq!(sent, names);
    assert_eq!(BATCH, 100);
}

#[test]
fn a_batch_that_cannot_be_removed_stays_queued() {
    let mut queue = queue_of(5);
    let mut post = FakePost::new(vec![Ok(())]);
    let err = run(&mut queue, &mut post, Err("disk full".to_string())).unwrap_err();
    assert_eq!(
        err,
        "sent a batch but could not remove it from the queue: disk full"
    );
    assert_eq!(queue.len(), 5);
    assert_eq!(post.batch_sizes(), vec![5]);
}

#[test]
fn a_removal_that_fails_later_keeps_that_batch_and_the_rest() {
    let mut queue = queue_of(250);
    let (mut flush, mut step) = flush("https://us.i.posthog.com");
    let mut removals = vec![Ok(()), Err("disk full".to_string())];
    let mut posts = 0;
    let end = loop {
        step = match step {
            Step::Peek(n) => {
                let batch = queue.peek(n);
                flush.peeked("k", &base(), &batch)
            }
            Step::Post { .. } => {
                posts += 1;
                flush.posted(Ok(()))
            }
            Step::DropFront(n) => {
                let outcome = removals.remove(0);
                if outcome.is_ok() {
                    let _ = queue.drop_front(n);
                }
                flush.dropped(outcome)
            }
            Step::Done(result) => break result,
        };
    };
    assert_eq!(
        end.unwrap_err(),
        "sent a batch but could not remove it from the queue: disk full"
    );
    assert_eq!(posts, 2);
    assert_eq!(queue.len(), 150);
}

#[test]
fn a_payload_is_the_compact_text_of_the_body() {
    let body: Value = serde_json::from_str(r#"{ "b" : [1, 2], "a" : "x" }"#).unwrap();
    assert_eq!(payload(&body).unwrap(), r#"{"a":"x","b":[1,2]}"#);
}
