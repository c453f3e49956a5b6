//! Which `PostHog` project to send to, and where.

use std::time::Duration;

use crate::clock;
use crate::posthog::queue::Limits;

use vstd::prelude::*;

verus! {

/// `PostHog`'s US cloud.
pub const US_HOST: &'static str = "https://us.i.posthog.com";

/// `PostHog`'s EU cloud.
pub const EU_HOST: &'static str = "https://eu.i.posthog.com";

/// How many messages may wait for the worker while it is busy sending. A
/// capture that finds it full is dropped rather than waited on.
pub const CHANNEL: usize = 1_024;

/// The longest exit ever waits for a last flush, in seconds.
pub const EXIT_WAIT_SECS: u64 = 2;

/// Which `PostHog` project to send to, and where. Everything else — when to
/// flush, how much to keep on disk — has its defaults and is not configurable
/// yet.
pub struct Config {
    pub api_key: String,
    pub host: String,
    pub flush_at: usize,
    pub flush_every: Duration,
    pub limits: Limits,
}

impl Config {
    /// Starts from a project API key (`phc_…`) on `PostHog`'s US cloud.
    #[must_use]
    pub fn new(api_key: &str) -> (config: Config)
        ensures
            config.api_key@ == api_key@,
            config.host@ == US_HOST@,
            config.flush_at == 20,
            clock::nanos(config.flush_every) == 30 * clock::NANOS_PER_SEC,
            config.limits == (Limits { max_events: 1_000, max_bytes: 1_048_576 }),
    {
        Config {
            api_key: api_key.to_owned(),
            host: US_HOST.to_owned(),
            flush_at: 20,
            flush_every: clock::span_of(30, 0),
            limits: Limits::default(),
        }
    }

    /// Sends to `PostHog`'s EU cloud.
    #[must_use]
    pub fn eu(self) -> (config: Config)
        ensures
            config.host@ == EU_HOST@,
            config == (Config { host: config.host, ..self }),
    {
        self.host(EU_HOST)
    }

    /// Sends to `PostHog`'s US cloud, the default.
    #[must_use]
    pub fn us(self) -> (config: Config)
        ensures
            config.host@ == US_HOST@,
            config == (Config { host: config.host, ..self }),
    {
        self.host(US_HOST)
    }

    /// Sends to a self-hosted instance or a reverse proxy, e.g.
    /// `https://posthog.example.com`.
    #[must_use]
    pub fn host(self, url: &str) -> (config: Config)
        ensures
            config.host@ == url@,
            config == (Config { host: config.host, ..self }),
    {
        Config { host: url.to_owned(), ..self }
    }
}

} // verus!
