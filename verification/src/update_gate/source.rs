//! Keeps the document briefly so every check doesn't hit the network, and never
//! lets a failure lock anyone out.
//!
//! The fetch itself is not made here: where [`Source::gate`] asks for one,
//! whoever asked fetches and parses the document and hands back what came of it
//! with [`Source::fetched`].

use std::time::{Duration, Instant};

use crate::clock;
use crate::update_gate::decide;
use crate::update_gate::decide::{Document, Gate};

use vstd::prelude::*;

verus! {

/// Where to fetch the document from, how long to trust a cached copy, and how
/// long to wait for the network before giving up.
pub struct Config {
    pub url: String,
    pub ttl: Duration,
    pub timeout: Duration,
}

impl Config {
    /// Starts from a URL with the defaults: a 6-hour cache and a 5-second
    /// network timeout.
    #[must_use]
    pub fn url(u: &str) -> (config: Config)
        ensures
            config.url@ == u@,
            clock::nanos(config.ttl) == 21_600 * clock::NANOS_PER_SEC,
            clock::nanos(config.timeout) == 5 * clock::NANOS_PER_SEC,
    {
        Config { url: u.to_owned(), ttl: clock::span_of(21_600, 0), timeout: clock::span_of(5, 0) }
    }

    /// Overrides how long a fetched document is trusted before it is fetched
    /// again.
    #[must_use]
    pub fn ttl(self, d: Duration) -> (config: Config)
        ensures
            config == (Config { ttl: d, ..self }),
    {
        Config { ttl: d, ..self }
    }

    /// Overrides how long the fetch waits for a response.
    #[must_use]
    pub fn timeout(self, d: Duration) -> (config: Config)
        ensures
            config == (Config { timeout: d, ..self }),
    {
        Config { timeout: d, ..self }
    }
}

/// What a check does next.
pub enum Check {
    /// Nothing: this is the verdict.
    Answer(Gate),
    /// Fetch the document from the URL.
    Fetch(String),
}

/// Caches a successfully parsed document for `Config::ttl`, and turns any
/// failure into an open gate rather than an error the caller has to handle.
pub struct Source {
    pub config: Config,
    pub cache: Option<(Instant, Document)>,
}

/// Whether what was cached `at` one moment is trusted at another.
pub open spec fn is_fresh(at: Instant, now: Instant, ttl: Duration) -> bool {
    clock::nanos_since(now, at) < clock::nanos(ttl)
}

impl Source {
    /// The document that is trusted at `now`, if there is one.
    pub open spec fn trusted_at(&self, now: Instant) -> Option<Document> {
        match self.cache {
            Some((at, doc)) => if is_fresh(at, now, self.config.ttl) {
                Some(doc)
            } else {
                None
            },
            None => None,
        }
    }

    /// A source that has fetched nothing yet.
    #[must_use]
    pub fn with(config: Config) -> (source: Source)
        ensures
            source.config == config,
            source.cache is None,
    {
        Source { config, cache: None }
    }

    /// The cached document if it is still within the TTL at `now`.
    #[must_use]
    pub fn cached_at(&self, now: Instant) -> (r: Option<&Document>)
        ensures
            r is Some <==> self.trusted_at(now) is Some,
            r matches Some(doc) ==> self.trusted_at(now) == Some(*doc),
            r is Some <==> (self.cache matches Some((at, _)) && clock::nanos_since(now, at)
                < clock::nanos(self.config.ttl)),
            r matches Some(doc) ==> (self.cache matches Some((_, cached)) && *doc == cached),
    {
        match &self.cache {
            Some((at, doc)) => {
                let age: u128 = clock::elapsed_nanos(&now, at);
                if age < clock::as_nanos(&self.config.ttl) {
                    Some(doc)
                } else {
                    None
                }
            },
            None => None,
        }
    }

    /// Decides whether `running` may still be used, at `now`. Reuses the cached
    /// document while it is within the TTL; otherwise it is to be fetched.
    #[must_use]
    pub fn gate_at(&self, now: Instant, running: &str, lang: &str, platform: &str) -> (r: Check)
        ensures
            r is Answer <==> self.trusted_at(now) is Some,
            r matches Check::Answer(gate) ==> gate@ == decide::gate_for(
                self.trusted_at(now)->0@,
                running@,
                lang@,
                platform@,
            ),
            r matches Check::Fetch(url) ==> url == self.config.url,
            r is Answer <==> (self.cache matches Some((at, _)) && clock::nanos_since(now, at)
                < clock::nanos(self.config.ttl)),
            r matches Check::Answer(gate) ==> (self.cache matches Some((_, doc)) && call_ensures(
                decide::decide,
                (&doc, running, lang, platform),
                gate,
            )),
    {
        match self.cached_at(now) {
            Some(doc) => Check::Answer(decide::decide(doc, running, lang, platform)),
            None => Check::Fetch(self.config.url.clone()),
        }
    }

    /// As [`Source::gate_at`], at the time the clock shows during the call. A
    /// document that is stale by then is fetched again.
    #[must_use]
    pub fn gate(&self, running: &str, lang: &str, platform: &str) -> (r: Check)
        ensures
            exists|now: Instant|
                {
                    &&& #[trigger] call_ensures(clock::read, (), now)
                    &&& r is Answer <==> (self.cache matches Some((at, _)) && clock::nanos_since(
                        now,
                        at,
                    ) < clock::nanos(self.config.ttl))
                },
            r matches Check::Answer(gate) ==> (self.cache matches Some((_, doc)) && call_ensures(
                decide::decide,
                (&doc, running, lang, platform),
                gate,
            )),
            exists|now: Instant| r is Answer <==> (#[trigger] self.trusted_at(now)) is Some,
            self.cache is None ==> r is Fetch,
            r matches Check::Answer(gate) ==> (self.cache matches Some((_, doc)) && gate@
                == decide::gate_for(doc@, running@, lang@, platform@)),
            r matches Check::Fetch(url) ==> url == self.config.url,
    {
        let now = clock::read();
        let check = self.gate_at(now, running, lang, platform);
        assert(check is Answer <==> self.trusted_at(now) is Some);
        check
    }

    /// Decides on what came of the fetch, at `now`, and caches the document on
    /// success only. Any failure along the way — network, HTTP status, or
    /// malformed JSON — is answered with an open gate instead of being handed
    /// back to the caller.
    #[must_use]
    pub fn fetched_at(
        &mut self,
        now: Instant,
        outcome: Result<Document, String>,
        running: &str,
        lang: &str,
        platform: &str,
    ) -> (gate: Gate)
        ensures
            final(self).config == old(self).config,
            outcome matches Ok(doc) ==> {
                &&& final(self).cache == Some((now, doc))
                &&& gate@ == decide::gate_for(doc@, running@, lang@, platform@)
                &&& call_ensures(decide::decide, (&doc, running, lang, platform), gate)
            },
            outcome is Err ==> {
                &&& final(self).cache == old(self).cache
                &&& gate.state == decide::State::Okay
                &&& gate.latest_version is None
                &&& gate.message is None
                &&& gate.url is None
                &&& gate@ == (decide::GateView {
                    state: decide::State::Okay,
                    latest_version: None,
                    message: None,
                    url: None,
                })
            },
    {
        match outcome {
            Ok(doc) => {
                let gate = decide::decide(&doc, running, lang, platform);
                self.cache = Some((now, doc));
                gate
            },
            Err(_) => {
                proof {
                    decide::law_an_empty_document_opens_the_gate(running@, lang@, platform@);
                }
                decide::decide(&Document::default(), running, lang, platform)
            },
        }
    }

    /// As [`Source::fetched_at`], at the real clock's time.
    #[must_use]
    pub fn fetched(
        &mut self,
        outcome: Result<Document, String>,
        running: &str,
        lang: &str,
        platform: &str,
    ) -> (gate: Gate)
        ensures
            final(self).config == old(self).config,
            outcome matches Ok(doc) ==> {
                &&& final(self).cache matches Some((_, cached)) && cached == doc
                &&& final(self).cache matches Some((at, _)) && call_ensures(clock::read, (), at)
                &&& gate@ == decide::gate_for(doc@, running@, lang@, platform@)
                &&& call_ensures(decide::decide, (&doc, running, lang, platform), gate)
            },
            outcome is Err ==> {
                &&& final(self).cache == old(self).cache
                &&& gate.state == decide::State::Okay
                &&& gate.latest_version is None
                &&& gate.message is None
                &&& gate.url is None
                &&& gate@ == (decide::GateView {
                    state: decide::State::Okay,
                    latest_version: None,
                    message: None,
                    url: None,
                })
            },
    {
        self.fetched_at(clock::read(), outcome, running, lang, platform)
    }
}

/// A document that was fetched `at` one moment is not fetched again before its
/// time to live has passed, and is fetched again once it has; with none to live
/// it is fetched at every check.
pub proof fn law_a_document_is_trusted_for_its_time_to_live(
    config: Config,
    at: Instant,
    doc: Document,
    now: Instant,
)
    ensures
        ({
            let source = Source { config, cache: Some((at, doc)) };
            &&& source.trusted_at(now) is Some <==> clock::nanos_since(now, at) < clock::nanos(
                config.ttl,
            )
            &&& source.trusted_at(now) is Some ==> source.trusted_at(now) == Some(doc)
            &&& clock::nanos(config.ttl) == 0 ==> source.trusted_at(now) is None
        }),
{
}

/// A document that was stale at one moment stays stale: at any moment at least
/// as long after it was cached it is not trusted, so it is fetched again. One
/// that is trusted at a moment was trusted at every moment since it was cached
/// that is no longer after.
pub proof fn law_a_stale_document_stays_stale(
    source: Source,
    at: Instant,
    doc: Document,
    before: Instant,
    now: Instant,
)
    requires
        source.cache == Some((at, doc)),
        clock::nanos_since(before, at) <= clock::nanos_since(now, at),
    ensures
        clock::nanos_since(before, at) >= clock::nanos(source.config.ttl) ==> source.trusted_at(
            now,
        ) is None,
        source.trusted_at(now) is Some ==> source.trusted_at(before) == source.trusted_at(now),
{
}

} // verus!
