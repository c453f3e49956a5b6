//! The queue of not-yet-sent events, held on disk as a file of JSON lines (one
//! event per line) so it survives the app closing.
//!
//! A [`Queue`] is the queue as its file was last read or written. What adds to
//! the file is appended and the file read again; everything else — eviction,
//! [`Queue::drop_front`], [`Queue::clear`] — says what the whole file is to hold
//! instead, so that it can be replaced in one move and a crash partway through
//! leaves either the old file or the new one, never a half-written one.

use crate::json;
use crate::posthog::event;
use crate::posthog::event::Event;
use crate::posthog::lines;
use crate::text;

use vstd::prelude::*;
use vstd::string::StringExecFns;
use vstd::utf8::*;

verus! {

/// How large the queue on disk is allowed to grow before the oldest events are
/// dropped to make room: by default 1,000 events or 1 MiB, whichever is hit
/// first.
pub struct Limits {
    pub max_events: usize,
    pub max_bytes: u64,
}

impl Default for Limits {
    fn default() -> (r: Limits)
        ensures
            r.max_events == 1_000,
            r.max_bytes == 1_048_576,
    {
        Limits { max_events: 1_000, max_bytes: 1_048_576 }
    }
}

/// A readable line of the queue file: the event it parses as, and the line that
/// event is written as, newline included.
pub struct Record {
    pub event: Event,
    pub line: String,
}

/// Why an event was not queued.
#[derive(Debug, Clone, Copy, PartialEq, Eq, Structural)]
pub enum PushError {
    /// Its own line is larger than the whole queue may be. Eviction can only
    /// make room by dropping other events, so it can never fit one that does
    /// not fit on its own.
    TooLarge { line_bytes: u64, max_bytes: u64 },
}

/// How many bytes a record takes in the file.
pub open spec fn weight(record: Record) -> nat {
    encode_utf8(record.line@).len()
}

/// How many bytes the records take in the file together.
pub open spec fn total(records: Seq<Record>) -> nat
    decreases records.len(),
{
    if records.len() == 0 {
        0
    } else {
        weight(records.first()) + total(records.drop_first())
    }
}

/// Whether the records are within both limits.
pub open spec fn fits(records: Seq<Record>, limits: Limits) -> bool {
    records.len() <= limits.max_events && total(records) <= limits.max_bytes
}

/// The newest run of records that is within both limits: the oldest are dropped
/// one at a time until the rest fits.
pub open spec fn newest_run(records: Seq<Record>, limits: Limits) -> Seq<Record>
    decreases records.len(),
{
    if records.len() == 0 || fits(records, limits) {
        records
    } else {
        newest_run(records.drop_first(), limits)
    }
}

/// What eviction leaves of the records of a file of `file_bytes` bytes.
pub open spec fn evicted(records: Seq<Record>, file_bytes: u64, limits: Limits) -> Seq<Record> {
    if records.len() <= limits.max_events && file_bytes <= limits.max_bytes {
        records
    } else {
        newest_run(records, limits)
    }
}

/// How many bytes the file takes after eviction.
pub open spec fn bytes_left(records: Seq<Record>, file_bytes: u64, limits: Limits) -> nat {
    if records.len() <= limits.max_events && file_bytes <= limits.max_bytes {
        file_bytes as nat
    } else {
        total(newest_run(records, limits))
    }
}

/// What a file that holds exactly `records` holds.
pub open spec fn rendered(records: Seq<Record>) -> Seq<char>
    decreases records.len(),
{
    if records.len() == 0 {
        Seq::empty()
    } else {
        records.first().line@ + rendered(records.drop_first())
    }
}

/// The lines that parsed, in their order.
pub open spec fn readable(parsed: Seq<Option<Record>>) -> Seq<Record>
    decreases parsed.len(),
{
    if parsed.len() == 0 {
        Seq::empty()
    } else {
        match parsed.last() {
            Some(record) => readable(parsed.drop_last()).push(record),
            None => readable(parsed.drop_last()),
        }
    }
}

/// The events of the records.
pub open spec fn events(records: Seq<Record>) -> Seq<event::EventView> {
    records.map_values(|record: Record| record.event@)
}

/// The smaller of a count and a length.
pub open spec fn at_most(n: usize, len: nat) -> int {
    if n as nat <= len {
        n as int
    } else {
        len as int
    }
}

/// The event's JSON text as a single line, newline included.
pub fn serialize_line(json: &str) -> (line: String)
    ensures
        line@ == lines::ended(json@),
        line@ == json@.push('\n'),
{
    let line = text::join(json, "\n");
    proof {
        reveal_strlit("\n");
        assert(line@ =~= lines::ended(json@));
    }
    line
}

/// The queue of not-yet-sent events, as its file of JSON lines was last read or
/// written.
pub struct Queue {
    pub limits: Limits,
    pub records: Vec<Record>,
    pub file_bytes: u64,
}

impl View for Queue {
    type V = Seq<Record>;

    open spec fn view(&self) -> Seq<Record> {
        self.records@
    }
}

impl Queue {
    /// Opens a queue whose file has not been read. It reads as empty, as does
    /// one over a file that does not exist yet.
    #[must_use]
    pub fn open(limits: Limits) -> (queue: Queue)
        ensures
            queue.limits == limits,
            queue@ == Seq::<Record>::empty(),
            queue.file_bytes == 0,
    {
        Queue { limits, records: Vec::new(), file_bytes: 0 }
    }

    /// Takes the file as it was read: how large it is, and what each of its
    /// lines parsed as. Lines that did not parse are skipped.
    pub fn readable_events(&mut self, file_bytes: u64, parsed: Vec<Option<Record>>)
        ensures
            final(self)@ == readable(parsed@),
            final(self).records@ == parsed@.filter(|p: Option<Record>| p is Some).map_values(
                |p: Option<Record>| p->0,
            ),
            final(self).file_bytes == file_bytes,
            final(self).limits == old(self).limits,
    {
        let mut parsed = parsed;
        let ghost all = parsed@;
        let mut newest_first: Vec<Record> = Vec::new();
        while parsed.len() > 0
            invariant
                readable(all) == readable(parsed@) + newest_first@.reverse(),
            decreases parsed.len(),
        {
            let ghost before = parsed@;
            let ghost kept = newest_first@;
            match parsed.pop().unwrap() {
                Some(record) => {
                    newest_first.push(record);
                    assert(newest_first@.reverse() =~= seq![record] + kept.reverse());
                    assert(readable(before) =~= readable(parsed@) + seq![record]);
                    assert(readable(before) + kept.reverse() =~= readable(parsed@) + (seq![record]
                        + kept.reverse()));
                },
                None => {},
            }
        }
        let ghost kept = newest_first@.reverse();
        assert(readable(all) =~= kept);
        let mut records: Vec<Record> = Vec::new();
        while newest_first.len() > 0
            invariant
                kept == records@ + newest_first@.reverse(),
            decreases newest_first.len(),
        {
            let ghost before = newest_first@;
            let record = newest_first.pop().unwrap();
            assert(before.reverse() =~= seq![record] + newest_first@.reverse());
            records.push(record);
            assert(kept =~= records@ + newest_first@.reverse());
        }
        assert(kept =~= records@);
        proof {
            law_the_queue_is_the_lines_that_parsed(all);
        }
        self.records = records;
        self.file_bytes = file_bytes;
    }

    /// Whether `line` may be appended to the file. Refuses a line that is
    /// already larger than `max_bytes`, and then the file is not to be touched.
    /// A line that is appended is followed by reading the file again and
    /// [`Queue::evict`].
    ///
    /// # Errors
    ///
    /// [`PushError::TooLarge`] if the line is larger than the queue's byte
    /// limit.
    pub fn push(&self, line: &str) -> (r: Result<(), PushError>)
        ensures
            r is Ok <==> encode_utf8(line@).len() <= self.limits.max_bytes,
            r matches Err(e) ==> e == (PushError::TooLarge {
                line_bytes: encode_utf8(line@).len() as u64,
                max_bytes: self.limits.max_bytes,
            }),
    {
        let line_bytes: u64 = line.as_bytes().len() as u64;
        if line_bytes > self.limits.max_bytes {
            return Err(PushError::TooLarge { line_bytes, max_bytes: self.limits.max_bytes });
        }
        Ok(())
    }

    /// Drops the oldest readable events, if the file is past either limit,
    /// keeping the newest run of events that fits under both — measured by what
    /// their lines will actually weigh once rewritten. Returns what the file is
    /// to hold then, and nothing if it is to stay as it is.
    pub fn evict(&mut self) -> (r: Option<String>)
        ensures
            final(self).limits == old(self).limits,
            final(self)@ == evicted(old(self)@, old(self).file_bytes, old(self).limits),
            r is None <==> old(self)@.len() <= old(self).limits.max_events && old(self).file_bytes
                <= old(self).limits.max_bytes,
            r matches Some(contents) ==> contents@ == rendered(final(self)@),
            final(self).file_bytes == bytes_left(
                old(self)@,
                old(self).file_bytes,
                old(self).limits,
            ),
            r is None ==> *final(self) == *old(self),
            final(self).records@.len() <= old(self).limits.max_events,
            exists|from: int|
                {
                    &&& 0 <= from <= old(self).records@.len()
                    &&& final(self).records@ == #[trigger] old(self).records@.skip(from)
                    &&& from > 0 ==> old(self).records@.len() - from + 1 > old(self).limits.max_events || encode_utf8(
                        old(self).records@.skip(from - 1).map_values(
                            |record: Record| record.line@,
                        ).flatten(),
                    ).len() > old(self).limits.max_bytes
                },
            r matches Some(contents) ==> contents@ == final(self).records@.map_values(
                |record: Record| record.line@,
            ).flatten() && encode_utf8(contents@).len() <= old(self).limits.max_bytes,
    {
        if self.records.len() <= self.limits.max_events && self.file_bytes <= self.limits.max_bytes {
            assert(self.records@ =~= self.records@.skip(0));
            return None;
        }
        let ghost all = self.records@;
        let mut keep_from: usize = self.records.len();
        let mut kept_bytes: u64 = 0;
        assert(all.skip(all.len() as int) =~= Seq::<Record>::empty());
        while keep_from > 0
            invariant_except_break
                keep_from <= all.len(),
                all == self.records@,
                *self == *old(self),
                kept_bytes == total(all.skip(keep_from as int)),
                fits(all.skip(keep_from as int), self.limits),
            ensures
                keep_from <= all.len(),
                all == self.records@,
                *self == *old(self),
                fits(all.skip(keep_from as int), self.limits),
                keep_from > 0 ==> !fits(all.skip(keep_from - 1), self.limits),
            decreases keep_from,
        {
            let index: usize = keep_from - 1;
            let line_bytes: u64 = self.records[index].line.as_str().as_bytes().len() as u64;
            proof {
                assert(all.skip(index as int).drop_first() =~= all.skip(keep_from as int));
                assert(all.skip(index as int).first() == all[index as int]);
            }
            if self.records.len() - index > self.limits.max_events || line_bytes
                > self.limits.max_bytes - kept_bytes {
                break;
            }
            kept_bytes += line_bytes;
            keep_from = index;
        }
        proof {
            lemma_newest_run(all, keep_from as int, self.limits);
        }
        let contents = self.drop_front(keep_from);
        proof {
            lemma_lines_one_after_the_other(self.records@);
            if keep_from > 0 {
                lemma_lines_one_after_the_other(all.skip(keep_from - 1));
            }
            assert(self.records@ == all.skip(keep_from as int));
        }
        Some(contents)
    }

    /// The oldest `n` readable events.
    #[must_use]
    pub fn peek(&self, n: usize) -> (r: Vec<Event>)
        ensures
            event::views(r@) == events(self@.take(at_most(n, self@.len()))),
            r@.len() == if n <= self.records@.len() {
                n as nat
            } else {
                self.records@.len()
            },
            forall|i: int|
                0 <= i < r@.len() ==> {
                    let queued = self.records@[i].event;
                    &&& (#[trigger] r@[i]).uuid@ == queued.uuid@
                    &&& r@[i].event@ == queued.event@
                    &&& r@[i].timestamp@ == queued.timestamp@
                    &&& json::entries(r@[i].properties) == json::entries(queued.properties)
                },
    {
        let mut oldest: Vec<Event> = Vec::new();
        let mut i: usize = 0;
        while i < n && i < self.records.len()
            invariant
                i <= at_most(n, self@.len()),
                event::views(oldest@) == events(self@.take(i as int)),
                oldest@.len() == i,
                forall|j: int| 0 <= j < i ==> (#[trigger] oldest@[j])@ == self.records@[j].event@,
            decreases self.records.len() - i,
        {
            let event = self.records[i].event.clone();
            let ghost before = oldest@;
            oldest.push(event);
            i += 1;
            assert(event::views(oldest@) =~= event::views(before).push(event@));
            assert(events(self@.take(i as int)) =~= events(self@.take(i - 1)).push(
                self@[i - 1].event@,
            ));
        }
        oldest
    }

    /// Removes the first `n` readable events, and any unreadable line before or
    /// among them. Returns what the file is to hold now. Meant to be called
    /// after a batch of `peek`ed events has been sent successfully.
    pub fn drop_front(&mut self, n: usize) -> (contents: String)
        ensures
            final(self)@ == old(self)@.skip(at_most(n, old(self)@.len())),
            final(self).limits == old(self).limits,
            final(self).file_bytes == total(final(self)@),
            contents@ == rendered(final(self)@),
            final(self).records@ == old(self).records@.skip(
                if n <= old(self).records@.len() {
                    n as int
                } else {
                    old(self).records@.len() as int
                },
            ),
            contents@ == final(self).records@.map_values(
                |record: Record| record.line@,
            ).flatten(),
    {
        let keep_from: usize = if n < self.records.len() {
            n
        } else {
            self.records.len()
        };
        let records = self.records.split_off(keep_from);
        assert(records@ =~= old(self)@.skip(keep_from as int));
        self.records = records;
        self.rewrite()
    }

    /// The number of readable events currently queued.
    #[must_use]
    pub fn len(&self) -> (n: usize)
        ensures
            n == self@.len(),
    {
        self.records.len()
    }

    /// Whether the queue currently holds no readable events.
    #[must_use]
    pub fn is_empty(&self) -> (r: bool)
        ensures
            r == (self@.len() == 0),
    {
        self.len() == 0
    }

    /// Empties the queue. Returns what the file is to hold now, which is
    /// nothing.
    pub fn clear(&mut self) -> (contents: String)
        ensures
            final(self)@ == Seq::<Record>::empty(),
            final(self).records@.len() == 0,
            final(self).limits == old(self).limits,
            final(self).file_bytes == 0,
            contents@ == Seq::<char>::empty(),
    {
        self.records = Vec::new();
        self.rewrite()
    }

    /// What the file holds once it is rewritten to hold exactly the queue's
    /// events, one line each.
    pub fn rewrite(&mut self) -> (contents: String)
        ensures
            final(self)@ == old(self)@,
            final(self).limits == old(self).limits,
            final(self).file_bytes == total(old(self)@),
            contents@ == rendered(old(self)@),
            final(self).records@ == old(self).records@,
            contents@ == old(self).records@.map_values(|record: Record| record.line@).flatten(),
            final(self).file_bytes == encode_utf8(contents@).len(),
    {
        let mut contents = String::new();
        let mut i: usize = 0;
        assert(self@.skip(0) =~= self@);
        while i < self.records.len()
            invariant
                i <= self@.len(),
                *self == *old(self),
                contents@ + rendered(self@.skip(i as int)) == rendered(self@),
            decreases self.records.len() - i,
        {
            let ghost before = contents@;
            contents.append(self.records[i].line.as_str());
            assert(self@.skip(i as int).drop_first() =~= self@.skip(i + 1));
            assert(before + rendered(self@.skip(i as int)) =~= contents@ + rendered(
                self@.skip(i + 1),
            ));
            i += 1;
        }
        assert(self@.skip(i as int) =~= Seq::<Record>::empty());
        assert(contents@ =~= rendered(self@));
        proof {
            lemma_rendered_weighs_the_total(self@);
            lemma_lines_one_after_the_other(self@);
        }
        self.file_bytes = contents.as_str().as_bytes().len() as u64;
        contents
    }
}

/// A file that holds exactly the records takes as many bytes as they do.
proof fn lemma_rendered_weighs_the_total(records: Seq<Record>)
    ensures
        encode_utf8(rendered(records)).len() == total(records),
    decreases records.len(),
{
    if records.len() > 0 {
        lemma_rendered_weighs_the_total(records.drop_first());
        lines::lemma_encode_concat(records.first().line@, rendered(records.drop_first()));
    }
}

/// What the records take is what their lines take, one after the other.
proof fn lemma_lines_one_after_the_other(records: Seq<Record>)
    ensures
        rendered(records) == records.map_values(|record: Record| record.line@).flatten(),
        total(records) == encode_utf8(
            records.map_values(|record: Record| record.line@).flatten(),
        ).len(),
    decreases records.len(),
{
    let lines_of_all = records.map_values(|record: Record| record.line@);
    if records.len() > 0 {
        lemma_lines_one_after_the_other(records.drop_first());
        assert(lines_of_all.drop_first() =~= records.drop_first().map_values(
            |record: Record| record.line@,
        ));
        assert(lines_of_all.first() == records.first().line@);
    } else {
        assert(rendered(records) =~= lines_of_all.flatten());
    }
    lemma_rendered_weighs_the_total(records);
}

/// Reading keeps every line that parses, in its order, and nothing else.
pub proof fn law_the_queue_is_the_lines_that_parsed(parsed: Seq<Option<Record>>)
    ensures
        readable(parsed) == parsed.filter(|p: Option<Record>| p is Some).map_values(
            |p: Option<Record>| p->0,
        ),
    decreases parsed.len(),
{
    reveal(Seq::filter);
    let kept = parsed.filter(|p: Option<Record>| p is Some);
    if parsed.len() == 0 {
        assert(readable(parsed) =~= kept.map_values(|p: Option<Record>| p->0));
    } else {
        law_the_queue_is_the_lines_that_parsed(parsed.drop_last());
        assert(readable(parsed) =~= kept.map_values(|p: Option<Record>| p->0));
    }
}

/// Fewer of the oldest records weigh no more.
proof fn lemma_total_of_suffix(records: Seq<Record>, from: int)
    requires
        0 <= from <= records.len(),
    ensures
        total(records.skip(from)) <= total(records),
    decreases from,
{
    if from == 0 {
        assert(records.skip(0) =~= records);
    } else {
        lemma_total_of_suffix(records.drop_first(), from - 1);
        assert(records.drop_first().skip(from - 1) =~= records.skip(from));
    }
}

/// The suffix that fits, with one that does not fit right before it, is the
/// newest run.
proof fn lemma_newest_run(records: Seq<Record>, from: int, limits: Limits)
    requires
        0 <= from <= records.len(),
        fits(records.skip(from), limits),
        from > 0 ==> !fits(records.skip(from - 1), limits),
    ensures
        newest_run(records, limits) == records.skip(from),
    decreases from,
{
    if from == 0 {
        assert(records.skip(0) =~= records);
    } else {
        lemma_total_of_suffix(records, from - 1);
        assert(!fits(records, limits));
        let rest = records.drop_first();
        assert(rest.skip(from - 1) =~= records.skip(from));
        if from > 1 {
            assert(rest.skip(from - 2) =~= records.skip(from - 1));
        }
        lemma_newest_run(rest, from - 1, limits);
    }
}

/// One record more weighs that much more.
proof fn lemma_total_of_push(records: Seq<Record>, record: Record)
    ensures
        total(records.push(record)) == total(records) + weight(record),
    decreases records.len(),
{
    let all = records.push(record);
    if records.len() == 0 {
        assert(total(all.drop_first()) == 0);
    } else {
        lemma_total_of_push(records.drop_first(), record);
        assert(all.drop_first() =~= records.drop_first().push(record));
    }
}

/// The newest run is what is left after the oldest records are dropped.
proof fn lemma_newest_run_is_a_suffix(records: Seq<Record>, limits: Limits) -> (from: int)
    ensures
        0 <= from <= records.len(),
        newest_run(records, limits) == records.skip(from),
        fits(records.skip(from), limits),
        from > 0 ==> !fits(records.skip(from - 1), limits),
    decreases records.len(),
{
    assert(records.skip(0) =~= records);
    if records.len() == 0 || fits(records, limits) {
        0
    } else {
        let rest = records.drop_first();
        let from = lemma_newest_run_is_a_suffix(rest, limits);
        assert(rest.skip(from) =~= records.skip(from + 1));
        if from > 0 {
            assert(rest.skip(from - 1) =~= records.skip(from));
        }
        from + 1
    }
}

/// Eviction leaves the queue, and the file it is held in, within both limits.
pub proof fn law_eviction_keeps_within_the_limits(
    records: Seq<Record>,
    file_bytes: u64,
    limits: Limits,
)
    ensures
        evicted(records, file_bytes, limits).len() <= limits.max_events,
        bytes_left(records, file_bytes, limits) <= limits.max_bytes,
{
    lemma_newest_run_is_a_suffix(records, limits);
}

/// Past a limit the oldest go first, and no more of them than it takes: what
/// eviction leaves is a run of the newest records, in their order, and with the
/// newest of the dropped ones it would be past a limit.
pub proof fn law_the_oldest_go_first(records: Seq<Record>, file_bytes: u64, limits: Limits)
    ensures
        exists|from: int|
            0 <= from <= records.len() && evicted(records, file_bytes, limits)
                == #[trigger] records.skip(from) && (from > 0 ==> !fits(
                records.skip(from - 1),
                limits,
            )),
{
    let from = lemma_newest_run_is_a_suffix(records, limits);
    assert(records.skip(0) =~= records);
    if records.len() <= limits.max_events && file_bytes <= limits.max_bytes {
        assert(evicted(records, file_bytes, limits) == records.skip(0));
    } else {
        assert(evicted(records, file_bytes, limits) == records.skip(from));
    }
}

/// Eviction drops the oldest records and no more of them than it must. Nothing
/// goes from a queue of no more events than allowed, whose lines take no more
/// bytes than allowed, or whose file does not. Otherwise what stays is within
/// both limits, and the newest of the dropped records would have put it past one
/// of them.
pub proof fn law_eviction_drops_no_more_than_it_must(
    records: Seq<Record>,
    file_bytes: u64,
    limits: Limits,
)
    ensures
        records.len() <= limits.max_events && (file_bytes <= limits.max_bytes || encode_utf8(
            records.map_values(|record: Record| record.line@).flatten(),
        ).len() <= limits.max_bytes) ==> evicted(records, file_bytes, limits) == records,
        exists|from: int|
            {
                &&& 0 <= from <= records.len()
                &&& evicted(records, file_bytes, limits) == #[trigger] records.skip(from)
                &&& records.len() - from <= limits.max_events
                &&& records.len() > limits.max_events || file_bytes > limits.max_bytes
                    ==> encode_utf8(
                    records.skip(from).map_values(|record: Record| record.line@).flatten(),
                ).len() <= limits.max_bytes
                &&& from > 0 ==> records.len() - from + 1 > limits.max_events || encode_utf8(
                    records.skip(from - 1).map_values(|record: Record| record.line@).flatten(),
                ).len() > limits.max_bytes
            },
{
    lemma_lines_one_after_the_other(records);
    assert(records.skip(0) =~= records);
    if records.len() <= limits.max_events && file_bytes <= limits.max_bytes {
        assert(evicted(records, file_bytes, limits) == records.skip(0));
    } else {
        let from = lemma_newest_run_is_a_suffix(records, limits);
        lemma_lines_one_after_the_other(records.skip(from));
        if from > 0 {
            lemma_lines_one_after_the_other(records.skip(from - 1));
        }
        assert(evicted(records, file_bytes, limits) == records.skip(from));
    }
}

/// A queue that is within both limits is not evicted from.
pub proof fn law_within_the_limits_nothing_goes(
    records: Seq<Record>,
    file_bytes: u64,
    limits: Limits,
)
    requires
        fits(records, limits),
    ensures
        evicted(records, file_bytes, limits) == records,
{
}

/// An event that was accepted survives the eviction that makes room for it, as
/// long as the queue may hold an event at all.
pub proof fn law_an_accepted_event_stays(
    earlier: Seq<Record>,
    record: Record,
    file_bytes: u64,
    limits: Limits,
)
    requires
        limits.max_events >= 1,
        weight(record) <= limits.max_bytes,
    ensures
        evicted(earlier.push(record), file_bytes, limits).len() > 0,
        evicted(earlier.push(record), file_bytes, limits).last() == record,
{
    let all = earlier.push(record);
    let from = lemma_newest_run_is_a_suffix(all, limits);
    if from == all.len() {
        let newest = all.skip(from - 1);
        assert(newest =~= Seq::<Record>::empty().push(record));
        lemma_total_of_push(Seq::empty(), record);
        assert(fits(newest, limits));
    }
}

/// Evicting again changes nothing.
pub proof fn law_evicting_again_changes_nothing(
    records: Seq<Record>,
    file_bytes: u64,
    limits: Limits,
)
    ensures
        evicted(
            evicted(records, file_bytes, limits),
            bytes_left(records, file_bytes, limits) as u64,
            limits,
        ) == evicted(records, file_bytes, limits),
{
    law_eviction_keeps_within_the_limits(records, file_bytes, limits);
}

/// Events come back oldest first, and dropping as many as were peeked removes
/// exactly those: what was peeked and what is left are the queue as it was.
pub proof fn law_peeked_events_are_the_ones_dropped(records: Seq<Record>, n: usize)
    ensures
        events(records.take(at_most(n, records.len()))) + events(
            records.skip(at_most(n, records.len())),
        ) == events(records),
        events(records.take(at_most(n, records.len()))).len() == at_most(n, records.len()),
        records.skip(at_most(n, records.len())) == records.skip(
            events(records.take(at_most(n, records.len()))).len() as int,
        ),
{
    let k = at_most(n, records.len());
    assert(events(records.take(k)) + events(records.skip(k)) =~= events(records));
}

/// What a file of these bytes holds in its queue, where `parse` says what each
/// line parses as.
pub open spec fn queued(contents: Seq<u8>, parse: spec_fn(Seq<char>) -> Option<Record>) -> Seq<
    Record,
> {
    readable(lines::lines_of(contents).map_values(parse))
}

/// The readable lines of two runs of lines are those of one, then those of the
/// other.
proof fn lemma_readable_concat(a: Seq<Option<Record>>, b: Seq<Option<Record>>)
    ensures
        readable(a + b) == readable(a) + readable(b),
    decreases b.len(),
{
    if b.len() == 0 {
        assert(a + b =~= a);
        assert(readable(a) + readable(b) =~= readable(a));
    } else {
        lemma_readable_concat(a, b.drop_last());
        assert((a + b).drop_last() =~= a + b.drop_last());
        assert(readable(a + b) =~= readable(a) + readable(b));
    }
}

/// Nothing is readable where no line parses.
proof fn lemma_nothing_readable(parsed: Seq<Option<Record>>)
    requires
        forall|i: int| 0 <= i < parsed.len() ==> (#[trigger] parsed[i]) is None,
    ensures
        readable(parsed) == Seq::<Record>::empty(),
    decreases parsed.len(),
{
    if parsed.len() > 0 {
        lemma_nothing_readable(parsed.drop_last());
    }
}

/// Where every line parses, the queue is what they parse as.
proof fn lemma_all_readable(parsed: Seq<Option<Record>>, records: Seq<Record>)
    requires
        parsed.len() == records.len(),
        forall|i: int| 0 <= i < parsed.len() ==> #[trigger] parsed[i] == Some(records[i]),
    ensures
        readable(parsed) == records,
    decreases parsed.len(),
{
    if parsed.len() == 0 {
        assert(readable(parsed) =~= records);
    } else {
        lemma_all_readable(parsed.drop_last(), records.drop_last());
        assert(parsed.last() == Some(records.last()));
        assert(records.drop_last().push(records.last()) =~= records);
    }
}

/// A corrupt line is skipped, not fatal: lines that do not parse take nothing
/// away from the queue that the lines behind them hold.
pub proof fn law_corrupt_lines_are_skipped(
    corrupt: Seq<u8>,
    rest: Seq<u8>,
    parse: spec_fn(Seq<char>) -> Option<Record>,
)
    requires
        lines::is_at_line_start(corrupt),
        forall|i: int|
            0 <= i < lines::lines_of(corrupt).len() ==> parse(
                #[trigger] lines::lines_of(corrupt)[i],
            ) is None,
    ensures
        queued(corrupt + rest, parse) == queued(rest, parse),
{
    lines::law_lines_are_read_apart(corrupt, rest);
    let a = lines::lines_of(corrupt).map_values(parse);
    let b = lines::lines_of(rest).map_values(parse);
    assert(lines::lines_of(corrupt + rest).map_values(parse) =~= a + b);
    lemma_readable_concat(a, b);
    assert forall|i: int| 0 <= i < a.len() implies (#[trigger] a[i]) is None by {
        assert(parse(lines::lines_of(corrupt)[i]) is None);
    }
    lemma_nothing_readable(a);
    assert(readable(a) + readable(b) =~= readable(b));
}

/// An event whose line is appended to the file is queued last, behind
/// everything that was queued before.
pub proof fn law_an_appended_event_is_queued_last(
    contents: Seq<u8>,
    json: Seq<char>,
    record: Record,
    parse: spec_fn(Seq<char>) -> Option<Record>,
)
    requires
        lines::is_at_line_start(contents),
        lines::is_line(json),
        parse(json) == Some(record),
    ensures
        queued(contents + encode_utf8(lines::ended(json)), parse) == queued(contents, parse).push(
            record,
        ),
        lines::is_at_line_start(contents + encode_utf8(lines::ended(json))),
{
    lines::law_an_appended_line_is_read_back_last(contents, json);
    let before = lines::lines_of(contents).map_values(parse);
    let after = lines::lines_of(contents).push(json).map_values(parse);
    assert(after.drop_last() =~= before);
    assert(after.last() == Some(record));
}

/// The queue survives being written and opened again: a file that was rewritten
/// to hold these records reads as these records, if each line parses as its
/// record.
pub proof fn law_a_rewritten_queue_is_read_back(
    records: Seq<Record>,
    jsons: Seq<Seq<char>>,
    parse: spec_fn(Seq<char>) -> Option<Record>,
)
    requires
        jsons.len() == records.len(),
        forall|i: int| 0 <= i < jsons.len() ==> lines::is_line(#[trigger] jsons[i]),
        forall|i: int|
            0 <= i < jsons.len() ==> records[i].line@ == lines::ended(#[trigger] jsons[i]),
        forall|i: int| 0 <= i < jsons.len() ==> parse(#[trigger] jsons[i]) == Some(records[i]),
    ensures
        queued(encode_utf8(rendered(records)), parse) == records,
        lines::is_at_line_start(encode_utf8(rendered(records))),
{
    lemma_rendered_is_joined(records, jsons);
    lines::law_written_lines_are_read_back(jsons);
    lemma_all_readable(jsons.map_values(parse), records);
}

/// A file that holds exactly the records holds their lines one after the other.
proof fn lemma_rendered_is_joined(records: Seq<Record>, jsons: Seq<Seq<char>>)
    requires
        jsons.len() == records.len(),
        forall|i: int|
            0 <= i < jsons.len() ==> records[i].line@ == lines::ended(#[trigger] jsons[i]),
    ensures
        rendered(records) == lines::joined(jsons),
    decreases records.len(),
{
    if records.len() > 0 {
        let rest = jsons.drop_first();
        assert forall|i: int| 0 <= i < rest.len() implies records.drop_first()[i].line@
            == lines::ended(#[trigger] rest[i]) by {
            assert(rest[i] == jsons[i + 1]);
        }
        lemma_rendered_is_joined(records.drop_first(), rest);
        assert(records.first().line@ == lines::ended(jsons[0]));
    }
}

} // verus!
