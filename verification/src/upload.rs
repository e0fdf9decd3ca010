//! Ordered, bounded-concurrency upload scheduling.
//!
//! Sources are pulled in order and numbered 0, 1, 2, …; up to a
//! configured number of uploads run at once and finish in arbitrary
//! order.  Completed results wait in a reorder buffer and are released
//! strictly in ascending sequence order, so the caller sees a
//! deterministic progress stream however the transfers were scheduled.

use vstd::prelude::*;
use crate::retry::{run_with_retries, AttemptOutcome, RetryError};
use crate::timeout::{Estimator, RequestReport};

verus! {

/// One unit of upload work: either in-memory bytes or a filesystem
/// path (read by the caller at upload time), with the destination key.
#[derive(Clone, Debug)]
pub enum ObjectSource {
    /// Upload `data` to `key`.
    Data { data: Vec<u8>, key: String },
    /// Upload the file at `path` (of `size` bytes) to `key`.
    File { path: String, key: String, size: u64 },
}

impl ObjectSource {
    /// The destination key.
    pub open spec fn spec_key(&self) -> Seq<char> {
        match self {
            ObjectSource::Data { key, .. } => key@,
            ObjectSource::File { key, .. } => key@,
        }
    }

    /// The declared byte size, which drives timeout estimation.
    pub open spec fn spec_size(&self) -> int {
        match self {
            ObjectSource::Data { data, .. } => data@.len() as int,
            ObjectSource::File { size, .. } => *size as int,
        }
    }

    /// The declared byte size of this source.
    pub fn byte_size(&self) -> (n: u64)
        ensures
            n == self.spec_size(),
    {
        match self {
            ObjectSource::Data { data, .. } => data.len() as u64,
            ObjectSource::File { size, .. } => *size,
        }
    }
}

/// A put-object request, ready for the storage client; the payload
/// itself (bytes or file contents) travels with the [`ObjectSource`].
#[derive(Clone, Debug)]
pub struct PutRequest {
    pub bucket: String,
    pub key: String,
    /// Declared size of the payload.
    pub size: u64,
}

/// The put request that uploads `source` into `bucket`.
pub fn put_request_for(source: &ObjectSource, bucket: &String) -> (r: PutRequest)
    ensures
        r.bucket@ == bucket@,
        r.key@ == source.spec_key(),
        r.size == source.spec_size(),
{
    let key = match source {
        ObjectSource::Data { key, .. } => key.clone(),
        ObjectSource::File { key, .. } => key.clone(),
    };
    PutRequest { bucket: bucket.clone(), key, size: source.byte_size() }
}

/// Holds completed results until every result with a smaller sequence
/// number has been released.
pub struct ReorderBuffer {
    /// The sequence number the caller is owed next.
    next: usize,
    /// `slots[i]` holds the completed result with sequence number `i`,
    /// if it has arrived and not yet been released.
    slots: Vec<Option<RequestReport>>,
}

impl ReorderBuffer {
    /// Sequence number of the next result to be released.
    pub closed spec fn spec_next(&self) -> int {
        self.next as int
    }

    /// Whether a completed result with sequence number `i` is waiting.
    pub closed spec fn pending(&self, i: int) -> bool {
        0 <= i < self.slots@.len() && self.slots@[i] is Some
    }

    /// The waiting result with sequence number `i`.
    pub closed spec fn pending_report(&self, i: int) -> RequestReport {
        self.slots@[i]->0
    }

    pub closed spec fn well_formed(&self) -> bool {
        &&& self.next <= self.slots@.len()
        &&& forall|i: int|
            #[trigger] self.pending(i) ==> i >= self.spec_next() && self.pending_report(i).seq
                == i
    }

    /// A waiting result always carries the sequence number of its slot
    /// and has not been released yet.
    pub proof fn lemma_pending_shape(&self, i: int)
        requires
            self.well_formed(),
            self.pending(i),
        ensures
            i >= self.spec_next(),
            self.pending_report(i).seq == i,
    {
    }

    /// An empty buffer, owing sequence number 0 first.
    pub fn new() -> (b: ReorderBuffer)
        ensures
            b.well_formed(),
            b.spec_next() == 0,
            forall|i: int| !b.pending(i),
    {
        ReorderBuffer { next: 0, slots: Vec::new() }
    }

    /// Park a completed result until its turn comes.
    pub fn insert(&mut self, report: RequestReport)
        requires
            old(self).well_formed(),
            report.seq >= old(self).spec_next(),
            !old(self).pending(report.seq as int),
            report.seq < usize::MAX,
        ensures
            final(self).well_formed(),
            final(self).spec_next() == old(self).spec_next(),
            final(self).pending(report.seq as int),
            final(self).pending_report(report.seq as int) == report,
            forall|i: int| i != report.seq ==> final(self).pending(i) == old(self).pending(i),
            forall|i: int|
                i != report.seq && final(self).pending(i) ==> final(self).pending_report(i)
                    == old(self).pending_report(i),
    {
        let seq = report.seq;
        while self.slots.len() <= seq
            invariant
                old(self).slots@.len() <= self.slots@.len(),
                forall|i: int|
                    0 <= i < old(self).slots@.len() ==> self.slots@[i] == old(self).slots@[i],
                forall|i: int|
                    old(self).slots@.len() <= i < self.slots@.len() ==> self.slots@[i] is None,
                self.next == old(self).next,
                seq < usize::MAX,
            decreases seq + 1 - self.slots@.len(),
        {
            self.slots.push(Option::None);
        }
        self.slots[seq] = Option::Some(report);
        proof {
            assert forall|i: int| #[trigger] self.pending(i) implies i >= self.spec_next()
                && self.pending_report(i).seq == i by {
                if i != report.seq {
                    assert(old(self).pending(i));
                }
            }
            assert forall|i: int| i != report.seq implies self.pending(i) == old(self).pending(
                i,
            ) by {}
        }
    }

    /// Release the next result in sequence order, if it has arrived.
    pub fn pop_next(&mut self) -> (r: Option<RequestReport>)
        requires
            old(self).well_formed(),
        ensures
            final(self).well_formed(),
            old(self).pending(old(self).spec_next()) ==> {
                &&& r == Option::Some(old(self).pending_report(old(self).spec_next()))
                &&& final(self).spec_next() == old(self).spec_next() + 1
                &&& !final(self).pending(old(self).spec_next())
            },
            !old(self).pending(old(self).spec_next()) ==> r is None && *final(self) == *old(self),
            forall|i: int| i != old(self).spec_next() ==> final(self).pending(i) == old(self).pending(i),
            forall|i: int|
                i != old(self).spec_next() && final(self).pending(i) ==> final(self).pending_report(
                    i,
                ) == old(self).pending_report(i),
    {
        if self.next < self.slots.len() {
            match self.slots[self.next] {
                Option::Some(rep) => {
                    let at = self.next;
                    self.slots[at] = Option::None;
                    self.next = at + 1;
                    proof {
                        assert forall|i: int| #[trigger] self.pending(i) implies i
                            >= self.spec_next() && self.pending_report(i).seq == i by {
                            assert(old(self).pending(i));
                        }
                    }
                    Option::Some(rep)
                },
                Option::None => Option::None,
            }
        } else {
            Option::None
        }
    }
}

/// Schedules one batch of uploads: assigns sequence numbers in pull
/// order, keeps at most `parallel` transfers in flight, and releases
/// completed results strictly in ascending sequence order.
pub struct UploadOrchestrator {
    /// Concurrency bound (`copy_parallelization`).
    pub parallel: usize,
    /// Next sequence number to hand to a pulled source.
    pub next_seq: usize,
    /// Transfers started and not yet completed.
    pub in_flight: usize,
    /// Completed results not yet released.
    pub buffer: ReorderBuffer,
}

impl UploadOrchestrator {
    pub open spec fn well_formed(&self) -> bool {
        &&& self.parallel >= 1
        &&& self.in_flight <= self.parallel
        &&& self.buffer.well_formed()
        &&& forall|i: int| #[trigger] self.buffer.pending(i) ==> i < self.next_seq
        &&& self.buffer.spec_next() <= self.next_seq
    }

    pub fn new(parallel: usize) -> (o: UploadOrchestrator)
        requires
            parallel >= 1,
        ensures
            o.well_formed(),
            o.parallel == parallel,
            o.next_seq == 0,
            o.in_flight == 0,
            o.buffer.spec_next() == 0,
    {
        UploadOrchestrator { parallel, next_seq: 0, in_flight: 0, buffer: ReorderBuffer::new() }
    }

    /// Whether another transfer may be started without exceeding the
    /// concurrency bound.
    pub fn can_start(&self) -> (b: bool)
        ensures
            b == (self.in_flight < self.parallel),
    {
        self.in_flight < self.parallel
    }

    /// Pull one more source: assign it the next sequence number and
    /// count it in flight.  Sequence numbers are handed out 0, 1, 2, …
    /// in pull order.
    pub fn begin_upload(&mut self) -> (seq: usize)
        requires
            old(self).well_formed(),
            old(self).in_flight < old(self).parallel,
            old(self).next_seq < usize::MAX,
        ensures
            final(self).well_formed(),
            seq == old(self).next_seq,
            final(self).next_seq == old(self).next_seq + 1,
            final(self).in_flight == old(self).in_flight + 1,
            final(self).parallel == old(self).parallel,
            final(self).buffer == old(self).buffer,
    {
        let seq = self.next_seq;
        self.next_seq = self.next_seq + 1;
        self.in_flight = self.in_flight + 1;
        seq
    }

    /// Record one completed transfer, in whatever order it finished;
    /// its result waits in the reorder buffer until its turn.
    pub fn finish_upload(&mut self, report: RequestReport)
        requires
            old(self).well_formed(),
            old(self).in_flight >= 1,
            report.seq < old(self).next_seq,
            report.seq >= old(self).buffer.spec_next(),
            !old(self).buffer.pending(report.seq as int),
        ensures
            final(self).well_formed(),
            final(self).in_flight == old(self).in_flight - 1,
            final(self).next_seq == old(self).next_seq,
            final(self).parallel == old(self).parallel,
            final(self).buffer.pending(report.seq as int),
            final(self).buffer.pending_report(report.seq as int) == report,
            final(self).buffer.spec_next() == old(self).buffer.spec_next(),
            forall|i: int|
                i != report.seq ==> final(self).buffer.pending(i) == old(self).buffer.pending(i),
            forall|i: int|
                i != report.seq && final(self).buffer.pending(i)
                    ==> final(self).buffer.pending_report(i) == old(self).buffer.pending_report(i),
    {
        self.in_flight = self.in_flight - 1;
        self.buffer.insert(report);
    }

    /// Release the next result in input order, if it has completed.
    /// Result `i` comes out only after results `0 .. i-1` have come
    /// out, however completion was ordered.
    pub fn next_result(&mut self) -> (r: Option<RequestReport>)
        requires
            old(self).well_formed(),
        ensures
            final(self).well_formed(),
            final(self).in_flight == old(self).in_flight,
            final(self).next_seq == old(self).next_seq,
            final(self).parallel == old(self).parallel,
            old(self).buffer.pending(old(self).buffer.spec_next()) ==> {
                &&& r == Option::Some(
                    old(self).buffer.pending_report(old(self).buffer.spec_next()),
                )
                &&& r->0.seq == old(self).buffer.spec_next()
                &&& final(self).buffer.spec_next() == old(self).buffer.spec_next() + 1
            },
            !old(self).buffer.pending(old(self).buffer.spec_next())
                ==> r is None && final(self).buffer == old(self).buffer,
            forall|i: int|
                i != old(self).buffer.spec_next() ==> final(self).buffer.pending(i) == old(
                    self,
                ).buffer.pending(i),
    {
        proof {
            if old(self).buffer.pending(old(self).buffer.spec_next()) {
                self.buffer.lemma_pending_shape(old(self).buffer.spec_next());
            }
        }
        self.buffer.pop_next()
    }
}


/// Some result among the first `k` of `completed` carries sequence
/// number `v`.
pub open spec fn seq_in_prefix(completed: Seq<RequestReport>, k: int, v: int) -> bool {
    exists|j: int| 0 <= j < k && (#[trigger] completed[j].seq) == v
}

/// `r` is one of the first `k` results of `completed`.
pub open spec fn report_in_prefix(completed: Seq<RequestReport>, k: int, r: RequestReport) -> bool {
    exists|j: int| 0 <= j < k && (#[trigger] completed[j]) == r
}

/// Facts about a shorter prefix carry over to a longer one.
proof fn lemma_prefix_grows(completed: Seq<RequestReport>, k1: int, k2: int)
    requires
        0 <= k1 <= k2,
    ensures
        forall|v: int| #[trigger] seq_in_prefix(completed, k1, v) ==> seq_in_prefix(completed, k2, v),
        forall|r: RequestReport|
            #[trigger] report_in_prefix(completed, k1, r) ==> report_in_prefix(completed, k2, r),
{
    assert forall|v: int| #[trigger] seq_in_prefix(completed, k1, v) implies seq_in_prefix(
        completed,
        k2,
        v,
    ) by {
        let j = choose|j: int| 0 <= j < k1 && (#[trigger] completed[j].seq) == v;
        assert(0 <= j < k2 && completed[j].seq == v);
    }
    assert forall|r: RequestReport| #[trigger] report_in_prefix(completed, k1, r) implies report_in_prefix(
        completed,
        k2,
        r,
    ) by {
        let j = choose|j: int| 0 <= j < k1 && (#[trigger] completed[j]) == r;
        assert(0 <= j < k2 && completed[j] == r);
    }
}

/// Release a batch of completed results in input order: given the
/// results of `n` uploads numbered `0 .. n-1`, completed in an
/// arbitrary order, the output stream is exactly the results for
/// sequence numbers `0, 1, …, n-1`, in that order — one callback per
/// source, whatever the completion order and whatever concurrency
/// produced it.
pub fn deliver_in_order(completed: &Vec<RequestReport>) -> (out: Vec<RequestReport>)
    requires
        completed@.len() < usize::MAX,
        forall|j: int| 0 <= j < completed@.len() ==> (#[trigger] completed@[j].seq) < completed@.len(),
        forall|j1: int, j2: int|
            0 <= j1 < j2 < completed@.len() ==> completed@[j1].seq != completed@[j2].seq,
        forall|v: int| 0 <= v < completed@.len() ==> seq_in_prefix(completed@, completed@.len() as int, v),
    ensures
        out@.len() == completed@.len(),
        forall|i: int| 0 <= i < out@.len() ==> (#[trigger] out@[i].seq) == i,
        forall|i: int|
            0 <= i < out@.len() ==> report_in_prefix(completed@, completed@.len() as int, #[trigger] out@[i]),
{
    let n = completed.len();
    let mut buf = ReorderBuffer::new();
    let mut out: Vec<RequestReport> = Vec::new();
    let mut k: usize = 0;
    while k < n
        invariant
            n == completed@.len(),
            n < usize::MAX,
            0 <= k <= n,
            buf.well_formed(),
            buf.spec_next() == out@.len(),
            buf.spec_next() <= n,
            !buf.pending(buf.spec_next()),
            forall|j: int| 0 <= j < n ==> (#[trigger] completed@[j].seq) < n,
            forall|j1: int, j2: int|
                0 <= j1 < j2 < n ==> completed@[j1].seq != completed@[j2].seq,
            forall|v: int| 0 <= v < n ==> seq_in_prefix(completed@, n as int, v),
            forall|i: int| 0 <= i < out@.len() ==> (#[trigger] out@[i].seq) == i,
            forall|i: int|
                0 <= i < out@.len() ==> report_in_prefix(completed@, k as int, #[trigger] out@[i]),
            forall|j: int|
                0 <= j < k ==> (#[trigger] completed@[j].seq) < buf.spec_next() || buf.pending(
                    completed@[j].seq as int,
                ),
            forall|i: int|
                #[trigger] buf.pending(i) ==> report_in_prefix(
                    completed@,
                    k as int,
                    buf.pending_report(i),
                ),
            forall|i: int| 0 <= i < buf.spec_next() ==> seq_in_prefix(completed@, k as int, i),
        decreases n - k,
    {
        let report = completed[k];
        proof {
            if report.seq < buf.spec_next() {
                assert(seq_in_prefix(completed@, k as int, report.seq as int));
                let j = choose|j: int| 0 <= j < k && (#[trigger] completed@[j].seq) == report.seq as int;
                assert(completed@[j].seq == completed@[k as int].seq);
                assert(false);
            }
            if buf.pending(report.seq as int) {
                buf.lemma_pending_shape(report.seq as int);
                assert(report_in_prefix(completed@, k as int, buf.pending_report(report.seq as int)));
                let j = choose|j: int|
                    0 <= j < k && (#[trigger] completed@[j]) == buf.pending_report(report.seq as int);
                assert(completed@[j].seq == completed@[k as int].seq);
                assert(false);
            }
        }
        buf.insert(report);
        k = k + 1;
        proof {
            lemma_prefix_grows(completed@, k - 1, k as int);
            assert forall|i: int| #[trigger] buf.pending(i) implies report_in_prefix(
                completed@,
                k as int,
                buf.pending_report(i),
            ) by {
                if i == report.seq {
                    assert(completed@[k - 1] == buf.pending_report(i));
                } else {
                    assert(report_in_prefix(completed@, (k - 1) as int, buf.pending_report(i)));
                }
            }
            assert forall|i: int| 0 <= i < buf.spec_next() implies seq_in_prefix(
                completed@,
                k as int,
                i,
            ) by {
                assert(seq_in_prefix(completed@, (k - 1) as int, i));
            }
            assert forall|i: int| 0 <= i < out@.len() implies report_in_prefix(
                completed@,
                k as int,
                out@[i],
            ) by {
                assert(report_in_prefix(completed@, (k - 1) as int, out@[i]));
            }
        }
        loop
            invariant
                n == completed@.len(),
                0 <= k <= n,
                buf.well_formed(),
                buf.spec_next() == out@.len(),
                buf.spec_next() <= n,
                forall|j: int| 0 <= j < n ==> (#[trigger] completed@[j].seq) < n,
                forall|j1: int, j2: int|
                    0 <= j1 < j2 < n ==> completed@[j1].seq != completed@[j2].seq,
                forall|i: int| 0 <= i < out@.len() ==> (#[trigger] out@[i].seq) == i,
                forall|i: int|
                    0 <= i < out@.len() ==> report_in_prefix(completed@, k as int, #[trigger] out@[i]),
                forall|j: int|
                    0 <= j < k ==> (#[trigger] completed@[j].seq) < buf.spec_next() || buf.pending(
                        completed@[j].seq as int,
                    ),
                forall|i: int|
                    #[trigger] buf.pending(i) ==> report_in_prefix(
                        completed@,
                        k as int,
                        buf.pending_report(i),
                    ),
                forall|i: int| 0 <= i < buf.spec_next() ==> seq_in_prefix(completed@, k as int, i),
            ensures
                buf.well_formed(),
                buf.spec_next() == out@.len(),
                buf.spec_next() <= n,
                !buf.pending(buf.spec_next()),
                forall|i: int| 0 <= i < out@.len() ==> (#[trigger] out@[i].seq) == i,
                forall|i: int|
                    0 <= i < out@.len() ==> report_in_prefix(completed@, k as int, #[trigger] out@[i]),
                forall|j: int|
                    0 <= j < k ==> (#[trigger] completed@[j].seq) < buf.spec_next() || buf.pending(
                        completed@[j].seq as int,
                    ),
                forall|i: int|
                    #[trigger] buf.pending(i) ==> report_in_prefix(
                        completed@,
                        k as int,
                        buf.pending_report(i),
                    ),
                forall|i: int| 0 <= i < buf.spec_next() ==> seq_in_prefix(completed@, k as int, i),
            decreases n + 1 - buf.spec_next(),
        {
            proof {
                if buf.pending(buf.spec_next()) {
                    buf.lemma_pending_shape(buf.spec_next());
                }
            }
            let ghost prev_next = buf.spec_next();
            match buf.pop_next() {
                Option::Some(rep) => {
                    proof {
                        assert(report_in_prefix(completed@, k as int, rep));
                        let j = choose|j: int| 0 <= j < k && (#[trigger] completed@[j]) == rep;
                        assert(seq_in_prefix(completed@, k as int, prev_next));
                        assert(completed@[j].seq == rep.seq);
                        assert(rep.seq == prev_next);
                        assert(prev_next < n);
                    }
                    out.push(rep);
                },
                Option::None => {
                    break;
                },
            }
        }
    }
    proof {
        // every sequence number has been fed in, so were the output short,
        // the result numbered `out.len()` would still be waiting and the
        // release loop could not have stopped
        if out@.len() < n {
            let v = out@.len() as int;
            assert(seq_in_prefix(completed@, n as int, v));
            let j = choose|j: int| 0 <= j < n && (#[trigger] completed@[j].seq) == v;
            assert(completed@[j].seq < buf.spec_next() || buf.pending(completed@[j].seq as int));
            assert(false);
        }
        assert forall|i: int| 0 <= i < out@.len() implies report_in_prefix(
            completed@,
            completed@.len() as int,
            #[trigger] out@[i],
        ) by {
            let j = choose|j: int| 0 <= j < n && (#[trigger] completed@[j]) == out@[i];
        }
    }
    out
}

/// Whether a schedule of attempt outcomes reaches success within the
/// given budget.
pub open spec fn has_success_within(outcomes: Seq<AttemptOutcome>, max_attempts: int) -> bool {
    exists|k: int| 0 <= k < max_attempts && (#[trigger] outcomes[k]).is_success()
}

/// Upload a batch of sources against fixed per-source schedules of
/// attempt outcomes, sequentially and fail-fast: sources are numbered
/// 0, 1, 2, … in pull order, each runs through the retry engine
/// against the shared estimator, and the first source to exhaust its
/// budget fails the whole batch with its error — results already
/// earned are discarded, none is delivered twice.  When every source
/// succeeds within its budget, the batch succeeds with one report per
/// source, in input order.
pub fn upload_batch(
    sources: &Vec<ObjectSource>,
    schedules: &Vec<Vec<AttemptOutcome>>,
    max_attempts: usize,
    estimator: &mut Estimator,
) -> (r: Result<Vec<RequestReport>, RetryError>)
    requires
        schedules@.len() == sources@.len(),
        max_attempts >= 1,
        old(estimator).well_formed(),
        forall|i: int|
            0 <= i < schedules@.len() ==> (#[trigger] schedules@[i])@.len() >= max_attempts,
    ensures
        final(estimator).well_formed(),
        (forall|i: int|
            0 <= i < schedules@.len() ==> has_success_within(
                (#[trigger] schedules@[i])@,
                max_attempts as int,
            )) ==> r is Ok,
        r matches Ok(reports) ==> {
            &&& reports@.len() == sources@.len()
            &&& forall|i: int|
                0 <= i < reports@.len() ==> (#[trigger] reports@[i]).seq == i
                    && reports@[i].bytes == sources@[i].spec_size()
        },
        r is Err ==> exists|i: int|
            0 <= i < schedules@.len() && !has_success_within(
                (#[trigger] schedules@[i])@,
                max_attempts as int,
            ),
{
    let mut reports: Vec<RequestReport> = Vec::new();
    let n = sources.len();
    let mut i: usize = 0;
    while i < n
        invariant
            n == sources@.len(),
            schedules@.len() == n,
            max_attempts >= 1,
            0 <= i <= n,
            estimator.well_formed(),
            forall|q: int|
                0 <= q < n ==> (#[trigger] schedules@[q])@.len() >= max_attempts,
            reports@.len() == i,
            forall|q: int|
                0 <= q < i ==> (#[trigger] reports@[q]).seq == q && reports@[q].bytes
                    == sources@[q].spec_size(),
        decreases n - i,
    {
        let size = sources[i].byte_size();
        match run_with_retries(i, size, max_attempts, &schedules[i], estimator) {
            Result::Ok(report) => {
                reports.push(report);
            },
            Result::Err(err) => {
                proof {
                    assert(!has_success_within(schedules@[i as int]@, max_attempts as int));
                }
                return Result::Err(err);
            },
        }
        i = i + 1;
    }
    Result::Ok(reports)
}

} // verus!
