//! The bounded, cancellable, progress-reporting analysis pipeline.
//!
//! A run streams records out of a paginated source, fans them out to at most
//! `batch_size` concurrently running workers, and funnels each worker's
//! outcome into a result handler and a shared completion counter.  The
//! concurrent run is driven from outside; this module holds the verified
//! state machine that makes every decision of the producer, the dispatcher
//! and the workers, and whose invariant ties the permits, the queue, the
//! cursor and the counter together.

use vstd::prelude::*;
use vstd::multiset::Multiset;

verus! {

broadcast use vstd::seq_lib::group_to_multiset_ensures, vstd::multiset::group_multiset_axioms;

/// The success or failure of running the analysis unit on one record.
#[derive(Clone, Copy, PartialEq, Eq, Structural, Debug)]
pub enum Outcome {
    Success,
    Failure,
}

/// A sequence of record identifiers in strictly ascending order: the shape in
/// which the paginated source hands records out, and the reason no identifier
/// is ever fetched or dispatched twice.
pub open spec fn strictly_ascending(s: Seq<i32>) -> bool {
    forall|i: int, j: int| 0 <= i < j < s.len() ==> s[i] < s[j]
}

/// The state shared by one pipeline run: the bounded queue between producer
/// and dispatcher, the permit pool capping concurrent workers, the completion
/// counter behind the progress callback, and the cancellation flag.
///
/// The ghost fields record the run's history: which record identifiers were
/// ever enqueued (`emitted`), handed to a worker (`dispatched`), finished by
/// a worker and passed with their outcome to the result handler (`handled`),
/// or drained from the queue without dispatch after cancellation or a source
/// failure (`abandoned`); `in_flight` holds the identifiers dispatched but
/// not yet finished, and `reports` the counts the progress callback has
/// delivered, in delivery order.
pub struct Pipeline {
    /// Queue capacity and concurrency cap; at least 1.
    pub batch_size: usize,
    /// Number of records the source's count query matched at the start.
    pub total: usize,
    /// The last record identifier enqueued; the exclusive lower bound of the
    /// next page fetch.  `None` before anything was fetched.
    pub cursor: Option<i32>,
    /// Identifiers enqueued and not yet taken by the dispatcher, oldest first.
    pub queue: Vec<i32>,
    /// How many records were ever fetched and enqueued.
    pub fetched: usize,
    /// Permits currently held by running workers.
    pub permits_in_use: usize,
    /// Workers that have finished, successfully or not.
    pub completed: usize,
    /// Set once from outside; never cleared within a run.
    pub cancelled: bool,
    /// Set when a count or page fetch failed; the run ends in an error.
    pub source_failed: bool,
    /// Set when the producer has pushed the sentinel: no more records come.
    pub producer_done: bool,
    pub emitted: Ghost<Seq<i32>>,
    pub dispatched: Ghost<Seq<i32>>,
    pub in_flight: Ghost<Multiset<i32>>,
    pub handled: Ghost<Seq<(i32, Outcome)>>,
    pub abandoned: Ghost<Seq<i32>>,
    pub reports: Ghost<Seq<int>>,
}

impl Pipeline {
    /// The identifiers handed to the result handler, in completion order.
    pub open spec fn handled_ids(self) -> Seq<i32> {
        self.handled@.map_values(|p: (i32, Outcome)| p.0)
    }

    /// The run's invariant: every transition below preserves it.
    pub open spec fn wf(self) -> bool {
        &&& self.batch_size >= 1
        &&& self.fetched == self.emitted@.len()
        &&& self.queue@.len() <= self.batch_size
        &&& self.permits_in_use == self.in_flight@.len()
        &&& self.permits_in_use <= self.batch_size
        &&& self.completed == self.handled@.len()
        &&& self.dispatched@.to_multiset() == self.handled_ids().to_multiset().add(self.in_flight@)
        &&& self.emitted@ == self.dispatched@ + self.abandoned@ + self.queue@
        &&& self.emitted@.len() <= self.total
        &&& strictly_ascending(self.emitted@)
        &&& (self.abandoned@.len() > 0 ==> self.cancelled || self.source_failed)
        &&& (self.source_failed ==> self.producer_done)
        &&& (match self.cursor {
            None => self.emitted@.len() == 0,
            Some(c) => self.emitted@.len() > 0 && c == self.emitted@.last(),
        })
        &&& self.reports@ == Seq::new(self.completed as nat, |i: int| i + 1)
    }

    /// A fresh run: nothing fetched, no worker launched, counter at zero.
    pub fn new(batch_size: usize, total: usize) -> (s: Self)
        requires
            batch_size >= 1,
        ensures
            s.wf(),
            s.batch_size == batch_size,
            s.total == total,
            s.cursor is None,
            s.fetched == 0,
            s.queue@ == Seq::<i32>::empty(),
            s.permits_in_use == 0,
            s.completed == 0,
            !s.cancelled,
            !s.source_failed,
            !s.producer_done,
            s.emitted@ == Seq::<i32>::empty(),
            s.dispatched@ == Seq::<i32>::empty(),
            s.in_flight@ == Multiset::<i32>::empty(),
            s.handled@ == Seq::<(i32, Outcome)>::empty(),
            s.abandoned@ == Seq::<i32>::empty(),
            s.reports@ == Seq::<int>::empty(),
    {
        let s = Pipeline {
            batch_size,
            total,
            cursor: None,
            fetched: 0,
            queue: Vec::new(),
            permits_in_use: 0,
            completed: 0,
            cancelled: false,
            source_failed: false,
            producer_done: false,
            emitted: Ghost(Seq::empty()),
            dispatched: Ghost(Seq::empty()),
            in_flight: Ghost(Multiset::empty()),
            handled: Ghost(Seq::empty()),
            abandoned: Ghost(Seq::empty()),
            reports: Ghost(Seq::empty()),
        };
        proof {
            assert(s.handled_ids() =~= Seq::<i32>::empty());
            assert(s.dispatched@.to_multiset() =~= s.handled_ids().to_multiset().add(s.in_flight@));
            assert(s.emitted@ =~= s.dispatched@ + s.abandoned@ + s.queue@);
            assert(s.reports@ =~= Seq::new(s.completed as nat, |i: int| i + 1));
        }
        s
    }

    /// Observe the external cancellation signal.  Idempotent; once set the
    /// flag stays set for the rest of the run.
    pub fn cancel(&mut self)
        requires
            old(self).wf(),
        ensures
            final(self).wf(),
            final(self).cancelled,
            *final(self) == (Pipeline { cancelled: true, ..*old(self) }),
    {
        self.cancelled = true;
    }

    /// The producer enqueues one fetched record.  The bounded queue must have
    /// room (the running producer blocks on a full queue), the identifier must
    /// lie strictly above the cursor (the source pages in ascending identifier
    /// order), and no more records than the initial count are taken.
    pub fn enqueue(&mut self, id: i32)
        requires
            old(self).wf(),
            !old(self).producer_done,
            old(self).queue@.len() < old(self).batch_size,
            old(self).fetched < old(self).total,
            (match old(self).cursor {
                None => true,
                Some(c) => c < id,
            }),
        ensures
            final(self).wf(),
            final(self).queue@ == old(self).queue@.push(id),
            final(self).emitted@ == old(self).emitted@.push(id),
            final(self).cursor == Some(id),
            final(self).fetched == old(self).fetched + 1,
            final(self).batch_size == old(self).batch_size,
            final(self).total == old(self).total,
            final(self).permits_in_use == old(self).permits_in_use,
            final(self).completed == old(self).completed,
            final(self).cancelled == old(self).cancelled,
            final(self).source_failed == old(self).source_failed,
            final(self).producer_done == old(self).producer_done,
            final(self).dispatched == old(self).dispatched,
            final(self).in_flight == old(self).in_flight,
            final(self).handled == old(self).handled,
            final(self).abandoned == old(self).abandoned,
            final(self).reports == old(self).reports,
    {
        proof {
            assert(old(self).emitted@.len() > 0 ==> old(self).emitted@.last() < id);
        }
        self.queue.push(id);
        self.cursor = Some(id);
        self.fetched = self.fetched + 1;
        self.emitted = Ghost(self.emitted@.push(id));
        proof {
            let e = self.emitted@;
            assert(e =~= self.dispatched@ + self.abandoned@ + self.queue@);
            assert forall|i: int, j: int| 0 <= i < j < e.len() implies e[i] < e[j] by {
                let olde = old(self).emitted@;
                if j < olde.len() {
                    assert(olde[i] < olde[j]);
                } else {
                    assert(e[j] == id);
                    if i < olde.len() - 1 {
                        assert(olde[i] < olde[olde.len() - 1]);
                    }
                }
            }
        }
    }

    /// The producer pushes the sentinel: the source is exhausted, or the run
    /// was cancelled, or a fetch failed.  No record is enqueued afterwards.
    pub fn finish_producer(&mut self)
        requires
            old(self).wf(),
            !old(self).producer_done,
        ensures
            final(self).wf(),
            final(self).producer_done,
            *final(self) == (Pipeline { producer_done: true, ..*old(self) }),
    {
        self.producer_done = true;
    }

    /// A count or page fetch of the record source failed.  The producer still
    /// pushes the sentinel (so the dispatcher can never wait forever on the
    /// queue), and the run's result becomes the fatal error.
    pub fn fail_source(&mut self)
        requires
            old(self).wf(),
        ensures
            final(self).wf(),
            final(self).source_failed,
            final(self).producer_done,
            *final(self) == (Pipeline { source_failed: true, producer_done: true, ..*old(self) }),
    {
        self.source_failed = true;
        self.producer_done = true;
    }

    /// The dispatcher takes the oldest queued record, acquires one permit and
    /// launches a worker for it.  Only possible while a permit is free and
    /// neither cancellation nor a source failure has been observed.
    pub fn dispatch(&mut self) -> (id: i32)
        requires
            old(self).wf(),
            !old(self).cancelled,
            !old(self).source_failed,
            old(self).queue@.len() > 0,
            old(self).permits_in_use < old(self).batch_size,
        ensures
            final(self).wf(),
            id == old(self).queue@[0],
            final(self).queue@ == old(self).queue@.drop_first(),
            final(self).dispatched@ == old(self).dispatched@.push(id),
            final(self).in_flight@ == old(self).in_flight@.insert(id),
            final(self).permits_in_use == old(self).permits_in_use + 1,
            final(self).batch_size == old(self).batch_size,
            final(self).total == old(self).total,
            final(self).cursor == old(self).cursor,
            final(self).fetched == old(self).fetched,
            final(self).completed == old(self).completed,
            final(self).cancelled == old(self).cancelled,
            final(self).source_failed == old(self).source_failed,
            final(self).producer_done == old(self).producer_done,
            final(self).emitted == old(self).emitted,
            final(self).handled == old(self).handled,
            final(self).abandoned == old(self).abandoned,
            final(self).reports == old(self).reports,
    {
        proof {
            assert(old(self).abandoned@.len() == 0);
        }
        let id = self.queue.remove(0);
        self.permits_in_use = self.permits_in_use + 1;
        self.dispatched = Ghost(self.dispatched@.push(id));
        self.in_flight = Ghost(self.in_flight@.insert(id));
        proof {
            assert(self.queue@ =~= old(self).queue@.drop_first());
            assert(self.dispatched@.to_multiset() =~= self.handled_ids().to_multiset().add(
                self.in_flight@,
            ));
            assert(self.emitted@ =~= self.dispatched@ + self.abandoned@ + self.queue@);
        }
        id
    }

    /// After cancellation or a source failure the dispatcher drains the queue
    /// without launching workers: the oldest queued record is dropped,
    /// unprocessed and uncounted.
    pub fn discard(&mut self) -> (id: i32)
        requires
            old(self).wf(),
            old(self).cancelled || old(self).source_failed,
            old(self).queue@.len() > 0,
        ensures
            final(self).wf(),
            id == old(self).queue@[0],
            final(self).queue@ == old(self).queue@.drop_first(),
            final(self).abandoned@ == old(self).abandoned@.push(id),
            final(self).batch_size == old(self).batch_size,
            final(self).total == old(self).total,
            final(self).cursor == old(self).cursor,
            final(self).fetched == old(self).fetched,
            final(self).permits_in_use == old(self).permits_in_use,
            final(self).completed == old(self).completed,
            final(self).cancelled == old(self).cancelled,
            final(self).source_failed == old(self).source_failed,
            final(self).producer_done == old(self).producer_done,
            final(self).emitted == old(self).emitted,
            final(self).dispatched == old(self).dispatched,
            final(self).in_flight == old(self).in_flight,
            final(self).handled == old(self).handled,
            final(self).reports == old(self).reports,
    {
        let id = self.queue.remove(0);
        self.abandoned = Ghost(self.abandoned@.push(id));
        proof {
            assert(self.queue@ =~= old(self).queue@.drop_first());
            assert(self.emitted@ =~= self.dispatched@ + self.abandoned@ + self.queue@);
        }
        id
    }

    /// One worker finished: its outcome, success or failure alike, was handed
    /// to the result handler.  The completion counter increments by exactly
    /// one, the worker's permit returns to the pool, and the pair the progress
    /// callback receives — the new count and the initial total — is returned.
    pub fn complete(&mut self, id: i32, outcome: Outcome) -> (progress: (usize, usize))
        requires
            old(self).wf(),
            old(self).in_flight@.count(id) > 0,
        ensures
            final(self).wf(),
            final(self).completed == old(self).completed + 1,
            progress.0 == final(self).completed,
            progress.1 == old(self).total,
            final(self).handled@ == old(self).handled@.push((id, outcome)),
            final(self).in_flight@ == old(self).in_flight@.remove(id),
            final(self).permits_in_use == old(self).permits_in_use - 1,
            final(self).reports@ == old(self).reports@.push(old(self).completed + 1),
            final(self).batch_size == old(self).batch_size,
            final(self).total == old(self).total,
            final(self).cursor == old(self).cursor,
            final(self).fetched == old(self).fetched,
            final(self).queue == old(self).queue,
            final(self).cancelled == old(self).cancelled,
            final(self).source_failed == old(self).source_failed,
            final(self).producer_done == old(self).producer_done,
            final(self).emitted == old(self).emitted,
            final(self).dispatched == old(self).dispatched,
            final(self).abandoned == old(self).abandoned,
    {
        proof {
            assert(old(self).in_flight@.len() > 0);
            assert(old(self).handled_ids().to_multiset().len() + old(self).in_flight@.len()
                == old(self).dispatched@.to_multiset().len());
            assert(old(self).dispatched@.len() <= old(self).emitted@.len()) by {
                assert(old(self).emitted@ == old(self).dispatched@ + old(self).abandoned@ + old(
                    self,
                ).queue@);
            }
        }
        self.permits_in_use = self.permits_in_use - 1;
        self.completed = self.completed + 1;
        self.handled = Ghost(self.handled@.push((id, outcome)));
        self.in_flight = Ghost(self.in_flight@.remove(id));
        self.reports = Ghost(self.reports@.push(self.completed as int));
        proof {
            assert(self.handled_ids() =~= old(self).handled_ids().push(id));
            assert(self.dispatched@.to_multiset() =~= self.handled_ids().to_multiset().add(
                self.in_flight@,
            ));
            assert(self.reports@ =~= Seq::new(self.completed as nat, |i: int| i + 1));
        }
        (self.completed, self.total)
    }

    /// A run is quiescent when the sentinel was pushed, the queue is empty
    /// and every permit is back in the pool: no background work remains.
    pub open spec fn quiescent(self) -> bool {
        &&& self.producer_done
        &&& self.queue@.len() == 0
        &&& self.permits_in_use == 0
    }

    /// The caller's result once the run has quiesced: the number of records
    /// the count query matched at the start — an upper bound on the work
    /// attempted, reached exactly when nothing cut the run short — or the
    /// fatal source error.
    pub fn result(&self) -> (r: Result<usize, PipelineError>)
        requires
            self.wf(),
            self.quiescent(),
        ensures
            r == (if self.source_failed {
                Err::<usize, PipelineError>(PipelineError::SourceFailed)
            } else {
                Ok::<usize, PipelineError>(self.total)
            }),
    {
        if self.source_failed {
            Err(PipelineError::SourceFailed)
        } else {
            Ok(self.total)
        }
    }
}

/// The one fatal error a run can end in: the record source's count or page
/// fetch failed.  Per-record analysis failures are not errors of the run;
/// they reach the result handler as a `Outcome::Failure` instead.
#[derive(Clone, Copy, PartialEq, Eq, Structural, Debug)]
pub enum PipelineError {
    SourceFailed,
}

/// What the producer does next, observed before every page fetch.
pub enum ProducerStep {
    /// Fetch up to `limit` records with identifiers strictly above `after`.
    Fetch { after: Option<i32>, limit: usize },
    /// Stop fetching and push the sentinel.
    Finish,
}

/// What the dispatcher does next, observed before every dequeue.
#[derive(Clone, Copy, PartialEq, Eq, Structural, Debug)]
pub enum DispatcherStep {
    /// Take the oldest queued record, acquire a permit, launch a worker.
    Dispatch,
    /// Cancellation or failure was observed: drop the oldest queued record.
    Discard,
    /// The queue is empty but the producer may still deliver: block on it.
    AwaitRecords,
    /// Every queued record is spoken for; block until a worker returns a permit.
    AwaitPermit,
    /// No records will come any more; block until the in-flight workers finish.
    AwaitWorkers,
    /// Fully quiesced: the run is over.
    Done,
}

impl Pipeline {
    /// The producer's checkpoint decision: once cancellation or a source
    /// failure is observed it never fetches again; otherwise it requests the
    /// next page, strictly after the cursor, of at most one batch.
    pub fn producer_decide(&self) -> (step: ProducerStep)
        requires
            self.wf(),
            !self.producer_done,
        ensures
            (step matches ProducerStep::Fetch { after, limit } ==> after == self.cursor && limit
                == self.batch_size),
            (step is Finish <==> self.cancelled || self.source_failed),
    {
        if self.cancelled || self.source_failed {
            ProducerStep::Finish
        } else {
            ProducerStep::Fetch { after: self.cursor, limit: self.batch_size }
        }
    }

    /// The dispatcher's checkpoint decision, exact for every state: dispatch
    /// while records are queued, a permit is free and nothing stopped the
    /// run; discard queued records once something did; otherwise wait for
    /// records, for a permit, or for the in-flight workers — and only report
    /// `Done` at quiescence.
    pub fn dispatcher_decide(&self) -> (step: DispatcherStep)
        requires
            self.wf(),
        ensures
            (step is Discard <==> (self.cancelled || self.source_failed) && self.queue@.len() > 0),
            (step is Dispatch <==> !(self.cancelled || self.source_failed) && self.queue@.len() > 0
                && self.permits_in_use < self.batch_size),
            (step is AwaitPermit <==> !(self.cancelled || self.source_failed) && self.queue@.len()
                > 0 && self.permits_in_use == self.batch_size),
            (step is AwaitRecords <==> self.queue@.len() == 0 && !self.producer_done && !(
            self.cancelled || self.source_failed)),
            (step is AwaitWorkers <==> self.queue@.len() == 0 && (self.producer_done
                || self.cancelled || self.source_failed) && self.permits_in_use > 0),
            (step is Done <==> self.queue@.len() == 0 && (self.producer_done || self.cancelled
                || self.source_failed) && self.permits_in_use == 0),
    {
        let stopping = self.cancelled || self.source_failed;
        if self.queue.len() > 0 {
            if stopping {
                DispatcherStep::Discard
            } else if self.permits_in_use < self.batch_size {
                DispatcherStep::Dispatch
            } else {
                DispatcherStep::AwaitPermit
            }
        } else if !self.producer_done && !stopping {
            DispatcherStep::AwaitRecords
        } else if self.permits_in_use > 0 {
            DispatcherStep::AwaitWorkers
        } else {
            DispatcherStep::Done
        }
    }
}

/// The worker wrapper's conversion of a crashed analysis unit: where the
/// analysis produced no outcome — it panicked, or its isolated execution
/// context was lost — the record still gets an outcome, the failure variant,
/// so it is still handed to the result handler and still counted.
pub fn outcome_or_failure(analysis: Option<Outcome>) -> (o: Outcome)
    ensures
        o == (match analysis {
            Some(x) => x,
            None => Outcome::Failure,
        }),
{
    match analysis {
        Some(x) => x,
        None => Outcome::Failure,
    }
}

/// What one pipeline run delivered, as the deterministic driver records it.
pub struct RunReport {
    /// The number of records the count query matched at the start.
    pub total: usize,
    /// The result-handler invocations, in completion order: the record's
    /// identifier and the outcome handed over with it.
    pub handled: Vec<(i32, Outcome)>,
    /// The counts the progress callback received, in delivery order.
    pub reports: Vec<usize>,
    /// What the caller gets back: the total, or the fatal source error.
    pub outcome: Result<usize, PipelineError>,
}

/// A whole pipeline run under a deterministic, single-threaded schedule: the
/// producer pages through `records` one batch at a time, the dispatcher
/// dispatches in queue order, and each worker completes — with the outcome
/// `outcomes` assigns to its record — before the next is launched.  When
/// `cancel_after` is `Some(k)`, the cancellation flag is raised as soon as
/// `k` workers have completed, exactly as an outside caller would raise it
/// mid-run.
///
/// The schedule is one of the interleavings the concurrent pipeline can
/// take; every state it passes through is governed by the same invariant and
/// the same transitions as any other interleaving.
pub fn run(
    records: &Vec<i32>,
    outcomes: &Vec<Outcome>,
    batch_size: usize,
    cancel_after: Option<usize>,
) -> (r: RunReport)
    requires
        batch_size >= 1,
        strictly_ascending(records@),
        outcomes@.len() == records@.len(),
    ensures
        r.total == records@.len(),
        r.outcome == Ok::<usize, PipelineError>(r.total),
        r.handled@.len() == (match cancel_after {
            None => records@.len() as int,
            Some(k) => vstd::math::min(k as int, records@.len() as int),
        }),
        forall|i: int|
            0 <= i < r.handled@.len() ==> r.handled@[i] == (records@[i], outcomes@[i]),
        r.reports@.len() == r.handled@.len(),
        forall|i: int| 0 <= i < r.reports@.len() ==> r.reports@[i] as int == i + 1,
{
    let total = records.len();
    let mut st = Pipeline::new(batch_size, total);
    let mut handled: Vec<(i32, Outcome)> = Vec::new();
    let mut reports: Vec<usize> = Vec::new();
    let mut idx: usize = 0;
    if let Some(k) = cancel_after {
        if k == 0 {
            st.cancel();
        }
    }
    proof {
        assert(st.emitted@ =~= records@.take(0));
        assert(st.dispatched@ =~= records@.take(0));
        assert(st.handled_ids() =~= st.dispatched@);
    }
    while idx < records.len() && !st.cancelled
        invariant
            st.wf(),
            st.batch_size == batch_size,
            st.total == records@.len(),
            outcomes@.len() == records@.len(),
            strictly_ascending(records@),
            !st.producer_done,
            !st.source_failed,
            st.queue@.len() == 0,
            st.permits_in_use == 0,
            idx <= records@.len(),
            st.emitted@ == records@.take(idx as int),
            st.handled@ == handled@,
            st.handled_ids() == st.dispatched@,
            st.dispatched@ == records@.take(handled@.len() as int),
            handled@.len() <= idx,
            !st.cancelled ==> handled@.len() == idx,
            (match cancel_after {
                None => !st.cancelled,
                Some(k) => (st.cancelled <==> handled@.len() >= k) && handled@.len() <= k,
            }),
            forall|i: int|
                0 <= i < handled@.len() ==> handled@[i] == (records@[i], outcomes@[i]),
            reports@.len() == handled@.len(),
            forall|i: int| 0 <= i < reports@.len() ==> reports@[i] as int == i + 1,
        decreases records@.len() - idx,
    {
        let remaining = records.len() - idx;
        let page_len = if batch_size < remaining {
            batch_size
        } else {
            remaining
        };
        let mut j: usize = 0;
        while j < page_len
            invariant
                st.wf(),
                st.batch_size == batch_size,
                st.total == records@.len(),
                strictly_ascending(records@),
                !st.producer_done,
                !st.source_failed,
                st.permits_in_use == 0,
                j <= page_len,
                idx + page_len <= records@.len(),
                page_len <= batch_size,
                st.emitted@ == records@.take((idx + j) as int),
                st.queue@ == records@.subrange(idx as int, (idx + j) as int),
                st.dispatched@ == records@.take(idx as int),
                st.handled@ == handled@,
            st.handled_ids() == st.dispatched@,
                st.abandoned@.len() == 0,
                !st.cancelled,
                outcomes@.len() == records@.len(),
                handled@.len() == idx,
                (match cancel_after {
                    None => true,
                    Some(k) => handled@.len() < k,
                }),
                forall|i: int|
                    0 <= i < handled@.len() ==> handled@[i] == (records@[i], outcomes@[i]),
                reports@.len() == handled@.len(),
                forall|i: int| 0 <= i < reports@.len() ==> reports@[i] as int == i + 1,
            decreases page_len - j,
        {
            proof {
                if idx + j > 0 {
                    assert(st.emitted@.last() == records@[(idx + j - 1) as int]);
                    assert(records@[(idx + j - 1) as int] < records@[(idx + j) as int]);
                }
            }
            st.enqueue(records[idx + j]);
            proof {
                assert(st.emitted@ =~= records@.take((idx + j + 1) as int));
                assert(st.queue@ =~= records@.subrange(idx as int, (idx + j + 1) as int));
            }
            j = j + 1;
        }
        idx = idx + page_len;
        while st.queue.len() != 0 && !st.cancelled
            invariant
                st.wf(),
                st.batch_size == batch_size,
                st.total == records@.len(),
                outcomes@.len() == records@.len(),
                strictly_ascending(records@),
                !st.producer_done,
                !st.source_failed,
                st.permits_in_use == 0,
                idx <= records@.len(),
                st.emitted@ == records@.take(idx as int),
                st.handled@ == handled@,
            st.handled_ids() == st.dispatched@,
                st.dispatched@ == records@.take(handled@.len() as int),
                handled@.len() <= idx,
                !st.cancelled ==> st.queue@ == records@.subrange(
                    handled@.len() as int,
                    idx as int,
                ),
                st.cancelled || st.abandoned@.len() == 0,
                (match cancel_after {
                    None => !st.cancelled,
                    Some(k) => (st.cancelled <==> handled@.len() >= k) && handled@.len() <= k,
                }),
                forall|i: int|
                    0 <= i < handled@.len() ==> handled@[i] == (records@[i], outcomes@[i]),
                reports@.len() == handled@.len(),
                forall|i: int| 0 <= i < reports@.len() ==> reports@[i] as int == i + 1,
            decreases st.queue@.len(),
        {
            proof {
                assert(st.queue@.len() > 0);
                assert(handled@.len() < idx);
            }
            let o = outcomes[handled.len()];
            let id = st.dispatch();
            proof {
                assert(id == records@[handled@.len() as int]);
            }
            let progress = st.complete(id, o);
            handled.push((id, o));
            reports.push(progress.0);
            proof {
                assert(st.handled_ids() =~= st.dispatched@);
                assert(st.dispatched@ =~= records@.take(handled@.len() as int));
                assert(st.queue@ =~= records@.subrange(handled@.len() as int, idx as int));
            }
            if let Some(k) = cancel_after {
                if handled.len() >= k {
                    st.cancel();
                }
            }
        }
        while st.queue.len() != 0
            invariant
                st.wf(),
                st.batch_size == batch_size,
                st.total == records@.len(),
                outcomes@.len() == records@.len(),
                strictly_ascending(records@),
                !st.producer_done,
                !st.source_failed,
                st.permits_in_use == 0,
                idx <= records@.len(),
                st.emitted@ == records@.take(idx as int),
                st.handled@ == handled@,
            st.handled_ids() == st.dispatched@,
                st.dispatched@ == records@.take(handled@.len() as int),
                handled@.len() <= idx,
                st.queue@.len() > 0 ==> st.cancelled,
                (match cancel_after {
                    None => !st.cancelled,
                    Some(k) => (st.cancelled <==> handled@.len() >= k) && handled@.len() <= k,
                }),
                forall|i: int|
                    0 <= i < handled@.len() ==> handled@[i] == (records@[i], outcomes@[i]),
                reports@.len() == handled@.len(),
                forall|i: int| 0 <= i < reports@.len() ==> reports@[i] as int == i + 1,
            decreases st.queue@.len(),
        {
            st.discard();
        }
    }
    st.finish_producer();
    let outcome = st.result();
    proof {
        if !st.cancelled {
            assert(handled@.len() == records@.len());
        }
    }
    RunReport { total, handled, reports, outcome }
}

/// The run whose count query fails before anything else happens: the caller
/// gets the fatal error back, no record is fetched, no worker is launched,
/// and the progress callback never fires.
pub fn run_failed_count(batch_size: usize) -> (r: RunReport)
    requires
        batch_size >= 1,
    ensures
        r.outcome == Err::<usize, PipelineError>(PipelineError::SourceFailed),
        r.handled@.len() == 0,
        r.reports@.len() == 0,
{
    let mut st = Pipeline::new(batch_size, 0);
    st.fail_source();
    let outcome = st.result();
    proof {
        lemma_nothing_fetched_nothing_launched(st);
    }
    RunReport { total: 0, handled: Vec::new(), reports: Vec::new(), outcome }
}

/// At no instant do more than `batch_size` workers hold a permit: in every
/// reachable state the permits out, and with them the workers in flight,
/// stay within the configured cap.
pub proof fn lemma_permit_bound(s: Pipeline)
    requires
        s.wf(),
    ensures
        s.permits_in_use <= s.batch_size,
        s.in_flight@.len() <= s.batch_size,
{
}

/// The progress callback's delivery: the counts reported so far, in delivery
/// order, are exactly 1, 2, 3, … up to the current completion count — one
/// report per finished worker, no duplicate, no gap, however the workers'
/// completions interleaved.
pub proof fn lemma_progress_reports(s: Pipeline)
    requires
        s.wf(),
    ensures
        s.reports@.len() == s.completed,
        forall|i: int| 0 <= i < s.reports@.len() ==> s.reports@[i] == i + 1,
{
}

/// A run that quiesced without cancellation and without a source failure
/// processed everything: the completion counter equals the number of records
/// ever fetched, and the result handler saw exactly those records.
pub proof fn lemma_exhaustive_run(s: Pipeline)
    requires
        s.wf(),
        s.quiescent(),
        !s.cancelled,
        !s.source_failed,
    ensures
        s.completed == s.emitted@.len(),
        s.fetched == s.total ==> s.completed == s.total,
        s.handled_ids().to_multiset() == s.emitted@.to_multiset(),
{
    assert(s.abandoned@.len() == 0);
    assert(s.emitted@ =~= s.dispatched@);
    assert(s.in_flight@ =~= Multiset::empty());
    assert(s.handled_ids().to_multiset() =~= s.handled_ids().to_multiset().add(
        Multiset::empty(),
    ));
    assert(s.dispatched@.to_multiset().len() == s.dispatched@.len());
    assert(s.handled_ids().to_multiset().len() == s.handled_ids().len());
}

/// If the run stops before anything was fetched — cancellation signalled
/// before the first page, or the count query itself failed — then no worker
/// was ever launched, nothing was handled, the counter stayed at zero and
/// the progress callback never fired.
pub proof fn lemma_nothing_fetched_nothing_launched(s: Pipeline)
    requires
        s.wf(),
        s.emitted@.len() == 0,
    ensures
        s.dispatched@.len() == 0,
        s.handled@.len() == 0,
        s.completed == 0,
        s.reports@.len() == 0,
{
    assert(s.emitted@ == s.dispatched@ + s.abandoned@ + s.queue@);
    assert(s.dispatched@ =~= Seq::empty());
    assert(s.dispatched@.to_multiset().len() == s.handled_ids().to_multiset().len()
        + s.in_flight@.len());
    assert(s.handled_ids().len() == s.handled@.len());
}

/// Cancellation never loses dispatched work: once every permit is back —
/// which the dispatcher waits for, cancelled or not — every record that was
/// ever dispatched to a worker has been handed to the result handler, each
/// exactly once.
pub proof fn lemma_dispatched_all_handled(s: Pipeline)
    requires
        s.wf(),
        s.permits_in_use == 0,
    ensures
        s.handled_ids().to_multiset() == s.dispatched@.to_multiset(),
{
    assert(s.in_flight@ =~= Multiset::empty());
    assert(s.handled_ids().to_multiset() =~= s.handled_ids().to_multiset().add(
        Multiset::empty(),
    ));
}

/// No record is processed twice and none is skipped: the records handed to
/// workers are exactly the first records fetched, in fetch order, and the
/// result handler never sees the same identifier twice.
pub proof fn lemma_no_duplicates_no_gaps(s: Pipeline)
    requires
        s.wf(),
    ensures
        s.dispatched@ == s.emitted@.take(s.dispatched@.len() as int),
        forall|x: i32| #[trigger] s.handled_ids().to_multiset().count(x) <= 1,
{
    assert(s.emitted@ == s.dispatched@ + s.abandoned@ + s.queue@);
    assert(s.dispatched@ =~= s.emitted@.take(s.dispatched@.len() as int));
    assert(s.emitted@.no_duplicates());
    s.emitted@.lemma_multiset_has_no_duplicates();
    assert(s.emitted@ =~= s.dispatched@ + (s.abandoned@ + s.queue@));
    vstd::seq_lib::lemma_multiset_commutative(
        s.dispatched@,
        s.abandoned@ + s.queue@,
    );
    assert forall|x: i32| #[trigger] s.handled_ids().to_multiset().count(x) <= 1 by {
        assert(s.dispatched@.to_multiset().count(x) == s.handled_ids().to_multiset().count(x)
            + s.in_flight@.count(x));
        assert(s.emitted@.to_multiset().count(x) == s.dispatched@.to_multiset().count(x) + (
        s.abandoned@ + s.queue@).to_multiset().count(x));
        if s.emitted@.to_multiset().count(x) > 1 {
            assert(s.emitted@.to_multiset().contains(x));
        }
    }
}

} // verus!
