//! Shutting down: every active session is persisted, in batches.
//!
//! The sessions are asked for their state one after the other. Whenever a
//! batch is full it is sent to the persistence processor; what is left at the
//! end makes a last, smaller batch. Then every batch is waited for.

use crate::types::{PersistRequest, PersistenceCommand};
use vstd::prelude::*;

verus! {

/// How many sessions a batch holds.
pub const PERSISTENCE_BATCH_SIZE: usize = 50;

/// Nanoseconds that a batch is waited for: thirty seconds.
pub const BATCH_TIMEOUT: u128 = 30_000_000_000;

/// A request of a shutdown. `T` is a text.
#[derive(Debug, PartialEq, Eq)]
pub enum ShutdownRequest<T> {
    /// Ask this session for its state.
    AskState(T),
    /// Send the batch to the persistence processor.
    SendBatch,
    /// Wait for the batch with this number.
    AwaitBatch(u64),
}

/// What came of waiting for a batch.
#[derive(Debug, Clone, Copy, PartialEq, Eq)]
pub enum BatchOutcome {
    /// It was carried out, and this many sessions were saved.
    Completed(usize),
    /// It was reported as failed.
    Failed,
    /// Nothing will be reported: the processor has stopped.
    Dropped,
    /// Nothing was reported in time.
    TimedOut,
}

/// The outcome of a request of a shutdown. `F` is a session.
#[derive(Debug)]
pub enum ShutdownEvent<F> {
    /// The session as it is to be persisted, if it could be had.
    Session(Option<F>),
    /// Whether the batch was sent.
    Sent(bool),
    /// What came of waiting for the batch.
    Batch(BatchOutcome),
}

/// What a shutdown does next.
#[derive(Debug, Clone, Copy, PartialEq, Eq)]
pub enum ShutdownStage {
    /// Ask the next session.
    Asking,
    /// Send the batch.
    Sending { last: bool },
    /// Wait for the next batch.
    Waiting,
    /// Nothing.
    Finished,
}

/// What a shutdown achieved.
#[derive(Debug, Clone, Copy, PartialEq, Eq)]
pub struct ShutdownReport {
    /// How many sessions were put into batches.
    pub sessions_queued: usize,
    /// How many sessions were saved, by the reports that came in time.
    pub total_persisted: u128,
    /// How many batches were carried out.
    pub batches_succeeded: usize,
    /// How many batches failed.
    pub batches_failed: usize,
    /// How many batches were not reported in time.
    pub batches_timeout: usize,
}

/// A session, by its view.
pub type SessionView = crate::types::SessionFileView;

/// An outcome, by views.
pub type ShutdownEventView = ShutdownEvent<SessionView>;

/// A shutdown: the sessions and how many were asked, the batch that is being
/// filled, how many batches were sent and waited for, the report so far, and
/// what comes next.
#[verifier::ext_equal]
pub struct ShutdownView {
    pub ids: Seq<Seq<char>>,
    pub asked: nat,
    pub batch: Seq<SessionView>,
    pub sent: nat,
    pub awaited: nat,
    pub report: ShutdownReport,
    pub stage: ShutdownStage,
}

/// A report with a further batch.
pub open spec fn with_batch(report: ShutdownReport, outcome: BatchOutcome) -> ShutdownReport {
    match outcome {
        BatchOutcome::Completed(count) => ShutdownReport {
            total_persisted: (report.total_persisted + count) as u128,
            batches_succeeded: (report.batches_succeeded + 1) as usize,
            ..report
        },
        BatchOutcome::Failed => ShutdownReport {
            batches_failed: (report.batches_failed + 1) as usize,
            ..report
        },
        BatchOutcome::Dropped => ShutdownReport {
            batches_failed: (report.batches_failed + 1) as usize,
            ..report
        },
        BatchOutcome::TimedOut => ShutdownReport {
            batches_timeout: (report.batches_timeout + 1) as usize,
            ..report
        },
    }
}

/// A report on nothing.
pub open spec fn empty_report() -> ShutdownReport {
    ShutdownReport {
        sessions_queued: 0,
        total_persisted: 0,
        batches_succeeded: 0,
        batches_failed: 0,
        batches_timeout: 0,
    }
}

impl ShutdownView {
    /// The counts fit together, and a batch is never too large.
    pub open spec fn wf(self) -> bool {
        &&& self.asked <= self.ids.len() <= usize::MAX
        &&& self.report.sessions_queued <= self.asked
        &&& self.sent + self.batch.len() <= self.report.sessions_queued
        &&& self.awaited <= self.sent
        &&& self.report.batches_succeeded + self.report.batches_failed
            + self.report.batches_timeout == self.awaited
        &&& self.report.total_persisted <= self.awaited * 0xffff_ffff_ffff_ffff
        &&& match self.stage {
            ShutdownStage::Asking => self.asked < self.ids.len() && self.batch.len()
                < PERSISTENCE_BATCH_SIZE,
            ShutdownStage::Sending { last } => self.sent < self.report.sessions_queued
                && self.batch.len() <= PERSISTENCE_BATCH_SIZE && (last ==> self.asked
                == self.ids.len()),
            ShutdownStage::Waiting => self.awaited < self.sent && self.batch.len() == 0,
            ShutdownStage::Finished => self.awaited == self.sent && self.batch.len() == 0,
        }
    }

    /// The next batch is waited for, or, when there is none, nothing is left
    /// to do.
    pub open spec fn waiting(self) -> ShutdownView {
        ShutdownView {
            stage: if self.awaited < self.sent {
                ShutdownStage::Waiting
            } else {
                ShutdownStage::Finished
            },
            ..self
        }
    }

    /// The next session is asked, or, when there is none, the last batch sent.
    pub open spec fn collecting(self) -> ShutdownView {
        if self.asked < self.ids.len() {
            ShutdownView { stage: ShutdownStage::Asking, ..self }
        } else if self.batch.len() > 0 {
            ShutdownView { stage: ShutdownStage::Sending { last: true }, ..self }
        } else {
            self.waiting()
        }
    }

    /// The shutdown after a session was asked.
    pub open spec fn with_session(self, session: Option<SessionView>) -> ShutdownView {
        match session {
            Some(session) => {
                let next = ShutdownView {
                    asked: self.asked + 1,
                    batch: self.batch.push(session),
                    report: ShutdownReport {
                        sessions_queued: (self.report.sessions_queued + 1) as usize,
                        ..self.report
                    },
                    ..self
                };
                if next.batch.len() >= PERSISTENCE_BATCH_SIZE {
                    ShutdownView { stage: ShutdownStage::Sending { last: false }, ..next }
                } else {
                    next.collecting()
                }
            },
            None => ShutdownView { asked: self.asked + 1, ..self }.collecting(),
        }
    }

    /// The shutdown after a batch was sent, or could not be sent. When it could
    /// not, the batch is given up, and no further session is asked.
    pub open spec fn with_sent(self, sent: bool, last: bool) -> ShutdownView {
        if !sent {
            ShutdownView { batch: Seq::empty(), ..self }.waiting()
        } else {
            let next = ShutdownView { batch: Seq::empty(), sent: self.sent + 1, ..self };
            if last {
                next.waiting()
            } else {
                next.collecting()
            }
        }
    }

    /// The request that comes next.
    pub open spec fn request(self) -> Option<ShutdownRequest<Seq<char>>> {
        match self.stage {
            ShutdownStage::Asking => Some(ShutdownRequest::AskState(self.ids[self.asked as int])),
            ShutdownStage::Sending { last } => Some(ShutdownRequest::SendBatch),
            ShutdownStage::Waiting => Some(ShutdownRequest::AwaitBatch(self.awaited as u64)),
            ShutdownStage::Finished => None,
        }
    }

    /// The shutdown after an outcome. An outcome that does not answer the
    /// request changes nothing.
    pub open spec fn step(self, event: ShutdownEventView) -> ShutdownView {
        match (self.stage, event) {
            (ShutdownStage::Asking, ShutdownEvent::Session(session)) => self.with_session(session),
            (ShutdownStage::Sending { last }, ShutdownEvent::Sent(sent)) => self.with_sent(
                sent,
                last,
            ),
            (ShutdownStage::Waiting, ShutdownEvent::Batch(outcome)) => ShutdownView {
                awaited: self.awaited + 1,
                report: with_batch(self.report, outcome),
                ..self
            }.waiting(),
            _ => self,
        }
    }

    /// The shutdown after a list of outcomes.
    pub open spec fn run(self, events: Seq<ShutdownEventView>) -> ShutdownView
        decreases events.len(),
    {
        if events.len() == 0 {
            self
        } else {
            self.run(events.drop_last()).step(events.last())
        }
    }
}

/// A shutdown at its start.
pub open spec fn shutdown_run(ids: Seq<Seq<char>>) -> ShutdownView {
    ShutdownView {
        ids,
        asked: 0,
        batch: Seq::empty(),
        sent: 0,
        awaited: 0,
        report: empty_report(),
        stage: ShutdownStage::Finished,
    }.collecting()
}

/// The view of an outcome.
pub open spec fn event_view(event: ShutdownEvent<PersistRequest>) -> ShutdownEventView {
    match event {
        ShutdownEvent::Session(Some(session)) => ShutdownEvent::Session(Some(session@)),
        ShutdownEvent::Session(None) => ShutdownEvent::Session(None),
        ShutdownEvent::Sent(sent) => ShutdownEvent::Sent(sent),
        ShutdownEvent::Batch(outcome) => ShutdownEvent::Batch(outcome),
    }
}

/// The view of an optional request.
pub open spec fn shutdown_request_view(request: Option<ShutdownRequest<String>>) -> Option<
    ShutdownRequest<Seq<char>>,
> {
    match request {
        Some(ShutdownRequest::AskState(id)) => Some(ShutdownRequest::AskState(id@)),
        Some(ShutdownRequest::SendBatch) => Some(ShutdownRequest::SendBatch),
        Some(ShutdownRequest::AwaitBatch(number)) => Some(ShutdownRequest::AwaitBatch(number)),
        None => None,
    }
}

/// A shutdown.
#[derive(Debug)]
pub struct ShutdownRun {
    ids: Vec<String>,
    asked: usize,
    batch: Vec<PersistRequest>,
    sent: usize,
    awaited: usize,
    report: ShutdownReport,
    stage: ShutdownStage,
}

impl View for ShutdownRun {
    type V = ShutdownView;

    closed spec fn view(&self) -> ShutdownView {
        ShutdownView {
            ids: self.ids@.map_values(|id: String| id@),
            asked: self.asked as nat,
            batch: crate::processor::session_views(self.batch@),
            sent: self.sent as nat,
            awaited: self.awaited as nat,
            report: self.report,
            stage: self.stage,
        }
    }
}

/// A report with a further batch.
fn add_batch(report: ShutdownReport, outcome: BatchOutcome) -> (next: ShutdownReport)
    requires
        report.total_persisted <= usize::MAX * 0xffff_ffff_ffff_ffff,
        report.batches_succeeded < usize::MAX,
        report.batches_failed < usize::MAX,
        report.batches_timeout < usize::MAX,
    ensures
        next == with_batch(report, outcome),
{
    let mut next = report;
    match outcome {
        BatchOutcome::Completed(count) => {
            next.total_persisted = report.total_persisted + count as u128;
            next.batches_succeeded = report.batches_succeeded + 1;
        },
        BatchOutcome::Failed => {
            next.batches_failed = report.batches_failed + 1;
        },
        BatchOutcome::Dropped => {
            next.batches_failed = report.batches_failed + 1;
        },
        BatchOutcome::TimedOut => {
            next.batches_timeout = report.batches_timeout + 1;
        },
    }
    next
}

impl ShutdownRun {
    /// Starts shutting down the sessions with these ids.
    pub fn new(ids: Vec<String>) -> (run: Self)
        ensures
            run@ == shutdown_run(ids@.map_values(|id: String| id@)),
            run@.ids == ids@.map_values(|id: String| id@),
            run@.wf(),
    {
        let mut run = ShutdownRun {
            ids,
            asked: 0,
            batch: Vec::new(),
            sent: 0,
            awaited: 0,
            report: ShutdownReport {
                sessions_queued: 0,
                total_persisted: 0,
                batches_succeeded: 0,
                batches_failed: 0,
                batches_timeout: 0,
            },
            stage: ShutdownStage::Finished,
        };
        assert(run@.batch =~= Seq::<SessionView>::empty());
        assert(run.ids@.len() == run.ids.len());
        run.collect();
        run
    }

    /// Goes on to wait for the next batch, or to the end.
    fn wait(&mut self)
        ensures
            final(self)@ == old(self)@.waiting(),
    {
        self.stage = if self.awaited < self.sent {
            ShutdownStage::Waiting
        } else {
            ShutdownStage::Finished
        };
    }

    /// Goes on to the next session, or to the last batch.
    fn collect(&mut self)
        ensures
            final(self)@ == old(self)@.collecting(),
    {
        if self.asked < self.ids.len() {
            self.stage = ShutdownStage::Asking;
        } else if self.batch.len() > 0 {
            self.stage = ShutdownStage::Sending { last: true };
        } else {
            self.wait();
        }
    }

    /// The request that comes next, until the shutdown is over.
    pub fn next_request(&self) -> (request: Option<ShutdownRequest<String>>)
        requires
            self@.wf(),
        ensures
            shutdown_request_view(request) == self@.request(),
    {
        match self.stage {
            ShutdownStage::Asking => Some(
                ShutdownRequest::AskState(self.ids[self.asked].clone()),
            ),
            ShutdownStage::Sending { last: _ } => Some(ShutdownRequest::SendBatch),
            ShutdownStage::Waiting => Some(ShutdownRequest::AwaitBatch(self.awaited as u64)),
            ShutdownStage::Finished => None,
        }
    }

    /// Hands out the command that sends the batch, when that comes next. Its
    /// completion is to be reported under the number by which the batch is
    /// waited for.
    pub fn take_batch(&mut self) -> (command: Option<PersistenceCommand>)
        requires
            old(self)@.wf(),
        ensures
            final(self)@.wf(),
            match command {
                Some(PersistenceCommand::PersistBatch { sessions, completion }) => {
                    &&& old(self)@.stage is Sending
                    &&& crate::processor::session_views(sessions@) == old(self)@.batch
                    &&& completion == Some(old(self)@.sent as u64)
                    &&& final(self)@ == (ShutdownView { batch: Seq::empty(), ..old(self)@ })
                },
                Some(_) => false,
                None => !(old(self)@.stage is Sending) && final(self)@ == old(self)@,
            },
    {
        match self.stage {
            ShutdownStage::Sending { last: _ } => {
                let mut sessions: Vec<PersistRequest> = Vec::new();
                std::mem::swap(&mut sessions, &mut self.batch);
                assert(self@.batch =~= Seq::<SessionView>::empty());
                Some(
                    PersistenceCommand::PersistBatch {
                        sessions,
                        completion: Some(self.sent as u64),
                    },
                )
            },
            _ => None,
        }
    }

    /// Goes on with the outcome of the request.
    pub fn advance(&mut self, event: ShutdownEvent<PersistRequest>)
        requires
            old(self)@.wf(),
        ensures
            final(self)@ == old(self)@.step(event_view(event)),
            final(self)@.wf(),
    {
        let ghost before = self@;
        match (self.stage, event) {
            (ShutdownStage::Asking, ShutdownEvent::Session(session)) => {
                self.asked = self.asked + 1;
                match session {
                    Some(session) => {
                        self.batch.push(session);
                        self.report.sessions_queued = self.report.sessions_queued + 1;
                        assert(self@.batch =~= before.batch.push(session@));
                        if self.batch.len() >= PERSISTENCE_BATCH_SIZE {
                            self.stage = ShutdownStage::Sending { last: false };
                        } else {
                            self.collect();
                        }
                    },
                    None => {
                        self.collect();
                    },
                }
            },
            (ShutdownStage::Sending { last }, ShutdownEvent::Sent(sent)) => {
                self.batch = Vec::new();
                assert(self@.batch =~= Seq::<SessionView>::empty());
                if !sent {
                    self.wait();
                } else {
                    self.sent = self.sent + 1;
                    if last {
                        self.wait();
                    } else {
                        self.collect();
                    }
                }
            },
            (ShutdownStage::Waiting, ShutdownEvent::Batch(outcome)) => {
                self.report = add_batch(self.report, outcome);
                self.awaited = self.awaited + 1;
                self.wait();
            },
            _ => {},
        }
    }

    /// What the shutdown has achieved so far.
    pub fn report(&self) -> (report: ShutdownReport)
        ensures
            report == self@.report,
    {
        self.report
    }
}

/// The batches that were sent in the course of a shutdown.
pub open spec fn sent_batches(ids: Seq<Seq<char>>, events: Seq<ShutdownEventView>) -> Seq<
    Seq<SessionView>,
>
    decreases events.len(),
{
    if events.len() == 0 {
        Seq::empty()
    } else {
        let rest = events.drop_last();
        let before = shutdown_run(ids).run(rest);
        if before.stage is Sending && events.last() == ShutdownEventView::Sent(true) {
            sent_batches(ids, rest).push(before.batch)
        } else {
            sent_batches(ids, rest)
        }
    }
}

/// The sessions that could be had in the course of a shutdown, in their order.
pub open spec fn had_sessions(ids: Seq<Seq<char>>, events: Seq<ShutdownEventView>) -> Seq<
    SessionView,
>
    decreases events.len(),
{
    if events.len() == 0 {
        Seq::empty()
    } else {
        let rest = events.drop_last();
        match (shutdown_run(ids).run(rest).stage, events.last()) {
            (ShutdownStage::Asking, ShutdownEvent::Session(Some(session))) => had_sessions(
                ids,
                rest,
            ).push(session),
            _ => had_sessions(ids, rest),
        }
    }
}

/// Whether every batch could be sent in the course of a shutdown.
pub open spec fn every_send_succeeds(
    ids: Seq<Seq<char>>,
    events: Seq<ShutdownEventView>,
) -> bool
    decreases events.len(),
{
    events.len() > 0 ==> {
        let rest = events.drop_last();
        &&& every_send_succeeds(ids, rest)
        &&& !(shutdown_run(ids).run(rest).stage is Sending && events.last()
            == ShutdownEventView::Sent(false))
    }
}

/// The sessions of some batches, one batch after the other.
pub open spec fn joined(batches: Seq<Seq<SessionView>>) -> Seq<SessionView>
    decreases batches.len(),
{
    if batches.len() == 0 {
        Seq::empty()
    } else {
        joined(batches.drop_last()) + batches.last()
    }
}

/// Whether all batches are full, but for the last one when the shutdown has
/// gone on to wait for them.
pub open spec fn batches_are_full(batches: Seq<Seq<SessionView>>, stage: ShutdownStage) -> bool {
    &&& forall|i: int|
        0 <= i < batches.len() ==> 0 < (#[trigger] batches[i]).len() <= PERSISTENCE_BATCH_SIZE
    &&& forall|i: int|
        0 <= i < batches.len() && (i + 1 < batches.len() || stage is Asking || stage is Sending)
            ==> (#[trigger] batches[i]).len() == PERSISTENCE_BATCH_SIZE
}

/// Whether the batch that is to be sent is full, or is the last one and not
/// empty.
spec fn batch_is_ready(state: ShutdownView) -> bool {
    match state.stage {
        ShutdownStage::Sending { last } => if last {
            0 < state.batch.len() < PERSISTENCE_BATCH_SIZE
        } else {
            state.batch.len() == PERSISTENCE_BATCH_SIZE
        },
        _ => true,
    }
}

/// Every outcome keeps the counts together.
proof fn lemma_step_wf(state: ShutdownView, event: ShutdownEventView)
    requires
        state.wf(),
    ensures
        state.step(event).wf(),
        state.step(event).ids == state.ids,
{
}

/// The invariant of a shutdown.
proof fn lemma_shutdown_invariant(ids: Seq<Seq<char>>, events: Seq<ShutdownEventView>)
    requires
        ids.len() <= usize::MAX,
    ensures
        ({
            let state = shutdown_run(ids).run(events);
            let sent = sent_batches(ids, events);
            &&& state.wf()
            &&& state.ids == ids
            &&& batch_is_ready(state)
            &&& sent.len() == state.sent
            &&& batches_are_full(sent, state.stage)
            &&& state.report.sessions_queued == had_sessions(ids, events).len()
            &&& every_send_succeeds(ids, events) ==> joined(sent) + state.batch == had_sessions(
                ids,
                events,
            )
            &&& every_send_succeeds(ids, events) && !(state.stage is Asking || state.stage
                is Sending) ==> state.asked == ids.len()
        }),
    decreases events.len(),
{
    if events.len() == 0 {
        assert(joined(sent_batches(ids, events)) + Seq::<SessionView>::empty() =~= had_sessions(
            ids,
            events,
        ));
    } else {
        let rest = events.drop_last();
        let event = events.last();
        lemma_shutdown_invariant(ids, rest);
        let before = shutdown_run(ids).run(rest);
        let state = shutdown_run(ids).run(events);
        let earlier = sent_batches(ids, rest);
        let sent = sent_batches(ids, events);
        lemma_step_wf(before, event);
        match (before.stage, event) {
            (ShutdownStage::Asking, ShutdownEvent::Session(Some(session))) => {
                assert(joined(earlier) + before.batch.push(session) =~= (joined(earlier)
                    + before.batch).push(session));
            },
            (ShutdownStage::Sending { last }, ShutdownEvent::Sent(true)) => {
                assert(sent == earlier.push(before.batch));
                assert(sent.drop_last() =~= earlier);
                assert(joined(sent) == joined(earlier) + before.batch);
                assert(joined(sent) + Seq::<SessionView>::empty() =~= joined(sent));
                assert forall|i: int| 0 <= i < sent.len() implies 0 < (#[trigger] sent[i]).len()
                    <= PERSISTENCE_BATCH_SIZE by {
                    if i < earlier.len() {
                        assert(sent[i] == earlier[i]);
                    }
                }
                assert forall|i: int|
                    0 <= i < sent.len() && (i + 1 < sent.len() || state.stage is Asking
                        || state.stage is Sending) implies (#[trigger] sent[i]).len()
                    == PERSISTENCE_BATCH_SIZE by {
                    if i < earlier.len() {
                        assert(sent[i] == earlier[i]);
                    }
                }
            },
            _ => {},
        }
    }
}

/// Sessions are sent in batches of fixed size; only the last batch may be
/// smaller, and none is empty.
pub proof fn law_batches_have_a_fixed_size(ids: Seq<Seq<char>>, events: Seq<ShutdownEventView>)
    requires
        ids.len() <= usize::MAX,
    ensures
        batches_are_full(sent_batches(ids, events), shutdown_run(ids).run(events).stage),
{
    lemma_shutdown_invariant(ids, events);
}

/// No session is lost, doubled or reordered on the way into the batches: as
/// long as every batch can be sent, the batches and the one that is being
/// filled are the sessions that could be had.
pub proof fn law_batches_hold_every_session(ids: Seq<Seq<char>>, events: Seq<ShutdownEventView>)
    requires
        ids.len() <= usize::MAX,
        every_send_succeeds(ids, events),
    ensures
        joined(sent_batches(ids, events)) + shutdown_run(ids).run(events).batch == had_sessions(
            ids,
            events,
        ),
        shutdown_run(ids).run(events).report.sessions_queued == had_sessions(ids, events).len(),
{
    lemma_shutdown_invariant(ids, events);
}

/// A shutdown that is over has asked every session, sent every session that
/// could be had, and knows of every batch what became of it, as long as every
/// batch could be sent.
pub proof fn law_finished_shutdowns_are_complete(
    ids: Seq<Seq<char>>,
    events: Seq<ShutdownEventView>,
)
    requires
        ids.len() <= usize::MAX,
        every_send_succeeds(ids, events),
        shutdown_run(ids).run(events).stage is Finished,
    ensures
        ({
            let state = shutdown_run(ids).run(events);
            let sent = sent_batches(ids, events);
            &&& state.asked == ids.len()
            &&& joined(sent) == had_sessions(ids, events)
            &&& state.report.batches_succeeded + state.report.batches_failed
                + state.report.batches_timeout == sent.len()
        }),
{
    lemma_shutdown_invariant(ids, events);
    let state = shutdown_run(ids).run(events);
    assert(joined(sent_batches(ids, events)) + state.batch =~= joined(sent_batches(ids, events)));
}

/// Every batch that was sent is accounted for at the end, also when one could
/// not be sent.
pub proof fn law_every_batch_is_accounted_for(ids: Seq<Seq<char>>, events: Seq<ShutdownEventView>)
    requires
        ids.len() <= usize::MAX,
    ensures
        ({
            let state = shutdown_run(ids).run(events);
            state.stage is Finished ==> state.report.batches_succeeded
                + state.report.batches_failed + state.report.batches_timeout == sent_batches(
                ids,
                events,
            ).len()
        }),
{
    lemma_shutdown_invariant(ids, events);
}

/// Without sessions there is nothing to do.
pub proof fn law_no_sessions_no_work()
    ensures
        shutdown_run(Seq::empty()).stage is Finished,
        shutdown_run(Seq::empty()).report == empty_report(),
{
}

/// What became of a batch counts once, in its place: a completed one with the
/// sessions that were saved, a failed or dropped one as failed, and one that was
/// not reported in time as that. The sessions in batches stay as they were.
pub proof fn law_outcomes_count_in_their_place(report: ShutdownReport, count: usize)
    requires
        report.total_persisted + count <= u128::MAX,
        report.batches_succeeded < usize::MAX,
        report.batches_failed < usize::MAX,
        report.batches_timeout < usize::MAX,
    ensures
        ({
            let completed = with_batch(report, BatchOutcome::Completed(count));
            let failed = with_batch(report, BatchOutcome::Failed);
            let dropped = with_batch(report, BatchOutcome::Dropped);
            let late = with_batch(report, BatchOutcome::TimedOut);
            &&& completed.total_persisted == report.total_persisted + count
            &&& completed.batches_succeeded == report.batches_succeeded + 1
            &&& completed.batches_failed == report.batches_failed
            &&& completed.batches_timeout == report.batches_timeout
            &&& completed.sessions_queued == report.sessions_queued
            &&& failed.total_persisted == report.total_persisted
            &&& failed.batches_succeeded == report.batches_succeeded
            &&& failed.batches_failed == report.batches_failed + 1
            &&& failed.batches_timeout == report.batches_timeout
            &&& failed.sessions_queued == report.sessions_queued
            &&& dropped == failed
            &&& late.total_persisted == report.total_persisted
            &&& late.batches_succeeded == report.batches_succeeded
            &&& late.batches_failed == report.batches_failed
            &&& late.batches_timeout == report.batches_timeout + 1
            &&& late.sessions_queued == report.sessions_queued
        }),
{
}

/// A session that could be had goes to the end of the batch and is counted; one
/// that could not is passed over. The batch is sent as soon as it has fifty
/// sessions, and at the end when it has any; else the next session is asked.
pub proof fn law_sessions_fill_the_batch(state: ShutdownView, session: SessionView)
    requires
        state.stage is Asking,
        state.asked < state.ids.len(),
        state.report.sessions_queued < usize::MAX,
    ensures
        state.request() == Some(ShutdownRequest::AskState(state.ids[state.asked as int])),
        ({
            let after = state.step(ShutdownEvent::Session(Some(session)));
            &&& after.batch == state.batch + seq![session]
            &&& after.asked == state.asked + 1
            &&& after.sent == state.sent && after.awaited == state.awaited && after.ids == state.ids
            &&& after.report.sessions_queued == state.report.sessions_queued + 1
            &&& after.report.total_persisted == state.report.total_persisted
            &&& state.batch.len() + 1 >= 50 ==> after.stage == (ShutdownStage::Sending {
                last: false,
            })
            &&& state.batch.len() + 1 < 50 && state.asked + 1 < state.ids.len() ==> after.stage
                is Asking
            &&& state.batch.len() + 1 < 50 && state.asked + 1 == state.ids.len() ==> after.stage
                == (ShutdownStage::Sending { last: true })
        }),
        ({
            let after = state.step(ShutdownEvent::Session(None));
            &&& after.batch == state.batch
            &&& after.asked == state.asked + 1
            &&& after.sent == state.sent && after.awaited == state.awaited && after.ids == state.ids
            &&& after.report == state.report
            &&& state.asked + 1 < state.ids.len() ==> after.stage is Asking
            &&& state.asked + 1 == state.ids.len() && state.batch.len() > 0 ==> after.stage == (
            ShutdownStage::Sending { last: true })
            &&& state.asked + 1 == state.ids.len() && state.batch.len() == 0 && state.awaited
                < state.sent ==> after.stage is Waiting
            &&& state.asked + 1 == state.ids.len() && state.batch.len() == 0 && state.awaited
                == state.sent ==> after.stage is Finished
        }),
{
    assert(state.batch.push(session) =~= state.batch + seq![session]);
}

/// A batch that was sent is to be waited for, and the next sessions are asked,
/// unless it was the last. One that could not be sent is given up, and no further
/// session is asked.
pub proof fn law_sent_batches_are_waited_for(state: ShutdownView, last: bool)
    requires
        state.stage == (ShutdownStage::Sending { last }),
        state.asked <= state.ids.len(),
        state.awaited <= state.sent,
    ensures
        state.request() == Some(ShutdownRequest::<Seq<char>>::SendBatch),
        ({
            let after = state.step(ShutdownEvent::Sent(true));
            &&& after.sent == state.sent + 1
            &&& after.batch.len() == 0
            &&& after.asked == state.asked && after.ids == state.ids && after.report == state.report
            &&& after.awaited == state.awaited
            &&& !last && state.asked < state.ids.len() ==> after.stage is Asking
            &&& last || state.asked == state.ids.len() ==> after.stage is Waiting
        }),
        ({
            let after = state.step(ShutdownEvent::Sent(false));
            &&& after.sent == state.sent
            &&& after.batch.len() == 0
            &&& after.asked == state.asked && after.ids == state.ids && after.report == state.report
            &&& after.awaited == state.awaited
            &&& state.awaited < state.sent ==> after.stage is Waiting
            &&& state.awaited == state.sent ==> after.stage is Finished
        }),
{
}

/// The batches are waited for in their order, each once.
pub proof fn law_batches_are_waited_for_in_order(state: ShutdownView, outcome: BatchOutcome)
    requires
        state.stage is Waiting,
        state.awaited < state.sent <= u64::MAX,
    ensures
        state.request() matches Some(ShutdownRequest::AwaitBatch(number)) && number
            == state.awaited,
        ({
            let after = state.step(ShutdownEvent::Batch(outcome));
            &&& after.awaited == state.awaited + 1
            &&& after.report == with_batch(state.report, outcome)
            &&& after.sent == state.sent && after.asked == state.asked && after.ids == state.ids
            &&& after.batch == state.batch
            &&& state.awaited + 1 < state.sent ==> after.stage is Waiting
            &&& state.awaited + 1 == state.sent ==> after.stage is Finished && after.request()
                is None
        }),
{
}

/// A shutdown starts with its first session, with nothing in the batch and
/// nothing to report; outcomes are seen as they are.
pub proof fn law_shutdowns_start_with_the_first_session(
    ids: Seq<Seq<char>>,
    session: PersistRequest,
    sent: bool,
    outcome: BatchOutcome,
)
    requires
        ids.len() > 0,
    ensures
        ({
            let start = shutdown_run(ids);
            &&& start.ids == ids
            &&& start.request() == Some(ShutdownRequest::AskState(ids[0]))
            &&& start.batch.len() == 0 && start.sent == 0 && start.awaited == 0 && start.asked == 0
            &&& start.report.sessions_queued == 0 && start.report.total_persisted == 0
            &&& start.report.batches_succeeded == 0 && start.report.batches_failed == 0
                && start.report.batches_timeout == 0
        }),
        event_view(ShutdownEvent::Session(Some(session))) == ShutdownEventView::Session(
            Some(session@),
        ),
        event_view(ShutdownEvent::Session(None)) == ShutdownEventView::Session(None),
        event_view(ShutdownEvent::Sent(sent)) == ShutdownEventView::Sent(sent),
        event_view(ShutdownEvent::Batch(outcome)) == ShutdownEventView::Batch(outcome),
{
}

/// No batch ever has more than fifty sessions, and every one but the last has
/// fifty.
pub proof fn law_batches_have_fifty_sessions(
    ids: Seq<Seq<char>>,
    events: Seq<ShutdownEventView>,
    i: int,
)
    requires
        ids.len() <= usize::MAX,
        0 <= i < sent_batches(ids, events).len(),
    ensures
        1 <= sent_batches(ids, events)[i].len() <= 50,
        i + 1 < sent_batches(ids, events).len() ==> sent_batches(ids, events)[i].len() == 50,
{
    lemma_shutdown_invariant(ids, events);
}

/// The requests of a shutdown are seen as they are.
pub proof fn law_shutdown_requests_are_seen_as_they_are(id: String, number: u64)
    ensures
        shutdown_request_view(Some(ShutdownRequest::AskState(id))) == Some(
            ShutdownRequest::AskState(id@),
        ),
        shutdown_request_view(Some(ShutdownRequest::SendBatch)) == Some(
            ShutdownRequest::<Seq<char>>::SendBatch,
        ),
        shutdown_request_view(Some(ShutdownRequest::AwaitBatch(number))) == Some(
            ShutdownRequest::<Seq<char>>::AwaitBatch(number),
        ),
        shutdown_request_view(None) is None,
{
}

/// A finished shutdown stays what it came to and asks for nothing; before that, an
/// outcome that answers another question than the one that was asked changes
/// nothing.
pub proof fn law_shutdowns_wait_for_their_answer(state: ShutdownView, event: ShutdownEventView)
    ensures
        state.stage is Finished ==> state.step(event) == state && (state.request() is None),
        state.stage is Asking && !(event is Session) ==> state.step(event) == state,
        state.stage is Sending && !(event is Sent) ==> state.step(event) == state,
        state.stage is Waiting && !(event is Batch) ==> state.step(event) == state,
{
}

} // verus!
