//! The persistence processor: carrying out persistence commands, one after the
//! other.

use crate::path::SessionPath;
use crate::persist::{persist_session_to_disk, PersistError, PersistJob, SessionPersistJob};
use crate::persistence::{verify_path_within_base, DiskEvent, DiskRequest, PathCheck, PathFailure};
use crate::session_id::{sanitize_session_id, SessionIdError};
use crate::types::{PersistRequest, PersistedSessionFile, PersistenceCommand, PersistenceConfig};
use vstd::prelude::*;

verus! {

/// Why a session could not be deleted.
#[derive(Debug, Clone, Copy, PartialEq, Eq)]
pub enum DeleteError {
    /// The session id was refused.
    SessionId(SessionIdError),
    /// The session directory could not be removed.
    Remove,
}

/// A session on its way off the disk. `P` is a path. `dir` is the session
/// directory, `base` the directory of the store, both resolved.
#[derive(Debug)]
pub enum DeleteJob<P> {
    /// Check that the session directory stays within the store.
    Verify { check: PathCheck<P> },
    /// Remove the session directory.
    Remove { dir: P, base: P },
    /// The path of the session directory was refused.
    Refused { failure: PathFailure, path: P, base: P },
    /// The session is gone.
    Deleted,
    /// The session could not be deleted.
    Failed { error: DeleteError },
}

/// A deletion on concrete values.
pub type SessionDeleteJob = DeleteJob<SessionPath>;

/// A deletion, by views.
pub type DeleteJobView = DeleteJob<crate::path::PathView>;

impl View for DeleteJob<SessionPath> {
    type V = DeleteJobView;

    open spec fn view(&self) -> DeleteJobView {
        match *self {
            DeleteJob::Verify { check } => DeleteJob::Verify { check: check@ },
            DeleteJob::Remove { dir, base } => DeleteJob::Remove { dir: dir@, base: base@ },
            DeleteJob::Refused { failure, path, base } => DeleteJob::Refused {
                failure,
                path: path@,
                base: base@,
            },
            DeleteJob::Deleted => DeleteJob::Deleted,
            DeleteJob::Failed { error } => DeleteJob::Failed { error },
        }
    }
}

/// A deletion once its path check has come to a verdict.
pub open spec fn delete_checked(check: crate::persistence::PathCheckView) -> DeleteJobView {
    match check {
        PathCheck::Inside { path, base } => DeleteJob::Remove { dir: path, base },
        PathCheck::Refused { failure, path, base } => DeleteJob::Refused { failure, path, base },
        _ => DeleteJob::Verify { check },
    }
}

/// A deletion at its start.
pub open spec fn delete_job(
    sessions_dir: crate::path::PathView,
    session_id: Seq<char>,
) -> DeleteJobView {
    match crate::session_id::id_problem(session_id, crate::session_id::all_id_chars(session_id)) {
        Some(error) => DeleteJob::Failed { error: DeleteError::SessionId(error) },
        None => DeleteJob::Verify {
            check: crate::persistence::path_check(sessions_dir.push(session_id), sessions_dir),
        },
    }
}

impl DeleteJob<crate::path::PathView> {
    /// The request that comes next.
    pub open spec fn request(self) -> Option<crate::persistence::DiskRequestView> {
        match self {
            DeleteJob::Verify { check } => check.request(),
            DeleteJob::Remove { dir, base } => Some(DiskRequest::RemoveDir(dir)),
            DeleteJob::Refused { .. } => None,
            DeleteJob::Deleted => None,
            DeleteJob::Failed { .. } => None,
        }
    }

    /// The deletion after an outcome. An outcome that does not answer the
    /// request changes nothing.
    pub open spec fn step(self, event: crate::persistence::DiskEventView) -> DeleteJobView {
        match (self, event) {
            (DeleteJob::Verify { check }, _) => delete_checked(check.step(event)),
            (DeleteJob::Remove { dir, base }, DiskEvent::Done(done)) => if done {
                DeleteJob::Deleted
            } else {
                DeleteJob::Failed { error: DeleteError::Remove }
            },
            _ => self,
        }
    }

    /// The deletion after a list of outcomes.
    pub open spec fn run(self, events: Seq<crate::persistence::DiskEventView>) -> DeleteJobView
        decreases events.len(),
    {
        if events.len() == 0 {
            self
        } else {
            self.run(events.drop_last()).step(events.last())
        }
    }
}

/// The deletion, once its path check has come to a verdict.
fn after_check(check: PathCheck<SessionPath>) -> (job: DeleteJob<SessionPath>)
    ensures
        job@ == delete_checked(check@),
{
    match check {
        PathCheck::Inside { path, base } => DeleteJob::Remove { dir: path, base },
        PathCheck::Refused { failure, path, base } => DeleteJob::Refused { failure, path, base },
        other => DeleteJob::Verify { check: other },
    }
}

impl DeleteJob<SessionPath> {
    /// The request that comes next, until the deletion is over.
    pub fn next_request(&self) -> (request: Option<DiskRequest<SessionPath, String>>)
        ensures
            crate::persistence::request_view(request) == self@.request(),
    {
        match self {
            DeleteJob::Verify { check } => check.next_request(),
            DeleteJob::Remove { dir, base: _ } => Some(DiskRequest::RemoveDir(dir.clone())),
            DeleteJob::Refused { .. } => None,
            DeleteJob::Deleted => None,
            DeleteJob::Failed { .. } => None,
        }
    }

    /// Goes on with the outcome of the request.
    pub fn advance(self, event: DiskEvent<SessionPath, String>) -> (next: Self)
        ensures
            next@ == self@.step(event@),
    {
        match (self, event) {
            (DeleteJob::Verify { check }, event) => after_check(check.advance(event)),
            (DeleteJob::Remove { dir: _, base: _ }, DiskEvent::Done(done)) => if done {
                DeleteJob::Deleted
            } else {
                DeleteJob::Failed { error: DeleteError::Remove }
            },
            (job, _) => job,
        }
    }
}

/// Starts deleting a session from disk, below the directory of the store.
pub fn delete_session_from_disk(config: &PersistenceConfig, session_id: &str) -> (job: DeleteJob<
    SessionPath,
>)
    ensures
        job@ == delete_job(config.sessions_dir@, session_id@),
{
    match sanitize_session_id(session_id) {
        Ok(safe_id) => {
            let dir = config.sessions_dir.join(safe_id.as_str());
            DeleteJob::Verify { check: verify_path_within_base(dir, config.sessions_dir.clone()) }
        },
        Err(error) => DeleteJob::Failed { error: DeleteError::SessionId(error) },
    }
}

/// A batch of sessions on their way to the disk: the sessions, how many of
/// them were started, the one that is being written, and what became of those
/// before it (`None` for a session that was saved).
#[verifier::ext_equal]
pub struct BatchView {
    pub sessions_dir: crate::path::PathView,
    pub sessions: Seq<crate::types::SessionFileView>,
    pub started: nat,
    pub current: Option<crate::persist::PersistJobView>,
    pub results: Seq<Option<PersistError>>,
}

/// What became of a session, once its job is over.
pub open spec fn job_result(job: crate::persist::PersistJobView) -> Option<Option<PersistError>> {
    match job {
        PersistJob::Saved { .. } => Some(None),
        PersistJob::Failed { error } => Some(Some(error)),
        _ => None,
    }
}

/// How many sessions were saved.
pub open spec fn successes(results: Seq<Option<PersistError>>) -> nat
    decreases results.len(),
{
    if results.len() == 0 {
        0
    } else if results.last() is None {
        successes(results.drop_last()) + 1
    } else {
        successes(results.drop_last())
    }
}

/// How many sessions could not be saved.
pub open spec fn failures(results: Seq<Option<PersistError>>) -> nat
    decreases results.len(),
{
    if results.len() == 0 {
        0
    } else if results.last() is None {
        failures(results.drop_last())
    } else {
        failures(results.drop_last()) + 1
    }
}

impl BatchView {
    /// Every session that was started has come to a result, but for the one
    /// that is being written.
    pub open spec fn wf(self) -> bool {
        &&& self.started <= self.sessions.len()
        &&& self.results.len() + (if self.current is Some {
            1int
        } else {
            0int
        }) == self.started
    }

    /// The batch once it waits for the file system, or is over: what a session
    /// came to is noted and the next one started, as long as no request has to
    /// be made for it.
    pub open spec fn settled(self) -> BatchView
        decreases
                self.sessions.len() - self.started,
                if self.current is Some {
                    1int
                } else {
                    0int
                },
    {
        match self.current {
            Some(job) => match job_result(job) {
                Some(result) => BatchView {
                    current: None,
                    results: self.results.push(result),
                    ..self
                }.settled(),
                None => self,
            },
            None => if self.started < self.sessions.len() {
                BatchView {
                    current: Some(
                        crate::persist::persist_job(
                            self.sessions_dir,
                            self.sessions[self.started as int],
                        ),
                    ),
                    started: self.started + 1,
                    ..self
                }.settled()
            } else {
                self
            },
        }
    }

    /// The request that comes next.
    pub open spec fn request(self) -> Option<crate::persistence::DiskRequestView> {
        match self.current {
            Some(job) => job.request(),
            None => None,
        }
    }

    /// The batch after an outcome.
    pub open spec fn step(self, event: crate::persistence::DiskEventView) -> BatchView {
        match self.current {
            Some(job) => BatchView { current: Some(job.step(event)), ..self }.settled(),
            None => self,
        }
    }

    /// The batch after a list of outcomes.
    pub open spec fn run(self, events: Seq<crate::persistence::DiskEventView>) -> BatchView
        decreases events.len(),
    {
        if events.len() == 0 {
            self
        } else {
            self.run(events.drop_last()).step(events.last())
        }
    }

    /// Whether the batch is over.
    pub open spec fn over(self) -> bool {
        self.current is None
    }
}

/// The views of a list of sessions.
pub open spec fn session_views(sessions: Seq<PersistRequest>) -> Seq<
    crate::types::SessionFileView,
> {
    sessions.map_values(|session: PersistRequest| session@)
}

/// A batch at its start.
pub open spec fn batch(
    sessions_dir: crate::path::PathView,
    sessions: Seq<crate::types::SessionFileView>,
) -> BatchView {
    BatchView {
        sessions_dir,
        sessions,
        started: 0,
        current: None,
        results: Seq::empty(),
    }.settled()
}

/// A batch of sessions on their way to the disk, one after the other. One that
/// cannot be written does not keep the others from being written.
#[derive(Debug)]
pub struct BatchRun {
    config: PersistenceConfig,
    sessions: Vec<PersistRequest>,
    started: usize,
    current: Option<SessionPersistJob>,
    results: Vec<Option<PersistError>>,
}

/// The view of an optional job.
pub open spec fn job_view(job: Option<SessionPersistJob>) -> Option<
    crate::persist::PersistJobView,
> {
    match job {
        Some(j) => Some(j@),
        None => None,
    }
}

impl View for BatchRun {
    type V = BatchView;

    closed spec fn view(&self) -> BatchView {
        BatchView {
            sessions_dir: self.config.sessions_dir@,
            sessions: session_views(self.sessions@),
            started: self.started as nat,
            current: job_view(self.current),
            results: self.results@,
        }
    }
}

impl BatchRun {
    /// Starts on a batch.
    pub fn new(config: &PersistenceConfig, sessions: Vec<PersistRequest>) -> (run: Self)
        ensures
            run@ == batch(config.sessions_dir@, session_views(sessions@)),
            run@.wf(),
    {
        let mut run = BatchRun {
            config: config.clone(),
            sessions,
            started: 0,
            current: None,
            results: Vec::new(),
        };
        run.settle();
        run
    }

    /// Notes what sessions came to and starts the next ones, as long as no
    /// request has to be made for them.
    fn settle(&mut self)
        requires
            old(self)@.wf(),
        ensures
            final(self)@ == old(self)@.settled(),
            final(self)@.wf(),
    {
        let ghost before = self@;
        loop
            invariant
                self@.wf(),
                self@.settled() == before.settled(),
            ensures
                self@.wf(),
                self@ == before.settled(),
            decreases
                    self@.sessions.len() - self@.started,
                    if self@.current is Some {
                        1int
                    } else {
                        0int
                    },
        {
            let ghost here = self@;
            let result: Option<Option<PersistError>> = match &self.current {
                Some(PersistJob::Saved { .. }) => Some(None),
                Some(PersistJob::Failed { error }) => Some(Some(*error)),
                _ => None,
            };
            if let Some(result) = result {
                self.results.push(result);
                self.current = None;
                assert(self@ =~= BatchView {
                    current: None,
                    results: here.results.push(result),
                    ..here
                });
                continue;
            }
            if self.current.is_some() || self.started >= self.sessions.len() {
                break;
            }
            let request: &PersistRequest = &self.sessions[self.started];
            assert(request@ == here.sessions[here.started as int]);
            self.current = Some(persist_session_to_disk(&self.config, request));
            self.started = self.started + 1;
            assert(self@ =~= BatchView {
                current: Some(
                    crate::persist::persist_job(
                        here.sessions_dir,
                        here.sessions[here.started as int],
                    ),
                ),
                started: here.started + 1,
                ..here
            });
        }
    }

    /// The request that comes next, until the batch is over.
    pub fn next_request(&self) -> (request: Option<DiskRequest<SessionPath, String>>)
        ensures
            crate::persistence::request_view(request) == self@.request(),
    {
        match &self.current {
            Some(job) => job.next_request(),
            None => None,
        }
    }

    /// Goes on with the outcome of the request.
    pub fn advance(self, event: DiskEvent<SessionPath, String>) -> (next: Self)
        requires
            self@.wf(),
        ensures
            next@ == self@.step(event@),
            next@.wf(),
    {
        let ghost before = self@;
        let BatchRun { config, sessions, started, current, results } = self;
        match current {
            Some(job) => {
                let mut next = BatchRun {
                    config,
                    sessions,
                    started,
                    current: Some(job.advance(event)),
                    results,
                };
                assert(next@ =~= BatchView {
                    current: Some(before.current->0.step(event@)),
                    ..before
                });
                next.settle();
                next
            },
            None => BatchRun { config, sessions, started, current: None, results },
        }
    }

    /// The session that is to be written as text, when that comes next.
    pub fn session_to_serialize(&self) -> (file: Option<&PersistedSessionFile>)
        ensures
            match file {
                Some(session) => self@.current matches Some(PersistJob::Serialize {
                    dir,
                    base,
                    file,
                }) && file == session@,
                None => !(self@.current matches Some(PersistJob::Serialize { .. })),
            },
    {
        match &self.current {
            Some(job) => job.session_to_serialize(),
            None => None,
        }
    }

    /// What became of the sessions so far: `None` for one that was saved.
    pub fn results(&self) -> (results: &Vec<Option<PersistError>>)
        ensures
            results@ == self@.results,
    {
        &self.results
    }

    /// How many sessions were saved so far.
    pub fn success_count(&self) -> (count: usize)
        ensures
            count == successes(self@.results),
    {
        let mut count: usize = 0;
        let mut i: usize = 0;
        while i < self.results.len()
            invariant
                i <= self.results.len(),
                count <= i,
                count == successes(self.results@.take(i as int)),
            decreases self.results.len() - i,
        {
            assert(self.results@.take(i + 1).drop_last() =~= self.results@.take(i as int));
            if self.results[i].is_none() {
                count = count + 1;
            }
            i = i + 1;
        }
        assert(self.results@.take(i as int) =~= self.results@);
        count
    }
}

/// A command that is being carried out.
#[derive(Debug)]
pub enum CommandRun {
    /// A session is being written.
    Persist { job: SessionPersistJob },
    /// A batch of sessions is being written.
    Batch { run: BatchRun, completion: Option<u64> },
    /// A session is being deleted.
    Delete { job: SessionDeleteJob },
}

/// A command that is being carried out, by views.
pub enum CommandView {
    Persist { job: crate::persist::PersistJobView },
    Batch { run: BatchView, completion: Option<u64> },
    Delete { job: DeleteJobView },
}

impl View for CommandRun {
    type V = CommandView;

    open spec fn view(&self) -> CommandView {
        match *self {
            CommandRun::Persist { job } => CommandView::Persist { job: job@ },
            CommandRun::Batch { run, completion } => CommandView::Batch { run: run@, completion },
            CommandRun::Delete { job } => CommandView::Delete { job: job@ },
        }
    }
}

/// A command at its start.
pub open spec fn command_run(
    sessions_dir: crate::path::PathView,
    command: PersistenceCommand,
) -> CommandView {
    match command {
        PersistenceCommand::Persist { request } => CommandView::Persist {
            job: crate::persist::persist_job(sessions_dir, request@),
        },
        PersistenceCommand::PersistBatch { sessions, completion } => CommandView::Batch {
            run: batch(sessions_dir, session_views(sessions@)),
            completion,
        },
        PersistenceCommand::Delete { session_id } => CommandView::Delete {
            job: delete_job(sessions_dir, session_id@),
        },
    }
}

impl CommandView {
    /// A batch is well formed.
    pub open spec fn wf(self) -> bool {
        self matches CommandView::Batch { run, completion } ==> run.wf()
    }

    /// The request that comes next.
    pub open spec fn request(self) -> Option<crate::persistence::DiskRequestView> {
        match self {
            CommandView::Persist { job } => job.request(),
            CommandView::Batch { run, completion } => run.request(),
            CommandView::Delete { job } => job.request(),
        }
    }

    /// The command after an outcome.
    pub open spec fn step(self, event: crate::persistence::DiskEventView) -> CommandView {
        match self {
            CommandView::Persist { job } => CommandView::Persist { job: job.step(event) },
            CommandView::Batch { run, completion } => CommandView::Batch {
                run: run.step(event),
                completion,
            },
            CommandView::Delete { job } => CommandView::Delete { job: job.step(event) },
        }
    }

    /// The report that a batch owes once it is over, when one was asked for:
    /// under which number, and how many sessions were saved.
    pub open spec fn report(self) -> Option<(u64, nat)> {
        match self {
            CommandView::Batch { run, completion: Some(number) } => if run.over() {
                Some((number, successes(run.results)))
            } else {
                None
            },
            _ => None,
        }
    }
}

impl CommandRun {
    /// The request that comes next, until the command is carried out.
    pub fn next_request(&self) -> (request: Option<DiskRequest<SessionPath, String>>)
        ensures
            crate::persistence::request_view(request) == self@.request(),
    {
        match self {
            CommandRun::Persist { job } => job.next_request(),
            CommandRun::Batch { run, completion: _ } => run.next_request(),
            CommandRun::Delete { job } => job.next_request(),
        }
    }

    /// Goes on with the outcome of the request.
    pub fn advance(self, event: DiskEvent<SessionPath, String>) -> (next: Self)
        requires
            self@.wf(),
        ensures
            next@ == self@.step(event@),
            next@.wf(),
    {
        match self {
            CommandRun::Persist { job } => CommandRun::Persist { job: job.advance(event) },
            CommandRun::Batch { run, completion } => CommandRun::Batch {
                run: run.advance(event),
                completion,
            },
            CommandRun::Delete { job } => CommandRun::Delete { job: job.advance(event) },
        }
    }

    /// The session that is to be written as text, when that comes next.
    pub fn session_to_serialize(&self) -> (file: Option<&PersistedSessionFile>)
        ensures
            match file {
                Some(session) => match self@ {
                    CommandView::Persist { job } => job matches PersistJob::Serialize {
                        dir,
                        base,
                        file,
                    } && file == session@,
                    CommandView::Batch { run, completion } => run.current matches Some(
                        PersistJob::Serialize { dir, base, file },
                    ) && file == session@,
                    CommandView::Delete { job } => false,
                },
                None => self@.request() != Some(
                    DiskRequest::<crate::path::PathView, Seq<char>>::Serialize,
                ),
            },
    {
        match self {
            CommandRun::Persist { job } => job.session_to_serialize(),
            CommandRun::Batch { run, completion: _ } => run.session_to_serialize(),
            CommandRun::Delete { job: _ } => None,
        }
    }

    /// The report that a batch owes once it is over, when one was asked for:
    /// under which number, and how many sessions were saved.
    pub fn report(&self) -> (report: Option<(u64, usize)>)
        ensures
            match report {
                Some((number, count)) => self@.report() == Some((number, count as nat)),
                None => self@.report() is None,
            },
    {
        match self {
            CommandRun::Batch { run, completion: Some(number) } => if run.current.is_none() {
                Some((*number, run.success_count()))
            } else {
                None
            },
            _ => None,
        }
    }
}

/// Starts carrying out a command.
pub fn start_command(config: &PersistenceConfig, command: PersistenceCommand) -> (run: CommandRun)
    ensures
        run@ == command_run(config.sessions_dir@, command),
        run@.wf(),
{
    match command {
        PersistenceCommand::Persist { request } => CommandRun::Persist {
            job: persist_session_to_disk(config, &request),
        },
        PersistenceCommand::PersistBatch { sessions, completion } => CommandRun::Batch {
            run: BatchRun::new(config, sessions),
            completion,
        },
        PersistenceCommand::Delete { session_id } => CommandRun::Delete {
            job: delete_session_from_disk(config, session_id.as_str()),
        },
    }
}

/// The request with which the persistence processor starts: the directory of
/// the store is created. Whatever comes of it, the processor then carries out
/// the commands that it gets, in their order.
pub fn start_persistence_processor(config: &PersistenceConfig) -> (request: DiskRequest<
    SessionPath,
    String,
>)
    ensures
        request@ == DiskRequest::<crate::path::PathView, Seq<char>>::CreateDir(
            config.sessions_dir@,
        ),
{
    DiskRequest::CreateDir(config.sessions_dir.clone())
}

/// Whether the job of a session, by itself, can get to a state.
pub open spec fn can_get_to(
    sessions_dir: crate::path::PathView,
    session: crate::types::SessionFileView,
    job: crate::persist::PersistJobView,
) -> bool {
    exists|trace: crate::persist::Trace| #[trigger]
        crate::persist::job_after(crate::persist::persist_job(sessions_dir, session), trace) == job
}

/// Whether the job of a session, by itself, can come to a result.
pub open spec fn can_come_to(
    sessions_dir: crate::path::PathView,
    session: crate::types::SessionFileView,
    result: Option<PersistError>,
) -> bool {
    exists|job: crate::persist::PersistJobView| #[trigger]
        can_get_to(sessions_dir, session, job) && job_result(job) == Some(result)
}

impl BatchView {
    /// Every session of the batch is where its own job can get to.
    pub open spec fn sessions_are_separate(self) -> bool {
        &&& forall|i: int|
            0 <= i < self.results.len() ==> can_come_to(
                self.sessions_dir,
                self.sessions[i],
                #[trigger] self.results[i],
            )
        &&& self.current matches Some(job) ==> can_get_to(
            self.sessions_dir,
            self.sessions[self.started - 1],
            job,
        )
    }
}

/// Settling keeps a batch in order, and only stops at a session that waits or
/// at the end.
proof fn lemma_settled(batch: BatchView)
    requires
        batch.wf(),
        batch.sessions_are_separate(),
    ensures
        batch.settled().wf(),
        batch.settled().sessions_are_separate(),
        batch.settled().sessions == batch.sessions,
        batch.settled().sessions_dir == batch.sessions_dir,
        batch.settled().over() ==> batch.settled().started == batch.sessions.len(),
    decreases
            batch.sessions.len() - batch.started,
            if batch.current is Some {
                1int
            } else {
                0int
            },
{
    match batch.current {
        Some(job) => match job_result(job) {
            Some(result) => {
                let next = BatchView {
                    current: None,
                    results: batch.results.push(result),
                    ..batch
                };
                assert(can_come_to(batch.sessions_dir, batch.sessions[batch.started - 1], result));
                assert forall|i: int| 0 <= i < next.results.len() implies can_come_to(
                    next.sessions_dir,
                    next.sessions[i],
                    #[trigger] next.results[i],
                ) by {
                    if i < batch.results.len() {
                        assert(next.results[i] == batch.results[i]);
                    }
                }
                lemma_settled(next);
            },
            None => {},
        },
        None => if batch.started < batch.sessions.len() {
            let session = batch.sessions[batch.started as int];
            let job = crate::persist::persist_job(batch.sessions_dir, session);
            let next = BatchView { current: Some(job), started: batch.started + 1, ..batch };
            assert(crate::persist::job_after(job, Seq::empty()) == job);
            assert(can_get_to(batch.sessions_dir, session, job));
            lemma_settled(next);
        },
    }
}

/// The invariant of a batch.
proof fn lemma_batch_invariant(
    sessions_dir: crate::path::PathView,
    sessions: Seq<crate::types::SessionFileView>,
    events: Seq<crate::persistence::DiskEventView>,
)
    ensures
        ({
            let after = batch(sessions_dir, sessions).run(events);
            &&& after.wf()
            &&& after.sessions_are_separate()
            &&& after.sessions == sessions
            &&& after.sessions_dir == sessions_dir
            &&& after.over() ==> after.started == sessions.len()
        }),
    decreases events.len(),
{
    if events.len() == 0 {
        lemma_settled(
            BatchView {
                sessions_dir,
                sessions,
                started: 0,
                current: None,
                results: Seq::empty(),
            },
        );
    } else {
        lemma_batch_invariant(sessions_dir, sessions, events.drop_last());
        let before = batch(sessions_dir, sessions).run(events.drop_last());
        match before.current {
            Some(job) => {
                let session = sessions[before.started - 1];
                let start = crate::persist::persist_job(sessions_dir, session);
                let so_far = choose|so_far: crate::persist::Trace| #[trigger]
                    crate::persist::job_after(start, so_far) == job;
                let further = so_far.push((events.last(), Map::empty()));
                assert(further.drop_last() =~= so_far);
                assert(crate::persist::job_after(start, further) == job.step(events.last()));
                assert(can_get_to(sessions_dir, session, job.step(events.last())));
                lemma_settled(BatchView { current: Some(job.step(events.last())), ..before });
            },
            None => {},
        }
    }
}

/// Every result counts once.
proof fn lemma_results_count(results: Seq<Option<PersistError>>)
    ensures
        successes(results) + failures(results) == results.len(),
    decreases results.len(),
{
    if results.len() > 0 {
        lemma_results_count(results.drop_last());
    }
}

/// A batch that is over has tried every session, and those that were saved and
/// those that were not make up the batch.
pub proof fn law_batches_account_for_every_session(
    sessions_dir: crate::path::PathView,
    sessions: Seq<crate::types::SessionFileView>,
    events: Seq<crate::persistence::DiskEventView>,
)
    ensures
        ({
            let after = batch(sessions_dir, sessions).run(events);
            after.over() ==> after.results.len() == sessions.len() && successes(after.results)
                + failures(after.results) == sessions.len()
        }),
{
    lemma_batch_invariant(sessions_dir, sessions, events);
    lemma_results_count(batch(sessions_dir, sessions).run(events).results);
}

/// A session of a batch fares as it would by itself: what became of it is what
/// its own job comes to, whatever became of the others.
pub proof fn law_sessions_of_a_batch_are_separate(
    sessions_dir: crate::path::PathView,
    sessions: Seq<crate::types::SessionFileView>,
    events: Seq<crate::persistence::DiskEventView>,
    i: int,
)
    requires
        0 <= i < batch(sessions_dir, sessions).run(events).results.len(),
    ensures
        can_come_to(
            sessions_dir,
            sessions[i],
            batch(sessions_dir, sessions).run(events).results[i],
        ),
{
    lemma_batch_invariant(sessions_dir, sessions, events);
}

/// Whatever the file system answers, only a directory within the resolved
/// directory of the store is deleted.
pub proof fn law_deletions_stay_within_the_store(
    sessions_dir: crate::path::PathView,
    session_id: Seq<char>,
    events: Seq<crate::persistence::DiskEventView>,
)
    ensures
        match delete_job(sessions_dir, session_id).run(events) {
            DeleteJob::Verify { check } => check.sound(),
            DeleteJob::Remove { dir, base } => crate::path::within(dir, base),
            _ => true,
        },
    decreases events.len(),
{
    if events.len() > 0 {
        law_deletions_stay_within_the_store(sessions_dir, session_id, events.drop_last());
    }
}

/// Deleting one session leaves the files of the others alone.
pub proof fn law_deleting_a_session_leaves_the_others(
    base: crate::path::PathView,
    session_id: Seq<char>,
    other: Seq<char>,
    event: crate::persistence::DiskEventView,
    before: crate::persist::Disk,
    after: crate::persist::Disk,
)
    requires
        session_id != other,
        crate::persist::effect(
            DiskRequest::RemoveDir(base.push(session_id)),
            event,
            before,
            after,
        ),
    ensures
        crate::persist::content(after, crate::persist::session_file(base.push(other)))
            == crate::persist::content(before, crate::persist::session_file(base.push(other))),
{
    let dir = base.push(session_id);
    let file = crate::persist::session_file(base.push(other));
    assert(file[base.len() as int] == other);
    assert(dir[base.len() as int] == session_id);
    if crate::path::within(file, dir) {
        assert(file.subrange(0, dir.len() as int)[base.len() as int] == file[base.len() as int]);
    }
}

/// Deleting a session with an accepted id starts with the check of its directory
/// below the store, removes that directory once it passed, and reports what came
/// of that; an id that is not accepted is refused at once.
pub proof fn law_deletions_go_step_by_step(
    sessions_dir: crate::path::PathView,
    session_id: Seq<char>,
    check: crate::persistence::PathCheckView,
    event: crate::persistence::DiskEventView,
    dir: crate::path::PathView,
    base: crate::path::PathView,
)
    ensures
        crate::session_id::is_safe_id(session_id) ==> delete_job(sessions_dir, session_id) == (
        DeleteJobView::Verify {
            check: PathCheck::ProbeBase {
                path: sessions_dir.push(session_id),
                base: sessions_dir,
            },
        }),
        !crate::session_id::is_safe_id(session_id) ==> (delete_job(
            sessions_dir,
            session_id,
        ) matches DeleteJob::Failed { error } && error is SessionId),
        (DeleteJobView::Verify { check }).request() == check.request(),
        ({
            let next = (DeleteJobView::Verify { check }).step(event);
            match check.step(event) {
                PathCheck::Inside { path, base } => next == (DeleteJobView::Remove {
                    dir: path,
                    base,
                }),
                PathCheck::Refused { failure, path, base } => next == (DeleteJobView::Refused {
                    failure,
                    path,
                    base,
                }),
                after => next == (DeleteJobView::Verify { check: after }),
            }
        }),
        (DeleteJobView::Remove { dir, base }).request() == Some(
            crate::persistence::DiskRequestView::RemoveDir(dir),
        ),
        (DeleteJobView::Remove { dir, base }).step(DiskEvent::Done(true)) == DeleteJobView::Deleted,
        (DeleteJobView::Remove { dir, base }).step(DiskEvent::Done(false)) == (
        DeleteJobView::Failed { error: DeleteError::Remove }),
        DeleteJobView::Deleted.request() is None,
        (DeleteJobView::Failed { error: DeleteError::Remove }).request() is None,
{
}

/// A session that was saved counts, one that failed does not, wherever they stand
/// in the batch.
pub proof fn law_saved_sessions_are_counted(
    results: Seq<Option<PersistError>>,
    error: PersistError,
)
    ensures
        successes(Seq::empty()) == 0,
        successes(results.push(None)) == successes(results) + 1,
        successes(results.push(Some(error))) == successes(results),
        failures(Seq::empty()) == 0,
        failures(results.push(None)) == failures(results),
        failures(results.push(Some(error))) == failures(results) + 1,
        successes(results) <= results.len(),
        successes(results) == results.len() <==> (forall|i: int|
            0 <= i < results.len() ==> (#[trigger] results[i] is None)),
{
    assert(results.push(None).drop_last() =~= results);
    assert(results.push(Some(error)).drop_last() =~= results);
    lemma_all_saved(results);
}

/// All are counted exactly when all were saved.
proof fn lemma_all_saved(results: Seq<Option<PersistError>>)
    ensures
        successes(results) <= results.len(),
        successes(results) == results.len() <==> (forall|i: int|
            0 <= i < results.len() ==> (#[trigger] results[i] is None)),
    decreases results.len(),
{
    if results.len() > 0 {
        let rest = results.drop_last();
        lemma_all_saved(rest);
        assert(results[results.len() - 1] == results.last());
        if successes(results) == results.len() {
            assert forall|i: int| 0 <= i < results.len() implies (#[trigger] results[i] is None) by {
                if i < rest.len() {
                    assert(rest[i] == results[i]);
                }
            }
        }
        if forall|i: int| 0 <= i < results.len() ==> (#[trigger] results[i] is None) {
            assert forall|i: int| 0 <= i < rest.len() implies (#[trigger] rest[i] is None) by {
                assert(rest[i] == results[i]);
            }
        }
    }
}

/// A session that was saved has no error, one that failed has its own, and one
/// that is being written has come to nothing yet.
pub proof fn law_results_are_what_jobs_came_to(
    dir: crate::path::PathView,
    base: crate::path::PathView,
    text: Seq<char>,
    error: PersistError,
    job: crate::persist::PersistJobView,
)
    ensures
        job_result(PersistJob::Saved { dir, base, text }) == Some(None::<PersistError>),
        job_result(PersistJob::Failed { error }) == Some(Some(error)),
        !(job is Saved) && !(job is Failed) ==> job_result(job) is None,
{
}

/// A batch owes a report exactly when one was asked for and it is over: under the
/// number that was given, with the count of the sessions that were saved. Single
/// commands owe none.
pub proof fn law_batches_report_once_they_are_over(
    run: BatchView,
    number: u64,
    job: crate::persist::PersistJobView,
    deletion: DeleteJobView,
)
    ensures
        run.current is None ==> (CommandView::Batch { run, completion: Some(number) }).report()
            == Some((number, successes(run.results))),
        run.current is Some ==> ((CommandView::Batch {
            run,
            completion: Some(number),
        }).report() is None),
        ((CommandView::Batch { run, completion: None }).report() is None),
        ((CommandView::Persist { job }).report() is None),
        ((CommandView::Delete { job: deletion }).report() is None),
{
}

/// A command starts the job that it names, on the session that it names, and goes
/// on as that job does.
pub proof fn law_commands_start_their_jobs(
    sessions_dir: crate::path::PathView,
    request: PersistRequest,
    session_id: String,
    job: crate::persist::PersistJobView,
    deletion: DeleteJobView,
    run: BatchView,
    completion: Option<u64>,
    event: crate::persistence::DiskEventView,
)
    ensures
        command_run(sessions_dir, PersistenceCommand::Persist { request }) == (
        CommandView::Persist { job: crate::persist::persist_job(sessions_dir, request@) }),
        command_run(sessions_dir, PersistenceCommand::Delete { session_id }) == (
        CommandView::Delete { job: delete_job(sessions_dir, session_id@) }),
        (CommandView::Persist { job }).request() == job.request(),
        (CommandView::Persist { job }).step(event) == (CommandView::Persist {
            job: job.step(event),
        }),
        (CommandView::Delete { job: deletion }).request() == deletion.request(),
        (CommandView::Delete { job: deletion }).step(event) == (CommandView::Delete {
            job: deletion.step(event),
        }),
        run.current matches Some(current) ==> (CommandView::Batch { run, completion }).request()
            == current.request(),
        ((CommandView::Batch { run, completion }).step(event) matches CommandView::Batch {
            run: next,
            completion: kept,
        } && kept == completion && next.sessions_dir == run.sessions_dir && next == run.step(
            event,
        )),
{
    lemma_settled_keeps(run, event);
}

/// An outcome changes neither the sessions of a batch nor its store.
proof fn lemma_settled_keeps(run: BatchView, event: crate::persistence::DiskEventView)
    ensures
        run.step(event).sessions_dir == run.sessions_dir,
        run.step(event).sessions == run.sessions,
{
    match run.current {
        Some(job) => {
            lemma_settling_keeps(BatchView { current: Some(job.step(event)), ..run });
        },
        None => {},
    }
}

/// Settling changes neither the sessions of a batch nor its store.
proof fn lemma_settling_keeps(run: BatchView)
    ensures
        run.settled().sessions_dir == run.sessions_dir,
        run.settled().sessions == run.sessions,
    decreases
            run.sessions.len() - run.started,
            if run.current is Some {
                1int
            } else {
                0int
            },
{
    match run.current {
        Some(job) => match job_result(job) {
            Some(result) => {
                lemma_settling_keeps(
                    BatchView { current: None, results: run.results.push(result), ..run },
                );
            },
            None => {},
        },
        None => if run.started < run.sessions.len() {
            lemma_settling_keeps(
                BatchView {
                    current: Some(
                        crate::persist::persist_job(
                            run.sessions_dir,
                            run.sessions[run.started as int],
                        ),
                    ),
                    started: run.started + 1,
                    ..run
                },
            );
        },
    }
}

/// The sessions of a batch are those that were handed in, in their order.
pub proof fn law_batches_hold_what_was_handed_in(sessions: Seq<PersistRequest>, i: int)
    requires
        0 <= i < sessions.len(),
    ensures
        session_views(sessions).len() == sessions.len(),
        session_views(sessions)[i] == sessions[i]@,
{
}

/// Deletions and commands are seen as they are.
pub proof fn law_commands_are_seen_as_they_are(
    check: PathCheck<SessionPath>,
    dir: SessionPath,
    base: SessionPath,
    failure: crate::persistence::PathFailure,
    error: DeleteError,
    persist: SessionPersistJob,
    run: BatchRun,
    completion: Option<u64>,
    deletion: SessionDeleteJob,
)
    ensures
        (SessionDeleteJob::Verify { check })@ == (DeleteJobView::Verify { check: check@ }),
        (SessionDeleteJob::Remove { dir, base })@ == (DeleteJobView::Remove {
            dir: dir@,
            base: base@,
        }),
        (SessionDeleteJob::Refused { failure, path: dir, base })@ == (DeleteJobView::Refused {
            failure,
            path: dir@,
            base: base@,
        }),
        SessionDeleteJob::Deleted@ == DeleteJobView::Deleted,
        (SessionDeleteJob::Failed { error })@ == (DeleteJobView::Failed { error }),
        (CommandRun::Persist { job: persist })@ == (CommandView::Persist { job: persist@ }),
        (CommandRun::Batch { run, completion })@ == (CommandView::Batch { run: run@, completion }),
        (CommandRun::Delete { job: deletion })@ == (CommandView::Delete { job: deletion@ }),
        job_view(Some(persist)) == Some(persist@),
        job_view(None) is None,
{
}

/// A deletion that is over stays what it came to and asks for nothing; the removal
/// waits for its outcome.
pub proof fn law_deletions_wait_for_their_answer(
    job: DeleteJobView,
    event: crate::persistence::DiskEventView,
)
    ensures
        job is Refused || job is Deleted || job is Failed ==> job.step(event) == job && (
        job.request() is None),
        job is Remove && !(event is Done) ==> job.step(event) == job,
{
}

/// A batch takes its sessions in their order. When one has come to an end that is
/// noted, and the next one is started, as if it were alone; after the last one the
/// batch is over and asks for nothing. A session that is refused at once is noted
/// without any request.
pub proof fn law_batches_take_one_session_after_the_other(
    run: BatchView,
    job: crate::persist::PersistJobView,
    event: crate::persistence::DiskEventView,
)
    requires
        run.current == Some(job),
        run.started <= run.sessions.len(),
    ensures
        ({
            let after = run.step(event);
            let result = match job.step(event) {
                PersistJob::Saved { .. } => Some(None::<PersistError>),
                PersistJob::Failed { error } => Some(Some(error)),
                _ => None,
            };
            match result {
                None => {
                    &&& after.current == Some(job.step(event))
                    &&& after.results == run.results
                    &&& after.started == run.started
                },
                Some(noted) => {
                    let results = run.results + seq![noted];
                    if run.started == run.sessions.len() {
                        &&& after.current is None
                        &&& after.results == results
                        &&& after.request() is None
                    } else {
                        let next = run.sessions[run.started as int];
                        if crate::session_id::is_safe_id(next.session_id) {
                            &&& after.current == Some(
                                crate::persist::PersistJobView::Verify {
                                    check: PathCheck::ProbeBase {
                                        path: run.sessions_dir.push(next.session_id),
                                        base: run.sessions_dir,
                                    },
                                    file: next,
                                },
                            )
                            &&& after.results == results
                            &&& after.started == run.started + 1
                        } else if run.started + 1 == run.sessions.len() {
                            &&& after.current is None
                            &&& after.results.len() == results.len() + 1
                            &&& after.results.drop_last() == results
                            &&& after.results.last() matches Some(error) && error is SessionId
                        } else {
                            true
                        }
                    }
                },
            }
        }),
{
    reveal_with_fuel(BatchView::settled, 5);
    assert(run.results.push(None) =~= run.results + seq![None]);
    match job.step(event) {
        PersistJob::Failed { error } => {
            assert(run.results.push(Some(error)) =~= run.results + seq![Some(error)]);
        },
        _ => {},
    }
    let after = run.step(event);
    if after.results.len() > 0 {
        assert(after.results.drop_last().push(after.results.last()) =~= after.results);
    }
    if run.started < run.sessions.len() && !crate::session_id::is_safe_id(
        run.sessions[run.started as int].session_id,
    ) && run.started + 1 == run.sessions.len() {
        match job_result(job.step(event)) {
            Some(noted) => {
                assert(after.results.drop_last() =~= run.results.push(noted));
            },
            None => {},
        }
    }
}

/// A batch starts with its first session, as if that were alone, and notes nothing
/// before that has come to an end; one without sessions is over at once. It keeps
/// the number under which it is to report.
pub proof fn law_batches_start_with_their_first_session(
    sessions_dir: crate::path::PathView,
    sessions: Vec<PersistRequest>,
    completion: Option<u64>,
)
    ensures
        command_run(
            sessions_dir,
            PersistenceCommand::PersistBatch { sessions, completion },
        ) matches CommandView::Batch { run, completion: kept } && {
            &&& kept == completion
            &&& run.sessions_dir == sessions_dir
            &&& run.sessions.len() == sessions.len()
            &&& forall|i: int|
                0 <= i < sessions.len() ==> #[trigger] run.sessions[i] == sessions@[i]@
            &&& sessions.len() == 0 ==> run.current is None && run.results.len() == 0
            &&& sessions.len() > 0 && crate::session_id::is_safe_id(sessions@[0]@.session_id) ==> {
                &&& run.current == Some(
                    crate::persist::PersistJobView::Verify {
                        check: PathCheck::ProbeBase {
                            path: sessions_dir.push(sessions@[0]@.session_id),
                            base: sessions_dir,
                        },
                        file: sessions@[0]@,
                    },
                )
                &&& run.results.len() == 0
                &&& run.started == 1
            }
        },
{
    reveal_with_fuel(BatchView::settled, 3);
    lemma_settling_keeps(
        BatchView {
            sessions_dir,
            sessions: session_views(sessions@),
            started: 0,
            current: None,
            results: Seq::empty(),
        },
    );
}

} // verus!
