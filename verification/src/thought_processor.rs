//! The processor of the store that keeps one file per thought: carrying out its
//! commands, one after the other.

use crate::path::SessionPath;
use crate::persistence::{DiskEvent, DiskRequest};
use crate::thought_files::{persist_thought_files, StoredFile, ThoughtFilesJob};
use crate::types::{PersistRequest, PersistenceConfig};
use vstd::prelude::*;

verus! {

/// A command to the store.
#[derive(Debug)]
pub enum ThoughtCommand {
    /// Write the files of a session.
    Persist { request: PersistRequest },
    /// Delete the files of a session.
    Delete { session_id: String },
}

impl ThoughtCommand {
    /// The session of the command.
    pub open spec fn session(self) -> Seq<char> {
        match self {
            ThoughtCommand::Persist { request } => request@.session_id,
            ThoughtCommand::Delete { session_id } => session_id@,
        }
    }

    /// A session that is to be written is well formed.
    pub open spec fn wf(self) -> bool {
        self matches ThoughtCommand::Persist { request } ==> request.snapshot.wf()
    }
}

/// The files of a session on their way off the disk. `P` is a path.
#[derive(Debug, PartialEq, Eq)]
pub enum ThoughtDelete<P> {
    /// Remove the session directory.
    Remove { dir: P },
    /// The files are gone.
    Deleted,
    /// The files could not be removed.
    Failed,
}

/// A deletion, by views.
pub type ThoughtDeleteView = ThoughtDelete<crate::path::PathView>;

impl View for ThoughtDelete<SessionPath> {
    type V = ThoughtDeleteView;

    open spec fn view(&self) -> ThoughtDeleteView {
        match *self {
            ThoughtDelete::Remove { dir } => ThoughtDelete::Remove { dir: dir@ },
            ThoughtDelete::Deleted => ThoughtDelete::Deleted,
            ThoughtDelete::Failed => ThoughtDelete::Failed,
        }
    }
}

/// A command that is being carried out.
#[derive(Debug)]
pub enum ThoughtCommandRun {
    /// The files of a session are being written.
    Persist { job: ThoughtFilesJob },
    /// The files of a session are being deleted.
    Delete { job: ThoughtDelete<SessionPath> },
}

/// A command that is being carried out, by views.
pub enum ThoughtCommandView {
    Persist { job: crate::thought_files::ThoughtFilesView },
    Delete { job: ThoughtDeleteView },
}

impl View for ThoughtCommandRun {
    type V = ThoughtCommandView;

    open spec fn view(&self) -> ThoughtCommandView {
        match *self {
            ThoughtCommandRun::Persist { job } => ThoughtCommandView::Persist { job: job@ },
            ThoughtCommandRun::Delete { job } => ThoughtCommandView::Delete { job: job@ },
        }
    }
}

/// A command at its start.
pub open spec fn thought_command_run(
    sessions_dir: crate::path::PathView,
    command: ThoughtCommand,
) -> ThoughtCommandView {
    match command {
        ThoughtCommand::Persist { request } => ThoughtCommandView::Persist {
            job: crate::thought_files::thought_files_job(sessions_dir, request@),
        },
        ThoughtCommand::Delete { session_id } => ThoughtCommandView::Delete {
            job: ThoughtDelete::Remove { dir: sessions_dir.push(session_id@) },
        },
    }
}

impl ThoughtCommandView {
    /// A writing is well formed.
    pub open spec fn wf(self) -> bool {
        self matches ThoughtCommandView::Persist { job } ==> job.wf()
    }

    /// The request that comes next.
    pub open spec fn request(self) -> Option<crate::persistence::DiskRequestView> {
        match self {
            ThoughtCommandView::Persist { job } => job.request(),
            ThoughtCommandView::Delete { job } => match job {
                ThoughtDelete::Remove { dir } => Some(DiskRequest::RemoveDir(dir)),
                _ => None,
            },
        }
    }

    /// The command after an outcome. An outcome that does not answer the request
    /// changes nothing.
    pub open spec fn step(self, event: crate::persistence::DiskEventView) -> ThoughtCommandView {
        match self {
            ThoughtCommandView::Persist { job } => ThoughtCommandView::Persist {
                job: job.step(event),
            },
            ThoughtCommandView::Delete { job } => match (job, event) {
                (ThoughtDelete::Remove { dir }, DiskEvent::Done(done)) => if done {
                    ThoughtCommandView::Delete { job: ThoughtDelete::Deleted }
                } else {
                    ThoughtCommandView::Delete { job: ThoughtDelete::Failed }
                },
                _ => self,
            },
        }
    }

    /// The command after a list of outcomes.
    pub open spec fn run(self, events: Seq<crate::persistence::DiskEventView>) -> ThoughtCommandView
        decreases events.len(),
    {
        if events.len() == 0 {
            self
        } else {
            self.run(events.drop_last()).step(events.last())
        }
    }
}

impl ThoughtCommandRun {
    /// The request that comes next, until the command is carried out.
    pub fn next_request(&self) -> (request: Option<DiskRequest<SessionPath, String>>)
        requires
            self@.wf(),
        ensures
            crate::persistence::request_view(request) == self@.request(),
    {
        match self {
            ThoughtCommandRun::Persist { job } => job.next_request(),
            ThoughtCommandRun::Delete { job } => match job {
                ThoughtDelete::Remove { dir } => Some(DiskRequest::RemoveDir(dir.clone())),
                _ => None,
            },
        }
    }

    /// Goes on with the outcome of the request.
    pub fn advance(self, event: DiskEvent<SessionPath, String>) -> (next: Self)
        requires
            self@.wf(),
        ensures
            next@ == self@.step(event@),
            next@.wf(),
    {
        match (self, event) {
            (ThoughtCommandRun::Persist { job }, event) => ThoughtCommandRun::Persist {
                job: job.advance(event),
            },
            (
                ThoughtCommandRun::Delete { job: ThoughtDelete::Remove { dir: _ } },
                DiskEvent::Done(done),
            ) => if done {
                ThoughtCommandRun::Delete { job: ThoughtDelete::Deleted }
            } else {
                ThoughtCommandRun::Delete { job: ThoughtDelete::Failed }
            },
            (run, _) => run,
        }
    }

    /// What is to be written as text, when that comes next.
    pub fn file_to_serialize(&self) -> (file: Option<&StoredFile>)
        requires
            self@.wf(),
        ensures
            match (file, self@) {
                (Some(stored), ThoughtCommandView::Persist { job }) => job.stage is Serialize
                    && stored@ == job.files[job.written as int].1,
                (None, ThoughtCommandView::Persist { job }) => !(job.stage is Serialize),
                (Some(_), ThoughtCommandView::Delete { .. }) => false,
                (None, ThoughtCommandView::Delete { .. }) => true,
            },
    {
        match self {
            ThoughtCommandRun::Persist { job } => job.file_to_serialize(),
            ThoughtCommandRun::Delete { .. } => None,
        }
    }
}

/// Starts carrying out a command.
pub fn start_thought_command(config: &PersistenceConfig, command: ThoughtCommand) -> (run:
    ThoughtCommandRun)
    requires
        command.wf(),
    ensures
        run@ == thought_command_run(config.sessions_dir@, command),
        run@.wf(),
{
    match command {
        ThoughtCommand::Persist { request } => ThoughtCommandRun::Persist {
            job: persist_thought_files(config, &request),
        },
        ThoughtCommand::Delete { session_id } => ThoughtCommandRun::Delete {
            job: ThoughtDelete::Remove { dir: config.sessions_dir.join(session_id.as_str()) },
        },
    }
}

/// Whether a request is about a directory, or a file in it, or about no place at
/// all.
pub open spec fn is_about(
    request: crate::persistence::DiskRequestView,
    dir: crate::path::PathView,
) -> bool {
    match request {
        DiskRequest::CreateDir(path) => path == dir,
        DiskRequest::Serialize => true,
        DiskRequest::WriteFile(path, text) => path.len() > 0 && path.drop_last() == dir,
        DiskRequest::RemoveDir(path) => path == dir,
        _ => false,
    }
}

/// A command is about its own session: it creates, writes and removes nothing
/// but the directory of that session and files in it.
pub proof fn law_thought_commands_are_about_their_session(
    sessions_dir: crate::path::PathView,
    command: ThoughtCommand,
    events: Seq<crate::persistence::DiskEventView>,
)
    ensures
        thought_command_run(sessions_dir, command).run(events).request() matches Some(request)
            ==> is_about(request, sessions_dir.push(command.session())),
{
    lemma_directory(sessions_dir, command, events);
    match thought_command_run(sessions_dir, command).run(events) {
        ThoughtCommandView::Persist { job } => {
            assert(job.dir.push(job.name()).drop_last() =~= job.dir);
        },
        _ => {},
    }
}

/// The directory of a command stays that of its session.
proof fn lemma_directory(
    sessions_dir: crate::path::PathView,
    command: ThoughtCommand,
    events: Seq<crate::persistence::DiskEventView>,
)
    ensures
        match thought_command_run(sessions_dir, command).run(events) {
            ThoughtCommandView::Persist { job } => command is Persist && job.dir
                == sessions_dir.push(command.session()),
            ThoughtCommandView::Delete { job } => command is Delete
                && (job matches ThoughtDelete::Remove { dir } ==> dir == sessions_dir.push(
                command.session(),
            )),
        },
    decreases events.len(),
{
    if events.len() > 0 {
        lemma_directory(sessions_dir, command, events.drop_last());
    }
}

/// A deletion that succeeds leaves nothing of its session, and every file outside
/// its directory as it was; whatever comes of it, the command is then carried
/// out.
pub proof fn law_deleted_thought_files_are_gone(
    sessions_dir: crate::path::PathView,
    session_id: String,
    event: crate::persistence::DiskEventView,
    before: crate::persist::Disk,
    after: crate::persist::Disk,
    path: crate::path::PathView,
)
    requires
        event is Done,
        crate::persist::effect(
            DiskRequest::RemoveDir(sessions_dir.push(session_id@)),
            event,
            before,
            after,
        ),
    ensures
        ({
            let start = thought_command_run(sessions_dir, ThoughtCommand::Delete { session_id });
            let dir = sessions_dir.push(session_id@);
            &&& start.request() == Some(crate::persistence::DiskRequestView::RemoveDir(dir))
            &&& start.step(event).request() is None
            &&& start.step(event) == ThoughtCommandView::Delete { job: ThoughtDelete::Deleted }
                && crate::path::within(path, dir) ==> crate::persist::content(after, path) is None
            &&& !crate::path::within(path, dir) ==> crate::persist::content(after, path)
                == crate::persist::content(before, path)
        }),
{
}

/// A command starts with its own session, and goes on as its job does.
pub proof fn law_thought_commands_start_their_jobs(
    sessions_dir: crate::path::PathView,
    request: PersistRequest,
    session_id: String,
    job: crate::thought_files::ThoughtFilesView,
    dir: crate::path::PathView,
    event: crate::persistence::DiskEventView,
)
    ensures
        thought_command_run(sessions_dir, ThoughtCommand::Persist { request }) == (
        ThoughtCommandView::Persist {
            job: crate::thought_files::thought_files_job(sessions_dir, request@),
        }),
        thought_command_run(sessions_dir, ThoughtCommand::Delete { session_id }) == (
        ThoughtCommandView::Delete {
            job: ThoughtDelete::Remove { dir: sessions_dir.push(session_id@) },
        }),
        (ThoughtCommandView::Persist { job }).request() == job.request(),
        (ThoughtCommandView::Persist { job }).step(event) == (ThoughtCommandView::Persist {
            job: job.step(event),
        }),
        (ThoughtCommandView::Delete { job: ThoughtDelete::Remove { dir } }).request() == Some(
            crate::persistence::DiskRequestView::RemoveDir(dir),
        ),
        (ThoughtCommandView::Delete { job: ThoughtDelete::Remove { dir } }).step(
            DiskEvent::Done(true),
        ) == (ThoughtCommandView::Delete { job: ThoughtDelete::Deleted }),
        (ThoughtCommandView::Delete { job: ThoughtDelete::Remove { dir } }).step(
            DiskEvent::Done(false),
        ) == (ThoughtCommandView::Delete { job: ThoughtDelete::Failed }),
{
}

/// Commands of a store with one file per thought are seen as they are.
pub proof fn law_thought_commands_are_seen_as_they_are(
    dir: SessionPath,
    job: ThoughtFilesJob,
    deletion: ThoughtDelete<SessionPath>,
)
    ensures
        (ThoughtDelete::Remove { dir })@ == (ThoughtDeleteView::Remove { dir: dir@ }),
        ThoughtDelete::<SessionPath>::Deleted@ == ThoughtDeleteView::Deleted,
        ThoughtDelete::<SessionPath>::Failed@ == ThoughtDeleteView::Failed,
        (ThoughtCommandRun::Persist { job })@ == (ThoughtCommandView::Persist { job: job@ }),
        (ThoughtCommandRun::Delete { job: deletion })@ == (ThoughtCommandView::Delete {
            job: deletion@,
        }),
{
}

/// A command is about the session that it names. A deletion that is over stays
/// what it came to and asks for nothing; before that it waits for its outcome.
pub proof fn law_thought_deletions_wait_for_their_answer(
    request: PersistRequest,
    session_id: String,
    job: ThoughtDeleteView,
    event: crate::persistence::DiskEventView,
)
    ensures
        (ThoughtCommand::Persist { request }).session() == request.session_id@,
        (ThoughtCommand::Delete { session_id }).session() == session_id@,
        job is Deleted || job is Failed ==> ((ThoughtCommandView::Delete { job }).request() is None)
            && (ThoughtCommandView::Delete { job }).step(event) == (ThoughtCommandView::Delete {
            job,
        }),
        job is Remove && !(event is Done) ==> (ThoughtCommandView::Delete { job }).step(event) == (
        ThoughtCommandView::Delete { job }),
{
}

} // verus!
