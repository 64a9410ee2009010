//! Writing sessions to disk.
//!
//! A session is written to a temporary file, which is brought to the physical
//! disk and then renamed to the session file in one step. So the session file
//! is at every time either the old one, untouched, or the new one, complete.

use crate::path::SessionPath;
use crate::persistence::{verify_path_within_base, DiskEvent, DiskRequest, PathCheck, PathFailure};
use crate::session_id::{sanitize_session_id, SessionIdError};
use crate::types::{PersistRequest, PersistedSessionFile, PersistenceConfig};
use vstd::prelude::*;

verus! {

/// Why a session could not be written.
#[derive(Debug, Clone, Copy, PartialEq, Eq)]
pub enum PersistError {
    /// The session id was refused.
    SessionId(SessionIdError),
    /// The path of the session directory was refused.
    Path(PathFailure),
    /// The session directory could not be created.
    CreateDir,
    /// The session could not be written as text.
    Serialize,
    /// The temporary file could not be created.
    CreateTemp,
    /// The temporary file could not be written.
    WriteTemp,
    /// The temporary file could not be brought to the physical disk.
    SyncTemp,
    /// The temporary file could not be renamed.
    Commit,
}

impl PersistError {
    /// The text of the error.
    pub open spec fn text(self) -> Seq<char> {
        match self {
            PersistError::SessionId(_) => "session_id validation failed"@,
            PersistError::Path(_) =>
                "Path verification failed - potential directory traversal"@,
            PersistError::CreateDir => "Failed to create session directory"@,
            PersistError::Serialize => "Failed to serialize session data"@,
            PersistError::CreateTemp => "Failed to create temporary session file"@,
            PersistError::WriteTemp => "Failed to write session data to temp file"@,
            PersistError::SyncTemp => "Failed to sync session file to disk"@,
            PersistError::Commit => "Failed to atomically commit session file"@,
        }
    }

    /// The text of the error.
    pub fn message(&self) -> (text: &'static str)
        ensures
            text@ == self.text(),
    {
        match self {
            PersistError::SessionId(_) => "session_id validation failed",
            PersistError::Path(_) => "Path verification failed - potential directory traversal",
            PersistError::CreateDir => "Failed to create session directory",
            PersistError::Serialize => "Failed to serialize session data",
            PersistError::CreateTemp => "Failed to create temporary session file",
            PersistError::WriteTemp => "Failed to write session data to temp file",
            PersistError::SyncTemp => "Failed to sync session file to disk",
            PersistError::Commit => "Failed to atomically commit session file",
        }
    }
}

/// A session on its way to the disk. `P` is a path, `T` a text, `F` a session
/// file. `dir` is the session directory, `base` the directory of the store,
/// both resolved.
#[derive(Debug)]
pub enum PersistJob<P, T, F> {
    /// Check that the session directory stays within the store.
    Verify { check: PathCheck<P>, file: F },
    /// Create the session directory.
    CreateDir { dir: P, base: P, file: F },
    /// Write the session as text.
    Serialize { dir: P, base: P, file: F },
    /// Create the temporary file.
    CreateTemp { dir: P, base: P, text: T },
    /// Write the text to it.
    WriteTemp { dir: P, base: P, text: T },
    /// Bring it to the physical disk.
    SyncTemp { dir: P, base: P, text: T },
    /// Rename it to the session file.
    Commit { dir: P, base: P, text: T },
    /// The session is on the disk.
    Saved { dir: P, base: P, text: T },
    /// The session could not be written.
    Failed { error: PersistError },
}

/// A job on concrete values.
pub type SessionPersistJob = PersistJob<SessionPath, String, PersistedSessionFile>;

/// A job by views.
pub type PersistJobView = PersistJob<
    crate::path::PathView,
    Seq<char>,
    crate::types::SessionFileView,
>;

impl View for PersistJob<SessionPath, String, PersistedSessionFile> {
    type V = PersistJobView;

    open spec fn view(&self) -> PersistJobView {
        match *self {
            PersistJob::Verify { check, file } => PersistJob::Verify {
                check: check@,
                file: file@,
            },
            PersistJob::CreateDir { dir, base, file } => PersistJob::CreateDir {
                dir: dir@,
                base: base@,
                file: file@,
            },
            PersistJob::Serialize { dir, base, file } => PersistJob::Serialize {
                dir: dir@,
                base: base@,
                file: file@,
            },
            PersistJob::CreateTemp { dir, base, text } => PersistJob::CreateTemp {
                dir: dir@,
                base: base@,
                text: text@,
            },
            PersistJob::WriteTemp { dir, base, text } => PersistJob::WriteTemp {
                dir: dir@,
                base: base@,
                text: text@,
            },
            PersistJob::SyncTemp { dir, base, text } => PersistJob::SyncTemp {
                dir: dir@,
                base: base@,
                text: text@,
            },
            PersistJob::Commit { dir, base, text } => PersistJob::Commit {
                dir: dir@,
                base: base@,
                text: text@,
            },
            PersistJob::Saved { dir, base, text } => PersistJob::Saved {
                dir: dir@,
                base: base@,
                text: text@,
            },
            PersistJob::Failed { error } => PersistJob::Failed { error },
        }
    }
}

/// The session file in a session directory.
pub open spec fn session_file(dir: crate::path::PathView) -> crate::path::PathView {
    dir.push("session.json"@)
}

/// The temporary file in a session directory.
pub open spec fn temp_file(dir: crate::path::PathView) -> crate::path::PathView {
    dir.push("session.json.tmp"@)
}

/// A job once its path check has come to a verdict.
pub open spec fn checked(
    check: crate::persistence::PathCheckView,
    file: crate::types::SessionFileView,
) -> PersistJobView {
    match check {
        PathCheck::Inside { path, base } => PersistJob::CreateDir { dir: path, base, file },
        PathCheck::Refused { failure, path, base } => PersistJob::Failed {
            error: PersistError::Path(failure),
        },
        _ => PersistJob::Verify { check, file },
    }
}

/// A job at its start.
pub open spec fn persist_job(
    sessions_dir: crate::path::PathView,
    file: crate::types::SessionFileView,
) -> PersistJobView {
    match crate::session_id::id_problem(
        file.session_id,
        crate::session_id::all_id_chars(file.session_id),
    ) {
        Some(error) => PersistJob::Failed { error: PersistError::SessionId(error) },
        None => PersistJob::Verify {
            check: crate::persistence::path_check(
                sessions_dir.push(file.session_id),
                sessions_dir,
            ),
            file,
        },
    }
}

impl PersistJob<crate::path::PathView, Seq<char>, crate::types::SessionFileView> {
    /// The request that comes next.
    pub open spec fn request(self) -> Option<crate::persistence::DiskRequestView> {
        match self {
            PersistJob::Verify { check, file } => check.request(),
            PersistJob::CreateDir { dir, base, file } => Some(DiskRequest::CreateDir(dir)),
            PersistJob::Serialize { dir, base, file } => Some(DiskRequest::Serialize),
            PersistJob::CreateTemp { dir, base, text } => Some(
                DiskRequest::CreateFile(temp_file(dir)),
            ),
            PersistJob::WriteTemp { dir, base, text } => Some(
                DiskRequest::WriteFile(temp_file(dir), text),
            ),
            PersistJob::SyncTemp { dir, base, text } => Some(DiskRequest::SyncFile(temp_file(dir))),
            PersistJob::Commit { dir, base, text } => Some(
                DiskRequest::Rename(temp_file(dir), session_file(dir)),
            ),
            PersistJob::Saved { .. } => None,
            PersistJob::Failed { .. } => None,
        }
    }

    /// The job after an outcome. An outcome that does not answer the request
    /// changes nothing.
    pub open spec fn step(self, event: crate::persistence::DiskEventView) -> PersistJobView {
        match (self, event) {
            (PersistJob::Verify { check, file }, _) => checked(check.step(event), file),
            (PersistJob::CreateDir { dir, base, file }, DiskEvent::Done(done)) => if done {
                PersistJob::Serialize { dir, base, file }
            } else {
                PersistJob::Failed { error: PersistError::CreateDir }
            },
            (PersistJob::Serialize { dir, base, file }, DiskEvent::Serialized(text)) => match text {
                Ok(text) => PersistJob::CreateTemp { dir, base, text },
                Err(_) => PersistJob::Failed { error: PersistError::Serialize },
            },
            (PersistJob::CreateTemp { dir, base, text }, DiskEvent::Done(done)) => if done {
                PersistJob::WriteTemp { dir, base, text }
            } else {
                PersistJob::Failed { error: PersistError::CreateTemp }
            },
            (PersistJob::WriteTemp { dir, base, text }, DiskEvent::Done(done)) => if done {
                PersistJob::SyncTemp { dir, base, text }
            } else {
                PersistJob::Failed { error: PersistError::WriteTemp }
            },
            (PersistJob::SyncTemp { dir, base, text }, DiskEvent::Done(done)) => if done {
                PersistJob::Commit { dir, base, text }
            } else {
                PersistJob::Failed { error: PersistError::SyncTemp }
            },
            (PersistJob::Commit { dir, base, text }, DiskEvent::Done(done)) => if done {
                PersistJob::Saved { dir, base, text }
            } else {
                PersistJob::Failed { error: PersistError::Commit }
            },
            _ => self,
        }
    }
}

/// The job, once its path check has come to a verdict.
fn after_check(check: PathCheck<SessionPath>, file: PersistedSessionFile) -> (job: PersistJob<
    SessionPath,
    String,
    PersistedSessionFile,
>)
    ensures
        job@ == checked(check@, file@),
{
    match check {
        PathCheck::Inside { path, base } => PersistJob::CreateDir { dir: path, base, file },
        PathCheck::Refused { failure, path: _, base: _ } => PersistJob::Failed {
            error: PersistError::Path(failure),
        },
        other => PersistJob::Verify { check: other, file },
    }
}

impl PersistJob<SessionPath, String, PersistedSessionFile> {
    /// The request that comes next, until the job is over.
    pub fn next_request(&self) -> (request: Option<DiskRequest<SessionPath, String>>)
        ensures
            crate::persistence::request_view(request) == self@.request(),
    {
        match self {
            PersistJob::Verify { check, file: _ } => check.next_request(),
            PersistJob::CreateDir { dir, base: _, file: _ } => Some(
                DiskRequest::CreateDir(dir.clone()),
            ),
            PersistJob::Serialize { .. } => Some(DiskRequest::Serialize),
            PersistJob::CreateTemp { dir, base: _, text: _ } => Some(
                DiskRequest::CreateFile(dir.join("session.json.tmp")),
            ),
            PersistJob::WriteTemp { dir, base: _, text } => Some(
                DiskRequest::WriteFile(dir.join("session.json.tmp"), text.clone()),
            ),
            PersistJob::SyncTemp { dir, base: _, text: _ } => Some(
                DiskRequest::SyncFile(dir.join("session.json.tmp")),
            ),
            PersistJob::Commit { dir, base: _, text: _ } => Some(
                DiskRequest::Rename(dir.join("session.json.tmp"), dir.join("session.json")),
            ),
            PersistJob::Saved { .. } => None,
            PersistJob::Failed { .. } => None,
        }
    }

    /// Goes on with the outcome of the request.
    pub fn advance(self, event: DiskEvent<SessionPath, String>) -> (next: Self)
        ensures
            next@ == self@.step(event@),
    {
        match (self, event) {
            (PersistJob::Verify { check, file }, event) => after_check(check.advance(event), file),
            (PersistJob::CreateDir { dir, base, file }, DiskEvent::Done(done)) => if done {
                PersistJob::Serialize { dir, base, file }
            } else {
                PersistJob::Failed { error: PersistError::CreateDir }
            },
            (PersistJob::Serialize { dir, base, file: _ }, DiskEvent::Serialized(text)) => match text {
                Ok(text) => PersistJob::CreateTemp { dir, base, text },
                Err(_) => PersistJob::Failed { error: PersistError::Serialize },
            },
            (PersistJob::CreateTemp { dir, base, text }, DiskEvent::Done(done)) => if done {
                PersistJob::WriteTemp { dir, base, text }
            } else {
                PersistJob::Failed { error: PersistError::CreateTemp }
            },
            (PersistJob::WriteTemp { dir, base, text }, DiskEvent::Done(done)) => if done {
                PersistJob::SyncTemp { dir, base, text }
            } else {
                PersistJob::Failed { error: PersistError::WriteTemp }
            },
            (PersistJob::SyncTemp { dir, base, text }, DiskEvent::Done(done)) => if done {
                PersistJob::Commit { dir, base, text }
            } else {
                PersistJob::Failed { error: PersistError::SyncTemp }
            },
            (PersistJob::Commit { dir, base, text }, DiskEvent::Done(done)) => if done {
                PersistJob::Saved { dir, base, text }
            } else {
                PersistJob::Failed { error: PersistError::Commit }
            },
            (job, _) => job,
        }
    }

    /// The session that is to be written as text, when that comes next.
    pub fn session_to_serialize(&self) -> (file: Option<&PersistedSessionFile>)
        ensures
            match file {
                Some(session) => self@ matches PersistJob::Serialize { dir, base, file } && file
                    == session@,
                None => !(self@ is Serialize),
            },
    {
        match self {
            PersistJob::Serialize { dir: _, base: _, file } => Some(file),
            _ => None,
        }
    }
}

/// Starts writing a session to disk, below the directory of the store.
pub fn persist_session_to_disk(config: &PersistenceConfig, request: &PersistRequest) -> (job:
    PersistJob<SessionPath, String, PersistedSessionFile>)
    ensures
        job@ == persist_job(config.sessions_dir@, request@),
{
    match sanitize_session_id(request.session_id.as_str()) {
        Ok(safe_id) => {
            let dir = config.sessions_dir.join(safe_id.as_str());
            let file = PersistedSessionFile::from_snapshot(
                request.session_id.clone(),
                &request.snapshot,
                request.created_at,
                request.last_activity,
            );
            PersistJob::Verify {
                check: verify_path_within_base(dir, config.sessions_dir.clone()),
                file,
            }
        },
        Err(error) => PersistJob::Failed { error: PersistError::SessionId(error) },
    }
}

/// The files on a disk: the text of each.
pub type Disk = Map<crate::path::PathView, Seq<char>>;

/// What stands under a path.
pub open spec fn content(disk: Disk, path: crate::path::PathView) -> Option<Seq<char>> {
    if disk.contains_key(path) {
        Some(disk[path])
    } else {
        None
    }
}

/// Whether two disks hold the same files, but for one path.
pub open spec fn agree_except(before: Disk, after: Disk, path: crate::path::PathView) -> bool {
    forall|other: crate::path::PathView|
        other != path ==> #[trigger] content(after, other) == content(before, other)
}

/// Whether a disk is another one with a file renamed.
pub open spec fn is_renamed(
    before: Disk,
    after: Disk,
    from: crate::path::PathView,
    to: crate::path::PathView,
) -> bool {
    &&& before.contains_key(from)
    &&& after == before.remove(from).insert(to, before[from])
}

/// What a request may do to the files of a disk, given its outcome. A request
/// that fails, or that a crash cuts short, may leave anything behind in the
/// file that it writes; a rename happens or does not happen. A removal only
/// removes, and leaves nothing behind when it succeeds.
pub open spec fn effect(
    request: crate::persistence::DiskRequestView,
    event: crate::persistence::DiskEventView,
    before: Disk,
    after: Disk,
) -> bool {
    match request {
        DiskRequest::CreateFile(path) => agree_except(before, after, path),
        DiskRequest::WriteFile(path, text) => {
            &&& agree_except(before, after, path)
            &&& event == DiskEvent::<crate::path::PathView, Seq<char>>::Done(true) ==> content(
                after,
                path,
            ) == Some(text)
        },
        DiskRequest::Rename(from, to) => {
            ||| is_renamed(before, after, from, to)
            ||| after == before && event != DiskEvent::<crate::path::PathView, Seq<char>>::Done(
                true,
            )
        },
        DiskRequest::RemoveDir(path) => {
            &&& forall|other: crate::path::PathView|
                #![trigger content(after, other)]
                content(after, other) == content(before, other) || (crate::path::within(other, path)
                    && content(after, other) is None)
            &&& event == DiskEvent::<crate::path::PathView, Seq<char>>::Done(true) ==> forall|
                other: crate::path::PathView,
            |
                crate::path::within(other, path) ==> (#[trigger] content(after, other) is None)
        },
        _ => after == before,
    }
}

/// What happened to a job: the outcome of each request, and the disk after it.
pub type Trace = Seq<(crate::persistence::DiskEventView, Disk)>;

/// The job after a trace.
pub open spec fn job_after(job: PersistJobView, trace: Trace) -> PersistJobView
    decreases trace.len(),
{
    if trace.len() == 0 {
        job
    } else {
        job_after(job, trace.drop_last()).step(trace.last().0)
    }
}

/// The disk after a trace.
pub open spec fn disk_after(disk: Disk, trace: Trace) -> Disk {
    if trace.len() == 0 {
        disk
    } else {
        trace.last().1
    }
}

/// Whether a trace can happen to a job on a disk: every outcome answers the
/// request of the job, and the disk changes as that request changes it.
pub open spec fn can_happen(job: PersistJobView, disk: Disk, trace: Trace) -> bool
    decreases trace.len(),
{
    trace.len() > 0 ==> {
        &&& can_happen(job, disk, trace.drop_last())
        &&& job_after(job, trace.drop_last()).request() matches Some(request)
            && crate::persistence::answers(trace.last().0, request) && effect(
            request,
            trace.last().0,
            disk_after(disk, trace.drop_last()),
            trace.last().1,
        )
    }
}

/// Whether the session was written as this text in the course of a trace.
pub open spec fn serialized_as(trace: Trace, text: Seq<char>) -> bool {
    exists|i: int|
        0 <= i < trace.len() && #[trigger] trace[i].0 == DiskEvent::<
            crate::path::PathView,
            Seq<char>,
        >::Serialized(Ok(text))
}

/// The session directory that a job writes to in the course of a trace: the one
/// that passed its check.
pub open spec fn passed_dir(job: PersistJobView, trace: Trace) -> Option<crate::path::PathView>
    decreases trace.len(),
{
    if trace.len() == 0 {
        None
    } else {
        match passed_dir(job, trace.drop_last()) {
            Some(dir) => Some(dir),
            None => match job_after(job, trace) {
                PersistJob::CreateDir { dir, base, file } => Some(dir),
                _ => None,
            },
        }
    }
}

/// Whether a file is the temporary one of a session directory.
pub open spec fn is_temp_of(
    dir: Option<crate::path::PathView>,
    path: crate::path::PathView,
) -> bool {
    dir matches Some(d) && path == temp_file(d)
}

/// Whether every file but the temporary one of the session directory is as it
/// was before, or is the session file there, with the complete new text.
pub open spec fn old_or_complete(
    before: Disk,
    after: Disk,
    trace: Trace,
    dir: Option<crate::path::PathView>,
) -> bool {
    forall|path: crate::path::PathView|
        !is_temp_of(dir, path) ==> {
            ||| #[trigger] content(after, path) == content(before, path)
            ||| dir == Some(path.drop_last()) && path == session_file(path.drop_last()) && (content(
                after,
                path,
            ) matches Some(text) && serialized_as(trace, text))
        }
}

/// What holds in the course of a trace of the directory, the text and the
/// temporary file.
spec fn in_course(
    job: PersistJobView,
    disk: Disk,
    trace: Trace,
    passed: Option<crate::path::PathView>,
) -> bool {
    match job {
        PersistJob::Verify { check, file } => passed is None,
        PersistJob::CreateDir { dir, base, file } => passed == Some(dir),
        PersistJob::Serialize { dir, base, file } => passed == Some(dir),
        PersistJob::CreateTemp { dir, base, text } => passed == Some(dir) && serialized_as(
            trace,
            text,
        ),
        PersistJob::WriteTemp { dir, base, text } => passed == Some(dir) && serialized_as(
            trace,
            text,
        ),
        PersistJob::SyncTemp { dir, base, text } => passed == Some(dir) && serialized_as(
            trace,
            text,
        ) && content(disk, temp_file(dir)) == Some(text),
        PersistJob::Commit { dir, base, text } => passed == Some(dir) && serialized_as(trace, text)
            && content(disk, temp_file(dir)) == Some(text),
        PersistJob::Saved { dir, base, text } => passed == Some(dir) && serialized_as(trace, text)
            && content(disk, session_file(dir)) == Some(text) && content(disk, temp_file(dir))
            is None,
        PersistJob::Failed { .. } => true,
    }
}

/// A text that was written stays written as the trace goes on.
proof fn lemma_serialized_grows(trace: Trace, text: Seq<char>)
    requires
        trace.len() > 0,
        serialized_as(trace.drop_last(), text),
    ensures
        serialized_as(trace, text),
{
    let rest = trace.drop_last();
    let i = choose|i: int|
        0 <= i < rest.len() && #[trigger] rest[i].0 == DiskEvent::<
            crate::path::PathView,
            Seq<char>,
        >::Serialized(Ok(text));
    assert(trace[i] == rest[i]);
}

/// The files of a session directory are two.
proof fn lemma_own_files(dir: crate::path::PathView)
    ensures
        session_file(dir) != temp_file(dir),
        session_file(dir).drop_last() == dir,
        temp_file(dir).drop_last() == dir,
        session_file(dir).last() == "session.json"@,
        temp_file(dir).last() == "session.json.tmp"@,
        "session.json"@ != "session.json.tmp"@,
{
    reveal_strlit("session.json");
    reveal_strlit("session.json.tmp");
    assert("session.json"@.len() == 12 && "session.json.tmp"@.len() == 16);
    assert(session_file(dir).drop_last() =~= dir);
    assert(temp_file(dir).drop_last() =~= dir);
    assert(session_file(dir).last() == "session.json"@);
    assert(temp_file(dir).last() == "session.json.tmp"@);
}

/// The invariant of writing a session.
proof fn lemma_persist_invariant(
    sessions_dir: crate::path::PathView,
    file: crate::types::SessionFileView,
    disk: Disk,
    trace: Trace,
)
    requires
        can_happen(persist_job(sessions_dir, file), disk, trace),
    ensures
        old_or_complete(
            disk,
            disk_after(disk, trace),
            trace,
            passed_dir(persist_job(sessions_dir, file), trace),
        ),
        in_course(
            job_after(persist_job(sessions_dir, file), trace),
            disk_after(disk, trace),
            trace,
            passed_dir(persist_job(sessions_dir, file), trace),
        ),
    decreases trace.len(),
{
    if trace.len() > 0 {
        let start = persist_job(sessions_dir, file);
        let rest = trace.drop_last();
        lemma_persist_invariant(sessions_dir, file, disk, rest);
        let job = job_after(start, rest);
        let event = trace.last().0;
        let before = disk_after(disk, rest);
        let after = trace.last().1;
        let passed = passed_dir(start, rest);
        assert forall|text: Seq<char>| serialized_as(rest, text) implies serialized_as(
            trace,
            text,
        ) by {
            lemma_serialized_grows(trace, text);
        }
        assert(trace[trace.len() - 1].0 == event);
        if passed is Some {
            lemma_own_files(passed->0);
        }
        assert(passed is Some ==> passed_dir(start, trace) == passed);
        assert forall|path: crate::path::PathView|
            !is_temp_of(passed_dir(start, trace), path) implies {
            ||| #[trigger] content(after, path) == content(disk, path)
            ||| passed_dir(start, trace) == Some(path.drop_last()) && path == session_file(
                path.drop_last(),
            ) && (content(after, path) matches Some(text) && serialized_as(trace, text))
        } by {
            match job {
                PersistJob::Commit { dir, base, text } => {
                    assert(!is_temp_of(passed, path));
                    assert(content(before, path) == content(disk, path) || (passed == Some(
                        path.drop_last(),
                    ) && path == session_file(path.drop_last()) && (content(
                        before,
                        path,
                    ) matches Some(text) && serialized_as(rest, text))));
                    if is_renamed(before, after, temp_file(dir), session_file(dir)) {
                        if path == session_file(dir) {
                            assert(content(after, path) == Some(text));
                        } else {
                            assert(content(after, path) == content(before, path));
                        }
                    }
                },
                _ => {
                    if is_temp_of(passed, path) {
                    } else {
                        assert(content(before, path) == content(disk, path) || (passed == Some(
                            path.drop_last(),
                        ) && path == session_file(path.drop_last()) && (content(
                            before,
                            path,
                        ) matches Some(text) && serialized_as(rest, text))));
                        assert(content(after, path) == content(before, path));
                    }
                },
            }
        }
    }
}

/// Writing a session never leaves a partial or corrupted session file behind,
/// and touches no other: at every time, and so also after a crash at any time,
/// every file is untouched, but for the temporary one in the directory of the
/// session, and the session file there, which is the old one or complete with
/// the new text.
pub proof fn law_session_file_is_never_partial(
    sessions_dir: crate::path::PathView,
    file: crate::types::SessionFileView,
    disk: Disk,
    trace: Trace,
)
    requires
        can_happen(persist_job(sessions_dir, file), disk, trace),
    ensures
        old_or_complete(
            disk,
            disk_after(disk, trace),
            trace,
            passed_dir(persist_job(sessions_dir, file), trace),
        ),
{
    lemma_persist_invariant(sessions_dir, file, disk, trace);
}

/// When a job reports the session as saved, the session file holds the
/// complete text, and no temporary file is left beside it.
pub proof fn law_saved_sessions_are_on_the_disk(
    sessions_dir: crate::path::PathView,
    file: crate::types::SessionFileView,
    disk: Disk,
    trace: Trace,
)
    requires
        can_happen(persist_job(sessions_dir, file), disk, trace),
    ensures
        match job_after(persist_job(sessions_dir, file), trace) {
            PersistJob::Saved { dir, base, text } => {
                &&& content(disk_after(disk, trace), session_file(dir)) == Some(text)
                &&& content(disk_after(disk, trace), temp_file(dir)) is None
                &&& serialized_as(trace, text)
                &&& passed_dir(persist_job(sessions_dir, file), trace) == Some(dir)
            },
            _ => true,
        },
{
    lemma_persist_invariant(sessions_dir, file, disk, trace);
}

/// Whether in the course of a trace every rename that was reported as failed did
/// not happen.
pub open spec fn failed_renames_did_not_happen(
    job: PersistJobView,
    disk: Disk,
    trace: Trace,
) -> bool
    decreases trace.len(),
{
    trace.len() > 0 ==> {
        let rest = trace.drop_last();
        &&& failed_renames_did_not_happen(job, disk, rest)
        &&& job_after(job, rest) is Commit && trace.last().0 != DiskEvent::<
            crate::path::PathView,
            Seq<char>,
        >::Done(true) ==> trace.last().1 == disk_after(disk, rest)
    }
}

/// As long as a session is not saved, every file but the temporary one of its
/// directory is as it was: a writing that fails leaves the old session, where a
/// rename that was reported as failed did not happen.
pub proof fn law_failed_writes_leave_the_old_session(
    sessions_dir: crate::path::PathView,
    file: crate::types::SessionFileView,
    disk: Disk,
    trace: Trace,
)
    requires
        can_happen(persist_job(sessions_dir, file), disk, trace),
        failed_renames_did_not_happen(persist_job(sessions_dir, file), disk, trace),
        !(job_after(persist_job(sessions_dir, file), trace) is Saved),
    ensures
        forall|path: crate::path::PathView|
            !is_temp_of(passed_dir(persist_job(sessions_dir, file), trace), path)
                ==> #[trigger] content(disk_after(disk, trace), path) == content(disk, path),
    decreases trace.len(),
{
    if trace.len() > 0 {
        let start = persist_job(sessions_dir, file);
        let rest = trace.drop_last();
        law_failed_writes_leave_the_old_session(sessions_dir, file, disk, rest);
        lemma_persist_invariant(sessions_dir, file, disk, rest);
        let before = disk_after(disk, rest);
        let after = trace.last().1;
        let passed = passed_dir(start, rest);
        assert(passed is Some ==> passed_dir(start, trace) == passed);
        assert forall|path: crate::path::PathView|
            !is_temp_of(passed_dir(start, trace), path) implies #[trigger] content(after, path)
            == content(disk, path) by {
            assert(!is_temp_of(passed, path));
            assert(content(before, path) == content(disk, path));
        }
    }
}

/// Whether a trace holds a successful outcome of a request for a job: the one
/// that comes `i`-th.
pub open spec fn succeeded_at(
    job: PersistJobView,
    trace: Trace,
    i: int,
    request: crate::persistence::DiskRequestView,
) -> bool {
    &&& 0 <= i < trace.len()
    &&& job_after(job, trace.take(i)).request() == Some(request)
    &&& trace[i].0 == DiskEvent::<crate::path::PathView, Seq<char>>::Done(true)
}

/// Whether a text was written to the temporary file of a job at a time `i` in a
/// trace.
pub open spec fn written_at(
    job: PersistJobView,
    trace: Trace,
    temp: crate::path::PathView,
    text: Seq<char>,
    i: int,
) -> bool {
    succeeded_at(job, trace, i, DiskRequest::WriteFile(temp, text))
}

/// Whether a text was written to the temporary file of a job at a time `i` in a
/// trace, and the file was brought to the physical disk after that, at a time `j`.
pub open spec fn synced_at(
    job: PersistJobView,
    trace: Trace,
    temp: crate::path::PathView,
    text: Seq<char>,
    i: int,
    j: int,
) -> bool {
    &&& i < j
    &&& written_at(job, trace, temp, text, i)
    &&& succeeded_at(job, trace, j, DiskRequest::SyncFile(temp))
}

/// Whether a text was written to the temporary file of a job in the course of a
/// trace.
pub open spec fn was_written(
    job: PersistJobView,
    trace: Trace,
    temp: crate::path::PathView,
    text: Seq<char>,
) -> bool {
    exists|i: int| #[trigger] written_at(job, trace, temp, text, i)
}

/// Whether a text was written to the temporary file of a job in the course of a
/// trace, and the file was brought to the physical disk after that.
pub open spec fn was_synced(
    job: PersistJobView,
    trace: Trace,
    temp: crate::path::PathView,
    text: Seq<char>,
) -> bool {
    exists|i: int, j: int| #[trigger] synced_at(job, trace, temp, text, i, j)
}

/// A successful outcome stays in a longer trace.
proof fn lemma_succeeded(
    job: PersistJobView,
    trace: Trace,
    i: int,
    request: crate::persistence::DiskRequestView,
)
    requires
        trace.len() > 0,
        succeeded_at(job, trace.drop_last(), i, request),
    ensures
        succeeded_at(job, trace, i, request),
{
    assert(trace.take(i) =~= trace.drop_last().take(i));
}

/// Where the temporary file of a job stands: once the job is to sync it, it was
/// written, and once the job is to rename it, it was synced after that.
spec fn temp_is_ready(start: PersistJobView, trace: Trace, job: PersistJobView) -> bool {
    match job {
        PersistJob::SyncTemp { dir, base, text } => was_written(start, trace, temp_file(dir), text),
        PersistJob::Commit { dir, base, text } => was_synced(start, trace, temp_file(dir), text),
        _ => true,
    }
}

/// The temporary file is ready at every time.
proof fn lemma_temp_is_ready(
    sessions_dir: crate::path::PathView,
    file: crate::types::SessionFileView,
    trace: Trace,
)
    ensures
        temp_is_ready(
            persist_job(sessions_dir, file),
            trace,
            job_after(persist_job(sessions_dir, file), trace),
        ),
    decreases trace.len(),
{
    let start = persist_job(sessions_dir, file);
    if trace.len() > 0 {
        let rest = trace.drop_last();
        let last = rest.len() as int;
        let event = trace.last().0;
        lemma_temp_is_ready(sessions_dir, file, rest);
        assert(trace.take(last) =~= rest);
        let before = job_after(start, rest);
        let now = job_after(start, trace);
        assert(now == before.step(event));
        match before {
            PersistJob::WriteTemp { dir, base, text } => {
                if now is SyncTemp {
                    assert(written_at(start, trace, temp_file(dir), text, last));
                    assert(was_written(start, trace, temp_file(dir), text));
                }
            },
            PersistJob::SyncTemp { dir, base, text } => {
                let i = choose|i: int| #[trigger]
                    written_at(start, rest, temp_file(dir), text, i);
                lemma_succeeded(start, trace, i, DiskRequest::WriteFile(temp_file(dir), text));
                assert(written_at(start, trace, temp_file(dir), text, i));
                if now is Commit {
                    assert(synced_at(start, trace, temp_file(dir), text, i, last));
                }
            },
            PersistJob::Commit { dir, base, text } => {
                let (i, j) = choose|i: int, j: int| #[trigger]
                    synced_at(start, rest, temp_file(dir), text, i, j);
                lemma_succeeded(start, trace, i, DiskRequest::WriteFile(temp_file(dir), text));
                lemma_succeeded(start, trace, j, DiskRequest::SyncFile(temp_file(dir)));
                assert(synced_at(start, trace, temp_file(dir), text, i, j));
            },
            _ => {},
        }
    }
}

/// No unsynced data becomes a session file: a rename is requested only after the
/// whole text was written to the temporary file, and that file was brought to
/// the physical disk after that, both with success.
pub proof fn law_renames_follow_a_sync(
    sessions_dir: crate::path::PathView,
    file: crate::types::SessionFileView,
    trace: Trace,
    from: crate::path::PathView,
    to: crate::path::PathView,
)
    requires
        job_after(persist_job(sessions_dir, file), trace).request() == Some(
            crate::persistence::DiskRequestView::Rename(from, to),
        ),
    ensures
        exists|text: Seq<char>| #[trigger]
            was_synced(persist_job(sessions_dir, file), trace, from, text),
{
    lemma_temp_is_ready(sessions_dir, file, trace);
}

/// When every request succeeds, the session is saved.
pub proof fn law_successful_requests_save_the_session(
    dir: crate::path::PathView,
    base: crate::path::PathView,
    file: crate::types::SessionFileView,
    text: Seq<char>,
)
    ensures
        checked(PathCheck::Inside { path: dir, base }, file).step(DiskEvent::Done(true)).step(
            DiskEvent::Serialized(Ok(text)),
        ).step(DiskEvent::Done(true)).step(DiskEvent::Done(true)).step(DiskEvent::Done(true)).step(
            DiskEvent::Done(true),
        ) == (PersistJobView::Saved { dir, base, text }),
{
}

/// Whether everything that a job writes lies within the resolved directory of
/// the store.
pub open spec fn stays_within(job: PersistJobView) -> bool {
    match job {
        PersistJob::Verify { check, file } => check.sound(),
        PersistJob::CreateDir { dir, base, file } => crate::path::within(dir, base),
        PersistJob::Serialize { dir, base, file } => crate::path::within(dir, base),
        PersistJob::CreateTemp { dir, base, text } => writes_within(dir, base),
        PersistJob::WriteTemp { dir, base, text } => writes_within(dir, base),
        PersistJob::SyncTemp { dir, base, text } => writes_within(dir, base),
        PersistJob::Commit { dir, base, text } => writes_within(dir, base),
        PersistJob::Saved { dir, base, text } => writes_within(dir, base),
        PersistJob::Failed { .. } => true,
    }
}

/// Whether the files of a session directory lie within a base directory.
pub open spec fn writes_within(
    dir: crate::path::PathView,
    base: crate::path::PathView,
) -> bool {
    &&& crate::path::within(dir, base)
    &&& crate::path::within(temp_file(dir), base)
    &&& crate::path::within(session_file(dir), base)
}

/// Whatever the file system answers, a session is written within the resolved
/// directory of the store and nowhere else.
pub proof fn law_sessions_are_written_within_the_store(
    sessions_dir: crate::path::PathView,
    file: crate::types::SessionFileView,
    trace: Trace,
)
    ensures
        stays_within(job_after(persist_job(sessions_dir, file), trace)),
    decreases trace.len(),
{
    if trace.len() > 0 {
        law_sessions_are_written_within_the_store(sessions_dir, file, trace.drop_last());
        match job_after(persist_job(sessions_dir, file), trace.drop_last()) {
            PersistJob::Serialize { dir, base, file } => {
                crate::path::law_children_lie_within(dir, base, "session.json"@);
                crate::path::law_children_lie_within(dir, base, "session.json.tmp"@);
            },
            _ => {},
        }
    }
}

/// A session is written to `session.json.tmp` in its directory, synced, and
/// renamed to `session.json` there, each step with the directory and the text of
/// the one before, and only when that one succeeded.
pub proof fn law_sessions_are_written_step_by_step(
    dir: crate::path::PathView,
    base: crate::path::PathView,
    file: crate::types::SessionFileView,
    text: Seq<char>,
)
    ensures
        ({
            let temp = dir + seq!["session.json.tmp"@];
            let whole = dir + seq!["session.json"@];
            let passed = checked(PathCheck::Inside { path: dir, base }, file);
            let created = passed.step(DiskEvent::Done(true));
            let as_text = created.step(DiskEvent::Serialized(Ok(text)));
            let opened = as_text.step(DiskEvent::Done(true));
            let written = opened.step(DiskEvent::Done(true));
            let synced = written.step(DiskEvent::Done(true));
            let saved = synced.step(DiskEvent::Done(true));
            &&& passed.request() == Some(crate::persistence::DiskRequestView::CreateDir(dir))
            &&& created == (PersistJobView::Serialize { dir, base, file })
            &&& created.request() == Some(crate::persistence::DiskRequestView::Serialize)
            &&& as_text.request() == Some(crate::persistence::DiskRequestView::CreateFile(temp))
            &&& opened.request() == Some(
                crate::persistence::DiskRequestView::WriteFile(temp, text),
            )
            &&& written.request() == Some(crate::persistence::DiskRequestView::SyncFile(temp))
            &&& synced.request() == Some(
                crate::persistence::DiskRequestView::Rename(temp, whole),
            )
            &&& saved == (PersistJobView::Saved { dir, base, text })
            &&& saved.request() is None
        }),
{
    assert(dir.push("session.json.tmp"@) =~= dir + seq!["session.json.tmp"@]);
    assert(dir.push("session.json"@) =~= dir + seq!["session.json"@]);
}

/// A step that fails ends the writing with the error of that step.
pub proof fn law_failed_steps_end_the_writing(
    dir: crate::path::PathView,
    base: crate::path::PathView,
    file: crate::types::SessionFileView,
    text: Seq<char>,
    why: Seq<char>,
    error: PersistError,
)
    ensures
        (PersistJobView::CreateDir { dir, base, file }).step(DiskEvent::Done(false)) == (
        PersistJobView::Failed { error: PersistError::CreateDir }),
        (PersistJobView::Serialize { dir, base, file }).step(DiskEvent::Serialized(Err(why))) == (
        PersistJobView::Failed { error: PersistError::Serialize }),
        (PersistJobView::CreateTemp { dir, base, text }).step(DiskEvent::Done(false)) == (
        PersistJobView::Failed { error: PersistError::CreateTemp }),
        (PersistJobView::WriteTemp { dir, base, text }).step(DiskEvent::Done(false)) == (
        PersistJobView::Failed { error: PersistError::WriteTemp }),
        (PersistJobView::SyncTemp { dir, base, text }).step(DiskEvent::Done(false)) == (
        PersistJobView::Failed { error: PersistError::SyncTemp }),
        (PersistJobView::Commit { dir, base, text }).step(DiskEvent::Done(false)) == (
        PersistJobView::Failed { error: PersistError::Commit }),
        (PersistJobView::Failed { error }).request() is None,
{
}

/// A session with an accepted id starts with the check of the directory of that
/// name below the store; one whose id is refused fails at once, with the reason,
/// and so does one whose path is refused.
pub proof fn law_writing_starts_with_id_and_path(
    sessions_dir: crate::path::PathView,
    file: crate::types::SessionFileView,
    failure: PathFailure,
    path: crate::path::PathView,
    base: crate::path::PathView,
)
    ensures
        crate::session_id::is_safe_id(file.session_id) ==> persist_job(sessions_dir, file) == (
        PersistJobView::Verify {
            check: PathCheck::ProbeBase {
                path: sessions_dir.push(file.session_id),
                base: sessions_dir,
            },
            file,
        }),
        !crate::session_id::is_safe_id(file.session_id) ==> (persist_job(
            sessions_dir,
            file,
        ) matches PersistJob::Failed { error } && error is SessionId),
        checked(PathCheck::Refused { failure, path, base }, file) == (PersistJobView::Failed {
            error: PersistError::Path(failure),
        }),
{
}

/// The path check goes on as the outcomes say, and the session waits for it.
pub proof fn law_sessions_wait_for_their_path_check(
    check: crate::persistence::PathCheckView,
    file: crate::types::SessionFileView,
    event: crate::persistence::DiskEventView,
)
    ensures
        ({
            let job = PersistJobView::Verify { check, file };
            let after = check.step(event);
            &&& job.request() == check.request()
            &&& match after {
                PathCheck::Inside { path, base } => job.step(event) == (PersistJobView::CreateDir {
                    dir: path,
                    base,
                    file,
                }),
                PathCheck::Refused { failure, path, base } => job.step(event) == (
                PersistJobView::Failed { error: PersistError::Path(failure) }),
                _ => job.step(event) == (PersistJobView::Verify { check: after, file }),
            }
        }),
{
}

/// Writings are seen as they are.
pub proof fn law_writings_are_seen_as_they_are(
    check: PathCheck<SessionPath>,
    dir: SessionPath,
    base: SessionPath,
    file: PersistedSessionFile,
    text: String,
    error: PersistError,
)
    ensures
        (SessionPersistJob::Verify { check, file })@ == (PersistJobView::Verify {
            check: check@,
            file: file@,
        }),
        (SessionPersistJob::CreateDir { dir, base, file })@ == (PersistJobView::CreateDir {
            dir: dir@,
            base: base@,
            file: file@,
        }),
        (SessionPersistJob::Serialize { dir, base, file })@ == (PersistJobView::Serialize {
            dir: dir@,
            base: base@,
            file: file@,
        }),
        (SessionPersistJob::CreateTemp { dir, base, text })@ == (PersistJobView::CreateTemp {
            dir: dir@,
            base: base@,
            text: text@,
        }),
        (SessionPersistJob::WriteTemp { dir, base, text })@ == (PersistJobView::WriteTemp {
            dir: dir@,
            base: base@,
            text: text@,
        }),
        (SessionPersistJob::SyncTemp { dir, base, text })@ == (PersistJobView::SyncTemp {
            dir: dir@,
            base: base@,
            text: text@,
        }),
        (SessionPersistJob::Commit { dir, base, text })@ == (PersistJobView::Commit {
            dir: dir@,
            base: base@,
            text: text@,
        }),
        (SessionPersistJob::Saved { dir, base, text })@ == (PersistJobView::Saved {
            dir: dir@,
            base: base@,
            text: text@,
        }),
        (SessionPersistJob::Failed { error })@ == (PersistJobView::Failed { error }),
{
}

/// A failed writing says which of its steps failed.
pub proof fn law_failed_writings_say_what_failed(problem: SessionIdError, failure: PathFailure)
    ensures
        PersistError::SessionId(problem).text() == "session_id validation failed"@,
        PersistError::Path(failure).text()
            == "Path verification failed - potential directory traversal"@,
        PersistError::CreateDir.text() == "Failed to create session directory"@,
        PersistError::Serialize.text() == "Failed to serialize session data"@,
        PersistError::CreateTemp.text() == "Failed to create temporary session file"@,
        PersistError::WriteTemp.text() == "Failed to write session data to temp file"@,
        PersistError::SyncTemp.text() == "Failed to sync session file to disk"@,
        PersistError::Commit.text() == "Failed to atomically commit session file"@,
{
}

/// A writing that is over stays what it came to and asks for nothing; before that,
/// an outcome that answers another question than the one that was asked changes
/// nothing.
pub proof fn law_writings_wait_for_their_answer(
    dir: crate::path::PathView,
    base: crate::path::PathView,
    file: crate::types::SessionFileView,
    text: Seq<char>,
    error: PersistError,
    event: crate::persistence::DiskEventView,
)
    ensures
        (PersistJobView::Saved { dir, base, text }).step(event) == (PersistJobView::Saved {
            dir,
            base,
            text,
        }),
        (PersistJobView::Failed { error }).step(event) == (PersistJobView::Failed { error }),
        !(event is Done) ==> {
            &&& (PersistJobView::CreateDir { dir, base, file }).step(event) == (
            PersistJobView::CreateDir { dir, base, file })
            &&& (PersistJobView::CreateTemp { dir, base, text }).step(event) == (
            PersistJobView::CreateTemp { dir, base, text })
            &&& (PersistJobView::WriteTemp { dir, base, text }).step(event) == (
            PersistJobView::WriteTemp { dir, base, text })
            &&& (PersistJobView::SyncTemp { dir, base, text }).step(event) == (
            PersistJobView::SyncTemp { dir, base, text })
            &&& (PersistJobView::Commit { dir, base, text }).step(event) == (
            PersistJobView::Commit { dir, base, text })
        },
        !(event is Serialized) ==> (PersistJobView::Serialize { dir, base, file }).step(event) == (
        PersistJobView::Serialize { dir, base, file }),
        (PersistJobView::Saved { dir, base, text }).request() is None,
{
}

} // verus!
