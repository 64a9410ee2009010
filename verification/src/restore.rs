//! Restoring sessions from disk.
//!
//! A session is restored from its session file: a new actor is started on the
//! thoughts in the file, and once it has proved responsive the file, which was
//! the session's backup until then, may go.

use crate::clock::to_instant;
use crate::path::SessionPath;
use crate::persist::PersistJob;
use crate::persistence::{verify_path_within_base, DiskEvent, DiskRequest, PathCheck};
use crate::session_id::sanitize_session_id;
use crate::types::{
    PersistedSessionFile, PersistenceCommand, PersistenceConfig, SessionHandle, ThinkingState,
};
use vstd::prelude::*;

verus! {

/// What came of reading a session file.
#[derive(Debug)]
pub enum SessionRead<F> {
    /// It could not be read.
    Unreadable,
    /// It was read, and is not a session.
    Corrupt,
    /// It holds this session.
    Parsed(F),
}

/// A request of a restoration.
#[derive(Debug, PartialEq, Eq)]
pub enum RestoreRequest<P, T> {
    /// To the file system.
    Disk(DiskRequest<P, T>),
    /// Read the session in this file.
    ReadSession(P),
    /// Start an actor on the restored state.
    Spawn,
    /// Ask this actor for its state, and do not wait longer than five seconds
    /// for it.
    Confirm(u64),
}

/// The outcome of a request of a restoration.
#[derive(Debug)]
pub enum RestoreEvent<P, T, F> {
    /// From the file system.
    Disk(DiskEvent<P, T>),
    /// What came of reading the session file.
    Read(SessionRead<F>),
    /// The actor runs under this number; the clocks show these times.
    Spawned { actor: u64, now: u128, wall_now: i128 },
    /// Whether the actor gave its state in time.
    Confirmed(bool),
}

/// A session on its way back from the disk. `P` is a path, `T` a text, `F` a
/// session file. `dir` is the session directory, `base` the directory of the
/// store, both resolved.
#[derive(Debug)]
pub enum RestoreJob<P, T, F> {
    /// Check that the session directory stays within the store.
    Verify { check: PathCheck<P>, session_id: T },
    /// Does the session file exist?
    ProbeFile { dir: P, base: P, session_id: T },
    /// Read it.
    ReadFile { dir: P, base: P, session_id: T },
    /// It is corrupt: remove it.
    RemoveCorrupt { dir: P, base: P },
    /// Start an actor on the session in the file.
    Spawn { file: F, session_id: T },
    /// See whether the actor responds.
    Confirm { handle: SessionHandle, session_id: T },
    /// The session runs again, and its backup may go.
    Restored { handle: SessionHandle, session_id: T },
    /// The session is not restored.
    NotRestored,
}

/// A restoration on concrete values.
pub type SessionRestoreJob = RestoreJob<SessionPath, String, PersistedSessionFile>;

/// A request, by views.
pub type RestoreRequestView = RestoreRequest<crate::path::PathView, Seq<char>>;

/// An outcome, by views.
pub type RestoreEventView = RestoreEvent<
    crate::path::PathView,
    Seq<char>,
    crate::types::SessionFileView,
>;

/// A restoration, by views.
pub type RestoreJobView = RestoreJob<
    crate::path::PathView,
    Seq<char>,
    crate::types::SessionFileView,
>;

impl View for SessionRead<PersistedSessionFile> {
    type V = SessionRead<crate::types::SessionFileView>;

    open spec fn view(&self) -> SessionRead<crate::types::SessionFileView> {
        match *self {
            SessionRead::Unreadable => SessionRead::Unreadable,
            SessionRead::Corrupt => SessionRead::Corrupt,
            SessionRead::Parsed(file) => SessionRead::Parsed(file@),
        }
    }
}

impl SessionRead<PersistedSessionFile> {
    /// A session that was read is well formed.
    pub open spec fn wf(&self) -> bool {
        *self matches SessionRead::Parsed(file) ==> file.wf()
    }
}

impl View for RestoreRequest<SessionPath, String> {
    type V = RestoreRequestView;

    open spec fn view(&self) -> RestoreRequestView {
        match *self {
            RestoreRequest::Disk(request) => RestoreRequest::Disk(request@),
            RestoreRequest::ReadSession(path) => RestoreRequest::ReadSession(path@),
            RestoreRequest::Spawn => RestoreRequest::Spawn,
            RestoreRequest::Confirm(actor) => RestoreRequest::Confirm(actor),
        }
    }
}

/// The view of an optional request.
pub open spec fn restore_request_view(
    request: Option<RestoreRequest<SessionPath, String>>,
) -> Option<RestoreRequestView> {
    match request {
        Some(r) => Some(r@),
        None => None,
    }
}

impl View for RestoreEvent<SessionPath, String, PersistedSessionFile> {
    type V = RestoreEventView;

    open spec fn view(&self) -> RestoreEventView {
        match *self {
            RestoreEvent::Disk(event) => RestoreEvent::Disk(event@),
            RestoreEvent::Read(read) => RestoreEvent::Read(read@),
            RestoreEvent::Spawned { actor, now, wall_now } => RestoreEvent::Spawned {
                actor,
                now,
                wall_now,
            },
            RestoreEvent::Confirmed(responsive) => RestoreEvent::Confirmed(responsive),
        }
    }
}

impl RestoreEvent<SessionPath, String, PersistedSessionFile> {
    /// A session that was read is well formed.
    pub open spec fn wf(&self) -> bool {
        *self matches RestoreEvent::Read(read) ==> read.wf()
    }
}

impl View for RestoreJob<SessionPath, String, PersistedSessionFile> {
    type V = RestoreJobView;

    open spec fn view(&self) -> RestoreJobView {
        match *self {
            RestoreJob::Verify { check, session_id } => RestoreJob::Verify {
                check: check@,
                session_id: session_id@,
            },
            RestoreJob::ProbeFile { dir, base, session_id } => RestoreJob::ProbeFile {
                dir: dir@,
                base: base@,
                session_id: session_id@,
            },
            RestoreJob::ReadFile { dir, base, session_id } => RestoreJob::ReadFile {
                dir: dir@,
                base: base@,
                session_id: session_id@,
            },
            RestoreJob::RemoveCorrupt { dir, base } => RestoreJob::RemoveCorrupt {
                dir: dir@,
                base: base@,
            },
            RestoreJob::Spawn { file, session_id } => RestoreJob::Spawn {
                file: file@,
                session_id: session_id@,
            },
            RestoreJob::Confirm { handle, session_id } => RestoreJob::Confirm {
                handle,
                session_id: session_id@,
            },
            RestoreJob::Restored { handle, session_id } => RestoreJob::Restored {
                handle,
                session_id: session_id@,
            },
            RestoreJob::NotRestored => RestoreJob::NotRestored,
        }
    }
}

/// A restoration once its path check has come to a verdict.
pub open spec fn restore_checked(
    check: crate::persistence::PathCheckView,
    session_id: Seq<char>,
) -> RestoreJobView {
    match check {
        PathCheck::Inside { path, base } => RestoreJob::ProbeFile { dir: path, base, session_id },
        PathCheck::Refused { failure, path, base } => RestoreJob::NotRestored,
        _ => RestoreJob::Verify { check, session_id },
    }
}

/// A restoration at its start.
pub open spec fn restore_job(
    sessions_dir: crate::path::PathView,
    session_id: Seq<char>,
) -> RestoreJobView {
    if crate::session_id::is_safe_id(session_id) {
        RestoreJob::Verify {
            check: crate::persistence::path_check(sessions_dir.push(session_id), sessions_dir),
            session_id,
        }
    } else {
        RestoreJob::NotRestored
    }
}

/// Whether a session has anything to restore.
pub open spec fn has_thoughts(state: crate::types::StateView) -> bool {
    state.history.len() > 0 || state.branches.ids.len() > 0
}

impl RestoreJob<crate::path::PathView, Seq<char>, crate::types::SessionFileView> {
    /// The request that comes next.
    pub open spec fn request(self) -> Option<RestoreRequestView> {
        match self {
            RestoreJob::Verify { check, session_id } => match check.request() {
                Some(request) => Some(RestoreRequest::Disk(request)),
                None => None,
            },
            RestoreJob::ProbeFile { dir, base, session_id } => Some(
                RestoreRequest::Disk(DiskRequest::Exists(crate::persist::session_file(dir))),
            ),
            RestoreJob::ReadFile { dir, base, session_id } => Some(
                RestoreRequest::ReadSession(crate::persist::session_file(dir)),
            ),
            RestoreJob::RemoveCorrupt { dir, base } => Some(
                RestoreRequest::Disk(DiskRequest::RemoveDir(dir)),
            ),
            RestoreJob::Spawn { file, session_id } => Some(RestoreRequest::Spawn),
            RestoreJob::Confirm { handle, session_id } => Some(
                RestoreRequest::Confirm(handle.actor),
            ),
            RestoreJob::Restored { .. } => None,
            RestoreJob::NotRestored => None,
        }
    }

    /// The restoration after an outcome. An outcome that does not answer the
    /// request changes nothing.
    pub open spec fn step(self, event: RestoreEventView) -> RestoreJobView {
        match (self, event) {
            (RestoreJob::Verify { check, session_id }, RestoreEvent::Disk(event)) =>
                restore_checked(check.step(event), session_id),
            (
                RestoreJob::ProbeFile { dir, base, session_id },
                RestoreEvent::Disk(DiskEvent::Exists(exists)),
            ) => if exists {
                RestoreJob::ReadFile { dir, base, session_id }
            } else {
                RestoreJob::NotRestored
            },
            (RestoreJob::ReadFile { dir, base, session_id }, RestoreEvent::Read(read)) => match read {
                SessionRead::Unreadable => RestoreJob::NotRestored,
                SessionRead::Corrupt => RestoreJob::RemoveCorrupt { dir, base },
                SessionRead::Parsed(file) => if has_thoughts(file.state) {
                    RestoreJob::Spawn { file, session_id }
                } else {
                    RestoreJob::NotRestored
                },
            },
            (RestoreJob::RemoveCorrupt { dir, base }, RestoreEvent::Disk(DiskEvent::Done(_))) =>
                RestoreJob::NotRestored,
            (
                RestoreJob::Spawn { file, session_id },
                RestoreEvent::Spawned { actor, now, wall_now },
            ) => match crate::clock::instant_of(file.created_at, now, wall_now) {
                Some(created_at) => RestoreJob::Confirm {
                    handle: SessionHandle { actor, created_at, last_activity: now },
                    session_id,
                },
                None => RestoreJob::NotRestored,
            },
            (RestoreJob::Confirm { handle, session_id }, RestoreEvent::Confirmed(responsive)) =>
                if responsive {
                RestoreJob::Restored { handle, session_id }
            } else {
                RestoreJob::NotRestored
            },
            _ => self,
        }
    }

    /// The restoration after a list of outcomes.
    pub open spec fn run(self, events: Seq<RestoreEventView>) -> RestoreJobView
        decreases events.len(),
    {
        if events.len() == 0 {
            self
        } else {
            self.run(events.drop_last()).step(events.last())
        }
    }
}

/// The restoration, once its path check has come to a verdict.
fn after_check(check: PathCheck<SessionPath>, session_id: String) -> (job: RestoreJob<
    SessionPath,
    String,
    PersistedSessionFile,
>)
    ensures
        job@ == restore_checked(check@, session_id@),
        job.wf(),
{
    match check {
        PathCheck::Inside { path, base } => RestoreJob::ProbeFile { dir: path, base, session_id },
        PathCheck::Refused { .. } => RestoreJob::NotRestored,
        other => RestoreJob::Verify { check: other, session_id },
    }
}

impl RestoreJob<SessionPath, String, PersistedSessionFile> {
    /// The session to start an actor on is well formed.
    pub open spec fn wf(&self) -> bool {
        *self matches RestoreJob::Spawn { file, session_id } ==> file.wf()
    }

    /// The request that comes next, until the restoration is over.
    pub fn next_request(&self) -> (request: Option<RestoreRequest<SessionPath, String>>)
        ensures
            restore_request_view(request) == self@.request(),
    {
        match self {
            RestoreJob::Verify { check, session_id: _ } => match check.next_request() {
                Some(request) => Some(RestoreRequest::Disk(request)),
                None => None,
            },
            RestoreJob::ProbeFile { dir, base: _, session_id: _ } => Some(
                RestoreRequest::Disk(DiskRequest::Exists(dir.join("session.json"))),
            ),
            RestoreJob::ReadFile { dir, base: _, session_id: _ } => Some(
                RestoreRequest::ReadSession(dir.join("session.json")),
            ),
            RestoreJob::RemoveCorrupt { dir, base: _ } => Some(
                RestoreRequest::Disk(DiskRequest::RemoveDir(dir.clone())),
            ),
            RestoreJob::Spawn { .. } => Some(RestoreRequest::Spawn),
            RestoreJob::Confirm { handle, session_id: _ } => Some(
                RestoreRequest::Confirm(handle.actor),
            ),
            RestoreJob::Restored { .. } => None,
            RestoreJob::NotRestored => None,
        }
    }

    /// Goes on with the outcome of the request.
    pub fn advance(self, event: RestoreEvent<SessionPath, String, PersistedSessionFile>) -> (next:
        Self)
        requires
            self.wf(),
            event.wf(),
        ensures
            next@ == self@.step(event@),
            next.wf(),
    {
        match (self, event) {
            (RestoreJob::Verify { check, session_id }, RestoreEvent::Disk(event)) => after_check(
                check.advance(event),
                session_id,
            ),
            (
                RestoreJob::ProbeFile { dir, base, session_id },
                RestoreEvent::Disk(DiskEvent::Exists(exists)),
            ) => if exists {
                RestoreJob::ReadFile { dir, base, session_id }
            } else {
                RestoreJob::NotRestored
            },
            (RestoreJob::ReadFile { dir, base, session_id }, RestoreEvent::Read(read)) => match read {
                SessionRead::Unreadable => RestoreJob::NotRestored,
                SessionRead::Corrupt => RestoreJob::RemoveCorrupt { dir, base },
                SessionRead::Parsed(file) => if file.thought_history.len() == 0
                    && file.branches.is_empty() {
                    RestoreJob::NotRestored
                } else {
                    RestoreJob::Spawn { file, session_id }
                },
            },
            (RestoreJob::RemoveCorrupt { dir: _, base: _ }, RestoreEvent::Disk(DiskEvent::Done(_))) =>
                RestoreJob::NotRestored,
            (
                RestoreJob::Spawn { file, session_id },
                RestoreEvent::Spawned { actor, now, wall_now },
            ) => match to_instant(file.created_at, now, wall_now) {
                Some(created_at) => RestoreJob::Confirm {
                    handle: SessionHandle { actor, created_at, last_activity: now },
                    session_id,
                },
                None => RestoreJob::NotRestored,
            },
            (RestoreJob::Confirm { handle, session_id }, RestoreEvent::Confirmed(responsive)) =>
                if responsive {
                RestoreJob::Restored { handle, session_id }
            } else {
                RestoreJob::NotRestored
            },
            (job, _) => job,
        }
    }

    /// The state to start an actor on, when that comes next.
    pub fn restored_state(&self) -> (state: Option<ThinkingState>)
        requires
            self.wf(),
        ensures
            match state {
                Some(restored) => restored.wf() && (self@ matches RestoreJob::Spawn {
                    file,
                    session_id,
                } && restored@ == file.state),
                None => !(self@ is Spawn),
            },
    {
        match self {
            RestoreJob::Spawn { file, session_id: _ } => {
                let snapshot = file.to_snapshot();
                Some(
                    ThinkingState {
                        thought_history: snapshot.thought_history,
                        branches: snapshot.branches,
                    },
                )
            },
            _ => None,
        }
    }

    /// The handle of the restored session.
    pub fn restored_handle(&self) -> (result: Option<SessionHandle>)
        ensures
            match result {
                Some(found) => self@ matches RestoreJob::Restored { handle, session_id } && handle
                    == found,
                None => !(self@ is Restored),
            },
    {
        match self {
            RestoreJob::Restored { handle, session_id: _ } => Some(*handle),
            _ => None,
        }
    }

    /// The command that deletes the backup of the session, once the session
    /// runs again.
    pub fn backup_to_delete(&self) -> (command: Option<PersistenceCommand>)
        ensures
            match command {
                Some(PersistenceCommand::Delete { session_id: id }) =>
                    self@ matches RestoreJob::Restored { handle, session_id } && session_id == id@,
                Some(_) => false,
                None => !(self@ is Restored),
            },
    {
        match self {
            RestoreJob::Restored { handle: _, session_id } => Some(
                PersistenceCommand::Delete { session_id: session_id.clone() },
            ),
            _ => None,
        }
    }
}

/// Starts restoring a session from disk.
pub fn try_restore_session(config: &PersistenceConfig, session_id: &str) -> (job: RestoreJob<
    SessionPath,
    String,
    PersistedSessionFile,
>)
    ensures
        job@ == restore_job(config.sessions_dir@, session_id@),
        job.wf(),
{
    match sanitize_session_id(session_id) {
        Ok(safe_id) => {
            let dir = config.sessions_dir.join(safe_id.as_str());
            RestoreJob::Verify {
                check: verify_path_within_base(dir, config.sessions_dir.clone()),
                session_id: safe_id,
            }
        },
        Err(_) => RestoreJob::NotRestored,
    }
}

/// Restoring gives back what was written: when the session file of the checked
/// directory is read as the session that was written there, and that session
/// has thoughts, an actor is started on exactly its state; once the actor has
/// proved responsive the session runs again, as old as it was, under the
/// handle of that actor.
pub proof fn law_restoring_gives_back_what_was_written(
    dir: crate::path::PathView,
    base: crate::path::PathView,
    session_id: Seq<char>,
    written: crate::types::SessionFileView,
    actor: u64,
    now: u128,
    wall_now: i128,
)
    requires
        has_thoughts(written.state),
        written.created_at <= wall_now,
    ensures
        ({
            let found = restore_checked(PathCheck::Inside { path: dir, base }, session_id).step(
                RestoreEvent::Disk(DiskEvent::Exists(true)),
            );
            let read = found.step(RestoreEvent::Read(SessionRead::Parsed(written)));
            let spawned = read.step(RestoreEvent::Spawned { actor, now, wall_now });
            let handle = SessionHandle {
                actor,
                created_at: crate::clock::back(now, (wall_now - written.created_at) as u128),
                last_activity: now,
            };
            &&& found.request() == Some(
                RestoreRequestView::ReadSession(crate::persist::session_file(dir)),
            )
            &&& read == (RestoreJobView::Spawn { file: written, session_id })
            &&& spawned.request() == Some(RestoreRequestView::Confirm(actor))
            &&& spawned.step(RestoreEvent::Confirmed(true)) == (RestoreJobView::Restored {
                handle,
                session_id,
            })
        }),
{
}

/// A session without thoughts is not restored.
pub proof fn law_empty_sessions_are_not_restored(
    dir: crate::path::PathView,
    base: crate::path::PathView,
    session_id: Seq<char>,
    read: crate::types::SessionFileView,
)
    requires
        !has_thoughts(read.state),
    ensures
        restore_checked(PathCheck::Inside { path: dir, base }, session_id).step(
            RestoreEvent::Disk(DiskEvent::Exists(true)),
        ).step(RestoreEvent::Read(SessionRead::Parsed(read))) == RestoreJobView::NotRestored,
{
}

/// A restored session is one whose actor was confirmed: the backup may go only
/// after the actor has given its state, and in every other case it stays.
pub proof fn law_backup_goes_only_after_confirmation(
    sessions_dir: crate::path::PathView,
    session_id: Seq<char>,
    events: Seq<RestoreEventView>,
)
    ensures
        restore_job(sessions_dir, session_id).run(events) is Restored ==> events.contains(
            RestoreEvent::Confirmed(true),
        ),
    decreases events.len(),
{
    if events.len() > 0 {
        let rest = events.drop_last();
        law_backup_goes_only_after_confirmation(sessions_dir, session_id, rest);
        assert(events[events.len() - 1] == events.last());
        if rest.contains(RestoreEvent::Confirmed(true)) {
            let i = choose|i: int|
                0 <= i < rest.len() && rest[i] == RestoreEventView::Confirmed(true);
            assert(events[i] == rest[i]);
        }
    }
}

/// A restoration removes a directory only when the session file in it was read
/// and found corrupt.
pub proof fn law_only_corrupt_files_are_removed(
    sessions_dir: crate::path::PathView,
    session_id: Seq<char>,
    events: Seq<RestoreEventView>,
)
    ensures
        restore_job(sessions_dir, session_id).run(events) is RemoveCorrupt ==> events.contains(
            RestoreEvent::Read(SessionRead::Corrupt),
        ),
    decreases events.len(),
{
    if events.len() > 0 {
        let rest = events.drop_last();
        law_only_corrupt_files_are_removed(sessions_dir, session_id, rest);
        assert(events[events.len() - 1] == events.last());
        if rest.contains(RestoreEvent::Read(SessionRead::Corrupt)) {
            let i = choose|i: int|
                0 <= i < rest.len() && rest[i] == RestoreEventView::Read(SessionRead::Corrupt);
            assert(events[i] == rest[i]);
        }
    }
}

/// Whether the directory that a restoration reads, or removes, lies within the
/// resolved directory of the store.
pub open spec fn stays_within(job: RestoreJobView) -> bool {
    match job {
        RestoreJob::Verify { check, session_id } => check.sound(),
        RestoreJob::ProbeFile { dir, base, session_id } => crate::path::within(dir, base),
        RestoreJob::ReadFile { dir, base, session_id } => crate::path::within(dir, base),
        RestoreJob::RemoveCorrupt { dir, base } => crate::path::within(dir, base),
        _ => true,
    }
}

/// Whatever the file system answers, a session is read, and a corrupt one
/// removed, within the resolved directory of the store and nowhere else.
pub proof fn law_sessions_are_restored_within_the_store(
    sessions_dir: crate::path::PathView,
    session_id: Seq<char>,
    events: Seq<RestoreEventView>,
)
    ensures
        stays_within(restore_job(sessions_dir, session_id).run(events)),
    decreases events.len(),
{
    if events.len() > 0 {
        law_sessions_are_restored_within_the_store(sessions_dir, session_id, events.drop_last());
    }
}

/// What is read from a session file on a disk, where `parse` says which session
/// a text is, if it is one.
pub open spec fn read_from(
    disk: crate::persist::Disk,
    path: crate::path::PathView,
    parse: spec_fn(Seq<char>) -> Option<crate::types::SessionFileView>,
) -> SessionRead<crate::types::SessionFileView> {
    match crate::persist::content(disk, path) {
        None => SessionRead::Unreadable,
        Some(text) => match parse(text) {
            Some(file) => SessionRead::Parsed(file),
            None => SessionRead::Corrupt,
        },
    }
}

/// Whether what a session was written as in the course of a trace is read as
/// that session.
pub open spec fn parses_as(
    trace: crate::persist::Trace,
    file: crate::types::SessionFileView,
    parse: spec_fn(Seq<char>) -> Option<crate::types::SessionFileView>,
) -> bool {
    forall|text: Seq<char>| #[trigger]
        crate::persist::serialized_as(trace, text) ==> parse(text) == Some(file)
}

/// A session that was saved comes back: from the disk after the writing, where
/// the session's text is read as the session, its actor is started on exactly
/// the state that was saved.
pub proof fn law_saved_sessions_come_back(
    sessions_dir: crate::path::PathView,
    file: crate::types::SessionFileView,
    disk: crate::persist::Disk,
    trace: crate::persist::Trace,
    parse: spec_fn(Seq<char>) -> Option<crate::types::SessionFileView>,
    session_id: Seq<char>,
)
    requires
        crate::persist::can_happen(
            crate::persist::persist_job(sessions_dir, file),
            disk,
            trace,
        ),
        parses_as(trace, file, parse),
        has_thoughts(file.state),
    ensures
        match crate::persist::job_after(crate::persist::persist_job(sessions_dir, file), trace) {
            PersistJob::Saved { dir, base, text } => restore_checked(
                PathCheck::Inside { path: dir, base },
                session_id,
            ).step(RestoreEvent::Disk(DiskEvent::Exists(true))).step(
                RestoreEvent::Read(
                    read_from(
                        crate::persist::disk_after(disk, trace),
                        crate::persist::session_file(dir),
                        parse,
                    ),
                ),
            ) == (RestoreJobView::Spawn { file, session_id }),
            _ => true,
        },
{
    crate::persist::law_saved_sessions_are_on_the_disk(sessions_dir, file, disk, trace);
}

/// A crash while a session is being written does no harm to it: whatever the
/// writing had come to, its session file is read as it was read before, or as
/// the new session.
pub proof fn law_crashes_leave_sessions_readable(
    sessions_dir: crate::path::PathView,
    file: crate::types::SessionFileView,
    disk: crate::persist::Disk,
    trace: crate::persist::Trace,
    parse: spec_fn(Seq<char>) -> Option<crate::types::SessionFileView>,
    dir: crate::path::PathView,
)
    requires
        crate::persist::can_happen(
            crate::persist::persist_job(sessions_dir, file),
            disk,
            trace,
        ),
        parses_as(trace, file, parse),
    ensures
        ({
            let path = crate::persist::session_file(dir);
            let after = read_from(crate::persist::disk_after(disk, trace), path, parse);
            after == read_from(disk, path, parse) || after == SessionRead::Parsed(file)
        }),
{
    let path = crate::persist::session_file(dir);
    let passed = crate::persist::passed_dir(
        crate::persist::persist_job(sessions_dir, file),
        trace,
    );
    crate::persist::law_session_file_is_never_partial(sessions_dir, file, disk, trace);
    reveal_strlit("session.json");
    reveal_strlit("session.json.tmp");
    assert("session.json"@.len() == 12 && "session.json.tmp"@.len() == 16);
    assert(path.last() == "session.json"@);
    assert(passed is Some ==> crate::persist::temp_file(passed->0).last() == "session.json.tmp"@);
    assert(!crate::persist::is_temp_of(passed, path));
}

/// What becomes of a session whose directory and file exist, from start to end;
/// `base` is the resolved directory of the store.
pub open spec fn full_restoration(
    sessions_dir: crate::path::PathView,
    session_id: Seq<char>,
    base: crate::path::PathView,
    file: crate::types::SessionFileView,
    actor: u64,
    now: u128,
    wall_now: i128,
) -> RestoreJobView {
    restore_job(sessions_dir, session_id).step(RestoreEvent::Disk(DiskEvent::Exists(true))).step(
        RestoreEvent::Disk(DiskEvent::Resolved(Some(base))),
    ).step(RestoreEvent::Disk(DiskEvent::Exists(true))).step(
        RestoreEvent::Disk(DiskEvent::Resolved(Some(base.push(session_id)))),
    ).step(RestoreEvent::Disk(DiskEvent::Exists(true))).step(
        RestoreEvent::Read(SessionRead::Parsed(file)),
    ).step(RestoreEvent::Spawned { actor, now, wall_now }).step(RestoreEvent::Confirmed(true))
}

/// A session with an accepted id, whose file is there and holds thoughts, is
/// restored, as old as it was.
pub proof fn law_existing_sessions_are_restored(
    sessions_dir: crate::path::PathView,
    session_id: Seq<char>,
    base: crate::path::PathView,
    file: crate::types::SessionFileView,
    actor: u64,
    now: u128,
    wall_now: i128,
)
    requires
        crate::session_id::is_safe_id(session_id),
        has_thoughts(file.state),
        file.created_at <= wall_now,
    ensures
        full_restoration(sessions_dir, session_id, base, file, actor, now, wall_now) == (
        RestoreJobView::Restored {
            handle: SessionHandle {
                actor,
                created_at: crate::clock::back(now, (wall_now - file.created_at) as u128),
                last_activity: now,
            },
            session_id,
        }),
{
    crate::path::law_children_lie_within(base, base, session_id);
}

/// A session that was read is restored exactly when it has a thought or a branch,
/// however many of either, and then it is that very session.
pub proof fn law_any_thought_or_branch_is_restored(
    dir: crate::path::PathView,
    base: crate::path::PathView,
    session_id: Seq<char>,
    file: crate::types::SessionFileView,
)
    ensures
        ({
            let after = (RestoreJobView::ReadFile { dir, base, session_id }).step(
                RestoreEvent::Read(SessionRead::Parsed(file)),
            );
            &&& file.state.history.len() > 0 || file.state.branches.ids.len() > 0 ==> after == (
            RestoreJobView::Spawn { file, session_id })
            &&& file.state.history.len() == 0 && file.state.branches.ids.len() == 0 ==> after
                == RestoreJobView::NotRestored
        }),
{
}

/// A restoration looks for `session.json` in the session directory and reads it;
/// without it, or when it cannot be read, nothing is restored; one that is not a
/// session is removed with its directory, and nothing is restored either.
pub proof fn law_restorations_read_the_session_file(
    dir: crate::path::PathView,
    base: crate::path::PathView,
    session_id: Seq<char>,
    removed: bool,
)
    ensures
        ({
            let probing = restore_checked(PathCheck::Inside { path: dir, base }, session_id);
            let reading = probing.step(RestoreEvent::Disk(DiskEvent::Exists(true)));
            let corrupt = reading.step(RestoreEvent::Read(SessionRead::Corrupt));
            let file = dir + seq!["session.json"@];
            &&& probing.request() == Some(
                RestoreRequestView::Disk(crate::persistence::DiskRequestView::Exists(file)),
            )
            &&& probing.step(RestoreEvent::Disk(DiskEvent::Exists(false)))
                == RestoreJobView::NotRestored
            &&& reading == (RestoreJobView::ReadFile { dir, base, session_id })
            &&& reading.request() == Some(RestoreRequestView::ReadSession(file))
            &&& reading.step(RestoreEvent::Read(SessionRead::Unreadable))
                == RestoreJobView::NotRestored
            &&& corrupt.request() == Some(
                RestoreRequestView::Disk(crate::persistence::DiskRequestView::RemoveDir(dir)),
            )
            &&& corrupt.step(RestoreEvent::Disk(DiskEvent::Done(removed)))
                == RestoreJobView::NotRestored
        }),
{
    assert(dir.push("session.json"@) =~= dir + seq!["session.json"@]);
}

/// A session whose creation does not lie in the future gets the new actor, is as
/// old as it was, as far as the clock reaches back, and counts as used now; the
/// actor is asked, and only when it responds is the session restored, under its
/// id. A session from the future is not restored.
pub proof fn law_restored_sessions_are_as_old_as_they_were(
    file: crate::types::SessionFileView,
    session_id: Seq<char>,
    actor: u64,
    now: u128,
    wall_now: i128,
)
    ensures
        ({
            let start = RestoreJobView::Spawn { file, session_id };
            let spawned = start.step(RestoreEvent::Spawned { actor, now, wall_now });
            &&& start.request() == Some(RestoreRequestView::Spawn)
            &&& file.created_at > wall_now ==> spawned == RestoreJobView::NotRestored
            &&& file.created_at <= wall_now ==> {
                &&& spawned.request() == Some(RestoreRequestView::Confirm(actor))
                &&& spawned.step(RestoreEvent::Confirmed(false)) == RestoreJobView::NotRestored
                &&& spawned.step(RestoreEvent::Confirmed(true)) matches RestoreJob::Restored {
                    handle,
                    session_id: id,
                } && {
                    &&& id == session_id
                    &&& handle.actor == actor
                    &&& handle.last_activity == now
                    &&& wall_now - file.created_at <= now ==> now - handle.created_at == wall_now
                        - file.created_at
                    &&& wall_now - file.created_at > now ==> handle.created_at == now
                }
            }
        }),
{
}

/// A restoration starts with the check of the directory of the session below the
/// store, when its id is accepted, and with nothing when it is not; a path that
/// is refused is not read.
pub proof fn law_restorations_start_with_id_and_path(
    sessions_dir: crate::path::PathView,
    session_id: Seq<char>,
    check: crate::persistence::PathCheckView,
    event: crate::persistence::DiskEventView,
)
    ensures
        crate::session_id::is_safe_id(session_id) ==> restore_job(sessions_dir, session_id) == (
        RestoreJobView::Verify {
            check: PathCheck::ProbeBase {
                path: sessions_dir.push(session_id),
                base: sessions_dir,
            },
            session_id,
        }),
        !crate::session_id::is_safe_id(session_id) ==> restore_job(sessions_dir, session_id)
            == RestoreJobView::NotRestored,
        ({
            let job = RestoreJobView::Verify { check, session_id };
            let next = job.step(RestoreEvent::Disk(event));
            &&& match check.request() {
                Some(request) => job.request() == Some(RestoreRequestView::Disk(request)),
                None => job.request() is None,
            }
            &&& match check.step(event) {
                PathCheck::Inside { path, base } => next == (RestoreJobView::ProbeFile {
                    dir: path,
                    base,
                    session_id,
                }),
                PathCheck::Refused { failure, path, base } => next == RestoreJobView::NotRestored,
                after => next == (RestoreJobView::Verify { check: after, session_id }),
            }
        }),
{
}

/// Outcomes of a restoration are seen as they are.
pub proof fn law_restore_outcomes_are_seen_as_they_are(
    event: DiskEvent<SessionPath, String>,
    file: PersistedSessionFile,
    actor: u64,
    now: u128,
    wall_now: i128,
    responsive: bool,
)
    ensures
        RestoreEvent::<SessionPath, String, PersistedSessionFile>::Disk(event)@
            == RestoreEventView::Disk(event@),
        RestoreEvent::<SessionPath, String, PersistedSessionFile>::Read(SessionRead::Parsed(file))@
            == RestoreEventView::Read(SessionRead::Parsed(file@)),
        RestoreEvent::<SessionPath, String, PersistedSessionFile>::Read(SessionRead::Corrupt)@
            == RestoreEventView::Read(SessionRead::Corrupt),
        RestoreEvent::<SessionPath, String, PersistedSessionFile>::Read(SessionRead::Unreadable)@
            == RestoreEventView::Read(SessionRead::Unreadable),
        (RestoreEvent::<SessionPath, String, PersistedSessionFile>::Spawned {
            actor,
            now,
            wall_now,
        })@ == (RestoreEventView::Spawned { actor, now, wall_now }),
        RestoreEvent::<SessionPath, String, PersistedSessionFile>::Confirmed(responsive)@
            == RestoreEventView::Confirmed(responsive),
{
}

/// Restorations are seen as they are.
pub proof fn law_restorations_are_seen_as_they_are(
    check: PathCheck<SessionPath>,
    dir: SessionPath,
    base: SessionPath,
    file: PersistedSessionFile,
    session_id: String,
    handle: SessionHandle,
)
    ensures
        (SessionRestoreJob::Verify { check, session_id })@ == (RestoreJobView::Verify {
            check: check@,
            session_id: session_id@,
        }),
        (SessionRestoreJob::ProbeFile { dir, base, session_id })@ == (RestoreJobView::ProbeFile {
            dir: dir@,
            base: base@,
            session_id: session_id@,
        }),
        (SessionRestoreJob::ReadFile { dir, base, session_id })@ == (RestoreJobView::ReadFile {
            dir: dir@,
            base: base@,
            session_id: session_id@,
        }),
        (SessionRestoreJob::RemoveCorrupt { dir, base })@ == (RestoreJobView::RemoveCorrupt {
            dir: dir@,
            base: base@,
        }),
        (SessionRestoreJob::Spawn { file, session_id })@ == (RestoreJobView::Spawn {
            file: file@,
            session_id: session_id@,
        }),
        (SessionRestoreJob::Confirm { handle, session_id })@ == (RestoreJobView::Confirm {
            handle,
            session_id: session_id@,
        }),
        (SessionRestoreJob::Restored { handle, session_id })@ == (RestoreJobView::Restored {
            handle,
            session_id: session_id@,
        }),
        SessionRestoreJob::NotRestored@ == RestoreJobView::NotRestored,
{
}

/// A restoration that is over stays what it came to and asks for nothing; before
/// that, an outcome that answers another question than the one that was asked
/// changes nothing.
pub proof fn law_restorations_wait_for_their_answer(
    job: RestoreJobView,
    event: RestoreEventView,
)
    ensures
        job is Restored || job is NotRestored ==> job.step(event) == job && (job.request() is None),
        job is ProbeFile && !(event matches RestoreEvent::Disk(outcome) && outcome is Exists)
            ==> job.step(event) == job,
        job is RemoveCorrupt && !(event matches RestoreEvent::Disk(outcome) && outcome is Done)
            ==> job.step(event) == job,
        job is ReadFile && !(event is Read) ==> job.step(event) == job,
        job is Spawn && !(event is Spawned) ==> job.step(event) == job,
        job is Confirm && !(event is Confirmed) ==> job.step(event) == job,
        job is Verify && !(event is Disk) ==> job.step(event) == job,
{
}

} // verus!
