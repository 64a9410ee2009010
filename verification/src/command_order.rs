//! What the persistence commands do to the store, one after the other.

use crate::persist::PersistJob;
use crate::persistence::{DiskEvent, DiskRequest, PathCheck};
use crate::processor::DeleteJob;
use crate::types::PersistenceCommand;
use vstd::prelude::*;

verus! {

/// Where commands are carried out: the directory of the store, the same
/// directory resolved, and the text that each session is written as.
pub struct Surroundings {
    pub sessions_dir: crate::path::PathView,
    pub root: crate::path::PathView,
    pub texts: Map<crate::types::SessionFileView, Seq<char>>,
}

/// What a path of the store resolves to: the directory of the store to the
/// resolved one, and a session directory to the one with the same name there.
pub open spec fn resolved(
    around: Surroundings,
    path: crate::path::PathView,
) -> crate::path::PathView {
    if path == around.sessions_dir {
        around.root
    } else {
        around.root.push(path.last())
    }
}

/// Whether nothing stands below a directory.
pub open spec fn nothing_below(disk: crate::persist::Disk, dir: crate::path::PathView) -> bool {
    forall|path: crate::path::PathView|
        crate::path::within(path, dir) ==> (#[trigger] crate::persist::content(disk, path) is None)
}

/// Whether the outcome of a request is a success. The directory of the store
/// exists, and is without links. Where there is nothing to remove, a removal
/// need not succeed.
pub open spec fn is_success(
    around: Surroundings,
    request: crate::persistence::DiskRequestView,
    event: crate::persistence::DiskEventView,
    session: Option<crate::types::SessionFileView>,
    disk: crate::persist::Disk,
) -> bool {
    match request {
        DiskRequest::Exists(path) => event matches DiskEvent::Exists(exists) && (path
            == around.sessions_dir ==> exists),
        DiskRequest::Resolve(path) => event == DiskEvent::<
            crate::path::PathView,
            Seq<char>,
        >::Resolved(Some(resolved(around, path))),
        DiskRequest::Serialize => session matches Some(file) && event == DiskEvent::<
            crate::path::PathView,
            Seq<char>,
        >::Serialized(Ok(around.texts[file])),
        DiskRequest::RemoveDir(dir) => event matches DiskEvent::Done(done) && (done
            || nothing_below(disk, dir)),
        _ => event == DiskEvent::<crate::path::PathView, Seq<char>>::Done(true),
    }
}

/// The session that a job is to write as text, when that comes next.
pub open spec fn session_of(job: crate::persist::PersistJobView) -> Option<
    crate::types::SessionFileView,
> {
    match job {
        PersistJob::Serialize { dir, base, file } => Some(file),
        _ => None,
    }
}

/// The session that a command is to write as text, when that comes next.
pub open spec fn session_at_hand(command: crate::processor::CommandView) -> Option<
    crate::types::SessionFileView,
> {
    match command {
        crate::processor::CommandView::Persist { job } => session_of(job),
        crate::processor::CommandView::Batch { run, completion } => match run.current {
            Some(job) => session_of(job),
            None => None,
        },
        crate::processor::CommandView::Delete { job } => None,
    }
}

/// A command after a trace.
pub open spec fn command_after(
    command: crate::processor::CommandView,
    trace: crate::persist::Trace,
) -> crate::processor::CommandView
    decreases trace.len(),
{
    if trace.len() == 0 {
        command
    } else {
        command_after(command, trace.drop_last()).step(trace.last().0)
    }
}

/// Whether a command goes well in the course of a trace: every outcome is a
/// success, and the disk changes as the requests change it.
pub open spec fn goes_well(
    around: Surroundings,
    command: crate::processor::CommandView,
    disk: crate::persist::Disk,
    trace: crate::persist::Trace,
) -> bool
    decreases trace.len(),
{
    trace.len() > 0 ==> {
        let rest = trace.drop_last();
        let before = command_after(command, rest);
        &&& goes_well(around, command, disk, rest)
        &&& before.request() matches Some(request) && is_success(
            around,
            request,
            trace.last().0,
            session_at_hand(before),
            crate::persist::disk_after(disk, rest),
        ) && crate::persist::effect(
            request,
            trace.last().0,
            crate::persist::disk_after(disk, rest),
            trace.last().1,
        )
    }
}

/// Whether a command is carried out by a trace.
pub open spec fn carried_out(
    around: Surroundings,
    command: crate::processor::CommandView,
    disk: crate::persist::Disk,
    trace: crate::persist::Trace,
) -> bool {
    &&& goes_well(around, command, disk, trace)
    &&& command_after(command, trace).request() is None
}

/// What is stored of a session.
pub open spec fn stored_text(
    around: Surroundings,
    disk: crate::persist::Disk,
    id: Seq<char>,
) -> Option<Seq<char>> {
    crate::persist::content(disk, crate::persist::session_file(around.root.push(id)))
}

/// What is stored of a session after another one, or itself, was persisted, by
/// what was stored before.
pub open spec fn after_persist(
    around: Surroundings,
    session: crate::types::SessionFileView,
    id: Seq<char>,
    before: Option<Seq<char>>,
) -> Option<Seq<char>> {
    if session.session_id == id && crate::session_id::is_safe_id(id) {
        Some(around.texts[session])
    } else {
        before
    }
}

/// What is stored of a session after a list of sessions was persisted.
pub open spec fn after_batch(
    around: Surroundings,
    sessions: Seq<crate::types::SessionFileView>,
    id: Seq<char>,
    before: Option<Seq<char>>,
) -> Option<Seq<char>>
    decreases sessions.len(),
{
    if sessions.len() == 0 {
        before
    } else {
        after_persist(
            around,
            sessions.last(),
            id,
            after_batch(around, sessions.drop_last(), id, before),
        )
    }
}

/// What is stored of a session after a command.
pub open spec fn after_command(
    around: Surroundings,
    command: PersistenceCommand,
    id: Seq<char>,
    before: Option<Seq<char>>,
) -> Option<Seq<char>> {
    match command {
        PersistenceCommand::Persist { request } => after_persist(around, request@, id, before),
        PersistenceCommand::PersistBatch { sessions, completion } => after_batch(
            around,
            crate::processor::session_views(sessions@),
            id,
            before,
        ),
        PersistenceCommand::Delete { session_id } => if session_id@ == id
            && crate::session_id::is_safe_id(id) {
            None
        } else {
            before
        },
    }
}

/// What is stored of a session after a list of commands: its last command
/// decides.
pub open spec fn after_commands(
    around: Surroundings,
    commands: Seq<PersistenceCommand>,
    id: Seq<char>,
    before: Option<Seq<char>>,
) -> Option<Seq<char>>
    decreases commands.len(),
{
    if commands.len() == 0 {
        before
    } else {
        after_command(
            around,
            commands.last(),
            id,
            after_commands(around, commands.drop_last(), id, before),
        )
    }
}

/// Whether the check of a session directory goes well.
spec fn check_goes_well(
    around: Surroundings,
    id: Seq<char>,
    check: crate::persistence::PathCheckView,
) -> bool {
    let dir = around.sessions_dir.push(id);
    match check {
        PathCheck::ProbeBase { path, base } => path == dir && base == around.sessions_dir,
        PathCheck::ResolveBase { path, base } => path == dir && base == around.sessions_dir,
        PathCheck::ProbePath { path, base } => path == dir && base == around.root,
        PathCheck::ResolvePath { path, base } => path == dir && base == around.root,
        PathCheck::ProbeParent { path, parent, base } => path == dir && parent
            == around.sessions_dir && base == around.root,
        PathCheck::ResolveParent { path, parent, base } => path == dir && parent
            == around.sessions_dir && base == around.root,
        PathCheck::Inside { path, base } => path == around.root.push(id) && base == around.root,
        _ => false,
    }
}

/// A check that goes well goes on well.
proof fn lemma_check(
    around: Surroundings,
    id: Seq<char>,
    check: crate::persistence::PathCheckView,
    event: crate::persistence::DiskEventView,
    session: Option<crate::types::SessionFileView>,
    disk: crate::persist::Disk,
)
    requires
        crate::session_id::is_safe_id(id),
        check_goes_well(around, id, check),
        check.request() matches Some(request) && is_success(around, request, event, session, disk),
    ensures
        check_goes_well(around, id, check.step(event)),
{
    let dir = around.sessions_dir.push(id);
    crate::session_id::law_safe_ids_are_plain_names(id);
    crate::path::law_children_lie_within(around.root, around.root, id);
    assert(dir.drop_last() =~= around.sessions_dir);
    assert(dir.last() == id);
    assert(dir.len() != around.sessions_dir.len());
}

/// What is stored of every session, as a function of its id.
pub type Stored = spec_fn(Seq<char>) -> Option<Seq<char>>;

/// Whether a disk stores what it should.
spec fn stores(around: Surroundings, disk: crate::persist::Disk, store: Stored) -> bool {
    forall|id: Seq<char>| #[trigger] stored_text(around, disk, id) == store(id)
}

/// Where the writing of a session stands when all goes well: before it is saved
/// the store is as it was, and after that it has the session.
spec fn persist_goes_well(
    around: Surroundings,
    session: crate::types::SessionFileView,
    store: Stored,
    job: crate::persist::PersistJobView,
    disk: crate::persist::Disk,
) -> bool {
    let id = session.session_id;
    let safe = crate::session_id::is_safe_id(id);
    let own = around.root.push(id);
    let text = around.texts[session];
    match job {
        PersistJob::Verify { check, file } => safe && file == session && check_goes_well(
            around,
            id,
            check,
        ) && !(check is Inside) && stores(around, disk, store),
        PersistJob::CreateDir { dir, base, file } => safe && file == session && dir == own
            && stores(around, disk, store),
        PersistJob::Serialize { dir, base, file } => safe && file == session && dir == own
            && stores(around, disk, store),
        PersistJob::CreateTemp { dir, base, text: t } => safe && dir == own && t == text && stores(
            around,
            disk,
            store,
        ),
        PersistJob::WriteTemp { dir, base, text: t } => safe && dir == own && t == text && stores(
            around,
            disk,
            store,
        ),
        PersistJob::SyncTemp { dir, base, text: t } => safe && dir == own && t == text && stores(
            around,
            disk,
            store,
        ) && crate::persist::content(disk, crate::persist::temp_file(own)) == Some(text),
        PersistJob::Commit { dir, base, text: t } => safe && dir == own && t == text && stores(
            around,
            disk,
            store,
        ) && crate::persist::content(disk, crate::persist::temp_file(own)) == Some(text),
        PersistJob::Saved { dir, base, text: t } => safe && stores(
            around,
            disk,
            |x: Seq<char>| after_persist(around, session, x, store(x)),
        ),
        PersistJob::Failed { error } => !safe && stores(around, disk, store),
    }
}

/// Session files of different sessions are different, and none is a temporary
/// one.
proof fn lemma_files_apart(root: crate::path::PathView, a: Seq<char>, b: Seq<char>)
    ensures
        crate::persist::session_file(root.push(a)) != crate::persist::temp_file(root.push(b)),
        a != b ==> crate::persist::session_file(root.push(a)) != crate::persist::session_file(
            root.push(b),
        ),
{
    reveal_strlit("session.json");
    reveal_strlit("session.json.tmp");
    assert("session.json"@.len() == 12 && "session.json.tmp"@.len() == 16);
    let x = crate::persist::session_file(root.push(a));
    assert(x.last() == "session.json"@);
    assert(crate::persist::temp_file(root.push(b)).last() == "session.json.tmp"@);
    assert(x[root.len() as int] == a);
    assert(crate::persist::session_file(root.push(b))[root.len() as int] == b);
}

/// A writing that goes well goes on well.
proof fn lemma_persist_step(
    around: Surroundings,
    session: crate::types::SessionFileView,
    store: Stored,
    job: crate::persist::PersistJobView,
    event: crate::persistence::DiskEventView,
    before: crate::persist::Disk,
    after: crate::persist::Disk,
)
    requires
        persist_goes_well(around, session, store, job, before),
        job.request() matches Some(request) && is_success(
            around,
            request,
            event,
            session_of(job),
            before,
        ) && crate::persist::effect(request, event, before, after),
    ensures
        persist_goes_well(around, session, store, job.step(event), after),
{
    let id = session.session_id;
    let own = around.root.push(id);
    let next = job.step(event);
    match job {
        PersistJob::Verify { check, file } => {
            lemma_check(around, id, check, event, session_of(job), before);
            assert(after == before);
        },
        PersistJob::Commit { dir, base, text } => {
            assert(crate::persist::is_renamed(
                before,
                after,
                crate::persist::temp_file(own),
                crate::persist::session_file(own),
            ));
            assert forall|x: Seq<char>| #[trigger]
                stored_text(around, after, x) == after_persist(around, session, x, store(x)) by {
                lemma_files_apart(around.root, x, id);
                assert(stored_text(around, before, x) == store(x));
            }
        },
        _ => {
            assert forall|x: Seq<char>| #[trigger] stored_text(around, after, x) == store(x) by {
                lemma_files_apart(around.root, x, id);
                assert(stored_text(around, before, x) == store(x));
            }
        },
    }
}

/// The writing of a session starts well.
proof fn lemma_persist_start(
    around: Surroundings,
    session: crate::types::SessionFileView,
    store: Stored,
    disk: crate::persist::Disk,
)
    requires
        stores(around, disk, store),
    ensures
        persist_goes_well(
            around,
            session,
            store,
            crate::persist::persist_job(around.sessions_dir, session),
            disk,
        ),
{
}

/// What a store is after the first sessions of a batch.
spec fn after_first(
    around: Surroundings,
    sessions: Seq<crate::types::SessionFileView>,
    n: int,
    store: Stored,
) -> Stored {
    |x: Seq<char>| after_batch(around, sessions.take(n), x, store(x))
}

/// Where a batch stands when all goes well.
spec fn batch_goes_well(
    around: Surroundings,
    store: Stored,
    batch: crate::processor::BatchView,
    disk: crate::persist::Disk,
) -> bool {
    &&& batch.wf()
    &&& batch.sessions_dir == around.sessions_dir
    &&& match batch.current {
        Some(job) => persist_goes_well(
            around,
            batch.sessions[batch.started - 1],
            after_first(around, batch.sessions, batch.started - 1, store),
            job,
            disk,
        ),
        None => stores(
            around,
            disk,
            after_first(around, batch.sessions, batch.started as int, store),
        ),
    }
}

/// Settling a batch that goes well leaves it so, and it ends only when every
/// session was started.
proof fn lemma_batch_settles(
    around: Surroundings,
    store: Stored,
    batch: crate::processor::BatchView,
    disk: crate::persist::Disk,
)
    requires
        batch_goes_well(around, store, batch, disk),
    ensures
        batch_goes_well(around, store, batch.settled(), disk),
        batch.settled().sessions == batch.sessions,
        match batch.settled().current {
            Some(job) => crate::processor::job_result(job) is None,
            None => batch.settled().started == batch.sessions.len(),
        },
    decreases
            batch.sessions.len() - batch.started,
            if batch.current is Some {
                1int
            } else {
                0int
            },
{
    let sessions = batch.sessions;
    match batch.current {
        Some(job) => match crate::processor::job_result(job) {
            Some(result) => {
                let next = crate::processor::BatchView {
                    current: None,
                    results: batch.results.push(result),
                    ..batch
                };
                let n = batch.started as int;
                let session = sessions[n - 1];
                assert(sessions.take(n).drop_last() =~= sessions.take(n - 1));
                assert(sessions.take(n).last() == session);
                assert forall|x: Seq<char>| #[trigger]
                    stored_text(around, disk, x) == after_first(around, sessions, n, store)(x) by {
                    let base = after_first(around, sessions, n - 1, store);
                    assert(after_batch(around, sessions.take(n), x, store(x)) == after_persist(
                        around,
                        session,
                        x,
                        base(x),
                    ));
                }
                lemma_batch_settles(around, store, next, disk);
            },
            None => {},
        },
        None => if batch.started < sessions.len() {
            let session = sessions[batch.started as int];
            let job = crate::persist::persist_job(batch.sessions_dir, session);
            let next = crate::processor::BatchView {
                current: Some(job),
                started: batch.started + 1,
                ..batch
            };
            lemma_persist_start(
                around,
                session,
                after_first(around, sessions, batch.started as int, store),
                disk,
            );
            lemma_batch_settles(around, store, next, disk);
        },
    }
}

/// Where a deletion stands when all goes well.
spec fn delete_goes_well(
    around: Surroundings,
    id: Seq<char>,
    store: Stored,
    job: crate::processor::DeleteJobView,
    disk: crate::persist::Disk,
) -> bool {
    let safe = crate::session_id::is_safe_id(id);
    match job {
        DeleteJob::Verify { check } => safe && check_goes_well(around, id, check) && !(check
            is Inside) && stores(around, disk, store),
        DeleteJob::Remove { dir, base } => safe && dir == around.root.push(id) && stores(
            around,
            disk,
            store,
        ),
        DeleteJob::Refused { .. } => false,
        DeleteJob::Deleted => safe && stores(
            around,
            disk,
            |x: Seq<char>| if x == id {
                None
            } else {
                store(x)
            },
        ),
        DeleteJob::Failed { error } => if safe {
            stores(
                around,
                disk,
                |x: Seq<char>| if x == id {
                    None
                } else {
                    store(x)
                },
            )
        } else {
            stores(around, disk, store)
        },
    }
}

/// A deletion that goes well goes on well.
proof fn lemma_delete_step(
    around: Surroundings,
    id: Seq<char>,
    store: Stored,
    job: crate::processor::DeleteJobView,
    event: crate::persistence::DiskEventView,
    before: crate::persist::Disk,
    after: crate::persist::Disk,
)
    requires
        delete_goes_well(around, id, store, job, before),
        job.request() matches Some(request) && is_success(around, request, event, None, before)
            && crate::persist::effect(request, event, before, after),
    ensures
        delete_goes_well(around, id, store, job.step(event), after),
{
    match job {
        DeleteJob::Verify { check } => {
            lemma_check(around, id, check, event, None, before);
            assert(after == before);
        },
        DeleteJob::Remove { dir, base } => {
            assert forall|x: Seq<char>| #[trigger]
                stored_text(around, after, x) == (if x == id {
                    None
                } else {
                    store(x)
                }) by {
                let file = crate::persist::session_file(around.root.push(x));
                assert(stored_text(around, before, x) == store(x));
                if x == id {
                    crate::path::law_children_lie_within(dir, dir, "session.json"@);
                    assert(crate::path::within(file, dir));
                    assert(crate::persist::content(after, file) is None);
                } else {
                    assert(file[around.root.len() as int] == x);
                    assert(dir[around.root.len() as int] == id);
                    if crate::path::within(file, dir) {
                        assert(file.subrange(0, dir.len() as int)[around.root.len() as int]
                            == file[around.root.len() as int]);
                    }
                    assert(crate::persist::content(after, file) == crate::persist::content(
                        before,
                        file,
                    ));
                }
            }
        },
        _ => {},
    }
}

/// What a command came to when it went well.
spec fn command_goes_well(
    around: Surroundings,
    store: Stored,
    command: PersistenceCommand,
    state: crate::processor::CommandView,
    disk: crate::persist::Disk,
) -> bool {
    match (command, state) {
        (
            PersistenceCommand::Persist { request },
            crate::processor::CommandView::Persist { job },
        ) => persist_goes_well(around, request@, store, job, disk),
        (
            PersistenceCommand::PersistBatch { sessions, completion },
            crate::processor::CommandView::Batch { run, completion: c },
        ) => run.sessions == crate::processor::session_views(sessions@) && batch_goes_well(
            around,
            store,
            run,
            disk,
        ) && (match run.current {
            Some(job) => crate::processor::job_result(job) is None,
            None => run.started == run.sessions.len(),
        }),
        (
            PersistenceCommand::Delete { session_id },
            crate::processor::CommandView::Delete { job },
        ) => delete_goes_well(around, session_id@, store, job, disk),
        _ => false,
    }
}

/// A command that goes well is at every time where it should be.
proof fn lemma_command(
    around: Surroundings,
    command: PersistenceCommand,
    store: Stored,
    disk: crate::persist::Disk,
    trace: crate::persist::Trace,
)
    requires
        stores(around, disk, store),
        goes_well(
            around,
            crate::processor::command_run(around.sessions_dir, command),
            disk,
            trace,
        ),
    ensures
        command_goes_well(
            around,
            store,
            command,
            command_after(
                crate::processor::command_run(around.sessions_dir, command),
                trace,
            ),
            crate::persist::disk_after(disk, trace),
        ),
    decreases trace.len(),
{
    let start = crate::processor::command_run(around.sessions_dir, command);
    if trace.len() == 0 {
        match command {
            PersistenceCommand::Persist { request } => {
                lemma_persist_start(around, request@, store, disk);
            },
            PersistenceCommand::PersistBatch { sessions, completion } => {
                let all = crate::processor::session_views(sessions@);
                let fresh = crate::processor::BatchView {
                    sessions_dir: around.sessions_dir,
                    sessions: all,
                    started: 0,
                    current: None,
                    results: Seq::empty(),
                };
                assert(all.take(0) =~= Seq::<crate::types::SessionFileView>::empty());
                assert forall|x: Seq<char>| #[trigger]
                    stored_text(around, disk, x) == after_first(around, all, 0, store)(x) by {
                    assert(stored_text(around, disk, x) == store(x));
                }
                lemma_batch_settles(around, store, fresh, disk);
            },
            PersistenceCommand::Delete { session_id } => {},
        }
    } else {
        let rest = trace.drop_last();
        lemma_command(around, command, store, disk, rest);
        let state = command_after(start, rest);
        let event = trace.last().0;
        let before = crate::persist::disk_after(disk, rest);
        let after = trace.last().1;
        match (command, state) {
            (
                PersistenceCommand::Persist { request },
                crate::processor::CommandView::Persist { job },
            ) => {
                lemma_persist_step(around, request@, store, job, event, before, after);
            },
            (
                PersistenceCommand::PersistBatch { sessions, completion },
                crate::processor::CommandView::Batch { run, completion: c },
            ) => {
                let job = run.current->0;
                lemma_persist_step(
                    around,
                    run.sessions[run.started - 1],
                    after_first(around, run.sessions, run.started - 1, store),
                    job,
                    event,
                    before,
                    after,
                );
                let next = crate::processor::BatchView { current: Some(job.step(event)), ..run };
                lemma_batch_settles(around, store, next, after);
            },
            (
                PersistenceCommand::Delete { session_id },
                crate::processor::CommandView::Delete { job },
            ) => {
                lemma_delete_step(around, session_id@, store, job, event, before, after);
            },
            _ => {},
        }
    }
}

/// What a command leaves in the store is what its kind says: a session that is
/// persisted, by itself or in a batch, is stored as its text; one that is
/// deleted is not stored any more; every other one is as it was. A command for
/// an id that is not accepted changes nothing.
pub proof fn law_commands_do_what_they_say(
    around: Surroundings,
    command: PersistenceCommand,
    disk: crate::persist::Disk,
    trace: crate::persist::Trace,
    id: Seq<char>,
)
    requires
        carried_out(
            around,
            crate::processor::command_run(around.sessions_dir, command),
            disk,
            trace,
        ),
    ensures
        stored_text(around, crate::persist::disk_after(disk, trace), id) == after_command(
            around,
            command,
            id,
            stored_text(around, disk, id),
        ),
{
    let store = |x: Seq<char>| stored_text(around, disk, x);
    let after = crate::persist::disk_after(disk, trace);
    lemma_command(around, command, store, disk, trace);
    match command {
        PersistenceCommand::PersistBatch { sessions, completion } => {
            let all = crate::processor::session_views(sessions@);
            assert(all.take(all.len() as int) =~= all);
        },
        _ => {},
    }
    assert(stored_text(around, after, id) == after_command(around, command, id, store(id)));
}

/// A command, and the trace by which it was carried out.
pub type Step = (PersistenceCommand, crate::persist::Trace);

/// The disk after a list of commands.
pub open spec fn disk_after_all(disk: crate::persist::Disk, steps: Seq<Step>)
    -> crate::persist::Disk
    decreases steps.len(),
{
    if steps.len() == 0 {
        disk
    } else {
        crate::persist::disk_after(disk_after_all(disk, steps.drop_last()), steps.last().1)
    }
}

/// Whether a list of commands was carried out, one after the other.
pub open spec fn all_carried_out(
    around: Surroundings,
    disk: crate::persist::Disk,
    steps: Seq<Step>,
) -> bool
    decreases steps.len(),
{
    steps.len() > 0 ==> {
        &&& all_carried_out(around, disk, steps.drop_last())
        &&& carried_out(
            around,
            crate::processor::command_run(around.sessions_dir, steps.last().0),
            disk_after_all(disk, steps.drop_last()),
            steps.last().1,
        )
    }
}

/// The commands of a list of steps.
pub open spec fn commands_of(steps: Seq<Step>) -> Seq<PersistenceCommand> {
    steps.map_values(|step: Step| step.0)
}

/// Commands are carried out in order: after a list of them, every session is
/// stored as its last command says, and a session that none of them names is as
/// it was.
pub proof fn law_the_last_command_decides(
    around: Surroundings,
    disk: crate::persist::Disk,
    steps: Seq<Step>,
    id: Seq<char>,
)
    requires
        all_carried_out(around, disk, steps),
    ensures
        stored_text(around, disk_after_all(disk, steps), id) == after_commands(
            around,
            commands_of(steps),
            id,
            stored_text(around, disk, id),
        ),
    decreases steps.len(),
{
    if steps.len() > 0 {
        let rest = steps.drop_last();
        law_the_last_command_decides(around, disk, rest, id);
        assert(commands_of(steps).drop_last() =~= commands_of(rest));
        assert(commands_of(steps).last() == steps.last().0);
        law_commands_do_what_they_say(
            around,
            steps.last().0,
            disk_after_all(disk, rest),
            steps.last().1,
            id,
        );
    }
}

/// Whether a list of commands persists a list of sessions, one by one.
pub open spec fn persists_each(
    commands: Seq<PersistenceCommand>,
    sessions: Seq<crate::types::SessionFileView>,
) -> bool {
    &&& commands.len() == sessions.len()
    &&& forall|i: int|
        0 <= i < commands.len() ==> (#[trigger] commands[i] matches PersistenceCommand::Persist {
            request,
        } && request@ == sessions[i])
}

/// A batch stores what its sessions, persisted one by one, would store.
pub proof fn law_a_batch_stores_its_sessions_one_by_one(
    around: Surroundings,
    commands: Seq<PersistenceCommand>,
    sessions: Seq<crate::types::SessionFileView>,
    id: Seq<char>,
    before: Option<Seq<char>>,
)
    requires
        persists_each(commands, sessions),
    ensures
        after_commands(around, commands, id, before) == after_batch(around, sessions, id, before),
    decreases commands.len(),
{
    if commands.len() > 0 {
        let rest = commands.drop_last();
        assert forall|i: int| 0 <= i < rest.len() implies (
        #[trigger] rest[i] matches PersistenceCommand::Persist { request } && request@
            == sessions.drop_last()[i]) by {
            assert(commands[i] == rest[i]);
        }
        law_a_batch_stores_its_sessions_one_by_one(
            around,
            rest,
            sessions.drop_last(),
            id,
            before,
        );
        assert(commands[commands.len() - 1] == commands.last());
    }
}

} // verus!
