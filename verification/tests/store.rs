use sequential_thinking::branches::BranchMap;
use sequential_thinking::path::SessionPath;
use sequential_thinking::persist::{persist_session_to_disk, PersistError, PersistJob, SessionPersistJob};
use sequential_thinking::persistence::{
    verify_path_within_base, DiskEvent, DiskRequest, PathCheck, PathFailure,
};
use sequential_thinking::processor::{
    delete_session_from_disk, start_command, start_persistence_processor, BatchRun, CommandRun,
    DeleteError, DeleteJob,
};
use sequential_thinking::restore::{
    try_restore_session, RestoreEvent, RestoreJob, RestoreRequest, SessionRead, SessionRestoreJob,
};
use sequential_thinking::session_id::SessionIdError;
use sequential_thinking::types::{
    PersistRequest, PersistedSessionFile, PersistenceCommand, PersistenceConfig, SessionHandle,
};
use sequential_thinking::{SessionStateSnapshot, ThoughtData};
use std::collections::HashMap;

type Request = DiskRequest<SessionPath, String>;
type Event = DiskEvent<SessionPath, String>;

fn path(parts: &[&str]) -> SessionPath {
    SessionPath { parts: parts.iter().map(|part| part.to_string()).collect() }
}

fn config() -> PersistenceConfig {
    PersistenceConfig { sessions_dir: path(&["store"]), cleanup_after: 1_000 }
}

fn thought(text: &str, number: u32) -> ThoughtData {
    ThoughtData {
        thought: text.to_string(),
        thought_number: number,
        total_thoughts: 5,
        next_thought_needed: true,
        is_revision: None,
        revises_thought: None,
        branch_from_thought: None,
        branch_id: None,
        needs_more_thoughts: None,
    }
}

fn session(id: &str) -> PersistRequest {
    let mut branches = BranchMap::new();
    branches.add_thought("b".to_string(), thought("two", 2));
    PersistRequest {
        session_id: id.to_string(),
        snapshot: SessionStateSnapshot {
            thought_history: vec![thought("one", 1), thought("two", 2)],
            branches,
        },
        created_at: 10,
        last_activity: 20,
    }
}

fn empty_file() -> PersistedSessionFile {
    PersistedSessionFile {
        session_id: "abc".to_string(),
        created_at: 1,
        last_activity: 2,
        thought_history: vec![],
        branches: BranchMap::new(),
    }
}

/// A path check that passes for a session directory that does not exist yet.
fn passing(request: &Request) -> Event {
    match request {
        DiskRequest::Exists(p) => DiskEvent::Exists(*p == path(&["store"])),
        DiskRequest::Resolve(p) => {
            let mut parts = vec!["/".to_string(), "data".to_string()];
            parts.extend(p.parts.clone());
            DiskEvent::Resolved(Some(SessionPath { parts }))
        }
        DiskRequest::Serialize => DiskEvent::Serialized(Ok("text".to_string())),
        _ => DiskEvent::Done(true),
    }
}

fn advance_to(mut job: SessionPersistJob, stop: fn(&Request) -> bool) -> SessionPersistJob {
    while let Some(request) = job.next_request() {
        if stop(&request) {
            return job;
        }
        job = job.advance(passing(&request));
    }
    job
}

#[test]
fn new_paths_below_the_base_pass() {
    let mut check = verify_path_within_base(path(&["store", "abc"]), path(&["store"]));
    assert_eq!(check.next_request(), Some(DiskRequest::Exists(path(&["store"]))));
    let mut steps = 0;
    while let Some(request) = check.next_request() {
        check = check.advance(passing(&request));
        steps += 1;
    }
    assert_eq!(steps, 5);
    match check {
        PathCheck::Inside { path: found, base } => {
            assert_eq!(found, path(&["/", "data", "store", "abc"]));
            assert_eq!(base, path(&["/", "data", "store"]));
        }
        other => panic!("{:?}", other),
    }
}

#[test]
fn existing_paths_are_resolved() {
    let check = verify_path_within_base(path(&["store", "abc"]), path(&["store"]))
        .advance(DiskEvent::Exists(true))
        .advance(DiskEvent::Resolved(Some(path(&["/", "s"]))))
        .advance(DiskEvent::Exists(true));
    assert_eq!(check.next_request(), Some(DiskRequest::Resolve(path(&["store", "abc"]))));
    assert!(matches!(
        check.advance(DiskEvent::Resolved(Some(path(&["/", "s", "abc"])))),
        PathCheck::Inside { .. }
    ));
}

#[test]
fn every_refusal_of_a_path() {
    let start = || verify_path_within_base(path(&["store", "abc"]), path(&["store"]));
    let failure = |check: PathCheck<SessionPath>| match check {
        PathCheck::Refused { failure, .. } => failure,
        other => panic!("{:?}", other),
    };
    let resolved = |p: &[&str]| DiskEvent::Resolved(Some(path(p)));
    assert_eq!(
        failure(start().advance(DiskEvent::Exists(false)).advance(DiskEvent::Done(false))),
        PathFailure::CreateBase
    );
    assert_eq!(
        failure(
            start()
                .advance(DiskEvent::Exists(false))
                .advance(DiskEvent::Done(true))
                .advance(DiskEvent::Resolved(None))
        ),
        PathFailure::ResolveBase
    );
    let probing = || start().advance(DiskEvent::Exists(true)).advance(resolved(&["/", "s"]));
    assert_eq!(
        failure(probing().advance(DiskEvent::Exists(true)).advance(DiskEvent::Resolved(None))),
        PathFailure::ResolvePath
    );
    assert_eq!(
        failure(probing().advance(DiskEvent::Exists(true)).advance(resolved(&["/", "other"]))),
        PathFailure::Escapes
    );
    let parent = || probing().advance(DiskEvent::Exists(false));
    assert_eq!(
        failure(parent().advance(DiskEvent::Exists(true)).advance(DiskEvent::Resolved(None))),
        PathFailure::ResolveParent
    );
    assert_eq!(
        failure(parent().advance(DiskEvent::Exists(true)).advance(resolved(&["/", "elsewhere"]))),
        PathFailure::Escapes
    );
    assert_eq!(failure(parent().advance(DiskEvent::Exists(false))), PathFailure::ParentEscapes);
    let nameless = verify_path_within_base(path(&["store", ".."]), path(&["store"]))
        .advance(DiskEvent::Exists(true))
        .advance(resolved(&["/", "s"]))
        .advance(DiskEvent::Exists(false))
        .advance(DiskEvent::Exists(true))
        .advance(resolved(&["/", "s"]));
    assert_eq!(failure(nameless), PathFailure::NoFileName);
    let rootless = verify_path_within_base(path(&["/"]), path(&["store"]))
        .advance(DiskEvent::Exists(true))
        .advance(resolved(&["/", "s"]))
        .advance(DiskEvent::Exists(false));
    assert_eq!(failure(rootless), PathFailure::NoParent);
}

#[test]
fn refusals_of_paths_have_texts() {
    let text = |check: PathCheck<SessionPath>| match check {
        PathCheck::Refused { failure, path, base } => failure.message(&path, &base),
        other => panic!("{:?}", other),
    };
    let probing = || {
        verify_path_within_base(path(&["store", "abc"]), path(&["store"]))
            .advance(DiskEvent::Exists(true))
            .advance(DiskEvent::Resolved(Some(path(&["/", "s"]))))
    };
    assert_eq!(
        text(
            probing()
                .advance(DiskEvent::Exists(true))
                .advance(DiskEvent::Resolved(Some(path(&["/", "etc", "abc"]))))
        ),
        "Directory traversal detected: '/etc/abc' escapes base '/s'"
    );
    assert_eq!(
        text(probing().advance(DiskEvent::Exists(false)).advance(DiskEvent::Exists(false))),
        "Directory traversal detected: parent 'store' escapes base '/s'"
    );
    let nowhere = SessionPath::new();
    assert_eq!(PathFailure::NoParent.message(&nowhere, &nowhere), "Path has no parent directory");
    assert_eq!(PathFailure::NoFileName.message(&nowhere, &nowhere), "Path has no filename");
    assert_eq!(
        PathFailure::CreateBase.message(&nowhere, &nowhere),
        "Failed to create sessions base directory"
    );
    assert_eq!(
        PathFailure::ResolveBase.message(&nowhere, &nowhere),
        "Failed to canonicalize base directory"
    );
    assert_eq!(PathFailure::ResolvePath.message(&nowhere, &nowhere), "Failed to canonicalize path");
    assert_eq!(
        PathFailure::ResolveParent.message(&nowhere, &nowhere),
        "Failed to canonicalize parent"
    );
}

#[test]
fn a_missing_parent_within_the_base_stands_for_the_base() {
    let check = verify_path_within_base(path(&["/", "s", "x", "abc"]), path(&["/", "s"]))
        .advance(DiskEvent::Exists(true))
        .advance(DiskEvent::Resolved(Some(path(&["/", "s"]))))
        .advance(DiskEvent::Exists(false))
        .advance(DiskEvent::Exists(false));
    match check {
        PathCheck::Inside { path: found, base: _ } => assert_eq!(found, path(&["/", "s", "abc"])),
        other => panic!("{:?}", other),
    }
}

#[test]
fn an_outcome_that_answers_nothing_changes_nothing() {
    let check = verify_path_within_base(path(&["store", "abc"]), path(&["store"]));
    let check = check.advance(DiskEvent::Serialized(Err("not text".to_string())));
    assert_eq!(check.next_request(), Some(DiskRequest::Exists(path(&["store"]))));
}

#[test]
fn a_session_is_written_in_one_step() {
    let mut job = persist_session_to_disk(&config(), &session("abc"));
    let mut writes: Vec<Request> = Vec::new();
    while let Some(request) = job.next_request() {
        if let DiskRequest::Serialize = request {
            let file = job.session_to_serialize().unwrap();
            assert_eq!(file.session_id, "abc");
            assert_eq!(file.thought_history.len(), 2);
            assert_eq!(file.branches.get("b").unwrap().len(), 1);
        } else {
            assert!(job.session_to_serialize().is_none());
        }
        let event = passing(&request);
        if !matches!(request, DiskRequest::Exists(_) | DiskRequest::Resolve(_)) {
            writes.push(request);
        }
        job = job.advance(event);
    }
    assert!(matches!(job, PersistJob::Saved { .. }));
    let dir = path(&["/", "data", "store", "abc"]);
    let temp = dir.join("session.json.tmp");
    assert_eq!(
        writes,
        vec![
            DiskRequest::CreateDir(dir.clone()),
            DiskRequest::Serialize,
            DiskRequest::CreateFile(temp.clone()),
            DiskRequest::WriteFile(temp.clone(), "text".to_string()),
            DiskRequest::SyncFile(temp.clone()),
            DiskRequest::Rename(temp, dir.join("session.json")),
        ]
    );
}

/// The files of a disk.
type Files = HashMap<Vec<String>, String>;

/// Carries a request out on the files of a disk.
fn on_disk(files: &mut Files, request: &Request) -> Event {
    match request {
        DiskRequest::CreateFile(p) => {
            files.insert(p.parts.clone(), String::new());
        }
        DiskRequest::WriteFile(p, text) => {
            files.insert(p.parts.clone(), text.clone());
        }
        DiskRequest::Rename(from, to) => {
            let text = files.remove(&from.parts).unwrap();
            files.insert(to.parts.clone(), text);
        }
        DiskRequest::RemoveDir(dir) => {
            files.retain(|path, _| !path.starts_with(&dir.parts));
        }
        _ => {}
    }
    passing(request)
}

#[test]
fn a_crash_leaves_the_old_or_the_new_session() {
    let file = path(&["/", "data", "store", "abc", "session.json"]).parts;
    let mut crash = 0;
    loop {
        let mut files: Files = HashMap::new();
        files.insert(file.clone(), "old".to_string());
        let mut job = persist_session_to_disk(&config(), &session("abc"));
        let mut steps = 0;
        while let Some(request) = job.next_request() {
            if steps == crash {
                break;
            }
            job = job.advance(on_disk(&mut files, &request));
            steps += 1;
        }
        let saved = matches!(job, PersistJob::Saved { .. });
        assert_eq!(files[&file], if saved { "text" } else { "old" });
        if saved {
            assert_eq!(files.len(), 1);
            assert_eq!(crash, 11);
            return;
        }
        crash += 1;
    }
}

#[test]
fn a_write_that_fails_leaves_the_old_session() {
    let file = path(&["/", "data", "store", "abc", "session.json"]).parts;
    for failing in 5..11 {
        let mut files: Files = HashMap::new();
        files.insert(file.clone(), "old".to_string());
        let mut job = persist_session_to_disk(&config(), &session("abc"));
        let mut steps = 0;
        while let Some(request) = job.next_request() {
            let event = if steps < failing {
                on_disk(&mut files, &request)
            } else if let DiskRequest::Serialize = request {
                DiskEvent::Serialized(Err("not text".to_string()))
            } else {
                DiskEvent::Done(false)
            };
            job = job.advance(event);
            steps += 1;
        }
        assert!(matches!(job, PersistJob::Failed { .. }));
        assert_eq!(files[&file], "old");
    }
}

/// Carries commands out, one after the other; a session is written as its
/// number of thoughts.
fn carry_out_all(files: &mut Files, commands: Vec<PersistenceCommand>) {
    for command in commands {
        let mut run = start_command(&config(), command);
        while let Some(request) = run.next_request() {
            let event = match (&request, run.session_to_serialize()) {
                (DiskRequest::Serialize, Some(session)) => {
                    DiskEvent::Serialized(Ok(session.thought_history.len().to_string()))
                }
                _ => on_disk(files, &request),
            };
            run = run.advance(event);
        }
    }
}

fn longer(id: &str, thoughts: u32) -> PersistRequest {
    let mut request = session(id);
    request.snapshot.thought_history = (1..=thoughts).map(|n| thought("t", n)).collect();
    request
}

#[test]
fn the_last_command_decides_what_is_stored() {
    let stored = |files: &Files, id: &str| {
        files.get(&path(&["/", "data", "store", id, "session.json"]).parts).cloned()
    };
    let delete = |id: &str| PersistenceCommand::Delete { session_id: id.to_string() };
    let persist = |id: &str, n: u32| PersistenceCommand::Persist { request: longer(id, n) };
    let batch = |sessions: Vec<PersistRequest>| {
        PersistenceCommand::PersistBatch { sessions, completion: None }
    };
    let mut files: Files = HashMap::new();
    files.insert(path(&["/", "data", "store", "other", "session.json"]).parts, "9".to_string());
    carry_out_all(
        &mut files,
        vec![
            persist("a", 1),
            delete("absent"),
            batch(vec![longer("b", 2), longer("a", 3), longer("b", 4), longer("no/t", 5)]),
            persist("c", 6),
            delete("c"),
            delete("a"),
            persist("a", 7),
        ],
    );
    assert_eq!(stored(&files, "a"), Some("7".to_string()));
    assert_eq!(stored(&files, "b"), Some("4".to_string()));
    assert_eq!(stored(&files, "c"), None);
    assert_eq!(stored(&files, "absent"), None);
    assert_eq!(stored(&files, "other"), Some("9".to_string()));
    assert_eq!(files.len(), 3);
    let mut together: Files = HashMap::new();
    carry_out_all(&mut together, vec![batch(vec![longer("a", 1), longer("b", 2), longer("a", 3)])]);
    let mut apart: Files = HashMap::new();
    carry_out_all(&mut apart, vec![persist("a", 1), persist("b", 2), persist("a", 3)]);
    assert_eq!(together, apart);
}

#[test]
fn deleting_leaves_the_other_sessions() {
    let mut files: Files = HashMap::new();
    for id in ["abc", "abcd"] {
        let mut job = persist_session_to_disk(&config(), &session(id));
        while let Some(request) = job.next_request() {
            job = job.advance(on_disk(&mut files, &request));
        }
    }
    assert_eq!(files.len(), 2);
    let mut job = delete_session_from_disk(&config(), "abc");
    while let Some(request) = job.next_request() {
        job = job.advance(on_disk(&mut files, &request));
    }
    assert_eq!(files.len(), 1);
    assert!(files.contains_key(&path(&["/", "data", "store", "abcd", "session.json"]).parts));
}

#[test]
fn a_path_check_takes_six_steps_at_most() {
    let check = verify_path_within_base(path(&["store", "abc"]), path(&["store"]))
        .advance(DiskEvent::Exists(false))
        .advance(DiskEvent::Done(true))
        .advance(DiskEvent::Resolved(Some(path(&["/", "s"]))))
        .advance(DiskEvent::Exists(false))
        .advance(DiskEvent::Exists(true));
    assert!(check.next_request().is_some());
    let check = check.advance(DiskEvent::Resolved(Some(path(&["/", "s"]))));
    assert!(check.next_request().is_none());
    assert!(matches!(check, PathCheck::Inside { .. }));
}

#[test]
fn every_failure_of_writing() {
    let start = || persist_session_to_disk(&config(), &session("abc"));
    let error = |job: SessionPersistJob| match job {
        PersistJob::Failed { error } => error,
        other => panic!("{:?}", other),
    };
    assert_eq!(
        error(persist_session_to_disk(&config(), &session("a/b"))),
        PersistError::SessionId(SessionIdError::InvalidCharacters)
    );
    assert_eq!(
        error(start().advance(DiskEvent::Exists(false)).advance(DiskEvent::Done(false))),
        PersistError::Path(PathFailure::CreateBase)
    );
    let at = |stop: fn(&Request) -> bool| advance_to(start(), stop);
    assert_eq!(
        error(at(|r| matches!(r, DiskRequest::CreateDir(_))).advance(DiskEvent::Done(false))),
        PersistError::CreateDir
    );
    assert_eq!(
        error(at(|r| matches!(r, DiskRequest::Serialize)).advance(DiskEvent::Serialized(Err("not text".to_string())))),
        PersistError::Serialize
    );
    assert_eq!(
        error(at(|r| matches!(r, DiskRequest::CreateFile(_))).advance(DiskEvent::Done(false))),
        PersistError::CreateTemp
    );
    assert_eq!(
        error(at(|r| matches!(r, DiskRequest::WriteFile(_, _))).advance(DiskEvent::Done(false))),
        PersistError::WriteTemp
    );
    assert_eq!(
        error(at(|r| matches!(r, DiskRequest::SyncFile(_))).advance(DiskEvent::Done(false))),
        PersistError::SyncTemp
    );
    assert_eq!(
        error(at(|r| matches!(r, DiskRequest::Rename(_, _))).advance(DiskEvent::Done(false))),
        PersistError::Commit
    );
    assert_eq!(PersistError::Commit.message(), "Failed to atomically commit session file");
}

fn restored_to_file(id: &str) -> SessionRestoreJob {
    let mut job = try_restore_session(&config(), id);
    loop {
        match job.next_request() {
            Some(RestoreRequest::Disk(DiskRequest::Exists(p))) if p.file_name()
                == Some("session.json".to_string()) =>
            {
                job = job.advance(RestoreEvent::Disk(DiskEvent::Exists(true)));
            }
            Some(RestoreRequest::Disk(request)) => {
                job = job.advance(RestoreEvent::Disk(passing(&request)));
            }
            _ => return job,
        }
    }
}

fn file_of(request: &PersistRequest) -> PersistedSessionFile {
    PersistedSessionFile::from_snapshot(
        request.session_id.clone(),
        &request.snapshot,
        request.created_at,
        request.last_activity,
    )
}

#[test]
fn a_session_comes_back_as_it_was() {
    let request = session("abc");
    let job = restored_to_file("abc");
    let dir = path(&["/", "data", "store", "abc"]);
    assert_eq!(job.next_request(), Some(RestoreRequest::ReadSession(dir.join("session.json"))));
    let job = job.advance(RestoreEvent::Read(SessionRead::Parsed(file_of(&request))));
    assert_eq!(job.next_request(), Some(RestoreRequest::Spawn));
    let state = job.restored_state().unwrap();
    assert_eq!(state.thought_history, request.snapshot.thought_history);
    assert_eq!(state.branches.get("b"), request.snapshot.branches.get("b"));
    assert!(job.backup_to_delete().is_none());
    let job = job.advance(RestoreEvent::Spawned { actor: 4, now: 100, wall_now: 50 });
    assert_eq!(job.next_request(), Some(RestoreRequest::Confirm(4)));
    assert!(job.backup_to_delete().is_none());
    let job = job.advance(RestoreEvent::Confirmed(true));
    assert_eq!(
        job.restored_handle(),
        Some(SessionHandle { actor: 4, created_at: 60, last_activity: 100 })
    );
    match job.backup_to_delete() {
        Some(PersistenceCommand::Delete { session_id }) => assert_eq!(session_id, "abc"),
        other => panic!("{:?}", other),
    }
}

#[test]
fn sessions_that_do_not_come_back() {
    let over = |job: &SessionRestoreJob| matches!(job, RestoreJob::NotRestored);
    assert!(over(&try_restore_session(&config(), "../x")));
    let missing = try_restore_session(&config(), "abc");
    let mut job = missing;
    while let Some(RestoreRequest::Disk(request)) = job.next_request() {
        job = job.advance(RestoreEvent::Disk(passing(&request)));
    }
    assert!(over(&job));
    assert!(over(&restored_to_file("abc").advance(RestoreEvent::Read(SessionRead::Unreadable))));
    assert!(over(
        &restored_to_file("abc").advance(RestoreEvent::Read(SessionRead::Parsed(empty_file())))
    ));
    let read = || {
        restored_to_file("abc")
            .advance(RestoreEvent::Read(SessionRead::Parsed(file_of(&session("abc")))))
    };
    assert!(over(&read().advance(RestoreEvent::Spawned { actor: 1, now: 100, wall_now: 9 })));
    let unresponsive = read()
        .advance(RestoreEvent::Spawned { actor: 1, now: 100, wall_now: 50 })
        .advance(RestoreEvent::Confirmed(false));
    assert!(over(&unresponsive));
    assert!(unresponsive.backup_to_delete().is_none());
    assert!(unresponsive.restored_handle().is_none());
}

#[test]
fn corrupt_session_files_are_removed() {
    let job = restored_to_file("abc").advance(RestoreEvent::Read(SessionRead::Corrupt));
    assert_eq!(
        job.next_request(),
        Some(RestoreRequest::Disk(DiskRequest::RemoveDir(path(&["/", "data", "store", "abc"]))))
    );
    let job = job.advance(RestoreEvent::Disk(DiskEvent::Done(true)));
    assert!(matches!(job, RestoreJob::NotRestored));
}

#[test]
fn deleting_a_session() {
    let mut job = delete_session_from_disk(&config(), "abc");
    while let Some(request) = job.next_request() {
        if let DiskRequest::RemoveDir(dir) = &request {
            assert_eq!(*dir, path(&["/", "data", "store", "abc"]));
        }
        job = job.advance(passing(&request));
    }
    assert!(matches!(job, DeleteJob::Deleted));
    assert!(matches!(
        delete_session_from_disk(&config(), ".."),
        DeleteJob::Failed { error: DeleteError::SessionId(SessionIdError::InvalidCharacters) }
    ));
    let mut job = delete_session_from_disk(&config(), "abc");
    while let Some(request) = job.next_request() {
        let event = match request {
            DiskRequest::RemoveDir(_) => DiskEvent::Done(false),
            other => passing(&other),
        };
        job = job.advance(event);
    }
    assert!(matches!(job, DeleteJob::Failed { error: DeleteError::Remove }));
    let refused = delete_session_from_disk(&config(), "abc")
        .advance(DiskEvent::Exists(true))
        .advance(DiskEvent::Resolved(None));
    assert!(matches!(
        refused,
        DeleteJob::Refused { failure: PathFailure::ResolveBase, .. }
    ));
}

#[test]
fn a_batch_goes_on_after_a_failure() {
    let sessions = vec![session("a"), session("b/ad"), session("c"), session("d")];
    let mut run = BatchRun::new(&config(), sessions);
    while let Some(request) = run.next_request() {
        let fails = match &request {
            DiskRequest::CreateDir(dir) => dir.file_name() == Some("c".to_string()),
            _ => false,
        };
        let event = if fails { DiskEvent::Done(false) } else { passing(&request) };
        run = run.advance(event);
    }
    assert_eq!(
        *run.results(),
        vec![
            None,
            Some(PersistError::SessionId(SessionIdError::InvalidCharacters)),
            Some(PersistError::CreateDir),
            None,
        ]
    );
    assert_eq!(run.success_count(), 2);
}

#[test]
fn a_batch_of_refused_sessions_needs_no_disk() {
    let run = BatchRun::new(&config(), vec![session(""), session("..")]);
    assert!(run.next_request().is_none());
    assert_eq!(run.success_count(), 0);
    assert_eq!(run.results().len(), 2);
    let empty = BatchRun::new(&config(), vec![]);
    assert!(empty.next_request().is_none());
}

fn carry_out(command: PersistenceCommand) -> (CommandRun, Vec<Request>) {
    let mut run = start_command(&config(), command);
    let mut requests = Vec::new();
    while let Some(request) = run.next_request() {
        if let DiskRequest::Serialize = request {
            assert!(run.session_to_serialize().is_some());
        }
        let event = passing(&request);
        requests.push(request);
        run = run.advance(event);
    }
    (run, requests)
}

#[test]
fn commands_are_carried_out() {
    let (run, requests) = carry_out(PersistenceCommand::Persist { request: session("abc") });
    assert!(run.report().is_none());
    assert!(requests.iter().any(|r| matches!(r, DiskRequest::Rename(_, _))));
    let (run, requests) = carry_out(PersistenceCommand::Delete { session_id: "abc".to_string() });
    assert!(run.report().is_none());
    assert!(requests.iter().any(|r| matches!(r, DiskRequest::RemoveDir(_))));
    let (run, requests) = carry_out(PersistenceCommand::PersistBatch {
        sessions: vec![session("a"), session("b"), session("c")],
        completion: Some(7),
    });
    assert_eq!(run.report(), Some((7, 3)));
    assert_eq!(requests.iter().filter(|r| matches!(r, DiskRequest::Rename(_, _))).count(), 3);
    let (run, _) = carry_out(PersistenceCommand::PersistBatch {
        sessions: vec![session("a")],
        completion: None,
    });
    assert_eq!(run.report(), None);
}

#[test]
fn a_batch_reports_only_when_it_is_over() {
    let command = PersistenceCommand::PersistBatch {
        sessions: vec![session("a")],
        completion: Some(1),
    };
    let run = start_command(&config(), command);
    assert_eq!(run.report(), None);
}

#[test]
fn the_processor_starts_with_its_directory() {
    assert_eq!(start_persistence_processor(&config()), DiskRequest::CreateDir(path(&["store"])));
}
