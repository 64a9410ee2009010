use sequential_thinking::branches::BranchMap;
use sequential_thinking::disk_cleanup::{
    start_entry_check, EntryCheck, EntryEvent, EntryRequest, SessionStamp, StoreLayout,
    DISK_CLEANUP_INTERVAL,
};
use sequential_thinking::path::SessionPath;
use sequential_thinking::persistence::{DiskEvent, DiskRequest};
use sequential_thinking::restore::SessionRead;
use sequential_thinking::thought_files::{
    branch_file_name, files_of_session, persist_thought_files, thought_file_name, StoredFile,
    ThoughtFileError, WriteStage,
};
use sequential_thinking::thought_processor::{
    start_thought_command, ThoughtCommand, ThoughtCommandRun, ThoughtDelete,
};
use sequential_thinking::thought_restore::{
    try_restore_thought_files, SessionThoughtRestore, ThoughtEvent, ThoughtRequest, ThoughtRestore,
};
use sequential_thinking::types::{
    PersistRequest, PersistedSessionFile, PersistedThought, PersistenceCommand, PersistenceConfig,
    SessionHandle, SessionMetadataFile,
};
use sequential_thinking::{SessionStateSnapshot, ThoughtData};

fn path(parts: &[&str]) -> SessionPath {
    SessionPath { parts: parts.iter().map(|part| part.to_string()).collect() }
}

fn config() -> PersistenceConfig {
    PersistenceConfig { sessions_dir: path(&["store"]), cleanup_after: 1_000 }
}

fn thought(text: &str, number: u32) -> ThoughtData {
    ThoughtData {
        thought: text.to_string(),
        thought_number: number,
        total_thoughts: 5,
        next_thought_needed: true,
        is_revision: None,
        revises_thought: None,
        branch_from_thought: None,
        branch_id: None,
        needs_more_thoughts: None,
    }
}

fn session() -> PersistRequest {
    let mut branches = BranchMap::new();
    branches.add_thought("alt".to_string(), thought("two", 2));
    branches.add_thought("other".to_string(), thought("three", 3));
    branches.add_thought("alt".to_string(), thought("four", 4));
    PersistRequest {
        session_id: "abc".to_string(),
        snapshot: SessionStateSnapshot {
            thought_history: vec![
                thought("one", 1),
                thought("two", 2),
                thought("three", 3),
                thought("four", 4),
            ],
            branches,
        },
        created_at: 10,
        last_activity: 20,
    }
}

#[test]
fn files_are_named_after_their_thoughts() {
    assert_eq!(thought_file_name(1), "thought1.json");
    assert_eq!(thought_file_name(12), "thought12.json");
    assert_eq!(branch_file_name("alt", 3), "branch_alt_thought3.json");
}

#[test]
fn the_files_of_a_session() {
    let files = files_of_session(&session());
    let names: Vec<&str> = files.iter().map(|file| file.0.as_str()).collect();
    assert_eq!(
        names,
        vec![
            "session.json",
            "thought1.json",
            "thought2.json",
            "thought3.json",
            "thought4.json",
            "branch_alt_thought1.json",
            "branch_alt_thought2.json",
            "branch_other_thought1.json",
        ]
    );
    match &files[0].1 {
        StoredFile::Metadata(metadata) => {
            assert_eq!(metadata.session_id, "abc");
            assert_eq!(metadata.total_thoughts, 4);
            assert_eq!(metadata.branch_ids, vec!["alt", "other"]);
            assert_eq!((metadata.created_at, metadata.last_activity), (10, 20));
        }
        other => panic!("{:?}", other),
    }
    match &files[6].1 {
        StoredFile::Thought(persisted) => {
            assert_eq!(persisted.thought_number, 4);
            assert_eq!(persisted.thought_data, thought("four", 4));
        }
        other => panic!("{:?}", other),
    }
}

#[test]
fn thought_files_are_written_in_order() {
    let mut job = persist_thought_files(&config(), &session());
    let dir = path(&["store", "abc"]);
    assert_eq!(job.next_request(), Some(DiskRequest::CreateDir(dir.clone())));
    let mut written = Vec::new();
    while let Some(request) = job.next_request() {
        let event = match request {
            DiskRequest::Serialize => {
                assert!(job.file_to_serialize().is_some());
                DiskEvent::Serialized(Ok(format!("text {}", written.len())))
            }
            DiskRequest::WriteFile(file, text) => {
                assert_eq!(text, format!("text {}", written.len()));
                assert_eq!(file.parent(), Some(dir.clone()));
                written.push(file.file_name().unwrap());
                DiskEvent::Done(true)
            }
            _ => DiskEvent::Done(true),
        };
        job = job.advance(event);
    }
    assert_eq!(*job.stage(), WriteStage::Saved);
    assert_eq!(written.len(), 8);
    assert_eq!(written[0], "session.json");
    assert_eq!(written[7], "branch_other_thought1.json");
}

#[test]
fn every_failure_of_writing_thought_files() {
    let start = || persist_thought_files(&config(), &session());
    assert_eq!(
        *start().advance(DiskEvent::Done(false)).stage(),
        WriteStage::Failed { error: ThoughtFileError::CreateDir }
    );
    let second = || {
        start()
            .advance(DiskEvent::Done(true))
            .advance(DiskEvent::Serialized(Ok("m".to_string())))
            .advance(DiskEvent::Done(true))
    };
    assert_eq!(
        *second().advance(DiskEvent::Serialized(Err("key must be a string".to_string()))).stage(),
        WriteStage::Failed {
            error: ThoughtFileError::Serialize { text: "key must be a string".to_string() }
        }
    );
    let failed = second()
        .advance(DiskEvent::Serialized(Ok("t".to_string())))
        .advance(DiskEvent::Done(false));
    assert_eq!(
        *failed.stage(),
        WriteStage::Failed { error: ThoughtFileError::Write { label: "thought1.json".to_string() } }
    );
    assert!(failed.next_request().is_none());
}

/// What is said when the writing of the file at a place fails.
fn failure_at(place: usize) -> String {
    let mut job = persist_thought_files(&config(), &session()).advance(DiskEvent::Done(true));
    for _ in 0..place {
        job = job
            .advance(DiskEvent::Serialized(Ok("t".to_string())))
            .advance(DiskEvent::Done(true));
    }
    let job = job.advance(DiskEvent::Serialized(Ok("t".to_string()))).advance(DiskEvent::Done(false));
    match job.stage() {
        WriteStage::Failed { error } => error.message(),
        other => panic!("{:?}", other),
    }
}

#[test]
fn failures_of_thought_files_have_texts() {
    assert_eq!(ThoughtFileError::<String>::CreateDir.message(), "Failed to create session directory");
    assert_eq!(
        ThoughtFileError::Serialize { text: "key must be a string".to_string() }.message(),
        "key must be a string"
    );
    assert_eq!(failure_at(0), "Failed to write session.json");
    assert_eq!(failure_at(3), "Failed to write thought3.json");
    assert_eq!(failure_at(6), "Failed to write branch file for alt");
    assert_eq!(failure_at(7), "Failed to write branch file for other");
}

fn find(files: &[(String, StoredFile)], name: &str) -> Option<usize> {
    files.iter().rposition(|file| file.0 == name)
}

/// Reads on from a directory with these files, up to the start of the actor.
fn read_from(files: &[(String, StoredFile)]) -> SessionThoughtRestore {
    let mut restore = try_restore_thought_files(&config(), "abc");
    loop {
        let event = match restore.next_request() {
            Some(ThoughtRequest::Exists(dir)) => {
                assert_eq!(dir, path(&["store", "abc"]));
                ThoughtEvent::Exists(!files.is_empty())
            }
            Some(ThoughtRequest::ReadMetadata(file)) => {
                let found = find(files, &file.file_name().unwrap());
                ThoughtEvent::Metadata(found.and_then(|i| match &files[i].1 {
                    StoredFile::Metadata(m) => Some(SessionMetadataFile {
                        session_id: m.session_id.clone(),
                        created_at: m.created_at,
                        last_activity: m.last_activity,
                        total_thoughts: m.total_thoughts,
                        branch_ids: m.branch_ids.clone(),
                    }),
                    StoredFile::Thought(_) => None,
                }))
            }
            Some(ThoughtRequest::ReadThought(file)) => {
                let found = find(files, &file.file_name().unwrap());
                ThoughtEvent::Thought(found.and_then(|i| match &files[i].1 {
                    StoredFile::Thought(t) => Some(PersistedThought {
                        thought_number: t.thought_number,
                        thought_data: t.thought_data.clone(),
                    }),
                    StoredFile::Metadata(_) => None,
                }))
            }
            _ => return restore,
        };
        restore = restore.advance(event);
    }
}

#[test]
fn thought_files_give_back_the_session() {
    let request = session();
    let restore = read_from(&files_of_session(&request));
    let state = restore.restored_state().unwrap();
    assert_eq!(state.thought_history, request.snapshot.thought_history);
    assert_eq!(state.branches.ids(), vec!["alt", "other"]);
    assert_eq!(state.branches.get("alt"), request.snapshot.branches.get("alt"));
    assert_eq!(state.branches.get("other"), request.snapshot.branches.get("other"));
    let restore = restore.advance(ThoughtEvent::Spawned { actor: 3, now: 500, wall_now: 110 });
    assert_eq!(
        restore.restored_handle(),
        Some(SessionHandle { actor: 3, created_at: 400, last_activity: 500 })
    );
    match restore.backup_to_delete() {
        Some(ThoughtCommand::Delete { session_id }) => assert_eq!(session_id, "abc"),
        other => panic!("{:?}", other),
    }
}

#[test]
fn commands_to_the_store_of_thought_files() {
    let dir = path(&["store", "abc"]);
    let run = start_thought_command(
        &config(),
        ThoughtCommand::Delete { session_id: "abc".to_string() },
    );
    assert_eq!(run.next_request(), Some(DiskRequest::RemoveDir(dir.clone())));
    assert!(run.file_to_serialize().is_none());
    let run = run.advance(DiskEvent::Done(true));
    assert!(matches!(run, ThoughtCommandRun::Delete { job: ThoughtDelete::Deleted }));
    assert!(run.next_request().is_none());
    let failed = start_thought_command(
        &config(),
        ThoughtCommand::Delete { session_id: "abc".to_string() },
    )
    .advance(DiskEvent::Done(false));
    assert!(matches!(failed, ThoughtCommandRun::Delete { job: ThoughtDelete::Failed }));
    let mut run = start_thought_command(&config(), ThoughtCommand::Persist { request: session() });
    let mut written = 0;
    while let Some(request) = run.next_request() {
        let event = match request {
            DiskRequest::Serialize => {
                assert!(run.file_to_serialize().is_some());
                DiskEvent::Serialized(Ok("t".to_string()))
            }
            DiskRequest::WriteFile(file, _) => {
                assert_eq!(file.parent(), Some(dir.clone()));
                written += 1;
                DiskEvent::Done(true)
            }
            _ => DiskEvent::Done(true),
        };
        run = run.advance(event);
    }
    assert_eq!(written, 8);
}

#[test]
fn a_branch_without_thoughts_is_left_out() {
    let mut request = session();
    request.snapshot.branches.insert("alt".to_string(), vec![]);
    let files = files_of_session(&request);
    match &files[0].1 {
        StoredFile::Metadata(metadata) => assert_eq!(metadata.branch_ids, vec!["alt", "other"]),
        other => panic!("{:?}", other),
    }
    let state = read_from(&files).restored_state().unwrap();
    assert_eq!(state.thought_history, request.snapshot.thought_history);
    assert_eq!(state.branches.ids(), vec!["other"]);
}

#[test]
fn unreadable_thoughts_are_left_out() {
    let mut files = files_of_session(&session());
    files.retain(|file| file.0 != "thought2.json" && file.0 != "branch_alt_thought1.json");
    let state = read_from(&files).restored_state().unwrap();
    let texts: Vec<&str> = state.thought_history.iter().map(|t| t.thought.as_str()).collect();
    assert_eq!(texts, vec!["one", "three", "four"]);
    assert_eq!(state.branches.ids(), vec!["other"]);
}

#[test]
fn a_longer_branch_left_behind_is_read_as_well() {
    let mut files = files_of_session(&session());
    files.push((
        "branch_other_thought2.json".to_string(),
        StoredFile::Thought(PersistedThought {
            thought_number: 9,
            thought_data: thought("left over", 9),
        }),
    ));
    let state = read_from(&files).restored_state().unwrap();
    assert_eq!(state.branches.get("other").unwrap().len(), 2);
}

#[test]
fn thought_files_that_do_not_come_back() {
    assert!(matches!(read_from(&[]), ThoughtRestore::NotRestored));
    let mut files = files_of_session(&session());
    files.retain(|file| file.0 != "session.json");
    assert!(matches!(read_from(&files), ThoughtRestore::NotRestored));
    let restore = read_from(&files_of_session(&session()));
    let future = restore.advance(ThoughtEvent::Spawned { actor: 3, now: 500, wall_now: 9 });
    assert!(matches!(future, ThoughtRestore::NotRestored));
    assert!(future.backup_to_delete().is_none());
}

fn stamp(last_activity: i128) -> SessionRead<SessionStamp> {
    SessionRead::Parsed(SessionStamp { session_id: "inner".to_string(), last_activity })
}

fn checked(layout: StoreLayout, read: SessionRead<SessionStamp>, wall_now: i128) -> EntryCheck<String> {
    let check = start_entry_check(&config(), layout, &Some("outer".to_string()));
    assert_eq!(check.next_request(), Some(EntryRequest::Kind));
    let check = check.advance(EntryEvent::Kind(Some(true)));
    assert_eq!(check.next_request(), Some(EntryRequest::ReadFile("session.json".to_string())));
    check.advance(EntryEvent::Read { read, wall_now })
}

#[test]
fn old_sessions_are_deleted_from_disk() {
    let delete = EntryCheck::Delete { session_id: "inner".to_string() };
    for layout in [StoreLayout::SessionFiles, StoreLayout::ThoughtFiles] {
        assert_eq!(checked(layout, stamp(5_000), 6_001), delete);
        assert_eq!(checked(layout, stamp(5_000), 6_000), EntryCheck::Keep);
        assert_eq!(checked(layout, stamp(5_000), 100), EntryCheck::Keep);
        assert_eq!(checked(layout, SessionRead::Unreadable, 9_000), EntryCheck::Keep);
    }
    match delete.command() {
        Some(PersistenceCommand::Delete { session_id }) => assert_eq!(session_id, "inner"),
        other => panic!("{:?}", other),
    }
    assert!(EntryCheck::<String>::Keep.command().is_none());
    assert_eq!(DISK_CLEANUP_INTERVAL, 60 * 60 * 1_000_000_000);
}

#[test]
fn corrupt_sessions_are_deleted_from_a_store_of_session_files() {
    assert_eq!(
        checked(StoreLayout::SessionFiles, SessionRead::Corrupt, 0),
        EntryCheck::Delete { session_id: "outer".to_string() }
    );
    assert_eq!(checked(StoreLayout::ThoughtFiles, SessionRead::Corrupt, 0), EntryCheck::Keep);
    let nameless = start_entry_check(&config(), StoreLayout::SessionFiles, &None)
        .advance(EntryEvent::Kind(Some(true)))
        .advance(EntryEvent::Read { read: SessionRead::Corrupt, wall_now: 0 });
    assert_eq!(nameless, EntryCheck::Keep);
}

#[test]
fn only_directories_are_looked_into() {
    for kind in [Some(false), None] {
        let check = start_entry_check(&config(), StoreLayout::SessionFiles, &Some("x".to_string()));
        assert_eq!(check.advance(EntryEvent::Kind(kind)), EntryCheck::Keep);
    }
}

#[test]
fn stamps_of_files() {
    let file = PersistedSessionFile {
        session_id: "abc".to_string(),
        created_at: 1,
        last_activity: 7,
        thought_history: vec![],
        branches: BranchMap::new(),
    };
    assert_eq!(file.stamp().session_id, "abc");
    assert_eq!(file.stamp().last_activity, 7);
    let metadata = SessionMetadataFile {
        session_id: "def".to_string(),
        created_at: 1,
        last_activity: 8,
        total_thoughts: 0,
        branch_ids: vec![],
    };
    assert_eq!(metadata.stamp().session_id, "def");
    assert_eq!(metadata.stamp().last_activity, 8);
}
