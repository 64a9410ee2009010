//! Restoring sessions from the store that keeps one file per thought.
//!
//! The metadata says how many thoughts the history has and which branches
//! there are. A thought of the history that cannot be read is left out; a
//! branch ends at its first thought that cannot be read.

use crate::branches::BranchMap;
use crate::clock::to_instant;
use crate::path::SessionPath;
use crate::thought_files::{branch_file_name, thought_file_name};
use crate::thought_processor::ThoughtCommand;
use crate::types::{
    clone_thoughts, PersistedThought, PersistenceConfig, SessionHandle,
    SessionMetadataFile, ThinkingState, ThoughtData,
};
use vstd::prelude::*;

verus! {

/// A request of a restoration from thought files. `P` is a path.
#[derive(Debug, PartialEq, Eq)]
pub enum ThoughtRequest<P> {
    /// Does this directory exist?
    Exists(P),
    /// Read the metadata in this file.
    ReadMetadata(P),
    /// Read the thought in this file.
    ReadThought(P),
    /// Start an actor on the restored state.
    Spawn,
}

/// The outcome of a request of a restoration from thought files. `M` is the
/// metadata of a session.
#[derive(Debug)]
pub enum ThoughtEvent<M> {
    /// Whether the directory exists.
    Exists(bool),
    /// The metadata, if it could be read and understood.
    Metadata(Option<M>),
    /// The thought, if it could be read and understood.
    Thought(Option<PersistedThought>),
    /// The actor runs under this number; the clocks show these times.
    Spawned { actor: u64, now: u128, wall_now: i128 },
}

/// A session on its way back from its thought files. `P` is a path, `T` a
/// text, `M` the metadata, `H` a list of thoughts, `B` the branches, `N` a
/// count.
#[derive(Debug)]
pub enum ThoughtRestore<P, T, M, H, B, N> {
    /// Does the session directory exist?
    ProbeDir { dir: P, session_id: T },
    /// Read the metadata.
    ReadMetadata { dir: P, session_id: T },
    /// Read the thoughts of the history; `tried` of them were tried.
    ReadHistory { dir: P, session_id: T, metadata: M, history: H, tried: N },
    /// Read the thoughts of a branch; `done` branches are complete.
    ReadBranch { dir: P, session_id: T, metadata: M, history: H, branches: B, done: N, thoughts: H },
    /// Start an actor on the session.
    Spawn { session_id: T, created_at: i128, history: H, branches: B },
    /// The session runs again, and its files may go.
    Restored { handle: SessionHandle, session_id: T },
    /// The session is not restored.
    NotRestored,
}

/// A restoration on concrete values.
pub type SessionThoughtRestore = ThoughtRestore<
    SessionPath,
    String,
    SessionMetadataFile,
    Vec<ThoughtData>,
    BranchMap,
    usize,
>;

/// A restoration, by views.
pub type ThoughtRestoreView = ThoughtRestore<
    crate::path::PathView,
    Seq<char>,
    crate::thought_files::MetadataView,
    Seq<ThoughtData>,
    crate::branches::BranchView,
    nat,
>;

/// An outcome, by views.
pub type ThoughtEventView = ThoughtEvent<crate::thought_files::MetadataView>;

/// The view of an optional request.
pub open spec fn thought_request_view(request: Option<ThoughtRequest<SessionPath>>) -> Option<
    ThoughtRequest<crate::path::PathView>,
> {
    match request {
        Some(ThoughtRequest::Exists(path)) => Some(ThoughtRequest::Exists(path@)),
        Some(ThoughtRequest::ReadMetadata(path)) => Some(ThoughtRequest::ReadMetadata(path@)),
        Some(ThoughtRequest::ReadThought(path)) => Some(ThoughtRequest::ReadThought(path@)),
        Some(ThoughtRequest::Spawn) => Some(ThoughtRequest::Spawn),
        None => None,
    }
}

impl View for ThoughtEvent<SessionMetadataFile> {
    type V = ThoughtEventView;

    open spec fn view(&self) -> ThoughtEventView {
        match *self {
            ThoughtEvent::Exists(exists) => ThoughtEvent::Exists(exists),
            ThoughtEvent::Metadata(Some(metadata)) => ThoughtEvent::Metadata(Some(metadata@)),
            ThoughtEvent::Metadata(None) => ThoughtEvent::Metadata(None),
            ThoughtEvent::Thought(thought) => ThoughtEvent::Thought(thought),
            ThoughtEvent::Spawned { actor, now, wall_now } => ThoughtEvent::Spawned {
                actor,
                now,
                wall_now,
            },
        }
    }
}

impl View for ThoughtRestore<
    SessionPath,
    String,
    SessionMetadataFile,
    Vec<ThoughtData>,
    BranchMap,
    usize,
> {
    type V = ThoughtRestoreView;

    open spec fn view(&self) -> ThoughtRestoreView {
        match *self {
            ThoughtRestore::ProbeDir { dir, session_id } => ThoughtRestore::ProbeDir {
                dir: dir@,
                session_id: session_id@,
            },
            ThoughtRestore::ReadMetadata { dir, session_id } => ThoughtRestore::ReadMetadata {
                dir: dir@,
                session_id: session_id@,
            },
            ThoughtRestore::ReadHistory { dir, session_id, metadata, history, tried } =>
                ThoughtRestore::ReadHistory {
                dir: dir@,
                session_id: session_id@,
                metadata: metadata@,
                history: history@,
                tried: tried as nat,
            },
            ThoughtRestore::ReadBranch {
                dir,
                session_id,
                metadata,
                history,
                branches,
                done,
                thoughts,
            } => ThoughtRestore::ReadBranch {
                dir: dir@,
                session_id: session_id@,
                metadata: metadata@,
                history: history@,
                branches: branches@,
                done: done as nat,
                thoughts: thoughts@,
            },
            ThoughtRestore::Spawn { session_id, created_at, history, branches } =>
                ThoughtRestore::Spawn {
                session_id: session_id@,
                created_at,
                history: history@,
                branches: branches@,
            },
            ThoughtRestore::Restored { handle, session_id } => ThoughtRestore::Restored {
                handle,
                session_id: session_id@,
            },
            ThoughtRestore::NotRestored => ThoughtRestore::NotRestored,
        }
    }
}

/// The next branch is read, or, when there is none, the actor started.
pub open spec fn next_branch(
    dir: crate::path::PathView,
    session_id: Seq<char>,
    metadata: crate::thought_files::MetadataView,
    history: Seq<ThoughtData>,
    branches: crate::branches::BranchView,
    done: nat,
) -> ThoughtRestoreView {
    if done < metadata.branch_ids.len() {
        ThoughtRestore::ReadBranch {
            dir,
            session_id,
            metadata,
            history,
            branches,
            done,
            thoughts: Seq::empty(),
        }
    } else {
        ThoughtRestore::Spawn { session_id, created_at: metadata.created_at, history, branches }
    }
}

/// The next thought of the history is read, or, when there is none, the first
/// branch.
pub open spec fn next_thought(
    dir: crate::path::PathView,
    session_id: Seq<char>,
    metadata: crate::thought_files::MetadataView,
    history: Seq<ThoughtData>,
    tried: nat,
) -> ThoughtRestoreView {
    if tried < metadata.total_thoughts {
        ThoughtRestore::ReadHistory { dir, session_id, metadata, history, tried }
    } else {
        next_branch(
            dir,
            session_id,
            metadata,
            history,
            crate::branches::BranchView::empty(),
            0,
        )
    }
}

/// The branches with a further one, unless it has no thoughts.
pub open spec fn with_complete_branch(
    branches: crate::branches::BranchView,
    id: Seq<char>,
    thoughts: Seq<ThoughtData>,
) -> crate::branches::BranchView {
    if thoughts.len() > 0 {
        branches.with_branch(id, thoughts)
    } else {
        branches
    }
}

/// A restoration at its start.
pub open spec fn thought_restore(
    sessions_dir: crate::path::PathView,
    session_id: Seq<char>,
) -> ThoughtRestoreView {
    ThoughtRestore::ProbeDir { dir: sessions_dir.push(session_id), session_id }
}

impl ThoughtRestore<
    crate::path::PathView,
    Seq<char>,
    crate::thought_files::MetadataView,
    Seq<ThoughtData>,
    crate::branches::BranchView,
    nat,
> {
    /// The request that comes next.
    pub open spec fn request(self) -> Option<ThoughtRequest<crate::path::PathView>> {
        match self {
            ThoughtRestore::ProbeDir { dir, session_id } => Some(ThoughtRequest::Exists(dir)),
            ThoughtRestore::ReadMetadata { dir, session_id } => Some(
                ThoughtRequest::ReadMetadata(crate::persist::session_file(dir)),
            ),
            ThoughtRestore::ReadHistory { dir, session_id, metadata, history, tried } => Some(
                ThoughtRequest::ReadThought(
                    dir.push(crate::thought_files::thought_name(tried + 1)),
                ),
            ),
            ThoughtRestore::ReadBranch {
                dir,
                session_id,
                metadata,
                history,
                branches,
                done,
                thoughts,
            } => Some(
                ThoughtRequest::ReadThought(
                    dir.push(
                        crate::thought_files::branch_name(
                            metadata.branch_ids[done as int],
                            thoughts.len() + 1,
                        ),
                    ),
                ),
            ),
            ThoughtRestore::Spawn { .. } => Some(ThoughtRequest::Spawn),
            ThoughtRestore::Restored { .. } => None,
            ThoughtRestore::NotRestored => None,
        }
    }

    /// The restoration after an outcome. An outcome that does not answer the
    /// request changes nothing.
    pub open spec fn step(self, event: ThoughtEventView) -> ThoughtRestoreView {
        match (self, event) {
            (ThoughtRestore::ProbeDir { dir, session_id }, ThoughtEvent::Exists(exists)) =>
                if exists {
                ThoughtRestore::ReadMetadata { dir, session_id }
            } else {
                ThoughtRestore::NotRestored
            },
            (ThoughtRestore::ReadMetadata { dir, session_id }, ThoughtEvent::Metadata(metadata)) =>
                match metadata {
                Some(metadata) => next_thought(dir, session_id, metadata, Seq::empty(), 0),
                None => ThoughtRestore::NotRestored,
            },
            (
                ThoughtRestore::ReadHistory { dir, session_id, metadata, history, tried },
                ThoughtEvent::Thought(thought),
            ) => next_thought(
                dir,
                session_id,
                metadata,
                match thought {
                    Some(persisted) => history.push(persisted.thought_data),
                    None => history,
                },
                tried + 1,
            ),
            (
                ThoughtRestore::ReadBranch {
                    dir,
                    session_id,
                    metadata,
                    history,
                    branches,
                    done,
                    thoughts,
                },
                ThoughtEvent::Thought(thought),
            ) => match thought {
                Some(persisted) => ThoughtRestore::ReadBranch {
                    dir,
                    session_id,
                    metadata,
                    history,
                    branches,
                    done,
                    thoughts: thoughts.push(persisted.thought_data),
                },
                None => next_branch(
                    dir,
                    session_id,
                    metadata,
                    history,
                    with_complete_branch(branches, metadata.branch_ids[done as int], thoughts),
                    done + 1,
                ),
            },
            (
                ThoughtRestore::Spawn { session_id, created_at, history, branches },
                ThoughtEvent::Spawned { actor, now, wall_now },
            ) => match crate::clock::instant_of(created_at, now, wall_now) {
                Some(created_at) => ThoughtRestore::Restored {
                    handle: SessionHandle { actor, created_at, last_activity: now },
                    session_id,
                },
                None => ThoughtRestore::NotRestored,
            },
            _ => self,
        }
    }
}

/// The next branch is read, or, when there is none, the actor started.
fn to_next_branch(
    dir: SessionPath,
    session_id: String,
    metadata: SessionMetadataFile,
    history: Vec<ThoughtData>,
    branches: BranchMap,
    done: usize,
) -> (next: SessionThoughtRestore)
    requires
        branches.wf(),
    ensures
        next@ == next_branch(
            dir@,
            session_id@,
            metadata@,
            history@,
            branches@,
            done as nat,
        ),
        next.wf(),
{
    if done < metadata.branch_ids.len() {
        ThoughtRestore::ReadBranch {
            dir,
            session_id,
            metadata,
            history,
            branches,
            done,
            thoughts: Vec::new(),
        }
    } else {
        ThoughtRestore::Spawn { session_id, created_at: metadata.created_at, history, branches }
    }
}

/// The next thought of the history is read, or, when there is none, the first
/// branch.
fn to_next_thought(
    dir: SessionPath,
    session_id: String,
    metadata: SessionMetadataFile,
    history: Vec<ThoughtData>,
    tried: usize,
) -> (next: SessionThoughtRestore)
    ensures
        next@ == next_thought(dir@, session_id@, metadata@, history@, tried as nat),
        next.wf(),
{
    if tried < metadata.total_thoughts {
        ThoughtRestore::ReadHistory { dir, session_id, metadata, history, tried }
    } else {
        to_next_branch(dir, session_id, metadata, history, BranchMap::new(), 0)
    }
}

impl ThoughtRestore<
    SessionPath,
    String,
    SessionMetadataFile,
    Vec<ThoughtData>,
    BranchMap,
    usize,
> {
    /// What is still to be read is in the metadata, and the branches are well
    /// formed.
    pub open spec fn wf(&self) -> bool {
        match *self {
            ThoughtRestore::ReadHistory { dir, session_id, metadata, history, tried } => tried
                < metadata.total_thoughts,
            ThoughtRestore::ReadBranch {
                dir,
                session_id,
                metadata,
                history,
                branches,
                done,
                thoughts,
            } => done < metadata.branch_ids.len() && branches.wf(),
            ThoughtRestore::Spawn { session_id, created_at, history, branches } => branches.wf(),
            _ => true,
        }
    }

    /// The request that comes next, until the restoration is over.
    pub fn next_request(&self) -> (request: Option<ThoughtRequest<SessionPath>>)
        requires
            self.wf(),
        ensures
            thought_request_view(request) == self@.request(),
    {
        match self {
            ThoughtRestore::ProbeDir { dir, session_id: _ } => Some(
                ThoughtRequest::Exists(dir.clone()),
            ),
            ThoughtRestore::ReadMetadata { dir, session_id: _ } => Some(
                ThoughtRequest::ReadMetadata(dir.join("session.json")),
            ),
            ThoughtRestore::ReadHistory { dir, session_id: _, metadata: _, history: _, tried } =>
                Some(
                ThoughtRequest::ReadThought(
                    dir.join(thought_file_name(*tried as u128 + 1).as_str()),
                ),
            ),
            ThoughtRestore::ReadBranch {
                dir,
                session_id: _,
                metadata,
                history: _,
                branches: _,
                done,
                thoughts,
            } => Some(
                ThoughtRequest::ReadThought(
                    dir.join(
                        branch_file_name(
                            metadata.branch_ids[*done].as_str(),
                            thoughts.len() as u128 + 1,
                        ).as_str(),
                    ),
                ),
            ),
            ThoughtRestore::Spawn { .. } => Some(ThoughtRequest::Spawn),
            ThoughtRestore::Restored { .. } => None,
            ThoughtRestore::NotRestored => None,
        }
    }

    /// Goes on with the outcome of the request.
    pub fn advance(self, event: ThoughtEvent<SessionMetadataFile>) -> (next: Self)
        requires
            self.wf(),
        ensures
            next@ == self@.step(event@),
            next.wf(),
    {
        match (self, event) {
            (ThoughtRestore::ProbeDir { dir, session_id }, ThoughtEvent::Exists(exists)) =>
                if exists {
                ThoughtRestore::ReadMetadata { dir, session_id }
            } else {
                ThoughtRestore::NotRestored
            },
            (ThoughtRestore::ReadMetadata { dir, session_id }, ThoughtEvent::Metadata(metadata)) =>
                match metadata {
                Some(metadata) => to_next_thought(dir, session_id, metadata, Vec::new(), 0),
                None => ThoughtRestore::NotRestored,
            },
            (
                ThoughtRestore::ReadHistory { dir, session_id, metadata, history, tried },
                ThoughtEvent::Thought(thought),
            ) => {
                let mut history = history;
                if let Some(persisted) = thought {
                    history.push(persisted.thought_data);
                }
                to_next_thought(dir, session_id, metadata, history, tried + 1)
            },
            (
                ThoughtRestore::ReadBranch {
                    dir,
                    session_id,
                    metadata,
                    history,
                    branches,
                    done,
                    thoughts,
                },
                ThoughtEvent::Thought(thought),
            ) => match thought {
                Some(persisted) => {
                    let mut thoughts = thoughts;
                    thoughts.push(persisted.thought_data);
                    ThoughtRestore::ReadBranch {
                        dir,
                        session_id,
                        metadata,
                        history,
                        branches,
                        done,
                        thoughts,
                    }
                },
                None => {
                    let mut branches = branches;
                    if thoughts.len() > 0 {
                        branches.insert(metadata.branch_ids[done].clone(), thoughts);
                    }
                    to_next_branch(dir, session_id, metadata, history, branches, done + 1)
                },
            },
            (
                ThoughtRestore::Spawn { session_id, created_at, history: _, branches: _ },
                ThoughtEvent::Spawned { actor, now, wall_now },
            ) => match to_instant(created_at, now, wall_now) {
                Some(created_at) => ThoughtRestore::Restored {
                    handle: SessionHandle { actor, created_at, last_activity: now },
                    session_id,
                },
                None => ThoughtRestore::NotRestored,
            },
            (restore, _) => restore,
        }
    }

    /// The state to start an actor on, when that comes next.
    pub fn restored_state(&self) -> (state: Option<ThinkingState>)
        requires
            self.wf(),
        ensures
            match state {
                Some(restored) => restored.wf() && (self@ matches ThoughtRestore::Spawn {
                    session_id,
                    created_at,
                    history,
                    branches,
                } && restored@ == (crate::types::StateView { history, branches })),
                None => !(self@ is Spawn),
            },
    {
        match self {
            ThoughtRestore::Spawn { session_id: _, created_at: _, history, branches } => Some(
                ThinkingState {
                    thought_history: clone_thoughts(history),
                    branches: branches.clone(),
                },
            ),
            _ => None,
        }
    }

    /// The handle of the restored session.
    pub fn restored_handle(&self) -> (result: Option<SessionHandle>)
        ensures
            match result {
                Some(found) => self@ matches ThoughtRestore::Restored { handle, session_id }
                    && handle == found,
                None => !(self@ is Restored),
            },
    {
        match self {
            ThoughtRestore::Restored { handle, session_id: _ } => Some(*handle),
            _ => None,
        }
    }

    /// The command that deletes the files of the session, once the session
    /// runs again.
    pub fn backup_to_delete(&self) -> (command: Option<ThoughtCommand>)
        ensures
            match command {
                Some(ThoughtCommand::Delete { session_id: id }) =>
                    self@ matches ThoughtRestore::Restored { handle, session_id } && session_id
                        == id@,
                Some(_) => false,
                None => !(self@ is Restored),
            },
    {
        match self {
            ThoughtRestore::Restored { handle: _, session_id } => Some(
                ThoughtCommand::Delete { session_id: session_id.clone() },
            ),
            _ => None,
        }
    }
}

/// Starts restoring a session from its thought files.
pub fn try_restore_thought_files(config: &PersistenceConfig, session_id: &str) -> (restore:
    SessionThoughtRestore)
    ensures
        restore@ == thought_restore(config.sessions_dir@, session_id@),
        restore.wf(),
{
    ThoughtRestore::ProbeDir {
        dir: config.sessions_dir.join(session_id),
        session_id: session_id.to_string(),
    }
}

/// A restoration starts at the directory of the session below the store and reads
/// the metadata in `session.json` there; without either nothing is restored.
pub proof fn law_restorations_start_with_the_metadata(
    sessions_dir: crate::path::PathView,
    session_id: Seq<char>,
)
    ensures
        ({
            let start = thought_restore(sessions_dir, session_id);
            let dir = sessions_dir + seq![session_id];
            let there = start.step(ThoughtEvent::Exists(true));
            &&& start.request() == Some(ThoughtRequest::Exists(dir))
            &&& start.step(ThoughtEvent::Exists(false)) == ThoughtRestoreView::NotRestored
            &&& there.request() == Some(ThoughtRequest::ReadMetadata(dir + seq!["session.json"@]))
            &&& there.step(ThoughtEvent::Metadata(None)) == ThoughtRestoreView::NotRestored
        }),
{
    let dir = sessions_dir.push(session_id);
    assert(dir =~= sessions_dir + seq![session_id]);
    assert(dir.push("session.json"@) =~= dir + seq!["session.json"@]);
}

/// The thoughts of the history are read by their places, as many as the metadata
/// says; each goes to the end of the history, and one that cannot be read is
/// passed over.
pub proof fn law_the_history_is_read_by_places(
    dir: crate::path::PathView,
    session_id: Seq<char>,
    metadata: crate::thought_files::MetadataView,
    history: Seq<ThoughtData>,
    tried: nat,
    thought: PersistedThought,
)
    requires
        tried < metadata.total_thoughts,
    ensures
        ({
            let reading = ThoughtRestoreView::ReadHistory {
                dir,
                session_id,
                metadata,
                history,
                tried,
            };
            let longer = history + seq![thought.thought_data];
            let read = reading.step(ThoughtEvent::Thought(Some(thought)));
            let passed = reading.step(ThoughtEvent::Thought(None));
            &&& reading.request() == Some(
                ThoughtRequest::ReadThought(
                    dir + seq!["thought"@ + crate::string_utils::decimal(tried + 1) + ".json"@],
                ),
            )
            &&& tried + 1 < metadata.total_thoughts ==> read == (ThoughtRestoreView::ReadHistory {
                dir,
                session_id,
                metadata,
                history: longer,
                tried: tried + 1,
            }) && passed == (ThoughtRestoreView::ReadHistory {
                dir,
                session_id,
                metadata,
                history,
                tried: tried + 1,
            })
            &&& tried + 1 == metadata.total_thoughts && metadata.branch_ids.len() == 0 ==> (
            read matches ThoughtRestore::Spawn { session_id: id, created_at, history: h, branches }
                && id == session_id && created_at == metadata.created_at && h == longer
                && branches.ids.len() == 0) && (passed matches ThoughtRestore::Spawn {
                session_id: id,
                created_at,
                history: h,
                branches,
            } && id == session_id && created_at == metadata.created_at && h == history
                && branches.ids.len() == 0)
            &&& tried + 1 == metadata.total_thoughts && metadata.branch_ids.len() > 0 ==> (
            read matches ThoughtRestore::ReadBranch {
                dir: d,
                session_id: id,
                metadata: m,
                history: h,
                branches,
                done,
                thoughts,
            } && d == dir && id == session_id && m == metadata && h == longer && branches.ids.len()
                == 0 && done == 0 && thoughts.len() == 0)
        }),
{
    let name = "thought"@ + crate::string_utils::decimal(tried + 1) + ".json"@;
    assert(dir.push(name) =~= dir + seq![name]);
    assert(history.push(thought.thought_data) =~= history + seq![thought.thought_data]);
}

/// A branch is read by its name and places, up to its first thought that is not
/// there; then it is taken, unless it has no thoughts, and the next one comes, or
/// the actor is started on all that was read.
pub proof fn law_branches_are_read_to_their_end(
    dir: crate::path::PathView,
    session_id: Seq<char>,
    metadata: crate::thought_files::MetadataView,
    history: Seq<ThoughtData>,
    branches: crate::branches::BranchView,
    done: nat,
    thoughts: Seq<ThoughtData>,
    thought: PersistedThought,
)
    requires
        done < metadata.branch_ids.len(),
    ensures
        ({
            let id = metadata.branch_ids[done as int];
            let reading = ThoughtRestoreView::ReadBranch {
                dir,
                session_id,
                metadata,
                history,
                branches,
                done,
                thoughts,
            };
            let ended = reading.step(ThoughtEvent::Thought(None));
            let after = with_complete_branch(branches, id, thoughts);
            &&& reading.request() == Some(
                ThoughtRequest::ReadThought(
                    dir + seq![
                        "branch_"@ + id + "_thought"@ + crate::string_utils::decimal(
                            thoughts.len() + 1,
                        ) + ".json"@,
                    ],
                ),
            )
            &&& reading.step(ThoughtEvent::Thought(Some(thought))) == (
            ThoughtRestoreView::ReadBranch {
                dir,
                session_id,
                metadata,
                history,
                branches,
                done,
                thoughts: thoughts + seq![thought.thought_data],
            })
            &&& thoughts.len() == 0 ==> after == branches
            &&& thoughts.len() > 0 ==> after.thoughts.contains_key(id) && after.thoughts[id]
                == thoughts && after.ids.contains(id)
            &&& done + 1 == metadata.branch_ids.len() ==> ended == (ThoughtRestoreView::Spawn {
                session_id,
                created_at: metadata.created_at,
                history,
                branches: after,
            })
            &&& done + 1 < metadata.branch_ids.len() ==> ended == (ThoughtRestoreView::ReadBranch {
                dir,
                session_id,
                metadata,
                history,
                branches: after,
                done: done + 1,
                thoughts: Seq::empty(),
            })
        }),
{
    let id = metadata.branch_ids[done as int];
    let name = "branch_"@ + id + "_thought"@ + crate::string_utils::decimal(thoughts.len() + 1)
        + ".json"@;
    assert(dir.push(name) =~= dir + seq![name]);
    assert(thoughts.push(thought.thought_data) =~= thoughts + seq![thought.thought_data]);
    if !branches.ids.contains(id) {
        assert(branches.ids.push(id)[branches.ids.len() as int] == id);
    }
}

/// A session that was read gets the new actor, is as old as it was, as far as the
/// clock reaches back, and counts as used now; one from the future is not
/// restored.
pub proof fn law_sessions_from_thought_files_are_as_old_as_they_were(
    session_id: Seq<char>,
    created: i128,
    history: Seq<ThoughtData>,
    branches: crate::branches::BranchView,
    actor: u64,
    now: u128,
    wall_now: i128,
)
    ensures
        ({
            let read = ThoughtRestoreView::Spawn {
                session_id,
                created_at: created,
                history,
                branches,
            };
            let after = read.step(ThoughtEvent::Spawned { actor, now, wall_now });
            &&& read.request() == Some(ThoughtRequest::<crate::path::PathView>::Spawn)
            &&& created > wall_now ==> after == ThoughtRestoreView::NotRestored
            &&& created <= wall_now ==> (after matches ThoughtRestore::Restored {
                handle,
                session_id: id,
            } && {
                &&& id == session_id
                &&& handle.actor == actor
                &&& handle.last_activity == now
                &&& wall_now - created <= now ==> now - handle.created_at == wall_now - created
                &&& wall_now - created > now ==> handle.created_at == now
                &&& after.request() is None
            })
        }),
{
}

/// With the metadata at hand the history is read first; without thoughts the
/// branches are, and without branches the actor is started.
pub proof fn law_the_metadata_says_what_to_read(
    dir: crate::path::PathView,
    session_id: Seq<char>,
    metadata: crate::thought_files::MetadataView,
)
    ensures
        ({
            let after = (ThoughtRestoreView::ReadMetadata { dir, session_id }).step(
                ThoughtEvent::Metadata(Some(metadata)),
            );
            &&& metadata.total_thoughts > 0 ==> after == (ThoughtRestoreView::ReadHistory {
                dir,
                session_id,
                metadata,
                history: Seq::empty(),
                tried: 0,
            })
            &&& metadata.total_thoughts == 0 && metadata.branch_ids.len() > 0 ==> (
            after matches ThoughtRestore::ReadBranch {
                dir: d,
                session_id: id,
                metadata: m,
                history,
                branches,
                done,
                thoughts,
            } && d == dir && id == session_id && m == metadata && history.len() == 0
                && branches.ids.len() == 0 && done == 0 && thoughts.len() == 0)
            &&& metadata.total_thoughts == 0 && metadata.branch_ids.len() == 0 ==> (
            after matches ThoughtRestore::Spawn { session_id: id, created_at, history, branches }
                && id == session_id && created_at == metadata.created_at && history.len() == 0
                && branches.ids.len() == 0)
        }),
{
}

/// Restorations from thought files are seen as they are.
pub proof fn law_thought_restorations_are_seen_as_they_are(
    dir: SessionPath,
    session_id: String,
    metadata: SessionMetadataFile,
    history: Vec<ThoughtData>,
    branches: BranchMap,
    count: usize,
    thoughts: Vec<ThoughtData>,
    created_at: i128,
    handle: SessionHandle,
)
    ensures
        (SessionThoughtRestore::ProbeDir { dir, session_id })@ == (ThoughtRestoreView::ProbeDir {
            dir: dir@,
            session_id: session_id@,
        }),
        (SessionThoughtRestore::ReadMetadata { dir, session_id })@ == (
        ThoughtRestoreView::ReadMetadata { dir: dir@, session_id: session_id@ }),
        (SessionThoughtRestore::ReadHistory {
            dir,
            session_id,
            metadata,
            history,
            tried: count,
        })@ == (ThoughtRestoreView::ReadHistory {
            dir: dir@,
            session_id: session_id@,
            metadata: metadata@,
            history: history@,
            tried: count as nat,
        }),
        (SessionThoughtRestore::ReadBranch {
            dir,
            session_id,
            metadata,
            history,
            branches,
            done: count,
            thoughts,
        })@ == (ThoughtRestoreView::ReadBranch {
            dir: dir@,
            session_id: session_id@,
            metadata: metadata@,
            history: history@,
            branches: branches@,
            done: count as nat,
            thoughts: thoughts@,
        }),
        (SessionThoughtRestore::Spawn { session_id, created_at, history, branches })@ == (
        ThoughtRestoreView::Spawn {
            session_id: session_id@,
            created_at,
            history: history@,
            branches: branches@,
        }),
        (SessionThoughtRestore::Restored { handle, session_id })@ == (
        ThoughtRestoreView::Restored { handle, session_id: session_id@ }),
        SessionThoughtRestore::NotRestored@ == ThoughtRestoreView::NotRestored,
{
}

/// Requests and outcomes of a restoration from thought files are seen as they are.
pub proof fn law_thought_requests_are_seen_as_they_are(
    path: SessionPath,
    exists: bool,
    metadata: SessionMetadataFile,
    thought: Option<PersistedThought>,
    actor: u64,
    now: u128,
    wall_now: i128,
)
    ensures
        thought_request_view(Some(ThoughtRequest::Exists(path))) == Some(
            ThoughtRequest::Exists(path@),
        ),
        thought_request_view(Some(ThoughtRequest::ReadMetadata(path))) == Some(
            ThoughtRequest::ReadMetadata(path@),
        ),
        thought_request_view(Some(ThoughtRequest::ReadThought(path))) == Some(
            ThoughtRequest::ReadThought(path@),
        ),
        thought_request_view(Some(ThoughtRequest::Spawn)) == Some(
            ThoughtRequest::<crate::path::PathView>::Spawn,
        ),
        thought_request_view(None) is None,
        ThoughtEvent::<SessionMetadataFile>::Exists(exists)@ == ThoughtEventView::Exists(exists),
        ThoughtEvent::Metadata(Some(metadata))@ == ThoughtEventView::Metadata(Some(metadata@)),
        ThoughtEvent::<SessionMetadataFile>::Metadata(None)@ == ThoughtEventView::Metadata(None),
        ThoughtEvent::<SessionMetadataFile>::Thought(thought)@ == ThoughtEventView::Thought(
            thought,
        ),
        (ThoughtEvent::<SessionMetadataFile>::Spawned { actor, now, wall_now })@ == (
        ThoughtEventView::Spawned { actor, now, wall_now }),
{
}

/// A restoration that is over stays what it came to and asks for nothing; before
/// that, an outcome that answers another question than the one that was asked
/// changes nothing.
pub proof fn law_thought_restorations_wait_for_their_answer(
    job: ThoughtRestoreView,
    event: ThoughtEventView,
)
    ensures
        job is Restored || job is NotRestored ==> job.step(event) == job && (job.request() is None),
        job is ProbeDir && !(event is Exists) ==> job.step(event) == job,
        job is ReadMetadata && !(event is Metadata) ==> job.step(event) == job,
        job is ReadHistory && !(event is Thought) ==> job.step(event) == job,
        job is ReadBranch && !(event is Thought) ==> job.step(event) == job,
        job is Spawn && !(event is Spawned) ==> job.step(event) == job,
{
}

/// Taking a branch touches no other branch, and keeps the order of the branches: a
/// new one comes last.
pub proof fn law_complete_branches_leave_the_others(
    branches: crate::branches::BranchView,
    id: Seq<char>,
    thoughts: Seq<ThoughtData>,
    other: Seq<char>,
)
    requires
        other != id,
    ensures
        ({
            let after = with_complete_branch(branches, id, thoughts);
            &&& after.thoughts.contains_key(other) == branches.thoughts.contains_key(other)
            &&& branches.thoughts.contains_key(other) ==> after.thoughts[other]
                == branches.thoughts[other]
            &&& thoughts.len() == 0 || branches.ids.contains(id) ==> after.ids == branches.ids
            &&& thoughts.len() > 0 && !branches.ids.contains(id) ==> after.ids == branches.ids
                + seq![id]
        }),
{
    assert(branches.ids.push(id) =~= branches.ids + seq![id]);
}

} // verus!
