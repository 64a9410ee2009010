//! Type definitions for sequential thinking.
//!
//! The data structures used throughout the library: thoughts, session state,
//! commands and persistence formats. Points in time and durations are counted
//! in nanoseconds.

use crate::branches::BranchMap;
use crate::path::SessionPath;
use crate::trait_impl::registered_name;
use vstd::prelude::*;

verus! {

/// Internal representation of a thought.
///
/// Stored in `thought_history` and in branches.
#[derive(Debug, PartialEq, Eq)]
pub struct ThoughtData {
    pub thought: String,
    pub thought_number: u32,
    pub total_thoughts: u32,
    pub next_thought_needed: bool,
    pub is_revision: Option<bool>,
    pub revises_thought: Option<u32>,
    pub branch_from_thought: Option<u32>,
    pub branch_id: Option<String>,
    pub needs_more_thoughts: Option<bool>,
}

/// Copies an optional text.
pub(crate) fn clone_text(text: &Option<String>) -> (copy: Option<String>)
    ensures
        copy == *text,
{
    match text {
        Some(s) => Some(s.clone()),
        None => None,
    }
}

impl Clone for ThoughtData {
    fn clone(&self) -> (copy: Self)
        ensures
            copy == *self,
    {
        ThoughtData {
            thought: self.thought.clone(),
            thought_number: self.thought_number,
            total_thoughts: self.total_thoughts,
            next_thought_needed: self.next_thought_needed,
            is_revision: self.is_revision,
            revises_thought: self.revises_thought,
            branch_from_thought: self.branch_from_thought,
            branch_id: clone_text(&self.branch_id),
            needs_more_thoughts: self.needs_more_thoughts,
        }
    }
}

/// Copies a list of thoughts.
pub(crate) fn clone_thoughts(thoughts: &Vec<ThoughtData>) -> (copy: Vec<ThoughtData>)
    ensures
        copy@ == thoughts@,
{
    let mut copy: Vec<ThoughtData> = Vec::new();
    let mut i: usize = 0;
    while i < thoughts.len()
        invariant
            i <= thoughts.len(),
            copy@ == thoughts@.take(i as int),
        decreases thoughts.len() - i,
    {
        copy.push(thoughts[i].clone());
        i = i + 1;
        assert(copy@ =~= thoughts@.take(i as int));
    }
    assert(copy@ =~= thoughts@);
    copy
}

/// The branch that a thought belongs to: the one it names, when it also says
/// which thought it branches from.
pub open spec fn branch_target(thought: ThoughtData) -> Option<Seq<char>> {
    match (thought.branch_from_thought, thought.branch_id) {
        (Some(_), Some(id)) => Some(id@),
        _ => None,
    }
}

/// The thoughts of a history that belong to a branch, in their order.
pub open spec fn branch_of(history: Seq<ThoughtData>, id: Seq<char>) -> Seq<ThoughtData>
    decreases history.len(),
{
    if history.len() == 0 {
        Seq::empty()
    } else if branch_target(history.last()) == Some(id) {
        branch_of(history.drop_last(), id).push(history.last())
    } else {
        branch_of(history.drop_last(), id)
    }
}

/// The thoughts of a session: all of them in their order, and those of each
/// branch.
#[verifier::ext_equal]
pub struct StateView {
    pub history: Seq<ThoughtData>,
    pub branches: crate::branches::BranchView,
}

impl StateView {
    /// A session without thoughts.
    pub open spec fn empty() -> StateView {
        StateView { history: Seq::empty(), branches: crate::branches::BranchView::empty() }
    }

    /// The session after a thought was added.
    pub open spec fn with_thought(self, thought: ThoughtData) -> StateView {
        StateView {
            history: self.history.push(thought),
            branches: match branch_target(thought) {
                Some(id) => self.branches.with_thought(id, thought),
                None => self.branches,
            },
        }
    }

    /// The branches hold exactly the thoughts of the history that belong to
    /// them.
    pub open spec fn consistent(self) -> bool {
        &&& self.branches.wf()
        &&& forall|id: Seq<char>| #[trigger]
            self.branches.thoughts.contains_key(id) <==> branch_of(self.history, id).len() > 0
        &&& forall|id: Seq<char>| #[trigger]
            self.branches.of(id) == branch_of(self.history, id)
    }
}

/// Internal state tracking all thoughts of a single session.
///
/// Each session actor owns an instance of this state.
#[derive(Debug)]
pub struct ThinkingState {
    /// Linear history of all thoughts in this session.
    pub thought_history: Vec<ThoughtData>,
    /// Branched thoughts, organized by branch id.
    pub branches: BranchMap,
}

impl View for ThinkingState {
    type V = StateView;

    open spec fn view(&self) -> StateView {
        StateView { history: self.thought_history@, branches: self.branches@ }
    }
}

impl ThinkingState {
    /// The branches are well formed.
    pub open spec fn wf(&self) -> bool {
        self.branches.wf()
    }
}

/// The view of an optional state.
pub open spec fn kept_view(kept: Option<ThinkingState>) -> Option<StateView> {
    match kept {
        Some(state) => Some(state@),
        None => None,
    }
}

impl Default for ThinkingState {
    fn default() -> (state: Self)
        ensures
            state.wf(),
            state@ == StateView::empty(),
    {
        let state = ThinkingState { thought_history: Vec::new(), branches: BranchMap::new() };
        assert(state@ =~= StateView::empty());
        state
    }
}

/// Commands to a session actor.
#[derive(Debug)]
pub enum SessionCommand {
    /// Add a new thought to this session's history.
    AddThought { thought: ThoughtData },
    /// Get the current session state.
    GetState,
    /// Clear this session's history.
    Clear,
}

/// Response of a session actor to a new thought.
#[derive(Debug, Clone, PartialEq, Eq)]
pub struct SessionResponse {
    pub thought_number: u32,
    pub total_thoughts: u32,
    pub next_thought_needed: bool,
    pub branches: Vec<String>,
    pub thought_history_length: usize,
}

/// Complete session state snapshot (for debugging or persistence).
#[derive(Debug)]
pub struct SessionStateSnapshot {
    pub thought_history: Vec<ThoughtData>,
    pub branches: BranchMap,
}

impl View for SessionStateSnapshot {
    type V = StateView;

    open spec fn view(&self) -> StateView {
        StateView { history: self.thought_history@, branches: self.branches@ }
    }
}

impl SessionStateSnapshot {
    /// The branches are well formed.
    pub open spec fn wf(&self) -> bool {
        self.branches.wf()
    }
}

impl Clone for SessionStateSnapshot {
    fn clone(&self) -> (copy: Self)
        ensures
            copy@ == self@,
            copy.wf() == self.wf(),
    {
        SessionStateSnapshot {
            thought_history: clone_thoughts(&self.thought_history),
            branches: self.branches.clone(),
        }
    }
}

/// Handle to a running session actor.
#[derive(Debug, Clone, Copy, PartialEq, Eq)]
pub struct SessionHandle {
    /// Number by which the actor's channel is found.
    pub actor: u64,
    /// When this session was created, on the monotonic clock.
    pub created_at: u128,
    /// Last time the session was asked for, on the monotonic clock (used for
    /// cleanup).
    pub last_activity: u128,
}

/// A session that is to be written to disk. The times are wall-clock times.
#[derive(Debug)]
pub struct PersistRequest {
    pub session_id: String,
    pub snapshot: SessionStateSnapshot,
    pub created_at: i128,
    pub last_activity: i128,
}

/// Commands for the persistence background task.
#[derive(Debug)]
pub enum PersistenceCommand {
    /// Persist a session to disk.
    Persist { request: PersistRequest },
    /// Persist several sessions to disk, and report under the number in
    /// `completion` how many were written.
    PersistBatch { sessions: Vec<PersistRequest>, completion: Option<u64> },
    /// Delete a session from disk.
    Delete { session_id: String },
}

/// A session as the session file holds it. The times are wall-clock times.
#[derive(Debug)]
pub struct PersistedSessionFile {
    pub session_id: String,
    pub created_at: i128,
    pub last_activity: i128,
    pub thought_history: Vec<ThoughtData>,
    pub branches: BranchMap,
}

/// What a session file holds.
#[verifier::ext_equal]
pub struct SessionFileView {
    pub session_id: Seq<char>,
    pub created_at: i128,
    pub last_activity: i128,
    pub state: StateView,
}

impl View for PersistedSessionFile {
    type V = SessionFileView;

    open spec fn view(&self) -> SessionFileView {
        SessionFileView {
            session_id: self.session_id@,
            created_at: self.created_at,
            last_activity: self.last_activity,
            state: StateView { history: self.thought_history@, branches: self.branches@ },
        }
    }
}

impl View for PersistRequest {
    type V = SessionFileView;

    open spec fn view(&self) -> SessionFileView {
        SessionFileView {
            session_id: self.session_id@,
            created_at: self.created_at,
            last_activity: self.last_activity,
            state: self.snapshot@,
        }
    }
}

impl PersistedSessionFile {
    /// The branches are well formed.
    pub open spec fn wf(&self) -> bool {
        self.branches.wf()
    }

    /// The file for a session.
    pub fn from_snapshot(
        session_id: String,
        snapshot: &SessionStateSnapshot,
        created_at: i128,
        last_activity: i128,
    ) -> (file: Self)
        ensures
            file@ == (SessionFileView {
                session_id: session_id@,
                created_at,
                last_activity,
                state: snapshot@,
            }),
            file.wf() == snapshot.wf(),
    {
        PersistedSessionFile {
            session_id,
            created_at,
            last_activity,
            thought_history: clone_thoughts(&snapshot.thought_history),
            branches: snapshot.branches.clone(),
        }
    }

    /// The session in the file.
    pub fn to_snapshot(&self) -> (snapshot: SessionStateSnapshot)
        ensures
            snapshot@ == self@.state,
            snapshot.wf() == self.wf(),
    {
        SessionStateSnapshot {
            thought_history: clone_thoughts(&self.thought_history),
            branches: self.branches.clone(),
        }
    }
}

/// Session metadata of the store that keeps one file per thought. The times
/// are wall-clock times.
#[derive(Debug)]
pub struct SessionMetadataFile {
    pub session_id: String,
    pub created_at: i128,
    pub last_activity: i128,
    pub total_thoughts: usize,
    pub branch_ids: Vec<String>,
}

/// Individual thought file of the store that keeps one file per thought.
#[derive(Debug)]
pub struct PersistedThought {
    pub thought_number: u32,
    pub thought_data: ThoughtData,
}

/// Nanoseconds in 24 hours.
pub const CLEANUP_AFTER: u128 = 86_400_000_000_000;

/// Persistence configuration for orphaned sessions.
#[derive(Debug)]
pub struct PersistenceConfig {
    /// Base directory of the session store.
    pub sessions_dir: SessionPath,
    /// Age before disk cleanup (24 hours).
    pub cleanup_after: u128,
}

impl Clone for PersistenceConfig {
    fn clone(&self) -> (copy: Self)
        ensures
            copy.sessions_dir@ == self.sessions_dir@,
            copy.cleanup_after == self.cleanup_after,
    {
        PersistenceConfig {
            sessions_dir: self.sessions_dir.clone(),
            cleanup_after: self.cleanup_after,
        }
    }
}

/// The directory of the session store below the state directory, or below the
/// working directory when there is no state directory.
pub open spec fn state_sessions_dir(
    state_dir: Option<crate::path::PathView>,
) -> crate::path::PathView {
    let base = match state_dir {
        Some(dir) => dir,
        None => Seq::empty(),
    };
    base.push("sessions"@).push("sequential_thinking"@)
}

/// The directory of the session store below the configuration directory, or
/// below the working directory when there is no configuration directory.
pub open spec fn config_sessions_dir(
    config_dir: Option<crate::path::PathView>,
) -> crate::path::PathView {
    let base = match config_dir {
        Some(dir) => dir,
        None => seq!["."@],
    };
    base.push("kodegen-mcp"@).push("sequential_thinking"@)
}

/// The view of an optional path.
pub open spec fn path_view(path: Option<SessionPath>) -> Option<crate::path::PathView> {
    match path {
        Some(p) => Some(p@),
        None => None,
    }
}

impl PersistenceConfig {
    /// The configuration of the store below the configuration directory.
    pub fn default(config_dir: Option<SessionPath>) -> (config: Self)
        ensures
            config.sessions_dir@ == config_sessions_dir(path_view(config_dir)),
            config.cleanup_after == CLEANUP_AFTER,
    {
        let base = match config_dir {
            Some(dir) => dir,
            None => SessionPath::new().join("."),
        };
        assert(config_dir is None ==> base@ =~= seq!["."@]);
        PersistenceConfig {
            sessions_dir: base.join("kodegen-mcp").join(registered_name()),
            cleanup_after: CLEANUP_AFTER,
        }
    }

    /// The configuration of a store below the state directory.
    pub fn in_state_dir(state_dir: Option<SessionPath>) -> (config: Self)
        ensures
            config.sessions_dir@ == state_sessions_dir(path_view(state_dir)),
            config.cleanup_after == CLEANUP_AFTER,
    {
        let base = match state_dir {
            Some(dir) => dir,
            None => SessionPath::new(),
        };
        PersistenceConfig {
            sessions_dir: base.join("sessions").join(registered_name()),
            cleanup_after: CLEANUP_AFTER,
        }
    }
}

/// Adding a thought keeps the branches in step with the history.
pub proof fn lemma_with_thought_consistent(state: StateView, thought: ThoughtData)
    requires
        state.consistent(),
    ensures
        state.with_thought(thought).consistent(),
{
    let after = state.with_thought(thought);
    assert(after.history.drop_last() =~= state.history);
    assert forall|id: Seq<char>| #[trigger]
        after.branches.of(id) == branch_of(after.history, id) by {
        assert(state.branches.of(id) == branch_of(state.history, id));
    }
    assert forall|id: Seq<char>| #[trigger]
        after.branches.thoughts.contains_key(id) <==> branch_of(after.history, id).len() > 0 by {
        assert(state.branches.thoughts.contains_key(id) <==> branch_of(state.history, id).len()
            > 0);
    }
    match branch_target(thought) {
        Some(id) => {
            crate::branches::lemma_with_branch_wf(
                state.branches,
                id,
                state.branches.of(id).push(thought),
            );
        },
        None => {},
    }
}

/// The views of a session hide nothing: they show every thought, every branch,
/// and the id and the times, each in its place.
pub proof fn law_views_show_the_session(
    state: ThinkingState,
    snapshot: SessionStateSnapshot,
    file: PersistedSessionFile,
    request: PersistRequest,
)
    ensures
        state@.history == state.thought_history@,
        state@.branches == state.branches@,
        snapshot@.history == snapshot.thought_history@,
        snapshot@.branches == snapshot.branches@,
        file@.session_id == file.session_id@,
        file@.created_at == file.created_at,
        file@.last_activity == file.last_activity,
        file@.state.history == file.thought_history@,
        file@.state.branches == file.branches@,
        request@.session_id == request.session_id@,
        request@.created_at == request.created_at,
        request@.last_activity == request.last_activity,
        request@.state.history == request.snapshot.thought_history@,
        request@.state.branches == request.snapshot.branches@,
{
}

/// A kept state is seen as it is.
pub proof fn law_kept_states_are_seen(state: ThinkingState)
    ensures
        kept_view(Some(state)) matches Some(seen) && seen.history == state.thought_history@
            && seen.branches == state.branches@,
        kept_view(None) is None,
{
}

/// The stores lie two directories below the one that is given, under fixed
/// names; without one, below the working directory.
pub proof fn law_stores_have_their_place(dir: crate::path::PathView)
    ensures
        config_sessions_dir(Some(dir)) == dir + seq!["kodegen-mcp"@, "sequential_thinking"@],
        config_sessions_dir(None) == seq!["."@, "kodegen-mcp"@, "sequential_thinking"@],
        state_sessions_dir(Some(dir)) == dir + seq!["sessions"@, "sequential_thinking"@],
        state_sessions_dir(None) == seq!["sessions"@, "sequential_thinking"@],
{
    assert(config_sessions_dir(Some(dir)) =~= dir + seq!["kodegen-mcp"@, "sequential_thinking"@]);
    assert(config_sessions_dir(None) =~= seq!["."@, "kodegen-mcp"@, "sequential_thinking"@]);
    assert(state_sessions_dir(Some(dir)) =~= dir + seq!["sessions"@, "sequential_thinking"@]);
    assert(state_sessions_dir(None) =~= seq!["sessions"@, "sequential_thinking"@]);
}

/// An optional path is seen as it is.
pub proof fn law_optional_paths_are_seen(path: SessionPath)
    ensures
        path_view(Some(path)) == Some(path@),
        path_view(None) is None,
{
}

} // verus!
