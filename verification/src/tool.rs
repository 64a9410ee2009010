//! The sequential thinking tool: the sessions of all connections.
//!
//! A connection has one session at a time: that of its thought chain. A session
//! is held, saved and restored under its connection. It is found in memory, or
//! restored from disk, or created; sessions that nobody uses are persisted and
//! dropped.

use crate::clock::{go_back, to_wall_time};
use crate::restore::RestoreJob;
use crate::sequence_manager::SequenceManager;
use crate::session::{
    spawn_session_actor, spawn_session_actor_with_state, SessionActor, SessionReply,
};
use crate::session_map::{is_listed_number, KeepRule, SessionMap};
use crate::shutdown::ShutdownRun;
use crate::string_utils::decimal_text;
use crate::types::{
    PersistRequest, PersistenceCommand, SessionCommand, SessionHandle, SessionResponse,
    SessionStateSnapshot, ThinkingState, ThoughtData,
};
use vstd::prelude::*;

verus! {

/// How many commands the persistence channel takes before senders wait.
pub const PERSISTENCE_CHANNEL_CAPACITY: usize = 100;

/// How many commands the channel of a session takes before senders wait.
pub const SESSION_CHANNEL_CAPACITY: usize = 100;

/// Nanoseconds between two cleanups of the sessions in memory: five minutes.
pub const CLEANUP_INTERVAL: u128 = 300_000_000_000;

/// Nanoseconds after which an unused session leaves the memory: thirty
/// minutes.
pub const SESSION_MAX_AGE: u128 = 1_800_000_000_000;

/// Nanoseconds that a restored actor has to prove responsive: five seconds.
pub const CONFIRM_TIMEOUT: u128 = 5_000_000_000;

/// Why a request to the tool failed.
#[derive(Debug, PartialEq, Eq)]
pub enum ToolError {
    /// There is no such session.
    SessionNotFound { session_id: String },
    /// The actor of the session has stopped.
    ActorTerminated,
    /// The actor did not give its state.
    NoState,
    /// The actor did not clear the session.
    NotCleared,
    /// The actor did not answer to the thought.
    NoResponse,
}

impl ToolError {
    /// The text of the error.
    pub open spec fn text(self) -> Seq<char> {
        match self {
            ToolError::SessionNotFound { session_id } => "Session not found: "@ + session_id@,
            ToolError::ActorTerminated => "Session actor terminated"@,
            ToolError::NoState => "Failed to receive state"@,
            ToolError::NotCleared => "Failed to clear session"@,
            ToolError::NoResponse => "Session actor failed to respond"@,
        }
    }

    /// Whether the error says that there is no session with an id.
    pub open spec fn is_not_found(self, id: Seq<char>) -> bool {
        self matches ToolError::SessionNotFound { session_id } && session_id@ == id
    }

    /// The text of the error.
    pub fn message(&self) -> (message: String)
        ensures
            message@ == self.text(),
    {
        match self {
            ToolError::SessionNotFound { session_id } => {
                let mut text = "Session not found: ".to_string();
                text.append(session_id.as_str());
                text
            },
            ToolError::ActorTerminated => "Session actor terminated".to_string(),
            ToolError::NoState => "Failed to receive state".to_string(),
            ToolError::NotCleared => "Failed to clear session".to_string(),
            ToolError::NoResponse => "Session actor failed to respond".to_string(),
        }
    }
}

/// What came back from the actor of a session.
#[derive(Debug)]
pub enum ActorAnswer {
    /// The command could not be sent: the actor has stopped.
    Terminated,
    /// The actor took the command and did not answer.
    Silent,
    /// The actor answered.
    Reply(SessionReply),
}

/// The state that an actor gave, when it was asked for it.
pub fn received_state(answer: ActorAnswer) -> (result: Result<SessionStateSnapshot, ToolError>)
    ensures
        match answer {
            ActorAnswer::Reply(SessionReply::State(snapshot)) => result
                == Ok::<SessionStateSnapshot, ToolError>(snapshot),
            ActorAnswer::Terminated => result == Err::<SessionStateSnapshot, ToolError>(
                ToolError::ActorTerminated,
            ),
            _ => result == Err::<SessionStateSnapshot, ToolError>(ToolError::NoState),
        },
{
    match answer {
        ActorAnswer::Reply(SessionReply::State(snapshot)) => Ok(snapshot),
        ActorAnswer::Terminated => Err(ToolError::ActorTerminated),
        _ => Err(ToolError::NoState),
    }
}

/// Whether an actor cleared its session, when it was asked to.
pub fn received_clear(answer: ActorAnswer) -> (result: Result<(), ToolError>)
    ensures
        match answer {
            ActorAnswer::Reply(SessionReply::Cleared) => result == Ok::<(), ToolError>(()),
            ActorAnswer::Terminated => result == Err::<(), ToolError>(ToolError::ActorTerminated),
            _ => result == Err::<(), ToolError>(ToolError::NotCleared),
        },
{
    match answer {
        ActorAnswer::Reply(SessionReply::Cleared) => Ok(()),
        ActorAnswer::Terminated => Err(ToolError::ActorTerminated),
        _ => Err(ToolError::NotCleared),
    }
}

/// What an actor answered to a thought.
pub fn received_response(answer: ActorAnswer) -> (result: Result<SessionResponse, ToolError>)
    ensures
        match answer {
            ActorAnswer::Reply(SessionReply::Added(response)) => result
                == Ok::<SessionResponse, ToolError>(response),
            ActorAnswer::Terminated => result == Err::<SessionResponse, ToolError>(
                ToolError::ActorTerminated,
            ),
            _ => result == Err::<SessionResponse, ToolError>(ToolError::NoResponse),
        },
{
    match answer {
        ActorAnswer::Reply(SessionReply::Added(response)) => Ok(response),
        ActorAnswer::Terminated => Err(ToolError::ActorTerminated),
        _ => Err(ToolError::NoResponse),
    }
}

/// Arguments of the tool: one thought.
#[derive(Debug, PartialEq, Eq)]
pub struct SequentialThinkingArgs {
    /// Current thinking step.
    pub thought: String,
    /// Current thought number, from 1.
    pub thought_number: u32,
    /// Estimated total of thoughts.
    pub total_thoughts: u32,
    /// Whether another thought is needed.
    pub next_thought_needed: bool,
    /// Whether this revises earlier thinking.
    pub is_revision: Option<bool>,
    /// Which thought is reconsidered.
    pub revises_thought: Option<u32>,
    /// Thought from which a branch starts.
    pub branch_from_thought: Option<u32>,
    /// Name of the branch.
    pub branch_id: Option<String>,
    /// Whether more thoughts are needed than estimated.
    pub needs_more_thoughts: Option<bool>,
}

/// The thought that the arguments describe: as they say, but with a total that
/// is never below the number of the thought.
pub open spec fn validated(args: SequentialThinkingArgs) -> ThoughtData {
    ThoughtData {
        thought: args.thought,
        thought_number: args.thought_number,
        total_thoughts: if args.total_thoughts >= args.thought_number {
            args.total_thoughts
        } else {
            args.thought_number
        },
        next_thought_needed: args.next_thought_needed,
        is_revision: args.is_revision,
        revises_thought: args.revises_thought,
        branch_from_thought: args.branch_from_thought,
        branch_id: args.branch_id,
        needs_more_thoughts: args.needs_more_thoughts,
    }
}

/// How a connection came by its session.
#[derive(Debug, Clone, Copy, PartialEq, Eq)]
pub enum SessionOrigin {
    /// It was there.
    Existing,
    /// It was there, but its actor had stopped: it goes on in a new actor.
    Revived,
    /// It was restored from disk.
    Restored,
    /// It is new.
    Created,
}

/// The full id of a session, as clients see it: its connection and the number of
/// its thought chain.
pub open spec fn full_session_id(connection: Seq<char>, sequence: u64) -> Seq<char> {
    connection + "_"@ + crate::string_utils::decimal(sequence as nat)
}

/// The full id of a session.
pub fn full_session_id_of(connection_id: &str, sequence: u64) -> (id: String)
    ensures
        id@ == full_session_id(connection_id@, sequence),
{
    let mut id = connection_id.to_string();
    id.append("_");
    id.append(decimal_text(sequence as u128).as_str());
    id
}

/// A new session.
pub open spec fn new_session(fresh_actor: u64, now: u128) -> SessionHandle {
    SessionHandle { actor: fresh_actor, created_at: now, last_activity: now }
}

/// How a session is come by: the one that is there wins over one restored from
/// disk, and that over a new one. The one that is there goes on in a new actor
/// when its own has stopped.
pub open spec fn session_origin(
    sessions: Map<Seq<char>, SessionHandle>,
    connection: Seq<char>,
    stopped: Seq<u64>,
    restored: Option<SessionHandle>,
) -> SessionOrigin {
    if sessions.contains_key(connection) {
        if stopped.contains(sessions[connection].actor) {
            SessionOrigin::Revived
        } else {
            SessionOrigin::Existing
        }
    } else if restored is Some {
        SessionOrigin::Restored
    } else {
        SessionOrigin::Created
    }
}

/// The session that is come by.
pub open spec fn claimed_session(
    sessions: Map<Seq<char>, SessionHandle>,
    connection: Seq<char>,
    stopped: Seq<u64>,
    restored: Option<SessionHandle>,
    fresh_actor: u64,
    now: u128,
) -> SessionHandle {
    match session_origin(sessions, connection, stopped, restored) {
        SessionOrigin::Existing => SessionHandle { last_activity: now, ..sessions[connection] },
        SessionOrigin::Revived => SessionHandle {
            actor: fresh_actor,
            last_activity: now,
            ..sessions[connection]
        },
        SessionOrigin::Restored => restored->0,
        SessionOrigin::Created => new_session(fresh_actor, now),
    }
}

/// The state on which a new actor starts: the empty one in a new session, and
/// the one that was kept in a revived one. Other sessions have their actors.
pub open spec fn starting_state(
    origin: SessionOrigin,
    kept: Option<crate::types::StateView>,
) -> Option<crate::types::StateView> {
    match (origin, kept) {
        (SessionOrigin::Created, _) => Some(crate::types::StateView::empty()),
        (SessionOrigin::Revived, Some(state)) => Some(state),
        (SessionOrigin::Revived, None) => Some(crate::types::StateView::empty()),
        _ => None,
    }
}

/// The actor that a session needs, if it needs a new one. `kept` is the state
/// that its stopped actor left behind.
pub fn actor_for(origin: SessionOrigin, kept: Option<ThinkingState>) -> (actor: Option<SessionActor>)
    requires
        kept matches Some(state) ==> state.wf(),
    ensures
        match (actor, starting_state(origin, crate::types::kept_view(kept))) {
            (Some(started), Some(state)) => started.wf() && started.running() && started.state()
                == state,
            (None, None) => true,
            _ => false,
        },
{
    match origin {
        SessionOrigin::Created => Some(spawn_session_actor()),
        SessionOrigin::Revived => match kept {
            Some(state) => Some(spawn_session_actor_with_state(state)),
            None => Some(spawn_session_actor()),
        },
        _ => None,
    }
}

/// A session as it is to be persisted, with its times on the wall clock.
pub open spec fn described(
    session_id: Seq<char>,
    handle: SessionHandle,
    state: crate::types::StateView,
    now: u128,
    wall_now: i128,
) -> crate::types::SessionFileView {
    crate::types::SessionFileView {
        session_id,
        created_at: crate::clock::wall_time(handle.created_at, now, wall_now),
        last_activity: crate::clock::wall_time(handle.last_activity, now, wall_now),
        state,
    }
}

/// Describes a session as it is to be persisted.
pub fn describe_session(
    session_id: String,
    handle: SessionHandle,
    snapshot: SessionStateSnapshot,
    now: u128,
    wall_now: i128,
) -> (request: PersistRequest)
    ensures
        request@ == described(session_id@, handle, snapshot@, now, wall_now),
        request.snapshot == snapshot,
{
    PersistRequest {
        session_id,
        snapshot,
        created_at: to_wall_time(handle.created_at, now, wall_now),
        last_activity: to_wall_time(handle.last_activity, now, wall_now),
    }
}

/// The state in an answer of an actor.
pub open spec fn state_in(answer: ActorAnswer) -> Option<crate::types::StateView> {
    match answer {
        ActorAnswer::Reply(SessionReply::State(snapshot)) => Some(snapshot@),
        _ => None,
    }
}

/// The command that persists an expired session, when its actor gave its
/// state.
pub fn persist_command(
    session_id: &str,
    handle: SessionHandle,
    answer: ActorAnswer,
    now: u128,
    wall_now: i128,
) -> (command: Option<PersistenceCommand>)
    ensures
        match (command, state_in(answer)) {
            (Some(PersistenceCommand::Persist { request }), Some(state)) => request@ == described(
                session_id@,
                handle,
                state,
                now,
                wall_now,
            ),
            (None, None) => true,
            _ => false,
        },
{
    match received_state(answer) {
        Ok(snapshot) => Some(
            PersistenceCommand::Persist {
                request: describe_session(
                    session_id.to_string(),
                    handle,
                    snapshot,
                    now,
                    wall_now,
                ),
            },
        ),
        Err(_) => None,
    }
}

/// What came of handing a command to the persistence channel.
#[derive(Debug, Clone, Copy, PartialEq, Eq)]
pub enum QueueOutcome {
    /// The channel took it.
    Queued,
    /// The channel is full.
    Full,
    /// The channel is closed.
    Closed,
}

/// The sessions after it was noted what came of handing an expired one to the
/// persistence channel.
pub open spec fn with_noted(
    sessions: Map<Seq<char>, SessionHandle>,
    session_id: Seq<char>,
    handle: SessionHandle,
    outcome: QueueOutcome,
) -> Map<Seq<char>, SessionHandle> {
    if outcome == QueueOutcome::Full && !sessions.contains_key(session_id) {
        sessions.insert(session_id, handle)
    } else {
        sessions
    }
}

/// The rule of a cleanup: by the actors that have stopped, and the time since
/// which a session must have been used.
pub open spec fn cleanup_rule(closed: Vec<u64>, now: u128, max_age: u128) -> KeepRule {
    KeepRule { closed, cutoff: crate::clock::back(now, max_age) }
}

/// Whether a list names every session of a map once, and no other.
pub open spec fn names_sessions(
    ids: Seq<Seq<char>>,
    sessions: Map<Seq<char>, SessionHandle>,
) -> bool {
    &&& ids.no_duplicates()
    &&& forall|id: Seq<char>| #[trigger] ids.contains(id) <==> sessions.contains_key(id)
}

/// Whether a list holds exactly the expired sessions of a map, each once.
pub open spec fn lists_expired(
    list: Seq<(String, SessionHandle)>,
    sessions: Map<Seq<char>, SessionHandle>,
    rule: KeepRule,
) -> bool {
    &&& forall|i: int|
        #![trigger list[i]]
        0 <= i < list.len() ==> sessions.contains_key(list[i].0@) && sessions[list[i].0@]
            == list[i].1 && rule.expires(list[i].1)
    &&& forall|i: int, j: int|
        #![trigger list[i], list[j]]
        0 <= i < j < list.len() ==> list[i].0@ != list[j].0@
    &&& forall|key: Seq<char>| #[trigger]
        sessions.contains_key(key) && rule.expires(sessions[key]) ==> exists|i: int|
            0 <= i < list.len() && (#[trigger] list[i]).0@ == key
}

/// The sessions of all connections, by connection, and the thought chains of the
/// connections.
#[derive(Debug)]
pub struct SequentialThinkingTool {
    sessions: SessionMap,
    sequences: SequenceManager,
}

impl View for SequentialThinkingTool {
    type V = Map<Seq<char>, SessionHandle>;

    closed spec fn view(&self) -> Map<Seq<char>, SessionHandle> {
        self.sessions@
    }
}

impl Default for SequentialThinkingTool {
    fn default() -> (tool: Self)
        ensures
            tool@ == Map::<Seq<char>, SessionHandle>::empty(),
            tool.sequences() == (crate::sequence_manager::SequenceView {
                current: Map::empty(),
                next_id: 1,
            }),
    {
        Self::new()
    }
}

impl SequentialThinkingTool {
    /// The thought chains of the connections.
    pub closed spec fn sequences(&self) -> crate::sequence_manager::SequenceView {
        self.sequences@
    }

    /// A tool without sessions.
    #[must_use]
    pub fn new() -> (tool: Self)
        ensures
            tool@ == Map::<Seq<char>, SessionHandle>::empty(),
            tool.sequences() == (crate::sequence_manager::SequenceView {
                current: Map::empty(),
                next_id: 1,
            }),
    {
        SequentialThinkingTool { sessions: SessionMap::new(), sequences: SequenceManager::new() }
    }

    /// Resolves the thought chain of a thought: the active one of its
    /// connection, or a new one. Returns the number of the chain, whether it is
    /// new, and the one before it.
    pub fn resolve_sequence(&mut self, connection_id: &str, thought_number: u32) -> (result: (
        u64,
        bool,
        Option<u64>,
    ))
        ensures
            final(self)@ == old(self)@,
            final(self).sequences() == old(self).sequences().resolved(
                connection_id@,
                thought_number,
            ),
            final(self).sequences().active(connection_id@) == Some(result.0),
            result.1 == old(self).sequences().starts_sequence(connection_id@, thought_number),
            result.1 ==> result.0 == old(self).sequences().next_id && result.2
                == old(self).sequences().active(connection_id@),
            !result.1 ==> result.2 is None,
    {
        self.sequences.resolve(connection_id, thought_number)
    }

    /// Starts a new session for a connection, in place of the one that it had.
    pub fn start_session(&mut self, connection_id: &str, fresh_actor: u64, now: u128) -> (handle:
        SessionHandle)
        ensures
            handle == new_session(fresh_actor, now),
            final(self)@ == old(self)@.insert(connection_id@, handle),
            final(self).sequences() == old(self).sequences(),
    {
        let handle = SessionHandle { actor: fresh_actor, created_at: now, last_activity: now };
        self.sessions.insert(connection_id.to_string(), handle);
        handle
    }

    /// The session of a connection, when it is in memory; it counts as used now.
    /// When its actor is among the stopped ones it goes on in the actor
    /// `fresh_actor`.
    pub fn find_session(
        &mut self,
        connection_id: &str,
        stopped: &Vec<u64>,
        fresh_actor: u64,
        now: u128,
    ) -> (found: Option<(SessionHandle, SessionOrigin)>)
        ensures
            final(self).sequences() == old(self).sequences(),
            match found {
                Some((handle, origin)) => {
                    &&& old(self)@.contains_key(connection_id@)
                    &&& handle == claimed_session(
                        old(self)@,
                        connection_id@,
                        stopped@,
                        None,
                        fresh_actor,
                        now,
                    )
                    &&& origin == session_origin(old(self)@, connection_id@, stopped@, None)
                    &&& final(self)@ == old(self)@.insert(connection_id@, handle)
                },
                None => !old(self)@.contains_key(connection_id@) && final(self)@ == old(self)@,
            },
    {
        match self.sessions.get(connection_id) {
            Some(handle) => {
                let (actor, origin) = if is_listed_number(stopped, handle.actor) {
                    (fresh_actor, SessionOrigin::Revived)
                } else {
                    (handle.actor, SessionOrigin::Existing)
                };
                let used = SessionHandle {
                    actor,
                    created_at: handle.created_at,
                    last_activity: now,
                };
                self.sessions.insert(connection_id.to_string(), used);
                Some((used, origin))
            },
            None => None,
        }
    }

    /// Gets or creates the session of a connection, once it is known whether the
    /// session could be restored from disk.
    ///
    /// A session that came up in the meantime wins over the restored one, and
    /// over a new one. A new session, and one whose actor is among the stopped
    /// ones, is to get the actor `fresh_actor`.
    ///
    /// Returns the connection, its session, and where that comes from.
    pub fn get_or_create_session(
        &mut self,
        connection_id: &str,
        stopped: &Vec<u64>,
        maybe_restored: Option<SessionHandle>,
        fresh_actor: u64,
        now: u128,
    ) -> (result: (String, SessionHandle, SessionOrigin))
        ensures
            result.0@ == connection_id@,
            result.1 == claimed_session(
                old(self)@,
                connection_id@,
                stopped@,
                maybe_restored,
                fresh_actor,
                now,
            ),
            result.2 == session_origin(old(self)@, connection_id@, stopped@, maybe_restored),
            final(self)@ == old(self)@.insert(connection_id@, result.1),
            final(self).sequences() == old(self).sequences(),
    {
        let conn_id = connection_id.to_string();
        if let Some((handle, origin)) = self.find_session(connection_id, stopped, fresh_actor, now) {
            return (conn_id, handle, origin);
        }
        match maybe_restored {
            Some(restored) => {
                self.sessions.insert(connection_id.to_string(), restored);
                (conn_id, restored, SessionOrigin::Restored)
            },
            None => {
                let handle = self.start_session(connection_id, fresh_actor, now);
                (conn_id, handle, SessionOrigin::Created)
            },
        }
    }

    /// The session with an id.
    pub fn session(&self, session_id: &str) -> (result: Result<SessionHandle, ToolError>)
        ensures
            match result {
                Ok(handle) => self@.contains_key(session_id@) && handle == self@[session_id@],
                Err(error) => !self@.contains_key(session_id@) && error.is_not_found(session_id@),
            },
    {
        match self.sessions.get(session_id) {
            Some(handle) => Ok(handle),
            None => Err(ToolError::SessionNotFound { session_id: session_id.to_string() }),
        }
    }

    /// How to get the state of a session: the actor to ask, and the command.
    pub fn get_session_state(&self, session_id: &str) -> (result: Result<
        (u64, SessionCommand),
        ToolError,
    >)
        ensures
            match result {
                Ok((actor, command)) => self@.contains_key(session_id@) && actor
                    == self@[session_id@].actor && command == SessionCommand::GetState,
                Err(error) => !self@.contains_key(session_id@) && error.is_not_found(session_id@),
            },
    {
        match self.session(session_id) {
            Ok(handle) => Ok((handle.actor, SessionCommand::GetState)),
            Err(error) => Err(error),
        }
    }

    /// How to clear a session, for starting fresh: the actor to ask, and the
    /// command.
    pub fn clear_session(&self, session_id: &str) -> (result: Result<
        (u64, SessionCommand),
        ToolError,
    >)
        ensures
            match result {
                Ok((actor, command)) => self@.contains_key(session_id@) && actor
                    == self@[session_id@].actor && command == SessionCommand::Clear,
                Err(error) => !self@.contains_key(session_id@) && error.is_not_found(session_id@),
            },
    {
        match self.session(session_id) {
            Ok(handle) => Ok((handle.actor, SessionCommand::Clear)),
            Err(error) => Err(error),
        }
    }

    /// When a session was created and when it was last used, on the monotonic
    /// clock.
    pub fn get_session_info(&self, session_id: &str) -> (result: Result<(u128, u128), ToolError>)
        ensures
            match result {
                Ok((created_at, last_activity)) => self@.contains_key(session_id@) && created_at
                    == self@[session_id@].created_at && last_activity
                    == self@[session_id@].last_activity,
                Err(error) => !self@.contains_key(session_id@) && error.is_not_found(session_id@),
            },
    {
        match self.session(session_id) {
            Ok(handle) => Ok((handle.created_at, handle.last_activity)),
            Err(error) => Err(error),
        }
    }

    /// All sessions, in whatever order.
    pub fn active_sessions(&self) -> (list: Vec<(String, SessionHandle)>)
        ensures
            crate::session_map::lists_entries(list@, self@),
    {
        self.sessions.list()
    }

    /// Cleans up inactive sessions. Those whose actor has stopped are dropped;
    /// those that nobody has used for `max_age` are dropped and handed out, to
    /// be persisted.
    pub fn cleanup_sessions(&mut self, now: u128, max_age: u128, closed: Vec<u64>) -> (expired: Vec<
        (String, SessionHandle),
    >)
        ensures
            ({
                let rule = cleanup_rule(closed, now, max_age);
                &&& lists_expired(expired@, old(self)@, rule)
                &&& final(self)@ == crate::session_map::kept_entries(old(self)@, rule)
                &&& final(self).sequences() == old(self).sequences()
            }),
    {
        let rule = KeepRule { closed, cutoff: go_back(now, max_age) };
        let list = self.sessions.list();
        let expired = expired_of(&list, &rule);
        proof {
            let sessions = self@;
            assert forall|key: Seq<char>| #[trigger]
                sessions.contains_key(key) && rule.expires(sessions[key]) implies exists|i: int|
                0 <= i < expired@.len() && (#[trigger] expired@[i]).0@ == key by {
                let at = choose|at: int| 0 <= at < list@.len() && (#[trigger] list@[at]).0@ == key;
                assert(rule.expires(list@[at].1));
            }
        }
        self.sessions.retain(&rule);
        expired
    }

    /// Notes what came of handing an expired session to the persistence
    /// channel. One that the full channel did not take goes back to the
    /// active sessions, unless its connection has a new session by now: the
    /// next cleanup, or the shutdown, takes it up again.
    pub fn note_queued(&mut self, session_id: String, handle: SessionHandle, outcome: QueueOutcome)
        ensures
            final(self)@ == with_noted(old(self)@, session_id@, handle, outcome),
            final(self).sequences() == old(self).sequences(),
    {
        match outcome {
            QueueOutcome::Full => {
                if self.sessions.get(session_id.as_str()).is_none() {
                    self.sessions.insert(session_id, handle);
                }
            },
            _ => {},
        }
    }

    /// A session as a shutdown persists it, when its actor gave its state and
    /// the session is still there.
    pub fn collect_session(
        &self,
        session_id: &str,
        answer: ActorAnswer,
        now: u128,
        wall_now: i128,
    ) -> (request: Option<PersistRequest>)
        ensures
            match (request, state_in(answer)) {
                (Some(found), Some(state)) => self@.contains_key(session_id@) && found@
                    == described(session_id@, self@[session_id@], state, now, wall_now),
                (Some(_), None) => false,
                (None, Some(_)) => !self@.contains_key(session_id@),
                (None, None) => true,
            },
    {
        match (received_state(answer), self.sessions.get(session_id)) {
            (Ok(snapshot), Some(handle)) => Some(
                describe_session(session_id.to_string(), handle, snapshot, now, wall_now),
            ),
            _ => None,
        }
    }

    /// Starts shutting down: every active session is to be persisted.
    pub fn shutdown(&self) -> (run: ShutdownRun)
        ensures
            run@ == crate::shutdown::shutdown_run(run@.ids),
            run@.wf(),
            names_sessions(run@.ids, self@),
    {
        let list = self.sessions.list();
        let mut ids: Vec<String> = Vec::new();
        let mut i: usize = 0;
        while i < list.len()
            invariant
                i <= list.len(),
                ids.len() == i,
                forall|j: int| 0 <= j < i ==> (#[trigger] ids[j])@ == list[j].0@,
            decreases list.len() - i,
        {
            ids.push(list[i].0.clone());
            i = i + 1;
        }
        let ghost views = ids@.map_values(|id: String| id@);
        proof {
            assert forall|id: Seq<char>| #[trigger]
                views.contains(id) <==> self@.contains_key(id) by {
                if views.contains(id) {
                    let j = choose|j: int| 0 <= j < views.len() && views[j] == id;
                    assert(list@[j].0@ == ids[j]@);
                }
                if self@.contains_key(id) {
                    let j = choose|j: int| 0 <= j < list@.len() && (#[trigger] list@[j]).0@ == id;
                    assert(views[j] == ids[j]@);
                }
            }
            assert forall|j: int, k: int|
                0 <= j < views.len() && 0 <= k < views.len() && j != k implies views[j]
                != views[k] by {
                assert(views[j] == list@[j].0@ && views[k] == list@[k].0@);
            }
        }
        ShutdownRun::new(ids)
    }

    /// Validates the arguments and makes a thought of them. The total is
    /// raised to the number of the thought where it is below it.
    pub fn validate_thought(args: SequentialThinkingArgs) -> (thought: ThoughtData)
        ensures
            thought == validated(args),
    {
        let total_thoughts: u32 = if args.total_thoughts >= args.thought_number {
            args.total_thoughts
        } else {
            args.thought_number
        };
        ThoughtData {
            thought: args.thought,
            thought_number: args.thought_number,
            total_thoughts,
            next_thought_needed: args.next_thought_needed,
            is_revision: args.is_revision,
            revises_thought: args.revises_thought,
            branch_from_thought: args.branch_from_thought,
            branch_id: args.branch_id,
            needs_more_thoughts: args.needs_more_thoughts,
        }
    }
}

/// Whether a session is among the first ones of a list.
spec fn is_listed(
    list: Seq<(String, SessionHandle)>,
    n: int,
    session: (String, SessionHandle),
) -> bool {
    exists|at: int|
        0 <= at < n && (#[trigger] list[at]).0@ == session.0@ && list[at].1 == session.1
}

/// The expired sessions of a list, in its order.
fn expired_of(list: &Vec<(String, SessionHandle)>, rule: &KeepRule) -> (expired: Vec<
    (String, SessionHandle),
>)
    requires
        forall|i: int, j: int|
            #![trigger list[i], list[j]]
            0 <= i < j < list.len() ==> list[i].0@ != list[j].0@,
    ensures
        forall|i: int|
            #![trigger expired[i]]
            0 <= i < expired.len() ==> rule.expires(expired[i].1) && is_listed(
                list@,
                list@.len() as int,
                expired[i],
            ),
        forall|i: int, j: int|
            #![trigger expired[i], expired[j]]
            0 <= i < j < expired.len() ==> expired[i].0@ != expired[j].0@,
        forall|at: int|
            0 <= at < list.len() && rule.expires((#[trigger] list[at]).1) ==> exists|i: int|
                0 <= i < expired.len() && (#[trigger] expired[i]).0@ == list[at].0@,
{
    let mut expired: Vec<(String, SessionHandle)> = Vec::new();
    let mut n: usize = 0;
    while n < list.len()
        invariant
            n <= list.len(),
            forall|i: int, j: int|
                #![trigger list[i], list[j]]
                0 <= i < j < list.len() ==> list[i].0@ != list[j].0@,
            forall|i: int|
                #![trigger expired[i]]
                0 <= i < expired.len() ==> rule.expires(expired[i].1) && is_listed(
                    list@,
                    n as int,
                    expired[i],
                ),
            forall|i: int, j: int|
                #![trigger expired[i], expired[j]]
                0 <= i < j < expired.len() ==> expired[i].0@ != expired[j].0@,
            forall|at: int|
                0 <= at < n && rule.expires((#[trigger] list[at]).1) ==> exists|i: int|
                    0 <= i < expired.len() && (#[trigger] expired[i]).0@ == list[at].0@,
        decreases list.len() - n,
    {
        let ghost before = expired@;
        if rule.is_expired(&list[n].1) {
            expired.push((list[n].0.clone(), list[n].1));
            assert(expired@[before.len() as int].0@ == list[n as int].0@);
            assert forall|at: int|
                0 <= at < n + 1 && rule.expires((#[trigger] list[at]).1) implies exists|i: int|
                0 <= i < expired.len() && (#[trigger] expired[i]).0@ == list[at].0@ by {
                if at < n {
                    let i = choose|i: int| 0 <= i < before.len() && (#[trigger] before[i]).0@
                        == list[at].0@;
                    assert(expired[i] == before[i]);
                }
            }
        }
        n = n + 1;
    }
    expired
}

/// A session stays the one it is: whoever asks for it again, with whatever
/// session restored or actor at hand, gets the session that is there; in the
/// same actor, as long as that runs, and else in a new one, as old as it was.
pub proof fn law_sessions_stay_what_they_are(
    sessions: Map<Seq<char>, SessionHandle>,
    id: Seq<char>,
    stopped: Seq<u64>,
    restored: Option<SessionHandle>,
    fresh_actor: u64,
    now: u128,
    stopped_later: Seq<u64>,
    restored_again: Option<SessionHandle>,
    other_actor: u64,
    later: u128,
)
    ensures
        ({
            let first = claimed_session(sessions, id, stopped, restored, fresh_actor, now);
            let after = sessions.insert(id, first);
            let again = claimed_session(
                after,
                id,
                stopped_later,
                restored_again,
                other_actor,
                later,
            );
            let origin = session_origin(after, id, stopped_later, restored_again);
            &&& again.created_at == first.created_at
            &&& again.last_activity == later
            &&& if stopped_later.contains(first.actor) {
                origin == SessionOrigin::Revived && again.actor == other_actor
            } else {
                origin == SessionOrigin::Existing && again.actor == first.actor
            }
        }),
{
}

/// A stopped actor is never handed out: a session whose actor has stopped goes
/// on in the new actor, as old as it was, and counts as used.
pub proof fn law_stopped_actors_are_not_handed_out(
    sessions: Map<Seq<char>, SessionHandle>,
    id: Seq<char>,
    stopped: Seq<u64>,
    restored: Option<SessionHandle>,
    fresh_actor: u64,
    now: u128,
)
    requires
        sessions.contains_key(id),
        stopped.contains(sessions[id].actor),
    ensures
        session_origin(sessions, id, stopped, restored) == SessionOrigin::Revived,
        claimed_session(sessions, id, stopped, restored, fresh_actor, now) == (SessionHandle {
            actor: fresh_actor,
            last_activity: now,
            ..sessions[id]
        }),
{
}

/// A session that could be restored is used before a new one is created, with
/// its age.
pub proof fn law_restored_sessions_are_used(
    sessions: Map<Seq<char>, SessionHandle>,
    id: Seq<char>,
    stopped: Seq<u64>,
    restored: SessionHandle,
    fresh_actor: u64,
    now: u128,
)
    requires
        !sessions.contains_key(id),
    ensures
        claimed_session(sessions, id, stopped, Some(restored), fresh_actor, now) == restored,
{
}

/// Different thought chains, of one connection or of different ones, have
/// different full session ids.
pub proof fn law_session_ids_are_distinct(a: Seq<char>, m: u64, b: Seq<char>, n: u64)
    requires
        full_session_id(a, m) == full_session_id(b, n),
    ensures
        a == b,
        m == n,
{
    reveal_strlit("_");
    let x = full_session_id(a, m);
    let y = full_session_id(b, n);
    let p = crate::string_utils::decimal(m as nat);
    let q = crate::string_utils::decimal(n as nat);
    crate::string_utils::lemma_decimal_digits(m as nat);
    crate::string_utils::lemma_decimal_digits(n as nat);
    let len = x.len() as int;
    assert(len == a.len() + 1 + p.len());
    assert(len == b.len() + 1 + q.len());
    if p.len() < q.len() {
        let at = len - 1 - p.len();
        assert(x[at] == '_');
        assert(y[at] == q[at - (len - q.len())]);
        assert(false);
    }
    if q.len() < p.len() {
        let at = len - 1 - q.len();
        assert(y[at] == '_');
        assert(x[at] == p[at - (len - p.len())]);
        assert(false);
    }
    assert forall|i: int| 0 <= i < p.len() implies p[i] == q[i] by {
        assert(x[a.len() + 1 + i] == p[i]);
        assert(y[b.len() + 1 + i] == q[i]);
    }
    assert(p =~= q);
    crate::string_utils::lemma_decimal_injective(m as nat, n as nat);
    assert forall|i: int| 0 <= i < a.len() implies a[i] == b[i] by {
        assert(x[i] == a[i]);
        assert(y[i] == b[i]);
    }
    assert(a =~= b);
}

/// What happens to the session of one connection leaves those of the others
/// alone.
pub proof fn law_sessions_are_isolated(
    sessions: Map<Seq<char>, SessionHandle>,
    connection: Seq<char>,
    handle: SessionHandle,
    other: Seq<char>,
)
    requires
        other != connection,
    ensures
        sessions.insert(connection, handle).contains_key(other) == sessions.contains_key(other),
        sessions.contains_key(other) ==> sessions.insert(connection, handle)[other]
            == sessions[other],
{
}

/// A cleanup forgets no session with a running actor: it stays, as it was, or
/// it is handed out to be persisted, and never both.
pub proof fn law_cleanup_forgets_no_session(
    sessions: Map<Seq<char>, SessionHandle>,
    rule: KeepRule,
    expired: Seq<(String, SessionHandle)>,
    id: Seq<char>,
)
    requires
        lists_expired(expired, sessions, rule),
        sessions.contains_key(id),
        rule.runs(sessions[id]),
    ensures
        ({
            let kept = crate::session_map::kept_entries(sessions, rule);
            let handed_out = exists|i: int|
                0 <= i < expired.len() && (#[trigger] expired[i]).0@ == id && expired[i].1
                    == sessions[id];
            &&& kept.contains_key(id) ==> kept[id] == sessions[id]
            &&& kept.contains_key(id) <==> !handed_out
        }),
{
    let kept = crate::session_map::kept_entries(sessions, rule);
    if rule.expires(sessions[id]) {
        let i = choose|i: int| 0 <= i < expired.len() && (#[trigger] expired[i]).0@ == id;
        assert(expired[i].1 == sessions[id]);
    }
}

/// A session that somebody used within the maximum age is kept, as long as its
/// actor runs.
pub proof fn law_used_sessions_stay_in_memory(
    sessions: Map<Seq<char>, SessionHandle>,
    closed: Vec<u64>,
    now: u128,
    max_age: u128,
    id: Seq<char>,
)
    requires
        sessions.contains_key(id),
        !closed@.contains(sessions[id].actor),
        max_age <= now <= sessions[id].last_activity + max_age,
    ensures
        ({
            let rule = cleanup_rule(closed, now, max_age);
            let kept = crate::session_map::kept_entries(sessions, rule);
            kept.contains_key(id) && kept[id] == sessions[id]
        }),
{
}

/// The total of a validated thought is never below its number, and is as the
/// arguments say where that already holds.
pub proof fn law_totals_cover_the_thought(args: SequentialThinkingArgs)
    ensures
        validated(args).total_thoughts >= validated(args).thought_number,
        args.total_thoughts >= args.thought_number ==> validated(args).total_thoughts
            == args.total_thoughts,
{
}

/// A session survives being idle: persisted when it expired and restored when
/// it is asked for again, it runs on in a new actor, as old as it was, plus the
/// time that went by in between. Its id is an accepted one, it has thoughts,
/// and the clocks reach back to its creation.
pub proof fn law_idle_sessions_survive(
    sessions_dir: crate::path::PathView,
    base: crate::path::PathView,
    session_id: Seq<char>,
    handle: SessionHandle,
    state: crate::types::StateView,
    saved: u128,
    wall_saved: i128,
    actor: u64,
    restored: u128,
    wall_restored: i128,
)
    requires
        crate::session_id::is_safe_id(session_id),
        crate::restore::has_thoughts(state),
        handle.created_at <= saved,
        wall_saved - (saved - handle.created_at) >= i128::MIN,
        wall_saved <= wall_restored,
        wall_restored - wall_saved + (saved - handle.created_at) <= restored,
    ensures
        ({
            let file = described(session_id, handle, state, saved, wall_saved);
            &&& file.state == state
            &&& crate::restore::full_restoration(
                sessions_dir,
                session_id,
                base,
                file,
                actor,
                restored,
                wall_restored,
            ) matches RestoreJob::Restored { handle: again, session_id: id } && id == session_id
                && again.actor == actor && again.last_activity == restored
                && crate::clock::elapsed(again.created_at, restored) == crate::clock::elapsed(
                handle.created_at,
                saved,
            ) + (wall_restored - wall_saved)
        }),
{
    let file = described(session_id, handle, state, saved, wall_saved);
    crate::clock::law_times_survive_a_restart(
        handle.created_at,
        saved,
        wall_saved,
        restored,
        wall_restored,
    );
    crate::restore::law_existing_sessions_are_restored(
        sessions_dir,
        session_id,
        base,
        file,
        actor,
        restored,
        wall_restored,
    );
}

/// Validating changes nothing but the total: every other field of the thought is
/// that of the arguments, and the total is the larger of the total and the number
/// that the arguments give.
pub proof fn law_validation_changes_only_the_total(args: SequentialThinkingArgs)
    ensures
        ({
            let thought = validated(args);
            &&& thought.thought == args.thought
            &&& thought.thought_number == args.thought_number
            &&& thought.next_thought_needed == args.next_thought_needed
            &&& thought.is_revision == args.is_revision
            &&& thought.revises_thought == args.revises_thought
            &&& thought.branch_from_thought == args.branch_from_thought
            &&& thought.branch_id == args.branch_id
            &&& thought.needs_more_thoughts == args.needs_more_thoughts
            &&& thought.total_thoughts >= args.total_thoughts
            &&& thought.total_thoughts >= args.thought_number
            &&& thought.total_thoughts == args.total_thoughts || thought.total_thoughts
                == args.thought_number
        }),
{
}

/// A persisted session carries its own id and state, and the times at which it
/// was created and last used: each is as long ago on the wall clock as on the
/// monotonic clock, whatever the age, as far as the wall clock reaches back.
pub proof fn law_persisted_sessions_carry_their_times(
    session_id: Seq<char>,
    handle: SessionHandle,
    state: crate::types::StateView,
    now: u128,
    wall_now: i128,
)
    ensures
        ({
            let saved = described(session_id, handle, state, now, wall_now);
            &&& saved.session_id == session_id
            &&& saved.state.history == state.history
            &&& saved.state.branches == state.branches
            &&& handle.last_activity <= now && wall_now - (now - handle.last_activity)
                >= i128::MIN ==> wall_now - saved.last_activity == now - handle.last_activity
            &&& handle.last_activity > now ==> saved.last_activity == wall_now
            &&& handle.created_at <= now && wall_now - (now - handle.created_at) >= i128::MIN
                ==> wall_now - saved.created_at == now - handle.created_at
            &&& handle.created_at > now ==> saved.created_at == wall_now
        }),
{
}

/// A session ages from its last use, in memory and on disk: once persisted, it is
/// deleted by a cleanup of the disk exactly when the time from its last use to the
/// saving, and from there to the cleanup, is longer than the configured age.
pub proof fn law_sessions_age_from_their_last_use(
    session_id: Seq<char>,
    handle: SessionHandle,
    state: crate::types::StateView,
    now: u128,
    wall_now: i128,
    layout: crate::disk_cleanup::StoreLayout,
    cleanup_after: u128,
    name: Option<Seq<char>>,
    wall_later: i128,
)
    requires
        handle.last_activity <= now,
        wall_now - (now - handle.last_activity) >= i128::MIN,
        wall_now <= wall_later,
    ensures
        ({
            let saved = described(session_id, handle, state, now, wall_now);
            let stamp = crate::disk_cleanup::StampView {
                session_id: saved.session_id,
                last_activity: saved.last_activity,
            };
            let verdict = crate::disk_cleanup::entry_check(layout, cleanup_after, name).step(
                crate::disk_cleanup::EntryEvent::Kind(Some(true)),
            ).step(
                crate::disk_cleanup::EntryEvent::Read {
                    read: crate::restore::SessionRead::Parsed(stamp),
                    wall_now: wall_later,
                },
            );
            let age = (now - handle.last_activity) + (wall_later - wall_now);
            &&& age > cleanup_after ==> verdict == (crate::disk_cleanup::EntryCheckView::Delete {
                session_id,
            })
            &&& age <= cleanup_after ==> verdict == crate::disk_cleanup::EntryCheckView::Keep
        }),
{
}

/// How a connection comes by its session: the one in memory goes on, in its actor
/// when that runs, and else in the new one, with its age; without one in memory
/// the restored one is taken as it is; without either a new one starts now.
pub proof fn law_sessions_are_come_by_in_order(
    sessions: Map<Seq<char>, SessionHandle>,
    id: Seq<char>,
    stopped: Seq<u64>,
    restored: Option<SessionHandle>,
    fresh_actor: u64,
    now: u128,
)
    ensures
        ({
            let session = claimed_session(sessions, id, stopped, restored, fresh_actor, now);
            let origin = session_origin(sessions, id, stopped, restored);
            if sessions.contains_key(id) {
                &&& session.created_at == sessions[id].created_at
                &&& session.last_activity == now
                &&& stopped.contains(sessions[id].actor) ==> session.actor == fresh_actor && origin
                    == SessionOrigin::Revived
                &&& !stopped.contains(sessions[id].actor) ==> session.actor == sessions[id].actor
                    && origin == SessionOrigin::Existing
            } else {
                match restored {
                    Some(handle) => session == handle && origin == SessionOrigin::Restored,
                    None => {
                        &&& session.actor == fresh_actor
                        &&& session.created_at == now
                        &&& session.last_activity == now
                        &&& origin == SessionOrigin::Created
                    },
                }
            }
        }),
        new_session(fresh_actor, now).actor == fresh_actor,
        new_session(fresh_actor, now).created_at == now,
        new_session(fresh_actor, now).last_activity == now,
{
}

/// A new actor starts with no thoughts in a new session, and with all that was
/// kept in a revived one; an existing or restored session gets no new actor.
pub proof fn law_actors_start_where_they_should(state: crate::types::StateView)
    ensures
        starting_state(SessionOrigin::Created, Some(state)) matches Some(start)
            && start.history.len() == 0 && start.branches.ids.len() == 0,
        starting_state(SessionOrigin::Created, None) matches Some(start) && start.history.len()
            == 0 && start.branches.ids.len() == 0,
        starting_state(SessionOrigin::Revived, Some(state)) == Some(state),
        starting_state(SessionOrigin::Revived, None) matches Some(start) && start.history.len()
            == 0 && start.branches.ids.len() == 0,
        starting_state(SessionOrigin::Existing, Some(state)) is None,
        starting_state(SessionOrigin::Restored, Some(state)) is None,
        starting_state(SessionOrigin::Existing, None) is None,
        starting_state(SessionOrigin::Restored, None) is None,
{
}

/// A cleanup goes by the actor and the time since the last use alone: a session
/// whose actor runs stays, as it was, as long as it was used within the maximum
/// age, or now when the clock does not reach back that far, and is handed out with
/// its key when it was not; one whose actor has stopped goes without being handed
/// out. What is handed out was there.
pub proof fn law_cleanups_go_by_the_time_since_the_last_use(
    sessions: Map<Seq<char>, SessionHandle>,
    closed: Vec<u64>,
    now: u128,
    max_age: u128,
    expired: Seq<(String, SessionHandle)>,
    id: Seq<char>,
)
    requires
        lists_expired(expired, sessions, cleanup_rule(closed, now, max_age)),
    ensures
        ({
            let kept = crate::session_map::kept_entries(
                sessions,
                cleanup_rule(closed, now, max_age),
            );
            let handed_out = exists|i: int|
                0 <= i < expired.len() && (#[trigger] expired[i]).0@ == id && expired[i].1
                    == sessions[id];
            let named = exists|i: int| 0 <= i < expired.len() && (#[trigger] expired[i]).0@ == id;
            if !sessions.contains_key(id) {
                !kept.contains_key(id) && !named
            } else if closed@.contains(sessions[id].actor) {
                !kept.contains_key(id) && !named
            } else if sessions[id].last_activity >= now || (max_age <= now && now
                - sessions[id].last_activity <= max_age) {
                kept.contains_key(id) && kept[id] == sessions[id] && !named
            } else {
                !kept.contains_key(id) && handed_out
            }
        }),
        forall|i: int, j: int|
            0 <= i < expired.len() && 0 <= j < expired.len() && (#[trigger] expired[i]).0@ == (
            #[trigger] expired[j]).0@ ==> i == j,
{
    let rule = cleanup_rule(closed, now, max_age);
    assert forall|i: int, j: int|
        0 <= i < expired.len() && 0 <= j < expired.len() && (#[trigger] expired[i]).0@ == (
        #[trigger] expired[j]).0@ implies i == j by {
        if i < j {
            assert(expired[i].0@ != expired[j].0@);
        }
        if j < i {
            assert(expired[j].0@ != expired[i].0@);
        }
    }
    if sessions.contains_key(id) && rule.expires(sessions[id]) {
        let i = choose|i: int| 0 <= i < expired.len() && (#[trigger] expired[i]).0@ == id;
        assert(expired[i].1 == sessions[id]);
    }
}

/// An expired session comes back to memory exactly when the channel was full and
/// its connection has no other session by then; no other session is touched.
pub proof fn law_sessions_come_back_when_the_channel_is_full(
    sessions: Map<Seq<char>, SessionHandle>,
    id: Seq<char>,
    handle: SessionHandle,
    outcome: QueueOutcome,
    other: Seq<char>,
)
    ensures
        ({
            let after = with_noted(sessions, id, handle, outcome);
            &&& sessions.contains_key(other) ==> after.contains_key(other) && after[other]
                == sessions[other]
            &&& !sessions.contains_key(id) ==> (after.contains_key(id) <==> outcome
                == QueueOutcome::Full)
            &&& !sessions.contains_key(id) && outcome == QueueOutcome::Full ==> after[id] == handle
            &&& other != id && !sessions.contains_key(other) ==> !after.contains_key(other)
        }),
{
}

/// A shutdown asks every session, and each of them once.
pub proof fn law_shutdowns_ask_every_session_once(
    ids: Seq<Seq<char>>,
    sessions: Map<Seq<char>, SessionHandle>,
    id: Seq<char>,
)
    requires
        names_sessions(ids, sessions),
    ensures
        sessions.contains_key(id) <==> exists|i: int| 0 <= i < ids.len() && #[trigger] ids[i] == id,
        forall|i: int, j: int|
            0 <= i < ids.len() && 0 <= j < ids.len() && #[trigger] ids[i] == #[trigger] ids[j]
                ==> i == j,
{
    assert(ids.contains(id) <==> sessions.contains_key(id));
}

/// The full id of a session is its connection, an underscore, and the number of
/// its thought chain.
pub proof fn law_full_ids_name_connection_and_chain(connection: Seq<char>, sequence: u64)
    ensures
        ({
            let id = full_session_id(connection, sequence);
            let digits = crate::string_utils::decimal(sequence as nat);
            &&& id.len() == connection.len() + 1 + digits.len()
            &&& id.take(connection.len() as int) == connection
            &&& id[connection.len() as int] == '_'
            &&& id.skip(connection.len() as int + 1) == digits
        }),
{
    reveal_strlit("_");
    let id = full_session_id(connection, sequence);
    let digits = crate::string_utils::decimal(sequence as nat);
    assert(id.take(connection.len() as int) =~= connection);
    assert(id.skip(connection.len() as int + 1) =~= digits);
}

/// The state in an answer is the one that the actor gave; any other answer has
/// none. A session that is not found is named in the text of the error.
pub proof fn law_answers_hold_the_state(
    snapshot: SessionStateSnapshot,
    response: SessionResponse,
    session_id: String,
)
    ensures
        state_in(ActorAnswer::Reply(SessionReply::State(snapshot))) matches Some(state)
            && state.history == snapshot.thought_history@ && state.branches == snapshot.branches@,
        state_in(ActorAnswer::Reply(SessionReply::Added(response))) is None,
        state_in(ActorAnswer::Reply(SessionReply::Cleared)) is None,
        state_in(ActorAnswer::Terminated) is None,
        state_in(ActorAnswer::Silent) is None,
        (ToolError::SessionNotFound { session_id }).text() == "Session not found: "@ + session_id@,
{
}

/// An error says what went wrong with the session.
pub proof fn law_errors_say_what_went_wrong(error: ToolError, id: Seq<char>)
    ensures
        ToolError::ActorTerminated.text() == "Session actor terminated"@,
        ToolError::NoState.text() == "Failed to receive state"@,
        ToolError::NotCleared.text() == "Failed to clear session"@,
        ToolError::NoResponse.text() == "Session actor failed to respond"@,
        error.is_not_found(id) ==> error.text() == "Session not found: "@ + id,
        error.is_not_found(id) <==> (error matches ToolError::SessionNotFound { session_id }
            && session_id@ == id),
{
}

/// A further session goes to the end of the list of expired ones when it expires,
/// and leaves the list as it is when it does not; a shutdown names it either way.
pub proof fn law_lists_grow_with_the_sessions(
    list: Seq<(String, SessionHandle)>,
    ids: Seq<Seq<char>>,
    sessions: Map<Seq<char>, SessionHandle>,
    rule: KeepRule,
    key: String,
    handle: SessionHandle,
)
    requires
        lists_expired(list, sessions, rule),
        names_sessions(ids, sessions),
        !sessions.contains_key(key@),
    ensures
        lists_expired(Seq::empty(), Map::empty(), rule),
        names_sessions(Seq::empty(), Map::empty()),
        rule.expires(handle) ==> lists_expired(
            list.push((key, handle)),
            sessions.insert(key@, handle),
            rule,
        ),
        !rule.expires(handle) ==> lists_expired(list, sessions.insert(key@, handle), rule),
        names_sessions(ids.push(key@), sessions.insert(key@, handle)),
{
    let longer = list.push((key, handle));
    let more = sessions.insert(key@, handle);
    let listed = if rule.expires(handle) {
        longer
    } else {
        list
    };
    assert(longer[list.len() as int].0@ == key@);
    assert forall|i: int|
        #![trigger listed[i]]
        0 <= i < listed.len() implies more.contains_key(listed[i].0@) && more[listed[i].0@]
        == listed[i].1 && rule.expires(listed[i].1) by {
        if i < list.len() {
            assert(listed[i] == list[i]);
        }
    }
    assert forall|i: int, j: int|
        #![trigger listed[i], listed[j]]
        0 <= i < j < listed.len() implies listed[i].0@ != listed[j].0@ by {
        assert(listed[i] == list[i]);
        if j < list.len() {
            assert(listed[j] == list[j]);
        }
    }
    assert forall|other: Seq<char>| #[trigger]
        more.contains_key(other) && rule.expires(more[other]) implies exists|i: int|
        0 <= i < listed.len() && (#[trigger] listed[i]).0@ == other by {
        if other != key@ {
            assert(sessions.contains_key(other) && rule.expires(sessions[other]));
            let i = choose|i: int| 0 <= i < list.len() && (#[trigger] list[i]).0@ == other;
            assert(listed[i] == list[i]);
        }
    }
    let named = ids.push(key@);
    assert forall|id: Seq<char>| #[trigger] named.contains(id) <==> more.contains_key(id) by {
        assert(ids.contains(id) <==> sessions.contains_key(id));
        if ids.contains(id) {
            let i = choose|i: int| 0 <= i < ids.len() && ids[i] == id;
            assert(named[i] == id);
        }
        if named.contains(id) && id != key@ {
            let i = choose|i: int| 0 <= i < named.len() && named[i] == id;
            assert(ids[i] == id);
        }
        assert(named[ids.len() as int] == key@);
    }
    assert(!ids.contains(key@)) by {
        assert(ids.contains(key@) <==> sessions.contains_key(key@));
    }
    assert(named.no_duplicates());
}

} // verus!
