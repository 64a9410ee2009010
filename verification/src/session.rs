//! Session actors.
//!
//! Each session has one actor, which owns the session's state and handles its
//! commands one after the other.

use crate::types::{
    clone_thoughts, SessionCommand, SessionResponse, SessionStateSnapshot, ThinkingState,
    ThoughtData,
};
use vstd::prelude::*;

verus! {

/// What a session actor answers to a command.
#[derive(Debug)]
pub enum SessionReply {
    /// To a new thought.
    Added(SessionResponse),
    /// To a question for the state.
    State(SessionStateSnapshot),
    /// To a request to clear the session.
    Cleared,
}

/// The state of a session after a command.
pub open spec fn state_after(
    state: crate::types::StateView,
    command: SessionCommand,
) -> crate::types::StateView {
    match command {
        SessionCommand::AddThought { thought } => state.with_thought(thought),
        SessionCommand::GetState => state,
        SessionCommand::Clear => crate::types::StateView::empty(),
    }
}

/// Whether an actor goes on after a command: it stops after the final thought
/// of a chain and after it was cleared.
pub open spec fn goes_on(command: SessionCommand) -> bool {
    match command {
        SessionCommand::AddThought { thought } => thought.next_thought_needed,
        SessionCommand::GetState => true,
        SessionCommand::Clear => false,
    }
}

/// Whether a response reports a thought and the state that it led to.
pub open spec fn response_reports(
    response: SessionResponse,
    thought: ThoughtData,
    state: crate::types::StateView,
) -> bool {
    &&& response.thought_number == thought.thought_number
    &&& response.total_thoughts == thought.total_thoughts
    &&& response.next_thought_needed == thought.next_thought_needed
    &&& response.branches@.map_values(|id: String| id@) == state.branches.ids
    &&& response.thought_history_length == state.history.len()
}

/// Whether a reply is the right one to a command, given the state after it.
pub open spec fn reply_fits(
    reply: SessionReply,
    command: SessionCommand,
    state: crate::types::StateView,
) -> bool {
    match command {
        SessionCommand::AddThought { thought } => reply matches SessionReply::Added(response)
            && response_reports(response, thought, state),
        SessionCommand::GetState => reply matches SessionReply::State(snapshot) && snapshot@ == state
            && snapshot.wf(),
        SessionCommand::Clear => reply is Cleared,
    }
}

/// A session actor.
#[derive(Debug)]
pub struct SessionActor {
    state: ThinkingState,
    running: bool,
}

impl SessionActor {
    /// The state that the actor owns.
    pub closed spec fn state(&self) -> crate::types::StateView {
        self.state@
    }

    /// Whether the actor still takes commands.
    pub closed spec fn running(&self) -> bool {
        self.running
    }

    /// The state is well formed.
    pub closed spec fn wf(&self) -> bool {
        self.state.wf()
    }

    /// Whether the actor still takes commands.
    pub fn is_running(&self) -> (running: bool)
        ensures
            running == self.running(),
    {
        self.running
    }

    /// Hands out the state that the actor owned: what was kept up to its final
    /// thought, or the empty state when the session was cleared.
    pub fn into_state(self) -> (state: ThinkingState)
        requires
            self.wf(),
        ensures
            state.wf(),
            state@ == self.state(),
    {
        self.state
    }

    /// Handles a command.
    pub fn handle(&mut self, command: SessionCommand) -> (reply: SessionReply)
        requires
            old(self).wf(),
            old(self).running(),
        ensures
            final(self).wf(),
            final(self).state() == state_after(old(self).state(), command),
            final(self).running() == goes_on(command),
            reply_fits(reply, command, final(self).state()),
    {
        match command {
            SessionCommand::AddThought { thought } => {
                let branch_clone: Option<(String, ThoughtData)> = match (
                    &thought.branch_from_thought,
                    &thought.branch_id,
                ) {
                    (Some(_), Some(branch_id)) => Some((branch_id.clone(), thought.clone())),
                    _ => None,
                };
                let thought_number: u32 = thought.thought_number;
                let total_thoughts: u32 = thought.total_thoughts;
                let next_thought_needed: bool = thought.next_thought_needed;
                self.state.thought_history.push(thought);
                if let Some((branch_id, thought_clone)) = branch_clone {
                    self.state.branches.add_thought(branch_id, thought_clone);
                }
                if !next_thought_needed {
                    self.running = false;
                }
                SessionReply::Added(
                    SessionResponse {
                        thought_number,
                        total_thoughts,
                        next_thought_needed,
                        branches: self.state.branches.ids(),
                        thought_history_length: self.state.thought_history.len(),
                    },
                )
            },
            SessionCommand::GetState => {
                SessionReply::State(
                    SessionStateSnapshot {
                        thought_history: clone_thoughts(&self.state.thought_history),
                        branches: self.state.branches.clone(),
                    },
                )
            },
            SessionCommand::Clear => {
                self.state.thought_history.clear();
                self.state.branches.clear();
                self.running = false;
                assert(self.state@ =~= crate::types::StateView::empty());
                SessionReply::Cleared
            },
        }
    }
}

/// Starts a session actor on a given state.
pub fn spawn_session_actor_with_state(initial_state: ThinkingState) -> (actor: SessionActor)
    requires
        initial_state.wf(),
    ensures
        actor.wf(),
        actor.running(),
        actor.state() == initial_state@,
{
    SessionActor { state: initial_state, running: true }
}

/// Starts a session actor on the empty state.
pub fn spawn_session_actor() -> (actor: SessionActor)
    ensures
        actor.wf(),
        actor.running(),
        actor.state() == crate::types::StateView::empty(),
{
    spawn_session_actor_with_state(ThinkingState::default())
}

/// The state of a session after a list of commands.
pub open spec fn state_after_all(
    state: crate::types::StateView,
    commands: Seq<SessionCommand>,
) -> crate::types::StateView
    decreases commands.len(),
{
    if commands.len() == 0 {
        state
    } else {
        state_after(state_after_all(state, commands.drop_last()), commands.last())
    }
}

/// The thoughts that a list of commands adds.
pub open spec fn added_thoughts(commands: Seq<SessionCommand>) -> Seq<ThoughtData>
    decreases commands.len(),
{
    if commands.len() == 0 {
        Seq::empty()
    } else {
        match commands.last() {
            SessionCommand::AddThought { thought } => added_thoughts(commands.drop_last()).push(
                thought,
            ),
            _ => added_thoughts(commands.drop_last()),
        }
    }
}

/// At every time the branches of a session hold exactly the thoughts of its
/// history that belong to them, in their order.
pub proof fn law_branches_follow_history(
    state: crate::types::StateView,
    commands: Seq<SessionCommand>,
)
    requires
        state.consistent(),
    ensures
        state_after_all(state, commands).consistent(),
    decreases commands.len(),
{
    if commands.len() > 0 {
        law_branches_follow_history(state, commands.drop_last());
        let before = state_after_all(state, commands.drop_last());
        match commands.last() {
            SessionCommand::AddThought { thought } => {
                crate::types::lemma_with_thought_consistent(before, thought);
            },
            _ => {
                law_new_sessions_are_consistent();
            },
        }
    }
}

/// A new session's branches are in step with its history.
pub proof fn law_new_sessions_are_consistent()
    ensures
        crate::types::StateView::empty().consistent(),
{
    let empty = crate::types::StateView::empty();
    assert forall|id: Seq<char>| #[trigger]
        empty.branches.of(id) == crate::types::branch_of(empty.history, id) by {
        assert(empty.branches.of(id) =~= Seq::<ThoughtData>::empty());
    }
}

/// As long as a session is not cleared, its history is what it was, followed
/// by the thoughts that were added, in their order: none is lost, changed or
/// reordered.
pub proof fn law_history_records_every_thought(
    state: crate::types::StateView,
    commands: Seq<SessionCommand>,
)
    requires
        forall|i: int| 0 <= i < commands.len() ==> !(#[trigger] commands[i] is Clear),
    ensures
        state_after_all(state, commands).history == state.history + added_thoughts(commands),
    decreases commands.len(),
{
    if commands.len() == 0 {
        assert(state.history + added_thoughts(commands) =~= state.history);
    } else {
        let rest = commands.drop_last();
        assert forall|i: int| 0 <= i < rest.len() implies !(#[trigger] rest[i] is Clear) by {
            assert(rest[i] == commands[i]);
        }
        law_history_records_every_thought(state, rest);
        assert(!(commands[commands.len() - 1] is Clear));
        assert(state_after_all(state, commands).history =~= state.history + added_thoughts(
            commands,
        ));
    }
}

/// Asking for the state changes nothing.
pub proof fn law_asking_changes_nothing(state: crate::types::StateView)
    ensures
        state_after(state, SessionCommand::GetState) == state,
        goes_on(SessionCommand::GetState),
{
}

/// A cleared session is as empty as a new one, and its actor has stopped.
pub proof fn law_clearing_starts_fresh(state: crate::types::StateView)
    ensures
        state_after(state, SessionCommand::Clear) == crate::types::StateView::empty(),
        !goes_on(SessionCommand::Clear),
{
}

/// A thought that says where it branches from and names its branch goes to the
/// end of the history and to the end of that branch, whatever else it says. The
/// branch is listed, a new one after the others, and no other branch changes.
pub proof fn law_branched_thoughts_go_to_their_branch(
    state: crate::types::StateView,
    thought: ThoughtData,
    id: String,
    other: Seq<char>,
)
    requires
        thought.branch_from_thought is Some,
        thought.branch_id == Some(id),
        other != id@,
    ensures
        ({
            let after = state_after(state, SessionCommand::AddThought { thought });
            let before = state.branches;
            &&& after.history == state.history + seq![thought]
            &&& after.branches.ids.contains(id@)
            &&& after.branches.thoughts.contains_key(id@)
            &&& after.branches.thoughts[id@].len() > 0
            &&& after.branches.thoughts[id@].last() == thought
            &&& before.thoughts.contains_key(id@) ==> after.branches.thoughts[id@].drop_last()
                == before.thoughts[id@]
            &&& !before.thoughts.contains_key(id@) ==> after.branches.thoughts[id@].len() == 1
            &&& after.branches.thoughts.contains_key(other) == before.thoughts.contains_key(other)
            &&& before.thoughts.contains_key(other) ==> after.branches.thoughts[other]
                == before.thoughts[other]
            &&& before.ids.contains(id@) ==> after.branches.ids == before.ids
            &&& !before.ids.contains(id@) ==> after.branches.ids == before.ids + seq![id@]
        }),
{
    let after = state_after(state, SessionCommand::AddThought { thought });
    assert(state.history.push(thought) =~= state.history + seq![thought]);
    assert(state.branches.ids.push(id@) =~= state.branches.ids + seq![id@]);
    if !state.branches.ids.contains(id@) {
        assert(after.branches.ids[state.branches.ids.len() as int] == id@);
    }
    if state.branches.thoughts.contains_key(id@) {
        assert(after.branches.thoughts[id@].drop_last() =~= state.branches.thoughts[id@]);
    }
}

/// A thought that does not say where it branches from, or does not name a branch,
/// goes to the end of the history and to no branch.
pub proof fn law_plain_thoughts_go_to_no_branch(
    state: crate::types::StateView,
    thought: ThoughtData,
)
    requires
        thought.branch_from_thought is None || thought.branch_id is None,
    ensures
        ({
            let after = state_after(state, SessionCommand::AddThought { thought });
            &&& after.history == state.history + seq![thought]
            &&& after.branches.ids == state.branches.ids
            &&& after.branches.thoughts == state.branches.thoughts
        }),
{
    assert(state.history.push(thought) =~= state.history + seq![thought]);
}

/// To a new session nothing was added, and after clearing nothing is left.
pub proof fn law_nothing_is_left_of_a_cleared_session(
    state: crate::types::StateView,
    id: Seq<char>,
)
    ensures
        ({
            let after = state_after(state, SessionCommand::Clear);
            &&& after.history.len() == 0
            &&& after.branches.ids.len() == 0
            &&& !after.branches.thoughts.contains_key(id)
        }),
        crate::types::StateView::empty().history.len() == 0,
        crate::types::StateView::empty().branches.ids.len() == 0,
        !crate::types::StateView::empty().branches.thoughts.contains_key(id),
{
}

/// An actor goes on exactly as long as further thoughts are said to be needed;
/// asking for the state does not stop it, and clearing does.
pub proof fn law_actors_stop_at_the_final_thought(thought: ThoughtData)
    ensures
        goes_on(SessionCommand::AddThought { thought }) <==> thought.next_thought_needed,
        goes_on(SessionCommand::GetState),
        !goes_on(SessionCommand::Clear),
{
}

/// The response to a thought repeats the number, the total and the question for
/// more of that thought, counts the thoughts of the session, and lists its
/// branches in their order.
pub proof fn law_responses_tell_of_thought_and_session(
    state: crate::types::StateView,
    thought: ThoughtData,
    reply: SessionReply,
)
    requires
        reply_fits(
            reply,
            SessionCommand::AddThought { thought },
            state_after(state, SessionCommand::AddThought { thought }),
        ),
    ensures
        reply matches SessionReply::Added(response) && {
            let ids = state_after(state, SessionCommand::AddThought { thought }).branches.ids;
            &&& response.thought_number == thought.thought_number
            &&& response.total_thoughts == thought.total_thoughts
            &&& response.next_thought_needed == thought.next_thought_needed
            &&& response.thought_history_length == state.history.len() + 1
            &&& response.branches.len() == ids.len()
            &&& forall|i: int| 0 <= i < ids.len() ==> (#[trigger] response.branches@[i])@ == ids[i]
        },
{
    match reply {
        SessionReply::Added(response) => {
            let ids = state_after(state, SessionCommand::AddThought { thought }).branches.ids;
            let listed = response.branches@.map_values(|id: String| id@);
            assert(listed == ids);
            assert forall|i: int| 0 <= i < ids.len() implies (#[trigger] response.branches@[i])@
                == ids[i] by {
                assert(listed[i] == response.branches@[i]@);
            }
        },
        _ => {},
    }
}

/// An actor that is asked for its state gives all of it, and one that is asked to
/// clear its session says that it did.
pub proof fn law_replies_answer_the_question(
    state: crate::types::StateView,
    to_asking: SessionReply,
    to_clearing: SessionReply,
)
    requires
        reply_fits(to_asking, SessionCommand::GetState, state),
        reply_fits(to_clearing, SessionCommand::Clear, crate::types::StateView::empty()),
    ensures
        to_asking matches SessionReply::State(snapshot) && snapshot.thought_history@
            == state.history && snapshot.branches@ == state.branches,
        to_clearing is Cleared,
{
}

} // verus!
