//! The calls of many sessions, one after the other, with cleanups and restarts in
//! between, and what each session sees of them.

use crate::disk_cleanup::EntryCheck;
use crate::restore::RestoreJob;
use crate::session::SessionReply;
use crate::session_map::KeepRule;
use crate::tool::{SequentialThinkingArgs, SessionOrigin};
use crate::trait_impl::Execution;
use crate::types::{SessionCommand, SessionHandle, ThoughtData};
use vstd::prelude::*;

verus! {

/// An actor: the state that it owns, or owned when it stopped, and whether it
/// runs.
#[verifier::ext_equal]
pub struct ActorView {
    pub state: crate::types::StateView,
    pub running: bool,
}

/// The sessions in memory and those in the store, by their keys, and all actors,
/// by their numbers.
#[verifier::ext_equal]
pub struct World {
    pub sessions: Map<Seq<char>, SessionHandle>,
    pub actors: Map<u64, ActorView>,
    pub stored: Map<Seq<char>, crate::types::SessionFileView>,
}

/// What is asked of a session.
pub enum Asked {
    /// To take a thought, the first of a chain or not.
    Think { thought: ThoughtData, starts_chain: bool },
    /// For its state.
    Look,
    /// To be cleared.
    Clear,
}

/// What the outside does in the course of a call: the times on the clocks;
/// whether a stored session can be read and its actor responds; and whether the
/// deletion of a stored session, when there is one, is carried out.
pub struct Outside {
    pub now: u128,
    pub wall_now: i128,
    pub readable: bool,
    pub deletes: bool,
}

/// A call: what is asked of which session, what the outside does, and what is at
/// hand: a list of the actors that have stopped, and numbers for a new actor and
/// for a restored one.
pub struct Call {
    pub key: Seq<char>,
    pub asked: Asked,
    pub outside: Outside,
    pub stopped: Seq<u64>,
    pub fresh_actor: u64,
    pub restored_actor: u64,
}

/// What became of saving an expired session.
pub enum Saving {
    /// It is in the store.
    Stored,
    /// The channel to the store was full.
    Full,
    /// It could not be saved.
    Lost,
}

/// What happens in the world.
pub enum Step {
    /// A call.
    Call(Call),
    /// A cleanup of the sessions in memory, and what became of saving each.
    Cleanup { rule: KeepRule, now: u128, wall_now: i128, outcomes: Map<Seq<char>, Saving> },
    /// A cleanup of the store, and which deletions are carried out.
    DiskCleanup { cleanup_after: u128, wall_now: i128, deletes: Set<Seq<char>> },
    /// A shutdown and a new start, and which sessions could be saved.
    Restart { now: u128, wall_now: i128, saved: Set<Seq<char>> },
}

/// What a call gives back.
#[verifier::ext_equal]
pub enum Answer {
    /// There is no such session.
    NotFound,
    /// The actor of the session has stopped.
    Terminated,
    /// The thought was added: the branches of the session, and the length of its
    /// history.
    Added { thought: ThoughtData, branches: Seq<Seq<char>>, history_length: nat },
    /// The state.
    State(crate::types::StateView),
    /// The session was cleared.
    Cleared,
}

/// What a restoration of a stored session gives: the session, in an actor.
pub open spec fn restored_handle(
    key: Seq<char>,
    file: crate::types::SessionFileView,
    actor: u64,
    outside: Outside,
) -> Option<SessionHandle> {
    if outside.readable && crate::session_id::is_safe_id(key) && crate::restore::has_thoughts(
        file.state,
    ) && file.created_at <= outside.wall_now {
        Some(
            SessionHandle {
                actor,
                created_at: crate::clock::back(
                    outside.now,
                    (outside.wall_now - file.created_at) as u128,
                ),
                last_activity: outside.now,
            },
        )
    } else {
        None
    }
}

/// Whether a session of the store is deleted by a cleanup for its age.
pub open spec fn is_outdated(
    file: crate::types::SessionFileView,
    cleanup_after: u128,
    wall_now: i128,
) -> bool {
    crate::disk_cleanup::aged_entry(
        crate::disk_cleanup::StampView {
            session_id: file.session_id,
            last_activity: file.last_activity,
        },
        cleanup_after,
        wall_now,
    ) is Delete
}

/// The actor after a command.
pub open spec fn actor_after(state: crate::types::StateView, command: SessionCommand) -> ActorView {
    ActorView {
        state: crate::session::state_after(state, command),
        running: crate::session::goes_on(command),
    }
}

/// The answer to a thought, given the state that it led to.
pub open spec fn added(thought: ThoughtData, state: crate::types::StateView) -> Answer {
    Answer::Added { thought, branches: state.branches.ids, history_length: state.history.len() }
}

impl World {
    /// No sessions.
    pub open spec fn empty() -> World {
        World { sessions: Map::empty(), actors: Map::empty(), stored: Map::empty() }
    }

    /// Every session has an actor, and no two sessions share one.
    pub open spec fn wf(self) -> bool {
        &&& forall|key: Seq<char>| #[trigger]
            self.sessions.contains_key(key) ==> self.actors.contains_key(self.sessions[key].actor)
        &&& forall|a: Seq<char>, b: Seq<char>|
            #![trigger self.sessions.contains_key(a), self.sessions.contains_key(b)]
            self.sessions.contains_key(a) && self.sessions.contains_key(b) && a != b
                ==> self.sessions[a].actor != self.sessions[b].actor
    }

    /// Whether a list is that of the stopped actors.
    pub open spec fn lists_stopped(self, list: Seq<u64>) -> bool {
        forall|actor: u64| #[trigger]
            self.actors.contains_key(actor) ==> (list.contains(actor)
                <==> !self.actors[actor].running)
    }

    /// Whether a step can be made: new actors are new, and lists of stopped actors
    /// are right.
    pub open spec fn can_step(self, step: Step) -> bool {
        match step {
            Step::Call(call) => {
                &&& !self.actors.contains_key(call.fresh_actor)
                &&& !self.actors.contains_key(call.restored_actor)
                &&& self.lists_stopped(call.stopped)
            },
            Step::Cleanup { rule, .. } => self.lists_stopped(rule.closed@),
            _ => true,
        }
    }

    /// The actor of a session in memory.
    pub open spec fn actor_of(self, key: Seq<char>) -> ActorView {
        self.actors[self.sessions[key].actor]
    }

    /// The session that is restored for a call: one that is in the store, and not
    /// in memory.
    pub open spec fn restored(self, call: Call) -> Option<SessionHandle> {
        if !self.sessions.contains_key(call.key) && self.stored.contains_key(call.key) {
            restored_handle(call.key, self.stored[call.key], call.restored_actor, call.outside)
        } else {
            None
        }
    }

    /// The session of a thought, and where it comes from.
    pub open spec fn thought_session(self, call: Call, starts_chain: bool) -> (
        SessionHandle,
        SessionOrigin,
    ) {
        crate::trait_impl::call_session(
            self.sessions,
            call.key,
            starts_chain,
            call.stopped,
            self.restored(call),
            call.fresh_actor,
            call.outside.now,
        )
    }

    /// The state on which the actor of a thought goes on: the one in the store of a
    /// restored session, the one of the running actor, or the one on which a new
    /// actor starts.
    pub open spec fn state_at_hand(self, call: Call, origin: SessionOrigin)
        -> crate::types::StateView {
        match origin {
            SessionOrigin::Restored => self.stored[call.key].state,
            SessionOrigin::Existing => self.actor_of(call.key).state,
            _ => crate::tool::starting_state(origin, Some(self.actor_of(call.key).state))->0,
        }
    }

    /// What a call gives back.
    pub open spec fn answer(self, call: Call) -> Answer {
        match call.asked {
            Asked::Think { thought, starts_chain } => {
                let (handle, origin) = self.thought_session(call, starts_chain);
                added(
                    thought,
                    crate::session::state_after(
                        self.state_at_hand(call, origin),
                        SessionCommand::AddThought { thought },
                    ),
                )
            },
            _ => if !self.sessions.contains_key(call.key) {
                Answer::NotFound
            } else if !self.actor_of(call.key).running {
                Answer::Terminated
            } else if call.asked is Look {
                Answer::State(self.actor_of(call.key).state)
            } else {
                Answer::Cleared
            },
        }
    }

    /// The world after a call.
    pub open spec fn after_call(self, call: Call) -> World {
        match call.asked {
            Asked::Think { thought, starts_chain } => {
                let (handle, origin) = self.thought_session(call, starts_chain);
                World {
                    sessions: self.sessions.insert(call.key, handle),
                    actors: self.actors.insert(
                        handle.actor,
                        actor_after(
                            self.state_at_hand(call, origin),
                            SessionCommand::AddThought { thought },
                        ),
                    ),
                    stored: if call.outside.deletes && (starts_chain || origin is Restored) {
                        self.stored.remove(call.key)
                    } else {
                        self.stored
                    },
                }
            },
            Asked::Look => self,
            Asked::Clear => if self.answer(call) is Cleared {
                World {
                    actors: self.actors.insert(
                        self.sessions[call.key].actor,
                        actor_after(self.actor_of(call.key).state, SessionCommand::Clear),
                    ),
                    ..self
                }
            } else {
                self
            },
        }
    }

    /// Whether a step saves a session in memory to the store.
    pub open spec fn saves(self, step: Step, key: Seq<char>) -> bool {
        &&& self.sessions.contains_key(key)
        &&& crate::session_id::is_safe_id(key)
        &&& match step {
            Step::Call(call) => false,
            Step::Cleanup { rule, now, wall_now, outcomes } => rule.expires(self.sessions[key])
                && outcomes[key] is Stored,
            Step::DiskCleanup { .. } => false,
            Step::Restart { now, wall_now, saved } => self.actor_of(key).running
                && saved.contains(key),
        }
    }

    /// A session as it is saved.
    pub open spec fn saved_file(self, key: Seq<char>, now: u128, wall_now: i128)
        -> crate::types::SessionFileView {
        crate::tool::described(
            key,
            self.sessions[key],
            self.actor_of(key).state,
            now,
            wall_now,
        )
    }

    /// The store after a step that saves sessions.
    pub open spec fn with_saved(self, step: Step, now: u128, wall_now: i128) -> Map<
        Seq<char>,
        crate::types::SessionFileView,
    > {
        self.stored.union_prefer_right(
            Map::new(
                |key: Seq<char>| self.saves(step, key),
                |key: Seq<char>| self.saved_file(key, now, wall_now),
            ),
        )
    }

    /// The world after a step.
    pub open spec fn step(self, step: Step) -> World {
        match step {
            Step::Call(call) => self.after_call(call),
            Step::Cleanup { rule, now, wall_now, outcomes } => World {
                sessions: crate::session_map::kept_entries(
                    self.sessions,
                    rule,
                ).union_prefer_right(
                    Map::new(
                        |key: Seq<char>|
                            self.sessions.contains_key(key) && rule.expires(self.sessions[key])
                                && outcomes[key] is Full,
                        |key: Seq<char>| self.sessions[key],
                    ),
                ),
                stored: self.with_saved(step, now, wall_now),
                ..self
            },
            Step::DiskCleanup { cleanup_after, wall_now, deletes } => World {
                stored: self.stored.restrict(
                    Set::new(
                        |key: Seq<char>|
                            !(deletes.contains(key) && is_outdated(
                                self.stored[key],
                                cleanup_after,
                                wall_now,
                            )),
                    ),
                ),
                ..self
            },
            Step::Restart { now, wall_now, saved } => World {
                stored: self.with_saved(step, now, wall_now),
                ..World::empty()
            },
        }
    }

    /// The world after a list of steps.
    pub open spec fn run(self, steps: Seq<Step>) -> World
        decreases steps.len(),
    {
        if steps.len() == 0 {
            self
        } else {
            self.run(steps.drop_last()).step(steps.last())
        }
    }

    /// Whether a list of steps can be made, one after the other.
    pub open spec fn can_run(self, steps: Seq<Step>) -> bool
        decreases steps.len(),
    {
        steps.len() > 0 ==> {
            &&& self.can_run(steps.drop_last())
            &&& self.run(steps.drop_last()).can_step(steps.last())
        }
    }

    /// What there is of a session.
    pub open spec fn own(self, key: Seq<char>) -> Own {
        Own {
            memory: if self.sessions.contains_key(key) {
                Some(
                    InMemory {
                        created_at: self.sessions[key].created_at,
                        last_activity: self.sessions[key].last_activity,
                        actor: self.actor_of(key),
                    },
                )
            } else {
                None
            },
            stored: if self.stored.contains_key(key) {
                Some(self.stored[key])
            } else {
                None
            },
        }
    }
}

/// A session in memory.
#[verifier::ext_equal]
pub struct InMemory {
    pub created_at: u128,
    pub last_activity: u128,
    pub actor: ActorView,
}

/// What there is of a session, in memory and in the store.
#[verifier::ext_equal]
pub struct Own {
    pub memory: Option<InMemory>,
    pub stored: Option<crate::types::SessionFileView>,
}

/// What a session sees of a step.
pub enum Seen {
    Asked { asked: Asked, outside: Outside },
    Cleanup { cutoff: u128, now: u128, wall_now: i128, outcome: Saving },
    DiskCleanup { cleanup_after: u128, wall_now: i128, deletes: bool },
    Restart { now: u128, wall_now: i128, saved: bool },
}

/// What a session sees of a step: nothing of the calls for others.
pub open spec fn seen(step: Step, key: Seq<char>) -> Option<Seen> {
    match step {
        Step::Call(call) => if call.key == key {
            Some(Seen::Asked { asked: call.asked, outside: call.outside })
        } else {
            None
        },
        Step::Cleanup { rule, now, wall_now, outcomes } => Some(
            Seen::Cleanup { cutoff: rule.cutoff, now, wall_now, outcome: outcomes[key] },
        ),
        Step::DiskCleanup { cleanup_after, wall_now, deletes } => Some(
            Seen::DiskCleanup { cleanup_after, wall_now, deletes: deletes.contains(key) },
        ),
        Step::Restart { now, wall_now, saved } => Some(
            Seen::Restart { now, wall_now, saved: saved.contains(key) },
        ),
    }
}

/// What a session sees of a list of steps.
pub open spec fn all_seen(steps: Seq<Step>, key: Seq<char>) -> Seq<Seen>
    decreases steps.len(),
{
    if steps.len() == 0 {
        Seq::empty()
    } else {
        match seen(steps.last(), key) {
            Some(last) => all_seen(steps.drop_last(), key).push(last),
            None => all_seen(steps.drop_last(), key),
        }
    }
}

/// What the calls for one session gave back in the course of a list of steps.
pub open spec fn answers_for(world: World, steps: Seq<Step>, key: Seq<char>) -> Seq<Answer>
    decreases steps.len(),
{
    if steps.len() == 0 {
        Seq::empty()
    } else {
        let rest = steps.drop_last();
        match steps.last() {
            Step::Call(call) => if call.key == key {
                answers_for(world, rest, key).push(world.run(rest).answer(call))
            } else {
                answers_for(world, rest, key)
            },
            _ => answers_for(world, rest, key),
        }
    }
}

impl Own {
    /// The session that is restored from the store for a call.
    pub open spec fn restored(self, key: Seq<char>, outside: Outside) -> Option<SessionHandle> {
        match (self.memory, self.stored) {
            (None, Some(file)) => restored_handle(key, file, 0, outside),
            _ => None,
        }
    }

    /// The state on which a session by itself takes a thought.
    pub open spec fn state(self, key: Seq<char>, starts_chain: bool, outside: Outside)
        -> crate::types::StateView {
        if starts_chain {
            crate::types::StateView::empty()
        } else {
            match self.memory {
                Some(session) => session.actor.state,
                None => if self.restored(key, outside) is Some {
                    self.stored->0.state
                } else {
                    crate::types::StateView::empty()
                },
            }
        }
    }

    /// When a session by itself, that takes a thought, was created.
    pub open spec fn created_at(self, key: Seq<char>, starts_chain: bool, outside: Outside) -> u128 {
        if starts_chain {
            outside.now
        } else {
            match self.memory {
                Some(session) => session.created_at,
                None => match self.restored(key, outside) {
                    Some(handle) => handle.created_at,
                    None => outside.now,
                },
            }
        }
    }

    /// What a session by itself answers.
    pub open spec fn answer(self, key: Seq<char>, asked: Asked, outside: Outside) -> Answer {
        match (asked, self.memory) {
            (Asked::Think { thought, starts_chain }, _) => added(
                thought,
                crate::session::state_after(
                    self.state(key, starts_chain, outside),
                    SessionCommand::AddThought { thought },
                ),
            ),
            (_, None) => Answer::NotFound,
            (_, Some(session)) => if !session.actor.running {
                Answer::Terminated
            } else if asked is Look {
                Answer::State(session.actor.state)
            } else {
                Answer::Cleared
            },
        }
    }

    /// A session by itself after something was asked of it.
    pub open spec fn after_asked(self, key: Seq<char>, asked: Asked, outside: Outside) -> Own {
        match asked {
            Asked::Think { thought, starts_chain } => Own {
                memory: Some(
                    InMemory {
                        created_at: self.created_at(key, starts_chain, outside),
                        last_activity: outside.now,
                        actor: actor_after(
                            self.state(key, starts_chain, outside),
                            SessionCommand::AddThought { thought },
                        ),
                    },
                ),
                stored: if outside.deletes && (starts_chain || self.restored(
                    key,
                    outside,
                ) is Some) {
                    None
                } else {
                    self.stored
                },
            },
            Asked::Look => self,
            Asked::Clear => match self.memory {
                Some(session) => if session.actor.running {
                    Own {
                        memory: Some(
                            InMemory {
                                actor: actor_after(session.actor.state, SessionCommand::Clear),
                                ..session
                            },
                        ),
                        ..self
                    }
                } else {
                    self
                },
                None => self,
            },
        }
    }

    /// The file as which a session by itself is saved.
    pub open spec fn saved_file(self, key: Seq<char>, now: u128, wall_now: i128)
        -> crate::types::SessionFileView {
        let session = self.memory->0;
        crate::tool::described(
            key,
            SessionHandle {
                actor: 0,
                created_at: session.created_at,
                last_activity: session.last_activity,
            },
            session.actor.state,
            now,
            wall_now,
        )
    }

    /// A session by itself after a step, as it sees it.
    pub open spec fn step(self, key: Seq<char>, seen: Seen) -> Own {
        let safe = crate::session_id::is_safe_id(key);
        match seen {
            Seen::Asked { asked, outside } => self.after_asked(key, asked, outside),
            Seen::Cleanup { cutoff, now, wall_now, outcome } => match self.memory {
                None => self,
                Some(session) => if !session.actor.running {
                    Own { memory: None, ..self }
                } else if session.last_activity >= cutoff || outcome is Full {
                    self
                } else if outcome is Stored && safe {
                    Own { memory: None, stored: Some(self.saved_file(key, now, wall_now)) }
                } else {
                    Own { memory: None, ..self }
                },
            },
            Seen::DiskCleanup { cleanup_after, wall_now, deletes } => match self.stored {
                Some(file) => if deletes && is_outdated(file, cleanup_after, wall_now) {
                    Own { stored: None, ..self }
                } else {
                    self
                },
                None => self,
            },
            Seen::Restart { now, wall_now, saved } => match self.memory {
                Some(session) => if session.actor.running && saved && safe {
                    Own { memory: None, stored: Some(self.saved_file(key, now, wall_now)) }
                } else {
                    Own { memory: None, ..self }
                },
                None => self,
            },
        }
    }

    /// A session by itself after a list of steps, as it sees them.
    pub open spec fn run(self, key: Seq<char>, all: Seq<Seen>) -> Own
        decreases all.len(),
    {
        if all.len() == 0 {
            self
        } else {
            self.run(key, all.drop_last()).step(key, all.last())
        }
    }

    /// What a session by itself answers in the course of a list of steps.
    pub open spec fn answers(self, key: Seq<char>, all: Seq<Seen>) -> Seq<Answer>
        decreases all.len(),
    {
        if all.len() == 0 {
            Seq::empty()
        } else {
            let rest = all.drop_last();
            match all.last() {
                Seen::Asked { asked, outside } => self.answers(key, rest).push(
                    self.run(key, rest).answer(key, asked, outside),
                ),
                _ => self.answers(key, rest),
            }
        }
    }
}

/// A call touches its own session only, and as that session by itself says.
proof fn lemma_call(world: World, call: Call, key: Seq<char>)
    requires
        world.wf(),
        world.can_step(Step::Call(call)),
    ensures
        world.after_call(call).wf(),
        call.key == key ==> world.answer(call) == world.own(key).answer(
            key,
            call.asked,
            call.outside,
        ) && world.after_call(call).own(key) == world.own(key).after_asked(
            key,
            call.asked,
            call.outside,
        ),
        call.key != key ==> world.after_call(call).own(key) == world.own(key),
{
    let own = call.key;
    if world.sessions.contains_key(own) {
        assert(world.actors.contains_key(world.sessions[own].actor));
    }
    if world.sessions.contains_key(key) {
        assert(world.actors.contains_key(world.sessions[key].actor));
    }
    let after = world.after_call(call);
    assert forall|other: Seq<char>| #[trigger]
        after.sessions.contains_key(other) implies after.actors.contains_key(
        after.sessions[other].actor,
    ) by {
        if other != own {
            assert(world.sessions.contains_key(other));
        }
    }
    assert forall|a: Seq<char>, b: Seq<char>|
        #![trigger after.sessions.contains_key(a), after.sessions.contains_key(b)]
        after.sessions.contains_key(a) && after.sessions.contains_key(b) && a
            != b implies after.sessions[a].actor != after.sessions[b].actor by {
        if a != own {
            assert(world.sessions.contains_key(a));
            assert(world.actors.contains_key(world.sessions[a].actor));
        }
        if b != own {
            assert(world.sessions.contains_key(b));
            assert(world.actors.contains_key(world.sessions[b].actor));
        }
    }
}

/// A step does to a session what that session by itself says.
proof fn lemma_step(world: World, step: Step, key: Seq<char>)
    requires
        world.wf(),
        world.can_step(step),
    ensures
        world.step(step).wf(),
        world.step(step).own(key) == (match seen(step, key) {
            Some(part) => world.own(key).step(key, part),
            None => world.own(key),
        }),
{
    match step {
        Step::Call(call) => {
            lemma_call(world, call, key);
        },
        _ => {
            if world.sessions.contains_key(key) {
                assert(world.actors.contains_key(world.sessions[key].actor));
            }
            let after = world.step(step);
            assert forall|other: Seq<char>| #[trigger]
                after.sessions.contains_key(other) implies world.sessions.contains_key(other)
                && after.sessions[other] == world.sessions[other] by {}
            assert(after.wf());
        },
    }
}

/// Among all steps a session fares as by itself.
proof fn lemma_steps(world: World, steps: Seq<Step>, key: Seq<char>)
    requires
        world.wf(),
        world.can_run(steps),
    ensures
        world.run(steps).wf(),
        world.run(steps).own(key) == world.own(key).run(key, all_seen(steps, key)),
        answers_for(world, steps, key) == world.own(key).answers(key, all_seen(steps, key)),
    decreases steps.len(),
{
    if steps.len() > 0 {
        let rest = steps.drop_last();
        lemma_steps(world, rest, key);
        lemma_step(world.run(rest), steps.last(), key);
        if seen(steps.last(), key) is Some {
            assert(all_seen(steps, key).drop_last() =~= all_seen(rest, key));
        }
        match steps.last() {
            Step::Call(call) => {
                lemma_call(world.run(rest), call, key);
            },
            _ => {},
        }
    }
}

/// Sessions are isolated: in two runs in which a session sees the same, it gives
/// the same answers, and comes to the same, in memory and in the store, whatever
/// the other sessions are asked, and whichever actors are at hand. A session sees
/// what is asked of it, and, of cleanups and restarts, the times and what became
/// of itself. No thought, branch or count of another session ever shows.
pub proof fn law_sessions_do_not_see_each_other(
    first: World,
    steps: Seq<Step>,
    second: World,
    other_steps: Seq<Step>,
    key: Seq<char>,
)
    requires
        first.wf(),
        second.wf(),
        first.can_run(steps),
        second.can_run(other_steps),
        first.own(key) == second.own(key),
        all_seen(steps, key) == all_seen(other_steps, key),
    ensures
        answers_for(first, steps, key) == answers_for(second, other_steps, key),
        first.run(steps).own(key) == second.run(other_steps).own(key),
{
    lemma_steps(first, steps, key);
    lemma_steps(second, other_steps, key);
}

/// The world without sessions is a good one to start in.
pub proof fn law_an_empty_world_is_well_formed()
    ensures
        World::empty().wf(),
{
}

/// A thought is always taken, and lengthens the history of its session by one,
/// also after the final thought of a chain; only the first thought of a chain
/// starts with an empty history.
pub proof fn law_thoughts_are_taken_after_the_end(
    world: World,
    call: Call,
    thought: ThoughtData,
    state: crate::types::StateView,
    running: bool,
)
    requires
        world.wf(),
        world.can_step(Step::Call(call)),
        world.sessions.contains_key(call.key),
        world.actor_of(call.key) == (ActorView { state, running }),
        call.asked == (Asked::Think { thought, starts_chain: false }),
    ensures
        world.answer(call) == (Answer::Added {
            thought,
            branches: state.with_thought(thought).branches.ids,
            history_length: state.history.len() + 1,
        }),
        world.after_call(call).sessions.contains_key(call.key),
        world.after_call(call).actor_of(call.key) == (ActorView {
            state: state.with_thought(thought),
            running: thought.next_thought_needed,
        }),
{
    lemma_call(world, call, call.key);
    assert(world.after_call(call).own(call.key).memory is Some);
}

/// A session that was cleared starts fresh under its key: the next thought is
/// taken, and is the only one.
pub proof fn law_cleared_sessions_start_fresh(
    world: World,
    clearing: Call,
    call: Call,
    thought: ThoughtData,
    starts_chain: bool,
)
    requires
        world.wf(),
        world.can_step(Step::Call(clearing)),
        clearing.asked is Clear,
        world.answer(clearing) is Cleared,
        world.after_call(clearing).can_step(Step::Call(call)),
        call.key == clearing.key,
        call.asked == (Asked::Think { thought, starts_chain }),
    ensures
        world.after_call(clearing).answer(call) == (Answer::Added {
            thought,
            branches: crate::types::StateView::empty().with_thought(thought).branches.ids,
            history_length: 1,
        }),
{
    lemma_call(world, clearing, clearing.key);
    lemma_call(world.after_call(clearing), call, call.key);
}

/// The first thought of a chain starts with an empty history, whatever its
/// connection had before, in memory or in the store.
pub proof fn law_first_thoughts_start_fresh(world: World, call: Call, thought: ThoughtData)
    requires
        world.wf(),
        world.can_step(Step::Call(call)),
        call.asked == (Asked::Think { thought, starts_chain: true }),
    ensures
        world.answer(call) == (Answer::Added {
            thought,
            branches: crate::types::StateView::empty().with_thought(thought).branches.ids,
            history_length: 1,
        }),
        call.outside.deletes ==> world.after_call(call).own(call.key).stored is None,
{
    lemma_call(world, call, call.key);
}

/// What is saved comes back: after a cleanup that saved the idle session of a
/// connection, or after a restart that did, the next thought of that connection,
/// whatever its number but the first, and in whatever tool, goes on with the
/// session as it was. It has thoughts, and the wall clock did not go back.
pub proof fn law_saved_sessions_go_on(
    connection: Seq<char>,
    first: Execution,
    first_args: SequentialThinkingArgs,
    first_before: crate::sequence_manager::SequenceView,
    first_after: crate::sequence_manager::SequenceView,
    second: Execution,
    second_args: SequentialThinkingArgs,
    second_before: crate::sequence_manager::SequenceView,
    second_after: crate::sequence_manager::SequenceView,
    world: World,
    step: Step,
    saved: u128,
    wall_saved: i128,
    call: Call,
)
    requires
        crate::trait_impl::is_call(first, first_args, connection, first_before, first_after),
        crate::trait_impl::is_call(second, second_args, connection, second_before, second_after),
        second_args.thought_number != 1,
        world.wf(),
        world.can_step(step),
        world.saves(step, first.session_key@),
        match step {
            Step::Cleanup { rule, now, wall_now, outcomes } => saved == now && wall_saved
                == wall_now,
            Step::Restart { now, wall_now, saved: _ } => saved == now && wall_saved == wall_now,
            _ => false,
        },
        crate::restore::has_thoughts(world.actor_of(first.session_key@).state),
        world.step(step).can_step(Step::Call(call)),
        call.key == second.session_key@,
        call.asked == (Asked::Think {
            thought: second.thought,
            starts_chain: second.starts_chain,
        }),
        call.outside.readable,
        wall_saved <= call.outside.wall_now,
    ensures
        ({
            let state = world.actor_of(first.session_key@).state;
            &&& world.step(step).answer(call) == (Answer::Added {
                thought: second.thought,
                branches: state.with_thought(second.thought).branches.ids,
                history_length: state.history.len() + 1,
            })
            &&& world.step(step).after_call(call).own(call.key).memory is Some
            &&& world.step(step).after_call(call).own(call.key).memory->0.actor.state
                == state.with_thought(second.thought)
        }),
{
    let key = first.session_key@;
    let after = world.step(step);
    lemma_step(world, step, key);
    lemma_call(after, call, key);
    assert(world.actors.contains_key(world.sessions[key].actor));
    assert(after.own(key).memory is None);
    assert(after.own(key).stored == Some(world.saved_file(key, saved, wall_saved)));
}

/// The restorations of the model are those of the store, wherever that is: with
/// the session in its file, and everything readable and responsive, a session is
/// restored exactly when the model says so, and to the session that it says.
pub proof fn law_restorations_are_those_of_the_store(
    sessions_dir: crate::path::PathView,
    base: crate::path::PathView,
    key: Seq<char>,
    file: crate::types::SessionFileView,
    actor: u64,
    outside: Outside,
)
    requires
        outside.readable,
    ensures
        crate::restore::full_restoration(
            sessions_dir,
            key,
            base,
            file,
            actor,
            outside.now,
            outside.wall_now,
        ) == (match restored_handle(key, file, actor, outside) {
            Some(handle) => crate::restore::RestoreJobView::Restored { handle, session_id: key },
            None => RestoreJob::NotRestored,
        }),
{
    crate::path::law_children_lie_within(base, base, key);
}

/// The answer of the model is what the tool reports: a response that fits the
/// state of an actor, and the output made of it.
pub proof fn law_answers_are_reported(
    world: World,
    call: Call,
    execution: Execution,
    response: crate::types::SessionResponse,
    output: crate::trait_impl::SequentialThinkingOutput,
)
    requires
        call.key == execution.session_key@,
        call.asked == (Asked::Think {
            thought: execution.thought,
            starts_chain: execution.starts_chain,
        }),
        crate::session::reply_fits(
            SessionReply::Added(response),
            SessionCommand::AddThought { thought: execution.thought },
            crate::session::state_after(
                world.state_at_hand(call, world.thought_session(call, execution.starts_chain).1),
                SessionCommand::AddThought { thought: execution.thought },
            ),
        ),
        crate::trait_impl::output_reports(
            output,
            execution.session_id@,
            execution.thought,
            response,
        ),
    ensures
        world.answer(call) == (Answer::Added {
            thought: execution.thought,
            branches: output.branches@.map_values(|id: String| id@),
            history_length: output.thought_history_length as nat,
        }),
{
}

} // verus!
