//! The tool as it is offered to clients: its name and description, and how a
//! call is carried out.

use crate::session::SessionReply;
use crate::string_utils::safe_truncate_word_boundary;
use crate::tool::{
    full_session_id_of, received_response, ActorAnswer, SequentialThinkingArgs, SequentialThinkingTool,
    SessionOrigin, ToolError,
};
use crate::types::{clone_text, PersistenceCommand, SessionCommand, SessionHandle, ThoughtData};
use vstd::prelude::*;
use vstd::utf8::*;

verus! {

/// What the tool is for.
pub const DESCRIPTION: &'static str = "A detailed tool for dynamic and reflective problem-solving through thoughts.\n\
     This tool helps analyze problems through a flexible thinking process that can adapt and evolve.\n\
     Each thought can build on, question, or revise previous insights as understanding deepens.\n\n\
     When to use this tool:\n\
     - Breaking down complex problems into steps\n\
     - Planning and design with room for revision\n\
     - Analysis that might need course correction\n\
     - Problems where the full scope might not be clear initially\n\
     - Problems that require a multi-step solution\n\
     - Tasks that need to maintain context over multiple steps\n\
     - Situations where irrelevant information needs to be filtered out\n\n\
     Key features:\n\
     - Adjust total_thoughts up or down as you progress\n\
     - Question or revise previous thoughts\n\
     - Add more thoughts even after reaching what seemed like the end\n\
     - Express uncertainty and explore alternative approaches\n\
     - Branch or backtrack (not every thought needs to build linearly)\n\
     - Generate and verify solution hypotheses\n\
     - Repeat the process until satisfied";

/// How many characters of a thought are displayed.
pub const DISPLAY_CHARS: usize = 200;

/// `kodegen_config::SEQUENTIAL_THINKING`, the name under which the tool is
/// registered: it is `sequential_thinking`.
#[verifier::external_body]
pub(crate) fn registered_name() -> (name: &'static str)
    ensures
        name@ == "sequential_thinking"@,
{
    kodegen_config::SEQUENTIAL_THINKING
}

/// What is displayed of a thought: all of it, or, when it is too long, its
/// beginning up to the end of a word, and dots.
pub open spec fn displayed(thought: Seq<char>) -> Seq<char> {
    if thought.len() > DISPLAY_CHARS {
        thought.take(crate::string_utils::kept_chars(thought, DISPLAY_CHARS as nat) as int)
            + "..."@
    } else {
        thought
    }
}

/// The display of a thought, in light grey.
pub open spec fn display_text(thought: Seq<char>) -> Seq<char> {
    "\x1b[38;5;247m"@ + displayed(thought) + "\x1b[0m"@
}

/// The beginning of a text, up to a character boundary.
fn beginning(text: &str, index: usize, Ghost(chars): Ghost<int>) -> (start: String)
    requires
        0 <= chars <= text@.len(),
        index == encode_utf8(text@.take(chars)).len(),
        is_char_boundary(encode_utf8(text@), index as int),
    ensures
        start@ == text@.take(chars),
{
    let (start, _) = text.split_at(index);
    proof {
        crate::string_utils::lemma_prefix_boundary(text@, chars);
        crate::string_utils::lemma_encode_injective(start@, text@.take(chars));
    }
    start.to_string()
}

/// The display of a thought, in light grey.
pub fn display_of(thought: &str) -> (display: String)
    ensures
        display@ == display_text(thought@),
{
    let mut display = "\x1b[38;5;247m".to_string();
    if thought.unicode_len() > DISPLAY_CHARS {
        let truncate_at: usize = safe_truncate_word_boundary(thought, DISPLAY_CHARS);
        let ghost chars = crate::string_utils::kept_chars(thought@, DISPLAY_CHARS as nat) as int;
        display.append(beginning(thought, truncate_at, Ghost(chars)).as_str());
        display.append("...");
    } else {
        display.append(thought);
    }
    display.append("\x1b[0m");
    assert(display@ =~= display_text(thought@));
    display
}

/// What a call of the tool gives back.
#[derive(Debug, PartialEq, Eq)]
pub struct SequentialThinkingOutput {
    /// Session of the thought.
    pub session_id: String,
    /// Number of the thought.
    pub thought_number: u32,
    /// Total of thoughts expected.
    pub total_thoughts: u32,
    /// The thought.
    pub thought: String,
    /// Whether another thought is needed.
    pub next_thought_needed: bool,
    /// Whether this revised earlier thinking.
    pub is_revision: Option<bool>,
    /// Which thought was revised.
    pub revises_thought: Option<u32>,
    /// Name of the branch.
    pub branch_id: Option<String>,
    /// Thought from which the branch starts.
    pub branch_from_thought: Option<u32>,
    /// Branches of the session.
    pub branches: Vec<String>,
    /// Thoughts in the history of the session.
    pub thought_history_length: usize,
}

/// What a call of the tool gives back, with its display.
#[derive(Debug, PartialEq, Eq)]
pub struct ToolResponse {
    pub display: String,
    pub output: SequentialThinkingOutput,
}

/// The connection of a call that names one, or the default one.
pub open spec fn connection_of(connection: Option<&str>) -> Seq<char> {
    match connection {
        Some(id) => id@,
        None => "default"@,
    }
}

/// A call of the tool.
#[derive(Debug)]
pub struct Execution {
    /// The connection of the call.
    pub connection_id: String,
    /// The key under which the session of the call is held, saved and restored:
    /// the connection.
    pub session_key: String,
    /// The thought chain of the thought.
    pub sequence: u64,
    /// Whether the thought is the first of its chain, and so starts a new
    /// session.
    pub starts_chain: bool,
    /// The full id of the session, as clients see it.
    pub session_id: String,
    /// The thought.
    pub thought: ThoughtData,
}

/// Whether a call of the tool is that of a connection with some arguments;
/// `before` and `after` are the thought chains before and after it.
pub open spec fn is_call(
    execution: Execution,
    args: SequentialThinkingArgs,
    connection: Seq<char>,
    before: crate::sequence_manager::SequenceView,
    after: crate::sequence_manager::SequenceView,
) -> bool {
    &&& after == before.resolved(connection, args.thought_number)
    &&& after.active(connection) == Some(execution.sequence)
    &&& execution.connection_id@ == connection
    &&& execution.session_key@ == connection
    &&& execution.session_id@ == connection + "_"@ + crate::string_utils::decimal(
        execution.sequence as nat,
    )
    &&& execution.starts_chain == (args.thought_number == 1)
    &&& execution.thought == crate::tool::validated(args)
}

/// The session of a call: the first thought of a chain starts a new one, and
/// every other thought gets or creates the one of its connection.
pub open spec fn call_session(
    sessions: Map<Seq<char>, SessionHandle>,
    key: Seq<char>,
    starts_chain: bool,
    stopped: Seq<u64>,
    restored: Option<SessionHandle>,
    fresh_actor: u64,
    now: u128,
) -> (SessionHandle, SessionOrigin) {
    if starts_chain {
        (crate::tool::new_session(fresh_actor, now), SessionOrigin::Created)
    } else {
        (
            crate::tool::claimed_session(sessions, key, stopped, restored, fresh_actor, now),
            crate::tool::session_origin(sessions, key, stopped, restored),
        )
    }
}

/// Whether an output reports a thought and the response to it.
pub open spec fn output_reports(
    output: SequentialThinkingOutput,
    session_id: Seq<char>,
    thought: ThoughtData,
    response: crate::types::SessionResponse,
) -> bool {
    &&& output.session_id@ == session_id
    &&& output.thought_number == response.thought_number
    &&& output.total_thoughts == response.total_thoughts
    &&& output.thought == thought.thought
    &&& output.next_thought_needed == response.next_thought_needed
    &&& output.is_revision == thought.is_revision
    &&& output.revises_thought == thought.revises_thought
    &&& output.branch_id == thought.branch_id
    &&& output.branch_from_thought == thought.branch_from_thought
    &&& output.branches == response.branches
    &&& output.thought_history_length == response.thought_history_length
}

/// Whether a result is the one of a call, given the answer of the actor of its
/// session.
pub open spec fn reports_call(
    execution: Execution,
    answer: ActorAnswer,
    result: Result<ToolResponse, ToolError>,
) -> bool {
    match answer {
        ActorAnswer::Reply(SessionReply::Added(response)) => result matches Ok(given)
            && given.display@ == display_text(execution.thought.thought@) && output_reports(
            given.output,
            execution.session_id@,
            execution.thought,
            response,
        ),
        ActorAnswer::Terminated => result == Err::<ToolResponse, ToolError>(
            ToolError::ActorTerminated,
        ),
        _ => result == Err::<ToolResponse, ToolError>(ToolError::NoResponse),
    }
}

impl SequentialThinkingTool {
    /// The name of the tool.
    pub fn name() -> (name: &'static str)
        ensures
            name@ == "sequential_thinking"@,
    {
        registered_name()
    }

    /// What the tool is for.
    pub fn description() -> (text: &'static str)
        ensures
            text@ == DESCRIPTION@,
    {
        DESCRIPTION
    }

    /// The tool only tracks its own state: it changes nothing outside.
    pub fn read_only() -> (read_only: bool)
        ensures
            read_only,
    {
        true
    }

    /// Starts a call of the tool: the thought is validated, and its connection
    /// and its thought chain are found.
    pub fn execute(&mut self, args: SequentialThinkingArgs, connection_id: Option<&str>) -> (
    execution: Execution)
        ensures
            final(self)@ == old(self)@,
            is_call(
                execution,
                args,
                connection_of(connection_id),
                old(self).sequences(),
                final(self).sequences(),
            ),
    {
        let connection_id = match connection_id {
            Some(id) => id.to_string(),
            None => "default".to_string(),
        };
        let starts_chain = args.thought_number == 1;
        let (sequence, _, _) = self.resolve_sequence(connection_id.as_str(), args.thought_number);
        let session_id = full_session_id_of(connection_id.as_str(), sequence);
        Execution {
            session_key: connection_id.clone(),
            connection_id,
            sequence,
            starts_chain,
            session_id,
            thought: Self::validate_thought(args),
        }
    }

    /// The session of a call that is in memory. The first thought of a chain has
    /// none: it starts a new session in the actor `fresh_actor`.
    pub fn find_call_session(
        &mut self,
        execution: &Execution,
        stopped: &Vec<u64>,
        fresh_actor: u64,
        now: u128,
    ) -> (found: Option<(SessionHandle, SessionOrigin)>)
        ensures
            final(self).sequences() == old(self).sequences(),
            match found {
                Some((handle, origin)) => {
                    &&& execution.starts_chain || old(self)@.contains_key(execution.session_key@)
                    &&& (handle, origin) == call_session(
                        old(self)@,
                        execution.session_key@,
                        execution.starts_chain,
                        stopped@,
                        None,
                        fresh_actor,
                        now,
                    )
                    &&& final(self)@ == old(self)@.insert(execution.session_key@, handle)
                },
                None => {
                    &&& !execution.starts_chain
                    &&& !old(self)@.contains_key(execution.session_key@)
                    &&& final(self)@ == old(self)@
                },
            },
    {
        if execution.starts_chain {
            let handle = self.start_session(execution.session_key.as_str(), fresh_actor, now);
            Some((handle, SessionOrigin::Created))
        } else {
            self.find_session(execution.session_key.as_str(), stopped, fresh_actor, now)
        }
    }

    /// The session of a call, once it is known whether it could be restored from
    /// disk.
    pub fn claim_call_session(
        &mut self,
        execution: &Execution,
        stopped: &Vec<u64>,
        maybe_restored: Option<SessionHandle>,
        fresh_actor: u64,
        now: u128,
    ) -> (result: (SessionHandle, SessionOrigin))
        ensures
            result == call_session(
                old(self)@,
                execution.session_key@,
                execution.starts_chain,
                stopped@,
                maybe_restored,
                fresh_actor,
                now,
            ),
            final(self)@ == old(self)@.insert(execution.session_key@, result.0),
            final(self).sequences() == old(self).sequences(),
    {
        if execution.starts_chain {
            let handle = self.start_session(execution.session_key.as_str(), fresh_actor, now);
            return (handle, SessionOrigin::Created);
        }
        let (_, handle, origin) = self.get_or_create_session(
            execution.session_key.as_str(),
            stopped,
            maybe_restored,
            fresh_actor,
            now,
        );
        (handle, origin)
    }
}

impl Execution {
    /// The command to the actor of the session.
    pub fn command(&self) -> (command: SessionCommand)
        ensures
            command == (SessionCommand::AddThought { thought: self.thought }),
    {
        SessionCommand::AddThought { thought: self.thought.clone() }
    }

    /// The command that deletes what is stored of the session that the call
    /// replaces: the first thought of a chain starts a new session in the store,
    /// too.
    pub fn backup_to_delete(&self) -> (command: Option<PersistenceCommand>)
        ensures
            match command {
                Some(PersistenceCommand::Delete { session_id }) => self.starts_chain && session_id@
                    == self.session_key@,
                Some(_) => false,
                None => !self.starts_chain,
            },
    {
        if self.starts_chain {
            Some(PersistenceCommand::Delete { session_id: self.session_key.clone() })
        } else {
            None
        }
    }

    /// The response to the call, from the answer of the actor of the session.
    pub fn respond(self, answer: ActorAnswer) -> (result: Result<
        ToolResponse,
        ToolError,
    >)
        ensures
            reports_call(self, answer, result),
    {
        match received_response(answer) {
            Ok(response) => {
                let display = display_of(self.thought.thought.as_str());
                Ok(
                    ToolResponse {
                        display,
                        output: SequentialThinkingOutput {
                            session_id: self.session_id,
                            thought_number: response.thought_number,
                            total_thoughts: response.total_thoughts,
                            thought: self.thought.thought,
                            next_thought_needed: response.next_thought_needed,
                            is_revision: self.thought.is_revision,
                            revises_thought: self.thought.revises_thought,
                            branch_id: clone_text(&self.thought.branch_id),
                            branch_from_thought: self.thought.branch_from_thought,
                            branches: response.branches,
                            thought_history_length: response.thought_history_length,
                        },
                    },
                )
            },
            Err(error) => Err(error),
        }
    }
}

/// A connection keeps its session: whatever the number of a thought, in
/// whatever tool, also in one that was started anew, a call asks for the session
/// of its connection under the same key. Under that key the session is held, and
/// under that key it is saved; only a first thought does not ask for it.
pub proof fn law_calls_ask_for_the_session_of_their_connection(
    connection: Seq<char>,
    first: Execution,
    first_args: SequentialThinkingArgs,
    first_before: crate::sequence_manager::SequenceView,
    first_after: crate::sequence_manager::SequenceView,
    second: Execution,
    second_args: SequentialThinkingArgs,
    second_before: crate::sequence_manager::SequenceView,
    second_after: crate::sequence_manager::SequenceView,
    handle: SessionHandle,
    state: crate::types::StateView,
    now: u128,
    wall_now: i128,
)
    requires
        is_call(first, first_args, connection, first_before, first_after),
        is_call(second, second_args, connection, second_before, second_after),
        second_args.thought_number != 1,
    ensures
        second.session_key@ == first.session_key@,
        crate::tool::described(first.session_key@, handle, state, now, wall_now).session_id
            == second.session_key@,
        !second.starts_chain,
{
}

/// A display is short: no more characters of the thought than are displayed,
/// and dots. It is the thought itself or its beginning.
pub proof fn law_displays_are_short(thought: Seq<char>)
    ensures
        displayed(thought).len() <= DISPLAY_CHARS + 3,
        thought.len() <= DISPLAY_CHARS ==> displayed(thought) == thought,
        thought.len() > DISPLAY_CHARS ==> exists|n: int|
            0 <= n <= DISPLAY_CHARS && displayed(thought) == #[trigger] thought.take(n) + "..."@,
{
    reveal_strlit("...");
    if thought.len() > DISPLAY_CHARS {
        let window = crate::string_utils::leading(thought, DISPLAY_CHARS as nat);
        crate::string_utils::lemma_last_word_end(window);
        let n = crate::string_utils::kept_chars(thought, DISPLAY_CHARS as nat) as int;
        assert(0 <= n <= DISPLAY_CHARS);
        assert(displayed(thought) == thought.take(n) + "..."@);
    }
}

/// The output of a call reports the session as it is after the thought: how
/// many thoughts it has, and its branches; and the thought as it was validated.
pub proof fn law_outputs_report_the_session(
    output: SequentialThinkingOutput,
    session_id: Seq<char>,
    args: SequentialThinkingArgs,
    response: crate::types::SessionResponse,
    before: crate::types::StateView,
)
    requires
        ({
            let thought = crate::tool::validated(args);
            let command = SessionCommand::AddThought { thought };
            &&& crate::session::reply_fits(
                SessionReply::Added(response),
                command,
                crate::session::state_after(before, command),
            )
            &&& output_reports(output, session_id, thought, response)
        }),
    ensures
        output.thought_history_length == before.history.len() + 1,
        output.thought_number == args.thought_number,
        output.total_thoughts >= output.thought_number,
        output.thought == args.thought,
        output.branches@.map_values(|id: String| id@) == before.with_thought(
            crate::tool::validated(args),
        ).branches.ids,
{
}

/// The output of a call echoes its arguments: the thought, whether and which
/// thought it revises, its branch and where that starts, whether another thought
/// is needed, and its number, with a total that is not below it.
pub proof fn law_outputs_echo_the_arguments(
    execution: Execution,
    args: SequentialThinkingArgs,
    connection: Seq<char>,
    sequences: crate::sequence_manager::SequenceView,
    sequences_after: crate::sequence_manager::SequenceView,
    before: crate::types::StateView,
    response: crate::types::SessionResponse,
    result: Result<ToolResponse, ToolError>,
)
    requires
        is_call(execution, args, connection, sequences, sequences_after),
        crate::session::reply_fits(
            SessionReply::Added(response),
            SessionCommand::AddThought { thought: execution.thought },
            crate::session::state_after(
                before,
                SessionCommand::AddThought { thought: execution.thought },
            ),
        ),
        reports_call(execution, ActorAnswer::Reply(SessionReply::Added(response)), result),
    ensures
        result matches Ok(given) && {
            let output = given.output;
            &&& output.thought == args.thought
            &&& output.thought_number == args.thought_number
            &&& output.next_thought_needed == args.next_thought_needed
            &&& output.is_revision == args.is_revision
            &&& output.revises_thought == args.revises_thought
            &&& output.branch_id == args.branch_id
            &&& output.branch_from_thought == args.branch_from_thought
            &&& output.total_thoughts >= args.total_thoughts
            &&& output.total_thoughts >= args.thought_number
            &&& output.total_thoughts == args.total_thoughts || output.total_thoughts
                == args.thought_number
            &&& output.thought_history_length == before.history.len() + 1
            &&& output.branches.len() == response.branches.len()
            &&& output.session_id@ == connection + "_"@ + crate::string_utils::decimal(
                execution.sequence as nat,
            )
        },
{
}

/// The branches in the output of a call are those of its session after the
/// thought, in their order: a branched thought's branch is among them.
pub proof fn law_outputs_list_the_branches(
    execution: Execution,
    before: crate::types::StateView,
    response: crate::types::SessionResponse,
    result: Result<ToolResponse, ToolError>,
    id: String,
)
    requires
        crate::session::reply_fits(
            SessionReply::Added(response),
            SessionCommand::AddThought { thought: execution.thought },
            crate::session::state_after(
                before,
                SessionCommand::AddThought { thought: execution.thought },
            ),
        ),
        reports_call(execution, ActorAnswer::Reply(SessionReply::Added(response)), result),
        execution.thought.branch_from_thought is Some,
        execution.thought.branch_id == Some(id),
    ensures
        result matches Ok(given) && exists|i: int|
            0 <= i < given.output.branches.len() && (#[trigger] given.output.branches@[i])@ == id@,
{
    let after = crate::session::state_after(
        before,
        SessionCommand::AddThought { thought: execution.thought },
    );
    let other = id@.push('_');
    assert(other.len() != id@.len());
    crate::session::law_branched_thoughts_go_to_their_branch(before, execution.thought, id, other);
    crate::session::law_responses_tell_of_thought_and_session(
        before,
        execution.thought,
        SessionReply::Added(response),
    );
    let i = choose|i: int| 0 <= i < after.branches.ids.len() && after.branches.ids[i] == id@;
    assert(response.branches@[i]@ == id@);
}

/// A call whose actor has stopped, or does not answer to the thought, reports
/// that, and nothing else.
pub proof fn law_failed_calls_say_why(
    execution: Execution,
    stopped: Result<ToolResponse, ToolError>,
    silent: Result<ToolResponse, ToolError>,
)
    requires
        reports_call(execution, ActorAnswer::Terminated, stopped),
        reports_call(execution, ActorAnswer::Silent, silent),
    ensures
        stopped == Err::<ToolResponse, ToolError>(ToolError::ActorTerminated),
        silent == Err::<ToolResponse, ToolError>(ToolError::NoResponse),
{
}

/// A call belongs to the connection that makes it and to a thought chain: a new
/// one, with the next number, for thought 1 and for a connection without a chain,
/// and else the one that its connection is in. Its thought is that of the
/// arguments.
pub proof fn law_calls_follow_their_arguments(
    execution: Execution,
    args: SequentialThinkingArgs,
    connection: Seq<char>,
    before: crate::sequence_manager::SequenceView,
    after: crate::sequence_manager::SequenceView,
    other: Seq<char>,
)
    requires
        is_call(execution, args, connection, before, after),
        other != connection,
    ensures
        execution.connection_id@ == connection,
        execution.session_key@ == connection,
        execution.session_id@ == connection + "_"@ + crate::string_utils::decimal(
            execution.sequence as nat,
        ),
        execution.starts_chain <==> args.thought_number == 1,
        args.thought_number == 1 || !before.current.contains_key(connection) ==> execution.sequence
            == before.next_id,
        args.thought_number != 1 && before.current.contains_key(connection) ==> execution.sequence
            == before.current[connection] && after.next_id == before.next_id,
        after.current.contains_key(connection) && after.current[connection] == execution.sequence,
        after.current.contains_key(other) == before.current.contains_key(other),
        before.current.contains_key(other) ==> after.current[other] == before.current[other],
        execution.thought.thought == args.thought,
        execution.thought.thought_number == args.thought_number,
        execution.thought.next_thought_needed == args.next_thought_needed,
        execution.thought.is_revision == args.is_revision,
        execution.thought.revises_thought == args.revises_thought,
        execution.thought.branch_from_thought == args.branch_from_thought,
        execution.thought.branch_id == args.branch_id,
        execution.thought.needs_more_thoughts == args.needs_more_thoughts,
{
}

/// Only the first thought of a chain starts a new session in place of the one of
/// its connection; every other thought takes the one in memory, or the restored
/// one, before it starts a new one.
pub proof fn law_calls_take_the_session_of_their_connection(
    sessions: Map<Seq<char>, SessionHandle>,
    key: Seq<char>,
    stopped: Seq<u64>,
    restored: Option<SessionHandle>,
    fresh_actor: u64,
    now: u128,
)
    ensures
        ({
            let (first, first_origin) = call_session(
                sessions,
                key,
                true,
                stopped,
                restored,
                fresh_actor,
                now,
            );
            &&& first.actor == fresh_actor && first.created_at == now && first.last_activity == now
            &&& first_origin == SessionOrigin::Created
        }),
        ({
            let (later, origin) = call_session(
                sessions,
                key,
                false,
                stopped,
                restored,
                fresh_actor,
                now,
            );
            if sessions.contains_key(key) {
                &&& later.created_at == sessions[key].created_at && later.last_activity == now
                &&& stopped.contains(sessions[key].actor) ==> later.actor == fresh_actor && origin
                    == SessionOrigin::Revived
                &&& !stopped.contains(sessions[key].actor) ==> later.actor == sessions[key].actor
                    && origin == SessionOrigin::Existing
            } else {
                match restored {
                    Some(handle) => later == handle && origin == SessionOrigin::Restored,
                    None => later.actor == fresh_actor && later.created_at == now
                        && later.last_activity == now && origin == SessionOrigin::Created,
                }
            }
        }),
{
}

/// A display is grey and holds the thought: all of it up to 200 characters; of a
/// longer one the beginning before the last of its first 200 characters that ends
/// a word, or those 200 when none does, and dots.
pub proof fn law_displays_show_the_thought(thought: Seq<char>)
    ensures
        display_text(thought) == "\x1b[38;5;247m"@ + displayed(thought) + "\x1b[0m"@,
        thought.len() <= 200 ==> displayed(thought) == thought,
        thought.len() > 200 ==> exists|n: int|
            {
                &&& displayed(thought) == #[trigger] thought.take(n) + "..."@
                &&& 0 <= n <= 200
                &&& n < 200 ==> crate::string_utils::is_word_end(thought[n])
                &&& forall|j: int|
                    n < j < 200 ==> !crate::string_utils::is_word_end(#[trigger] thought[j])
            },
        thought.len() > 200 && (forall|j: int|
            0 <= j < 200 ==> !crate::string_utils::is_word_end(#[trigger] thought[j]))
            ==> displayed(thought) == thought.take(200) + "..."@,
{
    if thought.len() > 200 {
        let window = crate::string_utils::leading(thought, 200);
        crate::string_utils::lemma_last_word_end(window);
        let n = crate::string_utils::kept_chars(thought, 200) as int;
        assert(window =~= thought.take(200));
        assert forall|j: int| n < j < 200 implies !crate::string_utils::is_word_end(
            #[trigger] thought[j],
        ) by {
            assert(window[j] == thought[j]);
        }
        if n < 200 {
            assert(window[n] == thought[n]);
        }
        assert(displayed(thought) == thought.take(n) + "..."@);
    }
}

/// A call that names a connection is of that one; all others share one, which is
/// called `default`.
pub proof fn law_calls_without_a_connection_share_one(name: &str)
    ensures
        connection_of(Some(name)) == name@,
        connection_of(None) == "default"@,
{
}

/// A call succeeds exactly when the actor answers to its thought, and then shows
/// the whole display of the thought; an answer to anything else counts as none.
pub proof fn law_only_added_thoughts_are_reported(
    execution: Execution,
    answer: ActorAnswer,
    result: Result<ToolResponse, ToolError>,
)
    requires
        reports_call(execution, answer, result),
    ensures
        result is Ok <==> (answer matches ActorAnswer::Reply(reply) && reply is Added),
        result matches Ok(given) ==> given.display@ == "\x1b[38;5;247m"@ + displayed(
            execution.thought.thought@,
        ) + "\x1b[0m"@,
        result matches Err(error) ==> error is ActorTerminated || error is NoResponse,
        result matches Err(error) ==> (error is ActorTerminated <==> answer is Terminated),
{
}

} // verus!
