use sequential_thinking::branches::BranchMap;
use sequential_thinking::session::{
    spawn_session_actor, spawn_session_actor_with_state, SessionActor, SessionReply,
};
use sequential_thinking::shutdown::{
    BatchOutcome, ShutdownEvent, ShutdownReport, ShutdownRequest, ShutdownRun, BATCH_TIMEOUT,
    PERSISTENCE_BATCH_SIZE,
};
use sequential_thinking::tool::{
    actor_for, full_session_id_of, persist_command, received_clear, received_response,
    received_state, ActorAnswer, QueueOutcome, SequentialThinkingArgs, SessionOrigin, ToolError, CLEANUP_INTERVAL, CONFIRM_TIMEOUT,
    PERSISTENCE_CHANNEL_CAPACITY, SESSION_CHANNEL_CAPACITY, SESSION_MAX_AGE,
};
use sequential_thinking::path::SessionPath;
use sequential_thinking::persistence::DiskEvent;
use sequential_thinking::restore::{try_restore_session, RestoreEvent, SessionRead};
use sequential_thinking::types::{
    PersistRequest, PersistedSessionFile, PersistenceCommand, PersistenceConfig, SessionCommand,
    SessionHandle, ThinkingState,
};
use sequential_thinking::{SequentialThinkingTool, SessionStateSnapshot, ThoughtData};
use std::collections::HashMap;

fn args(text: &str, number: u32, total: u32) -> SequentialThinkingArgs {
    SequentialThinkingArgs {
        thought: text.to_string(),
        thought_number: number,
        total_thoughts: total,
        next_thought_needed: true,
        is_revision: None,
        revises_thought: None,
        branch_from_thought: None,
        branch_id: None,
        needs_more_thoughts: None,
    }
}

fn snapshot(texts: &[&str]) -> SessionStateSnapshot {
    let thought_history: Vec<ThoughtData> = texts
        .iter()
        .map(|text| SequentialThinkingTool::validate_thought(args(text, 1, 1)))
        .collect();
    SessionStateSnapshot { thought_history, branches: BranchMap::new() }
}

fn state_answer(texts: &[&str]) -> ActorAnswer {
    ActorAnswer::Reply(SessionReply::State(snapshot(texts)))
}

fn handle(actor: u64, created_at: u128, last_activity: u128) -> SessionHandle {
    SessionHandle { actor, created_at, last_activity }
}

#[test]
fn totals_are_raised_to_the_number() {
    let thought = SequentialThinkingTool::validate_thought(args("more", 5, 3));
    assert_eq!(thought.total_thoughts, 5);
    assert_eq!(thought.thought_number, 5);
    let thought = SequentialThinkingTool::validate_thought(args("fine", 2, 7));
    assert_eq!(thought.total_thoughts, 7);
    let mut full = args("all fields", 3, 3);
    full.next_thought_needed = false;
    full.is_revision = Some(true);
    full.revises_thought = Some(1);
    full.branch_from_thought = Some(2);
    full.branch_id = Some("b".to_string());
    full.needs_more_thoughts = Some(true);
    let thought = SequentialThinkingTool::validate_thought(full);
    assert_eq!(
        thought,
        ThoughtData {
            thought: "all fields".to_string(),
            thought_number: 3,
            total_thoughts: 3,
            next_thought_needed: false,
            is_revision: Some(true),
            revises_thought: Some(1),
            branch_from_thought: Some(2),
            branch_id: Some("b".to_string()),
            needs_more_thoughts: Some(true),
        }
    );
}

#[test]
fn a_session_stays_what_it_is() {
    let mut tool = SequentialThinkingTool::new();
    assert_eq!(tool.find_session("conn", &vec![], 0, 5), None);
    let (id, first, origin) = tool.get_or_create_session("conn", &vec![], None, 1, 10);
    assert_eq!(id, "conn");
    assert_eq!(first, handle(1, 10, 10));
    assert_eq!(origin, SessionOrigin::Created);
    assert_eq!(
        tool.find_session("conn", &vec![3], 2, 20),
        Some((handle(1, 10, 20), SessionOrigin::Existing))
    );
    let restored = Some(handle(8, 0, 0));
    let (_, again, origin) = tool.get_or_create_session("conn", &vec![], restored, 2, 30);
    assert_eq!(again, handle(1, 10, 30));
    assert_eq!(origin, SessionOrigin::Existing);
    assert_eq!(tool.get_session_info("conn"), Ok((10, 30)));
}

#[test]
fn a_stopped_actor_is_not_handed_out() {
    let mut tool = SequentialThinkingTool::new();
    tool.get_or_create_session("a", &vec![], None, 1, 10);
    tool.get_or_create_session("b", &vec![], None, 2, 11);
    let stopped = vec![1, 2];
    assert_eq!(
        tool.find_session("a", &stopped, 3, 20),
        Some((handle(3, 10, 20), SessionOrigin::Revived))
    );
    let (_, revived, origin) =
        tool.get_or_create_session("b", &stopped, Some(handle(9, 0, 0)), 4, 21);
    assert_eq!(revived, handle(4, 11, 21));
    assert_eq!(origin, SessionOrigin::Revived);
    assert_eq!(
        tool.find_session("a", &stopped, 5, 30),
        Some((handle(3, 10, 30), SessionOrigin::Existing))
    );
}

#[test]
fn a_restored_session_is_used() {
    let mut tool = SequentialThinkingTool::default();
    let (_, found, origin) =
        tool.get_or_create_session("conn", &vec![], Some(handle(3, 2, 9)), 4, 9);
    assert_eq!(found, handle(3, 2, 9));
    assert_eq!(origin, SessionOrigin::Restored);
    assert_eq!(tool.active_sessions(), vec![("conn".to_string(), handle(3, 2, 9))]);
}

#[test]
fn sessions_of_connections_are_separate() {
    let mut tool = SequentialThinkingTool::new();
    tool.get_or_create_session("a", &vec![], None, 1, 10);
    tool.get_or_create_session("b", &vec![], None, 2, 11);
    assert_eq!(
        tool.find_session("a", &vec![], 3, 15),
        Some((handle(1, 10, 15), SessionOrigin::Existing))
    );
    assert_eq!(tool.get_session_info("b"), Ok((11, 11)));
    assert_eq!(tool.active_sessions().len(), 2);
}

#[test]
fn session_ids_name_connection_and_chain() {
    assert_eq!(full_session_id_of("conn", 1), "conn_1");
    assert_eq!(full_session_id_of("", 18_446_744_073_709_551_615), "_18446744073709551615");
}

#[test]
fn requests_to_sessions() {
    let mut tool = SequentialThinkingTool::new();
    tool.get_or_create_session("conn", &vec![], None, 7, 10);
    assert!(matches!(tool.get_session_state("conn"), Ok((7, SessionCommand::GetState))));
    assert!(matches!(tool.clear_session("conn"), Ok((7, SessionCommand::Clear))));
    assert_eq!(tool.session("conn"), Ok(handle(7, 10, 10)));
    let missing = ToolError::SessionNotFound { session_id: "nope".to_string() };
    assert_eq!(tool.session("nope"), Err(missing));
    match tool.get_session_state("nope") {
        Err(error) => assert_eq!(error.message(), "Session not found: nope"),
        Ok(_) => unreachable!(),
    }
    assert!(tool.clear_session("nope").is_err());
    assert!(tool.get_session_info("nope").is_err());
}

#[test]
fn answers_of_actors() {
    assert_eq!(received_state(state_answer(&["x"])).unwrap().thought_history.len(), 1);
    assert_eq!(received_state(ActorAnswer::Terminated).unwrap_err(), ToolError::ActorTerminated);
    assert_eq!(received_state(ActorAnswer::Silent).unwrap_err(), ToolError::NoState);
    assert_eq!(received_clear(ActorAnswer::Reply(SessionReply::Cleared)), Ok(()));
    assert_eq!(received_clear(ActorAnswer::Terminated), Err(ToolError::ActorTerminated));
    assert_eq!(received_clear(ActorAnswer::Silent), Err(ToolError::NotCleared));
    assert_eq!(received_response(ActorAnswer::Terminated), Err(ToolError::ActorTerminated));
    assert_eq!(received_response(ActorAnswer::Silent), Err(ToolError::NoResponse));
    assert_eq!(received_response(state_answer(&[])), Err(ToolError::NoResponse));
    assert_eq!(ToolError::ActorTerminated.message(), "Session actor terminated");
    assert_eq!(ToolError::NoState.message(), "Failed to receive state");
    assert_eq!(ToolError::NotCleared.message(), "Failed to clear session");
    assert_eq!(ToolError::NoResponse.message(), "Session actor failed to respond");
}

#[test]
fn a_call_of_the_tool() {
    assert_eq!(SequentialThinkingTool::name(), "sequential_thinking");
    assert!(SequentialThinkingTool::read_only());
    assert!(SequentialThinkingTool::description()
        .starts_with("A detailed tool for dynamic and reflective problem-solving through thoughts.\nThis tool"));
    assert!(SequentialThinkingTool::description().ends_with("\n- Repeat the process until satisfied"));

    let mut given = args("Alternative approach", 4, 2);
    given.branch_from_thought = Some(2);
    given.branch_id = Some("alt".to_string());
    let mut tool = SequentialThinkingTool::new();
    let execution = tool.execute(given, Some("conn"));
    assert_eq!(execution.connection_id, "conn");
    assert_eq!(execution.sequence, 1);
    assert!(!execution.starts_chain);
    assert_eq!(execution.session_key, "conn");
    assert_eq!(execution.session_id, "conn_1");
    assert!(execution.backup_to_delete().is_none());
    let mut actor = spawn_session_actor();
    let reply = actor.handle(execution.command());
    let response = execution.respond(ActorAnswer::Reply(reply)).unwrap();
    assert_eq!(response.display, "\x1b[38;5;247mAlternative approach\x1b[0m");
    assert_eq!(response.output.session_id, "conn_1");
    assert_eq!(response.output.thought_number, 4);
    assert_eq!(response.output.total_thoughts, 4);
    assert_eq!(response.output.thought, "Alternative approach");
    assert!(response.output.next_thought_needed);
    assert_eq!(response.output.branch_id, Some("alt".to_string()));
    assert_eq!(response.output.branch_from_thought, Some(2));
    assert_eq!(response.output.branches, vec!["alt"]);
    assert_eq!(response.output.thought_history_length, 1);
}

/// The tool with its actors in place of tasks, and its store in place of files.
struct Bench {
    tool: SequentialThinkingTool,
    running: HashMap<u64, SessionActor>,
    ended: HashMap<u64, ThinkingState>,
    stored: HashMap<String, PersistRequest>,
    next: u64,
}

const NOW: u128 = 1_000;
const WALL_NOW: i128 = 50_000;

impl Bench {
    fn new() -> Self {
        Bench {
            tool: SequentialThinkingTool::new(),
            running: HashMap::new(),
            ended: HashMap::new(),
            stored: HashMap::new(),
            next: 0,
        }
    }

    fn stopped(&self) -> Vec<u64> {
        self.ended.keys().copied().collect()
    }

    fn fresh(&mut self) -> u64 {
        self.next += 1;
        self.next
    }

    fn ask(&mut self, number: u64, command: SessionCommand) -> ActorAnswer {
        let Some(mut actor) = self.running.remove(&number) else { return ActorAnswer::Terminated };
        let reply = actor.handle(command);
        if actor.is_running() {
            self.running.insert(number, actor);
        } else {
            self.ended.insert(number, actor.into_state());
        }
        ActorAnswer::Reply(reply)
    }

    fn carry_out(&mut self, command: Option<PersistenceCommand>) {
        match command {
            Some(PersistenceCommand::Persist { request }) => {
                self.stored.insert(request.session_id.clone(), request);
            }
            Some(PersistenceCommand::Delete { session_id }) => {
                self.stored.remove(&session_id);
            }
            _ => {}
        }
    }

    /// Restores a session from the store.
    fn restore(&mut self, key: &str) -> Option<SessionHandle> {
        let request = self.stored.get(key)?;
        let file = PersistedSessionFile::from_snapshot(
            request.session_id.clone(),
            &request.snapshot,
            request.created_at,
            request.last_activity,
        );
        let actor = self.fresh();
        let store = SessionPath { parts: vec!["store".to_string()] };
        let dir = store.join(key);
        let config = PersistenceConfig { sessions_dir: store.clone(), cleanup_after: 1 };
        let job = try_restore_session(&config, key)
            .advance(RestoreEvent::Disk(DiskEvent::Exists(true)))
            .advance(RestoreEvent::Disk(DiskEvent::Resolved(Some(store))))
            .advance(RestoreEvent::Disk(DiskEvent::Exists(true)))
            .advance(RestoreEvent::Disk(DiskEvent::Resolved(Some(dir))))
            .advance(RestoreEvent::Disk(DiskEvent::Exists(true)))
            .advance(RestoreEvent::Read(SessionRead::Parsed(file)));
        let state = job.restored_state()?;
        self.running.insert(actor, spawn_session_actor_with_state(state));
        let job = job
            .advance(RestoreEvent::Spawned { actor, now: NOW, wall_now: WALL_NOW })
            .advance(RestoreEvent::Confirmed(true));
        self.carry_out(job.backup_to_delete());
        job.restored_handle()
    }

    /// Calls the tool; returns the session, and how many thoughts it has then.
    fn call(&mut self, args: SequentialThinkingArgs, connection: &str) -> (String, usize) {
        let execution = self.tool.execute(args, Some(connection));
        let stopped = self.stopped();
        let fresh = self.fresh();
        let before = self.tool.session(&execution.session_key).ok();
        self.carry_out(execution.backup_to_delete());
        let found = self.tool.find_call_session(&execution, &stopped, fresh, NOW);
        let (session, origin) = match found {
            Some(session) => session,
            None => {
                let restored = self.restore(&execution.session_key);
                self.tool.claim_call_session(&execution, &stopped, restored, fresh, NOW)
            }
        };
        let kept = before.and_then(|handle| self.ended.remove(&handle.actor));
        if let Some(actor) = actor_for(origin, kept) {
            self.running.insert(session.actor, actor);
        }
        let answer = self.ask(session.actor, execution.command());
        let output = execution.respond(answer).unwrap().output;
        (output.session_id, output.thought_history_length)
    }

    fn clear(&mut self, id: &str) {
        let (actor, command) = self.tool.clear_session(id).unwrap();
        assert_eq!(received_clear(self.ask(actor, command)), Ok(()));
    }

    /// Cleans up the sessions that nobody has used up to now.
    fn clean_up(&mut self) {
        for (key, session) in self.tool.cleanup_sessions(NOW + 2, 1, self.stopped()) {
            let answer = self.ask(session.actor, SessionCommand::GetState);
            self.carry_out(persist_command(&key, session, answer, NOW + 2, WALL_NOW));
        }
    }

    /// Shuts the tool down, and starts another one on the same store.
    fn restart(mut self) -> Self {
        let mut run = self.tool.shutdown();
        while let Some(request) = run.next_request() {
            match request {
                ShutdownRequest::AskState(key) => {
                    let (actor, command) = self.tool.get_session_state(&key).unwrap();
                    let answer = self.ask(actor, command);
                    let session = self.tool.collect_session(&key, answer, NOW, WALL_NOW);
                    run.advance(ShutdownEvent::Session(session));
                }
                ShutdownRequest::SendBatch => {
                    if let Some(PersistenceCommand::PersistBatch { sessions, .. }) = run.take_batch()
                    {
                        for request in sessions {
                            self.carry_out(Some(PersistenceCommand::Persist { request }));
                        }
                    }
                    run.advance(ShutdownEvent::Sent(true));
                }
                ShutdownRequest::AwaitBatch(_) => {
                    run.advance(ShutdownEvent::Batch(BatchOutcome::Completed(1)));
                }
            }
        }
        Bench { stored: self.stored, ..Bench::new() }
    }
}

fn last(text: &str, number: u32) -> SequentialThinkingArgs {
    SequentialThinkingArgs { next_thought_needed: false, ..args(text, number, number) }
}

#[test]
fn a_thought_after_the_final_one_is_accepted() {
    let mut bench = Bench::new();
    assert_eq!(bench.call(args("one", 1, 2), "conn"), ("conn_1".to_string(), 1));
    assert_eq!(bench.call(last("two", 2), "conn"), ("conn_1".to_string(), 2));
    assert_eq!(bench.call(args("and more", 3, 4), "conn"), ("conn_1".to_string(), 3));
    assert_eq!(bench.call(last("over again", 4), "conn"), ("conn_1".to_string(), 4));
    assert_eq!(bench.call(last("still not over", 5), "conn"), ("conn_1".to_string(), 5));
}

#[test]
fn a_thought_after_clearing_is_the_only_one() {
    let mut bench = Bench::new();
    bench.call(args("one", 1, 3), "conn");
    bench.call(args("two", 2, 3), "conn");
    bench.clear("conn");
    assert_eq!(bench.call(args("three", 3, 3), "conn"), ("conn_1".to_string(), 1));
}

#[test]
fn the_first_thought_of_a_chain_starts_fresh() {
    let mut bench = Bench::new();
    assert_eq!(bench.call(args("one", 1, 3), "conn"), ("conn_1".to_string(), 1));
    assert_eq!(bench.call(args("two", 2, 3), "conn"), ("conn_1".to_string(), 2));
    assert_eq!(bench.call(args("another problem", 1, 3), "conn"), ("conn_2".to_string(), 1));
    assert_eq!(bench.call(args("goes on", 2, 3), "conn"), ("conn_2".to_string(), 2));
    assert_eq!(bench.tool.active_sessions().len(), 1);
    assert_eq!(bench.tool.active_sessions()[0].0, "conn");
}

#[test]
fn sessions_go_on_after_a_restart() {
    let mut bench = Bench::new();
    bench.call(args("one", 1, 3), "a");
    bench.call(args("one", 1, 3), "b");
    bench.call(args("two", 2, 3), "b");
    let mut bench = bench.restart();
    assert!(bench.tool.active_sessions().is_empty());
    assert_eq!(bench.call(args("three", 3, 4), "b"), ("b_1".to_string(), 3));
    assert_eq!(bench.call(args("four", 4, 4), "b"), ("b_1".to_string(), 4));
    assert_eq!(bench.call(args("two", 2, 3), "a"), ("a_2".to_string(), 2));
    assert!(bench.stored.is_empty());
}

#[test]
fn the_last_chain_goes_on_after_a_restart() {
    let mut bench = Bench::new();
    for (number, text) in [(1, "chain one"), (2, "goes on"), (1, "chain two"), (2, "b"), (3, "c")] {
        bench.call(args(text, number, 4), "conn");
    }
    let mut bench = bench.restart();
    assert_eq!(bench.call(args("d", 4, 4), "conn").1, 4);
    let mut bench = bench.restart();
    assert_eq!(bench.call(args("chain three", 1, 4), "conn").1, 1);
    assert!(bench.stored.is_empty());
}

#[test]
fn idle_sessions_go_on() {
    let mut bench = Bench::new();
    bench.call(args("one", 1, 3), "conn");
    bench.call(args("two", 2, 3), "conn");
    bench.clean_up();
    assert!(bench.tool.active_sessions().is_empty());
    assert_eq!(bench.stored.len(), 1);
    assert_eq!(bench.call(args("three", 3, 3), "conn"), ("conn_1".to_string(), 3));
    bench.clean_up();
    assert_eq!(bench.call(args("afresh", 1, 3), "conn"), ("conn_2".to_string(), 1));
    assert!(bench.stored.is_empty());
}

#[test]
fn long_connection_ids_can_be_stored() {
    let id = "c".repeat(255);
    let mut bench = Bench::new();
    bench.call(args("one", 1, 3), &id);
    let mut bench = bench.restart();
    assert_eq!(bench.call(args("two", 2, 3), &id).1, 2);
}

#[test]
fn the_actors_of_sessions() {
    let kept = || {
        let mut actor = spawn_session_actor();
        let thought = SequentialThinkingTool::validate_thought(args("kept", 1, 1));
        actor.handle(SessionCommand::AddThought { thought });
        Some(actor.into_state())
    };
    let length = |actor: Option<SessionActor>| actor.unwrap().into_state().thought_history.len();
    assert_eq!(length(actor_for(SessionOrigin::Created, kept())), 0);
    assert_eq!(length(actor_for(SessionOrigin::Revived, kept())), 1);
    assert_eq!(length(actor_for(SessionOrigin::Revived, None)), 0);
    assert!(actor_for(SessionOrigin::Created, None).unwrap().is_running());
    assert!(actor_for(SessionOrigin::Existing, kept()).is_none());
    assert!(actor_for(SessionOrigin::Restored, None).is_none());
}

#[test]
fn four_chains_on_one_connection() {
    let mut bench = Bench::new();
    let mut lengths = Vec::new();
    for (chain, thoughts) in [(1, 3), (2, 5), (3, 3)] {
        bench.call(args("start", 1, thoughts), "conn");
        for n in 2..thoughts {
            bench.call(args("step", n, thoughts), "conn");
        }
        let (id, length) = bench.call(last("final", thoughts), "conn");
        assert_eq!(id, format!("conn_{chain}"));
        lengths.push(length);
    }
    assert_eq!(lengths, vec![3, 5, 3]);
    bench.call(args("indexes or denormalization", 1, 3), "conn");
    bench.call(args("indexes first", 2, 3), "conn");
    let mut alternative = args("denormalization as well", 2, 3);
    alternative.branch_from_thought = Some(1);
    alternative.branch_id = Some("denormalize".to_string());
    bench.call(alternative, "conn");
    bench.call(last("indexes: write overhead", 3), "conn");
    let mut after_the_end = last("denormalization: redundancy", 3);
    after_the_end.branch_id = Some("denormalize".to_string());
    assert_eq!(bench.call(after_the_end, "conn"), ("conn_4".to_string(), 5));
}

#[test]
fn connections_do_not_see_each_other() {
    let calls = [("one", 1), ("two", 2), ("three", 3)];
    let mut alone = Bench::new();
    let lengths: Vec<usize> =
        calls.iter().map(|(text, n)| alone.call(args(text, *n, 3), "mine").1).collect();
    let mut shared = Bench::new();
    let mut with_others = Vec::new();
    for (text, n) in calls {
        with_others.push(shared.call(args(text, n, 3), "mine").1);
        shared.call(args("elsewhere", n, 3), "other");
        shared.call(last("done", n + 1), "third");
    }
    assert_eq!(lengths, vec![1, 2, 3]);
    assert_eq!(with_others, lengths);
}

#[test]
fn a_call_without_connection_or_answer() {
    let mut tool = SequentialThinkingTool::new();
    let execution = tool.execute(args("x", 1, 1), None);
    assert_eq!(execution.connection_id, "default");
    assert_eq!(execution.session_key, "default");
    assert_eq!(execution.session_id, "default_1");
    assert!(execution.starts_chain);
    match execution.backup_to_delete() {
        Some(PersistenceCommand::Delete { session_id }) => assert_eq!(session_id, "default"),
        other => panic!("{:?}", other),
    }
    assert_eq!(execution.respond(ActorAnswer::Terminated), Err(ToolError::ActorTerminated));
    let execution = tool.execute(args("x", 1, 1), None);
    assert_eq!(execution.session_id, "default_2");
    assert_eq!(execution.respond(ActorAnswer::Silent), Err(ToolError::NoResponse));
}

#[test]
fn chains_are_resolved() {
    let mut tool = SequentialThinkingTool::new();
    assert_eq!(tool.resolve_sequence("a", 1), (1, true, None));
    assert_eq!(tool.resolve_sequence("b", 4), (2, true, None));
    assert_eq!(tool.resolve_sequence("a", 2), (1, false, None));
    assert_eq!(tool.resolve_sequence("a", 1), (3, true, Some(1)));
    assert!(tool.active_sessions().is_empty());
    tool.get_or_create_session("x", &vec![], None, 1, 10);
    assert_eq!(tool.start_session("x", 2, 20), handle(2, 20, 20));
    assert_eq!(tool.session("x"), Ok(handle(2, 20, 20)));
}

#[test]
fn cleanup_hands_out_expired_sessions() {
    let mut tool = SequentialThinkingTool::new();
    tool.get_or_create_session("old", &vec![], None, 1, 100);
    tool.get_or_create_session("stopped", &vec![], None, 2, 100);
    tool.get_or_create_session("edge", &vec![], None, 3, 500);
    tool.get_or_create_session("fresh", &vec![], None, 4, 900);
    let expired = tool.cleanup_sessions(1_000, 500, vec![2]);
    assert_eq!(expired, vec![("old".to_string(), handle(1, 100, 100))]);
    let mut left: Vec<String> = tool.active_sessions().into_iter().map(|entry| entry.0).collect();
    left.sort();
    assert_eq!(left, vec!["edge", "fresh"]);
    assert!(tool.cleanup_sessions(1_000, 500, vec![]).is_empty());
}

#[test]
fn an_expired_session_is_described_in_wall_time() {
    match persist_command("old", handle(1, 100, 400), state_answer(&["x"]), 1_000, 70_000) {
        Some(PersistenceCommand::Persist { request }) => {
            assert_eq!(request.session_id, "old");
            assert_eq!(request.created_at, 69_100);
            assert_eq!(request.last_activity, 69_400);
            assert_eq!(request.snapshot.thought_history.len(), 1);
        }
        other => panic!("{:?}", other),
    }
    match persist_command("ancient", handle(1, 0, 400), state_answer(&["x"]), 1_000, 700) {
        Some(PersistenceCommand::Persist { request }) => {
            assert_eq!((request.created_at, request.last_activity), (-300, 100));
        }
        other => panic!("{:?}", other),
    }
    assert!(persist_command("old", handle(1, 1, 1), ActorAnswer::Silent, 5, 5).is_none());
    assert!(persist_command("old", handle(1, 1, 1), ActorAnswer::Terminated, 5, 5).is_none());
}

#[test]
fn an_idle_session_survives() {
    let command = persist_command("conn", handle(1, 700, 800), state_answer(&["x", "y"]), 1_000, 50_000);
    let file = match command {
        Some(PersistenceCommand::Persist { request }) => PersistedSessionFile::from_snapshot(
            request.session_id.clone(),
            &request.snapshot,
            request.created_at,
            request.last_activity,
        ),
        other => panic!("{:?}", other),
    };
    let store = SessionPath { parts: vec!["store".to_string()] };
    let dir = store.join("conn");
    let config = PersistenceConfig { sessions_dir: store.clone(), cleanup_after: 1 };
    let job = try_restore_session(&config, "conn")
        .advance(RestoreEvent::Disk(DiskEvent::Exists(true)))
        .advance(RestoreEvent::Disk(DiskEvent::Resolved(Some(store))))
        .advance(RestoreEvent::Disk(DiskEvent::Exists(true)))
        .advance(RestoreEvent::Disk(DiskEvent::Resolved(Some(dir))))
        .advance(RestoreEvent::Disk(DiskEvent::Exists(true)))
        .advance(RestoreEvent::Read(SessionRead::Parsed(file)));
    assert_eq!(job.restored_state().unwrap().thought_history.len(), 2);
    let job = job
        .advance(RestoreEvent::Spawned { actor: 6, now: 9_000, wall_now: 50_200 })
        .advance(RestoreEvent::Confirmed(true));
    assert_eq!(job.restored_handle(), Some(handle(6, 9_000 - 300 - 200, 9_000)));
}

#[test]
fn a_session_that_the_full_channel_refused_comes_back() {
    let mut tool = SequentialThinkingTool::new();
    tool.note_queued("old".to_string(), handle(1, 100, 100), QueueOutcome::Queued);
    tool.note_queued("old".to_string(), handle(1, 100, 100), QueueOutcome::Closed);
    assert!(tool.active_sessions().is_empty());
    tool.note_queued("old".to_string(), handle(1, 100, 100), QueueOutcome::Full);
    assert_eq!(tool.session("old"), Ok(handle(1, 100, 100)));
    assert_eq!(tool.cleanup_sessions(1_000, 500, vec![]).len(), 1);
    tool.get_or_create_session("old", &vec![], None, 9, 1_000);
    tool.note_queued("old".to_string(), handle(1, 100, 100), QueueOutcome::Full);
    assert_eq!(tool.session("old"), Ok(handle(9, 1_000, 1_000)));
}

fn describe(id: &str) -> PersistRequest {
    PersistRequest {
        session_id: id.to_string(),
        snapshot: snapshot(&["x"]),
        created_at: 1,
        last_activity: 2,
    }
}

fn ids(n: usize) -> Vec<String> {
    (0..n).map(|i| format!("session-{i}")).collect()
}

/// Runs a shutdown; returns the sizes of the batches, the ids that were sent,
/// and the report.
fn shut_down(
    ids: Vec<String>,
    had: fn(&str) -> bool,
    sends: fn(usize) -> bool,
    outcome: fn(u64) -> BatchOutcome,
) -> (Vec<usize>, Vec<String>, ShutdownReport) {
    let mut run = ShutdownRun::new(ids);
    let mut sizes = Vec::new();
    let mut sent = Vec::new();
    while let Some(request) = run.next_request() {
        match request {
            ShutdownRequest::AskState(id) => {
                assert!(run.take_batch().is_none());
                let session = if had(&id) { Some(describe(&id)) } else { None };
                run.advance(ShutdownEvent::Session(session));
            }
            ShutdownRequest::SendBatch => match run.take_batch() {
                Some(PersistenceCommand::PersistBatch { sessions, completion }) => {
                    let succeeds = sends(sizes.len());
                    if succeeds {
                        assert_eq!(completion, Some(sizes.len() as u64));
                        sizes.push(sessions.len());
                        sent.extend(sessions.into_iter().map(|session| session.session_id));
                    }
                    run.advance(ShutdownEvent::Sent(succeeds));
                }
                other => panic!("{:?}", other),
            },
            ShutdownRequest::AwaitBatch(number) => {
                run.advance(ShutdownEvent::Batch(outcome(number)));
            }
        }
    }
    (sizes, sent, run.report())
}

#[test]
fn a_shutdown_sends_batches_of_fifty() {
    let (sizes, sent, report) =
        shut_down(ids(120), |_| true, |_| true, |n| BatchOutcome::Completed(if n < 2 { 50 } else { 20 }));
    assert_eq!(sizes, vec![50, 50, 20]);
    assert_eq!(sent, ids(120));
    assert_eq!(
        report,
        ShutdownReport {
            sessions_queued: 120,
            total_persisted: 120,
            batches_succeeded: 3,
            batches_failed: 0,
            batches_timeout: 0,
        }
    );
    assert_eq!(PERSISTENCE_BATCH_SIZE, 50);
}

#[test]
fn full_batches_only() {
    let (sizes, sent, report) = shut_down(ids(100), |_| true, |_| true, |_| BatchOutcome::Completed(49));
    assert_eq!(sizes, vec![50, 50]);
    assert_eq!(sent.len(), 100);
    assert_eq!(report.total_persisted, 98);
}

#[test]
fn sessions_without_state_are_skipped() {
    let (sizes, sent, report) =
        shut_down(ids(4), |id| id != "session-2", |_| true, |_| BatchOutcome::Completed(3));
    assert_eq!(sizes, vec![3]);
    assert_eq!(sent, vec!["session-0", "session-1", "session-3"]);
    assert_eq!(report.sessions_queued, 3);
    let (sizes, _, report) = shut_down(ids(2), |_| false, |_| true, |_| BatchOutcome::Failed);
    assert!(sizes.is_empty());
    assert_eq!(report.sessions_queued, 0);
}

#[test]
fn a_batch_that_cannot_be_sent_ends_the_collection() {
    let (sizes, _, report) = shut_down(ids(170), |_| true, |n| n < 1, |_| BatchOutcome::Completed(50));
    assert_eq!(sizes, vec![50]);
    assert_eq!(report.sessions_queued, 100);
    assert_eq!(report.batches_succeeded, 1);
    let (sizes, _, report) = shut_down(ids(10), |_| true, |_| false, |_| BatchOutcome::Failed);
    assert!(sizes.is_empty());
    assert_eq!(report.sessions_queued, 10);
    assert_eq!(report.batches_succeeded + report.batches_failed + report.batches_timeout, 0);
}

#[test]
fn every_outcome_of_a_batch() {
    let (_, _, report) = shut_down(ids(200), |_| true, |_| true, |n| match n {
        0 => BatchOutcome::Completed(42),
        1 => BatchOutcome::Failed,
        2 => BatchOutcome::Dropped,
        _ => BatchOutcome::TimedOut,
    });
    assert_eq!(
        report,
        ShutdownReport {
            sessions_queued: 200,
            total_persisted: 42,
            batches_succeeded: 1,
            batches_failed: 2,
            batches_timeout: 1,
        }
    );
}

#[test]
fn a_shutdown_without_sessions_is_over() {
    let tool = SequentialThinkingTool::new();
    let run = tool.shutdown();
    assert!(run.next_request().is_none());
    assert_eq!(run.report().sessions_queued, 0);
}

#[test]
fn a_shutdown_asks_every_session() {
    let mut tool = SequentialThinkingTool::new();
    for n in 0..5 {
        tool.get_or_create_session(&format!("c{n}"), &vec![], None, n, 10);
    }
    let mut run = tool.shutdown();
    let mut asked = Vec::new();
    while let Some(ShutdownRequest::AskState(id)) = run.next_request() {
        let request = tool.collect_session(&id, state_answer(&["x"]), 20, 1_000);
        assert_eq!(request.as_ref().unwrap().created_at, 990);
        asked.push(id);
        run.advance(ShutdownEvent::Session(request));
    }
    asked.sort();
    assert_eq!(asked, vec!["c0", "c1", "c2", "c3", "c4"]);
    assert!(tool.collect_session("gone", state_answer(&["x"]), 20, 1_000).is_none());
    assert!(tool.collect_session("c0", ActorAnswer::Silent, 20, 1_000).is_none());
}

#[test]
fn the_settings_of_the_tool() {
    let second: u128 = 1_000_000_000;
    assert_eq!(PERSISTENCE_CHANNEL_CAPACITY, 100);
    assert_eq!(SESSION_CHANNEL_CAPACITY, 100);
    assert_eq!(CLEANUP_INTERVAL, 5 * 60 * second);
    assert_eq!(SESSION_MAX_AGE, 30 * 60 * second);
    assert_eq!(CONFIRM_TIMEOUT, 5 * second);
    assert_eq!(BATCH_TIMEOUT, 30 * second);
}
