use sequential_thinking::branches::BranchMap;
use sequential_thinking::session::{
    spawn_session_actor, spawn_session_actor_with_state, SessionActor, SessionReply,
};
use sequential_thinking::types::{
    PersistedSessionFile, SessionCommand, SessionResponse, ThinkingState,
};
use sequential_thinking::{SessionStateSnapshot, ThoughtData};

fn thought(text: &str, number: u32, total: u32, more: bool) -> ThoughtData {
    ThoughtData {
        thought: text.to_string(),
        thought_number: number,
        total_thoughts: total,
        next_thought_needed: more,
        is_revision: None,
        revises_thought: None,
        branch_from_thought: None,
        branch_id: None,
        needs_more_thoughts: None,
    }
}

fn branch(text: &str, number: u32, from: u32, id: &str) -> ThoughtData {
    let mut data = thought(text, number, 5, true);
    data.branch_from_thought = Some(from);
    data.branch_id = Some(id.to_string());
    data
}

fn add(actor: &mut SessionActor, data: ThoughtData) -> SessionResponse {
    match actor.handle(SessionCommand::AddThought { thought: data }) {
        SessionReply::Added(response) => response,
        other => panic!("{:?}", other),
    }
}

fn state(actor: &mut SessionActor) -> SessionStateSnapshot {
    match actor.handle(SessionCommand::GetState) {
        SessionReply::State(snapshot) => snapshot,
        other => panic!("{:?}", other),
    }
}

#[test]
fn three_thoughts_and_done() {
    let mut actor = spawn_session_actor();
    let first = thought("I need to calculate 15 * 24. Let me break this down step by step.", 1, 3, true);
    let response = add(&mut actor, first);
    assert_eq!(response.thought_number, 1);
    assert_eq!(response.total_thoughts, 3);
    assert!(response.next_thought_needed);
    assert_eq!(response.thought_history_length, 1);
    assert!(response.branches.is_empty());
    assert_eq!(
        add(&mut actor, thought("Using distribution: 15 * 24 = 15 * (20 + 4)", 2, 3, true))
            .thought_history_length,
        2
    );
    assert!(actor.is_running());
    let last = add(&mut actor, thought("300 + 60 = 360. Answer: 360", 3, 3, false));
    assert_eq!(last.thought_history_length, 3);
    assert!(!last.next_thought_needed);
    assert!(!actor.is_running());
    let mut revived = spawn_session_actor_with_state(actor.into_state());
    assert!(revived.is_running());
    let more = add(&mut revived, thought("Let me double-check: 360 / 24 = 15", 4, 4, true));
    assert_eq!(more.thought_history_length, 4);
    assert_eq!(state(&mut revived).thought_history[2].thought, "300 + 60 = 360. Answer: 360");
}

#[test]
fn history_keeps_every_thought_in_order() {
    let mut actor = spawn_session_actor();
    for n in 1..=4 {
        add(&mut actor, thought(&format!("step {n}"), n, 4, true));
    }
    let snapshot = state(&mut actor);
    let texts: Vec<String> = snapshot.thought_history.iter().map(|t| t.thought.clone()).collect();
    assert_eq!(texts, vec!["step 1", "step 2", "step 3", "step 4"]);
    assert!(snapshot.branches.is_empty());
    assert!(actor.is_running());
}

#[test]
fn branches_collect_their_thoughts() {
    let mut actor = spawn_session_actor();
    add(&mut actor, thought("normalize", 1, 5, true));
    add(&mut actor, branch("denormalize", 2, 1, "denormalize-approach"));
    add(&mut actor, branch("hybrid", 3, 1, "hybrid-approach"));
    let response = add(&mut actor, branch("denormalize more", 4, 2, "denormalize-approach"));
    assert_eq!(response.branches, vec!["denormalize-approach", "hybrid-approach"]);
    assert_eq!(response.thought_history_length, 4);
    let snapshot = state(&mut actor);
    let first = snapshot.branches.get("denormalize-approach").unwrap();
    assert_eq!(first.len(), 2);
    assert_eq!(first[1].thought, "denormalize more");
    assert_eq!(snapshot.branches.get("hybrid-approach").unwrap().len(), 1);
    assert!(snapshot.branches.get("other").is_none());
}

#[test]
fn a_branch_needs_a_name_and_an_origin() {
    let mut actor = spawn_session_actor();
    let mut unnamed = thought("no name", 1, 2, true);
    unnamed.branch_from_thought = Some(1);
    let mut rootless = thought("no origin", 2, 2, true);
    rootless.branch_id = Some("b".to_string());
    assert!(add(&mut actor, unnamed).branches.is_empty());
    assert!(add(&mut actor, rootless).branches.is_empty());
    assert_eq!(state(&mut actor).thought_history.len(), 2);
}

#[test]
fn revisions_stay_in_the_history() {
    let mut actor = spawn_session_actor();
    add(&mut actor, thought("assume x", 1, 3, true));
    let mut revision = thought("assume y instead", 2, 3, true);
    revision.is_revision = Some(true);
    revision.revises_thought = Some(1);
    add(&mut actor, revision.clone());
    let snapshot = state(&mut actor);
    assert_eq!(snapshot.thought_history[0].thought, "assume x");
    assert_eq!(snapshot.thought_history[1], revision);
}

#[test]
fn a_cleared_session_starts_fresh() {
    let mut actor = spawn_session_actor();
    add(&mut actor, branch("one", 1, 1, "b"));
    assert!(matches!(actor.handle(SessionCommand::Clear), SessionReply::Cleared));
    assert!(!actor.is_running());
    let mut revived = spawn_session_actor_with_state(actor.into_state());
    let response = add(&mut revived, thought("anew", 2, 3, true));
    assert_eq!(response.thought_history_length, 1);
    assert!(response.branches.is_empty());
}

#[test]
fn an_actor_goes_on_from_a_given_state() {
    let mut branches = BranchMap::new();
    branches.insert("b".to_string(), vec![branch("one", 1, 1, "b")]);
    let state_before = ThinkingState { thought_history: vec![branch("one", 1, 1, "b")], branches };
    let mut actor = spawn_session_actor_with_state(state_before);
    let response = add(&mut actor, branch("two", 2, 1, "b"));
    assert_eq!(response.thought_history_length, 2);
    assert_eq!(response.branches, vec!["b"]);
    assert_eq!(state(&mut actor).branches.get("b").unwrap().len(), 2);
}

#[test]
fn a_session_file_holds_the_session() {
    let mut actor = spawn_session_actor();
    add(&mut actor, thought("one", 1, 2, true));
    add(&mut actor, branch("two", 2, 1, "b"));
    let snapshot = state(&mut actor);
    let file = PersistedSessionFile::from_snapshot("id".to_string(), &snapshot, 5, 9);
    assert_eq!(file.session_id, "id");
    assert_eq!((file.created_at, file.last_activity), (5, 9));
    let back = file.to_snapshot();
    assert_eq!(back.thought_history, snapshot.thought_history);
    assert_eq!(back.branches.ids(), snapshot.branches.ids());
    assert_eq!(back.branches.get("b"), snapshot.branches.get("b"));
}

#[test]
fn branch_maps_replace_and_keep_order() {
    let mut branches = BranchMap::default();
    branches.insert("x".to_string(), vec![thought("1", 1, 1, true)]);
    branches.add_thought("y".to_string(), thought("2", 2, 2, true));
    branches.insert("x".to_string(), vec![]);
    assert_eq!(branches.ids(), vec!["x", "y"]);
    assert_eq!(branches.len(), 2);
    assert_eq!(branches.at(1).0, "y");
    assert_eq!(branches.get("x").unwrap().len(), 0);
    let copy = branches.clone();
    branches.clear();
    assert!(branches.is_empty());
    assert_eq!(copy.len(), 2);
}
