use agent_gateway::api::{exchange_messages, resolve_session_id};
use agent_gateway::errors::{ErrorKind, LlmKind};
use agent_gateway::history::{build_turns, fold_message, TurnKind};
use agent_gateway::messages::{ChatMessage, Role};
use agent_gateway::orchestrator::{
    LoopState, ModelReply, Orchestrator, StepOutcome, ToolCall, ToolEntry, ToolKind,
};
use agent_gateway::store::SessionStore;
use agent_gateway::tools::{CostDatabase, CostError, GeoCoding, GeoError, TextReverser, ReverserError};
use agent_gateway::validate::validate_prompt;

fn default_tools() -> Vec<ToolEntry> {
    vec![
        ToolEntry { def: CostDatabase.definition(), kind: ToolKind::Cost },
        ToolEntry { def: GeoCoding.definition(), kind: ToolKind::Geo },
        ToolEntry { def: TextReverser.definition(), kind: ToolKind::Reverser },
    ]
}

fn orchestrator(max_steps: u64) -> Orchestrator {
    Orchestrator::new("You are a helpful assistant.", default_tools(), max_steps)
        .expect("unique tool names")
}

#[test]
fn validation_accepts_up_to_the_limit() {
    assert_eq!(validate_prompt(" 2+2? ").unwrap(), "2+2?");
    let empty = validate_prompt("").unwrap_err();
    assert_eq!(empty.kind(), ErrorKind::Validation);
    assert_eq!(empty.message(), "El prompt no puede estar vac\u{ed}o");
    let blank = validate_prompt(" \t\n ").unwrap_err();
    assert_eq!(blank.kind(), ErrorKind::Validation);
    let just_right = "x".repeat(10_000);
    assert_eq!(validate_prompt(&just_right).unwrap(), just_right);
    let too_long = "x".repeat(10_001);
    let oversized = validate_prompt(&too_long).unwrap_err();
    assert_eq!(oversized.kind(), ErrorKind::Validation);
    assert_eq!(oversized.message(), "El prompt excede el l\u{ed}mite de 10,000 caracteres");
}

#[test]
fn history_folding_wraps_system_messages_only() {
    let sys = fold_message(&ChatMessage::new(Role::System, "X"));
    assert_eq!(sys.kind, TurnKind::User);
    assert_eq!(sys.content, "[System Context]: X");

    let user = fold_message(&ChatMessage::new(Role::User, "hello"));
    assert_eq!(user.kind, TurnKind::User);
    assert_eq!(user.content, "hello");

    let assistant = fold_message(&ChatMessage::new(Role::Assistant, "hi there"));
    assert_eq!(assistant.kind, TurnKind::Assistant);
    assert_eq!(assistant.content, "hi there");

    let turns = build_turns(&vec![
        ChatMessage::new(Role::User, "a"),
        ChatMessage::new(Role::System, "b"),
        ChatMessage::new(Role::Assistant, "c"),
    ]);
    assert_eq!(turns.len(), 3);
    assert_eq!(turns[1].content, "[System Context]: b");
}

#[test]
fn plain_text_reply_ends_the_loop_verbatim() {
    // empty history, no tool requested: the model's text is the answer,
    // and the two new turns persist in order
    let orch = orchestrator(8);
    let mut store = SessionStore::new(1000);

    let prompt = validate_prompt("2+2?").unwrap();
    let history = store.read_all("s", 0);
    assert!(history.is_empty());

    let mut state: LoopState = orch.start(prompt.as_str(), &history);
    assert_eq!(state.turns.len(), 1);
    assert_eq!(state.turns[0].content, "2+2?");

    let outcome = orch.on_model_reply(&mut state, ModelReply::Text("4".to_string()));
    let answer = match outcome {
        StepOutcome::Done(text) => text,
        _ => panic!("expected the text verbatim"),
    };
    assert_eq!(answer, "4");

    store.append("s", &exchange_messages(prompt.as_str(), answer.as_str()), 0);
    let all = store.read_all("s", 0);
    assert_eq!(all.len(), 2);
    assert_eq!(all[0].role, Role::User);
    assert_eq!(all[0].content, "2+2?");
    assert_eq!(all[1].role, Role::Assistant);
    assert_eq!(all[1].content, "4");
}

#[test]
fn requested_tool_runs_and_feeds_its_result_back() {
    let orch = orchestrator(8);
    let history: Vec<ChatMessage> = Vec::new();
    let mut state = orch.start("how much is a bumper?", &history);

    let call = ToolCall {
        name: "cost_database".to_string(),
        args: "{\"item_name\":\"bumper\"}".to_string(),
    };
    let outcome = orch.on_model_reply(&mut state, ModelReply::ToolCalls(vec![call]));
    assert!(matches!(outcome, StepOutcome::Continue));
    assert_eq!(state.steps, 1);
    let last = state.turns.last().unwrap();
    assert_eq!(last.kind, TurnKind::Tool);
    assert_eq!(last.content, "{\"price\":150.5,\"currency\":\"USD\",\"in_stock\":true}");

    // the loop re-enters and terminates on the next text-only reply
    let done = orch.on_model_reply(&mut state, ModelReply::Text("about 150 USD".to_string()));
    match done {
        StepOutcome::Done(text) => assert_eq!(text, "about 150 USD"),
        _ => panic!("expected completion"),
    }
}

#[test]
fn reverser_tool_really_reverses() {
    let orch = orchestrator(8);
    let mut state = orch.start("reverse abc", &Vec::new());
    let call = ToolCall {
        name: "text_reverser".to_string(),
        args: "{\"text\":\"abc\"}".to_string(),
    };
    orch.on_model_reply(&mut state, ModelReply::ToolCalls(vec![call]));
    assert_eq!(state.turns.last().unwrap().content, "cba");
}

#[test]
fn unknown_tool_and_bad_arguments_come_back_as_notes() {
    let orch = orchestrator(8);
    let mut state = orch.start("x", &Vec::new());
    let calls = vec![
        ToolCall { name: "no_such_tool".to_string(), args: "{}".to_string() },
        ToolCall { name: "cost_database".to_string(), args: "not json".to_string() },
    ];
    orch.on_model_reply(&mut state, ModelReply::ToolCalls(calls));
    let n = state.turns.len();
    assert_eq!(state.turns[n - 2].content, "unknown tool");
    assert_eq!(state.turns[n - 1].content, "invalid tool arguments");
}

#[test]
fn tool_rounds_stop_at_the_step_bound() {
    let orch = orchestrator(1);
    let mut state = orch.start("loop forever", &Vec::new());
    let call = || ToolCall {
        name: "geocoding_service".to_string(),
        args: "{\"address\":\"main st\"}".to_string(),
    };
    let first = orch.on_model_reply(&mut state, ModelReply::ToolCalls(vec![call()]));
    assert!(matches!(first, StepOutcome::Continue));
    let second = orch.on_model_reply(&mut state, ModelReply::ToolCalls(vec![call()]));
    match second {
        StepOutcome::Failed(e) => {
            assert_eq!(e.kind(), ErrorKind::Llm(LlmKind::InvalidResponse));
        },
        _ => panic!("expected the bound to end the loop"),
    }
}

#[test]
fn backend_failure_is_classified_not_fatal() {
    let orch = orchestrator(8);
    let mut state = orch.start("x", &Vec::new());
    let outcome = orch.on_model_reply(
        &mut state,
        ModelReply::Failure(LlmKind::Unavailable, "backend down".to_string()),
    );
    match outcome {
        StepOutcome::Failed(e) => {
            assert_eq!(e.kind(), ErrorKind::Llm(LlmKind::Unavailable));
            assert_eq!(e.message(), "backend down");
            assert!(e.is_retryable());
        },
        _ => panic!("expected a classified failure"),
    }
}

#[test]
fn duplicate_tool_names_are_rejected_at_construction() {
    let twice = vec![
        ToolEntry { def: CostDatabase.definition(), kind: ToolKind::Cost },
        ToolEntry { def: CostDatabase.definition(), kind: ToolKind::Cost },
    ];
    let built = Orchestrator::new("p", twice, 8);
    assert_eq!(built.err().unwrap().kind(), ErrorKind::Internal);
}

#[test]
fn session_ids_pass_through_or_are_generated() {
    assert_eq!(resolve_session_id(Some("given".to_string())), "given");
    let fresh = resolve_session_id(None);
    assert_eq!(fresh.chars().count(), 36);
}

#[test]
fn tool_definitions_expose_names_and_schemas() {
    let orch = orchestrator(8);
    let defs = orch.definitions();
    assert_eq!(defs.len(), 3);
    assert_eq!(defs[0].name, "cost_database");
    assert_eq!(defs[1].name, "geocoding_service");
    assert_eq!(defs[2].name, "text_reverser");
    assert!(defs[0].parameters.contains("item_name"));
}

#[test]
fn health_answers_ok() {
    assert_eq!(agent_gateway::health_body(), "OK");
}

#[test]
fn typed_tool_failures_have_stable_texts() {
    assert_eq!(CostError.message(), "Error db");
    assert_eq!(GeoError.message(), "Error geocoding");
    assert_eq!(ReverserError.message(), "Error reversing");
}
