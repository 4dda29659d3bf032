use cc_agent::conversation::{ContentBlock, Conversation, Message, Role};
use cc_agent::engine::{
    collect_turn, end_turn, permission_outcome, AgentRun, tool_gate, tool_result, turns_exhausted,
    PermissionDecision, ToolCall, ToolGate, TurnEnd, TurnState, StreamStep,
};
use cc_agent::errors::AppError;
use cc_agent::json::Json;
use cc_agent::provider::{PermissionLevel, StopReason, StreamEvent};

fn delta(t: &str) -> StreamEvent {
    StreamEvent::ContentDelta { text: t.to_string() }
}

#[test]
fn text_deltas_become_one_text_block() {
    let evs = vec![delta("Hel"), delta("lo"), StreamEvent::Stop { reason: StopReason::EndTurn }];
    let (blocks, stop) = collect_turn(&evs).ok().unwrap();
    assert!(stop == StopReason::EndTurn);
    assert_eq!(blocks.len(), 1);
    match &blocks[0] {
        ContentBlock::Text { text } => assert_eq!(text, "Hello"),
        _ => panic!("expected text"),
    }
}

#[test]
fn tool_use_is_streamed_into_a_block() {
    let evs = vec![
        delta("Let me look."),
        StreamEvent::ToolUseStart { id: "t1".to_string(), name: "read".to_string() },
        StreamEvent::ToolUseDelta { json_chunk: "{\"file_path\":".to_string() },
        StreamEvent::ToolUseDelta { json_chunk: "\"/a\"}".to_string() },
        StreamEvent::Stop { reason: StopReason::ToolUse },
    ];
    let (blocks, stop) = collect_turn(&evs).ok().unwrap();
    assert!(stop == StopReason::ToolUse);
    assert_eq!(blocks.len(), 2);
    match &blocks[1] {
        ContentBlock::ToolUse { id, name, input } => {
            assert_eq!(id, "t1");
            assert_eq!(name, "read");
            assert_eq!(input.get_str("file_path"), Some("/a"));
        }
        _ => panic!("expected a tool use"),
    }
}

#[test]
fn bad_tool_json_becomes_an_empty_object() {
    let evs = vec![
        StreamEvent::ToolUseStart { id: "t1".to_string(), name: "bash".to_string() },
        StreamEvent::ToolUseDelta { json_chunk: "{not json".to_string() },
    ];
    let (blocks, _) = collect_turn(&evs).ok().unwrap();
    match &blocks[0] {
        ContentBlock::ToolUse { input: Json::Object(m), .. } => assert!(m.is_empty()),
        _ => panic!("expected an empty input object"),
    }
}

#[test]
fn first_stream_error_ends_the_turn() {
    let evs = vec![
        delta("x"),
        StreamEvent::Error { message: "overloaded".to_string() },
        StreamEvent::Error { message: "later".to_string() },
    ];
    match collect_turn(&evs) {
        Err(AppError::Provider(m)) => assert_eq!(m, "overloaded"),
        _ => panic!("expected a provider error"),
    }
    let mut st = TurnState::new();
    match st.on_event(StreamEvent::Error { message: "boom".to_string() }) {
        StreamStep::Abort(_, AppError::Provider(m)) => assert_eq!(m, "boom"),
        _ => panic!("expected an abort"),
    }
}

#[test]
fn turn_end_and_tool_results() {
    let mut conv = Conversation::new();
    conv.push(Message::user("hi"));
    let blocks = vec![ContentBlock::ToolUse { id: "a".into(), name: "bash".into(), input: Json::Null }];
    match end_turn(&mut conv, blocks, StopReason::ToolUse) {
        TurnEnd::RunTools(calls) => {
            assert_eq!(calls.len(), 1);
            assert_eq!(calls[0].name, "bash");
        }
        TurnEnd::Complete => panic!("expected tool calls"),
    }
    assert_eq!(conv.messages.len(), 2);
    assert!(conv.messages[1].role == Role::Assistant);
    let mut conv2 = Conversation::new();
    assert!(matches!(end_turn(&mut conv2, vec![], StopReason::EndTurn), TurnEnd::Complete));

    let call = ToolCall { id: "a".into(), name: "bash".into(), input: Json::Null };
    let (_event, block) = tool_result(&call, Err(AppError::Tool("boom".into())));
    match block {
        ContentBlock::ToolResult { tool_use_id, content, is_error } => {
            assert_eq!(tool_use_id, "a");
            assert_eq!(content, "tool error: boom");
            assert_eq!(is_error, Some(true));
        }
        _ => panic!("expected a tool result"),
    }
}

#[test]
fn tool_gates_and_errors() {
    assert!(matches!(tool_gate("bash", Some(PermissionLevel::Dangerous)), ToolGate::Ask));
    assert!(matches!(tool_gate("read", Some(PermissionLevel::ReadOnly)), ToolGate::Run));
    match tool_gate("nope", None) {
        ToolGate::Unknown(AppError::Tool(m)) => assert_eq!(m, "unknown tool: nope"),
        _ => panic!("expected an unknown tool"),
    }
    match permission_outcome(PermissionDecision::Deny("no".into())) {
        Some(AppError::PermissionDenied(m)) => assert_eq!(m, "no"),
        _ => panic!("expected a denial"),
    }
    assert!(permission_outcome(PermissionDecision::Allow).is_none());
    let e = turns_exhausted(20);
    assert!(matches!(e, AppError::MaxTurnsExceeded(20)));
    assert_eq!(e.message(), "max turns exceeded: 20");
    assert_eq!(AppError::Interrupted.message(), "interrupted");
}

fn tool_use_block() -> ContentBlock {
    ContentBlock::ToolUse { id: "t1".to_string(), name: "read".to_string(), input: Json::Null }
}

fn result_block() -> ContentBlock {
    ContentBlock::ToolResult { tool_use_id: "t1".to_string(), content: "ok".to_string(), is_error: None }
}

#[test]
fn a_run_alternates_and_ends_with_the_assistant() {
    let mut c = Conversation::new();
    c.system = Some("sys".to_string());
    c.push(Message::user("hi"));
    let mut run = AgentRun::new(c, 5);
    assert_eq!(run.begin_turn().ok(), Some(0));
    match run.finish_turn(vec![tool_use_block()], StopReason::ToolUse) {
        TurnEnd::RunTools(calls) => assert_eq!(calls.len(), 1),
        TurnEnd::Complete => panic!("expected tools"),
    }
    run.add_results(vec![result_block()]);
    assert_eq!(run.conversation().messages.len(), 3);
    assert_eq!(run.begin_turn().ok(), Some(1));
    let end = run.finish_turn(vec![ContentBlock::Text { text: "done".to_string() }], StopReason::EndTurn);
    assert!(matches!(end, TurnEnd::Complete));
    let out = run.into_conversation();
    assert_eq!(out.system.as_deref(), Some("sys"));
    let roles: Vec<bool> = out.messages.iter().map(|m| matches!(m.role, Role::Assistant)).collect();
    assert_eq!(roles, vec![false, true, false, true]);
}

#[test]
fn a_run_stops_at_its_turn_limit() {
    let mut run = AgentRun::new(Conversation::new(), 1);
    assert_eq!(run.begin_turn().ok(), Some(0));
    run.finish_turn(vec![tool_use_block()], StopReason::ToolUse);
    run.add_results(vec![result_block()]);
    match run.begin_turn() {
        Err(AppError::MaxTurnsExceeded(n)) => assert_eq!(n, 1),
        _ => panic!("expected the turn limit"),
    }
}
