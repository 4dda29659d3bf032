use cc_agent::cli::{banner_text, input_action, make_system_prompt, resume_answer, run_failure_text, show_event, InputAction};
use cc_agent::conversation::{ContentBlock, Message, Role};
use cc_agent::engine::EngineEvent;
use cc_agent::errors::AppError;
use cc_agent::references::{accept_file, expand_with, file_block, file_references};
use cc_agent::server::{conversation_from_request, health, response_text, ChatMessage, ChatRequest};

#[test]
fn expand_references_no_references_unchanged() {
    assert_eq!(file_references("hello world"), Some(vec![]));
    assert_eq!(expand_with("hello world", &vec![]), "hello world");
}

#[test]
fn expand_references_email_not_expanded() {
    assert_eq!(file_references("contact user@example.com please"), Some(vec![]));
    assert_eq!(expand_with("contact user@example.com please", &vec![]), "contact user@example.com please");
}

#[test]
fn expand_references_nonexistent_file_left_as_is() {
    let input = "look at @nonexistent_file_abc123.txt";
    let refs = file_references(input).unwrap();
    assert_eq!(refs, vec!["nonexistent_file_abc123.txt"]);
    // A path that is not a file (it does not exist) is refused, so no block is added.
    let blocks: Vec<String> = refs
        .iter()
        .filter(|_| accept_file(false, 0))
        .map(|p| file_block(p, ""))
        .collect();
    assert!(blocks.is_empty());
    assert_eq!(expand_with(input, &blocks), input);
}

#[test]
fn references_are_appended_as_blocks() {
    assert_eq!(file_references("@a.rs and @~/b/c.txt"), Some(vec!["a.rs".to_string(), "~/b/c.txt".to_string()]));
    assert!(accept_file(true, 102400));
    assert!(!accept_file(true, 102401));
    assert!(!accept_file(false, 1));
    let b = file_block("a.rs", "fn main() {}");
    assert_eq!(b, "<file path=\"a.rs\">fn main() {}</file>");
    assert_eq!(expand_with("see @a.rs", &vec![b.clone(), b]), "see @a.rs\n\n<file path=\"a.rs\">fn main() {}</file>\n\n<file path=\"a.rs\">fn main() {}</file>");
}

#[test]
fn terminal_text() {
    assert!(make_system_prompt("/w").contains("The user's working directory is: /w. "));
    assert!(banner_text(true).contains("/help for commands."));
    assert!(!banner_text(false).contains("/help"));
    assert!(matches!(input_action(None), InputAction::Quit));
    assert!(matches!(input_action(Some("   ")), InputAction::Skip));
    assert!(matches!(input_action(Some(" /exit ")), InputAction::Quit));
    assert!(matches!(input_action(Some(" hi ")), InputAction::Send(s) if s == "hi"));
    assert!(resume_answer(" yes"));
    assert!(!resume_answer("Y"));
    assert_eq!(run_failure_text(&AppError::Provider("x".into())), "\x1b[31merror: provider error: x\x1b[0m\n\n");
}

#[test]
fn engine_events_are_shown() {
    let s = show_event(&EngineEvent::TextDelta("Hi".into()), false).unwrap();
    assert_eq!(s.stdout, "\n\x1b[1mHi");
    assert!(s.in_text);
    let s = show_event(&EngineEvent::TextDelta("!".into()), true).unwrap();
    assert_eq!(s.stdout, "!");
    let s = show_event(&EngineEvent::ToolStart { name: "bash".into(), id: "1".into() }, true).unwrap();
    assert_eq!(s.stdout, "\x1b[0m\n\n  \x1b[2m\x1b[33m[tool: bash]\x1b[0m ");
    assert!(!s.in_text);
    let s = show_event(&EngineEvent::ToolResult { name: "bash".into(), output: "a\nb".into(), is_error: false }, false).unwrap();
    assert_eq!(s.stdout, "\n  \x1b[2m| a\x1b[0m\n  \x1b[2m| b\x1b[0m\n");
    let many: String = (0..20).map(|i| format!("l{i}\n")).collect();
    let s = show_event(&EngineEvent::ToolResult { name: "bash".into(), output: many, is_error: false }, false).unwrap();
    assert!(s.stdout.ends_with("| l14\x1b[0m\n  \x1b[2m| ...\x1b[0m\n"));
    let s = show_event(&EngineEvent::ToolResult { name: "bash".into(), output: "bad".into(), is_error: true }, false).unwrap();
    assert_eq!(s.stdout, "\n  \x1b[31m[bash error]: bad\x1b[0m\n");
    let s = show_event(&EngineEvent::Error("boom".into()), true).unwrap();
    assert_eq!(s.stdout, "\x1b[0m");
    assert_eq!(s.stderr, "\n\x1b[31merror: boom\x1b[0m\n\n");
    let odd = format!("a{}", "é".repeat(300));
    assert!(show_event(&EngineEvent::ToolResult { name: "x".into(), output: odd, is_error: false }, false).is_none());
}

#[test]
fn chat_requests() {
    assert_eq!(health(), "ok");
    let req = ChatRequest {
        messages: vec![ChatMessage { role: "user".into(), content: "hi".into() }],
        system: Some("sys".into()),
    };
    let c = conversation_from_request(req).ok().unwrap();
    assert_eq!(c.system, Some("sys".to_string()));
    assert_eq!(c.messages.len(), 1);
    let bad = ChatRequest { messages: vec![ChatMessage { role: "assistant".into(), content: "x".into() }], system: None };
    match conversation_from_request(bad) {
        Err(AppError::BadRequest(m)) => assert_eq!(m, "only 'user' role is supported in request"),
        _ => panic!("expected a refusal"),
    }
    let msgs = vec![
        Message::assistant(vec![ContentBlock::Text { text: "old".into() }]),
        Message::assistant(vec![
            ContentBlock::Text { text: "a".into() },
            ContentBlock::ToolUse { id: "t".into(), name: "n".into(), input: cc_agent::json::Json::Null },
            ContentBlock::Text { text: "b".into() },
        ]),
        Message { role: Role::User, content: vec![ContentBlock::Text { text: "u".into() }] },
    ];
    assert_eq!(response_text(&msgs), "ab");
    assert_eq!(response_text(&vec![]), "");
}
