use cc_agent::engine::PermissionDecision;
use cc_agent::json::Json;
use cc_agent::permission::{
    clear_sequence, decide_answer, format_permission_prompt, labels, prompt_text, record_answer,
    render_prompt, select_decision, select_step, session_precheck, width_for, wrap_detail, Key, SelectResult, SelectStep,
    SessionAllowList,
};

#[test]
fn prompt_shows_the_input_as_json() {
    let input = Json::Object(vec![("command".to_string(), Json::Str("ls".to_string()))]);
    assert_eq!(
        format_permission_prompt("bash", &input).unwrap(),
        "[permission] Tool \"bash\" wants to run: {\"command\":\"ls\"} Allow? [y/n] "
    );
}

#[test]
fn prompt_cuts_long_input() {
    let long = "x".repeat(250);
    let p = prompt_text("bash", &long);
    assert_eq!(p, format!("[permission] Tool \"bash\" wants to run: {}... Allow? [y/n] ", "x".repeat(200)));
    let input = Json::Str(format!("{}é", "a".repeat(198)));
    assert!(format_permission_prompt("bash", &input).is_none());
}

#[test]
fn typed_answers() {
    assert!(matches!(decide_answer("bash", "  Yes\n"), PermissionDecision::Allow));
    match decide_answer("bash", "no") {
        PermissionDecision::Deny(m) => assert_eq!(m, "user denied permission for tool \"bash\""),
        PermissionDecision::Allow => panic!("expected a denial"),
    }
    assert!(matches!(decide_answer("bash", ""), PermissionDecision::Deny(_)));
}

#[test]
fn session_allow_list() {
    let mut l = SessionAllowList::new();
    assert!(!l.contains("bash"));
    l.insert("bash");
    l.insert("bash");
    assert!(l.contains("bash"));
    assert!(!l.contains("read"));
}

#[test]
fn selection_moves_round_and_back() {
    for sel in 0..3usize {
        let up = match select_step(sel, Key::Up) {
            SelectStep::Move(u) => u,
            _ => panic!("expected a move"),
        };
        assert!(up < 3);
        match select_step(up, Key::Down) {
            SelectStep::Move(d) => assert_eq!(d, sel),
            _ => panic!("expected a move"),
        }
    }
    assert!(matches!(select_step(0, Key::Up), SelectStep::Move(2)));
    assert!(matches!(select_step(2, Key::Down), SelectStep::Move(0)));
}

#[test]
fn answer_keys() {
    assert!(matches!(select_step(1, Key::Enter), SelectStep::Done(SelectResult::AllowAlways)));
    assert!(matches!(select_step(0, Key::Plain('Y')), SelectStep::Done(SelectResult::AllowOnce)));
    assert!(matches!(select_step(0, Key::Plain('a')), SelectStep::Done(SelectResult::AllowAlways)));
    assert!(matches!(select_step(0, Key::Plain('n')), SelectStep::Done(SelectResult::Deny)));
    assert!(matches!(select_step(0, Key::Esc), SelectStep::Done(SelectResult::Deny)));
    assert!(matches!(select_step(0, Key::Ctrl('c')), SelectStep::Interrupt));
    assert!(matches!(select_step(0, Key::Plain('q')), SelectStep::Ignore));
    assert!(matches!(select_step(0, Key::Other), SelectStep::Ignore));
}

#[test]
fn decisions_of_the_prompt() {
    let (d, remember) = select_decision(SelectResult::AllowAlways, "bash");
    assert!(matches!(d, PermissionDecision::Allow) && remember);
    let (d, remember) = select_decision(SelectResult::Deny, "bash");
    match d {
        PermissionDecision::Deny(m) => assert_eq!(m, "user denied permission for \"bash\""),
        PermissionDecision::Allow => panic!("expected a denial"),
    }
    assert!(!remember);
}

#[test]
fn detail_is_wrapped_at_spaces() {
    let ls = wrap_detail("aaaa bbbb cccc", 9).unwrap();
    assert_eq!(ls, vec!["aaaa", "bbbb cccc"]);
    let ls = wrap_detail("abcdefghij", 4).unwrap();
    assert_eq!(ls, vec!["abcd", "efgh", "ij"]);
    assert_eq!(wrap_detail("", 24).unwrap(), vec![""]);
    assert!(wrap_detail("ééé", 3).is_none());
}

#[test]
fn prompt_layout() {
    assert_eq!(width_for(None), 76);
    assert_eq!(width_for(Some(20)), 24);
    assert_eq!(width_for(Some(100)), 96);
    assert_eq!(labels("bash"), vec!["Yes", "Yes, and don't ask again for bash", "No"]);
    let text = render_prompt("Bash", &vec!["ls".to_string()], "bash", 12, 0);
    let expected = format!(
        "\r\n  \x1b[33m\x1b[1m─── Bash {}\x1b[0m\r\n  \x1b[2mls\x1b[0m\r\n  \x1b[2m{}\x1b[0m\r\n\r\n  \x1b[33m\x1b[1m❯\x1b[0m \x1b[1mYes\x1b[0m\r\n    \x1b[2mYes, and don't ask again for bash\x1b[0m\r\n    \x1b[2mNo\x1b[0m\r\n",
        "",
        "─".repeat(12)
    );
    assert_eq!(text, expected);
    assert_eq!(clear_sequence(1), "\x1b[8A\r\x1b[J");
}

#[test]
fn allow_always_is_remembered_for_that_tool_only() {
    let mut allowed = SessionAllowList::new();
    assert!(session_precheck(&allowed, "bash").is_none());
    let d = record_answer(&mut allowed, SelectResult::AllowOnce, "bash");
    assert!(matches!(d, PermissionDecision::Allow));
    assert!(session_precheck(&allowed, "bash").is_none());
    let d = record_answer(&mut allowed, SelectResult::AllowAlways, "bash");
    assert!(matches!(d, PermissionDecision::Allow));
    assert!(matches!(session_precheck(&allowed, "bash"), Some(PermissionDecision::Allow)));
    assert!(session_precheck(&allowed, "write").is_none());
    match record_answer(&mut allowed, SelectResult::Deny, "write") {
        PermissionDecision::Deny(m) => assert_eq!(m, "user denied permission for \"write\""),
        PermissionDecision::Allow => panic!("expected a denial"),
    }
    assert!(session_precheck(&allowed, "write").is_none());
    assert!(matches!(session_precheck(&allowed, "bash"), Some(PermissionDecision::Allow)));
}
