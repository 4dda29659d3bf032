use cc_agent::conversation::{ContentBlock, Conversation, Message, Role};
use cc_agent::errors::AppError;
use cc_agent::json::Json;
use cc_agent::session_format::{conversation_from_json, conversation_to_json, parse_session, session_text};

fn sample() -> Conversation {
    let mut c = Conversation::new();
    c.system = Some("be brief".to_string());
    c.push(Message::user("hello"));
    c.push(Message::assistant(vec![
        ContentBlock::Text { text: "looking".to_string() },
        ContentBlock::ToolUse {
            id: "t1".to_string(),
            name: "read".to_string(),
            input: Json::Object(vec![("file_path".to_string(), Json::Str("/a".to_string()))]),
        },
    ]));
    c.push(Message {
        role: Role::User,
        content: vec![ContentBlock::ToolResult {
            tool_use_id: "t1".to_string(),
            content: "data".to_string(),
            is_error: Some(true),
        }],
    });
    c
}

fn same(a: &Conversation, b: &Conversation) {
    assert_eq!(a.system, b.system);
    assert_eq!(a.messages.len(), b.messages.len());
    for (x, y) in a.messages.iter().zip(b.messages.iter()) {
        assert!(x.role == y.role);
        assert_eq!(x.content.len(), y.content.len());
        for (p, q) in x.content.iter().zip(y.content.iter()) {
            match (p, q) {
                (ContentBlock::Text { text: t1 }, ContentBlock::Text { text: t2 }) => assert_eq!(t1, t2),
                (
                    ContentBlock::ToolUse { id: i1, name: n1, input: j1 },
                    ContentBlock::ToolUse { id: i2, name: n2, input: j2 },
                ) => {
                    assert_eq!(i1, i2);
                    assert_eq!(n1, n2);
                    assert_eq!(j1.get_str("file_path"), j2.get_str("file_path"));
                }
                (
                    ContentBlock::ToolResult { tool_use_id: a1, content: c1, is_error: e1 },
                    ContentBlock::ToolResult { tool_use_id: a2, content: c2, is_error: e2 },
                ) => {
                    assert_eq!(a1, a2);
                    assert_eq!(c1, c2);
                    assert_eq!(e1, e2);
                }
                _ => panic!("blocks differ"),
            }
        }
    }
}

#[test]
fn stored_value_reads_back() {
    let c = sample();
    let back = conversation_from_json(&conversation_to_json(&c)).unwrap();
    same(&c, &back);
}

#[test]
fn session_file_reads_back() {
    let c = sample();
    let text = session_text(&c);
    assert!(text.contains("\n  "));
    let back = parse_session(&text).ok().unwrap();
    same(&c, &back);
}

#[test]
fn unreadable_session_files() {
    match parse_session("{\"messages\": 3}") {
        Err(AppError::Internal(m)) => assert_eq!(m, "invalid session file"),
        _ => panic!("expected an invalid session"),
    }
    assert!(matches!(parse_session("not json"), Err(AppError::Internal(_))));
    let empty = parse_session("{\"system\": null, \"messages\": []}").ok().unwrap();
    assert!(empty.system.is_none() && empty.messages.is_empty());
}

#[test]
fn session_store_paths() {
    let repo = cc_agent::cc_memory::FileSessionRepository::with_dir("/s".to_string());
    assert_eq!(repo.session_path("17"), "/s/17.json");
    assert_eq!(repo.tmp_path("17"), "/s/17.json.tmp");
    assert_eq!(cc_agent::cc_memory::generate_id(1700000000123), "1700000000123");
    match cc_agent::cc_memory::FileSessionRepository::new(None) {
        Err(AppError::Internal(m)) => assert_eq!(m, "HOME not set"),
        _ => panic!("expected an error"),
    }
    let ids = cc_agent::cc_memory::session_ids(vec![
        "20.json".to_string(),
        "3.json.tmp".to_string(),
        "10.json".to_string(),
        "notes.txt".to_string(),
    ]);
    assert_eq!(ids, vec!["10", "20"]);
    assert_eq!(cc_agent::cc_memory::latest_id(&ids), Some("20".to_string()));
}

#[test]
fn project_store() {
    assert_eq!(cc_agent::memory::project_slug("/home/user/my project"), "home_user_my_project");
    assert_eq!(cc_agent::memory::project_slug("C:\\Users\\me"), "Users_me");
    assert_eq!(cc_agent::memory::project_slug(&format!("/1{}", "a".repeat(100))).len(), 80);
    assert_eq!(cc_agent::memory::project_slug("/é-x"), "é-x");
    assert_eq!(cc_agent::memory::project_slug("/Users/alice/proj"), "Users_alice_proj");
    assert_eq!(cc_agent::memory::project_slug("D:/work"), "work");
    assert_eq!(cc_agent::memory::project_slug("rel/dir"), "rel_dir");
    let repo = cc_agent::memory::FileSessionRepository::new("/w/p", Some("/h")).ok().unwrap();
    assert_eq!(repo.project_dir(), "/h/.agent-code-rs/projects/w_p");
    assert_eq!(repo.session_path(), "/h/.agent-code-rs/projects/w_p/session.json");
    assert_eq!(cc_agent::memory::list_ids(true), vec!["current"]);
    assert!(cc_agent::memory::list_ids(false).is_empty());
}
