use cc_agent::anthropic::AnthropicProvider as SecondProvider;
use cc_agent::cc_provider::{api_failure, request_failure, AnthropicProvider};
use cc_agent::conversation::{ContentBlock, Conversation, Message};
use cc_agent::errors::AppError;
use cc_agent::json::Json;
use cc_agent::request::build_request_body;

fn conv() -> Conversation {
    let mut c = Conversation::new();
    c.system = Some("sys".to_string());
    c.push(Message::user("hi"));
    c.push(Message::assistant(vec![ContentBlock::ToolResult {
        tool_use_id: "t".into(),
        content: "out".into(),
        is_error: Some(true),
    }]));
    c
}

#[test]
fn request_body_for_an_api_key() {
    let cred = cc_agent::cc_auth::Credential::ApiKey("k".into());
    let tools = vec![Json::Str("tool".into())];
    let body = build_request_body(&cred, "m", &conv(), &tools);
    assert_eq!(body.get_str("model"), Some("m"));
    assert_eq!(body.get_u64("max_tokens"), Some(4096));
    assert_eq!(body.get_str("system"), Some("sys"));
    assert!(body.get("thinking").is_none());
    assert!(matches!(body.get("tools"), Some(Json::Array(a)) if a.len() == 1));
    match body.get("messages") {
        Some(Json::Array(ms)) => {
            assert_eq!(ms.len(), 2);
            assert_eq!(ms[0].get_str("role"), Some("user"));
            match ms[1].get("content") {
                Some(Json::Array(bs)) => {
                    assert_eq!(bs[0].get_str("type"), Some("tool_result"));
                    assert!(matches!(bs[0].get("is_error"), Some(Json::Bool(true))));
                }
                _ => panic!("expected blocks"),
            }
        }
        _ => panic!("expected messages"),
    }
    let no_tools = build_request_body(&cred, "m", &Conversation::new(), &vec![]);
    assert!(no_tools.get("tools").is_none());
    assert!(no_tools.get("system").is_none());
}

#[test]
fn request_body_for_an_oauth_token() {
    let cred = cc_agent::cc_auth::Credential::OAuthToken { access_token: "t".into(), base_url: "https://x".into() };
    let body = build_request_body(&cred, "m", &conv(), &vec![]);
    match body.get("system") {
        Some(Json::Array(bs)) => {
            assert_eq!(bs.len(), 2);
            assert_eq!(bs[0].get_str("text"), Some(cc_agent::request::BILLING_HEADER));
            assert_eq!(bs[1].get_str("text"), Some("sys"));
        }
        _ => panic!("expected system blocks"),
    }
    assert_eq!(body.get("thinking").unwrap().get_str("type"), Some("adaptive"));
}

#[test]
fn first_provider_requests() {
    let p = AnthropicProvider::new(cc_agent::cc_auth::Credential::ApiKey("k".into()), None);
    assert_eq!(p.model(), "agent-sonnet-4-20250514");
    assert_eq!(p.request_url(None), "https://api.anthropic.com/v1/messages");
    assert_eq!(p.request_url(Some("http://local")), "http://local/v1/messages");
    let h = p.request_headers();
    assert_eq!(h[2], ("x-api-key".to_string(), "k".to_string()));
    let body = p.build_request_body(&conv(), &vec![]);
    assert_eq!(body.get_u64("max_tokens"), Some(8192));
    assert_eq!(body.get_str("system"), Some("sys"));
    let o = AnthropicProvider::new(
        cc_agent::cc_auth::Credential::OAuthToken { access_token: "t".into(), base_url: "https://o".into() },
        Some("custom".into()),
    );
    assert_eq!(o.model(), "custom");
    assert_eq!(o.request_headers()[2], ("Authorization".to_string(), "Bearer t".to_string()));
    match request_failure("timeout") {
        AppError::Provider(m) => assert_eq!(m, "request failed: timeout"),
        _ => panic!("expected a provider error"),
    }
    match api_failure("500 Internal Server Error", "oops") {
        AppError::Provider(m) => assert_eq!(m, "API returned 500 Internal Server Error: oops"),
        _ => panic!("expected a provider error"),
    }
}

#[test]
fn second_provider_settings() {
    let key = cc_agent::auth::Credential::ApiKey { api_key: "k".into(), base_url: "https://b".into() };
    let mut p = SecondProvider::new(key);
    assert_eq!(p.model_name(false), "anthropic/agent-sonnet-4-20250514");
    assert!(!p.thinking_enabled());
    assert!(p.toggle_thinking());
    assert!(!p.toggle_thinking());
    assert!(!p.thinking_enabled());
    p.set_model("opusplan");
    assert_eq!(p.model_name(true), "agent-opus-4-6");
    assert_eq!(p.model_name(false), "anthropic/agent-sonnet-4-20250514");
    p.set_model("x");
    assert_eq!(p.model_name(true), "x");
    p.set_max_tokens(10);
    assert_eq!(p.max_tokens(), 10);
    let t = p.request_target();
    assert_eq!(t.url, "https://b/v1/messages");
    assert_eq!(t.headers[4], ("anthropic-beta".to_string(), "prompt-caching-2024-07-31".to_string()));
    p.toggle_thinking();
    assert_eq!(p.request_target().headers[4].1, "prompt-caching-2024-07-31,interleaved-thinking-2025-05-14");
    match p.usage_target() {
        Err(AppError::Provider(m)) => assert_eq!(m, "/usage is only available for Agent AI subscribers (OAuth login)"),
        _ => panic!("expected a refusal"),
    }
    let login = cc_agent::auth::Credential::ClaudeCodeOAuth { access_token: "a".into(), expires_at: 0 };
    let o = SecondProvider::new(login);
    assert!(o.is_oauth());
    assert_eq!(o.model_name(false), "agent-sonnet-4-6");
    let t = o.request_target();
    assert_eq!(t.url, "https://api.anthropic.com/v1/messages?beta=true");
    assert_eq!(t.headers[0], ("Authorization".to_string(), "Bearer a".to_string()));
    let u = o.usage_target().ok().unwrap();
    assert_eq!(u.url, "https://api.anthropic.com/api/oauth/usage");
    let body = o.request_body(false, &conv(), &vec![]);
    assert_eq!(body.get_str("model"), Some("agent-sonnet-4-6"));
}
