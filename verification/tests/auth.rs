use cc_agent::errors::AppError;
use cc_agent::process::CommandOutput;
use cc_agent::cc_auth::read_keychain_credential;
use cc_agent::auth::resolve_keychain_oauth;

fn out(stdout: &str) -> Result<CommandOutput, String> {
    Ok(CommandOutput { success: true, code: Some(0), stdout: stdout.to_string(), stderr: String::new() })
}

#[test]
fn first_client_credentials() {
    let c = read_keychain_credential(out("  {\"claudeAiOauth\": {\"accessToken\": \"tok\"}}\n")).ok().unwrap();
    match &c {
        cc_agent::cc_auth::Credential::OAuthToken { access_token, base_url } => {
            assert_eq!(access_token, "tok");
            assert_eq!(base_url, "https://api.agent.ai");
        }
        _ => panic!("expected an OAuth token"),
    }
    assert!(c.is_oauth());
    assert_eq!(c.auth_header_value(), "tok");
    match read_keychain_credential(out("{}")) {
        Err(AppError::Provider(m)) => assert_eq!(m, "no accessToken in keychain data"),
        _ => panic!("expected an error"),
    }
    match read_keychain_credential(Ok(CommandOutput { success: false, code: Some(44), stdout: String::new(), stderr: "not found".into() })) {
        Err(AppError::Provider(m)) => assert_eq!(m, "keychain lookup failed: not found"),
        _ => panic!("expected an error"),
    }
    match read_keychain_credential(out("nope")) {
        Err(AppError::Provider(m)) => assert!(m.starts_with("failed to parse keychain JSON: ")),
        _ => panic!("expected an error"),
    }
    let k = cc_agent::cc_auth::resolve_credential(Some("sk".into()), Err(AppError::Internal("x".into()))).ok().unwrap();
    assert_eq!(k.base_url(), "https://api.anthropic.com");
    match cc_agent::cc_auth::resolve_credential(None, Err(AppError::Provider("p".into()))) {
        Err(AppError::Provider(m)) => assert_eq!(
            m,
            "no credentials found. Set ANTHROPIC_API_KEY or log in with Agent Code first. Keychain error: provider error: p"
        ),
        _ => panic!("expected an error"),
    }
}

#[test]
fn second_client_credentials() {
    let json = "{\"claudeAiOauth\": {\"accessToken\": \"tok\", \"expiresAt\": 2000}}";
    match resolve_keychain_oauth(out(json), 1000) {
        Ok(cc_agent::auth::Credential::ClaudeCodeOAuth { access_token, expires_at }) => {
            assert_eq!(access_token, "tok");
            assert_eq!(expires_at, 2000);
        }
        _ => panic!("expected a login"),
    }
    match resolve_keychain_oauth(out(json), 3000) {
        Err(AppError::Provider(m)) => assert_eq!(m, "Agent Code OAuth token expired. Run `agent` to refresh your session."),
        _ => panic!("expected expiry"),
    }
    match resolve_keychain_oauth(Err("no security".into()), 0) {
        Err(AppError::Provider(m)) => assert_eq!(m, "failed to run `security`: no security"),
        _ => panic!("expected an error"),
    }
    let c = cc_agent::auth::resolve_credential(None, Err(AppError::Interrupted), Some("or".into())).ok().unwrap();
    assert_eq!(c.base_url(), "https://openrouter.ai/api");
    assert!(!c.is_oauth());
    assert_eq!(c.redacted(), "ApiKey { api_key: \"[redacted]\", base_url: \"https://openrouter.ai/api\" }");
    let t = cc_agent::auth::Credential::AuthToken { token: "t".into(), base_url: "https://x\"y".into() };
    assert!(t.is_oauth());
    assert_eq!(t.redacted(), "AuthToken { token: \"[redacted]\", base_url: \"https://x\\\"y\" }");
    match cc_agent::auth::resolve_credential(None, Err(AppError::Interrupted), None) {
        Err(AppError::Provider(m)) => assert_eq!(
            m,
            "no credentials found. Set ANTHROPIC_API_KEY, OPENROUTER_API_KEY, or log in with `agent`"
        ),
        _ => panic!("expected an error"),
    }
}

#[test]
fn redacted_text_does_not_depend_on_the_secret() {
    let a = cc_agent::auth::Credential::ApiKey { api_key: "sk-one".into(), base_url: "https://h".into() };
    let b = cc_agent::auth::Credential::ApiKey { api_key: "sk-two".into(), base_url: "https://h".into() };
    assert_eq!(a.redacted(), b.redacted());
    assert!(!a.redacted().contains("sk-one"));
    let o = cc_agent::auth::Credential::ClaudeCodeOAuth { access_token: "tok".into(), expires_at: 7 };
    assert_eq!(o.redacted(), "ClaudeCodeOAuth { access_token: \"[redacted]\", expires_at: 7 }");
}
