use cc_agent::config::{merge, PermissionSettings, Settings};

#[test]
fn test_merge_concatenates_permissions() {
    let global = Settings {
        permissions: PermissionSettings {
            allow: vec!["read".into(), "glob".into()],
            deny: vec!["bash(rm -rf *)".into()],
        },
        model: Some("global-model".into()),
        ..Default::default()
    };
    let project = Settings {
        permissions: PermissionSettings {
            allow: vec!["grep".into()],
            deny: vec![],
        },
        model: None,
        ..Default::default()
    };
    let merged = merge(global, project);
    assert_eq!(merged.permissions.allow, vec!["read", "glob", "grep"]);
    assert_eq!(merged.permissions.deny, vec!["bash(rm -rf *)"]);
    assert_eq!(merged.model, Some("global-model".into()));
}

#[test]
fn test_merge_project_model_overrides() {
    let global = Settings {
        model: Some("global-model".into()),
        ..Default::default()
    };
    let project = Settings {
        model: Some("project-model".into()),
        ..Default::default()
    };
    let merged = merge(global, project);
    assert_eq!(merged.model, Some("project-model".into()));
}

#[test]
fn merge_with_empty_settings_changes_nothing() {
    let mut env = cc_agent::strmap::StrMap::new();
    env.insert("K".to_string(), "v".to_string());
    let s = Settings {
        permissions: PermissionSettings { allow: vec!["read".into()], deny: vec!["bash".into()] },
        model: Some("m".into()),
        env,
        max_turns: Some(3),
        ..Default::default()
    };
    let merged = merge(s, Settings::default());
    assert_eq!(merged.permissions.allow, vec!["read"]);
    assert_eq!(merged.permissions.deny, vec!["bash"]);
    assert_eq!(merged.model, Some("m".to_string()));
    assert_eq!(merged.max_turns, Some(3));
    assert_eq!(merged.env.get("K"), Some(&"v".to_string()));
}

#[test]
fn project_env_overrides_global_env() {
    let mut g = cc_agent::strmap::StrMap::new();
    g.insert("A".to_string(), "1".to_string());
    g.insert("B".to_string(), "1".to_string());
    let mut p = cc_agent::strmap::StrMap::new();
    p.insert("B".to_string(), "2".to_string());
    let merged = merge(
        Settings { env: g, max_tokens: Some(10), ..Default::default() },
        Settings { env: p, max_tokens: None, ..Default::default() },
    );
    assert_eq!(merged.env.get("A"), Some(&"1".to_string()));
    assert_eq!(merged.env.get("B"), Some(&"2".to_string()));
    assert_eq!(merged.max_tokens, Some(10));
}

#[test]
fn model_tiers() {
    let mut env = cc_agent::strmap::StrMap::new();
    assert_eq!(cc_agent::config::resolve_model_tier("opus", &env), "agent-opus-4-6");
    assert_eq!(cc_agent::config::resolve_model_tier("haiku", &env), "agent-haiku-4-5-20251001");
    assert_eq!(cc_agent::config::resolve_model_tier("custom-x", &env), "custom-x");
    env.insert("ANTHROPIC_DEFAULT_SONNET_MODEL".to_string(), "my-sonnet".to_string());
    assert_eq!(cc_agent::config::default_model(&env), "my-sonnet");
    assert_eq!(cc_agent::config::shell_command(false), ("sh", "-c"));
    assert_eq!(cc_agent::config::shell_command(true), ("cmd.exe", "/C"));
    assert_eq!(cc_agent::config::global_settings_path(Some("/h")), "/h/.agent/settings.json");
    assert_eq!(cc_agent::config::project_settings_path(None), "./.agent/settings.json");
}

#[test]
fn save_model_preserves_unknown_fields() {
    let original = "{\n  \"model\": \"old-model\",\n  \"permissions\": {\"allow\": [\"read\"], \"deny\": []},\n  \"customUnknownField\": true,\n  \"someNested\": {\"key\": \"value\"}\n}";
    let text = cc_agent::config::settings_with_model(Some(original), "new-model");
    let v: serde_json::Value = serde_json::from_str(&text).unwrap();
    assert_eq!(v["model"], "new-model");
    assert_eq!(v["customUnknownField"], true);
    assert_eq!(v["someNested"]["key"], "value");
    assert_eq!(v["permissions"]["allow"][0], "read");
    assert!(text.contains("\n  \""));
    let fresh = cc_agent::config::settings_with_model(None, "m");
    let v: serde_json::Value = serde_json::from_str(&fresh).unwrap();
    assert_eq!(v["model"], "m");
    let broken = cc_agent::config::settings_with_model(Some("{oops"), "m");
    assert_eq!(broken, "{\n  \"model\": \"m\"\n}");
    let array = cc_agent::config::settings_with_model(Some("[1]"), "m");
    assert_eq!(array, "[\n  1\n]");
}
