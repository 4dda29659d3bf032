use cc_agent::commands::{
    check_result, credential_check, execute_command, handle_doctor, handle_help, handle_model,
    keychain_probe_args, list_sessions, parse_command, session_entry, session_file,
    session_file_answer, CommandResult, SlashCommand,
};
use cc_agent::process::CommandOutput;

fn output(r: CommandResult) -> String {
    match r {
        CommandResult::Output(s) => s,
        _ => panic!("expected output"),
    }
}

#[test]
fn commands_are_read_from_input() {
    assert!(matches!(parse_command("  /help "), Some(SlashCommand::Help)));
    assert!(matches!(parse_command("/exit"), Some(SlashCommand::Quit)));
    match parse_command("/model  opus ") {
        Some(SlashCommand::Model(m)) => assert_eq!(m, "opus"),
        _ => panic!("expected a model command"),
    }
    assert!(parse_command("/model").is_none());
    assert!(parse_command("hello").is_none());
    assert!(matches!(execute_command(SlashCommand::Quit), CommandResult::Quit));
}

#[test]
fn help_and_model_answers() {
    assert_eq!(
        output(handle_help()),
        "Available commands:\n  /help     - Show this help message\n  /clear    - Clear conversation history\n  /compact  - Compact conversation to save context\n  /model <name> - Switch to a different model\n  /quit     - Exit the application\n  /exit     - Exit the application"
    );
    assert_eq!(output(handle_model("opus")), "Model set to: opus");
}

#[test]
fn diagnostics_report() {
    let ok = CommandOutput { success: true, code: Some(0), stdout: "git version 2.4\nmore".into(), stderr: "".into() };
    assert_eq!(check_result(&Ok(ok)), Ok("git version 2.4".to_string()));
    let bad = CommandOutput { success: false, code: Some(1), stdout: "".into(), stderr: "boom".into() };
    assert_eq!(check_result(&Ok(bad)), Err("boom".to_string()));
    assert_eq!(check_result(&Err("gone".into())), Err("not found: gone".to_string()));
    assert_eq!(keychain_probe_args(), vec!["find-generic-password", "-s", "agent-code-credentials"]);
    assert_eq!(credential_check(true, None), Ok("API key set via ANTHROPIC_API_KEY".to_string()));
    assert_eq!(credential_check(false, Some(&Ok(String::new()))), Ok("OAuth credential found in keychain".to_string()));
    assert_eq!(credential_check(false, None), Err("No ANTHROPIC_API_KEY or OAuth credential found".to_string()));
    let text = output(handle_doctor(
        &Ok("git 2".into()),
        &Err("not found: x".into()),
        &Ok("key".into()),
        ("/h/.agent/settings.json", true),
        ("/w/.agent/settings.json", false),
    ));
    assert_eq!(
        text,
        "  \x1b[1mEnvironment Diagnostics\x1b[0m\n\n  \x1b[32m✓\x1b[0m git: \x1b[2mgit 2\x1b[0m\n  \x1b[31m✗\x1b[0m ripgrep (rg): \x1b[2mnot found: x\x1b[0m\n  \x1b[32m✓\x1b[0m credentials: \x1b[2mkey\x1b[0m\n  \x1b[32m✓\x1b[0m Global config: \x1b[2m/h/.agent/settings.json\x1b[0m\n  \x1b[2m○ Project config: not found\x1b[0m\n"
    );
}

#[test]
fn session_listing_is_newest_first() {
    let names: Vec<String> = (0..12).map(|i| format!("s{i}")).collect();
    let times: Vec<u128> = (0..12).map(|i| i as u128).collect();
    let text = output(list_sessions(&names, &times));
    assert!(text.starts_with("  \x1b[1mSessions\x1b[0m\n\n  \x1b[2m1.\x1b[0m s11\n  \x1b[2m2.\x1b[0m s10\n"));
    assert!(text.ends_with("  \x1b[2m10.\x1b[0m s2\n  \x1b[2m... and 2 more\x1b[0m\n"));
    let tie = output(list_sessions(&vec!["a".into(), "b".into()], &vec![5, 5]));
    assert_eq!(tie, "  \x1b[1mSessions\x1b[0m\n\n  \x1b[2m1.\x1b[0m a\n  \x1b[2m2.\x1b[0m b\n");
    assert_eq!(output(list_sessions(&vec![], &vec![])), "  \x1b[2mNo sessions found.\x1b[0m");
}

#[test]
fn session_files() {
    assert_eq!(session_entry("/s/abc.json"), Some("abc".to_string()));
    assert_eq!(session_entry("/s/abc.txt"), None);
    assert_eq!(session_file("/s", "abc"), "/s/abc.json");
    assert_eq!(output(session_file_answer("/s/abc.json", true, "abc")), "  \x1b[2mSession file: /s/abc.json\x1b[0m");
    assert_eq!(output(session_file_answer("/s/abc.json", false, "abc")), "  \x1b[2mSession not found: abc\x1b[0m");
}
