use cc_agent::errors::AppError;
use cc_agent::json::Json;
use cc_agent::provider::PermissionLevel;
use cc_agent::strmap::StrMap;
use cc_agent::tools::{
    add_mcp_servers, mcp_config_paths, BashTool, McpConfig, McpServerEntry, ReadTool, SkillTool,
};

fn obj(members: Vec<(&str, Json)>) -> Json {
    Json::Object(members.into_iter().map(|(k, v)| (k.to_string(), v)).collect())
}

fn s(x: &str) -> Json {
    Json::Str(x.to_string())
}

#[test]
fn bash_output_joins_stdout_and_stderr() {
    assert_eq!(BashTool::format_output("out", "err"), "out\nSTDERR:\nerr");
    assert_eq!(BashTool::format_output("", "err"), "STDERR:\nerr");
    assert_eq!(BashTool::format_output("only", ""), "only");
    assert_eq!(BashTool::format_output("", ""), "(no output)");
}

#[test]
fn bash_output_is_cut_at_the_byte_limit() {
    let long = "a".repeat(100_001);
    assert!(BashTool::output_fits(&long, ""));
    let r = BashTool::format_output(&long, "");
    assert_eq!(r, format!("{}\n... (truncated)", "a".repeat(100_000)));
    let exact = "b".repeat(100_000);
    assert_eq!(BashTool::format_output(&exact, ""), exact);
}

#[test]
fn bash_output_that_would_be_cut_inside_a_character_does_not_fit() {
    let t = format!("a{}", "é".repeat(50_000));
    assert!(!BashTool::output_fits(&t, ""));
    let u = format!("{}", "é".repeat(50_001));
    assert!(BashTool::output_fits(&u, ""));
    assert_eq!(BashTool::format_output(&u, ""), format!("{}\n... (truncated)", "é".repeat(50_000)));
}

#[test]
fn bash_command_comes_from_the_input() {
    match BashTool::command(&obj(vec![("command", s("ls -la"))])) {
        Ok(c) => assert_eq!(c, "ls -la"),
        Err(_) => panic!("expected a command"),
    }
    match BashTool::command(&obj(vec![("cmd", s("ls"))])) {
        Err(AppError::Tool(m)) => assert_eq!(m, "missing 'command' field"),
        _ => panic!("expected a tool error"),
    }
    match BashTool::spawn_failure("no such file") {
        AppError::Tool(m) => assert_eq!(m, "failed to spawn bash: no such file"),
        _ => panic!("expected a tool error"),
    }
}

#[test]
fn tool_descriptions() {
    assert_eq!(BashTool.name(), "bash");
    assert!(BashTool.permission_level() == PermissionLevel::Dangerous);
    assert_eq!(ReadTool.name(), "read");
    assert!(ReadTool.permission_level() == PermissionLevel::ReadOnly);
    assert_eq!(SkillTool::new().name(), "skill");
    let schema = BashTool.input_schema();
    assert_eq!(schema.get_str("type"), Some("object"));
    let props = schema.get("properties").unwrap();
    assert_eq!(props.get("command").unwrap().get_str("type"), Some("string"));
    match schema.get("required") {
        Some(Json::Array(a)) => {
            assert_eq!(a.len(), 1);
            assert_eq!(a[0].as_str(), Some("command"));
        }
        _ => panic!("expected the required list"),
    }
    let read = ReadTool.input_schema();
    let rp = read.get("properties").unwrap();
    assert_eq!(rp.get("offset").unwrap().get_str("type"), Some("integer"));
    let info = SkillTool::new().is_search_or_read_command(&Json::Null);
    assert!(info.is_read && !info.is_search && !info.is_list);
}

#[test]
fn read_tool_numbers_lines() {
    assert_eq!(ReadTool::format_lines("a\nb\nc", 1, 2000), "     1\ta\n     2\tb\n     3\tc\n");
    assert_eq!(ReadTool::format_lines("a\nb\nc", 2, 1), "     2\tb\n");
    assert_eq!(ReadTool::format_lines("a\nb\nc", 10, 5), "(empty file)");
    assert_eq!(ReadTool::format_lines("", 1, 2000), "(empty file)");
    assert_eq!(ReadTool::format_lines("x\r\ny\n", 1, u64::MAX), "     1\tx\n     2\ty\n");
}

#[test]
fn read_tool_arguments() {
    match ReadTool::args(&obj(vec![("file_path", s("/tmp/f")), ("offset", Json::Number(cc_agent::json::JsonNumber::PosInt(0)))])) {
        Ok((p, o, l)) => {
            assert_eq!(p, "/tmp/f");
            assert_eq!(o, 1);
            assert_eq!(l, 2000);
        }
        Err(_) => panic!("expected arguments"),
    }
    match ReadTool::args(&obj(vec![])) {
        Err(AppError::Tool(m)) => assert_eq!(m, "missing 'file_path' field"),
        _ => panic!("expected a tool error"),
    }
    match ReadTool::read_failure("/x", "denied") {
        AppError::Tool(m) => assert_eq!(m, "cannot read '/x': denied"),
        _ => panic!("expected a tool error"),
    }
}

#[test]
fn skill_tool_reads_and_answers() {
    match SkillTool::args(&obj(vec![("skill", s("deploy")), ("args", s("prod"))])) {
        Ok((k, a)) => {
            assert_eq!(k, "deploy");
            assert_eq!(a, "prod");
        }
        Err(_) => panic!("expected arguments"),
    }
    match SkillTool::args(&obj(vec![("skill", s("deploy"))])) {
        Ok((_, a)) => assert_eq!(a, ""),
        Err(_) => panic!("expected arguments"),
    }
    match SkillTool::locate(Some("/home/u"), "deploy") {
        Ok(p) => assert_eq!(p, "/home/u/.agent/skills/deploy/SKILL.md"),
        Err(_) => panic!("expected a path"),
    }
    match SkillTool::locate(None, "deploy") {
        Err(AppError::Tool(m)) => assert_eq!(m, "cannot determine home directory"),
        _ => panic!("expected a tool error"),
    }
    assert_eq!(SkillTool::answer("body", ""), "body");
    assert_eq!(SkillTool::answer("body", "x y"), "body\n\n---\nArgs: x y");
    match SkillTool::not_found("s", "/p", "gone") {
        AppError::Tool(m) => assert_eq!(m, "skill 's' not found at /p: gone"),
        _ => panic!("expected a tool error"),
    }
}

fn entry(cmd: &str) -> McpServerEntry {
    McpServerEntry { command: cmd.to_string(), args: vec![], env: StrMap::new() }
}

#[test]
fn mcp_servers_first_definition_wins() {
    let mut found = Vec::new();
    let first = McpConfig { mcp_servers: vec![("a".to_string(), entry("one")), ("b".to_string(), entry("two"))] };
    let second = McpConfig { mcp_servers: vec![("b".to_string(), entry("three")), ("c".to_string(), entry("four"))] };
    add_mcp_servers(&mut found, &first);
    add_mcp_servers(&mut found, &second);
    let names: Vec<&str> = found.iter().map(|(n, _)| n.as_str()).collect();
    assert_eq!(names, vec!["a", "b", "c"]);
    assert_eq!(found[1].1.command, "two");
    assert_eq!(found[2].1.command, "four");
}

#[test]
fn mcp_config_files() {
    assert_eq!(
        mcp_config_paths("/w", Some("/h")),
        vec!["/w/.mcp.json", "/w/.agent/mcp.json", "/h/.agent/mcp.json"]
    );
    assert_eq!(mcp_config_paths("/w", None)[2], "./.agent/mcp.json");
}

#[test]
fn tool_definitions_carry_the_schema() {
    let d = cc_agent::tools::tool_definition("bash", "runs", BashTool.input_schema());
    assert_eq!(d.get_str("name"), Some("bash"));
    assert_eq!(d.get_str("description"), Some("runs"));
    assert_eq!(d.get("input_schema").unwrap().get_str("type"), Some("object"));
}

#[test]
fn error_statuses() {
    assert_eq!(AppError::BadRequest("x".into()).status_code(), 400);
    assert_eq!(AppError::PermissionDenied("x".into()).status_code(), 403);
    assert_eq!(AppError::Internal("x".into()).status_code(), 500);
    assert_eq!(AppError::BadRequest("x".into()).message(), "bad request: x");
}
