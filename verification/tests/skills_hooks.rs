use cc_agent::config::HookEntry;
use cc_agent::errors::AppError;
use cc_agent::hooks::{
    collect_outputs, hook_env, matching_entries, pre_tool_default, pre_tool_step, tool_matches, Outcome,
};
use cc_agent::process::CommandOutput;
use cc_agent::skills::{
    extract_field, is_markdown, is_standalone_skill, parse_skill, push_all_unique, push_from_dir,
    push_unique, read_failure, scan_skill_directories, skill_dirs, skill_file_in, split_frontmatter,
    Skill, SkillSource,
};

const RAW: &str = "\n---\nname: \"deploy\"\ndescription: Ship it\ntriggers: ship, , release \nhidden: Yes\nmodel: 'fast'\n---\n\n Body text \n";

#[test]
fn front_matter_is_split_and_read() {
    let (fm, body) = split_frontmatter(RAW);
    assert_eq!(fm, "\nname: \"deploy\"\ndescription: Ship it\ntriggers: ship, , release \nhidden: Yes\nmodel: 'fast'");
    assert_eq!(body, "\n\n Body text \n");
    assert_eq!(extract_field(&fm, "name"), Some("deploy".to_string()));
    assert_eq!(extract_field(&fm, "model"), Some("fast".to_string()));
    assert_eq!(extract_field(&fm, "missing"), None);
    let (fm, body) = split_frontmatter("no front matter");
    assert_eq!(fm, "");
    assert_eq!(body, "no front matter");
}

#[test]
fn skill_files_are_parsed() {
    let s = parse_skill(RAW, "/skills/x/SKILL.md").ok().unwrap();
    assert_eq!(s.metadata.name, "deploy");
    assert_eq!(s.metadata.description, "Ship it");
    assert_eq!(s.metadata.triggers, vec!["ship", "release"]);
    assert_eq!(s.metadata.model, Some("fast".to_string()));
    assert!(s.metadata.is_hidden);
    assert_eq!(s.content, "Body text");
    let plain = parse_skill("just text", "/skills/review.md").ok().unwrap();
    assert_eq!(plain.metadata.name, "review");
    assert!(!plain.metadata.is_hidden);
    assert!(plain.metadata.triggers.is_empty());
    match parse_skill("x", "/") {
        Err(AppError::BadRequest(m)) => assert_eq!(m, "Cannot determine name for \"/\""),
        _ => panic!("expected a refusal"),
    }
}

fn named(n: &str) -> Skill {
    let raw = format!("---\nname: {n}\n---\nbody");
    parse_skill(&raw, "/p/x.md").ok().unwrap()
}

#[test]
fn names_stay_unique() {
    let mut all = Vec::new();
    push_unique(&mut all, named("a"));
    push_unique(&mut all, named("a"));
    push_from_dir(&mut all, named("b"), "/u/skills", true);
    push_from_dir(&mut all, named("b"), ".agent/skills", false);
    push_all_unique(&mut all, vec![named("c"), named("a"), named("c")]);
    let names: Vec<&str> = all.iter().map(|s| s.metadata.name.as_str()).collect();
    assert_eq!(names, vec!["a", "b", "c"]);
    match &all[1].source {
        SkillSource::UserSkill(d) => assert_eq!(d, "/u/skills"),
        _ => panic!("expected a user skill"),
    }
}

#[test]
fn skill_locations() {
    let d = skill_dirs(Some("/h"));
    assert_eq!(d[0], ("/h/.agent/skills".to_string(), true));
    assert_eq!(d[3], (".agent/commands".to_string(), false));
    assert_eq!(scan_skill_directories(None), vec!["./.agent/skills", ".agent/skills", ".agent/commands"]);
    assert!(is_markdown("/a/B.MD"));
    assert!(!is_standalone_skill("/a/B.MD"));
    assert!(is_standalone_skill("/a/b.md"));
    assert_eq!(skill_file_in("/s/x", false, true), Some("/s/x/skill.md".to_string()));
    assert_eq!(skill_file_in("/s/x", true, true), Some("/s/x/SKILL.md".to_string()));
    assert_eq!(skill_file_in("/s/x", false, false), None);
    match read_failure("/s/x.md", "gone") {
        AppError::Internal(m) => assert_eq!(m, "Failed to read \"/s/x.md\": gone"),
        _ => panic!("expected an internal error"),
    }
}

fn hook(m: Option<&str>, c: &str) -> HookEntry {
    HookEntry { matcher: m.map(|x| x.to_string()), command: c.to_string() }
}

#[test]
fn hooks_match_tools() {
    assert!(tool_matches(&hook(None, "x"), "bash"));
    assert!(tool_matches(&hook(Some(""), "x"), "bash"));
    assert!(tool_matches(&hook(Some("as"), "x"), "bash"));
    assert!(!tool_matches(&hook(Some("read"), "x"), "bash"));
    let m = matching_entries(&vec![hook(Some("read"), "1"), hook(None, "2"), hook(Some("ba"), "3")], "bash");
    let cmds: Vec<&str> = m.iter().map(|h| h.command.as_str()).collect();
    assert_eq!(cmds, vec!["2", "3"]);
}

#[test]
fn hook_outcomes_decide() {
    let o = Outcome::from_output(&Ok(CommandOutput { success: false, code: Some(2), stdout: "  \n".into(), stderr: String::new() }));
    assert_eq!(o.exit_code, 2);
    let d = pre_tool_step(o).unwrap();
    assert!(d.blocked);
    assert_eq!(d.reason, "blocked by hook (exit 2)");
    let o = Outcome::from_output(&Err("spawn".into()));
    assert_eq!(o.exit_code, 1);
    let o = Outcome::from_output(&Ok(CommandOutput { success: false, code: None, stdout: String::new(), stderr: String::new() }));
    assert_eq!(o.exit_code, -1);
    let d = pre_tool_step(Outcome { exit_code: 0, stdout: "note".into() }).unwrap();
    assert!(!d.blocked);
    assert_eq!(d.output, "note");
    assert!(pre_tool_step(Outcome { exit_code: 0, stdout: String::new() }).is_none());
    let d = pre_tool_default();
    assert!(!d.blocked && d.reason.is_empty() && d.output.is_empty());
    let joined = collect_outputs(&vec![
        Outcome { exit_code: 0, stdout: "a".into() },
        Outcome { exit_code: 0, stdout: String::new() },
        Outcome { exit_code: 3, stdout: "b".into() },
    ]);
    assert_eq!(joined, "a\nb");
    let env = hook_env("bash", "{}", Some("out"));
    assert_eq!(env.len(), 3);
    assert_eq!(env[2], ("CLAUDE_TOOL_OUTPUT".to_string(), "out".to_string()));
}
