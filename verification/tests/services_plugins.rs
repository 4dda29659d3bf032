use cc_agent::errors::AppError;
use cc_agent::plugins::{copy_step, plugin_info, plugins_base_dir, plugins_dir, CopyStep, PluginId, PluginInstaller, PluginManifest, PluginStatus};
use cc_agent::services::{is_memory_file, io_failure, sort_memories, AnalyticsEvent, FileSessionMemory, LocalAnalytics, Memory};
use cc_agent::strmap::StrMap;

#[test]
fn memories_are_extracted_from_marked_lines() {
    let store = FileSessionMemory::with_dir("/m".to_string());
    let ms = store.extract_memories("hello\nREMEMBER: likes tea \nREMEMBER:REMEMBER:  twice\n  REMEMBER: indented", 42);
    assert_eq!(ms.len(), 2);
    assert_eq!(ms[0].content, "likes tea");
    assert_eq!(ms[1].content, "twice");
    assert_eq!(ms[0].id, "mem_42");
    assert_eq!(ms[0].created_at, 42);
    assert!(ms[0].tags.is_empty());
    assert_eq!(store.memory_path("mem_42"), "/m/mem_42.json");
}

#[test]
fn memory_locations() {
    assert_eq!(FileSessionMemory::new(Some("/h")).dir(), "/h/.agent/memories");
    assert_eq!(FileSessionMemory::new(None).dir(), "./.agent/memories");
    assert_eq!(LocalAnalytics::new(Some("/h")).path(), "/h/.agent/analytics.jsonl");
    assert_eq!(LocalAnalytics::with_path("/x".to_string()).path(), "/x");
    assert!(is_memory_file("/m/a.json"));
    assert!(!is_memory_file("/m/a.txt"));
    match io_failure("failed to create memories dir", "denied") {
        AppError::Internal(m) => assert_eq!(m, "failed to create memories dir: denied"),
        _ => panic!("expected an internal error"),
    }
    let mut props = StrMap::new();
    props.insert("k".to_string(), "v".to_string());
    let e = AnalyticsEvent::new("start", props, 7);
    assert_eq!(e.name, "start");
    assert_eq!(e.timestamp, 7);
}

fn mem(id: &str, t: u64) -> Memory {
    Memory { id: id.to_string(), content: String::new(), created_at: t, tags: vec![] }
}

#[test]
fn memories_sort_oldest_first_and_stably() {
    let sorted = sort_memories(vec![mem("c", 3), mem("a", 1), mem("b1", 2), mem("b2", 2)]);
    let ids: Vec<&str> = sorted.iter().map(|m| m.id.as_str()).collect();
    assert_eq!(ids, vec!["a", "b1", "b2", "c"]);
}

#[test]
fn plugins() {
    assert_eq!(plugins_dir(Some("/h")), Some("/h/.agent/plugins".to_string()));
    assert_eq!(plugins_dir(None), None);
    match plugins_base_dir(None) {
        Err(AppError::Internal(m)) => assert_eq!(m, "cannot determine home directory"),
        _ => panic!("expected an error"),
    }
    let info = plugin_info(
        "fmt",
        "/h/.agent/plugins/fmt",
        PluginManifest { name: "Formatter".into(), version: "1.0".into(), description: "d".into(), entry_point: "main".into() },
    );
    assert_eq!(info.id.as_str(), "fmt");
    assert_eq!(info.name, "Formatter");
    assert!(info.status == PluginStatus::Installed);
    let id = PluginId::new("fmt".to_string());
    assert_eq!(PluginInstaller::plugin_path("/p", &id), "/p/fmt");
    match PluginInstaller::not_installed(&id) {
        AppError::BadRequest(m) => assert_eq!(m, "Plugin 'fmt' is not installed"),
        _ => panic!("expected a refusal"),
    }
    match PluginInstaller::missing_source("/src") {
        AppError::BadRequest(m) => assert_eq!(m, "Source plugin path does not exist: /src"),
        _ => panic!("expected a refusal"),
    }
    assert!(matches!(copy_step("/d", "sub", true), CopyStep::Descend { dst } if dst == "/d/sub"));
    assert!(matches!(copy_step("/d", "f.txt", false), CopyStep::CopyFile { dst } if dst == "/d/f.txt"));
}
