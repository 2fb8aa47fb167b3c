use rust_system_agent::tools::file::{
    directory_entry_line, directory_listing, directory_to_list, read_failure_report, read_file_report, sort_lines,
};
use rust_system_agent::tools::memory::{MemoryEntry, MemoryManager, MemoryStore};
use rust_system_agent::tools::shell::{command_report, shell_command};
use rust_system_agent::tools::{plan_tool_call, request_writes_store, run_memory_tool, run_memory_tool_at, tool_definitions, ToolRequest};

#[test]
fn catalogue_has_nine_function_tools() {
    let defs = tool_definitions();
    let names: Vec<&str> = defs.iter().map(|d| d.function.name.as_str()).collect();
    assert_eq!(
        names,
        vec![
            "terminal", "read_file", "write_file", "list_directory", "remember_info", "search_memory",
            "memory_stats", "clear_memory", "delete_memory_type"
        ]
    );
    assert!(defs.iter().all(|d| d.tool_type == "function"));
    assert!(defs.iter().all(|d| d.function.parameters.schema_type == "object"));
    assert_eq!(defs[2].function.parameters.required, vec!["file_path".to_string(), "text".to_string()]);
    assert!(defs[3].function.parameters.required.is_empty());
    assert!(defs[6].function.parameters.properties.is_empty());
    assert_eq!(defs[0].function.parameters.properties[0].name, "command");
    assert_eq!(defs[0].function.parameters.properties[0].param_type, "string");
    assert_eq!(defs[0].function.parameters.properties[0].description, "The shell command to execute");
    assert_eq!(defs[7].function.description, "Clear all memories. Input 'confirm' to proceed.");
}

#[test]
fn every_offered_tool_is_dispatched() {
    for d in tool_definitions() {
        let req = plan_tool_call(&d.function.name, "{}");
        assert!(!matches!(req, ToolRequest::Unknown { .. }), "{}", d.function.name);
    }
}

#[test]
fn arguments_are_read_from_json() {
    match plan_tool_call("terminal", "{\"command\":\"uname -a\"}") {
        ToolRequest::Terminal { command } => assert_eq!(command, "uname -a"),
        _ => panic!(),
    }
    match plan_tool_call("write_file", "{\"file_path\":\"a.txt\",\"text\":\"hi\"}") {
        ToolRequest::WriteFile { file_path, text } => {
            assert_eq!(file_path, "a.txt");
            assert_eq!(text, "hi");
        }
        _ => panic!(),
    }
    match plan_tool_call("search_memory", "{\"query\":\"tea\"}") {
        ToolRequest::SearchMemory { query } => assert_eq!(query, "tea"),
        _ => panic!(),
    }
}

#[test]
fn missing_members_fall_back() {
    match plan_tool_call("terminal", "ls -la") {
        ToolRequest::Terminal { command } => assert_eq!(command, "ls -la"),
        _ => panic!(),
    }
    match plan_tool_call("read_file", "{\"path\":\"x\"}") {
        ToolRequest::ReadFile { file_path } => assert_eq!(file_path, "{\"path\":\"x\"}"),
        _ => panic!(),
    }
    match plan_tool_call("write_file", "not json") {
        ToolRequest::WriteFile { file_path, text } => {
            assert_eq!(file_path, "");
            assert_eq!(text, "");
        }
        _ => panic!(),
    }
    match plan_tool_call("list_directory", "{}") {
        ToolRequest::ListDirectory { path } => assert_eq!(path, "."),
        _ => panic!(),
    }
    match plan_tool_call("clear_memory", "{\"confirm\": 1}") {
        ToolRequest::ClearMemory { confirm } => assert_eq!(confirm, ""),
        _ => panic!(),
    }
    match plan_tool_call("delete_memory_type", "user_note") {
        ToolRequest::DeleteMemoryType { memory_type } => assert_eq!(memory_type, "user_note"),
        _ => panic!(),
    }
    assert!(matches!(plan_tool_call("memory_stats", ""), ToolRequest::MemoryStats));
}

#[test]
fn unknown_tool_is_reported() {
    match plan_tool_call("web_search", "{}") {
        ToolRequest::Unknown { message } => assert_eq!(message, "Unknown tool: web_search"),
        _ => panic!(),
    }
}

#[test]
fn memory_requests_are_served() {
    let mut m = MemoryManager::new("d");
    m.restore_at(Some(MemoryStore { entries: vec![], next_id: 7, last_updated: "T0".into() }), "x".into());
    let r = run_memory_tool_at(&mut m, &plan_tool_call("remember_info", "{\"content\":\"I like tea\"}"), "T1".into());
    assert_eq!(r.as_deref(), Some("Memory saved successfully."));
    let e: &MemoryEntry = &m.store().entries[0];
    assert_eq!(e.id, 7);
    assert_eq!(e.memory_type, "user_note");
    assert_eq!(e.importance, "medium");
    let r = run_memory_tool_at(&mut m, &plan_tool_call("search_memory", "{\"query\":\"TEA\"}"), "T2".into());
    assert_eq!(r.as_deref(), Some("Found 1 matching memories:\n\n1. [user_note] I like tea (time: T1)"));
    let r = run_memory_tool_at(&mut m, &plan_tool_call("terminal", "ls"), "T3".into());
    assert!(r.is_none());
    let r = run_memory_tool_at(&mut m, &plan_tool_call("delete_memory_type", "{\"memory_type\":\"user_note\"}"), "T4".into());
    assert_eq!(r.as_deref(), Some("Deleted 1 entries of type 'user_note'."));
}

#[test]
fn read_report_small_and_truncated() {
    assert_eq!(read_file_report("abc"), "File content:\nabc");
    let big = "x".repeat(50_010);
    let r = read_file_report(&big);
    assert_eq!(r, format!("File content (truncated, 50010 bytes total):\n{}...", "x".repeat(50_000)));
    assert_eq!(read_failure_report("a.txt", "No such file"), "Failed to read file 'a.txt': No such file");
}

#[test]
fn listing_is_sorted() {
    assert_eq!(directory_to_list("   "), ".");
    assert_eq!(directory_to_list(" /tmp "), "/tmp");
    assert_eq!(directory_entry_line("src", true), "[DIR]  src");
    assert_eq!(directory_entry_line("a.rs", false), "[FILE] a.rs");
    let lines = vec!["[FILE] b".to_string(), "[DIR]  z".to_string(), "[FILE] a".to_string()];
    assert_eq!(directory_listing("/p", lines), "Directory listing (/p):\n[DIR]  z\n[FILE] a\n[FILE] b");
    assert_eq!(directory_listing(".", vec![]), "Directory listing (.):\n");
    let sorted = sort_lines(vec!["é".into(), "z".into(), "Z".into(), "ab".into(), "a".into()]);
    assert_eq!(sorted, vec!["Z", "a", "ab", "z", "é"]);
}

#[test]
fn shell_command_check() {
    assert_eq!(shell_command("  \n"), Err("Error: empty command".to_string()));
    assert_eq!(shell_command("  ls -la  "), Ok("ls -la".to_string()));
}

#[test]
fn shell_reports() {
    assert_eq!(command_report(Some(0), "hi\n", ""), "Command succeeded. Output:\nhi\n");
    assert_eq!(
        command_report(Some(2), "", "bad"),
        "Command failed (exit code 2). stdout:\n\nstderr:\nbad"
    );
    assert_eq!(command_report(None, "o", "e"), "Command failed (exit code -1). stdout:\no\nstderr:\ne");
    let big = "y".repeat(8001);
    assert_eq!(
        command_report(Some(0), &big, ""),
        format!("Command succeeded. Output (truncated):\n{}...\n[8001 bytes total]", "y".repeat(8000))
    );
}

#[test]
fn memory_requests_with_the_clock() {
    let mut m = MemoryManager::new("d");
    m.restore_at(Some(MemoryStore { entries: vec![], next_id: 4, last_updated: "T0".into() }), "x".into());
    let r = run_memory_tool(&mut m, &plan_tool_call("remember_info", "{\"content\":\"note\"}"));
    assert_eq!(r.as_deref(), Some("Memory saved successfully."));
    let s = m.store();
    assert_eq!((s.entries.len(), s.entries[0].id, s.next_id), (1, 4, 5));
    assert_eq!(s.entries[0].memory_type, "user_note");
    assert_eq!(s.entries[0].importance, "medium");
    assert_eq!(s.entries[0].timestamp, s.last_updated);
    let r = run_memory_tool(&mut m, &plan_tool_call("clear_memory", "{\"confirm\":\"no\"}"));
    assert_eq!(r.as_deref(), Some("Please input 'confirm' to clear all memories."));
    assert_eq!(m.store().entries.len(), 1);
    let r = run_memory_tool(&mut m, &plan_tool_call("delete_memory_type", "{\"memory_type\":\" user_note \"}"));
    assert_eq!(r.as_deref(), Some("Deleted 1 entries of type ' user_note '."));
    assert_eq!(m.store().next_id, 5);
    let r = run_memory_tool(&mut m, &plan_tool_call("clear_memory", "{\"confirm\":\"confirm\"}"));
    assert_eq!(r.as_deref(), Some("All memories cleared."));
    assert_eq!((m.store().entries.len(), m.store().next_id), (0, 1));
}

#[test]
fn which_requests_write_the_store() {
    assert!(request_writes_store(&plan_tool_call("remember_info", "x")));
    assert!(request_writes_store(&plan_tool_call("delete_memory_type", "x")));
    assert!(request_writes_store(&plan_tool_call("clear_memory", "{\"confirm\":\" Confirm \"}")));
    assert!(!request_writes_store(&plan_tool_call("clear_memory", "notes")));
    assert!(!request_writes_store(&plan_tool_call("search_memory", "x")));
    assert!(!request_writes_store(&plan_tool_call("memory_stats", "{}")));
    assert!(!request_writes_store(&plan_tool_call("terminal", "ls")));
}

#[test]
fn missing_members_give_raw_arguments_or_defaults() {
    let mut m = MemoryManager::new("d");
    m.restore_at(Some(MemoryStore { entries: vec![], next_id: 1, last_updated: "T0".into() }), "x".into());
    run_memory_tool_at(&mut m, &plan_tool_call("remember_info", "notes"), "T1".into());
    assert_eq!(m.store().entries[0].content, "notes");
    let r = run_memory_tool_at(&mut m, &plan_tool_call("search_memory", "notes"), "T2".into());
    assert_eq!(r, Some(m.search_memory("notes")));
    let r = run_memory_tool_at(&mut m, &plan_tool_call("clear_memory", "notes"), "T3".into());
    assert_eq!(r.as_deref(), Some("Please input 'confirm' to clear all memories."));
    assert_eq!(m.store().entries.len(), 1);
}
