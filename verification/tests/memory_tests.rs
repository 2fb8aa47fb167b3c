use rust_system_agent::tools::memory::{clock_stamp, confirms_clear, MemoryEntry, MemoryManager, MemoryStore};

fn manager_with(entries: Vec<(&str, &str)>) -> MemoryManager {
    let mut m = MemoryManager::new("/tmp/data");
    let mut list = Vec::new();
    let mut id = 1u64;
    for (content, memory_type) in entries {
        list.push(MemoryEntry {
            id,
            content: content.to_string(),
            memory_type: memory_type.to_string(),
            importance: "medium".to_string(),
            timestamp: "2024-01-01T00:00:00+00:00".to_string(),
        });
        id += 1;
    }
    m.restore_at(
        Some(MemoryStore { entries: list, next_id: id, last_updated: "T0".to_string() }),
        "unused".to_string(),
    );
    m
}

#[test]
fn new_joins_memory_file_under_data_dir() {
    assert_eq!(MemoryManager::new("/tmp/data").file_path(), "/tmp/data/memory.json");
    assert_eq!(MemoryManager::new("/tmp/data/").file_path(), "/tmp/data/memory.json");
    assert_eq!(MemoryManager::new("").file_path(), "memory.json");
}

#[test]
fn empty_store_has_no_content() {
    let m = MemoryManager::new("d");
    assert_eq!(m.get_all_memory_content(), "No memory content yet.");
    assert_eq!(m.store().next_id, 1);
}

#[test]
fn restore_without_file_gives_fresh_store() {
    let mut m = manager_with(vec![("a", "t")]);
    m.restore_at(None, "NOW".to_string());
    assert!(m.store().entries.is_empty());
    assert_eq!(m.store().next_id, 1);
    assert_eq!(m.store().last_updated, "NOW");
}

#[test]
fn ensure_initialized_adds_context_once() {
    let mut m = MemoryManager::new("d");
    assert!(m.ensure_initialized_at("Linux 6.8 (kernel 6.8), Bash environment", "T1".to_string()));
    let s = m.store();
    assert_eq!(s.entries.len(), 2);
    assert_eq!(s.entries[0].id, 1);
    assert_eq!(s.entries[0].content, "System Context: Linux 6.8 (kernel 6.8), Bash environment");
    assert_eq!(s.entries[0].memory_type, "system_context");
    assert_eq!(s.entries[0].importance, "high");
    assert_eq!(s.entries[1].id, 2);
    assert_eq!(
        s.entries[1].content,
        "User Preferences: Language - Mixed (English/Chinese), Tone - Helpful and concise"
    );
    assert_eq!(s.entries[1].memory_type, "user_preferences");
    assert_eq!(s.entries[1].importance, "medium");
    assert_eq!(s.next_id, 3);
    assert_eq!(s.last_updated, "T1");
    // A second call finds the store non-empty and changes nothing.
    assert!(!m.ensure_initialized_at("other", "T2".to_string()));
    assert_eq!(m.store().entries.len(), 2);
    assert_eq!(m.store().last_updated, "T1");
}

#[test]
fn all_content_lists_entries() {
    let m = manager_with(vec![("likes tea", "user_note"), ("uses vim", "pref")]);
    assert_eq!(
        m.get_all_memory_content(),
        "# Memory Store\n\n- likes tea (type: user_note, time: 2024-01-01T00:00:00+00:00)\n- uses vim (type: pref, time: 2024-01-01T00:00:00+00:00)"
    );
}

#[test]
fn add_then_search_finds_entry() {
    let mut m = manager_with(vec![("Likes TEA", "user_note")]);
    assert_eq!(m.add_memory_at("prefers Python for scripting", "user_note", "medium", "T9".to_string()), "Memory saved successfully.");
    let s = m.store();
    assert_eq!(s.entries.len(), 2);
    assert_eq!(s.entries[1].id, 2);
    assert_eq!(s.entries[1].timestamp, "T9");
    assert_eq!(s.next_id, 3);
    assert_eq!(s.last_updated, "T9");
    assert_eq!(
        m.search_memory("PYTHON"),
        "Found 1 matching memories:\n\n1. [user_note] prefers Python for scripting (time: T9)"
    );
}

#[test]
fn search_is_case_insensitive_and_numbered() {
    let m = manager_with(vec![("Likes TEA", "a"), ("no match", "b"), ("green tea", "c")]);
    assert_eq!(
        m.search_memory("tea"),
        "Found 2 matching memories:\n\n1. [a] Likes TEA (time: 2024-01-01T00:00:00+00:00)\n2. [c] green tea (time: 2024-01-01T00:00:00+00:00)"
    );
    assert_eq!(m.search_memory("coffee"), "No matching memory found.");
}

#[test]
fn add_memory_with_clock_keeps_order() {
    let mut m = manager_with(vec![("x", "t")]);
    m.add_memory("y", "user_note", "low");
    let s = m.store();
    assert_eq!(s.entries.len(), 2);
    assert_eq!(s.entries[1].content, "y");
    assert_eq!(s.entries[1].importance, "low");
    assert_eq!(s.entries[1].id, 2);
}

#[test]
fn stats_count_types_in_first_seen_order() {
    let m = manager_with(vec![("1", "user_note"), ("2", "system_context"), ("3", "user_note")]);
    assert_eq!(
        m.get_stats(),
        "Memory Statistics:\n- Total entries: 3\n- Last updated: T0\n- Types:\n  user_note: 2\n  system_context: 1"
    );
}

#[test]
fn stats_of_empty_store() {
    let mut m = MemoryManager::new("d");
    m.restore_at(None, "T".to_string());
    assert_eq!(m.get_stats(), "Memory Statistics:\n- Total entries: 0\n- Last updated: T\n- Types:\n");
}

#[test]
fn delete_by_type_removes_only_that_type() {
    let mut m = manager_with(vec![("1", "user_note"), ("2", "system_context"), ("3", "user_note")]);
    assert_eq!(m.delete_by_type_at("  user_note ", "T5".to_string()), "Deleted 2 entries of type '  user_note '.");
    let s = m.store();
    assert_eq!(s.entries.len(), 1);
    assert_eq!(s.entries[0].content, "2");
    assert_eq!(s.next_id, 4);
    assert_eq!(s.last_updated, "T5");
    assert_eq!(m.delete_by_type_at("missing", "T6".to_string()), "Deleted 0 entries of type 'missing'.");
}

#[test]
fn clear_needs_confirmation() {
    let mut m = manager_with(vec![("1", "a")]);
    assert_eq!(m.clear_memory_at("yes", "T".to_string()), "Please input 'confirm' to clear all memories.");
    assert_eq!(m.store().entries.len(), 1);
    assert_eq!(m.clear_memory_at("  CONFIRM\n", "T7".to_string()), "All memories cleared.");
    assert!(m.store().entries.is_empty());
    assert_eq!(m.store().next_id, 1);
    assert_eq!(m.store().last_updated, "T7");
}

#[test]
fn confirmation_word() {
    assert!(confirms_clear("confirm"));
    assert!(confirms_clear(" Confirm "));
    assert!(!confirms_clear("confirmed"));
    assert!(!confirms_clear(""));
}

#[test]
fn search_lowercases_beyond_ascii() {
    let m = manager_with(vec![("ÄPFEL im Korb", "food")]);
    assert_eq!(
        m.search_memory("äpfel"),
        "Found 1 matching memories:\n\n1. [food] ÄPFEL im Korb (time: 2024-01-01T00:00:00+00:00)"
    );
}

#[test]
fn delete_then_add_keeps_ids_distinct() {
    let mut m = manager_with(vec![("a", "x"), ("b", "y"), ("c", "x"), ("d", "z")]);
    m.delete_by_type_at("x", "T1".to_string());
    m.add_memory_at("e", "x", "low", "T2".to_string());
    let s = m.store();
    let ids: Vec<u64> = s.entries.iter().map(|e| e.id).collect();
    assert_eq!(ids, vec![2, 4, 5]);
    assert!(ids.iter().all(|id| *id < s.next_id));
    assert_eq!(s.next_id, 6);
}

#[test]
fn search_same_answer_whatever_the_case() {
    let m = manager_with(vec![("Likes TEA", "a"), ("green tea", "c")]);
    assert_eq!(m.search_memory("TeA"), m.search_memory("tea"));
    assert_eq!(m.search_memory("TEA"), m.search_memory("tea"));
}

#[test]
fn narrower_query_lists_fewer() {
    let m = manager_with(vec![("Likes TEA", "a"), ("green tea", "c"), ("coffee", "d")]);
    assert_eq!(
        m.search_memory("Green Tea"),
        "Found 1 matching memories:\n\n1. [c] green tea (time: 2024-01-01T00:00:00+00:00)"
    );
    assert_eq!(
        m.search_memory(""),
        "Found 3 matching memories:\n\n1. [a] Likes TEA (time: 2024-01-01T00:00:00+00:00)\n2. [c] green tea (time: 2024-01-01T00:00:00+00:00)\n3. [d] coffee (time: 2024-01-01T00:00:00+00:00)"
    );
}

#[test]
fn added_entry_extends_dump_and_stats() {
    let mut m = manager_with(vec![]);
    assert_eq!(m.get_all_memory_content(), "No memory content yet.");
    m.add_memory_at("a", "x", "low", "T1".to_string());
    assert_eq!(m.get_all_memory_content(), "# Memory Store\n\n- a (type: x, time: T1)");
    let before = m.get_all_memory_content();
    m.add_memory_at("b", "x", "low", "T2".to_string());
    assert_eq!(m.get_all_memory_content(), before + "\n- b (type: x, time: T2)");
    m.add_memory_at("c", "y", "low", "T3".to_string());
    assert_eq!(
        m.get_stats(),
        "Memory Statistics:\n- Total entries: 3\n- Last updated: T3\n- Types:\n  x: 2\n  y: 1"
    );
}

#[test]
fn clock_dated_operations_are_exact() {
    let mut m = manager_with(vec![]);
    assert!(m.ensure_initialized("Linux"));
    let s = m.store();
    assert_eq!(s.entries[0].timestamp, s.last_updated);
    assert_eq!(s.entries[1].timestamp, s.last_updated);
    assert_eq!((s.entries[0].id, s.entries[1].id, s.next_id), (1, 2, 3));
    assert!(!m.ensure_initialized("Other"));
    assert_eq!(m.clear_memory("nope"), "Please input 'confirm' to clear all memories.");
    assert_eq!(m.store().entries.len(), 2);
    assert_eq!(m.clear_memory(" CONFIRM "), "All memories cleared.");
    assert_eq!(m.store().next_id, 1);
}

#[test]
fn ascii_case_and_blank_answers() {
    let m = manager_with(vec![("Rust Notes", "a"), ("other", "b")]);
    assert_eq!(m.search_memory("rust"), m.search_memory("RUST"));
    assert_eq!(m.search_memory("rUsT nOtEs"), m.search_memory("rust notes"));
    let mut m = manager_with(vec![("x", "a")]);
    assert_eq!(m.clear_memory("   "), "Please input 'confirm' to clear all memories.");
    assert_eq!(m.clear_memory(""), "Please input 'confirm' to clear all memories.");
    assert_eq!(m.store().entries.len(), 1);
}

#[test]
fn clock_stamp_is_rfc3339() {
    let t = clock_stamp();
    assert!(t.len() >= 20);
    assert_eq!(&t[4..5], "-");
    assert_eq!(&t[10..11], "T");
}
