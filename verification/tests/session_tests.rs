use rust_system_agent::config::Config;
use rust_system_agent::llm::ChatMessage;
use rust_system_agent::session::{classify_input, query_from_words, record_exchange, SessionInput};

#[test]
fn single_query_joins_words() {
    assert_eq!(query_from_words(&vec!["show".into(), "disk".into(), "usage".into()]), Some("show disk usage".to_string()));
    assert_eq!(query_from_words(&vec![]), None);
    assert_eq!(query_from_words(&vec![" ".into(), "".into()]), None);
}

#[test]
fn input_lines() {
    assert!(matches!(classify_input("   "), SessionInput::Skip));
    assert!(matches!(classify_input(" quit "), SessionInput::Quit));
    assert!(matches!(classify_input("exit"), SessionInput::Quit));
    match classify_input("  list files \n") {
        SessionInput::Ask { query } => assert_eq!(query, "list files"),
        _ => panic!(),
    }
    assert!(matches!(classify_input("Quit"), SessionInput::Ask { .. }));
}

#[test]
fn history_keeps_last_ten_exchanges() {
    let mut h: Vec<ChatMessage> = Vec::new();
    for i in 0..12 {
        record_exchange(&mut h, format!("q{i}"), format!("a{i}"));
        assert!(h.len() <= 20);
    }
    assert_eq!(h.len(), 20);
    assert_eq!(h[0].content.as_deref(), Some("q2"));
    assert_eq!(h[0].role, "user");
    assert_eq!(h[19].content.as_deref(), Some("a11"));
    assert_eq!(h[19].role, "assistant");
}

#[test]
fn config_prefers_openrouter() {
    let c = Config::from_settings(Some("or".into()), Some("oa".into()), Some("http://x".into()), None, "/d".into()).unwrap();
    assert_eq!(c.api_key, "or");
    assert_eq!(c.base_url, "https://openrouter.ai/api/v1");
    assert_eq!(c.model, "google/gemini-2.5-flash");
    assert_eq!(c.max_iterations, 15);
    assert_eq!(c.data_dir, "/d");
}

#[test]
fn config_openai_variants() {
    let c = Config::from_settings(None, Some("oa".into()), None, Some("gpt-4o".into()), "/d".into()).unwrap();
    assert_eq!(c.api_key, "oa");
    assert_eq!(c.base_url, "https://api.openai.com/v1");
    assert_eq!(c.model, "gpt-4o");
    let c = Config::from_settings(None, Some("oa".into()), Some("http://local/v1".into()), None, "/d".into()).unwrap();
    assert_eq!(c.base_url, "http://local/v1");
}

#[test]
fn config_needs_a_key() {
    match Config::from_settings(None, None, Some("u".into()), None, "/d".into()) {
        Err(e) => assert_eq!(e, "Missing API key: set OPENROUTER_API_KEY or OPENAI_API_KEY"),
        Ok(_) => panic!(),
    }
}
