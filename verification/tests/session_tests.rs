use pantheon::session::manager::{
    build_summary_request, default_auto_resume, default_db_path, default_max_history_tokens,
    default_summarize_on_close,
};
use pantheon::session::session::{stored_message, stored_session, stored_summary};
use pantheon::session::store::{select_recent_summaries, summaries_fit_budget};
use pantheon::session::{
    capitalize, estimate_tokens, Message, Session, SessionConfig, SessionManager, SessionSummary,
};
use pantheon::time::Timestamp;

#[test]
fn test_session_new() {
    let session = Session::new("test-id".to_string(), 8000);
    assert!(session.messages.is_empty());
    assert_eq!(session.id, "test-id");
    assert_eq!(session.max_history_tokens, 8000);
}

#[test]
fn session_test_add_message() {
    let mut session = Session::new("test".to_string(), 8000);
    session.add_message("user", "Hello");
    session.add_message("ao", "Hi there!");
    assert_eq!(session.messages.len(), 2);
    assert_eq!(session.messages[0].role, "user");
    assert_eq!(session.messages[1].role, "ao");
}

#[test]
fn test_token_estimation() {
    let msg = Message::new("s1".to_string(), "user", "Hello world");
    let tokens = msg.estimate_tokens();
    assert!(tokens > 0);
}

#[test]
fn session_test_clear_history() {
    let mut session = Session::new("test".to_string(), 8000);
    session.add_message("user", "Hello");
    session.clear_history();
    assert!(session.messages.is_empty());
}

#[test]
fn test_session_generate_id() {
    let id1 = Session::generate_id();
    let id2 = Session::generate_id();
    assert_ne!(id1, id2);
    assert_eq!(id1.len(), 36);
}

#[test]
fn test_capitalize() {
    assert_eq!(capitalize("user"), "User");
    assert_eq!(capitalize("ao"), "Ao");
    assert_eq!(capitalize(""), "");
}

#[test]
fn test_capitalize_full_uppercase_mapping() {
    assert_eq!(capitalize("\u{df}ig"), "SSig");
    assert_eq!(capitalize("Already"), "Already");
    assert_eq!(capitalize("1abc"), "1abc");
}

#[test]
fn test_estimate_tokens_exact_values() {
    assert_eq!(estimate_tokens(""), 0);
    assert_eq!(estimate_tokens("Hello world"), 6);
    assert_eq!(estimate_tokens("one two three four five six seven eight nine ten"), 17);
    assert_eq!(estimate_tokens("a\nb\n"), 10);
    assert_eq!(estimate_tokens("\n\n"), 8);
    assert_eq!(estimate_tokens("   "), 4);
    let ninety = vec!["w"; 90].join(" ");
    assert_eq!(estimate_tokens(&ninety), 120);
    let thousand = vec!["w"; 1000].join(" ");
    assert_eq!(estimate_tokens(&thousand), 1304);
}

#[test]
fn test_nonempty_text_costs_at_least_four() {
    for text in ["x", " ", "\n", "a b", "\r\n"] {
        assert!(estimate_tokens(text) >= 4);
    }
}

#[test]
fn test_session_estimate_tokens_sums_messages() {
    let mut session = Session::new("s".to_string(), 8000);
    assert_eq!(session.estimate_tokens(), 0);
    session.add_message("user", "Hello world");
    session.add_message("ao", "a\nb\n");
    assert!(session.tokens_fit());
    assert_eq!(session.estimate_tokens(), 16);
}

fn summary(id: &str, text: &str, tokens: usize) -> SessionSummary {
    SessionSummary {
        session_id: id.to_string(),
        session_date: Timestamp::from_unix(0, 0).unwrap(),
        summary: text.to_string(),
        token_count: tokens,
    }
}

#[test]
fn test_get_recent_summaries_within_token_limit() {
    let candidates: Vec<SessionSummary> = (0..5)
        .map(|i| summary(&format!("test-session-{}", i), &format!("Summary {}", i), 100))
        .collect();
    assert!(summaries_fit_budget(&candidates, 250));
    let summaries = select_recent_summaries(candidates, 250);
    assert!(summaries.len() <= 3);
    assert_eq!(summaries.len(), 2);
    assert_eq!(summaries[0].session_id, "test-session-0");
    assert_eq!(summaries[1].session_id, "test-session-1");
}

#[test]
fn test_recent_summaries_keep_first_even_if_too_large() {
    let candidates = vec![summary("a", "big", 500), summary("b", "small", 10)];
    let kept = select_recent_summaries(candidates, 250);
    assert_eq!(kept.len(), 1);
    assert_eq!(kept[0].session_id, "a");
    let kept = select_recent_summaries(Vec::new(), 250);
    assert!(kept.is_empty());
}

#[test]
fn test_recent_summaries_exact_budget() {
    let candidates = vec![summary("a", "x", 100), summary("b", "y", 150), summary("c", "z", 1)];
    let kept = select_recent_summaries(candidates, 250);
    assert_eq!(kept.len(), 2);
}

#[test]
fn test_summaries_fit_budget_detects_overflow() {
    let candidates = vec![summary("a", "x", usize::MAX), summary("b", "y", 1)];
    assert!(!summaries_fit_budget(&candidates, 0));
    assert!(!summaries_fit_budget(&candidates, usize::MAX));
    let candidates = vec![summary("a", "x", 5), summary("b", "y", usize::MAX)];
    assert!(!summaries_fit_budget(&candidates, 5));
    let candidates = vec![summary("a", "x", 5), summary("b", "y", usize::MAX - 5)];
    assert!(summaries_fit_budget(&candidates, 5));
    assert_eq!(select_recent_summaries(candidates, 5).len(), 1);
}

#[test]
fn test_session_config_defaults() {
    let config = SessionConfig::default();
    assert_eq!(config.max_history_tokens, 8000);
    assert_eq!(config.db_path, ".ao/sessions.db");
    assert!(config.auto_resume);
    assert!(config.summarize_on_close);
    assert_eq!(default_max_history_tokens(), 8000);
    assert_eq!(default_db_path(), ".ao/sessions.db");
    assert!(default_auto_resume());
    assert!(default_summarize_on_close());
}

fn started(config: SessionConfig) -> SessionManager {
    let mut manager = SessionManager::new(config);
    let session = manager.prepare_session(Session::generate_id());
    manager.start_session(session);
    manager
}

#[test]
fn test_start_session() {
    let manager = started(SessionConfig::default());
    let session = manager.current_session().unwrap();
    assert!(!session.id.is_empty());
    assert_eq!(session.messages.len(), 0);
    assert_eq!(session.max_history_tokens, 8000);
}

#[test]
fn manager_test_add_message() {
    let mut manager = started(SessionConfig::default());
    let saved = manager.add_message("user", "Hello").unwrap();
    assert_eq!(saved.content, "Hello");
    manager.add_message("ao", "Hi there!").unwrap();

    let session = manager.current_session().unwrap();
    assert_eq!(session.messages.len(), 2);
    assert_eq!(saved.session_id, session.id);
}

#[test]
fn test_add_message_without_session() {
    let mut manager = SessionManager::new(SessionConfig::default());
    assert!(manager.add_message("user", "Hello").is_none());
    assert!(manager.current_session().is_none());
}

#[test]
fn manager_test_clear_history() {
    let mut manager = started(SessionConfig::default());
    manager.add_message("user", "Hello").unwrap();
    manager.clear_history();

    let session = manager.current_session().unwrap();
    assert_eq!(session.messages.len(), 0);
}

#[test]
fn test_end_session_with_summarization() {
    let config = SessionConfig { summarize_on_close: true, ..Default::default() };
    let mut manager = started(config);
    manager.add_message("user", "Hello").unwrap();
    manager.add_message("ao", "Hi there!").unwrap();

    let request = manager.begin_end_session().unwrap();
    assert!(request.contains("User: Hello\nAo: Hi there!"));
    let record = manager.finish_end_session(Some("  Test summary of the conversation.\n".to_string()));

    assert!(record.is_some());
    let record = record.unwrap();
    assert_eq!(record.summary, "Test summary of the conversation.");
    assert_eq!(record.tokens, estimate_tokens("Test summary of the conversation."));
    let session = manager.current_session().unwrap();
    assert_eq!(session.summary, Some("Test summary of the conversation.".to_string()));
    assert_eq!(record.session_id, session.id);
}

#[test]
fn test_end_session_without_summarization() {
    let config = SessionConfig { summarize_on_close: false, ..Default::default() };
    let mut manager = started(config);
    manager.add_message("user", "Hello").unwrap();

    let request = manager.begin_end_session();
    assert!(request.is_none());
    assert!(manager.current_session().is_none());
}

#[test]
fn test_end_session_with_failed_model() {
    let mut manager = started(SessionConfig::default());
    manager.add_message("user", "Hello").unwrap();
    assert!(manager.begin_end_session().is_some());
    assert!(manager.finish_end_session(None).is_none());
    assert!(manager.current_session().is_none());
}

#[test]
fn test_end_empty_session_asks_nothing() {
    let mut manager = started(SessionConfig::default());
    assert!(manager.begin_end_session().is_none());
    assert!(manager.current_session().is_none());
}

#[test]
fn test_resume_last_session() {
    let config = SessionConfig { max_history_tokens: 300, ..Default::default() };
    let mut manager = SessionManager::new(config);
    assert!(!manager.resume_last_session(None));
    assert!(manager.current_session().is_none());
    let stored = Session::new("old".to_string(), 8000);
    assert!(manager.resume_last_session(Some(stored)));
    let session = manager.current_session().unwrap();
    assert_eq!(session.id, "old");
    assert_eq!(session.max_history_tokens, 300);
    assert_eq!(manager.get_config().max_history_tokens, 300);
}

#[test]
fn test_build_summary_request_exact() {
    let messages = vec![
        Message::new("s".to_string(), "user", "Hello"),
        Message::new("s".to_string(), "ao", "Hi there!"),
    ];
    assert_eq!(
        build_summary_request(&messages),
        "Summarize the following conversation in 2-3 paragraphs. Focus on: main topics discussed, \
         key decisions made, and any pending or unfinished tasks.\n\n=== Conversation Transcript ===\n\
         User: Hello\nAo: Hi there!\n=== End Transcript ===\n\nSummary:"
    );
}

#[test]
fn test_summary_new_takes_session_date() {
    let session = Session::new("s9".to_string(), 8000);
    let s = SessionSummary::new(&session, "text".to_string());
    assert_eq!(s.session_id, "s9");
    assert_eq!(s.summary, "text");
    assert_eq!(s.token_count, 0);
    assert_eq!(s.session_date.secs(), session.created_at.secs());
    assert_eq!(s.estimate_tokens(), estimate_tokens("text"));
}

#[test]
fn test_generated_id_layout() {
    let id = Session::generate_id();
    for (i, c) in id.chars().enumerate() {
        if i == 8 || i == 13 || i == 18 || i == 23 {
            assert_eq!(c, '-');
        } else {
            assert!(c.is_ascii_digit() || ('a'..='f').contains(&c));
        }
    }
    assert!(id.is_char_boundary(8));
}

#[test]
fn test_capitalize_ascii_idempotent() {
    for s in ["user", "Ao", "9lives", "-x", "zz top"] {
        let once = capitalize(s);
        assert_eq!(once.len(), s.len());
        assert_eq!(capitalize(&once), once);
    }
}

#[test]
fn test_larger_budget_keeps_prefix() {
    let make = || vec![summary("a", "x", 100), summary("b", "y", 100), summary("c", "z", 100)];
    let small = select_recent_summaries(make(), 150);
    let large = select_recent_summaries(make(), 250);
    assert_eq!(small.len(), 1);
    assert_eq!(large.len(), 2);
    assert_eq!(small[0].session_id, large[0].session_id);
}

#[test]
fn test_estimate_grows_with_a_word() {
    for text in ["", "a", "a\n", "one two three", "x\ny\n"] {
        let longer = format!("{} x", text);
        assert!(estimate_tokens(&longer) > estimate_tokens(text));
    }
    assert_eq!(estimate_tokens("a \t b"), estimate_tokens("a b"));
}

#[test]
fn test_manager_add_message_keeps_session_fields() {
    let mut manager = SessionManager::new(SessionConfig::default());
    let mut session = Session::new("keep".to_string(), 8000);
    session.name = Some("named".to_string());
    session.summary_tokens = 42;
    let created = session.created_at.secs();
    manager.start_session(session);
    manager.add_message("user", "Hello").unwrap();
    let s = manager.current_session().unwrap();
    assert_eq!(s.name, Some("named".to_string()));
    assert_eq!(s.summary_tokens, 42);
    assert_eq!(s.created_at.secs(), created);
}

#[test]
fn test_current_session_mut_changes_in_place() {
    let mut manager = SessionManager::new(SessionConfig::default());
    assert!(manager.current_session_mut().is_none());
    manager.start_session(Session::new("m".to_string(), 8000));
    manager.current_session_mut().unwrap().name = Some("renamed".to_string());
    assert_eq!(manager.current_session().unwrap().name, Some("renamed".to_string()));
}

#[test]
fn test_stored_rows() {
    let s = stored_session(
        "row".to_string(),
        None,
        "1970-01-01T00:00:00+00:00",
        "1970-01-02T00:00:00+00:00",
        Some("sum".to_string()),
        12,
        vec![],
    )
    .unwrap();
    assert_eq!(s.id, "row");
    assert_eq!(s.created_at.secs(), 0);
    assert_eq!(s.last_active_at.secs(), 86_400);
    assert_eq!(s.summary_tokens, 12);
    assert_eq!(s.max_history_tokens, 8000);
    assert!(stored_session("row".to_string(), None, "bad", "bad", None, 0, vec![]).is_none());
    let m = stored_message(3, "row".to_string(), "user".to_string(), "hi".to_string(), "1970-01-01T00:00:01Z").unwrap();
    assert_eq!(m.id, 3);
    assert_eq!(m.created_at.secs(), 1);
    assert!(stored_message(3, "r".to_string(), "u".to_string(), "c".to_string(), "?").is_none());
    let x = stored_summary("row".to_string(), "1970-01-01T00:00:00Z", "sum".to_string(), 7).unwrap();
    assert_eq!(x.token_count, 7);
    assert_eq!(x.session_date.secs(), 0);
}
