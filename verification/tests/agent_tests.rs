use pantheon::build_prompt;
use pantheon::identity::{Identity, Soul, DEFAULT_IDENTITY, DEFAULT_SOUL};
use pantheon::session::{Message, SessionSummary};
use pantheon::time::Timestamp;

#[test]
fn test_build_prompt_with_history() {
    let message = Message::new("s1".to_string(), "user", "Hello");
    let history = vec![message];
    let summaries: Vec<SessionSummary> = vec![];

    let prompt = build_prompt(None, None, "Test input", &history, &summaries);

    assert!(prompt.contains("=== Current Session History ==="));
    assert!(prompt.contains("User: Hello"));
    assert!(prompt.contains("Test input"));
}

#[test]
fn test_build_prompt_with_summaries() {
    let history: Vec<Message> = vec![];
    let summaries = vec![SessionSummary {
        session_id: "s1".to_string(),
        session_date: Timestamp::now(),
        summary: "Discussed Rust programming".to_string(),
        token_count: 100,
    }];

    let prompt = build_prompt(None, None, "Test input", &history, &summaries);

    assert!(prompt.contains("=== Previous Sessions Summary ==="));
    assert!(prompt.contains("Discussed Rust programming"));
}

#[test]
fn test_build_prompt_empty() {
    let history: Vec<Message> = vec![];
    let summaries: Vec<SessionSummary> = vec![];

    let prompt = build_prompt(None, None, "Test input", &history, &summaries);

    assert!(prompt.contains("User: Test input"));
    assert!(prompt.contains("Ao:"));
    assert_eq!(prompt, "User: Test input\nAo:");
}

#[test]
fn test_build_prompt_full_order() {
    let history = vec![
        Message::new("s".to_string(), "user", "Hi"),
        Message::new("s".to_string(), "ao", "Hello!"),
    ];
    let summaries = vec![SessionSummary {
        session_id: "old".to_string(),
        session_date: Timestamp::from_unix(86_400, 0).unwrap(),
        summary: "Talked.".to_string(),
        token_count: 3,
    }];
    let prompt = build_prompt(Some("SOUL"), Some("IDENT"), "Next", &history, &summaries);
    assert_eq!(
        prompt,
        "=== Ao's Soul ===\nSOUL\n=== End Soul ===\n\n\
         === Ao's Identity ===\nIDENT\n=== End Identity ===\n\n\
         === Previous Sessions Summary ===\nSession 1970-01-02: Talked.\n=== End Previous Sessions ===\n\n\
         === Current Session History ===\nUser: Hi\nAo: Hello!\n=== End Current History ===\n\n\
         User: Next\nAo:"
    );
}

#[test]
fn test_default_soul() {
    let soul = Soul::default_soul();
    assert!(soul.content().contains("curiosity"));
    assert!(soul.content().contains("patient"));
    assert_eq!(soul.path(), ".ao/SOUL.md");
    assert_eq!(soul.content(), DEFAULT_SOUL);
}

#[test]
fn test_default_identity() {
    let identity = Identity::default_identity();
    assert!(identity.content().contains("Ao"));
    assert!(identity.content().contains("help the user"));
    assert_eq!(identity.path(), ".ao/IDENTITY.md");
    assert_eq!(identity.content(), DEFAULT_IDENTITY);
}

#[test]
fn test_identity_reload_with_new_content() {
    let mut identity = Identity::loaded("First content".to_string(), "x/IDENTITY.md".to_string());
    assert_eq!(identity.content(), "First content");
    identity.reload_with("Updated content".to_string());
    assert_eq!(identity.content(), "Updated content");
    assert_eq!(identity.path(), "x/IDENTITY.md");
}

#[test]
fn test_loaded_soul_keeps_content_and_path() {
    let soul = Soul::loaded("Test soul content".to_string(), "d/SOUL.md".to_string());
    assert_eq!(soul.content(), "Test soul content");
    assert_eq!(soul.path(), "d/SOUL.md");
    assert!(soul.loaded_at().secs() > 0);
}

#[test]
fn test_agent_prompt_format() {
    let history: Vec<Message> = vec![];
    let summaries: Vec<SessionSummary> = vec![];
    let prompt = build_prompt(None, None, "Test message", &history, &summaries);

    assert!(prompt.contains("User:"));
    assert!(prompt.contains("Test message"));
    assert!(prompt.contains("Ao:"));
}
