use pantheon::chat::{
    begin_send, finish_send, handle_key, help_text, identity_text, open_session, report_store_error, soul_text, status_text,
    welcome_text, ChatAction, Key,
};
use pantheon::identity::{Identity, Soul};
use pantheon::session::{Session, SessionConfig, SessionManager, SessionSummary};
use pantheon::time::Timestamp;
use pantheon::tui::Tui;

fn manager_with(id: &str) -> SessionManager {
    let mut manager = SessionManager::new(SessionConfig::default());
    manager.start_session(Session::new(id.to_string(), 8000));
    manager
}

fn type_line(tui: &mut Tui, manager: &mut SessionManager, soul: &Soul, identity: &Identity, line: &str) {
    for c in line.chars() {
        let action = handle_key(tui, manager, &[], soul, identity, Key::Char(c));
        assert!(matches!(action, ChatAction::Continue));
    }
}

#[test]
fn test_enter_sends_chat() {
    let mut tui = Tui::new();
    let mut manager = manager_with("0123456789abcdef");
    let soul = Soul::default_soul();
    let identity = Identity::default_identity();
    type_line(&mut tui, &mut manager, &soul, &identity, "hello there");
    assert_eq!(tui.input_text(), "hello there");
    let action = handle_key(&mut tui, &mut manager, &[], &soul, &identity, Key::Enter);
    match action {
        ChatAction::Send(text) => assert_eq!(text, "hello there"),
        _ => panic!("Expected Send"),
    }
    assert_eq!(tui.input_text(), "");
    assert_eq!(tui.cursor_position, 0);
    assert_eq!(tui.messages.len(), 1);
    assert_eq!(tui.messages[0].role, "user");
    assert_eq!(tui.messages[0].content, "hello there");
}

#[test]
fn test_enter_on_blank_line_does_nothing() {
    let mut tui = Tui::new();
    let mut manager = manager_with("0123456789abcdef");
    let soul = Soul::default_soul();
    let identity = Identity::default_identity();
    type_line(&mut tui, &mut manager, &soul, &identity, "   ");
    let action = handle_key(&mut tui, &mut manager, &[], &soul, &identity, Key::Enter);
    assert!(matches!(action, ChatAction::Continue));
    assert!(tui.messages.is_empty());
    assert_eq!(tui.input_text(), "");
}

#[test]
fn test_quit_by_command_and_escape() {
    let soul = Soul::default_soul();
    let identity = Identity::default_identity();
    let mut tui = Tui::new();
    let mut manager = manager_with("0123456789abcdef");
    type_line(&mut tui, &mut manager, &soul, &identity, " /quit ");
    let action = handle_key(&mut tui, &mut manager, &[], &soul, &identity, Key::Enter);
    assert!(matches!(action, ChatAction::Quit));
    assert_eq!(tui.messages.len(), 1);
    assert_eq!(tui.messages[0].content, "Summarizing conversation for future reference...");

    let mut tui = Tui::new();
    let action = handle_key(&mut tui, &mut manager, &[], &soul, &identity, Key::Esc);
    assert!(matches!(action, ChatAction::Quit));
    assert_eq!(tui.messages[0].role, "system");
}

#[test]
fn test_clear_command_clears_history() {
    let soul = Soul::default_soul();
    let identity = Identity::default_identity();
    let mut tui = Tui::new();
    let mut manager = manager_with("0123456789abcdef");
    manager.add_message("user", "Hello").unwrap();
    type_line(&mut tui, &mut manager, &soul, &identity, "/clear");
    let action = handle_key(&mut tui, &mut manager, &[], &soul, &identity, Key::Enter);
    assert!(matches!(action, ChatAction::Continue));
    assert_eq!(manager.current_session().unwrap().messages.len(), 0);
    assert_eq!(tui.messages[0].content, "History cleared.");
}

#[test]
fn test_help_command_shows_help() {
    let soul = Soul::default_soul();
    let identity = Identity::default_identity();
    let mut tui = Tui::new();
    let mut manager = manager_with("0123456789abcdef");
    type_line(&mut tui, &mut manager, &soul, &identity, "/help");
    handle_key(&mut tui, &mut manager, &[], &soul, &identity, Key::Enter);
    let help = help_text();
    assert_eq!(help.len(), 7);
    assert_eq!(help[0], "Available commands:");
    assert_eq!(help[6], "/identity  - View Ao's current identity");
    assert_eq!(tui.messages.len(), 7);
    for (m, line) in tui.messages.iter().zip(help.iter()) {
        assert_eq!(m.role, "system");
        assert_eq!(&m.content, line);
    }
}

#[test]
fn test_editing_keys() {
    let soul = Soul::default_soul();
    let identity = Identity::default_identity();
    let mut tui = Tui::new();
    let mut manager = manager_with("0123456789abcdef");
    type_line(&mut tui, &mut manager, &soul, &identity, "ac");
    handle_key(&mut tui, &mut manager, &[], &soul, &identity, Key::Left);
    handle_key(&mut tui, &mut manager, &[], &soul, &identity, Key::Char('b'));
    assert_eq!(tui.input_text(), "abc");
    handle_key(&mut tui, &mut manager, &[], &soul, &identity, Key::Right);
    handle_key(&mut tui, &mut manager, &[], &soul, &identity, Key::Backspace);
    assert_eq!(tui.input_text(), "ab");
    handle_key(&mut tui, &mut manager, &[], &soul, &identity, Key::Other);
    assert_eq!(tui.input_text(), "ab");
    handle_key(&mut tui, &mut manager, &[], &soul, &identity, Key::Up);
    handle_key(&mut tui, &mut manager, &[], &soul, &identity, Key::Down);
    assert_eq!(tui.scroll_offset(), 0);
}

#[test]
fn test_status_text_lines() {
    let mut manager = manager_with("0123456789abcdef");
    manager.add_message("user", "Hello world").unwrap();
    let summaries = vec![SessionSummary {
        session_id: "old".to_string(),
        session_date: Timestamp::from_unix(0, 0).unwrap(),
        summary: "Earlier talk".to_string(),
        token_count: 2,
    }];
    let lines = status_text(&manager, &summaries);
    assert_eq!(lines[0], "\u{2550}\u{2550}\u{2550} Session Status \u{2550}\u{2550}\u{2550}");
    assert_eq!(lines[1], "ID: 01234567");
    assert_eq!(lines[2], "Messages: 1");
    assert_eq!(lines[3], "Tokens: ~6");
    assert!(lines[4].starts_with("Created: "));
    assert_eq!(lines[6], "\u{2550}\u{2550}\u{2550} Previous Session Summaries (1) \u{2550}\u{2550}\u{2550}");
    assert_eq!(lines[7], "\u{2500}\u{2500}\u{2500} Session 1 (1970-01-01) \u{2500}\u{2500}\u{2500}");
    assert_eq!(lines[8], "Earlier talk");
    assert_eq!(lines.len(), 9);

    let lines = status_text(&manager, &[]);
    assert_eq!(lines.last().unwrap(), "No previous session summaries available.");

    let none = SessionManager::new(SessionConfig::default());
    assert_eq!(status_text(&none, &[]), vec!["No active session.".to_string()]);
}

#[test]
fn test_soul_and_identity_views() {
    let soul = Soul::loaded("line one\nline two\n".to_string(), "p/SOUL.md".to_string());
    let lines = soul_text(&soul);
    assert_eq!(
        lines,
        vec![
            "\u{2550}\u{2550}\u{2550} Ao's Soul \u{2550}\u{2550}\u{2550}".to_string(),
            "line one".to_string(),
            "line two".to_string(),
            "\u{2550}".repeat(20),
            "Soul file: p/SOUL.md".to_string(),
        ]
    );
    let identity = Identity::loaded("only".to_string(), "p/IDENTITY.md".to_string());
    let lines = identity_text(&identity);
    assert_eq!(lines[0], "\u{2550}\u{2550}\u{2550} Ao's Identity \u{2550}\u{2550}\u{2550}");
    assert_eq!(lines[1], "only");
    assert_eq!(lines[3], "Identity file: p/IDENTITY.md");
}

#[test]
fn test_welcome_text() {
    let manager = manager_with("abcdefgh-1234");
    assert_eq!(welcome_text(&manager, &[]), vec!["Session: abcdefgh".to_string()]);
    let summaries = vec![
        SessionSummary {
            session_id: "a".to_string(),
            session_date: Timestamp::now(),
            summary: "x".to_string(),
            token_count: 1,
        },
        SessionSummary {
            session_id: "b".to_string(),
            session_date: Timestamp::now(),
            summary: "y".to_string(),
            token_count: 1,
        },
    ];
    assert_eq!(
        welcome_text(&manager, &summaries),
        vec!["Session: abcdefgh".to_string(), "Loaded 2 previous session summaries".to_string()]
    );
    let none = SessionManager::new(SessionConfig::default());
    assert!(welcome_text(&none, &[]).is_empty());
}

#[test]
fn test_begin_send_history_is_earlier_turns() {
    let mut manager = manager_with("0123456789abcdef");
    manager.add_message("user", "Hello").unwrap();
    manager.add_message("ao", "Hi there!").unwrap();
    let (saved, history) = begin_send(&mut manager, "What now?");
    assert_eq!(history.len(), 2);
    assert_eq!(history[0].content, "Hello");
    assert_eq!(history[1].content, "Hi there!");
    let saved = saved.unwrap();
    assert_eq!(saved.role, "user");
    assert_eq!(saved.content, "What now?");
    assert_eq!(manager.current_session().unwrap().messages.len(), 3);

    let mut none = SessionManager::new(SessionConfig::default());
    let (saved, history) = begin_send(&mut none, "x");
    assert!(saved.is_none());
    assert!(history.is_empty());
}

#[test]
fn test_finish_send_reply_and_error() {
    let mut tui = Tui::new();
    let mut manager = manager_with("0123456789abcdef");
    let saved = finish_send(&mut tui, &mut manager, Ok("Sure.".to_string())).unwrap();
    assert_eq!(saved.role, "ao");
    assert_eq!(saved.content, "Sure.");
    assert_eq!(tui.messages[0].role, "ao");
    assert_eq!(tui.messages[0].content, "Sure.");
    assert_eq!(manager.current_session().unwrap().messages.len(), 1);

    let saved = finish_send(&mut tui, &mut manager, Err("ParseError".to_string()));
    assert!(saved.is_none());
    assert_eq!(tui.messages[1].role, "system");
    assert_eq!(tui.messages[1].content, "Error: ParseError");
    assert_eq!(manager.current_session().unwrap().messages.len(), 1);

    report_store_error(&mut tui, "disk full");
    assert_eq!(tui.messages[2].content, "Error storing message: disk full");
}

#[test]
fn test_open_session_start_up_rule() {
    let stored = Session::new("old-session".to_string(), 8000);
    let config = SessionConfig { max_history_tokens: 500, ..Default::default() };
    let mut manager = SessionManager::new(config.clone());
    assert!(open_session(&mut manager, Some(stored), "fresh".to_string()).is_none());
    assert_eq!(manager.current_session().unwrap().id, "old-session");
    assert_eq!(manager.current_session().unwrap().max_history_tokens, 500);

    let mut manager = SessionManager::new(config.clone());
    let created = open_session(&mut manager, None, "fresh".to_string()).unwrap();
    assert_eq!(created.id, "fresh");
    assert_eq!(created.max_history_tokens, 500);
    assert!(manager.current_session().is_none());

    let off = SessionConfig { auto_resume: false, ..Default::default() };
    let mut manager = SessionManager::new(off);
    let stored = Session::new("old-session".to_string(), 8000);
    let created = open_session(&mut manager, Some(stored), "fresh".to_string()).unwrap();
    assert_eq!(created.id, "fresh");
    assert!(manager.current_session().is_none());
}
