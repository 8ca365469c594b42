use pantheon::tui::{title, wrap_text, InputResult, LineStyle, Tui};

#[test]
fn test_command_parsing_quit() {
    let tui = Tui::new();
    assert!(matches!(tui.handle_input("/quit"), InputResult::Quit));
}

#[test]
fn test_command_parsing_help() {
    let tui = Tui::new();
    match tui.handle_input("/help") {
        InputResult::Command(cmd) => assert_eq!(cmd, "help"),
        _ => panic!("Expected Command"),
    }
}

#[test]
fn test_chat_input() {
    let tui = Tui::new();
    match tui.handle_input("Hello world") {
        InputResult::Chat(text) => assert_eq!(text, "Hello world"),
        _ => panic!("Expected Chat"),
    }
}

#[test]
fn test_tui_add_message() {
    let mut tui = Tui::new();
    tui.add_message("user", "Hello");
    tui.add_message("ao", "Hi there!");

    assert_eq!(tui.messages.len(), 2);
    assert_eq!(tui.messages[0].role, "user");
    assert_eq!(tui.messages[0].content, "Hello");
    assert_eq!(tui.messages[1].role, "ao");
    assert_eq!(tui.messages[1].content, "Hi there!");
}

#[test]
fn test_input_trimming() {
    let tui = Tui::new();
    assert!(matches!(tui.handle_input("  /quit  "), InputResult::Quit));
}

#[test]
fn test_empty_input_parsed_as_chat() {
    let tui = Tui::new();
    assert!(matches!(tui.handle_input(""), InputResult::Chat(ref s) if s.is_empty()));
}

#[test]
fn test_scroll_offset() {
    let mut tui = Tui::new();
    for i in 0..10 {
        tui.add_message("user", &format!("Message {}", i));
    }

    tui.scroll_up(3);
    tui.scroll_down(5);

    let max_offset = tui.messages.len().saturating_sub(1);
    assert!(tui.scroll_offset() <= max_offset);
}

#[test]
fn test_other_commands_are_recognized() {
    let tui = Tui::new();
    for (line, word) in [
        ("/clear", "clear"),
        ("/status", "status"),
        ("/soul", "soul"),
        (" /identity\t", "identity"),
    ] {
        match tui.handle_input(line) {
            InputResult::Command(cmd) => assert_eq!(cmd, word),
            _ => panic!("Expected Command"),
        }
    }
}

#[test]
fn test_chat_text_is_passed_untrimmed() {
    let tui = Tui::new();
    match tui.handle_input("  hi /quit ") {
        InputResult::Chat(text) => assert_eq!(text, "  hi /quit "),
        _ => panic!("Expected Chat"),
    }
    match tui.handle_input("/unknown") {
        InputResult::Chat(text) => assert_eq!(text, "/unknown"),
        _ => panic!("Expected Chat"),
    }
}

#[test]
fn test_insert_then_backspace_restores_line() {
    let mut tui = Tui::new();
    tui.insert_char('a');
    tui.insert_char('c');
    tui.move_cursor_left();
    assert_eq!(tui.cursor_position, 1);
    tui.insert_char('b');
    assert_eq!(tui.input_text(), "abc");
    assert_eq!(tui.cursor_position, 2);
    tui.insert_char('x');
    assert_eq!(tui.input_text(), "abxc");
    tui.delete_char_before_cursor();
    assert_eq!(tui.input_text(), "abc");
    assert_eq!(tui.cursor_position, 2);
}

#[test]
fn test_insert_then_backspace_multibyte() {
    let mut tui = Tui::new();
    tui.insert_char('a');
    tui.insert_char('\u{e9}');
    assert_eq!(tui.input_text(), "a\u{e9}");
    assert_eq!(tui.cursor_position, 2);
    tui.delete_char_before_cursor();
    assert_eq!(tui.input_text(), "a");
    assert_eq!(tui.cursor_position, 1);
}

#[test]
fn test_backspace_at_start_does_nothing() {
    let mut tui = Tui::new();
    tui.delete_char_before_cursor();
    assert_eq!(tui.input_text(), "");
    assert_eq!(tui.cursor_position, 0);
    tui.insert_char('a');
    tui.move_cursor_left();
    tui.delete_char_before_cursor();
    assert_eq!(tui.input_text(), "a");
    assert_eq!(tui.cursor_position, 0);
}

#[test]
fn test_cursor_moves_stop_at_ends() {
    let mut tui = Tui::new();
    tui.move_cursor_left();
    assert_eq!(tui.cursor_position, 0);
    tui.insert_char('a');
    tui.move_cursor_right();
    assert_eq!(tui.cursor_position, 1);
    tui.move_cursor_left();
    tui.move_cursor_right();
    assert_eq!(tui.cursor_position, 1);
    tui.reset_cursor();
    assert_eq!(tui.cursor_position, 0);
    assert_eq!(tui.input_text(), "");
}

#[test]
fn test_wrap_text_fills_lines() {
    let lines = wrap_text("hello world", 100);
    assert_eq!(lines, vec!["hello world".to_string()]);
    let lines = wrap_text("", 100);
    assert_eq!(lines, vec!["".to_string()]);
    let lines = wrap_text("   ", 100);
    assert_eq!(lines, vec!["".to_string()]);
}

#[test]
fn test_wrap_text_breaks_at_room() {
    // Width 10 leaves less than 20 columns, so the room is 20.
    let lines = wrap_text("aaaa bbbb cccc dddd ee ffff", 10);
    // "aaaa bbbb cccc dddd" is 19 bytes; " ee" would make 22: the line is
    // finished there and the word that did not fit is not carried over.
    assert_eq!(lines, vec!["aaaa bbbb cccc dddd".to_string(), "ffff".to_string()]);
}

#[test]
fn test_wrap_text_prefix_takes_room() {
    // 30 columns less "[You] " and the border leave 22.
    let lines = wrap_text("[You] abcdefghij klmnopqrst uv", 30);
    assert_eq!(lines, vec!["[You] abcdefghij".to_string(), "uv".to_string()]);
    for line in &lines {
        assert!(line.len() <= 22);
    }
}

#[test]
fn test_wrap_text_long_word_stays_whole() {
    let word = "x".repeat(50);
    let lines = wrap_text(&word, 10);
    assert_eq!(lines, vec![word.clone()]);
}

#[test]
fn test_layout_and_status() {
    let mut tui = Tui::new();
    tui.add_message("user", "Hello");
    tui.add_message("ao", "Hi there!");
    tui.add_message("system", "note");
    tui.add_message("robot", "beep");
    let lines = tui.layout(80);
    let texts: Vec<String> = lines.iter().map(|l| l.text.clone()).collect();
    assert_eq!(
        texts,
        vec![
            "[You] Hello".to_string(),
            "[Ao] Hi there!".to_string(),
            "[*] note".to_string(),
            "[?] beep".to_string(),
        ]
    );
    assert_eq!(lines[0].style, LineStyle::User);
    assert_eq!(lines[1].style, LineStyle::Ao);
    assert_eq!(lines[2].style, LineStyle::System);
    assert_eq!(lines[3].style, LineStyle::Unknown);
    assert_eq!(tui.status_text(), " Messages: 2 | \u{2191}\u{2193} Scroll | /help | /quit ");
}

#[test]
fn test_layout_bounds_scrolling() {
    let mut tui = Tui::new();
    for i in 0..5 {
        tui.add_message("user", &format!("Message {}", i));
    }
    let lines = tui.layout(80);
    assert_eq!(lines.len(), 5);
    tui.scroll_down(100);
    assert_eq!(tui.scroll_offset(), 4);
    tui.scroll_up(3);
    assert_eq!(tui.scroll_offset(), 1);
    tui.scroll_up(3);
    assert_eq!(tui.scroll_offset(), 0);
    // Scrolled up, the view no longer follows new messages.
    tui.add_message("ao", "later");
    assert_eq!(tui.scroll_offset(), 0);
}

#[test]
fn test_new_messages_follow_bottom() {
    let mut tui = Tui::new();
    for i in 0..3 {
        tui.add_message("user", &format!("Message {}", i));
    }
    tui.layout(80);
    tui.add_message("ao", "reply");
    assert_eq!(tui.scroll_offset(), 2);
}

#[test]
fn test_title() {
    assert_eq!(title(false), " Pantheon v0.2.0 ");
    assert_eq!(title(true), " Pantheon v0.2.0 - Processing... ");
}

#[test]
fn test_status_text_counts_exchanges() {
    let mut tui = Tui::default();
    assert_eq!(tui.status_text(), " Messages: 0 | \u{2191}\u{2193} Scroll | /help | /quit ");
    for i in 0..25 {
        tui.add_message("user", &format!("{}", i));
    }
    assert_eq!(tui.status_text(), " Messages: 12 | \u{2191}\u{2193} Scroll | /help | /quit ");
}
