use vstd::prelude::*;
use vstd::string::*;
use vstd::utf8::{decode_utf8, encode_utf8};
use crate::identity::{Identity, Soul};
use crate::session::manager::{added_message, after_clear, SessionManager};
use crate::session::session::{messages_tokens, uuid_layout, Message, Session, SessionSummary};
use crate::text::{token_estimate, lemma_ascii_blen, lemma_encode_concat, lemma_prefix_boundary, decimal, on_boundary, push_decimal, split_lines, str_eq, str_trim, text_lines, trimmed};
use crate::tui::{after_delete, after_insert, after_left, after_right, after_scroll_down, after_scroll_up, delete_ready, insert_ready, screen_adds, scroll_down_ready, command_of, lemma_shows_more_chain, lemma_shows_nothing, shows_more, views, InputResult, Tui};

verus! {

/// A key press, as the chat loop reads it.
pub enum Key {
    Char(char),
    Backspace,
    Left,
    Right,
    Enter,
    Up,
    Down,
    Esc,
    Other,
}

/// What the chat loop does after a key press.
pub enum ChatAction {
    /// Read the next key.
    Continue,
    /// End the session (summarizing it) and leave.
    Quit,
    /// Store this chat text, ask the model about it, and show the answer.
    Send(String),
}

/// A system message with this text.
pub open spec fn sys(t: Seq<char>) -> (Seq<char>, Seq<char>) {
    ("system"@, t)
}

pub open spec fn sys_all(ts: Seq<Seq<char>>) -> Seq<(Seq<char>, Seq<char>)> {
    ts.map_values(|t: Seq<char>| sys(t))
}

/// The first 8 bytes of a session id, as text.
pub open spec fn id_head(id: Seq<char>) -> Seq<char> {
    decode_utf8(encode_utf8(id).subrange(0, 8))
}

/// An id whose first 8 bytes end on a character boundary.
pub open spec fn id_sliceable(id: Seq<char>) -> bool {
    on_boundary(id, 8)
}

/// A session id in the UUID layout can be cut after 8 bytes, and its head
/// is its first 8 characters.
pub proof fn lemma_uuid_id_head(id: Seq<char>)
    requires
        uuid_layout(id),
    ensures
        id_sliceable(id),
        id_head(id) == id.take(8),
{
    let a = id.take(8);
    let b = id.skip(8);
    assert forall|i: int| 0 <= i < a.len() implies (#[trigger] a[i] as u32) < 0x80 by {
        assert(a[i] == id[i]);
        assert(id[i] == '-' || crate::session::session::is_hex_lower(id[i]));
    }
    lemma_ascii_blen(a);
    assert(a + b =~= id);
    lemma_prefix_boundary(a, b);
    lemma_encode_concat(a, b);
    assert(encode_utf8(id).subrange(0, 8) =~= encode_utf8(a));
    vstd::utf8::encode_utf8_decode_utf8(a);
}

/// The lines of `/help`.
pub open spec fn help_lines() -> Seq<Seq<char>> {
    seq![
        "Available commands:"@,
        "/quit      - Exit the application"@,
        "/help      - Show this help message"@,
        "/clear     - Clear conversation history"@,
        "/status    - Show current session info"@,
        "/soul      - View Ao's core soul"@,
        "/identity  - View Ao's current identity"@,
    ]
}

/// Two lines per earlier summary: a numbered, dated heading and the text.
pub open spec fn summary_entries(sums: Seq<SessionSummary>) -> Seq<Seq<char>>
    decreases sums.len(),
{
    if sums.len() == 0 {
        Seq::empty()
    } else {
        summary_entries(sums.drop_last()) + seq![
            "\u{2500}\u{2500}\u{2500} Session "@ + decimal(sums.len()) + " ("@
                + sums.last().session_date.date_text() + ") \u{2500}\u{2500}\u{2500}"@,
            sums.last().summary@,
        ]
    }
}

/// The lines of `/status`.
pub open spec fn status_lines(current: Option<Session>, sums: Seq<SessionSummary>) -> Seq<Seq<char>> {
    match current {
        None => seq!["No active session."@],
        Some(s) => seq![
            "\u{2550}\u{2550}\u{2550} Session Status \u{2550}\u{2550}\u{2550}"@,
            "ID: "@ + id_head(s.id@),
            "Messages: "@ + decimal(s.messages@.len()),
            "Tokens: ~"@ + decimal(messages_tokens(s.messages@)),
            "Created: "@ + s.created_at.date_time_text(),
            "\u{2550}\u{2550}\u{2550}\u{2550}\u{2550}\u{2550}\u{2550}\u{2550}\u{2550}\u{2550}\u{2550}\u{2550}\u{2550}\u{2550}\u{2550}\u{2550}\u{2550}\u{2550}\u{2550}\u{2550}"@,
            "\u{2550}\u{2550}\u{2550} Previous Session Summaries ("@ + decimal(sums.len())
                + ") \u{2550}\u{2550}\u{2550}"@,
        ] + summary_entries(sums) + if sums.len() == 0 {
            seq!["No previous session summaries available."@]
        } else {
            Seq::empty()
        },
    }
}

/// What `/status` needs of the current session: an id that can be cut
/// after 8 bytes and a token total that fits a `usize`.
pub open spec fn status_ready(current: Option<Session>) -> bool {
    current matches Some(s) ==> {
        &&& id_sliceable(s.id@)
        &&& messages_tokens(s.messages@) <= usize::MAX
    }
}

/// The lines that show a file's content: a title, the content line by
/// line, a rule, and where the file is.
pub open spec fn file_view_lines(
    title: Seq<char>,
    content: Seq<char>,
    label: Seq<char>,
    path: Seq<char>,
) -> Seq<Seq<char>> {
    seq![title] + text_lines(content) + seq![
        "\u{2550}\u{2550}\u{2550}\u{2550}\u{2550}\u{2550}\u{2550}\u{2550}\u{2550}\u{2550}\u{2550}\u{2550}\u{2550}\u{2550}\u{2550}\u{2550}\u{2550}\u{2550}\u{2550}\u{2550}"@,
        label + path,
    ]
}

pub open spec fn soul_lines(soul: Soul) -> Seq<Seq<char>> {
    file_view_lines(
        "\u{2550}\u{2550}\u{2550} Ao's Soul \u{2550}\u{2550}\u{2550}"@,
        soul.content_spec(),
        "Soul file: "@,
        soul.path_spec(),
    )
}

pub open spec fn identity_lines(identity: Identity) -> Seq<Seq<char>> {
    file_view_lines(
        "\u{2550}\u{2550}\u{2550} Ao's Identity \u{2550}\u{2550}\u{2550}"@,
        identity.content_spec(),
        "Identity file: "@,
        identity.path_spec(),
    )
}

/// The lines shown when the chat opens.
pub open spec fn welcome_lines(current: Option<Session>, sums: Seq<SessionSummary>) -> Seq<Seq<char>> {
    match current {
        None => Seq::empty(),
        Some(s) => seq!["Session: "@ + id_head(s.id@)] + if sums.len() > 0 {
            seq!["Loaded "@ + decimal(sums.len()) + " previous session summaries"@]
        } else {
            Seq::empty()
        },
    }
}

/// The notice shown while the session is being summarized on leaving.
pub open spec fn quit_notice() -> Seq<char> {
    "Summarizing conversation for future reference..."@
}

/// Shows each line as a system message.
pub fn say_all(tui: &mut Tui, lines: &Vec<String>)
    ensures
        shows_more(*old(tui), *final(tui), sys_all(views(lines@))),
{
    let mut i: usize = 0;
    proof {
        lemma_shows_nothing(*tui);
        assert(sys_all(views(lines@.take(0))) =~= Seq::<(Seq<char>, Seq<char>)>::empty());
    }
    while i < lines.len()
        invariant
            i <= lines@.len(),
            shows_more(*old(tui), *tui, sys_all(views(lines@.take(i as int)))),
        decreases lines@.len() - i,
    {
        let ghost mid = *tui;
        tui.add_message("system", lines[i].as_str());
        proof {
            lemma_shows_more_chain(
                *old(tui),
                mid,
                *tui,
                sys_all(views(lines@.take(i as int))),
                seq![sys(lines@[i as int]@)],
            );
            assert(sys_all(views(lines@.take(i + 1))) =~= sys_all(views(lines@.take(i as int))) + seq![
                sys(lines@[i as int]@),
            ]);
        }
        i = i + 1;
    }
    assert(lines@.take(lines@.len() as int) =~= lines@);
}

/// Text of the first 8 bytes of a session id.
fn id_head_of(id: &String) -> (r: String)
    requires
        id_sliceable(id@),
    ensures
        r@ == id_head(id@),
{
    let (head, _) = id.as_str().split_at(8);
    proof {
        vstd::utf8::encode_utf8_decode_utf8(head@);
    }
    head.to_owned()
}

/// The lines of `/help`.
pub fn help_text() -> (lines: Vec<String>)
    ensures
        views(lines@) == help_lines(),
{
    let mut lines: Vec<String> = Vec::new();
    lines.push("Available commands:".to_owned());
    lines.push("/quit      - Exit the application".to_owned());
    lines.push("/help      - Show this help message".to_owned());
    lines.push("/clear     - Clear conversation history".to_owned());
    lines.push("/status    - Show current session info".to_owned());
    lines.push("/soul      - View Ao's core soul".to_owned());
    lines.push("/identity  - View Ao's current identity".to_owned());
    assert(views(lines@) =~= help_lines());
    lines
}

/// The lines of `/status` (see `status_lines`).
pub fn status_text(manager: &SessionManager, summaries: &[SessionSummary]) -> (lines: Vec<String>)
    requires
        status_ready(manager.current()),
    ensures
        views(lines@) == status_lines(manager.current(), summaries@),
{
    let mut lines: Vec<String> = Vec::new();
    match manager.current_session() {
        None => {
            lines.push("No active session.".to_owned());
            assert(views(lines@) =~= status_lines(manager.current(), summaries@));
        },
        Some(session) => {
            lines.push("\u{2550}\u{2550}\u{2550} Session Status \u{2550}\u{2550}\u{2550}".to_owned());
            let mut id_line = "ID: ".to_owned();
            let head = id_head_of(&session.id);
            id_line.append(head.as_str());
            lines.push(id_line);
            let mut count_line = "Messages: ".to_owned();
            push_decimal(&mut count_line, session.messages.len());
            lines.push(count_line);
            let mut token_line = "Tokens: ~".to_owned();
            let tokens = session.estimate_tokens();
            push_decimal(&mut token_line, tokens);
            lines.push(token_line);
            let mut created_line = "Created: ".to_owned();
            let created = session.created_at.format_date_time();
            created_line.append(created.as_str());
            lines.push(created_line);
            lines.push(
                "\u{2550}\u{2550}\u{2550}\u{2550}\u{2550}\u{2550}\u{2550}\u{2550}\u{2550}\u{2550}\u{2550}\u{2550}\u{2550}\u{2550}\u{2550}\u{2550}\u{2550}\u{2550}\u{2550}\u{2550}".to_owned(),
            );
            let mut heading = "\u{2550}\u{2550}\u{2550} Previous Session Summaries (".to_owned();
            push_decimal(&mut heading, summaries.len());
            heading.append(") \u{2550}\u{2550}\u{2550}");
            lines.push(heading);
            let ghost fixed = views(lines@);
            assert(fixed =~= seq![
                "\u{2550}\u{2550}\u{2550} Session Status \u{2550}\u{2550}\u{2550}"@,
                "ID: "@ + id_head(session.id@),
                "Messages: "@ + decimal(session.messages@.len()),
                "Tokens: ~"@ + decimal(messages_tokens(session.messages@)),
                "Created: "@ + session.created_at.date_time_text(),
                "\u{2550}\u{2550}\u{2550}\u{2550}\u{2550}\u{2550}\u{2550}\u{2550}\u{2550}\u{2550}\u{2550}\u{2550}\u{2550}\u{2550}\u{2550}\u{2550}\u{2550}\u{2550}\u{2550}\u{2550}"@,
                "\u{2550}\u{2550}\u{2550} Previous Session Summaries ("@ + decimal(summaries@.len())
                    + ") \u{2550}\u{2550}\u{2550}"@,
            ]);
            assert(summaries@.take(0) =~= Seq::<SessionSummary>::empty());
            let mut i: usize = 0;
            while i < summaries.len()
                invariant
                    i <= summaries@.len(),
                    views(lines@) == fixed + summary_entries(summaries@.take(i as int)),
                decreases summaries@.len() - i,
            {
                let mut entry = "\u{2500}\u{2500}\u{2500} Session ".to_owned();
                push_decimal(&mut entry, i + 1);
                entry.append(" (");
                let date = summaries[i].session_date.format_date();
                entry.append(date.as_str());
                entry.append(") \u{2500}\u{2500}\u{2500}");
                let ghost prev = views(lines@);
                let ghost entry_view = entry@;
                lines.push(entry);
                lines.push(summaries[i].summary.clone());
                proof {
                    assert(views(lines@) =~= prev.push(entry_view).push(summaries@[i as int].summary@));
                    let t = summaries@.take(i + 1);
                    assert(t.drop_last() =~= summaries@.take(i as int));
                    assert(t.len() == i + 1);
                    assert(views(lines@) =~= fixed + summary_entries(t));
                }
                i = i + 1;
            }
            assert(summaries@.take(summaries@.len() as int) =~= summaries@);
            if summaries.len() == 0 {
                lines.push("No previous session summaries available.".to_owned());
            }
            assert(views(lines@) =~= status_lines(manager.current(), summaries@));
        },
    }
    lines
}

/// The lines that show a file (see `file_view_lines`).
fn file_view(title: &str, content: &str, label: &str, path: &str) -> (lines: Vec<String>)
    ensures
        views(lines@) == file_view_lines(title@, content@, label@, path@),
{
    let mut lines: Vec<String> = Vec::new();
    lines.push(title.to_owned());
    let body = split_lines(content);
    let mut i: usize = 0;
    assert(body@.map_values(|l: String| l@) == views(body@));
    while i < body.len()
        invariant
            i <= body@.len(),
            views(body@) == text_lines(content@),
            views(lines@) == seq![title@] + views(body@).take(i as int),
        decreases body@.len() - i,
    {
        let ghost prev = views(lines@);
        lines.push(body[i].clone());
        assert(views(lines@) =~= prev.push(body@[i as int]@));
        assert(views(body@).take(i + 1) =~= views(body@).take(i as int).push(body@[i as int]@));
        assert(views(lines@) =~= seq![title@] + views(body@).take(i + 1));
        i = i + 1;
    }
    assert(views(body@).take(body@.len() as int) =~= views(body@));
    lines.push(
        "\u{2550}\u{2550}\u{2550}\u{2550}\u{2550}\u{2550}\u{2550}\u{2550}\u{2550}\u{2550}\u{2550}\u{2550}\u{2550}\u{2550}\u{2550}\u{2550}\u{2550}\u{2550}\u{2550}\u{2550}".to_owned(),
    );
    let mut where_line = label.to_owned();
    where_line.append(path);
    lines.push(where_line);
    assert(views(lines@) =~= file_view_lines(title@, content@, label@, path@));
    lines
}

/// The lines of `/soul`.
pub fn soul_text(soul: &Soul) -> (lines: Vec<String>)
    ensures
        views(lines@) == soul_lines(*soul),
{
    file_view("\u{2550}\u{2550}\u{2550} Ao's Soul \u{2550}\u{2550}\u{2550}", soul.content(), "Soul file: ", soul.path())
}

/// The lines of `/identity`.
pub fn identity_text(identity: &Identity) -> (lines: Vec<String>)
    ensures
        views(lines@) == identity_lines(*identity),
{
    file_view(
        "\u{2550}\u{2550}\u{2550} Ao's Identity \u{2550}\u{2550}\u{2550}",
        identity.content(),
        "Identity file: ",
        identity.path(),
    )
}

/// The lines shown when the chat opens (see `welcome_lines`).
pub fn welcome_text(manager: &SessionManager, summaries: &[SessionSummary]) -> (lines: Vec<String>)
    requires
        manager.current() matches Some(s) ==> id_sliceable(s.id@),
    ensures
        views(lines@) == welcome_lines(manager.current(), summaries@),
{
    let mut lines: Vec<String> = Vec::new();
    match manager.current_session() {
        None => {},
        Some(session) => {
            let mut first = "Session: ".to_owned();
            let head = id_head_of(&session.id);
            first.append(head.as_str());
            lines.push(first);
            if summaries.len() > 0 {
                let mut loaded = "Loaded ".to_owned();
                push_decimal(&mut loaded, summaries.len());
                loaded.append(" previous session summaries");
                lines.push(loaded);
            }
        },
    }
    assert(views(lines@) =~= welcome_lines(manager.current(), summaries@));
    lines
}

/// The messages that Enter shows for the line `input`: none for a blank
/// line, the notice for `/quit`, the command's lines for a command, and
/// the line itself, as the user's, for chat.
pub open spec fn enter_added(
    input: Seq<char>,
    current: Option<Session>,
    sums: Seq<SessionSummary>,
    soul: Soul,
    identity: Identity,
) -> Seq<(Seq<char>, Seq<char>)> {
    let t = trimmed(input);
    if t.len() == 0 {
        Seq::empty()
    } else if t == "/quit"@ {
        sys_all(seq![quit_notice()])
    } else if command_of(t) == Some("help"@) {
        sys_all(help_lines())
    } else if command_of(t) == Some("clear"@) {
        sys_all(seq!["History cleared."@])
    } else if command_of(t) == Some("status"@) {
        sys_all(status_lines(current, sums))
    } else if command_of(t) == Some("soul"@) {
        sys_all(soul_lines(soul))
    } else if command_of(t) == Some("identity"@) {
        sys_all(identity_lines(identity))
    } else {
        seq![("user"@, input)]
    }
}

/// The manager is as it was.
pub open spec fn unchanged(b: SessionManager, a: SessionManager) -> bool {
    a.current() == b.current() && a.config_spec() == b.config_spec()
}

/// What a key needs of the state: the edits it makes must be able to run
/// (an offset on a character boundary, no counter overflow).
pub open spec fn key_ready(key: Key, tui: Tui, manager: SessionManager) -> bool {
    match key {
        Key::Char(_) => insert_ready(tui),
        Key::Backspace => delete_ready(tui),
        Key::Down => scroll_down_ready(tui, 3),
        Key::Enter => command_of(trimmed(tui.input())) == Some("status"@) ==> status_ready(
            manager.current(),
        ),
        _ => true,
    }
}

/// One key press of the chat: edits the input line, scrolls, or (Enter,
/// Esc) acts on the line; returns what the loop does next.
pub fn handle_key(
    tui: &mut Tui,
    manager: &mut SessionManager,
    summaries: &[SessionSummary],
    soul: &Soul,
    identity: &Identity,
    key: Key,
) -> (action: ChatAction)
    requires
        key_ready(key, *old(tui), *old(manager)),
    ensures
        match key {
            Key::Char(c) => after_insert(*old(tui), *final(tui), c) && unchanged(*old(manager), *final(manager)) && action is Continue,
            Key::Backspace => after_delete(*old(tui), *final(tui)) && unchanged(*old(manager), *final(manager)) && action is Continue,
            Key::Left => after_left(*old(tui), *final(tui)) && unchanged(*old(manager), *final(manager)) && action is Continue,
            Key::Right => after_right(*old(tui), *final(tui)) && unchanged(*old(manager), *final(manager)) && action is Continue,
            Key::Up => after_scroll_up(*old(tui), *final(tui), 3) && unchanged(*old(manager), *final(manager)) && action is Continue,
            Key::Down => after_scroll_down(*old(tui), *final(tui), 3) && unchanged(*old(manager), *final(manager)) && action is Continue,
            Key::Esc => shows_more(*old(tui), *final(tui), sys_all(seq![quit_notice()])) && unchanged(*old(manager), *final(manager)) && action is Quit,
            Key::Other => *final(tui) == *old(tui) && unchanged(*old(manager), *final(manager)) && action is Continue,
            Key::Enter => {
                let input = old(tui).input();
                let t = trimmed(input);
                &&& final(tui).input().len() == 0
                &&& final(tui).cursor() == 0
                &&& screen_adds(*old(tui), *final(tui), enter_added(input, old(manager).current(), summaries@, *soul, *identity))
                &&& (t.len() > 0 && command_of(t) == Some("clear"@) && t != "/quit"@) ==> after_clear(*old(manager), *final(manager))
                &&& !(t.len() > 0 && command_of(t) == Some("clear"@) && t != "/quit"@) ==> unchanged(*old(manager), *final(manager))
                &&& t.len() == 0 ==> action is Continue
                &&& t.len() > 0 && t == "/quit"@ ==> action is Quit
                &&& t.len() > 0 && t != "/quit"@ && command_of(t) is Some ==> action is Continue
                &&& t.len() > 0 && t != "/quit"@ && command_of(t) is None ==> (action matches ChatAction::Send(text) && text@ == input)
            },
        },
{
    match key {
        Key::Char(c) => {
            tui.insert_char(c);
            ChatAction::Continue
        },
        Key::Backspace => {
            tui.delete_char_before_cursor();
            ChatAction::Continue
        },
        Key::Left => {
            tui.move_cursor_left();
            ChatAction::Continue
        },
        Key::Right => {
            tui.move_cursor_right();
            ChatAction::Continue
        },
        Key::Up => {
            tui.scroll_up(3);
            ChatAction::Continue
        },
        Key::Down => {
            tui.scroll_down(3);
            ChatAction::Continue
        },
        Key::Esc => {
            tui.add_message("system", "Summarizing conversation for future reference...");
            assert(seq![("system"@, "Summarizing conversation for future reference..."@)] =~= sys_all(seq![quit_notice()]));
            ChatAction::Quit
        },
        Key::Other => ChatAction::Continue,
        Key::Enter => on_enter(tui, manager, summaries, soul, identity),
    }
}

/// The command words differ from one another.
proof fn lemma_command_words()
    ensures
        "help"@ != "clear"@,
        "help"@ != "status"@,
        "help"@ != "soul"@,
        "help"@ != "identity"@,
        "clear"@ != "status"@,
        "clear"@ != "soul"@,
        "clear"@ != "identity"@,
        "status"@ != "soul"@,
        "status"@ != "identity"@,
        "soul"@ != "identity"@,
{
    reveal_strlit("help");
    reveal_strlit("clear");
    reveal_strlit("status");
    reveal_strlit("soul");
    reveal_strlit("identity");
    assert("help"@.len() == 4 && "help"@[0] == 'h');
    assert("clear"@.len() == 5);
    assert("status"@.len() == 6);
    assert("soul"@.len() == 4 && "soul"@[0] == 's');
    assert("identity"@.len() == 8);
}

/// Enter: takes the input line off the screen and acts on it.
fn on_enter(
    tui: &mut Tui,
    manager: &mut SessionManager,
    summaries: &[SessionSummary],
    soul: &Soul,
    identity: &Identity,
) -> (action: ChatAction)
    requires
        command_of(trimmed(old(tui).input())) == Some("status"@) ==> status_ready(old(manager).current()),
    ensures
        ({
            let input = old(tui).input();
            let t = trimmed(input);
            &&& final(tui).input().len() == 0
            &&& final(tui).cursor() == 0
            &&& screen_adds(*old(tui), *final(tui), enter_added(input, old(manager).current(), summaries@, *soul, *identity))
            &&& (t.len() > 0 && command_of(t) == Some("clear"@) && t != "/quit"@) ==> after_clear(*old(manager), *final(manager))
            &&& !(t.len() > 0 && command_of(t) == Some("clear"@) && t != "/quit"@) ==> unchanged(*old(manager), *final(manager))
            &&& t.len() == 0 ==> action is Continue
            &&& t.len() > 0 && t == "/quit"@ ==> action is Quit
            &&& t.len() > 0 && t != "/quit"@ && command_of(t) is Some ==> action is Continue
            &&& t.len() > 0 && t != "/quit"@ && command_of(t) is None ==> (action matches ChatAction::Send(text) && text@ == input)
        }),
{
    let input = tui.input_text().to_owned();
    let ghost t = trimmed(input@);
    tui.reset_cursor();
    let ghost reset = *tui;
    proof {
        lemma_shows_nothing(reset);
        reveal_strlit("/quit");
    }
    if str_trim(input.as_str()).is_empty() {
        return ChatAction::Continue;
    }
    match tui.handle_input(input.as_str()) {
        InputResult::Quit => {
            tui.add_message("system", "Summarizing conversation for future reference...");
            assert(seq![("system"@, "Summarizing conversation for future reference..."@)] =~= sys_all(seq![quit_notice()]));
            ChatAction::Quit
        },
        InputResult::Command(cmd) => {
            proof {
                lemma_command_words();
            }
            if str_eq(cmd.as_str(), "help") {
                let lines = help_text();
                say_all(tui, &lines);
            } else if str_eq(cmd.as_str(), "clear") {
                manager.clear_history();
                tui.add_message("system", "History cleared.");
                assert(seq![("system"@, "History cleared."@)] =~= sys_all(seq!["History cleared."@]));
            } else if str_eq(cmd.as_str(), "status") {
                let lines = status_text(manager, summaries);
                say_all(tui, &lines);
            } else if str_eq(cmd.as_str(), "soul") {
                let lines = soul_text(soul);
                say_all(tui, &lines);
            } else if str_eq(cmd.as_str(), "identity") {
                let lines = identity_text(identity);
                say_all(tui, &lines);
            }
            ChatAction::Continue
        },
        InputResult::Chat(text) => {
            tui.add_message("user", text.as_str());
            ChatAction::Send(text)
        },
    }
}

/// The messages of the current session, in order; none without a session.
pub open spec fn session_messages(current: Option<Session>) -> Seq<Message> {
    match current {
        Some(s) => s.messages@,
        None => Seq::empty(),
    }
}

fn copy_messages(v: &Vec<Message>) -> (r: Vec<Message>)
    ensures
        r@ == v@,
{
    let mut r: Vec<Message> = Vec::new();
    let mut i: usize = 0;
    while i < v.len()
        invariant
            i <= v@.len(),
            r@ == v@.take(i as int),
        decreases v@.len() - i,
    {
        r.push(v[i].clone());
        assert(v@.take(i + 1) =~= v@.take(i as int).push(v@[i as int]));
        i = i + 1;
    }
    assert(v@.take(v@.len() as int) =~= v@);
    r
}

/// Start-up: with `auto_resume` on and a stored session to resume (the most
/// recently active one, read by the caller), that session becomes current
/// under the configured budget and `None` is returned. Otherwise a new
/// session with the given id is returned, to be stored and then started
/// with `start_session`; the current session is left as it was.
pub fn open_session(manager: &mut SessionManager, last: Option<Session>, fresh_id: String) -> (to_create: Option<Session>)
    ensures
        final(manager).config_spec() == old(manager).config_spec(),
        old(manager).config_spec().auto_resume && last is Some ==> {
            &&& to_create is None
            &&& final(manager).current() == Some(
                Session { max_history_tokens: old(manager).config_spec().max_history_tokens, ..last->0 },
            )
        },
        !(old(manager).config_spec().auto_resume && last is Some) ==> {
            &&& final(manager).current() == old(manager).current()
            &&& to_create matches Some(s) && s.id@ == fresh_id@ && s.name is None && s.summary is None
                && s.summary_tokens == 0 && s.messages@.len() == 0 && s.max_history_tokens
                == old(manager).config_spec().max_history_tokens
        },
{
    if manager.get_config().auto_resume && last.is_some() {
        manager.resume_last_session(last);
        None
    } else {
        Some(manager.prepare_session(fresh_id))
    }
}

/// First step of sending a chat line: takes the history for the prompt,
/// which is the current session's messages before this turn, then adds the
/// line to the session as the user's; returns the added message (to be
/// stored) and the history.
pub fn begin_send(manager: &mut SessionManager, text: &str) -> (r: (Option<Message>, Vec<Message>))
    ensures
        r.1@ == session_messages(old(manager).current()),
        added_message(*old(manager), *final(manager), r.0, "user"@, text@),
{
    let history = match manager.current_session() {
        Some(session) => copy_messages(&session.messages),
        None => Vec::new(),
    };
    let saved = manager.add_message("user", text);
    (saved, history)
}

/// Last step of sending a chat line, given the model's reply or the error's
/// text: a reply is shown as Ao's and added to the session (the added
/// message is returned, to be stored); an error is shown as `Error: ` and
/// its text, and the session is left as it was.
pub fn finish_send(tui: &mut Tui, manager: &mut SessionManager, reply: Result<String, String>) -> (saved: Option<Message>)
    ensures
        reply matches Ok(a) ==> {
            &&& shows_more(*old(tui), *final(tui), seq![("ao"@, a@)])
            &&& added_message(*old(manager), *final(manager), saved, "ao"@, a@)
        },
        reply matches Err(e) ==> {
            &&& shows_more(*old(tui), *final(tui), seq![sys("Error: "@ + e@)])
            &&& unchanged(*old(manager), *final(manager))
            &&& saved is None
        },
{
    match reply {
        Ok(answer) => {
            tui.add_message("ao", answer.as_str());
            manager.add_message("ao", answer.as_str())
        },
        Err(e) => {
            let mut text = "Error: ".to_owned();
            text.append(e.as_str());
            tui.add_message("system", text.as_str());
            None
        },
    }
}

/// Shows that the chat line could not be stored.
pub fn report_store_error(tui: &mut Tui, error: &str)
    ensures
        shows_more(*old(tui), *final(tui), seq![sys("Error storing message: "@ + error@)]),
{
    let mut text = "Error storing message: ".to_owned();
    text.append(error);
    tui.add_message("system", text.as_str());
}

/// The Tokens line of `/status` shows the session's token total: `~0`
/// without messages, and one more message raises the number shown by
/// exactly that message's estimate, whatever else the session holds.
pub proof fn lemma_status_tokens(s: Session, s2: Session, m: Message, sums: Seq<SessionSummary>)
    requires
        s2.messages@ == s.messages@.push(m),
    ensures
        s.messages@.len() == 0 ==> status_lines(Some(s), sums)[3] == "Tokens: ~"@ + decimal(0),
        status_lines(Some(s2), sums)[3] == "Tokens: ~"@ + decimal(
            messages_tokens(s.messages@) + token_estimate(m.content@),
        ),
{
    crate::session::session::lemma_messages_tokens_add(s.messages@, m);
    if s.messages@.len() == 0 {
        assert(s.messages@ =~= Seq::<Message>::empty());
    }
}

/// Enter on `/soul` shows the soul's file view, as system messages: the
/// soul title, the lines of the soul's content, the rule and where the soul
/// file is; it does not depend on the identity.
pub proof fn lemma_enter_soul(
    input: Seq<char>,
    current: Option<Session>,
    sums: Seq<SessionSummary>,
    soul: Soul,
    identity: Identity,
    other: Identity,
)
    requires
        trimmed(input) == "/soul"@,
    ensures
        enter_added(input, current, sums, soul, identity) == enter_added(input, current, sums, soul, other),
        enter_added(input, current, sums, soul, identity) == sys_all(
            seq!["\u{2550}\u{2550}\u{2550} Ao's Soul \u{2550}\u{2550}\u{2550}"@] + text_lines(soul.content_spec())
                + seq![
                "\u{2550}\u{2550}\u{2550}\u{2550}\u{2550}\u{2550}\u{2550}\u{2550}\u{2550}\u{2550}\u{2550}\u{2550}\u{2550}\u{2550}\u{2550}\u{2550}\u{2550}\u{2550}\u{2550}\u{2550}"@,
                "Soul file: "@ + soul.path_spec(),
            ],
        ),
{
    reveal_strlit("/soul");
    reveal_strlit("/quit");
    reveal_strlit("/help");
    reveal_strlit("/clear");
    reveal_strlit("/status");
    lemma_command_words();
    assert("/soul"@.len() == 5 && "/quit"@.len() == 5 && "/soul"@[1] != "/quit"@[1]);
    assert("/soul"@ != "/help"@ && "/soul"@ != "/clear"@ && "/soul"@ != "/status"@);
}

/// Enter on `/identity` shows the identity's file view, as system
/// messages: the identity title, the lines of the identity's content, the
/// rule and where the identity file is; it does not depend on the soul.
pub proof fn lemma_enter_identity(
    input: Seq<char>,
    current: Option<Session>,
    sums: Seq<SessionSummary>,
    soul: Soul,
    other: Soul,
    identity: Identity,
)
    requires
        trimmed(input) == "/identity"@,
    ensures
        enter_added(input, current, sums, soul, identity) == enter_added(input, current, sums, other, identity),
        enter_added(input, current, sums, soul, identity) == sys_all(
            seq!["\u{2550}\u{2550}\u{2550} Ao's Identity \u{2550}\u{2550}\u{2550}"@] + text_lines(
                identity.content_spec(),
            ) + seq![
                "\u{2550}\u{2550}\u{2550}\u{2550}\u{2550}\u{2550}\u{2550}\u{2550}\u{2550}\u{2550}\u{2550}\u{2550}\u{2550}\u{2550}\u{2550}\u{2550}\u{2550}\u{2550}\u{2550}\u{2550}"@,
                "Identity file: "@ + identity.path_spec(),
            ],
        ),
{
    reveal_strlit("/identity");
    reveal_strlit("/quit");
    reveal_strlit("/help");
    reveal_strlit("/clear");
    reveal_strlit("/status");
    reveal_strlit("/soul");
    lemma_command_words();
    assert("/identity"@.len() == 9);
    assert("/identity"@ != "/quit"@ && "/identity"@ != "/help"@ && "/identity"@ != "/clear"@);
    assert("/identity"@ != "/status"@ && "/identity"@ != "/soul"@);
}

} // verus!
