use vstd::prelude::*;
use vstd::string::*;
use vstd::utf8::encode_utf8;
use vstd::math::min;
use crate::text::{
    blen, char_index_at, on_boundary, str_eq, str_trim, string_insert, string_remove, trimmed, char_is_whitespace, is_ws, lemma_blen_concat, lemma_blen_push, push_char,
    str_starts_with, utf8_width, decimal, push_decimal, char_width, lemma_boundary_split, lemma_prefix_boundary, length_bounds, lemma_ascii_blen,
};

verus! {

/// The words of `s`: its maximal runs of non-whitespace characters, in
/// order (what `str::split_whitespace` yields).
pub open spec fn words(s: Seq<char>) -> Seq<Seq<char>>
    decreases s.len(),
{
    if s.len() == 0 {
        Seq::empty()
    } else {
        let w = words(s.drop_last());
        let c = s.last();
        if is_ws(c) {
            w
        } else if s.len() == 1 || is_ws(s[s.len() - 2]) {
            w.push(seq![c])
        } else {
            w.drop_last().push(w.last().push(c))
        }
    }
}

/// Width taken by a display prefix that the text begins with.
pub open spec fn prefix_width(text: Seq<char>) -> nat {
    if text.len() >= 6 && text.subrange(0, 6) == "[You] "@ {
        6
    } else if text.len() >= 5 && text.subrange(0, 5) == "[Ao] "@ {
        5
    } else if text.len() >= 5 && text.subrange(0, 5) == "[*]  "@ {
        4
    } else {
        0
    }
}

/// Room for a line: the width less the prefix and two columns of border,
/// but at least 20.
pub open spec fn line_room(text: Seq<char>, width: nat) -> nat {
    let taken = prefix_width(text) + 2;
    let left: nat = if width >= taken { (width - taken) as nat } else { 0 };
    if left > 20 { left } else { 20 }
}

/// One word through the line filler: an empty line takes the word; a word
/// that fits (with a space, counted in bytes) extends the line; otherwise
/// the line is finished and the word is dropped.
pub open spec fn fill_step(state: (Seq<Seq<char>>, Seq<char>), word: Seq<char>, room: nat) -> (
    Seq<Seq<char>>,
    Seq<char>,
) {
    let (lines, cur) = state;
    if cur.len() == 0 {
        (lines, word)
    } else if blen(cur) + 1 + blen(word) <= room {
        (lines, cur + seq![' '] + word)
    } else {
        (lines.push(cur), Seq::empty())
    }
}

/// Finished lines and the line under way after filling in the words.
pub open spec fn fill(ws: Seq<Seq<char>>, room: nat) -> (Seq<Seq<char>>, Seq<char>)
    decreases ws.len(),
{
    if ws.len() == 0 {
        (Seq::empty(), Seq::empty())
    } else {
        fill_step(fill(ws.drop_last(), room), ws.last(), room)
    }
}

/// The display lines of a text at a given width.
pub open spec fn wrapped(text: Seq<char>, width: nat) -> Seq<Seq<char>> {
    let (lines, cur) = fill(words(text), line_room(text, width));
    let all = if cur.len() > 0 { lines.push(cur) } else { lines };
    if all.len() == 0 {
        seq![Seq::empty()]
    } else {
        all
    }
}

/// A display line fits the room, or is one word too long to fit.
pub open spec fn line_fits(line: Seq<char>, ws: Seq<Seq<char>>, room: nat) -> bool {
    blen(line) <= room || ws.contains(line)
}

proof fn lemma_fill_fits(ws: Seq<Seq<char>>, all: Seq<Seq<char>>, room: nat)
    requires
        forall|k: int| 0 <= k < ws.len() ==> all.contains(#[trigger] ws[k]),
    ensures
        forall|k: int| 0 <= k < fill(ws, room).0.len() ==> line_fits(#[trigger] fill(ws, room).0[k], all, room),
        line_fits(fill(ws, room).1, all, room),
    decreases ws.len(),
{
    if ws.len() > 0 {
        let pre = ws.drop_last();
        assert forall|k: int| 0 <= k < pre.len() implies all.contains(#[trigger] pre[k]) by {
            assert(pre[k] == ws[k]);
        }
        lemma_fill_fits(pre, all, room);
        let (lines, cur) = fill(pre, room);
        let w = ws.last();
        assert(all.contains(ws[ws.len() - 1]));
        if cur.len() == 0 {
        } else if blen(cur) + 1 + blen(w) <= room {
            lemma_blen_concat(cur + seq![' '], w);
            lemma_blen_concat(cur, seq![' ']);
            lemma_blen_push(Seq::<char>::empty(), ' ');
            assert(Seq::<char>::empty().push(' ') =~= seq![' ']);
            assert(encode_utf8(Seq::<char>::empty()) =~= Seq::<u8>::empty());
        } else {
            let nl = lines.push(cur);
            assert forall|k: int| 0 <= k < nl.len() implies line_fits(#[trigger] nl[k], all, room) by {
                if k < lines.len() {
                    assert(nl[k] == lines[k]);
                }
            }
            assert(encode_utf8(Seq::<char>::empty()) =~= Seq::<u8>::empty());
        }
    } else {
        assert(encode_utf8(Seq::<char>::empty()) =~= Seq::<u8>::empty());
    }
}

/// A wrapped text has at least one line, and each of its lines fits the
/// room left beside the prefix, unless it is a single word longer than that.
pub proof fn lemma_wrapped_lines_fit(text: Seq<char>, width: nat)
    ensures
        wrapped(text, width).len() >= 1,
        forall|k: int|
            0 <= k < wrapped(text, width).len() ==> line_fits(
                #[trigger] wrapped(text, width)[k],
                words(text),
                line_room(text, width),
            ),
{
    let ws = words(text);
    let room = line_room(text, width);
    lemma_fill_fits(ws, ws, room);
    let (lines, cur) = fill(ws, room);
    let all = if cur.len() > 0 { lines.push(cur) } else { lines };
    assert forall|k: int| 0 <= k < all.len() implies line_fits(#[trigger] all[k], ws, room) by {
        if k < lines.len() {
            assert(all[k] == lines[k]);
        }
    }
    if all.len() == 0 {
        assert(encode_utf8(Seq::<char>::empty()) =~= Seq::<u8>::empty());
        assert(wrapped(text, width)[0] == Seq::<char>::empty());
    }
}

pub open spec fn views(v: Seq<String>) -> Seq<Seq<char>> {
    v.map_values(|s: String| s@)
}

/// Feeds one finished word to the line filler (see `fill_step`).
fn feed_word(
    lines: &mut Vec<String>,
    cur: &mut String,
    cur_bytes: &mut u128,
    word: String,
    word_bytes: u128,
    room: usize,
)
    requires
        *old(cur_bytes) == blen(old(cur)@),
        word_bytes == blen(word@),
        *old(cur_bytes) <= 0x8_0000_0000_0000_0000,
        word_bytes <= 0x8_0000_0000_0000_0000,
    ensures
        (views(final(lines)@), final(cur)@) == fill_step(
            (views(old(lines)@), old(cur)@),
            word@,
            room as nat,
        ),
        *final(cur_bytes) == blen(final(cur)@),
        *final(cur_bytes) <= word_bytes || *final(cur_bytes) <= room,
{
    if cur.as_str().is_empty() {
        *cur = word;
        *cur_bytes = word_bytes;
    } else if *cur_bytes + 1 + word_bytes <= room as u128 {
        proof {
            lemma_blen_push(cur@, ' ');
            lemma_blen_concat(cur@.push(' '), word@);
            assert(cur@.push(' ') =~= cur@ + seq![' ']);
        }
        push_char(cur, ' ');
        cur.append(word.as_str());
        *cur_bytes = *cur_bytes + 1 + word_bytes;
    } else {
        let mut done = String::new();
        std::mem::swap(cur, &mut done);
        lines.push(done);
        *cur_bytes = 0;
        proof {
            assert(views(lines@) =~= views(old(lines)@).push(old(cur)@));
            assert(encode_utf8(cur@) =~= Seq::<u8>::empty());
        }
    }
}

/// Breaks a text into display lines (see `wrapped`).
pub fn wrap_text(text: &str, width: usize) -> (lines: Vec<String>)
    ensures
        views(lines@) == wrapped(text@, width as nat),
{
    length_bounds(text);
    let prefix: usize = if str_starts_with(text, "[You] ") {
        6
    } else if str_starts_with(text, "[Ao] ") {
        5
    } else if str_starts_with(text, "[*]  ") {
        4
    } else {
        0
    };
    proof {
        reveal_strlit("[You] ");
        reveal_strlit("[Ao] ");
        reveal_strlit("[*]  ");
    }
    assert(prefix == prefix_width(text@));
    let left = width.saturating_sub(prefix + 2);
    let room = if left > 20 { left } else { 20 };
    assert(room == line_room(text@, width as nat));
    let mut lines: Vec<String> = Vec::new();
    let mut cur = String::new();
    let mut cur_bytes: u128 = 0;
    let mut word = String::new();
    let mut word_bytes: u128 = 0;
    assert(views(lines@) =~= Seq::<Seq<char>>::empty());
    assert(text@.take(0) =~= Seq::<char>::empty());
    for c in it: text.chars()
        invariant
            it.seq() == text@,
            text@.len() <= usize::MAX,
            room == line_room(text@, width as nat),
            cur_bytes == blen(cur@),
            word_bytes == blen(word@),
            cur_bytes <= 0x8_0000_0000_0000_0000,
            word_bytes <= 4 * it.index(),
            word@.len() == 0 ==> (views(lines@), cur@) == fill(words(text@.take(it.index())), room as nat),
            word@.len() > 0 ==> {
                &&& words(text@.take(it.index())).len() > 0
                &&& words(text@.take(it.index())).last() == word@
                &&& (views(lines@), cur@) == fill(words(text@.take(it.index())).drop_last(), room as nat)
                &&& !is_ws(text@[it.index() - 1])
            },
            word@.len() == 0 ==> (it.index() == 0 || is_ws(text@[it.index() - 1])),
    {
        let ghost i = it.index();
        let ghost pre = text@.take(i);
        let ghost next = text@.take(i + 1);
        proof {
            assert(next.drop_last() =~= pre);
            assert(next.last() == c);
            if i > 0 {
                assert(next[i - 1] == text@[i - 1]);
            }
        }
        if char_is_whitespace(c) {
            if !word.as_str().is_empty() {
                let w = word;
                word = String::new();
                proof {
                    assert(words(pre).drop_last().push(words(pre).last()) =~= words(pre));
                }
                feed_word(&mut lines, &mut cur, &mut cur_bytes, w, word_bytes, room);
                word_bytes = 0;
                assert(encode_utf8(word@) =~= Seq::<u8>::empty());
            }
        } else {
            let w = utf8_width(c);
            proof {
                lemma_blen_push(word@, c);
                if word@.len() > 0 {
                    assert(words(next) == words(pre).drop_last().push(words(pre).last().push(c)));
                    assert(words(next).drop_last() =~= words(pre).drop_last());
                } else {
                    assert(words(next) == words(pre).push(seq![c]));
                    assert(words(next).drop_last() =~= words(pre));
                    assert(word@.push(c) =~= seq![c]);
                }
            }
            push_char(&mut word, c);
            word_bytes = word_bytes + w;
        }
    }
    assert(text@.take(text@.len() as int) =~= text@);
    if !word.as_str().is_empty() {
        proof {
            assert(words(text@).drop_last().push(words(text@).last()) =~= words(text@));
        }
        feed_word(&mut lines, &mut cur, &mut cur_bytes, word, word_bytes, room);
    }
    let ghost filled = (views(lines@), cur@);
    assert(filled == fill(words(text@), room as nat));
    if !cur.as_str().is_empty() {
        lines.push(cur);
        assert(views(lines@) =~= filled.0.push(filled.1));
    }
    if lines.len() == 0 {
        lines.push(String::new());
        assert(views(lines@) =~= seq![Seq::<char>::empty()]);
    }
    lines
}


/// A message as the screen shows it.
#[derive(Debug)]
pub struct Message {
    pub role: String,
    pub content: String,
}

impl Clone for Message {
    fn clone(&self) -> (r: Self)
        ensures
            r == *self,
    {
        Message { role: self.role.clone(), content: self.content.clone() }
    }
}

/// What a line of input asks for.
pub enum InputResult {
    Quit,
    Command(String),
    Chat(String),
}

/// The command word of a command line, if the trimmed input is one.
pub open spec fn command_of(t: Seq<char>) -> Option<Seq<char>> {
    if t == "/help"@ {
        Some("help"@)
    } else if t == "/clear"@ {
        Some("clear"@)
    } else if t == "/status"@ {
        Some("status"@)
    } else if t == "/soul"@ {
        Some("soul"@)
    } else if t == "/identity"@ {
        Some("identity"@)
    } else {
        None
    }
}

/// The largest scroll offset for content of `h` lines.
pub open spec fn max_offset(h: nat) -> nat {
    if h >= 1 {
        (h - 1) as nat
    } else {
        0
    }
}


/// Byte offset at which a typed character goes: the cursor, or the end of
/// the line if the cursor lies beyond it.
pub open spec fn insert_at(t: Tui) -> int {
    min(t.cursor() as int, t.input_len() as int)
}

/// Typing does not panic: the offset is a character boundary and the
/// cursor can still move right.
pub open spec fn insert_ready(t: Tui) -> bool {
    &&& t.cursor() < usize::MAX
    &&& on_boundary(t.input(), insert_at(t))
}

pub open spec fn after_insert(b: Tui, a: Tui, c: char) -> bool {
    &&& a.input() == b.input().insert(char_index_at(b.input(), insert_at(b)), c)
    &&& a.cursor() == b.cursor() + 1
    &&& a.same_view(&b)
}

/// Whether backspace removes a character: the cursor is past the start and
/// the line is not empty.
pub open spec fn deletes(t: Tui) -> bool {
    t.cursor() > 0 && t.input().len() > 0
}

/// Byte offset of the character that backspace removes.
pub open spec fn delete_at(t: Tui) -> int {
    min(t.cursor() - 1, t.input_len() as int)
}

/// Backspace does not panic: the offset it removes at starts a character.
pub open spec fn delete_ready(t: Tui) -> bool {
    deletes(t) ==> delete_at(t) < t.input_len() && on_boundary(t.input(), delete_at(t))
}

pub open spec fn after_delete(b: Tui, a: Tui) -> bool {
    &&& a.same_view(&b)
    &&& deletes(b) ==> {
        &&& a.input() == b.input().remove(char_index_at(b.input(), delete_at(b)))
        &&& a.cursor() == b.cursor() - 1
    }
    &&& !deletes(b) ==> a.input() == b.input() && a.cursor() == b.cursor()
}

/// One step of `lemma_insert_then_delete`, for a given state after typing.
proof fn lemma_insert_then_delete_step(b: Tui, a: Tui, c: char)
    requires
        b.cursor() <= b.input_len(),
        insert_ready(b),
        after_insert(b, a, c),
    ensures
        a.input_len() == b.input_len() + char_width(c),
        delete_ready(a),
        forall|d: Tui| after_delete(a, d) ==> d.input() == b.input() && d.cursor() == b.cursor() && d.same_view(&b),
{
    let s = b.input();
    let p = b.cursor() as int;
    assert(insert_at(b) == p);
    lemma_boundary_split(s, p);
    let k = char_index_at(s, p);
    let l = s.take(k);
    let r = s.skip(k);
    let t = a.input();
    assert(t =~= l + (seq![c] + r));
    lemma_prefix_boundary(l, seq![c] + r);
    lemma_blen_concat(l, seq![c] + r);
    lemma_blen_concat(seq![c], r);
    lemma_blen_push(Seq::<char>::empty(), c);
    assert(Seq::<char>::empty().push(c) =~= seq![c]);
    assert(blen(Seq::<char>::empty()) == 0);
    lemma_blen_concat(l, r);
    assert(l + r =~= s);
    assert(delete_at(a) == p);
    assert(t.remove(k) =~= s);
}

/// Typing a character and then pressing backspace gives back the input
/// line and the cursor as they were, when the cursor lies within the line;
/// after typing, backspace can always run.
pub proof fn lemma_insert_then_delete(b: Tui, c: char)
    requires
        b.cursor() <= b.input_len(),
        insert_ready(b),
    ensures
        forall|a: Tui| #[trigger] after_insert(b, a, c) ==> a.input_len() == b.input_len() + char_width(c) && delete_ready(a),
        forall|a: Tui, d: Tui|
            #[trigger] after_insert(b, a, c) && #[trigger] after_delete(a, d) ==> d.input() == b.input() && d.cursor()
                == b.cursor() && d.same_view(&b),
{
    assert forall|a: Tui| #[trigger] after_insert(b, a, c) implies a.input_len() == b.input_len() + char_width(c)
        && delete_ready(a) by {
        lemma_insert_then_delete_step(b, a, c);
    }
    assert forall|a: Tui, d: Tui| #[trigger] after_insert(b, a, c) && #[trigger] after_delete(a, d) implies d.input()
        == b.input() && d.cursor() == b.cursor() && d.same_view(&b) by {
        lemma_insert_then_delete_step(b, a, c);
    }
}

/// On an ASCII input line, with the cursor within the line (and below
/// `usize::MAX`), typing an ASCII character can run, backspace can run
/// after it, and the two together give back the line and the cursor: every
/// offset in an ASCII line is a character boundary.
pub proof fn lemma_ascii_insert_then_delete(b: Tui, c: char)
    requires
        forall|i: int| 0 <= i < b.input().len() ==> (#[trigger] b.input()[i] as u32) < 0x80,
        (c as u32) < 0x80,
        b.cursor() <= b.input().len(),
        b.cursor() < usize::MAX,
    ensures
        insert_ready(b),
        forall|a: Tui| #[trigger] after_insert(b, a, c) ==> delete_ready(a),
        forall|a: Tui, d: Tui|
            #[trigger] after_insert(b, a, c) && #[trigger] after_delete(a, d) ==> d.input() == b.input() && d.cursor()
                == b.cursor() && d.same_view(&b),
{
    let s = b.input();
    let p = b.cursor() as int;
    lemma_ascii_blen(s);
    assert forall|i: int| 0 <= i < s.take(p).len() implies (#[trigger] s.take(p)[i] as u32) < 0x80 by {
        assert(s.take(p)[i] == s[i]);
    }
    lemma_ascii_blen(s.take(p));
    assert(s.take(p) + s.skip(p) =~= s);
    lemma_prefix_boundary(s.take(p), s.skip(p));
    assert(insert_at(b) == p);
    lemma_insert_then_delete(b, c);
}

/// Once scrolled up, the view stops following new messages, and scrolling
/// down does not make it follow again: messages added after that leave the
/// scroll offset where it was.
pub proof fn lemma_scrolled_up_stays(
    b: Tui,
    up: Tui,
    down: Tui,
    added: Tui,
    n: nat,
    m: nat,
    new_msgs: Seq<(Seq<char>, Seq<char>)>,
)
    requires
        after_scroll_up(b, up, n),
        after_scroll_down(up, down, m),
        screen_adds(down, added, new_msgs),
    ensures
        !up.follows(),
        !down.follows(),
        added.offset() == down.offset(),
{
}

pub open spec fn after_left(b: Tui, a: Tui) -> bool {
    &&& a.same_view(&b)
    &&& a.input() == b.input()
    &&& a.cursor() == if b.cursor() > 0 { (b.cursor() - 1) as nat } else { 0 }
}

pub open spec fn after_right(b: Tui, a: Tui) -> bool {
    &&& a.same_view(&b)
    &&& a.input() == b.input()
    &&& a.cursor() == if b.cursor() < b.input_len() { b.cursor() + 1 } else { b.cursor() }
}

pub open spec fn after_scroll_up(b: Tui, a: Tui, lines: nat) -> bool {
    &&& a.msgs() == b.msgs()
    &&& a.input() == b.input()
    &&& a.cursor() == b.cursor()
    &&& a.height() == b.height()
    &&& !a.follows()
    &&& a.offset() == if b.offset() >= lines { (b.offset() - lines) as nat } else { 0 }
}

/// Scrolling down does not overflow.
pub open spec fn scroll_down_ready(t: Tui, lines: nat) -> bool {
    t.offset() + lines <= usize::MAX
}

pub open spec fn after_scroll_down(b: Tui, a: Tui, lines: nat) -> bool {
    &&& a.msgs() == b.msgs()
    &&& a.input() == b.input()
    &&& a.cursor() == b.cursor()
    &&& a.height() == b.height()
    &&& a.follows() == b.follows()
    &&& a.offset() == min((b.offset() + lines) as int, max_offset(b.height()) as int)
}

/// The chat screen's state: the messages shown, the input line with its
/// cursor (a byte offset into the line), and the scroll position.
pub struct Tui {
    pub messages: Vec<Message>,
    pub input_buffer: String,
    pub cursor_position: usize,
    scroll_offset: usize,
    content_height: usize,
    was_at_bottom: bool,
}

impl Tui {
    /// The messages on the screen.
    pub closed spec fn msgs(&self) -> Seq<Message> {
        self.messages@
    }

    /// The input line.
    pub closed spec fn input(&self) -> Seq<char> {
        self.input_buffer@
    }

    /// The cursor's byte offset in the input line.
    pub closed spec fn cursor(&self) -> nat {
        self.cursor_position as nat
    }

    pub closed spec fn offset(&self) -> nat {
        self.scroll_offset as nat
    }

    /// Number of display lines that the last layout produced.
    pub closed spec fn height(&self) -> nat {
        self.content_height as nat
    }

    /// Whether new messages keep the view at the bottom.
    pub closed spec fn follows(&self) -> bool {
        self.was_at_bottom
    }

    /// The scroll offset is within the content.
    pub open spec fn scroll_ok(&self) -> bool {
        self.offset() <= max_offset(self.height())
    }

    /// Everything but the input line and its cursor is as in `other`.
    pub open spec fn same_view(&self, other: &Tui) -> bool {
        &&& self.msgs() == other.msgs()
        &&& self.offset() == other.offset()
        &&& self.height() == other.height()
        &&& self.follows() == other.follows()
    }

    /// Byte length of the input line.
    pub open spec fn input_len(&self) -> nat {
        blen(self.input())
    }

    pub fn new() -> (t: Tui)
        ensures
            t.scroll_ok(),
            t.msgs().len() == 0,
            t.input().len() == 0,
            t.cursor() == 0,
            t.offset() == 0,
            t.height() == 0,
            t.follows(),
    {
        Tui {
            messages: Vec::new(),
            input_buffer: String::new(),
            cursor_position: 0,
            scroll_offset: 0,
            content_height: 0,
            was_at_bottom: true,
        }
    }

    /// Appends a message; when the view follows the bottom, it scrolls to
    /// the bottom.
    pub fn add_message(&mut self, role: &str, content: &str)
        ensures
            final(self).msgs().len() == old(self).msgs().len() + 1,
            final(self).msgs().drop_last() == old(self).msgs(),
            final(self).msgs().last().role@ == role@,
            final(self).msgs().last().content@ == content@,
            final(self).input() == old(self).input(),
            final(self).cursor() == old(self).cursor(),
            final(self).height() == old(self).height(),
            final(self).follows() == old(self).follows(),
            old(self).follows() ==> final(self).offset() == max_offset(old(self).height()),
            !old(self).follows() ==> final(self).offset() == old(self).offset(),
            shows_more(*old(self), *final(self), seq![(role@, content@)]),
            old(self).scroll_ok() ==> final(self).scroll_ok(),
    {
        self.messages.push(Message { role: role.to_owned(), content: content.to_owned() });
        if self.was_at_bottom {
            self.scroll_to_bottom();
        }
        assert(self.messages@.drop_last() =~= old(self).messages@);
        assert(msg_views(self.msgs()) =~= msg_views(old(self).msgs()) + seq![(role@, content@)]);
    }

    /// Reads a line of input: `/quit` quits, `/help`, `/clear`, `/status`,
    /// `/soul` and `/identity` are commands (surrounding whitespace
    /// ignored); anything else is chat, passed on untrimmed.
    pub fn handle_input(&self, input: &str) -> (r: InputResult)
        ensures
            trimmed(input@) == "/quit"@ ==> r is Quit,
            trimmed(input@) != "/quit"@ && command_of(trimmed(input@)) is Some ==> (r matches InputResult::Command(c) && c@ == command_of(trimmed(input@))->0),
            trimmed(input@) != "/quit"@ && command_of(trimmed(input@)) is None ==> (r matches InputResult::Chat(t) && t@ == input@),
    {
        let t = str_trim(input);
        if str_eq(t, "/quit") {
            InputResult::Quit
        } else if str_eq(t, "/help") {
            InputResult::Command("help".to_owned())
        } else if str_eq(t, "/clear") {
            InputResult::Command("clear".to_owned())
        } else if str_eq(t, "/status") {
            InputResult::Command("status".to_owned())
        } else if str_eq(t, "/soul") {
            InputResult::Command("soul".to_owned())
        } else if str_eq(t, "/identity") {
            InputResult::Command("identity".to_owned())
        } else {
            InputResult::Chat(input.to_owned())
        }
    }

    /// Inserts `c` at the cursor (or at the end of the line if the cursor
    /// lies beyond it) and moves the cursor one step right.
    pub fn insert_char(&mut self, c: char)
        requires
            insert_ready(*old(self)),
        ensures
            after_insert(*old(self), *final(self), c),
    {
        length_bounds(self.input_buffer.as_str());
        let len = self.input_buffer.as_str().len();
        let pos = if self.cursor_position < len { self.cursor_position } else { len };
        string_insert(&mut self.input_buffer, pos, c);
        self.cursor_position = self.cursor_position + 1;
    }

    /// Backspace: removes the character before the cursor (found at
    /// `cursor - 1`, or at the end of the line if that lies beyond it) and
    /// moves the cursor one step left; at the start, or on an empty line,
    /// nothing changes.
    pub fn delete_char_before_cursor(&mut self)
        requires
            delete_ready(*old(self)),
        ensures
            after_delete(*old(self), *final(self)),
    {
        if self.cursor_position > 0 && !self.input_buffer.as_str().is_empty() {
            length_bounds(self.input_buffer.as_str());
            let len = self.input_buffer.as_str().len();
            let back = self.cursor_position - 1;
            let pos = if back < len { back } else { len };
            string_remove(&mut self.input_buffer, pos);
            self.cursor_position = self.cursor_position - 1;
        }
    }

    /// Moves the cursor one step left, unless it is at the start.
    pub fn move_cursor_left(&mut self)
        ensures
            after_left(*old(self), *final(self)),
    {
        if self.cursor_position > 0 {
            self.cursor_position = self.cursor_position - 1;
        }
    }

    /// Moves the cursor one step right, unless it is at the end of the line
    /// (counted in bytes).
    pub fn move_cursor_right(&mut self)
        ensures
            after_right(*old(self), *final(self)),
    {
        length_bounds(self.input_buffer.as_str());
        if self.cursor_position < self.input_buffer.as_str().len() {
            self.cursor_position = self.cursor_position + 1;
        }
    }

    /// Empties the input line and puts the cursor at its start.
    pub fn reset_cursor(&mut self)
        ensures
            final(self).same_view(old(self)),
            final(self).input().len() == 0,
            final(self).cursor() == 0,
    {
        self.cursor_position = 0;
        self.input_buffer = String::new();
    }

    /// Scrolls up (towards older lines), stopping at the top; the view no
    /// longer follows the bottom.
    pub fn scroll_up(&mut self, lines: usize)
        ensures
            after_scroll_up(*old(self), *final(self), lines as nat),
            old(self).scroll_ok() ==> final(self).scroll_ok(),
    {
        self.scroll_offset = self.scroll_offset.saturating_sub(lines);
        self.was_at_bottom = false;
    }

    /// Scrolls down, stopping at the last line of the content.
    pub fn scroll_down(&mut self, lines: usize)
        requires
            scroll_down_ready(*old(self), lines as nat),
        ensures
            after_scroll_down(*old(self), *final(self), lines as nat),
            final(self).scroll_ok(),
    {
        let max = self.content_height.saturating_sub(1);
        let target = self.scroll_offset + lines;
        self.scroll_offset = if target < max { target } else { max };
    }

    fn scroll_to_bottom(&mut self)
        ensures
            final(self).msgs() == old(self).msgs(),
            final(self).input() == old(self).input(),
            final(self).cursor() == old(self).cursor(),
            final(self).height() == old(self).height(),
            final(self).follows(),
            final(self).offset() == max_offset(old(self).height()),
    {
        self.scroll_offset = self.content_height.saturating_sub(1);
        self.was_at_bottom = true;
    }

    /// The input line as it stands.
    pub fn input_text(&self) -> (r: &str)
        ensures
            r@ == self.input(),
    {
        self.input_buffer.as_str()
    }

    pub fn scroll_offset(&self) -> (r: usize)
        ensures
            r == self.offset(),
    {
        self.scroll_offset
    }
}

impl Default for Tui {
    fn default() -> (t: Tui)
        ensures
            t.msgs().len() == 0,
            t.input().len() == 0,
            t.cursor() == 0,
            t.offset() == 0,
            t.height() == 0,
            t.follows(),
    {
        Tui::new()
    }
}


/// How a display line is coloured: by the role of its message.
#[derive(Clone, Copy, Debug, PartialEq, Eq)]
pub enum LineStyle {
    User,
    Ao,
    System,
    Unknown,
}

/// One display line and its colouring.
pub struct StyledLine {
    pub text: String,
    pub style: LineStyle,
}

/// The label put before a message of this role.
pub open spec fn role_prefix(role: Seq<char>) -> Seq<char> {
    if role == "user"@ {
        "[You] "@
    } else if role == "ao"@ {
        "[Ao] "@
    } else if role == "system"@ {
        "[*]  "@
    } else {
        "[?]  "@
    }
}

pub open spec fn role_style(role: Seq<char>) -> LineStyle {
    if role == "user"@ {
        LineStyle::User
    } else if role == "ao"@ {
        LineStyle::Ao
    } else if role == "system"@ {
        LineStyle::System
    } else {
        LineStyle::Unknown
    }
}

/// The display lines of one message: its label and content, wrapped.
pub open spec fn message_lines(m: Message, width: nat) -> Seq<(Seq<char>, LineStyle)> {
    wrapped(role_prefix(m.role@) + m.content@, width).map_values(
        |l: Seq<char>| (l, role_style(m.role@)),
    )
}

/// The display lines of all messages, in order.
pub open spec fn display_lines(msgs: Seq<Message>, width: nat) -> Seq<(Seq<char>, LineStyle)>
    decreases msgs.len(),
{
    if msgs.len() == 0 {
        Seq::empty()
    } else {
        display_lines(msgs.drop_last(), width) + message_lines(msgs.last(), width)
    }
}

/// A message alone lays out as all the lines that wrapping its role label
/// and content gives, in order, each styled by its role: as many display
/// lines as wrapped lines, never fewer.
pub proof fn lemma_display_lines_of_message(m: Message, width: nat)
    ensures
        display_lines(seq![m], width).len() == wrapped(role_prefix(m.role@) + m.content@, width).len(),
        forall|k: int|
            0 <= k < display_lines(seq![m], width).len() ==> #[trigger] display_lines(seq![m], width)[k] == (
                wrapped(role_prefix(m.role@) + m.content@, width)[k],
                role_style(m.role@),
            ),
{
    assert(seq![m].drop_last() =~= Seq::<Message>::empty());
    assert(display_lines(Seq::<Message>::empty(), width) =~= Seq::<(Seq<char>, LineStyle)>::empty());
    assert(display_lines(seq![m], width) == display_lines(Seq::<Message>::empty(), width) + message_lines(m, width));
    assert(display_lines(seq![m], width) =~= message_lines(m, width));
}

/// Laying out messages one after the other: the display lines of `a`
/// followed by `b` are those of `a` followed by those of `b`.
pub proof fn lemma_display_lines_concat(a: Seq<Message>, b: Seq<Message>, width: nat)
    ensures
        display_lines(a + b, width) == display_lines(a, width) + display_lines(b, width),
    decreases b.len(),
{
    if b.len() == 0 {
        assert(a + b =~= a);
        assert(display_lines(a, width) + display_lines(b, width) =~= display_lines(a, width));
    } else {
        lemma_display_lines_concat(a, b.drop_last(), width);
        assert((a + b).drop_last() =~= a + b.drop_last());
        assert((a + b).last() == b.last());
        assert(display_lines(a + b, width) =~= display_lines(a, width) + display_lines(b, width));
    }
}

pub open spec fn styled_views(v: Seq<StyledLine>) -> Seq<(Seq<char>, LineStyle)> {
    v.map_values(|l: StyledLine| (l.text@, l.style))
}

/// The header's text.
pub open spec fn title_text(is_processing: bool) -> Seq<char> {
    if is_processing {
        " Pantheon v0.2.0 - Processing... "@
    } else {
        " Pantheon v0.2.0 "@
    }
}

/// The header's text, which says when a reply is being awaited.
pub fn title(is_processing: bool) -> (r: &'static str)
    ensures
        r@ == title_text(is_processing),
{
    if is_processing {
        " Pantheon v0.2.0 - Processing... "
    } else {
        " Pantheon v0.2.0 "
    }
}

/// The status bar's text for `n` messages on the screen (`n / 2` exchanges).
pub open spec fn status_text_for(n: nat) -> Seq<char> {
    " Messages: "@ + decimal(n / 2) + " | \u{2191}\u{2193} Scroll | /help | /quit "@
}

impl Tui {
    /// Lays the messages out for a message area `available_width` columns
    /// wide: records the number of display lines (at least 1) and pulls the
    /// scroll offset back within them; returns the lines.
    pub fn layout(&mut self, available_width: usize) -> (lines: Vec<StyledLine>)
        ensures
            styled_views(lines@) == display_lines(old(self).msgs(), available_width as nat),
            final(self).msgs() == old(self).msgs(),
            final(self).input() == old(self).input(),
            final(self).cursor() == old(self).cursor(),
            final(self).follows() == old(self).follows(),
            final(self).height() == if lines@.len() > 1 { lines@.len() } else { 1 },
            final(self).offset() == min(old(self).offset() as int, max_offset(final(self).height()) as int),
            final(self).scroll_ok(),
    {
        let mut lines: Vec<StyledLine> = Vec::new();
        let mut i: usize = 0;
        assert(styled_views(lines@) =~= Seq::<(Seq<char>, LineStyle)>::empty());
        assert(self.messages@.take(0) =~= Seq::<Message>::empty());
        while i < self.messages.len()
            invariant
                i <= self.messages@.len(),
                self.messages@ == old(self).messages@,
                styled_views(lines@) == display_lines(self.messages@.take(i as int), available_width as nat),
            decreases self.messages@.len() - i,
        {
            let role = self.messages[i].role.as_str();
            let (prefix, style) = if str_eq(role, "user") {
                ("[You] ", LineStyle::User)
            } else if str_eq(role, "ao") {
                ("[Ao] ", LineStyle::Ao)
            } else if str_eq(role, "system") {
                ("[*]  ", LineStyle::System)
            } else {
                ("[?]  ", LineStyle::Unknown)
            };
            let mut text = prefix.to_owned();
            text.append(self.messages[i].content.as_str());
            proof {
                reveal_strlit("[You] ");
                reveal_strlit("[Ao] ");
                reveal_strlit("[*]  ");
                reveal_strlit("[?]  ");
            }
            let wrapped_lines = wrap_text(text.as_str(), available_width);
            let ghost before = styled_views(lines@);
            let mut j: usize = 0;
            while j < wrapped_lines.len()
                invariant
                    j <= wrapped_lines@.len(),
                    styled_views(lines@) == before + views(wrapped_lines@).take(j as int).map_values(
                        |l: Seq<char>| (l, style),
                    ),
                decreases wrapped_lines@.len() - j,
            {
                let line = wrapped_lines[j].clone();
                let ghost prev = lines@;
                lines.push(StyledLine { text: line, style });
                proof {
                    assert(styled_views(lines@) =~= styled_views(prev).push((wrapped_lines@[j as int]@, style)));
                    assert(views(wrapped_lines@).take(j + 1) =~= views(wrapped_lines@).take(j as int).push(
                        wrapped_lines@[j as int]@,
                    ));
                    assert(styled_views(lines@) =~= before + views(wrapped_lines@).take(j + 1).map_values(
                        |l: Seq<char>| (l, style),
                    ));
                }
                j = j + 1;
            }
            proof {
                assert(views(wrapped_lines@).take(wrapped_lines@.len() as int) =~= views(wrapped_lines@));
                let m = self.messages@[i as int];
                assert(self.messages@.take(i + 1).drop_last() =~= self.messages@.take(i as int));
                assert(text@ == role_prefix(m.role@) + m.content@);
                assert(style == role_style(m.role@));
            }
            i = i + 1;
        }
        assert(self.messages@.take(self.messages@.len() as int) =~= self.messages@);
        self.content_height = if lines.len() > 1 { lines.len() } else { 1 };
        let max = self.content_height - 1;
        if self.scroll_offset > max {
            self.scroll_offset = max;
        }
        lines
    }

    /// The status bar's text (see `status_text_for`).
    pub fn status_text(&self) -> (r: String)
        ensures
            r@ == status_text_for(self.msgs().len()),
    {
        let mut out = " Messages: ".to_owned();
        push_decimal(&mut out, self.messages.len() / 2);
        out.append(" | \u{2191}\u{2193} Scroll | /help | /quit ");
        out
    }
}


/// Role and content of each message.
pub open spec fn msg_views(m: Seq<Message>) -> Seq<(Seq<char>, Seq<char>)> {
    m.map_values(|x: Message| (x.role@, x.content@))
}

/// `after` is `before` with the `added` messages (role, content) shown at
/// the end, scrolled as adding them scrolls, and nothing else changed.
pub open spec fn shows_more(before: Tui, after: Tui, added: Seq<(Seq<char>, Seq<char>)>) -> bool {
    &&& screen_adds(before, after, added)
    &&& after.input() == before.input()
    &&& after.cursor() == before.cursor()
}

/// The message area of `after` is that of `before` with the `added`
/// messages (role, content) at the end, scrolled as adding them scrolls.
pub open spec fn screen_adds(before: Tui, after: Tui, added: Seq<(Seq<char>, Seq<char>)>) -> bool {
    &&& msg_views(after.msgs()) == msg_views(before.msgs()) + added
    &&& after.height() == before.height()
    &&& after.follows() == before.follows()
    &&& after.offset() == if before.follows() && added.len() > 0 {
        max_offset(before.height())
    } else {
        before.offset()
    }
}

pub proof fn lemma_shows_more_chain(
    a: Tui,
    b: Tui,
    c: Tui,
    x: Seq<(Seq<char>, Seq<char>)>,
    y: Seq<(Seq<char>, Seq<char>)>,
)
    requires
        shows_more(a, b, x),
        shows_more(b, c, y),
    ensures
        shows_more(a, c, x + y),
{
    assert(msg_views(a.msgs()) + x + y =~= msg_views(a.msgs()) + (x + y));
}

pub proof fn lemma_shows_nothing(a: Tui)
    ensures
        shows_more(a, a, Seq::empty()),
{
    assert(msg_views(a.msgs()) + Seq::empty() =~= msg_views(a.msgs()));
}

} // verus!
