use vstd::prelude::*;
use crate::text::{
    ascii_upper, char_to_uppercase, count_lines, count_words, push_char, scale_word_count, token_estimate,
    uppercase,
};
use crate::time::{instant_of_text, Timestamp};

verus! {

/// One message of a conversation.
pub struct Message {
    pub id: i64,
    pub session_id: String,
    pub role: String,
    pub content: String,
    pub created_at: Timestamp,
}

/// A conversation: its messages, its summary once it has one, and the token
/// budget for the summaries of earlier sessions.
pub struct Session {
    pub id: String,
    pub name: Option<String>,
    pub created_at: Timestamp,
    pub last_active_at: Timestamp,
    pub summary: Option<String>,
    pub summary_tokens: usize,
    pub messages: Vec<Message>,
    pub max_history_tokens: usize,
}

/// The summary of an earlier session, with the date of that session.
pub struct SessionSummary {
    pub session_id: String,
    pub session_date: Timestamp,
    pub summary: String,
    pub token_count: usize,
}

/// A lowercase hexadecimal digit.
pub open spec fn is_hex_lower(c: char) -> bool {
    ('0' <= c <= '9') || ('a' <= c <= 'f')
}

/// The hyphenated UUID layout: 36 characters, hyphens at 8, 13, 18 and 23,
/// lowercase hexadecimal digits elsewhere (groups of 8-4-4-4-12).
pub open spec fn uuid_layout(s: Seq<char>) -> bool {
    &&& s.len() == 36
    &&& forall|i: int|
        0 <= i < 36 ==> if i == 8 || i == 13 || i == 18 || i == 23 {
            #[trigger] s[i] == '-'
        } else {
            is_hex_lower(s[i])
        }
}

/// `uuid::Uuid::new_v4().to_string()`: a random version-4 UUID in its
/// hyphenated lowercase form (uuid's `Display` writes `LowerHex` of the
/// hyphenated UUID). Which UUID comes out is left free.
#[verifier::external_body]
fn new_uuid_string() -> (r: String)
    ensures
        uuid_layout(r@),
{
    uuid::Uuid::new_v4().to_string()
}

/// `s` with its first character replaced by that character's uppercase
/// mapping.
pub open spec fn capitalized(s: Seq<char>) -> Seq<char> {
    if s.len() == 0 {
        Seq::empty()
    } else {
        uppercase(s[0]) + s.drop_first()
    }
}

/// The sum of the token estimates of the messages' contents.
pub open spec fn messages_tokens(msgs: Seq<Message>) -> nat
    decreases msgs.len(),
{
    if msgs.len() == 0 {
        0
    } else {
        messages_tokens(msgs.drop_last()) + token_estimate(msgs.last().content@)
    }
}

/// Estimated token count of a text: `(words as f32 * 1.3) as usize + lines * 4`,
/// with words and lines counted as `split_whitespace` and `lines` count them.
pub fn estimate_tokens(text: &str) -> (n: usize)
    requires
        token_estimate(text@) <= usize::MAX,
    ensures
        n == token_estimate(text@),
{
    let w = count_words(text);
    let l = count_lines(text);
    let s = scale_word_count(w);
    s + l * 4
}

/// The token estimate of a text as a `u128`, which it always fits; for
/// testing whether a sum of estimates fits a `usize`.
pub fn estimate_tokens_wide(text: &str) -> (n: u128)
    ensures
        n == token_estimate(text@),
        n <= 5 * (usize::MAX as nat),
{
    let w = count_words(text);
    let l = count_lines(text);
    let s = scale_word_count(w);
    s as u128 + (l as u128) * 4
}

/// The text with its first character in upper case.
pub fn capitalize(s: &str) -> (r: String)
    ensures
        r@ == capitalized(s@),
        s@.len() > 0 && (s@[0] as u32) < 0x80 ==> r@ == seq![ascii_upper(s@[0])] + s@.drop_first(),
{
    let mut out = String::new();
    let mut first = true;
    for c in it: s.chars()
        invariant
            it.seq() == s@,
            first == (it.index() == 0),
            it.index() == 0 ==> out@ == Seq::<char>::empty(),
            it.index() > 0 ==> out@ == uppercase(s@[0]) + s@.subrange(1, it.index()),
            it.index() > 0 && (s@[0] as u32) < 0x80 ==> uppercase(s@[0]) == seq![ascii_upper(s@[0])],
    {
        if first {
            out = char_to_uppercase(c);
            first = false;
            assert(s@.subrange(1, 1) =~= Seq::<char>::empty());
            assert(out@ =~= uppercase(s@[0]) + s@.subrange(1, 1));
        } else {
            push_char(&mut out, c);
            assert(out@ =~= uppercase(s@[0]) + s@.subrange(1, it.index() + 1));
        }
    }
    proof {
        if s@.len() > 0 {
            assert(s@.subrange(1, s@.len() as int) =~= s@.drop_first());
        }
    }
    out
}

impl Message {
    /// A message of `session_id`, not yet stored (its id is 0), created now.
    pub fn new(session_id: String, role: &str, content: &str) -> (m: Message)
        ensures
            m.id == 0,
            m.session_id@ == session_id@,
            m.role@ == role@,
            m.content@ == content@,
    {
        Message {
            id: 0,
            session_id,
            role: role.to_owned(),
            content: content.to_owned(),
            created_at: Timestamp::now(),
        }
    }

    /// The token estimate of the content.
    pub fn estimate_tokens(&self) -> (n: usize)
        requires
            token_estimate(self.content@) <= usize::MAX,
        ensures
            n == token_estimate(self.content@),
    {
        estimate_tokens(self.content.as_str())
    }
}

impl Session {
    /// An empty session, created now, with no name and no summary.
    pub fn new(id: String, max_history_tokens: usize) -> (s: Session)
        ensures
            s.id@ == id@,
            s.name is None,
            s.created_at == s.last_active_at,
            s.summary is None,
            s.summary_tokens == 0,
            s.messages@.len() == 0,
            s.max_history_tokens == max_history_tokens,
    {
        let now = Timestamp::now();
        Session {
            id,
            name: None,
            created_at: now,
            last_active_at: now,
            summary: None,
            summary_tokens: 0,
            messages: Vec::new(),
            max_history_tokens,
        }
    }

    /// A fresh random session id (a hyphenated UUID, 36 characters).
    pub fn generate_id() -> (id: String)
        ensures
            id@.len() == 36,
            uuid_layout(id@),
    {
        new_uuid_string()
    }

    /// Appends a message with this role and content, and marks the session
    /// active now.
    pub fn add_message(&mut self, role: &str, content: &str)
        ensures
            final(self).messages@.len() == old(self).messages@.len() + 1,
            final(self).messages@.drop_last() == old(self).messages@,
            final(self).messages@.last().id == 0,
            final(self).messages@.last().session_id@ == old(self).id@,
            final(self).messages@.last().role@ == role@,
            final(self).messages@.last().content@ == content@,
            final(self).id == old(self).id,
            final(self).name == old(self).name,
            final(self).created_at == old(self).created_at,
            final(self).summary == old(self).summary,
            final(self).summary_tokens == old(self).summary_tokens,
            final(self).max_history_tokens == old(self).max_history_tokens,
    {
        self.last_active_at = Timestamp::now();
        let message = Message::new(self.id.clone(), role, content);
        self.messages.push(message);
        assert(self.messages@.drop_last() =~= old(self).messages@);
    }

    /// Drops all messages and marks the session active now.
    pub fn clear_history(&mut self)
        ensures
            final(self).messages@.len() == 0,
            final(self).id == old(self).id,
            final(self).name == old(self).name,
            final(self).created_at == old(self).created_at,
            final(self).summary == old(self).summary,
            final(self).summary_tokens == old(self).summary_tokens,
            final(self).max_history_tokens == old(self).max_history_tokens,
    {
        self.messages.clear();
        self.last_active_at = Timestamp::now();
    }

    /// Whether the sum of the token estimates of all messages fits a
    /// `usize` (which `estimate_tokens` asks for).
    pub fn tokens_fit(&self) -> (r: bool)
        ensures
            r == (messages_tokens(self.messages@) <= usize::MAX),
    {
        let mut total: u128 = 0;
        let mut i: usize = 0;
        while i < self.messages.len()
            invariant
                i <= self.messages@.len(),
                total == messages_tokens(self.messages@.take(i as int)),
                total <= usize::MAX,
            decreases self.messages@.len() - i,
        {
            proof {
                assert(self.messages@.take(i + 1).drop_last() =~= self.messages@.take(i as int));
            }
            let t = estimate_tokens_wide(self.messages[i].content.as_str());
            total = total + t;
            if total > usize::MAX as u128 {
                proof {
                    lemma_messages_tokens_prefix(self.messages@, i + 1);
                }
                return false;
            }
            i = i + 1;
        }
        assert(self.messages@.take(i as int) =~= self.messages@);
        true
    }

    /// The sum of the token estimates of all messages.
    pub fn estimate_tokens(&self) -> (n: usize)
        requires
            messages_tokens(self.messages@) <= usize::MAX,
        ensures
            n == messages_tokens(self.messages@),
    {
        let mut total: usize = 0;
        let mut i: usize = 0;
        while i < self.messages.len()
            invariant
                i <= self.messages@.len(),
                messages_tokens(self.messages@) <= usize::MAX,
                total == messages_tokens(self.messages@.take(i as int)),
            decreases self.messages@.len() - i,
        {
            proof {
                assert(self.messages@.take(i + 1).drop_last() =~= self.messages@.take(i as int));
                lemma_messages_tokens_prefix(self.messages@, i + 1);
            }
            let t = self.messages[i].estimate_tokens();
            total = total + t;
            i = i + 1;
        }
        assert(self.messages@.take(i as int) =~= self.messages@);
        total
    }
}

/// The token sum of a session grows by exactly the new message's estimate
/// when a message is added, and is 0 for no messages.
pub proof fn lemma_messages_tokens_add(msgs: Seq<Message>, m: Message)
    ensures
        messages_tokens(msgs.push(m)) == messages_tokens(msgs) + token_estimate(m.content@),
        messages_tokens(Seq::<Message>::empty()) == 0,
{
    assert(msgs.push(m).drop_last() =~= msgs);
}

/// The token sum of a prefix never exceeds that of the whole sequence.
proof fn lemma_messages_tokens_prefix(msgs: Seq<Message>, k: int)
    requires
        0 <= k <= msgs.len(),
    ensures
        messages_tokens(msgs.take(k)) <= messages_tokens(msgs),
    decreases msgs.len(),
{
    if k < msgs.len() {
        assert(msgs.drop_last().take(k) =~= msgs.take(k));
        lemma_messages_tokens_prefix(msgs.drop_last(), k);
    } else {
        assert(msgs.take(k) =~= msgs);
    }
}

impl SessionSummary {
    /// The summary text of a session, dated with the session's creation;
    /// its token count is left at 0.
    pub fn new(session: &Session, summary_text: String) -> (s: SessionSummary)
        ensures
            s.session_id@ == session.id@,
            s.session_date == session.created_at,
            s.summary@ == summary_text@,
            s.token_count == 0,
    {
        SessionSummary {
            session_id: session.id.clone(),
            session_date: session.created_at,
            summary: summary_text,
            token_count: 0,
        }
    }

    /// The token estimate of the summary text.
    pub fn estimate_tokens(&self) -> (n: usize)
        requires
            token_estimate(self.summary@) <= usize::MAX,
        ensures
            n == token_estimate(self.summary@),
    {
        estimate_tokens(self.summary.as_str())
    }
}

/// A session as the store holds it: its dates as RFC 3339 text and its
/// summary's token count as a signed integer; the messages are read
/// separately and the budget is the default 8000. `None` where a date does
/// not parse.
pub fn stored_session(
    id: String,
    name: Option<String>,
    created_at: &str,
    last_active_at: &str,
    summary: Option<String>,
    summary_tokens: i64,
    messages: Vec<Message>,
) -> (r: Option<Session>)
    ensures
        r is Some <==> instant_of_text(created_at@) is Some && instant_of_text(last_active_at@) is Some,
        r matches Some(s) ==> {
            &&& s.id == id
            &&& s.name == name
            &&& Some(s.created_at) == instant_of_text(created_at@)
            &&& Some(s.last_active_at) == instant_of_text(last_active_at@)
            &&& s.summary == summary
            &&& s.summary_tokens == summary_tokens as usize
            &&& s.messages@ == messages@
            &&& s.max_history_tokens == 8000
        },
{
    let created = Timestamp::parse_rfc3339(created_at);
    let last_active = Timestamp::parse_rfc3339(last_active_at);
    match (created, last_active) {
        (Some(created_at), Some(last_active_at)) => Some(
            Session {
                id,
                name,
                created_at,
                last_active_at,
                summary,
                summary_tokens: summary_tokens as usize,
                messages,
                max_history_tokens: 8000,
            },
        ),
        _ => None,
    }
}

/// A message as the store holds it, its date as RFC 3339 text; `None`
/// where the date does not parse.
pub fn stored_message(id: i64, session_id: String, role: String, content: String, created_at: &str) -> (r: Option<Message>)
    ensures
        r is Some <==> instant_of_text(created_at@) is Some,
        r matches Some(m) ==> {
            &&& m.id == id
            &&& m.session_id == session_id
            &&& m.role == role
            &&& m.content == content
            &&& Some(m.created_at) == instant_of_text(created_at@)
        },
{
    match Timestamp::parse_rfc3339(created_at) {
        Some(created_at) => Some(Message { id, session_id, role, content, created_at }),
        None => None,
    }
}

/// A summary as the store holds it: the session's id, creation date as
/// RFC 3339 text, summary text and token count as a signed integer; `None`
/// where the date does not parse.
pub fn stored_summary(session_id: String, created_at: &str, summary: String, token_count: i64) -> (r: Option<SessionSummary>)
    ensures
        r is Some <==> instant_of_text(created_at@) is Some,
        r matches Some(x) ==> {
            &&& x.session_id == session_id
            &&& Some(x.session_date) == instant_of_text(created_at@)
            &&& x.summary == summary
            &&& x.token_count == token_count as usize
        },
{
    match Timestamp::parse_rfc3339(created_at) {
        Some(session_date) => Some(
            SessionSummary { session_id, session_date, summary, token_count: token_count as usize },
        ),
        None => None,
    }
}

} // verus!
