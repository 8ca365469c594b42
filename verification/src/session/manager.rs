use vstd::prelude::*;
use vstd::string::*;
use crate::session::session::{
    capitalize, capitalized, estimate_tokens, Message, Session,
};
use crate::text::{str_trim, token_estimate, trimmed};

verus! {

/// Settings of the session manager.
#[derive(Clone, Debug)]
pub struct SessionConfig {
    pub max_history_tokens: usize,
    pub db_path: String,
    pub auto_resume: bool,
    pub summarize_on_close: bool,
}

/// Default token budget for the summaries of earlier sessions: 8000.
pub fn default_max_history_tokens() -> (r: usize)
    ensures
        r == 8000,
{
    8000
}

/// Default database path: `.ao/sessions.db`.
pub fn default_db_path() -> (r: String)
    ensures
        r@ == ".ao/sessions.db"@,
{
    ".ao/sessions.db".to_owned()
}

/// By default the last session is resumed at start.
pub fn default_auto_resume() -> (r: bool)
    ensures
        r,
{
    true
}

/// By default a session is summarized when it ends.
pub fn default_summarize_on_close() -> (r: bool)
    ensures
        r,
{
    true
}

impl Default for SessionConfig {
    fn default() -> (r: Self)
        ensures
            r.max_history_tokens == 8000,
            r.db_path@ == ".ao/sessions.db"@,
            r.auto_resume,
            r.summarize_on_close,
    {
        SessionConfig {
            max_history_tokens: default_max_history_tokens(),
            db_path: default_db_path(),
            auto_resume: default_auto_resume(),
            summarize_on_close: default_summarize_on_close(),
        }
    }
}

/// `Summary:` request head, up to the transcript.
pub open spec fn summary_request_head() -> Seq<char> {
    "Summarize the following conversation in 2-3 paragraphs. Focus on: main topics discussed, key decisions made, and any pending or unfinished tasks.\n\n=== Conversation Transcript ===\n"@
}

/// What follows the transcript in the summary request.
pub open spec fn summary_request_tail() -> Seq<char> {
    "\n=== End Transcript ===\n\nSummary:"@
}

/// One transcript line: `Role: content`, the role capitalized.
pub open spec fn transcript_line(m: Message) -> Seq<char> {
    capitalized(m.role@) + ": "@ + m.content@
}

/// The transcript lines joined with `\n`.
pub open spec fn transcript(msgs: Seq<Message>) -> Seq<char>
    decreases msgs.len(),
{
    if msgs.len() == 0 {
        Seq::empty()
    } else if msgs.len() == 1 {
        transcript_line(msgs[0])
    } else {
        transcript(msgs.drop_last()) + "\n"@ + transcript_line(msgs.last())
    }
}

/// The prompt that asks the model to summarize a conversation.
pub open spec fn summary_request(msgs: Seq<Message>) -> Seq<char> {
    summary_request_head() + transcript(msgs) + summary_request_tail()
}

/// Whether ending the session asks the model for a summary: summarizing is
/// on and the current session has messages.
pub open spec fn wants_summary(config: SessionConfig, current: Option<Session>) -> bool {
    &&& config.summarize_on_close
    &&& current is Some
    &&& current->0.messages@.len() > 0
}

/// The current session's messages are cleared; nothing else of it, and
/// nothing of the settings, changes.
pub open spec fn after_clear(b: SessionManager, a: SessionManager) -> bool {
    &&& a.config_spec() == b.config_spec()
    &&& b.current() is None ==> a.current() is None
    &&& b.current() matches Some(before) ==> {
        &&& a.current() is Some
        &&& a.current()->0.messages@.len() == 0
        &&& a.current()->0.id == before.id
        &&& a.current()->0.name == before.name
        &&& a.current()->0.created_at == before.created_at
        &&& a.current()->0.summary == before.summary
        &&& a.current()->0.summary_tokens == before.summary_tokens
        &&& a.current()->0.max_history_tokens == before.max_history_tokens
    }
}

/// `a` is `b` after adding a message with this role and content: with no
/// current session nothing changes and nothing is returned; otherwise the
/// message is appended to the current session, which keeps all else, and a
/// copy of it is returned.
pub open spec fn added_message(
    b: SessionManager,
    a: SessionManager,
    saved: Option<Message>,
    role: Seq<char>,
    content: Seq<char>,
) -> bool {
    &&& a.config_spec() == b.config_spec()
    &&& b.current() is None ==> saved is None && a.current() is None
    &&& b.current() matches Some(before) ==> {
        &&& a.current() is Some
        &&& saved is Some
        &&& {
            let after = a.current()->0;
            &&& after.messages@.len() == before.messages@.len() + 1
            &&& after.messages@.drop_last() == before.messages@
            &&& saved->0 == after.messages@.last()
            &&& after.messages@.last().session_id@ == before.id@
            &&& after.messages@.last().role@ == role
            &&& after.messages@.last().content@ == content
            &&& after.id == before.id
            &&& after.name == before.name
            &&& after.created_at == before.created_at
            &&& after.summary == before.summary
            &&& after.summary_tokens == before.summary_tokens
            &&& after.max_history_tokens == before.max_history_tokens
        }
    }
}

/// What is stored of a session summary: session id, summary text, tokens.
pub struct SummaryRecord {
    pub session_id: String,
    pub summary: String,
    pub tokens: usize,
}

impl Clone for Message {
    fn clone(&self) -> (r: Self)
        ensures
            r == *self,
    {
        Message {
            id: self.id,
            session_id: self.session_id.clone(),
            role: self.role.clone(),
            content: self.content.clone(),
            created_at: self.created_at,
        }
    }
}

/// The current session and the settings; what is stored, and the model's
/// replies, are handed in by the caller, which does the I/O.
pub struct SessionManager {
    current_session: Option<Session>,
    config: SessionConfig,
}

impl SessionManager {
    pub closed spec fn current(&self) -> Option<Session> {
        self.current_session
    }

    pub closed spec fn config_spec(&self) -> SessionConfig {
        self.config
    }

    /// A manager with no current session.
    pub fn new(config: SessionConfig) -> (m: Self)
        ensures
            m.current() is None,
            m.config_spec() == config,
    {
        SessionManager { current_session: None, config }
    }

    pub fn current_session(&self) -> (r: Option<&Session>)
        ensures
            r is Some <==> self.current() is Some,
            r matches Some(s) ==> *s == self.current()->0,
    {
        self.current_session.as_ref()
    }

    /// The current session, to be changed in place.
    pub fn current_session_mut(&mut self) -> (r: Option<&mut Session>)
        ensures
            r is Some <==> old(self).current() is Some,
            r is None ==> final(self).current() == old(self).current(),
            r is Some ==> *(r->0) == old(self).current()->0 && final(self).current() == Some(*final(r->0)),
            final(self).config_spec() == old(self).config_spec(),
    {
        match &mut self.current_session {
            Some(session) => Some(session),
            None => None,
        }
    }

    pub fn get_config(&self) -> (r: &SessionConfig)
        ensures
            *r == self.config_spec(),
    {
        &self.config
    }

    /// A new session with the given id and the configured budget, to be
    /// stored and then started.
    pub fn prepare_session(&self, id: String) -> (s: Session)
        ensures
            s.id@ == id@,
            s.name is None,
            s.summary is None,
            s.summary_tokens == 0,
            s.messages@.len() == 0,
            s.max_history_tokens == self.config_spec().max_history_tokens,
    {
        Session::new(id, self.config.max_history_tokens)
    }

    /// Makes the (stored) session the current one.
    pub fn start_session(&mut self, session: Session)
        ensures
            final(self).current() == Some(session),
            final(self).config_spec() == old(self).config_spec(),
    {
        self.current_session = Some(session);
    }

    /// Resumes the most recently active stored session, if there is one,
    /// under the configured budget; with none, nothing changes.
    pub fn resume_last_session(&mut self, last: Option<Session>) -> (resumed: bool)
        ensures
            resumed == last is Some,
            final(self).config_spec() == old(self).config_spec(),
            last is None ==> final(self).current() == old(self).current(),
            last matches Some(s) ==> final(self).current() == Some(
                Session { max_history_tokens: old(self).config_spec().max_history_tokens, ..s },
            ),
    {
        match last {
            Some(mut session) => {
                session.max_history_tokens = self.config.max_history_tokens;
                self.current_session = Some(session);
                true
            },
            None => false,
        }
    }

    /// Adds a message to the current session and returns a copy of it to be
    /// stored; with no current session, nothing happens.
    pub fn add_message(&mut self, role: &str, content: &str) -> (saved: Option<Message>)
        ensures
            added_message(*old(self), *final(self), saved, role@, content@),
    {
        match self.current_session.take() {
            Some(mut session) => {
                session.add_message(role, content);
                let last = session.messages.len() - 1;
                let saved = session.messages[last].clone();
                self.current_session = Some(session);
                Some(saved)
            },
            None => None,
        }
    }

    /// Clears the messages of the current session, if there is one.
    pub fn clear_history(&mut self)
        ensures
            after_clear(*old(self), *final(self)),
    {
        match self.current_session.take() {
            Some(mut session) => {
                session.clear_history();
                self.current_session = Some(session);
            },
            None => {},
        }
    }

    /// First step of ending the session. Where a summary is wanted (see
    /// `wants_summary`), returns the request for it and keeps the session;
    /// otherwise the session ends here and `None` is returned.
    pub fn begin_end_session(&mut self) -> (request: Option<String>)
        ensures
            final(self).config_spec() == old(self).config_spec(),
            wants_summary(old(self).config_spec(), old(self).current()) ==> {
                &&& final(self).current() == old(self).current()
                &&& request matches Some(p) && p@ == summary_request(old(self).current()->0.messages@)
            },
            !wants_summary(old(self).config_spec(), old(self).current()) ==> {
                &&& final(self).current() is None
                &&& request is None
            },
    {
        let wants = match &self.current_session {
            Some(session) => self.config.summarize_on_close && session.messages.len() > 0,
            None => false,
        };
        if wants {
            match &self.current_session {
                Some(session) => Some(build_summary_request(&session.messages)),
                None => None,
            }
        } else {
            self.current_session = None;
            None
        }
    }

    /// Second step of ending the session, given the model's reply (`None`
    /// where the model failed). With a reply, its trimmed text becomes the
    /// session's summary, with its token estimate, the session stays
    /// current, and what is to be stored is returned. Without one, the
    /// session ends and `None` is returned.
    pub fn finish_end_session(&mut self, reply: Option<String>) -> (record: Option<SummaryRecord>)
        requires
            old(self).current() is Some,
            reply matches Some(t) ==> token_estimate(trimmed(t@)) <= usize::MAX,
        ensures
            final(self).config_spec() == old(self).config_spec(),
            reply is None ==> final(self).current() is None && record is None,
            reply matches Some(t) ==> {
                let before = old(self).current()->0;
                let summary = trimmed(t@);
                &&& final(self).current() matches Some(after) && after == Session {
                    summary: after.summary,
                    summary_tokens: after.summary_tokens,
                    ..before
                }
                &&& final(self).current()->0.summary matches Some(s) && s@ == summary
                &&& final(self).current()->0.summary_tokens == token_estimate(summary)
                &&& record matches Some(rec) && rec.session_id@ == before.id@ && rec.summary@
                    == summary && rec.tokens == token_estimate(summary)
            },
    {
        match reply {
            Some(text) => {
                let summary = str_trim(text.as_str()).to_owned();
                let tokens = estimate_tokens(summary.as_str());
                match self.current_session.take() {
                    Some(mut session) => {
                        session.summary = Some(summary.clone());
                        session.summary_tokens = tokens;
                        let id = session.id.clone();
                        self.current_session = Some(session);
                        Some(SummaryRecord { session_id: id, summary, tokens })
                    },
                    None => None,
                }
            },
            None => {
                self.current_session = None;
                None
            },
        }
    }
}

/// The summary request for these messages (see `summary_request`).
pub fn build_summary_request(messages: &Vec<Message>) -> (r: String)
    ensures
        r@ == summary_request(messages@),
{
    let mut out = String::new();
    out.append("Summarize the following conversation in 2-3 paragraphs. Focus on: main topics discussed, key decisions made, and any pending or unfinished tasks.\n\n=== Conversation Transcript ===\n");
    let mut i: usize = 0;
    while i < messages.len()
        invariant
            i <= messages@.len(),
            out@ == summary_request_head() + transcript(messages@.take(i as int)),
        decreases messages@.len() - i,
    {
        let ghost before = out@;
        if i > 0 {
            out.append("\n");
        }
        let role = capitalize(messages[i].role.as_str());
        out.append(role.as_str());
        out.append(": ");
        out.append(messages[i].content.as_str());
        proof {
            let m = messages@.take(i + 1);
            assert(m.drop_last() =~= messages@.take(i as int));
            assert(m.last() == messages@[i as int]);
            if i == 0 {
                assert(messages@.take(0) =~= Seq::<Message>::empty());
                assert(out@ =~= summary_request_head() + transcript(m));
            } else {
                assert(out@ =~= summary_request_head() + transcript(m));
            }
        }
        i = i + 1;
    }
    out.append("\n=== End Transcript ===\n\nSummary:");
    assert(messages@.take(messages@.len() as int) =~= messages@);
    out
}

/// The summary request for one message holds exactly its `Role: content`
/// line as the transcript.
pub proof fn lemma_summary_request_one(m: Message)
    ensures
        summary_request(seq![m]) == summary_request_head() + (capitalized(m.role@) + ": "@ + m.content@)
            + summary_request_tail(),
{
}

/// One more message adds exactly its `Role: content` line, after a line
/// break, at the end of the transcript: the request for the longer
/// conversation is the earlier request with that line put in before its
/// closing part, and nothing else changed.
pub proof fn lemma_summary_request_adds_message(msgs: Seq<Message>, m: Message)
    requires
        msgs.len() > 0,
    ensures
        ({
            let r = summary_request(msgs);
            let k = r.len() - summary_request_tail().len();
            &&& 0 <= k <= r.len()
            &&& r.skip(k) == summary_request_tail()
            &&& summary_request(msgs.push(m)) == r.take(k) + ("\n"@ + capitalized(m.role@) + ": "@ + m.content@)
                + summary_request_tail()
        }),
{
    let r = summary_request(msgs);
    let a = summary_request_head() + transcript(msgs);
    assert(r =~= a + summary_request_tail());
    let k = r.len() - summary_request_tail().len();
    assert(r.take(k) =~= a);
    assert(r.skip(k) =~= summary_request_tail());
    assert(msgs.push(m).drop_last() =~= msgs);
    assert(msgs.push(m).last() == m);
    let line = capitalized(m.role@) + ": "@ + m.content@;
    assert(transcript(msgs.push(m)) == transcript(msgs) + "\n"@ + line);
    assert(summary_request(msgs.push(m)) =~= a + ("\n"@ + line) + summary_request_tail());
}

} // verus!
