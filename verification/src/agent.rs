use vstd::prelude::*;
use vstd::string::*;
use crate::session::session::{capitalize, capitalized, Message, SessionSummary};

verus! {

/// The soul block that opens the prompt, if there is a soul.
pub open spec fn soul_block(soul: Option<Seq<char>>) -> Seq<char> {
    match soul {
        Some(s) => "=== Ao's Soul ===\n"@ + s + "\n=== End Soul ===\n\n"@,
        None => Seq::empty(),
    }
}

/// The identity block that follows the soul, if there is an identity.
pub open spec fn identity_block(identity: Option<Seq<char>>) -> Seq<char> {
    match identity {
        Some(s) => "=== Ao's Identity ===\n"@ + s + "\n=== End Identity ===\n\n"@,
        None => Seq::empty(),
    }
}

/// `Session <date>: <summary>` and a line break.
pub open spec fn summary_line(s: SessionSummary) -> Seq<char> {
    "Session "@ + s.session_date.date_text() + ": "@ + s.summary@ + "\n"@
}

pub open spec fn summary_lines(sums: Seq<SessionSummary>) -> Seq<char>
    decreases sums.len(),
{
    if sums.len() == 0 {
        Seq::empty()
    } else {
        summary_lines(sums.drop_last()) + summary_line(sums.last())
    }
}

/// The block of earlier sessions' summaries; empty when there are none.
pub open spec fn summaries_block(sums: Seq<SessionSummary>) -> Seq<char> {
    if sums.len() == 0 {
        Seq::empty()
    } else {
        "=== Previous Sessions Summary ===\n"@ + summary_lines(sums) + "=== End Previous Sessions ===\n\n"@
    }
}

/// `Role: content` and a line break, the role capitalized.
pub open spec fn history_line(m: Message) -> Seq<char> {
    capitalized(m.role@) + ": "@ + m.content@ + "\n"@
}

pub open spec fn history_lines(msgs: Seq<Message>) -> Seq<char>
    decreases msgs.len(),
{
    if msgs.len() == 0 {
        Seq::empty()
    } else {
        history_lines(msgs.drop_last()) + history_line(msgs.last())
    }
}

/// The block of the current session's messages; empty when there are none.
pub open spec fn history_block(msgs: Seq<Message>) -> Seq<char> {
    if msgs.len() == 0 {
        Seq::empty()
    } else {
        "=== Current Session History ===\n"@ + history_lines(msgs) + "=== End Current History ===\n\n"@
    }
}

/// The whole prompt: soul, identity, earlier summaries, current history,
/// then the user's input and the cue for Ao's answer.
pub open spec fn prompt_text(
    soul: Option<Seq<char>>,
    identity: Option<Seq<char>>,
    input: Seq<char>,
    history: Seq<Message>,
    sums: Seq<SessionSummary>,
) -> Seq<char> {
    soul_block(soul) + identity_block(identity) + summaries_block(sums) + history_block(history)
        + "User: "@ + input + "\nAo:"@
}

pub open spec fn opt_view(s: Option<&str>) -> Option<Seq<char>> {
    match s {
        Some(t) => Some(t@),
        None => None,
    }
}

/// Builds the prompt for the model (see `prompt_text`).
pub fn build_prompt(
    soul: Option<&str>,
    identity: Option<&str>,
    input: &str,
    history: &[Message],
    previous_summaries: &[SessionSummary],
) -> (prompt: String)
    ensures
        prompt@ == prompt_text(opt_view(soul), opt_view(identity), input@, history@, previous_summaries@),
{
    let mut prompt = String::new();
    match soul {
        Some(s) => {
            prompt.append("=== Ao's Soul ===\n");
            prompt.append(s);
            prompt.append("\n=== End Soul ===\n\n");
        },
        None => {},
    }
    match identity {
        Some(s) => {
            prompt.append("=== Ao's Identity ===\n");
            prompt.append(s);
            prompt.append("\n=== End Identity ===\n\n");
        },
        None => {},
    }
    let ghost head = prompt@;
    assert(head =~= soul_block(opt_view(soul)) + identity_block(opt_view(identity)));
    if previous_summaries.len() > 0 {
        prompt.append("=== Previous Sessions Summary ===\n");
        let ghost open = prompt@;
        let mut i: usize = 0;
        while i < previous_summaries.len()
            invariant
                i <= previous_summaries@.len(),
                prompt@ == open + summary_lines(previous_summaries@.take(i as int)),
            decreases previous_summaries@.len() - i,
        {
            let date = previous_summaries[i].session_date.format_date();
            prompt.append("Session ");
            prompt.append(date.as_str());
            prompt.append(": ");
            prompt.append(previous_summaries[i].summary.as_str());
            prompt.append("\n");
            proof {
                let t = previous_summaries@.take(i + 1);
                assert(t.drop_last() =~= previous_summaries@.take(i as int));
                assert(prompt@ =~= open + summary_lines(t));
            }
            i = i + 1;
        }
        prompt.append("=== End Previous Sessions ===\n\n");
        assert(previous_summaries@.take(previous_summaries@.len() as int) =~= previous_summaries@);
    }
    let ghost with_sums = prompt@;
    assert(with_sums =~= head + summaries_block(previous_summaries@));
    if history.len() > 0 {
        prompt.append("=== Current Session History ===\n");
        let ghost open = prompt@;
        let mut i: usize = 0;
        while i < history.len()
            invariant
                i <= history@.len(),
                prompt@ == open + history_lines(history@.take(i as int)),
            decreases history@.len() - i,
        {
            let role = capitalize(history[i].role.as_str());
            prompt.append(role.as_str());
            prompt.append(": ");
            prompt.append(history[i].content.as_str());
            prompt.append("\n");
            proof {
                let t = history@.take(i + 1);
                assert(t.drop_last() =~= history@.take(i as int));
                assert(prompt@ =~= open + history_lines(t));
            }
            i = i + 1;
        }
        prompt.append("=== End Current History ===\n\n");
        assert(history@.take(history@.len() as int) =~= history@);
    }
    assert(prompt@ =~= with_sums + history_block(history@));
    prompt.append("User: ");
    prompt.append(input);
    prompt.append("\nAo:");
    prompt
}

/// With no earlier summaries the prompt has no summaries block; with one,
/// the block holds exactly its line `Session <date>: <summary>`.
pub proof fn lemma_prompt_summary_base(
    soul: Option<Seq<char>>,
    identity: Option<Seq<char>>,
    input: Seq<char>,
    history: Seq<Message>,
    x: SessionSummary,
)
    ensures
        prompt_text(soul, identity, input, history, Seq::empty()) == soul_block(soul) + identity_block(identity)
            + history_block(history) + "User: "@ + input + "\nAo:"@,
        prompt_text(soul, identity, input, history, seq![x]) == soul_block(soul) + identity_block(identity)
            + "=== Previous Sessions Summary ===\n"@ + ("Session "@ + x.session_date.date_text() + ": "@
            + x.summary@ + "\n"@) + "=== End Previous Sessions ===\n\n"@ + history_block(history) + "User: "@
            + input + "\nAo:"@,
{
    assert(Seq::<char>::empty() + history_block(history) =~= history_block(history));
    assert(soul_block(soul) + identity_block(identity) + summaries_block(Seq::empty()) =~= soul_block(soul)
        + identity_block(identity));
    assert(seq![x].drop_last() =~= Seq::<SessionSummary>::empty());
    assert(summary_lines(Seq::<SessionSummary>::empty()) =~= Seq::<char>::empty());
    assert(summary_lines(seq![x]) == summary_lines(Seq::<SessionSummary>::empty()) + summary_line(x));
    assert(summary_lines(seq![x]) =~= summary_line(x));
    let a = soul_block(soul) + identity_block(identity);
    let h = "=== Previous Sessions Summary ===\n"@;
    let f = "=== End Previous Sessions ===\n\n"@;
    let l = "Session "@ + x.session_date.date_text() + ": "@ + x.summary@ + "\n"@;
    let r = history_block(history) + "User: "@ + input + "\nAo:"@;
    assert(a + (h + l + f) + history_block(history) + "User: "@ + input + "\nAo:"@ =~= a + h + l + f + r);
    assert(a + history_block(history) + "User: "@ + input + "\nAo:"@ =~= a + r);
}

/// One more earlier summary adds exactly its line `Session <date>:
/// <summary>` to the prompt, after the lines of the others and before the
/// end of the summaries block; nothing else of the prompt changes.
#[verifier::spinoff_prover]
#[verifier::rlimit(40)]
pub proof fn lemma_prompt_adds_summary(
    soul: Option<Seq<char>>,
    identity: Option<Seq<char>>,
    input: Seq<char>,
    history: Seq<Message>,
    s: Seq<SessionSummary>,
    x: SessionSummary,
)
    requires
        s.len() > 0,
    ensures
        ({
            let p = prompt_text(soul, identity, input, history, s);
            let tail = "=== End Previous Sessions ===\n\n"@ + history_block(history) + "User: "@ + input + "\nAo:"@;
            let k = p.len() - tail.len();
            &&& 0 <= k <= p.len()
            &&& p.skip(k) == tail
            &&& prompt_text(soul, identity, input, history, s.push(x)) == p.take(k) + ("Session "@
                + x.session_date.date_text() + ": "@ + x.summary@ + "\n"@) + tail
        }),
{
    let p = prompt_text(soul, identity, input, history, s);
    let tail = "=== End Previous Sessions ===\n\n"@ + history_block(history) + "User: "@ + input + "\nAo:"@;
    let a = soul_block(soul) + identity_block(identity) + "=== Previous Sessions Summary ===\n"@ + summary_lines(s);
    assert(s.push(x).drop_last() =~= s);
    assert(summaries_block(s) == "=== Previous Sessions Summary ===\n"@ + summary_lines(s) + "=== End Previous Sessions ===\n\n"@);
    assert(p =~= a + tail);
    let k = p.len() - tail.len();
    assert(p.take(k) =~= a);
    assert(p.skip(k) =~= tail);
    let l = "Session "@ + x.session_date.date_text() + ": "@ + x.summary@ + "\n"@;
    assert(summary_lines(s.push(x)) == summary_lines(s) + l);
    assert(prompt_text(soul, identity, input, history, s.push(x)) =~= a + l + tail);
}

} // verus!
