//! The command-line sessions: the query of a single run, the lines of an
//! interactive session, and the conversation history kept between turns.

use vstd::prelude::*;
use crate::llm::{message_views, ChatMessage, MessageView};
use crate::text::{join, join_strings, trim, trim_str, views};
use crate::agent::text_message;

verus! {

/// How many messages of earlier turns an interactive session keeps.
pub open spec fn history_limit() -> nat {
    20
}

/// The query of a single run, given the words on the command line; `None`
/// when it is blank (and usage is shown instead).
pub open spec fn single_query(words: Seq<Seq<char>>) -> Option<Seq<char>> {
    let q = join(words, " "@);
    if trim(q).len() == 0 {
        None
    } else {
        Some(q)
    }
}

/// Joins the command-line words into the query of a single run.
pub fn query_from_words(words: &Vec<String>) -> (r: Option<String>)
    ensures
        match r {
            Some(q) => single_query(views(words@)) == Some(q@),
            None => single_query(views(words@)) is None,
        },
{
    let q = join_strings(words, " ");
    let t = trim_str(q.as_str());
    if t.as_str().is_empty() {
        None
    } else {
        Some(q)
    }
}

/// What one line of an interactive session asks for.
pub enum SessionInput {
    /// A blank line: prompt again.
    Skip,
    /// `quit` or `exit`: leave the session.
    Quit,
    /// A query, trimmed.
    Ask { query: String },
}

/// The mathematical value of a [`SessionInput`].
pub enum InputView {
    Skip,
    Quit,
    Ask { query: Seq<char> },
}

impl View for SessionInput {
    type V = InputView;

    open spec fn view(&self) -> InputView {
        match self {
            SessionInput::Skip => InputView::Skip,
            SessionInput::Quit => InputView::Quit,
            SessionInput::Ask { query } => InputView::Ask { query: query@ },
        }
    }
}

/// The meaning of an input line.
pub open spec fn input_meaning(line: Seq<char>) -> InputView {
    let q = trim(line);
    if q.len() == 0 {
        InputView::Skip
    } else if q == "quit"@ || q == "exit"@ {
        InputView::Quit
    } else {
        InputView::Ask { query: q }
    }
}

/// Reads the meaning of an input line.
pub fn classify_input(line: &str) -> (r: SessionInput)
    ensures
        r@ == input_meaning(line@),
{
    let q = trim_str(line);
    if q.as_str().is_empty() {
        SessionInput::Skip
    } else if crate::text::str_eq(q.as_str(), "quit") || crate::text::str_eq(q.as_str(), "exit") {
        SessionInput::Quit
    } else {
        SessionInput::Ask { query: q }
    }
}

/// The last `history_limit()` messages of `h`, or all of them.
pub open spec fn keep_recent(h: Seq<MessageView>) -> Seq<MessageView> {
    if h.len() > history_limit() {
        h.subrange(h.len() - history_limit(), h.len() as int)
    } else {
        h
    }
}

/// The history after a completed exchange.
pub open spec fn history_after(h: Seq<MessageView>, query: Seq<char>, response: Seq<char>) -> Seq<MessageView> {
    keep_recent(h.push(text_message("user"@, query)).push(text_message("assistant"@, response)))
}

/// Records a completed exchange and keeps only the recent messages.
pub fn record_exchange(history: &mut Vec<ChatMessage>, query: String, response: String)
    ensures
        message_views(final(history)@) == history_after(message_views(old(history)@), query@, response@),
{
    let ghost h0 = message_views(history@);
    let ghost q = query@;
    let ghost a = response@;
    history.push(ChatMessage::text("user", query));
    history.push(ChatMessage::text("assistant", response));
    let ghost full = h0.push(text_message("user"@, q)).push(text_message("assistant"@, a));
    assert(message_views(history@) =~= full);
    if history.len() > 20 {
        let start = history.len() - 20;
        let mut kept: Vec<ChatMessage> = Vec::new();
        let mut i = start;
        while i < history.len()
            invariant
                start <= i <= history.len(),
                start == history.len() - 20,
                message_views(history@) == full,
                message_views(kept@) == full.subrange(start as int, i as int),
            decreases history.len() - i,
        {
            let ghost before = kept@;
            kept.push(history[i].duplicate());
            assert(message_views(kept@) =~= message_views(before).push(history@[i as int]@));
            assert(full.subrange(start as int, i + 1) =~= full.subrange(start as int, i as int).push(
                full[i as int],
            ));
            i = i + 1;
        }
        *history = kept;
    }
}


/// An interactive session keeps at most the last ten exchanges: the
/// history never exceeds twenty messages, ends with the exchange just made,
/// and is the tail of the earlier history followed by that exchange.
pub proof fn law_history_keeps_recent_exchanges(
    h: Seq<MessageView>,
    query: Seq<char>,
    response: Seq<char>,
)
    requires
        h.len() <= history_limit(),
    ensures
        history_after(h, query, response).len() <= history_limit(),
        history_after(h, query, response).last() == text_message("assistant"@, response),
        history_after(h, query, response)[history_after(h, query, response).len() - 2]
            == text_message("user"@, query),
        ({
            let full = h.push(text_message("user"@, query)).push(text_message("assistant"@, response));
            history_after(h, query, response) == full.subrange(
                full.len() - history_after(h, query, response).len(),
                full.len() as int,
            )
        }),
{
    let full = h.push(text_message("user"@, query)).push(text_message("assistant"@, response));
    assert(full.subrange(0, full.len() as int) =~= full);
}

} // verus!
