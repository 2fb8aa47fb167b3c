//! The agent's conversation loop as a state machine: the caller asks the
//! model and runs tools; the machine decides what happens next.

use vstd::prelude::*;
use crate::llm::{
    call_views, copy_calls, copy_opt_string, message_views, opt_view, ChatMessage, ChatResponse,
    ChoiceView, MessageView, ResponseView, ToolCall, ToolCallView,
};
use crate::text::{byte_len, byte_prefix, byte_prefix_string, decimal, is_boundary, push_decimal};

verus! {

/// `s` cut to its first `max` bytes, with `"..."` appended when it was longer.
pub open spec fn truncated(s: Seq<char>, max: nat) -> Seq<char> {
    if byte_len(s) <= max {
        s
    } else {
        byte_prefix(s, max as int) + "..."@
    }
}

/// Shortens `s` to `max` bytes for display.  Cutting inside a character is
/// not possible, so a longer `s` must have a character boundary at `max`.
pub fn truncate_str(s: &str, max: usize) -> (r: String)
    requires
        byte_len(s@) > max ==> is_boundary(s@, max as int),
    ensures
        r@ == truncated(s@, max as nat),
{
    if s.as_bytes().len() <= max {
        s.to_owned()
    } else {
        let mut r = byte_prefix_string(s, max);
        r.append("...");
        r
    }
}

/// The progress line printed before a tool runs.
pub open spec fn progress_line(iteration: nat, max_iterations: nat, call: ToolCallView) -> Seq<char> {
    "  ["@ + decimal(iteration + 1) + "/"@ + decimal(max_iterations) + "] Tool: "@ + call.name
        + " ("@ + truncated(call.arguments, 80) + ")"@
}

/// The progress line for a tool call made in round `iteration` (from zero).
pub fn tool_progress_line(iteration: usize, max_iterations: usize, call: &ToolCall) -> (r: String)
    requires
        iteration < u64::MAX,
        byte_len(call.function.arguments@) > 80 ==> is_boundary(call.function.arguments@, 80),
    ensures
        r@ == progress_line(iteration as nat, max_iterations as nat, call@),
{
    let mut r = "  [".to_owned();
    push_decimal(&mut r, iteration as u64 + 1);
    r.append("/");
    push_decimal(&mut r, max_iterations as u64);
    r.append("] Tool: ");
    r.append(call.function.name.as_str());
    r.append(" (");
    let short = truncate_str(call.function.arguments.as_str(), 80);
    r.append(short.as_str());
    r.append(")");
    r
}

/// The description of the host that the agent gives the model.
pub open spec fn system_description(
    os_name: Option<Seq<char>>,
    os_version: Option<Seq<char>>,
    kernel: Option<Seq<char>>,
) -> Seq<char> {
    let name = match os_name {
        Some(n) => n,
        None => "Unknown"@,
    };
    let version = match os_version {
        Some(v) => v,
        None => ""@,
    };
    let kern = match kernel {
        Some(k) => k,
        None => ""@,
    };
    name + " "@ + version + " (kernel "@ + kern + "), Bash environment"@
}

/// Describes the host from its OS name, OS version and kernel version,
/// each of which may be unknown.
pub fn describe_system(os_name: Option<String>, os_version: Option<String>, kernel: Option<String>) -> (r: String)
    ensures
        r@ == system_description(opt_view(os_name), opt_view(os_version), opt_view(kernel)),
{
    let mut r = match os_name {
        Some(n) => n,
        None => "Unknown".to_owned(),
    };
    r.append(" ");
    match os_version {
        Some(v) => r.append(v.as_str()),
        None => r.append(""),
    }
    r.append(" (kernel ");
    match kernel {
        Some(k) => r.append(k.as_str()),
        None => r.append(""),
    }
    r.append("), Bash environment");
    r
}

/// The system prompt, given the host description and the memory dump.
pub open spec fn system_prompt_text(system_info: Seq<char>, memory: Seq<char>) -> Seq<char> {
    "You are a helpful system agent running on "@ + system_info
        + ". You have access to tools for executing shell commands, reading/writing files, listing directories, managing a persistent memory store, web search (DuckDuckGo), and fetching web page content by URL.\n\nPersistent Memory:\n"@
        + memory
        + "\n\nRules:\n- Use the terminal tool to execute commands compatible with the current OS.\n- Always respond in the same language the user uses.\n- Be concise and helpful.\n- When the user asks you to remember something, use the remember_info tool."@
}

/// Builds the system prompt.
pub fn system_prompt(system_info: &str, memory: &str) -> (r: String)
    ensures
        r@ == system_prompt_text(system_info@, memory@),
{
    let mut r = "You are a helpful system agent running on ".to_owned();
    r.append(system_info);
    r.append(
        ". You have access to tools for executing shell commands, reading/writing files, listing directories, managing a persistent memory store, web search (DuckDuckGo), and fetching web page content by URL.\n\nPersistent Memory:\n",
    );
    r.append(memory);
    r.append(
        "\n\nRules:\n- Use the terminal tool to execute commands compatible with the current OS.\n- Always respond in the same language the user uses.\n- Be concise and helpful.\n- When the user asks you to remember something, use the remember_info tool.",
    );
    r
}


/// What the caller must do next.
pub enum AgentStep {
    /// Send the conversation so far to the model and report the reply.
    QueryModel,
    /// Run this tool call and report its output.
    RunTool { call: ToolCall },
    /// The run is over, with the final answer or an error.
    Finished { outcome: Result<String, String> },
}

/// The mathematical value of an [`AgentStep`].
pub enum StepView {
    QueryModel,
    RunTool { call: ToolCallView },
    Finished { outcome: Result<Seq<char>, Seq<char>> },
}

impl View for AgentStep {
    type V = StepView;

    open spec fn view(&self) -> StepView {
        match self {
            AgentStep::QueryModel => StepView::QueryModel,
            AgentStep::RunTool { call } => StepView::RunTool { call: call@ },
            AgentStep::Finished { outcome } => StepView::Finished {
                outcome: match outcome {
                    Ok(t) => Ok(t@),
                    Err(e) => Err(e@),
                },
            },
        }
    }
}

/// One run of the agent on one query.
pub struct AgentRun {
    messages: Vec<ChatMessage>,
    iteration: usize,
    max_iterations: usize,
    pending: Vec<ToolCall>,
    next_tool: usize,
    finished: bool,
}

/// The mathematical value of an [`AgentRun`].
pub struct RunView {
    /// The conversation sent to the model.
    pub messages: Seq<MessageView>,
    /// Completed rounds of tool calls.
    pub iteration: nat,
    pub max_iterations: nat,
    /// The tool calls of the latest assistant message.
    pub pending: Seq<ToolCallView>,
    /// How many of them have been answered.
    pub next_tool: nat,
    pub finished: bool,
}

impl View for AgentRun {
    type V = RunView;

    closed spec fn view(&self) -> RunView {
        RunView {
            messages: message_views(self.messages@),
            iteration: self.iteration as nat,
            max_iterations: self.max_iterations as nat,
            pending: call_views(self.pending@),
            next_tool: self.next_tool as nat,
            finished: self.finished,
        }
    }
}

/// The run waits for a model reply.
pub open spec fn awaiting_model(v: RunView) -> bool {
    !v.finished && v.next_tool >= v.pending.len()
}

/// The run waits for the output of `v.pending[v.next_tool]`.
pub open spec fn awaiting_tool(v: RunView) -> bool {
    !v.finished && v.next_tool < v.pending.len()
}

/// What every reachable state satisfies: the round counter stays below the
/// limit while the run goes on, and at most all pending calls are answered.
pub open spec fn run_invariant(v: RunView) -> bool {
    &&& v.iteration <= v.max_iterations
    &&& !v.finished ==> v.iteration < v.max_iterations
    &&& v.next_tool <= v.pending.len()
}

/// The error given when the rounds run out.
pub open spec fn limit_message() -> Seq<char> {
    "Agent reached maximum iterations without a final response."@
}

/// A plain message.
pub open spec fn text_message(role: Seq<char>, content: Seq<char>) -> MessageView {
    MessageView { role, content: Some(content), tool_calls: None, tool_call_id: None }
}

/// The conversation a run starts with.
pub open spec fn opening_messages(
    prompt: Seq<char>,
    history: Seq<MessageView>,
    query: Seq<char>,
) -> Seq<MessageView> {
    seq![text_message("system"@, prompt)] + history + seq![text_message("user"@, query)]
}

/// The state a run starts in.
pub open spec fn start_state(
    prompt: Seq<char>,
    history: Seq<MessageView>,
    query: Seq<char>,
    max_iterations: nat,
) -> RunView {
    RunView {
        messages: opening_messages(prompt, history, query),
        iteration: 0,
        max_iterations,
        pending: seq![],
        next_tool: 0,
        finished: max_iterations == 0,
    }
}

/// The first step of a run.
pub open spec fn start_step(max_iterations: nat) -> StepView {
    if max_iterations == 0 {
        StepView::Finished { outcome: Err(limit_message()) }
    } else {
        StepView::QueryModel
    }
}

/// `v` marked finished.
pub open spec fn finish(v: RunView) -> RunView {
    RunView { finished: true, ..v }
}

/// The first choice of a reply, if it has one.
pub open spec fn first_choice(resp: ResponseView) -> Option<ChoiceView> {
    match resp.choices {
        Some(cs) => if cs.len() > 0 {
            Some(cs[0])
        } else {
            None
        },
        None => None,
    }
}

/// Whether a choice asks for tools.
pub open spec fn asks_for_tools(c: ChoiceView) -> bool {
    c.tool_calls is Some && c.tool_calls->0.len() > 0
}

/// The assistant message that records a choice with tool calls.
pub open spec fn assistant_message(c: ChoiceView) -> MessageView {
    MessageView {
        role: "assistant"@,
        content: c.content,
        tool_calls: c.tool_calls,
        tool_call_id: None,
    }
}

/// The final text of a choice without tool calls.
pub open spec fn final_text(c: ChoiceView) -> Seq<char> {
    match c.content {
        Some(t) => t,
        None => "(no response)"@,
    }
}

/// The next state and step after the model replied (or failed with an error).
pub open spec fn after_reply(v: RunView, reply: Result<ResponseView, Seq<char>>) -> (RunView, StepView) {
    match reply {
        Err(e) => (finish(v), StepView::Finished { outcome: Err(e) }),
        Ok(resp) => if resp.error is Some {
            (finish(v), StepView::Finished { outcome: Err("API error: "@ + resp.error->0) })
        } else if first_choice(resp) is None {
            (finish(v), StepView::Finished { outcome: Err("No choices in API response"@) })
        } else {
            let c = first_choice(resp)->0;
            if asks_for_tools(c) {
                let calls = c.tool_calls->0;
                (
                    RunView {
                        messages: v.messages.push(assistant_message(c)),
                        pending: calls,
                        next_tool: 0,
                        ..v
                    },
                    StepView::RunTool { call: calls[0] },
                )
            } else {
                (finish(v), StepView::Finished { outcome: Ok(final_text(c)) })
            }
        },
    }
}

/// The message that carries the output of a tool call.
pub open spec fn tool_message(output: Seq<char>, call: ToolCallView) -> MessageView {
    MessageView {
        role: "tool"@,
        content: Some(output),
        tool_calls: None,
        tool_call_id: Some(call.id),
    }
}

/// The next state and step after the awaited tool produced `output`.
pub open spec fn after_tool(v: RunView, output: Seq<char>) -> (RunView, StepView) {
    let msgs = v.messages.push(tool_message(output, v.pending[v.next_tool as int]));
    let n = v.next_tool + 1;
    if n < v.pending.len() {
        (RunView { messages: msgs, next_tool: n, ..v }, StepView::RunTool { call: v.pending[n as int] })
    } else if v.iteration + 1 < v.max_iterations {
        (
            RunView { messages: msgs, next_tool: n, iteration: v.iteration + 1, ..v },
            StepView::QueryModel,
        )
    } else {
        (
            RunView { messages: msgs, next_tool: n, iteration: v.iteration + 1, finished: true, ..v },
            StepView::Finished { outcome: Err(limit_message()) },
        )
    }
}

/// The view of a model reply or transport error.
pub open spec fn reply_view(reply: Result<ChatResponse, String>) -> Result<ResponseView, Seq<char>> {
    match reply {
        Ok(r) => Ok(r@),
        Err(e) => Err(e@),
    }
}

fn copy_history(history: Option<&Vec<ChatMessage>>, out: &mut Vec<ChatMessage>)
    ensures
        message_views(final(out)@) == message_views(old(out)@) + match history {
            Some(h) => message_views(h@),
            None => seq![],
        },
{
    match history {
        Some(h) => {
            let mut i: usize = 0;
            let ghost start = message_views(out@);
            while i < h.len()
                invariant
                    i <= h.len(),
                    message_views(out@) == start + message_views(h@).take(i as int),
                decreases h.len() - i,
            {
                let ghost before = out@;
                out.push(h[i].duplicate());
                proof {
                    assert(message_views(out@) =~= message_views(before).push(h@[i as int]@));
                    assert(message_views(h@).take(i + 1) =~= message_views(h@).take(i as int).push(
                        h@[i as int]@,
                    ));
                }
                i = i + 1;
            }
            assert(message_views(h@).take(h.len() as int) =~= message_views(h@));
        },
        None => {
            assert(message_views(out@) =~= message_views(out@) + seq![]);
        },
    }
}

/// The conversation only grows: each step keeps every earlier message, in
/// place, and adds at most one.
pub proof fn law_transcript_only_grows(
    v: RunView,
    reply: Result<ResponseView, Seq<char>>,
    output: Seq<char>,
)
    requires
        run_invariant(v),
    ensures
        awaiting_model(v) ==> after_reply(v, reply).0.messages.len() <= v.messages.len() + 1
            && after_reply(v, reply).0.messages.subrange(0, v.messages.len() as int) == v.messages,
        awaiting_tool(v) ==> after_tool(v, output).0.messages.len() == v.messages.len() + 1
            && after_tool(v, output).0.messages.subrange(0, v.messages.len() as int) == v.messages,
{
    assert(after_tool(v, output).0.messages.subrange(0, v.messages.len() as int) =~= v.messages);
    assert(after_reply(v, reply).0.messages.subrange(0, v.messages.len() as int) =~= v.messages);
}

/// The model is asked once per round and only while rounds are left: a
/// reply never leads straight to another question, and the question after
/// a round of tool calls comes with the round counter one higher and still
/// below the limit.  So a run asks the model at most `max_iterations` times.
pub proof fn law_one_query_per_round(v: RunView, reply: Result<ResponseView, Seq<char>>, output: Seq<char>)
    requires
        run_invariant(v),
    ensures
        awaiting_model(v) ==> !(after_reply(v, reply).1 is QueryModel) && after_reply(v, reply).0.iteration
            == v.iteration,
        awaiting_tool(v) && after_tool(v, output).1 is QueryModel ==> after_tool(v, output).0.iteration
            == v.iteration + 1 && after_tool(v, output).0.iteration < v.max_iterations,
        awaiting_tool(v) && !(after_tool(v, output).1 is QueryModel) ==> after_tool(v, output).0.iteration
            <= v.iteration + 1,
        start_step(v.max_iterations) is QueryModel ==> 0 < v.max_iterations,
{
}

/// Every tool call of a reply is run, in order, and answered by one tool
/// message that carries its id: the reply asks for the first call, each
/// output is recorded for the awaited call, and the next call asked for is
/// the one after it.
pub proof fn law_tool_calls_answered_in_order(
    v: RunView,
    reply: Result<ResponseView, Seq<char>>,
    output: Seq<char>,
)
    requires
        run_invariant(v),
    ensures
        awaiting_model(v) && after_reply(v, reply).1 is RunTool ==> {
            let (w, step) = after_reply(v, reply);
            &&& w.next_tool == 0
            &&& w.pending.len() > 0
            &&& step->RunTool_call == w.pending[0]
            &&& w.messages.last().tool_calls == Some(w.pending)
        },
        awaiting_tool(v) ==> {
            let (w, step) = after_tool(v, output);
            &&& w.messages.last() == tool_message(output, v.pending[v.next_tool as int])
            &&& w.messages.last().tool_call_id == Some(v.pending[v.next_tool as int].id)
            &&& w.next_tool == v.next_tool + 1
            &&& w.pending == v.pending
            &&& (w.next_tool < w.pending.len() <==> step is RunTool)
            &&& step is RunTool ==> step->RunTool_call == v.pending[w.next_tool as int]
        },
{
}

/// A reply without tool calls ends the run with its text (or a stand-in
/// when it has none); a reply with an error ends it with that error.
pub proof fn law_final_answer(v: RunView, resp: ResponseView)
    requires
        awaiting_model(v),
    ensures
        resp.error is None && first_choice(resp) is Some && !asks_for_tools(first_choice(resp)->0)
            ==> after_reply(v, Ok(resp)).1 == (StepView::Finished {
            outcome: Ok(final_text(first_choice(resp)->0)),
        }) && after_reply(v, Ok(resp)).0.finished,
        resp.error is Some ==> after_reply(v, Ok(resp)).1 == (StepView::Finished {
            outcome: Err("API error: "@ + resp.error->0),
        }),
{
}

/// The state and step agree: the run waits for what the step asks for.
pub open spec fn in_step(v: RunView, step: StepView) -> bool {
    &&& run_invariant(v)
    &&& match step {
        StepView::QueryModel => awaiting_model(v),
        StepView::RunTool { call } => awaiting_tool(v) && call == v.pending[v.next_tool as int],
        StepView::Finished { .. } => v.finished,
    }
}

/// A run driven from `(v, step)`: the model's replies are taken from
/// `replies` and the tools' outputs from `outputs`, in order, until the run
/// finishes or the input it waits for runs out.  Gives the last state and
/// step and how many times the model was asked.
pub open spec fn drive(
    v: RunView,
    step: StepView,
    replies: Seq<Result<ResponseView, Seq<char>>>,
    outputs: Seq<Seq<char>>,
) -> (RunView, StepView, nat)
    decreases replies.len() + outputs.len(),
{
    match step {
        StepView::QueryModel => if replies.len() == 0 {
            (v, step, 0)
        } else {
            let (w, s) = after_reply(v, replies[0]);
            let (x, t, n) = drive(w, s, replies.drop_first(), outputs);
            (x, t, n + 1)
        },
        StepView::RunTool { .. } => if outputs.len() == 0 {
            (v, step, 0)
        } else {
            let (w, s) = after_tool(v, outputs[0]);
            drive(w, s, replies, outputs.drop_first())
        },
        StepView::Finished { .. } => (v, step, 0),
    }
}

/// How many more times the model may still be asked from `(v, step)`.
pub open spec fn questions_left(v: RunView, step: StepView) -> int {
    match step {
        StepView::QueryModel => v.max_iterations - v.iteration,
        StepView::RunTool { .. } => v.max_iterations - v.iteration - 1,
        StepView::Finished { .. } => 0,
    }
}

proof fn lemma_steps_stay_in_step(v: RunView, step: StepView, reply: Result<ResponseView, Seq<char>>, output: Seq<char>)
    requires
        in_step(v, step),
    ensures
        step is QueryModel ==> in_step(after_reply(v, reply).0, after_reply(v, reply).1)
            && questions_left(after_reply(v, reply).0, after_reply(v, reply).1) + 1
            <= questions_left(v, step),
        step is RunTool ==> in_step(after_tool(v, output).0, after_tool(v, output).1)
            && questions_left(after_tool(v, output).0, after_tool(v, output).1)
            <= questions_left(v, step),
{
}

proof fn lemma_drive_bounded(
    v: RunView,
    step: StepView,
    replies: Seq<Result<ResponseView, Seq<char>>>,
    outputs: Seq<Seq<char>>,
)
    requires
        in_step(v, step),
    ensures
        drive(v, step, replies, outputs).2 <= questions_left(v, step),
        in_step(drive(v, step, replies, outputs).0, drive(v, step, replies, outputs).1),
    decreases replies.len() + outputs.len(),
{
    match step {
        StepView::QueryModel => if replies.len() > 0 {
            lemma_steps_stay_in_step(v, step, replies[0], ""@);
            let (w, s) = after_reply(v, replies[0]);
            lemma_drive_bounded(w, s, replies.drop_first(), outputs);
        },
        StepView::RunTool { .. } => if outputs.len() > 0 {
            lemma_steps_stay_in_step(v, step, Err(""@), outputs[0]);
            let (w, s) = after_tool(v, outputs[0]);
            lemma_drive_bounded(w, s, replies, outputs.drop_first());
        },
        StepView::Finished { .. } => {},
    }
}

/// Over a whole run the model is asked at most `max_iterations` times,
/// whatever it replies and whatever the tools print.
pub proof fn law_run_asks_at_most_the_limit(
    prompt: Seq<char>,
    history: Seq<MessageView>,
    query: Seq<char>,
    max_iterations: nat,
    replies: Seq<Result<ResponseView, Seq<char>>>,
    outputs: Seq<Seq<char>>,
)
    ensures
        drive(
            start_state(prompt, history, query, max_iterations),
            start_step(max_iterations),
            replies,
            outputs,
        ).2 <= max_iterations,
{
    lemma_drive_bounded(
        start_state(prompt, history, query, max_iterations),
        start_step(max_iterations),
        replies,
        outputs,
    );
}

/// A reply that asks for tools, without an error.
pub open spec fn tool_reply(reply: Result<ResponseView, Seq<char>>) -> bool {
    &&& reply is Ok
    &&& reply->Ok_0.error is None
    &&& first_choice(reply->Ok_0) is Some
    &&& asks_for_tools(first_choice(reply->Ok_0)->0)
}

/// A run in which the model keeps asking for tools can only end with the
/// round-limit error.
pub proof fn law_endless_tool_calls_hit_the_limit(
    prompt: Seq<char>,
    history: Seq<MessageView>,
    query: Seq<char>,
    max_iterations: nat,
    replies: Seq<Result<ResponseView, Seq<char>>>,
    outputs: Seq<Seq<char>>,
)
    requires
        forall|i: int| 0 <= i < replies.len() ==> tool_reply(#[trigger] replies[i]),
    ensures
        drive(
            start_state(prompt, history, query, max_iterations),
            start_step(max_iterations),
            replies,
            outputs,
        ).1 is Finished ==> drive(
            start_state(prompt, history, query, max_iterations),
            start_step(max_iterations),
            replies,
            outputs,
        ).1 == (StepView::Finished { outcome: Err(limit_message()) }),
{
    lemma_tool_replies_end_at_limit(
        start_state(prompt, history, query, max_iterations),
        start_step(max_iterations),
        replies,
        outputs,
    );
}

proof fn lemma_tool_replies_end_at_limit(
    v: RunView,
    step: StepView,
    replies: Seq<Result<ResponseView, Seq<char>>>,
    outputs: Seq<Seq<char>>,
)
    requires
        forall|i: int| 0 <= i < replies.len() ==> tool_reply(#[trigger] replies[i]),
        step is Finished ==> step == (StepView::Finished { outcome: Err(limit_message()) }),
    ensures
        drive(v, step, replies, outputs).1 is Finished ==> drive(v, step, replies, outputs).1
            == (StepView::Finished { outcome: Err(limit_message()) }),
    decreases replies.len() + outputs.len(),
{
    match step {
        StepView::QueryModel => if replies.len() > 0 {
            assert(tool_reply(replies[0]));
            let (w, s) = after_reply(v, replies[0]);
            let rest = replies.drop_first();
            assert forall|i: int| 0 <= i < rest.len() implies tool_reply(#[trigger] rest[i]) by {
                assert(rest[i] == replies[i + 1]);
            }
            lemma_tool_replies_end_at_limit(w, s, rest, outputs);
        },
        StepView::RunTool { .. } => if outputs.len() > 0 {
            let (w, s) = after_tool(v, outputs[0]);
            lemma_tool_replies_end_at_limit(w, s, replies, outputs.drop_first());
        },
        StepView::Finished { .. } => {},
    }
}

impl AgentRun {
    /// Starts a run: the system prompt, the earlier conversation and the
    /// query; the run may take up to `max_iterations` rounds of tool calls.
    pub fn start(
        prompt: String,
        history: Option<&Vec<ChatMessage>>,
        query: &str,
        max_iterations: usize,
    ) -> (r: (AgentRun, AgentStep))
        ensures
            r.0@ == start_state(
                prompt@,
                match history {
                    Some(h) => message_views(h@),
                    None => seq![],
                },
                query@,
                max_iterations as nat,
            ),
            r.1@ == start_step(max_iterations as nat),
            run_invariant(r.0@),
    {
        let mut messages: Vec<ChatMessage> = Vec::new();
        let ghost p = prompt@;
        messages.push(ChatMessage::text("system", prompt));
        copy_history(history, &mut messages);
        let ghost before = messages@;
        messages.push(ChatMessage::text("user", query.to_owned()));
        let run = AgentRun {
            messages,
            iteration: 0,
            max_iterations,
            pending: Vec::new(),
            next_tool: 0,
            finished: max_iterations == 0,
        };
        proof {
            let hv = match history {
                Some(h) => message_views(h@),
                None => seq![],
            };
            assert(message_views(before) =~= seq![text_message("system"@, p)] + hv);
            assert(run@.messages =~= opening_messages(p, hv, query@));
            assert(run@.pending =~= seq![]);
        }
        let step = if max_iterations == 0 {
            AgentStep::Finished { outcome: Err("Agent reached maximum iterations without a final response.".to_owned()) }
        } else {
            AgentStep::QueryModel
        };
        (run, step)
    }

    /// The conversation to send to the model.
    pub fn messages(&self) -> (r: &Vec<ChatMessage>)
        ensures
            message_views(r@) == self@.messages,
    {
        &self.messages
    }

    /// Completed rounds of tool calls.
    pub fn iteration(&self) -> (r: usize)
        ensures
            r == self@.iteration,
    {
        self.iteration
    }

    /// The round limit.
    pub fn max_iterations(&self) -> (r: usize)
        ensures
            r == self@.max_iterations,
    {
        self.max_iterations
    }

    /// Whether the run is over.
    pub fn is_finished(&self) -> (r: bool)
        ensures
            r == self@.finished,
    {
        self.finished
    }

    /// Whether the run waits for a model reply.
    pub fn is_awaiting_model(&self) -> (r: bool)
        ensures
            r == awaiting_model(self@),
    {
        !self.finished && self.next_tool >= self.pending.len()
    }

    /// Whether the run waits for a tool's output.
    pub fn is_awaiting_tool(&self) -> (r: bool)
        ensures
            r == awaiting_tool(self@),
    {
        !self.finished && self.next_tool < self.pending.len()
    }

    fn finish_with(&mut self, outcome: Result<String, String>) -> (step: AgentStep)
        ensures
            final(self)@ == finish(old(self)@),
            step@ == (StepView::Finished {
                outcome: match outcome {
                    Ok(t) => Ok(t@),
                    Err(e) => Err(e@),
                },
            }),
    {
        self.finished = true;
        AgentStep::Finished { outcome }
    }

    /// Takes the model's reply, or the error that the request ended in.
    pub fn on_model_reply(&mut self, reply: Result<ChatResponse, String>) -> (step: AgentStep)
        requires
            awaiting_model(old(self)@),
            run_invariant(old(self)@),
        ensures
            (final(self)@, step@) == after_reply(old(self)@, reply_view(reply)),
            run_invariant(final(self)@),
    {
        let ghost rv = reply_view(reply);
        let resp = match reply {
            Err(e) => {
                return self.finish_with(Err(e));
            },
            Ok(r) => r,
        };
        if let Some(err) = &resp.error {
            let mut msg = "API error: ".to_owned();
            msg.append(err.message.as_str());
            return self.finish_with(Err(msg));
        }
        let choice = match &resp.choices {
            Some(cs) => {
                if cs.len() == 0 {
                    return self.finish_with(Err("No choices in API response".to_owned()));
                }
                &cs[0]
            },
            None => {
                return self.finish_with(Err("No choices in API response".to_owned()));
            },
        };
        assert(first_choice(resp@) == Some(choice@));
        if let Some(calls) = &choice.message.tool_calls {
            if calls.len() > 0 {
                let ghost c = choice@;
                let message = ChatMessage {
                    role: "assistant".to_owned(),
                    content: copy_opt_string(&choice.message.content),
                    tool_calls: Some(copy_calls(calls)),
                    tool_call_id: None,
                };
                assert(message@ == assistant_message(c));
                let ghost before = self.messages@;
                self.messages.push(message);
                self.pending = copy_calls(calls);
                self.next_tool = 0;
                assert(call_views(self.pending@).len() == self.pending@.len());
                assert(call_views(calls@).len() == calls@.len());
                assert(message_views(self.messages@) =~= message_views(before).push(
                    assistant_message(c),
                ));
                let first = self.pending[0].duplicate();
                assert(call_views(self.pending@)[0] == first@);
                return AgentStep::RunTool { call: first };
            }
        }
        let text = match &choice.message.content {
            Some(t) => t.clone(),
            None => "(no response)".to_owned(),
        };
        self.finish_with(Ok(text))
    }

    /// Takes the output of the awaited tool call.
    pub fn on_tool_output(&mut self, output: String) -> (step: AgentStep)
        requires
            awaiting_tool(old(self)@),
            run_invariant(old(self)@),
        ensures
            (final(self)@, step@) == after_tool(old(self)@, output@),
            run_invariant(final(self)@),
    {
        let ghost v = self@;
        assert(call_views(self.pending@).len() == self.pending@.len());
        let call = &self.pending[self.next_tool];
        let message = ChatMessage {
            role: "tool".to_owned(),
            content: Some(output),
            tool_calls: None,
            tool_call_id: Some(call.id.clone()),
        };
        assert(call_views(self.pending@)[self.next_tool as int] == call@);
        let ghost before = self.messages@;
        self.messages.push(message);
        assert(message_views(self.messages@) =~= message_views(before).push(
            tool_message(output@, v.pending[v.next_tool as int]),
        ));
        assert(self.next_tool < self.pending.len());
        self.next_tool = self.next_tool + 1;
        if self.next_tool < self.pending.len() {
            let next = self.pending[self.next_tool].duplicate();
            assert(call_views(self.pending@)[self.next_tool as int] == next@);
            return AgentStep::RunTool { call: next };
        }
        self.iteration = self.iteration + 1;
        if self.iteration < self.max_iterations {
            AgentStep::QueryModel
        } else {
            self.finished = true;
            AgentStep::Finished { outcome: Err("Agent reached maximum iterations without a final response.".to_owned()) }
        }
    }
}

} // verus!
