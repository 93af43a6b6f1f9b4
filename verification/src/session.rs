//! The agent loop as a state machine.
//!
//! The loop alternates talking to a model and carrying out the actions of its
//! replies.  Talking and carrying out happen outside this library; `AgentLoop`
//! decides, from each reply or set of results, what happens next (`Effect`)
//! and keeps the memory up to date.  Three styles exist:
//! * `Llmapi` and `Gemini`: chat services; every reply after the first is
//!   recorded in the history before it is parsed;
//! * `Ollama`: a chat service that is asked again, at most three times in a
//!   row, when a reply holds no action;
//! * `Local`: a model run in-process, given one composed prompt per turn.
use vstd::prelude::*;
use vstd::string::StringExecFns;
use crate::actions::{
    actions_model, parse_actions, parsed_actions, results_model, Action, ActionResult,
    ActionResultModel,
};
use crate::agent::{
    compose_iteration_prompt, history_report, history_transcript, iteration_prompt, results_report,
    results_transcript,
};
use crate::errors::Error;
use crate::memory::{bounded_append, history_model, HistoryEntry, HistoryModel, Memory};

verus! {

/// How many replies in a row may hold no action before the loop gives up.
pub const MAX_EMPTY_REPLIES: usize = 3;

/// The first message of the loop to a chat service.
pub const START_MESSAGE: &'static str = "MAKEREADME AGENTIC LOOP IS STARTED, START TALKING";

/// The first message of the loop to Gemini.
pub const GEMINI_START_MESSAGE: &'static str = "READMEMAKER AGENTIC LOOP IS STARTED, START TALKING";

/// The assistant's acknowledgement of the instructions.
pub const ACKNOWLEDGEMENT: &'static str = "Understood. I will follow the instructions above.";

/// What Ollama is told after a reply without actions.
pub const OLLAMA_FORMAT_REMINDER: &'static str = "FORMAT VIOLATION: Your previous response did not include valid action tags. Reply ONLY with these tags: <THINK>...</THINK>, <READ>...</READ>, <WRITE>...</WRITE>, <EXIT>. Start with <THINK> and include at least one non-THINK action.";

/// What a local model is told after a reply without actions.
pub const LOCAL_FORMAT_REMINDER: &'static str = "FORMAT VIOLATION: Reply ONLY with <THINK>...</THINK>, <READ>...</READ>, <WRITE>...</WRITE>, <EXIT>. Start with <THINK> and include at least one non-THINK action.";

/// The detail of the error when replies keep holding no action.
pub const GIVE_UP_DETAIL: &'static str = "Model did not return any valid action tags after 3 retries.";

/// How many tokens a local model may produce for a turn, and for a repeated turn.
pub const TURN_TOKENS: usize = 2048;

pub const RETRY_TOKENS: usize = 1024;

/// Which kind of model the loop talks to.
#[derive(Debug, Clone, Copy, PartialEq, Eq, Structural)]
pub enum Style {
    Llmapi,
    Gemini,
    Ollama,
    Local,
}

/// A message to a chat service: who speaks (`system`, `assistant` or `user`) and what.
#[derive(Debug, Clone, PartialEq, Eq)]
pub struct ChatMessage {
    pub role: String,
    pub content: String,
}

impl View for ChatMessage {
    type V = HistoryModel;

    open spec fn view(&self) -> HistoryModel {
        HistoryModel { content: self.content@, role: self.role@ }
    }
}

/// The models of a sequence of chat messages.
pub open spec fn messages_model(v: Seq<ChatMessage>) -> Seq<HistoryModel> {
    v.map_values(|m: ChatMessage| m@)
}

/// What the loop waits for.
#[derive(Debug, Clone, Copy, PartialEq, Eq, Structural)]
pub enum Phase {
    /// A reply that is parsed as it is.
    Reply,
    /// A reply to a follow-up request: recorded, then parsed.
    FollowUpReply,
    /// A local model's repeated turn: recorded, then a new turn starts.
    RetryReply,
    /// The results of the actions of the last reply.
    Results,
    /// Nothing: the loop has ended.
    Ended,
}

/// What the caller does next.
#[derive(Debug)]
pub enum Effect {
    /// Send these messages to the chat service and hand the reply to `on_reply`.
    Send(Vec<ChatMessage>),
    /// Run the local model on this prompt, for at most this many tokens, and
    /// hand its text to `on_reply`.
    Generate(String, usize),
    /// Carry out these actions and hand the results to `on_results`.
    Execute(Vec<Action>),
    /// The model asked to exit: the loop has ended successfully.
    Finish,
    /// The loop has ended with this error.
    Fail(Error),
}

/// The state of the agent loop.
pub struct AgentLoop {
    pub memory: Memory,
    pub style: Style,
    pub phase: Phase,
    /// Replies in a row that held no action.
    pub retries: usize,
    /// The local model's last reply, recorded once its actions are done.
    pub pending: String,
}

/// `m` is a message from `role` saying `content`.
pub open spec fn says(m: HistoryModel, role: Seq<char>, content: Seq<char>) -> bool {
    m.role == role && m.content == content
}

/// `h` with the entries `entries` appended in order, each within `limit`.
pub open spec fn append_all<T>(h: Seq<T>, limit: nat, entries: Seq<T>) -> Seq<T>
    decreases entries.len(),
{
    if entries.len() == 0 {
        h
    } else {
        bounded_append(append_all(h, limit, entries.drop_last()), limit, entries.last())
    }
}

/// A history entry by `role` saying `content`.
pub open spec fn entry(role: Seq<char>, content: Seq<char>) -> HistoryModel {
    HistoryModel { content, role }
}

/// The entries a chat loop of `style` opens the history with.
pub open spec fn opening_entries(style: Style, prompt: Seq<char>, tree: Seq<char>) -> Seq<HistoryModel> {
    match style {
        Style::Llmapi => seq![
            entry("User"@, prompt),
            entry("Model"@, ACKNOWLEDGEMENT@),
            entry("User"@, START_MESSAGE@),
            entry("User"@, tree_context(tree)),
        ],
        Style::Gemini => seq![
            entry("User"@, prompt),
            entry("Model"@, ACKNOWLEDGEMENT@),
            entry("User"@, GEMINI_START_MESSAGE@),
            entry("User"@, tree_context(tree)),
        ],
        Style::Ollama => seq![
            entry("System"@, prompt),
            entry("System"@, tree_context(tree)),
            entry("System"@, START_MESSAGE@),
        ],
        Style::Local => seq![entry("System"@, prompt), entry("System"@, tree_context(tree))],
    }
}

/// The messages a chat loop of `style` opens the conversation with.
pub open spec fn opening_messages(style: Style, prompt: Seq<char>, tree: Seq<char>) -> Seq<HistoryModel> {
    match style {
        Style::Llmapi => seq![
            entry("system"@, prompt),
            entry("assistant"@, ACKNOWLEDGEMENT@),
            entry("user"@, START_MESSAGE@),
            entry("user"@, tree_context(tree)),
        ],
        Style::Gemini => seq![
            entry("user"@, prompt),
            entry("assistant"@, ACKNOWLEDGEMENT@),
            entry("user"@, GEMINI_START_MESSAGE@),
            entry("user"@, tree_context(tree)),
        ],
        _ => seq![
            entry("system"@, prompt),
            entry("system"@, tree_context(tree)),
            entry("user"@, START_MESSAGE@),
        ],
    }
}

/// The text that introduces the project's directory listing.
pub open spec fn tree_context(tree: Seq<char>) -> Seq<char> {
    "PROJECT DIRECTORY TREE:\n"@ + tree
}

/// The messages that follow up on executed actions, for memory `history` and `results`.
pub open spec fn follow_up_messages(history: Seq<HistoryModel>, results: Seq<ActionResultModel>) -> Seq<HistoryModel> {
    seq![entry("user"@, results_report(results)), entry("user"@, history_report(history))]
}

/// The messages that ask Ollama again, for memory `history`.
pub open spec fn reminder_messages(history: Seq<HistoryModel>) -> Seq<HistoryModel> {
    seq![entry("user"@, history_report(history)), entry("user"@, OLLAMA_FORMAT_REMINDER@)]
}

/// Some action in `results` is an EXIT.
pub open spec fn exit_in(results: Seq<ActionResultModel>) -> bool {
    exists|i: int| 0 <= i < results.len() && results[i].action is Exit
}

/// The memory's limits allow its bounded appends.
pub open spec fn limits_ok(m: Memory) -> bool {
    m.opt_profile.history_limit >= 3 && m.opt_profile.result_history_limit >= 3
}

/// Builds a chat message.
fn message(role: &str, content: &str) -> (m: ChatMessage)
    ensures
        m@ == entry(role@, content@),
{
    ChatMessage { role: role.to_owned(), content: content.to_owned() }
}

/// Builds a history entry.
fn history_entry(role: &str, content: &str) -> (h: HistoryEntry)
    ensures
        h@ == entry(role@, content@),
{
    HistoryEntry { role: role.to_owned(), content: content.to_owned() }
}

/// Whether some result in `results` is of an EXIT action.
pub fn exit_requested(results: &Vec<ActionResult>) -> (b: bool)
    ensures
        b == exit_in(results_model(results@)),
{
    let n = results.len();
    for i in 0..n
        invariant
            n == results@.len(),
            forall|j: int| 0 <= j < i ==> !(results_model(results@)[j].action is Exit),
    {
        if let Action::Exit = &results[i].action {
            assert(results_model(results@)[i as int].action is Exit);
            return true;
        }
    }
    false
}

/// Appends every result of `results` to the memory, in order.
pub fn record_results(memory: &mut Memory, results: Vec<ActionResult>)
    requires
        old(memory).opt_profile.result_history_limit >= 3,
    ensures
        results_model(final(memory).execute_result@) == append_all(
            results_model(old(memory).execute_result@),
            old(memory).opt_profile.result_history_limit as nat,
            results_model(results@),
        ),
        final(memory).history == old(memory).history,
        final(memory).opt_profile == old(memory).opt_profile,
        final(memory).agentic_notes == old(memory).agentic_notes,
{
    let ghost start = results_model(memory.execute_result@);
    let ghost all = results_model(results@);
    let ghost limit = memory.opt_profile.result_history_limit as nat;
    let ghost h0 = memory.history;
    let ghost p0 = memory.opt_profile;
    let ghost n0 = memory.agentic_notes;
    let n = results.len();
    assert(all.take(0) =~= Seq::<ActionResultModel>::empty());
    for i in 0..n
        invariant
            n == results@.len(),
            all == results_model(results@),
            limit == memory.opt_profile.result_history_limit as nat,
            memory.opt_profile.result_history_limit >= 3,
            memory.history == h0,
            memory.opt_profile == p0,
            memory.agentic_notes == n0,
            results_model(memory.execute_result@) == append_all(start, limit, all.take(i as int)),
    {
        let r = crate::actions::copy_result(&results[i]);
        memory.append_to_result(r);
        assert(all.take(i + 1).drop_last() =~= all.take(i as int));
        assert(all.take(i + 1).last() == results@[i as int]@);
    }
    assert(all.take(n as int) =~= all);
}

/// Adds what the model said to the history.
fn record_reply(memory: &mut Memory, text: &str)
    requires
        old(memory).opt_profile.history_limit >= 3,
    ensures
        history_model(final(memory).history@) == bounded_append(
            history_model(old(memory).history@),
            old(memory).opt_profile.history_limit as nat,
            entry("Model"@, text@),
        ),
        final(memory).execute_result == old(memory).execute_result,
        final(memory).opt_profile == old(memory).opt_profile,
        final(memory).agentic_notes == old(memory).agentic_notes,
{
    memory.append_to_history(history_entry("Model", text));
}

/// The text that introduces the project's directory listing.
pub fn make_tree_context(tree: &str) -> (s: String)
    ensures
        s@ == tree_context(tree@),
{
    let mut s = "PROJECT DIRECTORY TREE:\n".to_owned();
    s.append(tree);
    s
}

/// The messages that follow up on executed actions.
fn follow_up(memory: &Memory) -> (ms: Vec<ChatMessage>)
    ensures
        messages_model(ms@) == follow_up_messages(
            history_model(memory.history@),
            results_model(memory.execute_result@),
        ),
{
    let results = results_transcript(&memory.execute_result);
    let history = history_transcript(&memory.history);
    let mut ms: Vec<ChatMessage> = Vec::new();
    ms.push(message("user", results.as_str()));
    ms.push(message("user", history.as_str()));
    assert(messages_model(ms@) =~= follow_up_messages(
        history_model(memory.history@),
        results_model(memory.execute_result@),
    ));
    ms
}

/// The messages that ask Ollama again.
fn reminder(memory: &Memory) -> (ms: Vec<ChatMessage>)
    ensures
        messages_model(ms@) == reminder_messages(history_model(memory.history@)),
{
    let history = history_transcript(&memory.history);
    let mut ms: Vec<ChatMessage> = Vec::new();
    ms.push(message("user", history.as_str()));
    ms.push(message("user", OLLAMA_FORMAT_REMINDER));
    assert(messages_model(ms@) =~= reminder_messages(history_model(memory.history@)));
    ms
}

/// The prompt of a local model's next turn, with no extra instruction.
pub open spec fn turn_prompt(m: Memory) -> Seq<char> {
    iteration_prompt(history_model(m.history@), results_model(m.execute_result@), None)
}

/// The prompt of a local model's repeated turn.
pub open spec fn retry_prompt(m: Memory) -> Seq<char> {
    iteration_prompt(
        history_model(m.history@),
        results_model(m.execute_result@),
        Some(LOCAL_FORMAT_REMINDER@),
    )
}

/// The loop gives up on this reply: it held no action, the style asks again,
/// and this is the third such reply in a row.
pub open spec fn gives_up(style: Style, retries: nat, text: Seq<char>) -> bool {
    &&& parsed_actions(text).len() == 0
    &&& (style is Ollama || style is Local)
    &&& retries + 1 >= MAX_EMPTY_REPLIES
}

/// The loop asks again after this reply.
pub open spec fn asks_again(style: Style, retries: nat, text: Seq<char>) -> bool {
    &&& parsed_actions(text).len() == 0
    &&& (style is Ollama || style is Local)
    &&& retries + 1 < MAX_EMPTY_REPLIES
}

impl AgentLoop {
    /// Starts a loop of `style` on `memory`: records the opening entries and
    /// says how to address the model first.
    pub fn start(style: Style, memory: Memory, system_prompt: &str, tree: &str) -> (r: (AgentLoop, Effect))
        requires
            limits_ok(memory),
        ensures
            r.0.style == style,
            r.0.phase == Phase::Reply,
            r.0.retries == 0,
            r.0.memory.opt_profile == memory.opt_profile,
            r.0.memory.execute_result == memory.execute_result,
            r.0.memory.agentic_notes == memory.agentic_notes,
            history_model(r.0.memory.history@) == append_all(
                history_model(memory.history@),
                memory.opt_profile.history_limit as nat,
                opening_entries(style, system_prompt@, tree@),
            ),
            style is Local ==> (r.1 matches Effect::Generate(p, n) && p@ == turn_prompt(r.0.memory)
                && n == TURN_TOKENS),
            !(style is Local) ==> (r.1 matches Effect::Send(ms) && messages_model(ms@)
                == opening_messages(style, system_prompt@, tree@)),
    {
        let context = make_tree_context(tree);
        let mut entries: Vec<HistoryEntry> = Vec::new();
        let mut messages: Vec<ChatMessage> = Vec::new();
        match style {
            Style::Llmapi => {
                entries.push(history_entry("User", system_prompt));
                entries.push(history_entry("Model", ACKNOWLEDGEMENT));
                entries.push(history_entry("User", START_MESSAGE));
                entries.push(history_entry("User", context.as_str()));
                messages.push(message("system", system_prompt));
                messages.push(message("assistant", ACKNOWLEDGEMENT));
                messages.push(message("user", START_MESSAGE));
                messages.push(message("user", context.as_str()));
            },
            Style::Gemini => {
                entries.push(history_entry("User", system_prompt));
                entries.push(history_entry("Model", ACKNOWLEDGEMENT));
                entries.push(history_entry("User", GEMINI_START_MESSAGE));
                entries.push(history_entry("User", context.as_str()));
                messages.push(message("user", system_prompt));
                messages.push(message("assistant", ACKNOWLEDGEMENT));
                messages.push(message("user", GEMINI_START_MESSAGE));
                messages.push(message("user", context.as_str()));
            },
            Style::Ollama => {
                entries.push(history_entry("System", system_prompt));
                entries.push(history_entry("System", context.as_str()));
                entries.push(history_entry("System", START_MESSAGE));
                messages.push(message("system", system_prompt));
                messages.push(message("system", context.as_str()));
                messages.push(message("user", START_MESSAGE));
            },
            Style::Local => {
                entries.push(history_entry("System", system_prompt));
                entries.push(history_entry("System", context.as_str()));
            },
        }
        let ghost opening = opening_entries(style, system_prompt@, tree@);
        assert(history_model(entries@) =~= opening);
        let mut memory = memory;
        let ghost h0 = history_model(memory.history@);
        let ghost limit = memory.opt_profile.history_limit as nat;
        let ghost r0 = memory.execute_result;
        let ghost p0 = memory.opt_profile;
        let ghost notes0 = memory.agentic_notes;
        let n = entries.len();
        assert(opening.take(0) =~= Seq::<HistoryModel>::empty());
        for i in 0..n
            invariant
                n == entries@.len(),
                opening == history_model(entries@),
                limit == memory.opt_profile.history_limit as nat,
                memory.opt_profile == p0,
                memory.execute_result == r0,
                memory.agentic_notes == notes0,
                limits_ok(memory),
                history_model(memory.history@) == append_all(h0, limit, opening.take(i as int)),
        {
            let e = HistoryEntry { content: entries[i].content.clone(), role: entries[i].role.clone() };
            memory.append_to_history(e);
            assert(opening.take(i + 1).drop_last() =~= opening.take(i as int));
            assert(opening.take(i + 1).last() == entries@[i as int]@);
        }
        assert(opening.take(n as int) =~= opening);
        let effect = match style {
            Style::Local => {
                let p = compose_iteration_prompt(&memory, None);
                Effect::Generate(p, TURN_TOKENS)
            },
            _ => {
                assert(messages_model(messages@) =~= opening_messages(style, system_prompt@, tree@));
                Effect::Send(messages)
            },
        };
        (AgentLoop { memory, style, phase: Phase::Reply, retries: 0, pending: String::new() }, effect)
    }

    /// Handles a reply of the model.
    pub fn on_reply(&mut self, text: String) -> (e: Effect)
        requires
            old(self).phase is Reply || old(self).phase is FollowUpReply || old(self).phase is RetryReply,
            limits_ok(old(self).memory),
        ensures
            final(self).style == old(self).style,
            final(self).memory.opt_profile == old(self).memory.opt_profile,
            final(self).memory.execute_result == old(self).memory.execute_result,
            final(self).memory.agentic_notes == old(self).memory.agentic_notes,
            old(self).retries < MAX_EMPTY_REPLIES ==> final(self).retries < MAX_EMPTY_REPLIES,
            old(self).phase is RetryReply ==> {
                &&& history_model(final(self).memory.history@) == bounded_append(
                    history_model(old(self).memory.history@),
                    old(self).memory.opt_profile.history_limit as nat,
                    entry("Model"@, text@),
                )
                &&& final(self).phase == Phase::Reply
                &&& final(self).retries == old(self).retries
                &&& e matches Effect::Generate(p, n) && p@ == turn_prompt(final(self).memory) && n
                    == TURN_TOKENS
            },
            !(old(self).phase is RetryReply) ==> {
                let limit = old(self).memory.opt_profile.history_limit as nat;
                let h1 = if old(self).phase is FollowUpReply {
                    bounded_append(
                        history_model(old(self).memory.history@),
                        limit,
                        entry("Model"@, text@),
                    )
                } else {
                    history_model(old(self).memory.history@)
                };
                &&& gives_up(old(self).style, old(self).retries as nat, text@) ==> {
                    &&& final(self).phase == Phase::Ended
                    &&& history_model(final(self).memory.history@) == h1
                    &&& e matches Effect::Fail(Error::LocalModelInferenceError(d)) && d@
                        == GIVE_UP_DETAIL@
                }
                &&& asks_again(old(self).style, old(self).retries as nat, text@) ==> {
                    &&& final(self).retries == old(self).retries + 1
                    &&& history_model(final(self).memory.history@) == bounded_append(
                        h1,
                        limit,
                        entry("Model"@, text@),
                    )
                    &&& old(self).style is Ollama ==> (final(self).phase == Phase::Reply && (e matches Effect::Send(ms)
                        && messages_model(ms@) == reminder_messages(history_model(final(self).memory.history@))))
                    &&& old(self).style is Local ==> (final(self).phase == Phase::RetryReply && (e matches Effect::Generate(p, n)
                        && p@ == retry_prompt(final(self).memory) && n == RETRY_TOKENS))
                }
                &&& !gives_up(old(self).style, old(self).retries as nat, text@) && !asks_again(
                    old(self).style,
                    old(self).retries as nat,
                    text@,
                ) ==> {
                    &&& final(self).phase == Phase::Results
                    &&& history_model(final(self).memory.history@) == h1
                    &&& e matches Effect::Execute(acts) && actions_model(acts@) == parsed_actions(text@)
                    &&& (old(self).style is Ollama || old(self).style is Local) ==> final(self).retries == 0
                    &&& (old(self).style is Llmapi || old(self).style is Gemini) ==> final(self).retries
                        == old(self).retries
                    &&& old(self).style is Local ==> final(self).pending@ == text@
                }
            },
    {
        if let Phase::RetryReply = self.phase {
            record_reply(&mut self.memory, text.as_str());
            self.phase = Phase::Reply;
            let p = compose_iteration_prompt(&self.memory, None);
            return Effect::Generate(p, TURN_TOKENS);
        }
        if let Phase::FollowUpReply = self.phase {
            record_reply(&mut self.memory, text.as_str());
        }
        let actions = parse_actions(text.as_str());
        let retrying = match self.style {
            Style::Ollama => true,
            Style::Local => true,
            _ => false,
        };
        if actions.len() == 0 && retrying {
            if self.retries >= MAX_EMPTY_REPLIES - 1 {
                self.phase = Phase::Ended;
                return Effect::Fail(Error::LocalModelInferenceError(GIVE_UP_DETAIL.to_owned()));
            }
            self.retries = self.retries + 1;
            record_reply(&mut self.memory, text.as_str());
            match self.style {
                Style::Local => {
                    self.phase = Phase::RetryReply;
                    let p = compose_iteration_prompt(&self.memory, Some(LOCAL_FORMAT_REMINDER));
                    Effect::Generate(p, RETRY_TOKENS)
                },
                _ => {
                    self.phase = Phase::Reply;
                    Effect::Send(reminder(&self.memory))
                },
            }
        } else {
            if retrying {
                self.retries = 0;
            }
            if let Style::Local = self.style {
                self.pending = text;
            }
            self.phase = Phase::Results;
            Effect::Execute(actions)
        }
    }

    /// Handles the results of the actions of the last reply.
    pub fn on_results(&mut self, results: Vec<ActionResult>) -> (e: Effect)
        requires
            old(self).phase is Results,
            limits_ok(old(self).memory),
        ensures
            final(self).style == old(self).style,
            final(self).retries == old(self).retries,
            final(self).memory.opt_profile == old(self).memory.opt_profile,
            final(self).memory.agentic_notes == old(self).memory.agentic_notes,
            old(self).style is Local ==> {
                &&& history_model(final(self).memory.history@) == bounded_append(
                    history_model(old(self).memory.history@),
                    old(self).memory.opt_profile.history_limit as nat,
                    entry("Model"@, old(self).pending@),
                )
                &&& results_model(final(self).memory.execute_result@) == append_all(
                    results_model(old(self).memory.execute_result@),
                    old(self).memory.opt_profile.result_history_limit as nat,
                    results_model(results@),
                )
                &&& exit_in(results_model(results@)) ==> final(self).phase == Phase::Ended && e is Finish
                &&& !exit_in(results_model(results@)) ==> (final(self).phase == Phase::Reply && (e matches Effect::Generate(p, n)
                    && p@ == turn_prompt(final(self).memory) && n == TURN_TOKENS))
            },
            !(old(self).style is Local) ==> {
                &&& exit_in(results_model(results@)) ==> {
                    &&& final(self).phase == Phase::Ended
                    &&& e is Finish
                    &&& final(self).memory.history == old(self).memory.history
                    &&& final(self).memory.execute_result == old(self).memory.execute_result
                }
                &&& !exit_in(results_model(results@)) ==> {
                    &&& final(self).phase == Phase::FollowUpReply
                    &&& final(self).memory.history == old(self).memory.history
                    &&& results_model(final(self).memory.execute_result@) == append_all(
                        results_model(old(self).memory.execute_result@),
                        old(self).memory.opt_profile.result_history_limit as nat,
                        results_model(results@),
                    )
                    &&& e matches Effect::Send(ms) && messages_model(ms@) == follow_up_messages(
                        history_model(final(self).memory.history@),
                        results_model(final(self).memory.execute_result@),
                    )
                }
            },
    {
        let exit = exit_requested(&results);
        if let Style::Local = self.style {
            let pending = self.pending.clone();
            record_reply(&mut self.memory, pending.as_str());
            record_results(&mut self.memory, results);
            if exit {
                self.phase = Phase::Ended;
                Effect::Finish
            } else {
                self.phase = Phase::Reply;
                let p = compose_iteration_prompt(&self.memory, None);
                Effect::Generate(p, TURN_TOKENS)
            }
        } else {
            if exit {
                self.phase = Phase::Ended;
                Effect::Finish
            } else {
                record_results(&mut self.memory, results);
                self.phase = Phase::FollowUpReply;
                Effect::Send(follow_up(&self.memory))
            }
        }
    }
}

} // verus!
