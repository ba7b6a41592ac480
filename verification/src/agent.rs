//! One turn of an agent: the conversation with the model, the tools that it
//! asks for, the permissions that they need, and the compaction of a history
//! that has grown too long. The turn decides; whoever runs it talks to the
//! model, to the approver and to the tools, and reports back.

use crate::audit::{opt_text, AuditLog, AuditModel};
use crate::chat::{
    calls_model, chat_model, copy_calls, copy_messages, messages_text, messages_to_text, says, CallModel, ChatMessage,
    ChatModel, ToolCall,
};
use crate::clock::is_id;
use crate::gateway::{ModelOutput, TokenUsage};
use crate::json::{json_text, Json, JsonModel};
use crate::permissions::{level_of, Decision, Level, PermissionRequest, Policy};
use crate::skill::Skill;
use crate::text::{
    begins_with, chars_of, copy_str, decimal, decimal_text, has_text, join, joined, joined_holds, occurs_at, same_text,
    starts_with, texts,
};
use vstd::prelude::*;

verus! {

/// The limits of an agent.
#[derive(Debug, Clone, Copy, PartialEq, Eq, Structural)]
pub struct AgentConfig {
    /// How often the model is asked in one turn.
    pub max_turns: usize,
    /// How many messages the model is given.
    pub context_limit: usize,
    pub subagent_depth: usize,
    /// The estimate of tokens above which the history is compacted.
    pub token_budget: usize,
    /// How many messages a compaction keeps.
    pub keep_recent: usize,
    pub compaction_enabled: bool,
}

impl Default for AgentConfig {
    fn default() -> (r: AgentConfig)
        ensures
            r == (AgentConfig {
                max_turns: 25,
                context_limit: 200,
                subagent_depth: 0,
                token_budget: 60_000,
                keep_recent: 20,
                compaction_enabled: true,
            }),
    {
        AgentConfig {
            max_turns: 25,
            context_limit: 200,
            subagent_depth: 0,
            token_budget: 60_000,
            keep_recent: 20,
            compaction_enabled: true,
        }
    }
}

/// Why a turn broke off.
pub enum AgentError {
    Aborted,
    /// The model could not be reached.
    Gateway(String),
    /// The session could not be used.
    Session(String),
}

/// What happens in a turn.
pub enum TurnEvent {
    ModelCall,
    TokenDelta { delta: String },
    Compaction { summary: String },
    PermissionRequest(PermissionRequest),
    ToolStart { id: String, tool: String },
    ToolResult { id: String, tool: String, ok: bool, error: Option<String> },
    Final { text: String },
}

/// What an event says.
pub enum EventModel {
    ModelCall,
    TokenDelta(Seq<char>),
    Compaction(Seq<char>),
    PermissionRequest { request_id: Seq<char>, tool: Seq<char>, args: JsonModel, level: Level, reason: Seq<char> },
    ToolStart { id: Seq<char>, tool: Seq<char> },
    ToolResult { id: Seq<char>, tool: Seq<char>, ok: bool, error: Option<Seq<char>> },
    Final(Seq<char>),
}

/// What the event says that asks for this request.
pub open spec fn request_event(q: PermissionRequest) -> EventModel {
    EventModel::PermissionRequest {
        request_id: q.request_id@,
        tool: q.tool@,
        args: q.args.model(),
        level: q.level,
        reason: q.reason@,
    }
}

impl View for TurnEvent {
    type V = EventModel;

    open spec fn view(&self) -> EventModel {
        match *self {
            TurnEvent::ModelCall => EventModel::ModelCall,
            TurnEvent::TokenDelta { delta } => EventModel::TokenDelta(delta@),
            TurnEvent::Compaction { summary } => EventModel::Compaction(summary@),
            TurnEvent::PermissionRequest(q) => request_event(q),
            TurnEvent::ToolStart { id, tool } => EventModel::ToolStart { id: id@, tool: tool@ },
            TurnEvent::ToolResult { id, tool, ok, error } => EventModel::ToolResult {
                id: id@,
                tool: tool@,
                ok,
                error: opt_text(error),
            },
            TurnEvent::Final { text } => EventModel::Final(text@),
        }
    }
}

/// What a list of events says.
pub open spec fn events_model(v: Seq<TurnEvent>) -> Seq<EventModel> {
    v.map_values(|e: TurnEvent| e@)
}

/// What came of a turn.
pub struct TurnOutcome {
    pub final_text: Option<String>,
    pub steps: usize,
    pub events: Vec<TurnEvent>,
    pub prompt: String,
    pub started_at: String,
    pub duration_ms: u64,
    /// What the turn used.
    pub usage: TokenUsage,
}

// ---------------------------------------------------------------------------
// Size of the conversation
// ---------------------------------------------------------------------------

/// The estimate for one message: half its characters and a fixed share.
pub open spec fn message_tokens(m: ChatModel) -> nat {
    (match m.content {
        Some(c) => c.len(),
        None => 0,
    }) / 2 + 4
}

/// The estimate for a conversation.
pub open spec fn token_estimate(v: Seq<ChatModel>) -> nat
    decreases v.len(),
{
    if v.len() == 0 {
        0
    } else {
        token_estimate(v.drop_last()) + message_tokens(v.last())
    }
}

proof fn estimate_grows(v: Seq<ChatModel>, n: int)
    requires
        0 <= n <= v.len(),
    ensures
        token_estimate(v.take(n)) <= token_estimate(v),
    decreases v.len() - n,
{
    if n < v.len() {
        estimate_grows(v, n + 1);
        assert(v.take(n + 1).drop_last() =~= v.take(n));
    } else {
        assert(v.take(n) =~= v);
    }
}

fn tokens_of(m: &ChatMessage) -> (r: usize)
    ensures
        r == message_tokens(m@),
{
    let n: usize = match &m.content {
        Some(c) => chars_of(c.as_str()).len(),
        None => 0,
    };
    n / 2 + 4
}

/// A rough estimate of the tokens of a conversation.
pub fn estimate_tokens(messages: &Vec<ChatMessage>) -> (r: usize)
    requires
        token_estimate(chat_model(messages@)) <= usize::MAX,
    ensures
        r == token_estimate(chat_model(messages@)),
{
    let ghost all = chat_model(messages@);
    let mut sum: usize = 0;
    for i in 0..messages.len()
        invariant
            all == chat_model(messages@),
            token_estimate(all) <= usize::MAX,
            sum == token_estimate(all.take(i as int)),
    {
        proof {
            assert(all.take(i + 1).drop_last() =~= all.take(i as int));
            assert(all.take(i + 1).last() == messages@[i as int]@);
            estimate_grows(all, i + 1);
        }
        sum = sum + tokens_of(&messages[i]);
    }
    assert(all.take(all.len() as int) =~= all);
    sum
}

/// Whether the estimate is above `budget`.
fn over_budget(messages: &Vec<ChatMessage>, budget: usize) -> (r: bool)
    ensures
        r == (token_estimate(chat_model(messages@)) > budget),
{
    let ghost all = chat_model(messages@);
    let mut left: usize = budget;
    for i in 0..messages.len()
        invariant
            all == chat_model(messages@),
            left + token_estimate(all.take(i as int)) == budget,
    {
        proof {
            assert(all.take(i + 1).drop_last() =~= all.take(i as int));
            assert(all.take(i + 1).last() == messages@[i as int]@);
            estimate_grows(all, i + 1);
        }
        let n: usize = tokens_of(&messages[i]);
        if n > left {
            return true;
        }
        left = left - n;
    }
    assert(all.take(all.len() as int) =~= all);
    false
}

/// The first message and as many of the last as make up `limit` messages.
pub open spec fn truncated(v: Seq<ChatModel>, limit: nat) -> Seq<ChatModel> {
    if v.len() <= limit {
        v
    } else {
        let keep = if limit > 0 {
            limit - 1
        } else {
            0
        };
        seq![v[0]] + v.skip(v.len() - keep)
    }
}

/// Cuts a conversation down to `limit` messages: the first one stays, and of the
/// others the last.
pub fn compact_truncate(messages: &mut Vec<ChatMessage>, limit: usize)
    ensures
        chat_model(final(messages)@) == truncated(chat_model(old(messages)@), limit as nat),
{
    let ghost all = chat_model(messages@);
    let n: usize = messages.len();
    if n <= limit {
        return;
    }
    let keep: usize = if limit > 0 {
        limit - 1
    } else {
        0
    };
    let mut tail = messages.split_off(n - keep);
    let ghost t = tail@;
    messages.truncate(1);
    messages.append(&mut tail);
    assert(chat_model(messages@) =~= truncated(all, limit as nat));
}

// ---------------------------------------------------------------------------
// The prompt
// ---------------------------------------------------------------------------

/// The lines of the list of skills.
pub open spec fn catalog_lines(skills: Seq<Skill>) -> Seq<Seq<char>> {
    seq!["可用技能（通过 use_skill 工具按名调用）："@] + skills.map_values(
        |s: Skill| "- "@ + s.name@ + "："@ + s.description@,
    )
}

/// The prompt of the system: the base and, where there are any, the skills.
pub open spec fn system_text(base: Seq<char>, skills: Seq<Skill>) -> Seq<char> {
    if skills.len() == 0 {
        base
    } else {
        base + "\n\n"@ + joined(catalog_lines(skills), "\n"@)
    }
}

/// The prompt of the system.
pub fn system_prompt(base: &str, skills: &Vec<Skill>) -> (r: String)
    ensures
        r@ == system_text(base@, skills@),
{
    let mut system = copy_str(base);
    if skills.len() > 0 {
        let mut catalog: Vec<String> = Vec::new();
        catalog.push(copy_str("可用技能（通过 use_skill 工具按名调用）："));
        for i in 0..skills.len()
            invariant
                catalog@.len() == i + 1,
                catalog@[0]@ == "可用技能（通过 use_skill 工具按名调用）："@,
                forall|j: int|
                    0 <= j < i ==> #[trigger] catalog@[j + 1]@ == "- "@ + skills@[j].name@ + "："@ + skills@[j].description@,
        {
            let mut line = copy_str("- ");
            line.append(skills[i].name.as_str());
            line.append("：");
            line.append(skills[i].description.as_str());
            catalog.push(line);
        }
        proof {
            assert forall|j: int| 0 <= j < catalog@.len() implies #[trigger] texts(catalog@)[j] == catalog_lines(skills@)[j] by {
                if j > 0 {
                    assert(catalog@[j - 1 + 1]@ == "- "@ + skills@[j - 1].name@ + "："@ + skills@[j - 1].description@);
                }
            }
            assert(texts(catalog@) =~= catalog_lines(skills@));
        }
        system.append("\n\n");
        let list = join(&catalog, "\n");
        system.append(list.as_str());
    }
    system
}

// ---------------------------------------------------------------------------
// The turn
// ---------------------------------------------------------------------------

/// A turn that is under way.
pub struct Turn {
    pub config: AgentConfig,
    pub session_id: String,
    /// The conversation, with the prompt of the system first.
    pub messages: Vec<ChatMessage>,
    pub events: Vec<TurnEvent>,
    pub audit: AuditLog,
    /// How often the model was asked.
    pub rounds: usize,
    /// How many calls of tools were answered.
    pub steps: usize,
    pub final_text: Option<String>,
    /// The calls of tools that are not answered yet.
    pub calls: Vec<ToolCall>,
}

/// What a turn says.
pub struct TurnModel {
    pub messages: Seq<ChatModel>,
    pub events: Seq<EventModel>,
    pub audit: Seq<AuditModel>,
    pub rounds: nat,
    pub steps: nat,
    pub final_text: Option<Seq<char>>,
    pub calls: Seq<CallModel>,
}

/// What a round begins with.
pub enum RoundStep {
    /// The turn is over.
    Finish,
    /// The turn was given up.
    Aborted,
    /// The model is to be asked for a summary with this prompt.
    Summarise(String),
    /// The model is to be asked.
    AskModel,
}

/// What is done about a call of a tool.
pub enum CallStep {
    /// The turn was given up.
    Aborted,
    /// The approver is to be asked.
    Approve(PermissionRequest),
    /// The policy has decided.
    Decided(PermissionRequest, Decision),
}

/// The prompt that asks for a summary.
pub open spec fn summary_prompt(head: Seq<ChatModel>) -> Seq<char> {
    "请把以下 Agent 会话历史压缩成一份简洁的进展摘要（保留：已完成的动作、未完成事项、关键决策、当前上下文；不要编造新信息）：\n\n"@
        + messages_text(head)
}

/// A message that holds the summary of an earlier compaction.
pub open spec fn is_summary(m: ChatModel) -> bool {
    m.role == "system"@ && (m.content matches Some(c) && begins_with(c, "历史摘要"@))
}

/// Where the messages that a compaction keeps begin; nothing where there is
/// nothing to compact.
pub open spec fn compaction_point(config: AgentConfig, v: Seq<ChatModel>) -> Option<int> {
    let head_end = v.len() - config.keep_recent;
    if !config.compaction_enabled || token_estimate(v) <= config.token_budget {
        None
    } else if exists|i: int| 0 <= i < v.len() && is_summary(#[trigger] v[i]) {
        None
    } else if head_end < 4 {
        None
    } else {
        Some(head_end)
    }
}

/// The conversation after a compaction: the summary stands for the messages
/// before `head_end`, but for the prompt of the system.
pub open spec fn compacted(v: Seq<ChatModel>, head_end: int, summary: Seq<char>) -> Seq<ChatModel> {
    seq![v[0], says("system"@, "历史摘要（已压缩）：\n"@ + summary)] + v.skip(head_end)
}

/// The entry of the record of actions.
pub open spec fn entry(
    session: Seq<char>,
    action: Seq<char>,
    target: Option<Seq<char>>,
    approved: Option<bool>,
    detail: Seq<char>,
) -> AuditModel {
    AuditModel { session_id: session, event: action, tool: target, approved, detail }
}

/// The answer to a call of a tool.
pub open spec fn tool_answer(id: Seq<char>, content: Seq<char>) -> ChatModel {
    ChatModel { role: "tool"@, content: Some(content), tool_calls: None, tool_call_id: Some(id) }
}

/// What a tool that ran tells the model.
pub open spec fn tool_content(result: Result<Json, String>) -> Seq<char> {
    match result {
        Ok(v) => json_text(v.model()),
        Err(e) => "工具错误："@ + e@,
    }
}

/// The turn after the first call was answered with `content`.
pub open spec fn answered(m: TurnModel, session: Seq<char>, content: Seq<char>) -> TurnModel {
    let call = m.calls[0];
    TurnModel {
        messages: m.messages.push(tool_answer(call.id, content)),
        audit: m.audit.push(entry(session, "tool_call"@, Some(call.name), None, content)),
        steps: m.steps + 1,
        calls: m.calls.skip(1),
        ..m
    }
}

/// The turn after something happened.
pub open spec fn noted(m: TurnModel, event: EventModel) -> TurnModel {
    TurnModel { events: m.events.push(event), ..m }
}

/// The turn after its history before `head_end` was summarised.
pub open spec fn summarised(m: TurnModel, session: Seq<char>, head_end: int, summary: Seq<char>) -> TurnModel {
    TurnModel {
        messages: compacted(m.messages, head_end, summary),
        audit: m.audit.push(
            entry(session, "compaction"@, None, None, "压缩 "@ + decimal((head_end - 1) as nat) + " 条历史消息"@),
        ),
        events: m.events.push(EventModel::Compaction(summary)),
        ..m
    }
}

/// The turn when the model is asked with at most `limit` messages.
pub open spec fn asked(m: TurnModel, limit: nat) -> TurnModel {
    TurnModel {
        messages: truncated(m.messages, limit),
        events: m.events.push(EventModel::ModelCall),
        rounds: m.rounds + 1,
        ..m
    }
}

/// The turn after the model said something.
pub open spec fn told(m: TurnModel, text: Seq<char>) -> TurnModel {
    TurnModel {
        messages: m.messages.push(says("assistant"@, text)),
        events: m.events.push(EventModel::Final(text)),
        final_text: Some(text),
        ..m
    }
}

/// The turn after the model called tools.
pub open spec fn called(m: TurnModel, calls: Seq<CallModel>) -> TurnModel {
    TurnModel {
        messages: m.messages.push(
            ChatModel { role: "assistant"@, content: None, tool_calls: Some(calls), tool_call_id: None },
        ),
        calls,
        ..m
    }
}

/// The turn with the decision on its first call on record.
pub open spec fn judged(m: TurnModel, session: Seq<char>, approved: bool, reason: Seq<char>) -> TurnModel {
    TurnModel {
        audit: m.audit.push(entry(session, "permission"@, Some(m.calls[0].name), Some(approved), reason)),
        ..m
    }
}

/// The turn after the first call was approved: its tool starts.
pub open spec fn approved(m: TurnModel, session: Seq<char>, reason: Seq<char>) -> TurnModel {
    noted(judged(m, session, true, reason), EventModel::ToolStart { id: m.calls[0].id, tool: m.calls[0].name })
}

/// The turn after the first call was refused.
pub open spec fn refused(m: TurnModel, session: Seq<char>, reason: Seq<char>) -> TurnModel {
    answered(judged(m, session, false, reason), session, "工具错误："@ + ("permission denied: "@ + reason))
}

/// The turn after the tool of the first call returned.
pub open spec fn returned(m: TurnModel, session: Seq<char>, result: Result<Json, String>) -> TurnModel {
    let end = EventModel::ToolResult {
        id: m.calls[0].id,
        tool: m.calls[0].name,
        ok: result is Ok,
        error: match result {
            Ok(_) => None,
            Err(e) => Some(e@),
        },
    };
    answered(noted(m, end), session, tool_content(result))
}

impl Turn {
    /// There is at least the prompt of the system, and the counts have room.
    pub open spec fn wf(self) -> bool {
        self.messages@.len() >= 1 && self.rounds <= self.config.max_turns
    }

    /// What the turn says.
    pub open spec fn model(self) -> TurnModel {
        TurnModel {
            messages: chat_model(self.messages@),
            events: events_model(self.events@),
            audit: self.audit@,
            rounds: self.rounds as nat,
            steps: self.steps as nat,
            final_text: opt_text(self.final_text),
            calls: calls_model(self.calls@),
        }
    }

    /// What a turn never changes is the same here and in `other`, and what was on
    /// record there is so here.
    pub open spec fn same_turn(self, other: Turn) -> bool {
        self.config == other.config && self.session_id == other.session_id && self.audit.continues(other.audit)
    }

    /// Begins a turn with the history of a session and the user's prompt.
    pub fn begin(config: AgentConfig, session_id: &str, system: String, history: &Vec<ChatMessage>, prompt: &str) -> (r: Turn)
        ensures
            r.wf(),
            r.config == config,
            r.session_id@ == session_id@,
            r.model() == (TurnModel {
                messages: seq![says("system"@, system@)] + chat_model(history@).push(says("user"@, prompt@)),
                events: seq![],
                audit: seq![],
                rounds: 0,
                steps: 0,
                final_text: None,
                calls: seq![],
            }),
    {
        let mut messages: Vec<ChatMessage> = Vec::new();
        messages.push(ChatMessage::system(system));
        let mut copy = copy_messages(history, 0, history.len());
        let ghost h = copy@;
        messages.append(&mut copy);
        messages.push(ChatMessage::user(copy_str(prompt)));
        let r = Turn {
            config,
            session_id: copy_str(session_id),
            messages,
            events: Vec::new(),
            audit: AuditLog::new(),
            rounds: 0,
            steps: 0,
            final_text: None,
            calls: Vec::new(),
        };
        proof {
            assert(chat_model(h) =~= chat_model(history@));
            assert forall|i: int| 0 <= i < h.len() implies (#[trigger] h[i])@ == history@[i]@ by {
                assert(chat_model(h)[i] == chat_model(history@)[i]);
            }
            assert(r.model().messages =~= seq![says("system"@, system@)] + chat_model(history@).push(says("user"@, prompt@)));
            assert(r.model().events =~= seq![]);
            assert(r.model().audit =~= seq![]);
            assert(r.model().calls =~= seq![]);
        }
        r
    }

    /// Notes an event.
    fn emit(&mut self, event: TurnEvent)
        requires
            old(self).wf(),
        ensures
            final(self).wf(),
            final(self).same_turn(*old(self)),
            final(self).model() == noted(old(self).model(), event@),
    {
        let ghost before = events_model(self.events@);
        let ghost e = event@;
        self.events.push(event);
        assert(events_model(self.events@) =~= before.push(e));
    }

    /// Notes a piece of the model's answer as it comes in.
    pub fn token_delta(&mut self, delta: String)
        requires
            old(self).wf(),
        ensures
            final(self).wf(),
            final(self).same_turn(*old(self)),
            final(self).model() == noted(old(self).model(), EventModel::TokenDelta(delta@)),
    {
        self.emit(TurnEvent::TokenDelta { delta });
    }

    fn has_summary(&self) -> (r: bool)
        ensures
            r == exists|i: int| 0 <= i < chat_model(self.messages@).len() && is_summary(#[trigger] chat_model(self.messages@)[i]),
    {
        let ghost all = chat_model(self.messages@);
        for i in 0..self.messages.len()
            invariant
                all == chat_model(self.messages@),
                forall|j: int| 0 <= j < i ==> !is_summary(#[trigger] all[j]),
        {
            let m = &self.messages[i];
            assert(all[i as int] == self.messages@[i as int]@);
            if same_text(m.role.as_str(), "system") {
                match &m.content {
                    Some(c) => {
                        if starts_with(c.as_str(), "历史摘要") {
                            assert(is_summary(all[i as int]));
                            return true;
                        }
                    },
                    None => {},
                }
            }
        }
        false
    }

    fn compaction_start(&self) -> (r: Option<usize>)
        ensures
            match r {
                Some(n) => compaction_point(self.config, chat_model(self.messages@)) == Some(n as int) && 4 <= n
                    <= self.messages@.len(),
                None => compaction_point(self.config, chat_model(self.messages@)) is None,
            },
    {
        if !self.config.compaction_enabled || !over_budget(&self.messages, self.config.token_budget) {
            return None;
        }
        if self.has_summary() {
            return None;
        }
        let n: usize = self.messages.len();
        let head_end: usize = if n > self.config.keep_recent {
            n - self.config.keep_recent
        } else {
            0
        };
        if head_end < 4 {
            return None;
        }
        Some(head_end)
    }

    /// Begins a round: the turn is over once it has its answer or the model was
    /// asked as often as it may be; a history that is too long is summarised.
    pub fn begin_round(&self, abort: bool) -> (r: RoundStep)
        requires
            self.wf(),
        ensures
            if self.rounds == self.config.max_turns || self.final_text is Some {
                r is Finish
            } else if abort {
                r is Aborted
            } else {
                match compaction_point(self.config, self.model().messages) {
                    Some(head_end) => r matches RoundStep::Summarise(p) && p@ == summary_prompt(
                        self.model().messages.subrange(1, head_end),
                    ),
                    None => r is AskModel,
                }
            },
    {
        if self.rounds >= self.config.max_turns || self.final_text.is_some() {
            return RoundStep::Finish;
        }
        if abort {
            return RoundStep::Aborted;
        }
        match self.compaction_start() {
            Some(head_end) => {
                let head = copy_messages(&self.messages, 1, head_end);
                let mut prompt = copy_str(
                    "请把以下 Agent 会话历史压缩成一份简洁的进展摘要（保留：已完成的动作、未完成事项、关键决策、当前上下文；不要编造新信息）：\n\n",
                );
                let text = messages_to_text(&head);
                prompt.append(text.as_str());
                RoundStep::Summarise(prompt)
            },
            None => RoundStep::AskModel,
        }
    }

    /// The model's answer to the request for a summary: a text takes the place
    /// of the history before; anything else changes nothing.
    pub fn summarised(&mut self, summary: Option<String>)
        requires
            old(self).wf(),
        ensures
            final(self).wf(),
            final(self).same_turn(*old(self)),
            match (summary, compaction_point(old(self).config, old(self).model().messages)) {
                (Some(s), Some(head_end)) => final(self).model() == self::summarised(
                    old(self).model(),
                    old(self).session_id@,
                    head_end,
                    s@,
                ),
                _ => final(self).model() == old(self).model(),
            },
    {
        let ghost before = self.model();
        match summary {
            Some(s) => {
                match self.compaction_start() {
                    Some(head_end) => {
                        let mut tail = self.messages.split_off(head_end);
                        let ghost t = tail@;
                        self.messages.truncate(1);
                        let mut text = copy_str("历史摘要（已压缩）：\n");
                        text.append(s.as_str());
                        self.messages.push(ChatMessage::system(text));
                        self.messages.append(&mut tail);
                        proof {
                            assert(chat_model(self.messages@) =~= compacted(before.messages, head_end as int, s@));
                        }
                        let mut detail = copy_str("压缩 ");
                        let n = decimal_text((head_end - 1) as u64);
                        detail.append(n.as_str());
                        detail.append(" 条历史消息");
                        self.audit.record(self.session_id.as_str(), "compaction", None, None, detail.as_str());
                        self.emit(TurnEvent::Compaction { summary: s });
                    },
                    None => {},
                }
            },
            None => {},
        }
    }

    /// Readies the conversation for the model: it is cut down to its limit.
    pub fn ask_model(&mut self)
        requires
            old(self).wf(),
            old(self).rounds < old(self).config.max_turns,
        ensures
            final(self).wf(),
            final(self).same_turn(*old(self)),
            final(self).model() == asked(old(self).model(), old(self).config.context_limit as nat),
    {
        compact_truncate(&mut self.messages, self.config.context_limit);
        self.rounds = self.rounds + 1;
        proof {
            assert(chat_model(self.messages@).len() == self.messages@.len());
        }
        self.emit(TurnEvent::ModelCall);
    }

    /// The model's answer: a text ends the turn, calls of tools are to be
    /// answered one after the other.
    pub fn model_said(&mut self, output: ModelOutput)
        requires
            old(self).wf(),
        ensures
            final(self).wf(),
            final(self).same_turn(*old(self)),
            match output {
                ModelOutput::Text(text) => final(self).model() == told(old(self).model(), text@),
                ModelOutput::ToolCalls(calls) => final(self).model() == called(old(self).model(), calls_model(calls@)),
            },
    {
        let ghost before = self.model();
        match output {
            ModelOutput::Text(text) => {
                let m = ChatMessage::assistant_text(text.clone());
                let ghost mm = m@;
                self.messages.push(m);
                assert(chat_model(self.messages@) =~= before.messages.push(mm));
                self.final_text = Some(text.clone());
                self.emit(TurnEvent::Final { text });
            },
            ModelOutput::ToolCalls(calls) => {
                let m = ChatMessage::assistant_tool_calls(copy_calls(&calls));
                let ghost mm = m@;
                self.messages.push(m);
                assert(chat_model(self.messages@) =~= before.messages.push(mm));
                self.calls = calls;
            },
        }
    }

    /// Whether a call of a tool waits for its answer.
    pub fn has_call(&self) -> (r: bool)
        ensures
            r == (self.calls@.len() > 0),
    {
        self.calls.len() > 0
    }

    /// Judges the next call: the policy decides, or the approver is to be asked.
    /// The request that is shown is the one that the approver gets, under one and
    /// the same identifier. `path` is the outcome of the check of the path that the call names.
    pub fn judge_call(&mut self, policy: &Policy, path: &Result<String, String>, abort: bool) -> (r: CallStep)
        requires
            old(self).wf(),
            old(self).calls@.len() > 0,
        ensures
            final(self).wf(),
            final(self).same_turn(*old(self)),
            ({
                let call = old(self).model().calls[0];
                let level = level_of(call.name);
                let reason = policy.reason_for(call.name, call.arguments, *path);
                if abort {
                    r is Aborted && final(self).model() == old(self).model()
                } else if policy.decides(level, reason) is Ask {
                    &&& r matches CallStep::Approve(q)
                    &&& asks_for(q, call, level, reason)
                    &&& is_id(q.request_id@)
                    &&& final(self).model() == noted(
                        old(self).model(),
                        EventModel::PermissionRequest {
                            request_id: q.request_id@,
                            tool: call.name,
                            args: call.arguments,
                            level,
                            reason,
                        },
                    )
                } else {
                    &&& r matches CallStep::Decided(q, d)
                    &&& asks_for(q, call, level, reason)
                    &&& is_id(q.request_id@)
                    &&& d == policy.decides(level, reason)
                    &&& final(self).model() == old(self).model()
                }
            }),
    {
        if abort {
            return CallStep::Aborted;
        }
        assert(self.model().calls[0] == self.calls@[0]@);
        let request = policy.evaluate(self.calls[0].name.as_str(), &self.calls[0].arguments, path);
        match policy.decision(&request) {
            Decision::Ask => {
                self.emit(TurnEvent::PermissionRequest(request.clone()));
                CallStep::Approve(request)
            },
            other => CallStep::Decided(request, other),
        }
    }

    /// Takes in the decision on the next call. Returns whether its tool is to run;
    /// else the call is answered with the refusal.
    pub fn decided(&mut self, request: &PermissionRequest, decision: Decision) -> (r: bool)
        requires
            old(self).wf(),
            old(self).calls@.len() > 0,
            old(self).steps < usize::MAX,
        ensures
            final(self).wf(),
            final(self).same_turn(*old(self)),
            r == (decision is Allow),
            final(self).model() == if r {
                self::approved(old(self).model(), old(self).session_id@, request.reason@)
            } else {
                refused(old(self).model(), old(self).session_id@, request.reason@)
            },
    {
        let ghost before = self.model();
        assert(before.calls[0] == self.calls@[0]@);
        let approved = decision == Decision::Allow;
        let id = self.calls[0].id.clone();
        let name = self.calls[0].name.clone();
        self.audit.record(
            self.session_id.as_str(),
            "permission",
            Some(name.clone()),
            Some(approved),
            request.reason.as_str(),
        );
        if approved {
            self.emit(TurnEvent::ToolStart { id, tool: name });
            true
        } else {
            let mut reason = copy_str("permission denied: ");
            reason.append(request.reason.as_str());
            let mut content = copy_str("工具错误：");
            content.append(reason.as_str());
            self.answer(content);
            false
        }
    }

    /// Answers the next call.
    fn answer(&mut self, content: String)
        requires
            old(self).wf(),
            old(self).calls@.len() > 0,
            old(self).steps < usize::MAX,
        ensures
            final(self).wf(),
            final(self).same_turn(*old(self)),
            final(self).model() == answered(old(self).model(), old(self).session_id@, content@),
    {
        let ghost before = self.model();
        assert(before.calls[0] == self.calls@[0]@);
        let call = self.calls.remove(0);
        assert(calls_model(self.calls@) =~= before.calls.skip(1));
        self.audit.record(self.session_id.as_str(), "tool_call", Some(call.name.clone()), None, content.as_str());
        let m = ChatMessage::tool(call.id, content);
        let ghost mm = m@;
        self.messages.push(m);
        assert(chat_model(self.messages@) =~= before.messages.push(mm));
        self.steps = self.steps + 1;
    }

    /// Takes in what the tool of the next call returned.
    pub fn tool_done(&mut self, result: Result<Json, String>)
        requires
            old(self).wf(),
            old(self).calls@.len() > 0,
            old(self).steps < usize::MAX,
        ensures
            final(self).wf(),
            final(self).same_turn(*old(self)),
            final(self).model() == returned(old(self).model(), old(self).session_id@, result),
    {
        assert(self.model().calls[0] == self.calls@[0]@);
        let id = self.calls[0].id.clone();
        let tool = self.calls[0].name.clone();
        match result {
            Ok(v) => {
                self.emit(TurnEvent::ToolResult { id, tool, ok: true, error: None });
                let content = v.to_text();
                self.answer(content);
            },
            Err(e) => {
                self.emit(TurnEvent::ToolResult { id, tool, ok: false, error: Some(e.clone()) });
                let mut content = copy_str("工具错误：");
                content.append(e.as_str());
                self.answer(content);
            },
        }
    }

    /// Ends the turn: what came of it, and the history for the session, which is
    /// the conversation without the prompt of the system.
    pub fn finish(self, prompt: String, started_at: String, duration_ms: u64, usage: TokenUsage) -> (r: (TurnOutcome, Vec<ChatMessage>, AuditLog))
        requires
            self.wf(),
        ensures
            opt_text(r.0.final_text) == self.model().final_text,
            r.0.steps == self.steps,
            events_model(r.0.events@) == self.model().events,
            r.0.prompt == prompt,
            r.0.started_at == started_at,
            r.0.duration_ms == duration_ms,
            r.0.usage == usage,
            chat_model(r.1@) == self.model().messages.skip(1),
            r.2 == self.audit,
    {
        let mut history = self.messages;
        let ghost all = chat_model(history@);
        history.remove(0);
        assert(chat_model(history@) =~= all.skip(1));
        let outcome = TurnOutcome {
            final_text: self.final_text,
            steps: self.steps,
            events: self.events,
            prompt,
            started_at,
            duration_ms,
            usage,
        };
        (outcome, history, self.audit)
    }
}

/// The request is for this call.
pub open spec fn asks_for(q: PermissionRequest, call: CallModel, level: Level, reason: Seq<char>) -> bool {
    q.tool@ == call.name && q.args.model() == call.arguments && q.level == level && q.reason@ == reason
}

// ---------------------------------------------------------------------------
// Laws
// ---------------------------------------------------------------------------

/// A conversation that was cut down keeps its first message and fits its limit,
/// unless the limit is below one message.
pub proof fn truncation_keeps_the_system_prompt(v: Seq<ChatModel>, limit: nat)
    requires
        v.len() >= 1,
    ensures
        truncated(v, limit).len() >= 1,
        truncated(v, limit)[0] == v[0],
        limit >= 1 ==> truncated(v, limit).len() <= limit,
{
}

/// A compaction keeps the prompt of the system and the messages it has to keep.
pub proof fn compaction_keeps_the_recent(config: AgentConfig, v: Seq<ChatModel>, head_end: int, summary: Seq<char>)
    requires
        compaction_point(config, v) == Some(head_end),
    ensures
        compacted(v, head_end, summary)[0] == v[0],
        compacted(v, head_end, summary).skip(2) == v.skip(v.len() - config.keep_recent),
        compacted(v, head_end, summary).len() < v.len(),
{
    assert(compacted(v, head_end, summary).skip(2) =~= v.skip(head_end));
}

/// A history that was compacted once is not compacted again in the same turn.
pub proof fn compaction_happens_once(config: AgentConfig, v: Seq<ChatModel>, head_end: int, summary: Seq<char>)
    requires
        compaction_point(config, v) == Some(head_end),
    ensures
        compaction_point(config, compacted(v, head_end, summary)) is None,
{
    let c = compacted(v, head_end, summary);
    let text = "历史摘要（已压缩）：\n"@ + summary;
    reveal_strlit("历史摘要（已压缩）：\n");
    reveal_strlit("历史摘要");
    assert(text.take(4) =~= "历史摘要"@);
    assert(c[1] == says("system"@, text));
    assert(is_summary(c[1]));
}

/// A refused tool never starts: the call is answered with the refusal, which is
/// on record.
pub proof fn refused_tools_never_start(m: TurnModel, session: Seq<char>, reason: Seq<char>)
    requires
        m.calls.len() > 0,
    ensures
        refused(m, session, reason).events == m.events,
        refused(m, session, reason).messages == m.messages.push(
            tool_answer(m.calls[0].id, "工具错误："@ + ("permission denied: "@ + reason)),
        ),
        refused(m, session, reason).calls == m.calls.skip(1),
        refused(m, session, reason).audit.len() == m.audit.len() + 2,
        refused(m, session, reason).audit[m.audit.len() as int] == entry(
            session,
            "permission"@,
            Some(m.calls[0].name),
            Some(false),
            reason,
        ),
{
}

/// The entry records an approval.
pub open spec fn is_approval(e: AuditModel) -> bool {
    e.event == "permission"@ && e.approved == Some(true)
}

/// The entry records the answer to a call.
pub open spec fn is_call(e: AuditModel) -> bool {
    e.event == "tool_call"@
}

/// How many tools started, how many approvals and how many answers are on
/// record.
pub open spec fn starts(v: Seq<EventModel>) -> nat {
    v.filter(|e: EventModel| e is ToolStart).len()
}

pub open spec fn approvals(v: Seq<AuditModel>) -> nat {
    v.filter(|e: AuditModel| is_approval(e)).len()
}

pub open spec fn answers(v: Seq<AuditModel>) -> nat {
    v.filter(|e: AuditModel| is_call(e)).len()
}

/// Every start of a tool stands on an approval, and every step on an answer.
pub open spec fn on_record(m: TurnModel) -> bool {
    starts(m.events) == approvals(m.audit) && m.steps == answers(m.audit)
}

proof fn one_more<A>(v: Seq<A>, x: A, f: spec_fn(A) -> bool)
    ensures
        v.push(x).filter(f).len() == v.filter(f).len() + if f(x) {
            1int
        } else {
            0int
        },
{
    reveal(Seq::filter);
    assert(v.push(x).drop_last() =~= v);
}

proof fn recording(events: Seq<EventModel>, e: EventModel, audit: Seq<AuditModel>, a: AuditModel)
    ensures
        starts(events.push(e)) == starts(events) + if e is ToolStart {
            1int
        } else {
            0int
        },
        approvals(audit.push(a)) == approvals(audit) + if is_approval(a) {
            1int
        } else {
            0int
        },
        answers(audit.push(a)) == answers(audit) + if is_call(a) {
            1int
        } else {
            0int
        },
{
    one_more(events, e, |e: EventModel| e is ToolStart);
    one_more(audit, a, |e: AuditModel| is_approval(e));
    one_more(audit, a, |e: AuditModel| is_call(e));
}

/// Whatever happens in a turn, as many tools have started as approvals are on
/// record, and as many calls were answered as steps are counted.
pub proof fn turns_stay_on_record(
    m: TurnModel,
    session: Seq<char>,
    event: EventModel,
    limit: nat,
    text: Seq<char>,
    calls: Seq<CallModel>,
    head_end: int,
    result: Result<Json, String>,
)
    requires
        on_record(m),
    ensures
        event !is ToolStart ==> on_record(noted(m, event)),
        on_record(self::summarised(m, session, head_end, text)),
        on_record(asked(m, limit)),
        on_record(told(m, text)),
        on_record(called(m, calls)),
        on_record(self::approved(m, session, text)),
        on_record(refused(m, session, text)),
        on_record(returned(m, session, result)),
{
    reveal_strlit("permission");
    reveal_strlit("tool_call");
    reveal_strlit("compaction");
    assert("permission"@.len() == 10 && "tool_call"@.len() == 9 && "compaction"@.len() == 10);
    assert("permission"@[0] == 'p' && "compaction"@[0] == 'c');
    let any = entry(session, "compaction"@, None, None, "压缩 "@ + decimal((head_end - 1) as nat) + " 条历史消息"@);
    recording(m.events, event, m.audit, any);
    recording(m.events, EventModel::Compaction(text), m.audit, any);
    recording(m.events, EventModel::ModelCall, m.audit, any);
    recording(m.events, EventModel::Final(text), m.audit, any);
    let name = m.calls[0].name;
    let yes = entry(session, "permission"@, Some(name), Some(true), text);
    let no = entry(session, "permission"@, Some(name), Some(false), text);
    recording(m.events, EventModel::ToolStart { id: m.calls[0].id, tool: name }, m.audit, yes);
    recording(m.events, event, m.audit, no);
    let refusal = entry(
        session,
        "tool_call"@,
        Some(name),
        None,
        "工具错误："@ + ("permission denied: "@ + text),
    );
    recording(m.events, event, m.audit.push(no), refusal);
    let end = returned(m, session, result).events.last();
    recording(m.events, end, m.audit, entry(session, "tool_call"@, Some(name), None, tool_content(result)));
}

/// The answers to calls.
pub open spec fn answer_messages(calls: Seq<CallModel>, contents: Seq<Seq<char>>) -> Seq<ChatModel> {
    Seq::new(calls.len(), |i: int| tool_answer(calls[i].id, contents[i]))
}

/// A turn that answers its calls one after the other, each with one of the
/// `contents`, goes through the states `v`.
pub open spec fn answers_calls(v: Seq<TurnModel>, contents: Seq<Seq<char>>) -> bool {
    &&& v.len() == contents.len() + 1
    &&& forall|i: int|
        0 <= i < contents.len() ==> (#[trigger] v[i + 1]).messages == v[i].messages.push(
            tool_answer(v[i].calls[0].id, contents[i]),
        ) && v[i + 1].calls == v[i].calls.skip(1)
}

/// Every call of a tool is answered once, in the order of the calls, whether it
/// was refused or its tool ran.
pub proof fn calls_are_answered_in_order(v: Seq<TurnModel>, contents: Seq<Seq<char>>)
    requires
        answers_calls(v, contents),
        v[0].calls.len() == contents.len(),
    ensures
        v.last().calls.len() == 0,
        v.last().messages == v[0].messages + answer_messages(v[0].calls, contents),
    decreases contents.len(),
{
    if contents.len() == 0 {
        assert(v.last().messages =~= v[0].messages + answer_messages(v[0].calls, contents));
    } else {
        assert(v[0int + 1].calls == v[0].calls.skip(1));
        let rest = v.skip(1);
        let others = contents.skip(1);
        assert forall|i: int| 0 <= i < others.len() implies (#[trigger] rest[i + 1]).messages == rest[i].messages.push(
            tool_answer(rest[i].calls[0].id, others[i]),
        ) && rest[i + 1].calls == rest[i].calls.skip(1) by {
            assert(v[(i + 1) + 1].calls == v[i + 1].calls.skip(1));
        }
        calls_are_answered_in_order(rest, others);
        assert(v.last().messages =~= v[0].messages + answer_messages(v[0].calls, contents));
    }
}

/// A conversation that fits its limit stays as it is. Of a longer one the first
/// message stays and, behind it, the last ones, as many as the limit has room for.
pub proof fn truncation_fills_the_limit(v: Seq<ChatModel>, limit: nat)
    ensures
        v.len() <= limit ==> truncated(v, limit) == v,
        v.len() > limit >= 1 ==> truncated(v, limit).len() == limit && truncated(v, limit)[0] == v[0]
            && truncated(v, limit).skip(1) == v.skip(v.len() - (limit - 1)),
        v.len() > limit && limit == 0 ==> truncated(v, limit) == seq![v[0]],
{
    if v.len() > limit >= 1 {
        assert(truncated(v, limit).skip(1) =~= v.skip(v.len() - (limit - 1)));
    }
    if v.len() > limit && limit == 0 {
        assert(truncated(v, limit) =~= seq![v[0]]);
    }
}

/// Asking the model costs a round and shows as one event. Of the conversation
/// nothing but what is above the limit is lost, and nothing else changes.
pub proof fn asking_costs_a_round(m: TurnModel, limit: nat)
    ensures
        asked(m, limit).rounds == m.rounds + 1,
        asked(m, limit).events.len() == m.events.len() + 1,
        asked(m, limit).events.take(m.events.len() as int) == m.events,
        asked(m, limit).events.last() is ModelCall,
        m.messages.len() <= limit ==> asked(m, limit).messages == m.messages,
        m.messages.len() > limit >= 1 ==> asked(m, limit).messages.len() == limit && asked(m, limit).messages[0]
            == m.messages[0] && asked(m, limit).messages.skip(1) == m.messages.skip(m.messages.len() - (limit - 1)),
        asked(m, limit).audit == m.audit && asked(m, limit).steps == m.steps && asked(m, limit).final_text
            == m.final_text && asked(m, limit).calls == m.calls,
{
    truncation_fills_the_limit(m.messages, limit);
    assert(asked(m, limit).events.take(m.events.len() as int) =~= m.events);
}

/// The estimate of a conversation is that of its parts together; a message counts
/// four, and one more for every two of its characters.
pub proof fn estimate_adds_up(a: Seq<ChatModel>, b: Seq<ChatModel>, m: ChatModel)
    ensures
        token_estimate(a + b) == token_estimate(a) + token_estimate(b),
        m.content is None ==> token_estimate(seq![m]) == 4,
        m.content matches Some(c) ==> 2 * (token_estimate(seq![m]) - 4) <= c.len() <= 2 * (token_estimate(seq![m]) - 4)
            + 1,
    decreases b.len(),
{
    if b.len() == 0 {
        assert(a + b =~= a);
    } else {
        assert((a + b).drop_last() =~= a + b.drop_last());
        estimate_adds_up(a, b.drop_last(), m);
    }
    assert(seq![m].drop_last() =~= Seq::<ChatModel>::empty());
    assert(token_estimate(seq![m]) == token_estimate(seq![m].drop_last()) + message_tokens(m));
}

/// A history is summarised only where that is switched on, its estimate is above
/// the budget and no message is a summary already. Then all but the messages that
/// have to stay are, and these are at least four; and there is no other reason not
/// to.
pub proof fn compaction_needs_a_reason(config: AgentConfig, v: Seq<ChatModel>)
    ensures
        compaction_point(config, v) matches Some(n) ==> {
            &&& config.compaction_enabled
            &&& token_estimate(v) > config.token_budget
            &&& n >= 4
            &&& v.skip(n).len() == config.keep_recent
            &&& forall|i: int, c: Seq<char>|
                0 <= i < v.len() && (#[trigger] v[i]).role == "system"@ && v[i].content == Some(c)
                    && #[trigger] c.len() >= 4 ==> c.take(4) != "历史摘要"@
        },
        config.compaction_enabled && token_estimate(v) > config.token_budget && v.len() >= config.keep_recent + 4
            && (forall|i: int| 0 <= i < v.len() ==> (#[trigger] v[i]).role != "system"@ || v[i].content is None || v[i].content->0.len()
            < 4 || v[i].content->0.take(4) != "历史摘要"@) ==> compaction_point(config, v) is Some,
{
    reveal_strlit("历史摘要");
    if compaction_point(config, v) is Some {
        assert forall|i: int, c: Seq<char>|
            0 <= i < v.len() && (#[trigger] v[i]).role == "system"@ && v[i].content == Some(c) && #[trigger] c.len()
                >= 4 implies c.take(4) != "历史摘要"@ by {
            assert(!is_summary(v[i]));
        }
    }
}

/// A compaction puts one message in the place of the old ones: it speaks for the
/// system and ends with the summary. What was cut off is on record.
pub proof fn compaction_tells_the_summary(m: TurnModel, session: Seq<char>, head_end: int, summary: Seq<char>)
    requires
        4 <= head_end <= m.messages.len(),
    ensures
        ({
            let after = self::summarised(m, session, head_end, summary);
            let told = after.messages[1];
            &&& after.messages.len() == m.messages.len() - head_end + 2
            &&& after.messages[0] == m.messages[0]
            &&& forall|i: int| head_end <= i < m.messages.len() ==> after.messages[i - head_end + 2] == #[trigger] m.messages[i]
            &&& told.role == "system"@
            &&& told.content matches Some(c) && c.len() >= summary.len() && c.skip(c.len() - summary.len()) == summary
            &&& told.tool_calls is None && told.tool_call_id is None
            &&& after.audit.len() == m.audit.len() + 1
            &&& after.audit.last().event == "compaction"@ && after.audit.last().session_id == session
            &&& after.events.len() == m.events.len() + 1
            &&& after.events.last() == EventModel::Compaction(summary)
            &&& after.rounds == m.rounds && after.steps == m.steps && after.final_text == m.final_text && after.calls
                == m.calls
        }),
{
    let text = "历史摘要（已压缩）：\n"@ + summary;
    assert(text.skip(text.len() - summary.len()) =~= summary);
}

/// A text of the model ends the turn: it is its answer, it is the last message and
/// it is shown. No tool is called.
pub proof fn a_text_is_the_answer(m: TurnModel, text: Seq<char>)
    ensures
        told(m, text).final_text == Some(text),
        told(m, text).messages.len() == m.messages.len() + 1,
        told(m, text).messages.take(m.messages.len() as int) == m.messages,
        told(m, text).messages.last().role == "assistant"@ && told(m, text).messages.last().content == Some(text)
            && told(m, text).messages.last().tool_calls is None,
        told(m, text).events.last() == EventModel::Final(text),
        told(m, text).calls == m.calls && told(m, text).steps == m.steps && told(m, text).rounds == m.rounds
            && told(m, text).audit == m.audit,
{
    assert(told(m, text).messages.take(m.messages.len() as int) =~= m.messages);
}

/// Calls of the model all wait, in their order, and stand in the conversation; they
/// end nothing.
pub proof fn calls_wait_in_order(m: TurnModel, calls: Seq<CallModel>)
    ensures
        called(m, calls).calls == calls,
        called(m, calls).messages.len() == m.messages.len() + 1,
        called(m, calls).messages.take(m.messages.len() as int) == m.messages,
        called(m, calls).messages.last().role == "assistant"@ && called(m, calls).messages.last().tool_calls == Some(
            calls,
        ),
        called(m, calls).final_text == m.final_text && called(m, calls).events == m.events && called(m, calls).audit
            == m.audit && called(m, calls).steps == m.steps && called(m, calls).rounds == m.rounds,
{
    assert(called(m, calls).messages.take(m.messages.len() as int) =~= m.messages);
}

/// What a tool returned reaches the model: the value as JSON, or that it failed and
/// why. It answers the call that it is about, which waits no longer, and it counts
/// as a step.
pub proof fn results_reach_the_model(m: TurnModel, session: Seq<char>, result: Result<Json, String>)
    requires
        m.calls.len() > 0,
    ensures
        ({
            let after = returned(m, session, result);
            let told = after.messages.last();
            &&& after.messages.len() == m.messages.len() + 1
            &&& after.messages.take(m.messages.len() as int) == m.messages
            &&& told.role == "tool"@ && told.tool_call_id == Some(m.calls[0].id)
            &&& result matches Ok(v) ==> told.content == Some(json_text(v.model()))
            &&& result matches Err(e) ==> (told.content matches Some(c) && c.len() == e@.len() + 5 && c.skip(5) == e@)
            &&& after.calls.len() == m.calls.len() - 1
            &&& forall|i: int| 1 <= i < m.calls.len() ==> after.calls[i - 1] == #[trigger] m.calls[i]
            &&& after.steps == m.steps + 1
            &&& after.events.len() == m.events.len() + 1
            &&& after.events.last() matches EventModel::ToolResult { id, tool, ok, error } && id == m.calls[0].id && tool
                == m.calls[0].name && (ok <==> result is Ok) && (error matches Some(t) ==> result matches Err(e) && t
                == e@) && (error is None <==> result is Ok)
            &&& after.audit.len() == m.audit.len() + 1
            &&& after.audit.last().event == "tool_call"@ && after.audit.last().tool == Some(m.calls[0].name)
                && after.audit.last().session_id == session
            &&& after.rounds == m.rounds && after.final_text == m.final_text
        }),
{
    let after = returned(m, session, result);
    assert(after.messages.take(m.messages.len() as int) =~= m.messages);
    reveal_strlit("工具错误：");
    match result {
        Err(e) => {
            let c = "工具错误："@ + e@;
            assert(c.skip(5) =~= e@);
        },
        Ok(_) => {},
    }
}

/// An approval starts the tool of the call, and that call alone; it is on record,
/// and the call still waits for its answer.
pub proof fn approval_starts_the_tool(m: TurnModel, session: Seq<char>, reason: Seq<char>)
    requires
        m.calls.len() > 0,
    ensures
        ({
            let after = self::approved(m, session, reason);
            &&& after.calls == m.calls
            &&& after.messages == m.messages
            &&& after.steps == m.steps && after.rounds == m.rounds && after.final_text == m.final_text
            &&& after.events.len() == m.events.len() + 1
            &&& after.events.last() matches EventModel::ToolStart { id, tool } && id == m.calls[0].id && tool
                == m.calls[0].name
            &&& after.audit.len() == m.audit.len() + 1
            &&& after.audit.last().approved == Some(true) && after.audit.last().tool == Some(m.calls[0].name)
                && after.audit.last().detail == reason && after.audit.last().session_id == session
        }),
{
}

/// The prompt of the system begins with its base; without skills it is nothing
/// else, and with them it names each of them and says what it is for.
pub proof fn prompt_names_every_skill(base: Seq<char>, skills: Seq<Skill>, k: int)
    requires
        0 <= k < skills.len(),
    ensures
        system_text(base, seq![]) == base,
        begins_with(system_text(base, skills), base),
        has_text(system_text(base, skills), skills[k].name@ + "："@ + skills[k].description@),
{
    let lines = catalog_lines(skills);
    let list = joined(lines, "\n"@);
    let text = system_text(base, skills);
    assert(text.take(base.len() as int) =~= base);
    let line = "- "@ + skills[k].name@ + "："@ + skills[k].description@;
    let words = skills[k].name@ + "："@ + skills[k].description@;
    assert(lines[k + 1] == line);
    joined_holds(lines, "\n"@, k + 1);
    let i = choose|i: int| occurs_at(list, line, i);
    reveal_strlit("- ");
    assert(line =~= "- "@ + words);
    let front = base + "\n\n"@;
    assert(text =~= front + list);
    let at = front.len() + i + 2;
    assert(text.subrange(at, at + words.len()) =~= list.subrange(i, i + line.len()).skip(2));
    assert(line.skip(2) =~= words);
    assert(occurs_at(text, words, at));
}

/// A question concerns one call: its tool, its arguments, what it needs and why.
pub proof fn questions_concern_one_call(
    q: PermissionRequest,
    a: CallModel,
    b: CallModel,
    level: Level,
    other: Level,
    reason: Seq<char>,
    why: Seq<char>,
)
    requires
        asks_for(q, a, level, reason),
    ensures
        q.tool@ == a.name && q.args.model() == a.arguments && q.level == level && q.reason@ == reason,
        asks_for(q, b, other, why) <==> b.name == a.name && b.arguments == a.arguments && other == level && why == reason,
{
}

/// A turn stays in its session, under its configuration, and loses nothing of its record.
pub proof fn turns_stay_what_they_are(a: Turn, b: Turn, c: Turn, i: int)
    ensures
        b.same_turn(a) && c.same_turn(b) ==> c.same_turn(a),
        b.same_turn(a) ==> b.config == a.config && b.session_id == a.session_id,
        b.same_turn(a) && 0 <= i < a.audit.entries@.len() ==> i < b.audit.entries@.len() && b.audit.entries@[i]
            == a.audit.entries@[i],
{
    crate::audit::the_record_only_grows(a.audit, b.audit, c.audit);
}

} // verus!
