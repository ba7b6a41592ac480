//! The gateway to the model: what is sent, what comes back whole or in a
//! stream, and what it costs.

use crate::chat::{calls_model, chat_model, CallModel, ChatMessage, ChatModel, ToolCall};
use crate::json::{
    count_member, json_text, list_member, list_model, list_model_elements, member, parse_json, parsed_json,
    text_member, Json, JsonModel,
};
use crate::mcp::{or_null, ToolModel};
use crate::text::{blank, chars_of, copy_str, decimal, decimal_text, is_blank, same_text, string_of};
use crate::tools::{spec_models, ToolSpec};
use vstd::prelude::*;

pub mod stream;

verus! {

// ---------------------------------------------------------------------------
// Usage
// ---------------------------------------------------------------------------

/// What a conversation has used.
#[derive(Debug, Clone, Copy, PartialEq, Eq, Structural)]
pub struct TokenUsage {
    pub prompt_tokens: u64,
    pub completion_tokens: u64,
    pub total_tokens: u64,
}

/// The sum, held at the largest number.
pub open spec fn capped_sum(a: u64, b: u64) -> u64 {
    if a + b > u64::MAX {
        u64::MAX
    } else {
        (a + b) as u64
    }
}

/// The difference, held at zero.
pub open spec fn floored_difference(a: u64, b: u64) -> u64 {
    if a < b {
        0
    } else {
        (a - b) as u64
    }
}

pub open spec fn usage_sum(a: TokenUsage, b: TokenUsage) -> TokenUsage {
    TokenUsage {
        prompt_tokens: capped_sum(a.prompt_tokens, b.prompt_tokens),
        completion_tokens: capped_sum(a.completion_tokens, b.completion_tokens),
        total_tokens: capped_sum(a.total_tokens, b.total_tokens),
    }
}

pub open spec fn no_usage() -> TokenUsage {
    TokenUsage { prompt_tokens: 0, completion_tokens: 0, total_tokens: 0 }
}

impl Default for TokenUsage {
    fn default() -> (r: TokenUsage)
        ensures
            r == no_usage(),
    {
        TokenUsage { prompt_tokens: 0, completion_tokens: 0, total_tokens: 0 }
    }
}

impl TokenUsage {
    /// Adds what was used in addition.
    pub fn add(&mut self, other: &TokenUsage)
        ensures
            *final(self) == usage_sum(*old(self), *other),
    {
        self.prompt_tokens = self.prompt_tokens.saturating_add(other.prompt_tokens);
        self.completion_tokens = self.completion_tokens.saturating_add(other.completion_tokens);
        self.total_tokens = self.total_tokens.saturating_add(other.total_tokens);
    }

    /// What was used since the earlier reading `other`.
    pub fn saturating_sub(&self, other: &TokenUsage) -> (r: TokenUsage)
        ensures
            r == (TokenUsage {
                prompt_tokens: floored_difference(self.prompt_tokens, other.prompt_tokens),
                completion_tokens: floored_difference(self.completion_tokens, other.completion_tokens),
                total_tokens: floored_difference(self.total_tokens, other.total_tokens),
            }),
    {
        TokenUsage {
            prompt_tokens: self.prompt_tokens.saturating_sub(other.prompt_tokens),
            completion_tokens: self.completion_tokens.saturating_sub(other.completion_tokens),
            total_tokens: self.total_tokens.saturating_sub(other.total_tokens),
        }
    }
}

/// What a turn used is read back from the readings before and after it, as long
/// as no number has reached its limit.
pub proof fn turn_usage_is_difference(before: TokenUsage, turn: TokenUsage)
    requires
        before.prompt_tokens + turn.prompt_tokens <= u64::MAX,
        before.completion_tokens + turn.completion_tokens <= u64::MAX,
        before.total_tokens + turn.total_tokens <= u64::MAX,
    ensures
        ({
            let after = usage_sum(before, turn);
            &&& floored_difference(after.prompt_tokens, before.prompt_tokens) == turn.prompt_tokens
            &&& floored_difference(after.completion_tokens, before.completion_tokens) == turn.completion_tokens
            &&& floored_difference(after.total_tokens, before.total_tokens) == turn.total_tokens
        }),
{
}

/// The message of a budget of tokens that is spent.
pub open spec fn tokens_spent(total: u64, cap: u64) -> Seq<char> {
    "模型用量预算已超限：累计 "@ + decimal(total as nat) + " tokens ≥ 上限 "@ + decimal(cap as nat)
}

/// Why no more may be used: the tokens have reached their limit, else what the
/// reckoning of the cost found.
pub fn budget_violation(
    usage: &TokenUsage,
    total_tokens_cap: Option<u64>,
    cost_violation: Option<String>,
) -> (r: Option<String>)
    ensures
        if total_tokens_cap matches Some(cap) && usage.total_tokens >= cap {
            r matches Some(m) && m@ == tokens_spent(usage.total_tokens, total_tokens_cap->0)
        } else {
            r == cost_violation
        },
{
    if let Some(cap) = total_tokens_cap {
        if usage.total_tokens >= cap {
            let mut m = copy_str("模型用量预算已超限：累计 ");
            m.append(decimal_text(usage.total_tokens).as_str());
            m.append(" tokens ≥ 上限 ");
            m.append(decimal_text(cap).as_str());
            return Some(m);
        }
    }
    cost_violation
}

/// The first of two numbers that is there; zero where neither is.
pub open spec fn either_count(a: Option<int>, b: Option<int>) -> u64 {
    match a {
        Some(n) => n as u64,
        None => match b {
            Some(n) => n as u64,
            None => 0,
        },
    }
}

/// The usage that a reply states, under either of the names that servers use.
pub open spec fn usage_of(m: JsonModel) -> TokenUsage {
    let prompt = either_count(count_member(m, "prompt_tokens"@), count_member(m, "prompt_eval_count"@));
    let completion = either_count(count_member(m, "completion_tokens"@), count_member(m, "eval_count"@));
    TokenUsage {
        prompt_tokens: prompt,
        completion_tokens: completion,
        total_tokens: match count_member(m, "total_tokens"@) {
            Some(n) => n as u64,
            None => capped_sum(prompt, completion),
        },
    }
}

fn count_of_either(usage: &Json, a: &str, b: &str) -> (r: u64)
    ensures
        r == either_count(count_member(usage.model(), a@), count_member(usage.model(), b@)),
{
    match usage.count_at(a) {
        Some(n) => n,
        None => match usage.count_at(b) {
            Some(n) => n,
            None => 0,
        },
    }
}

/// Reads the usage that a reply states. What is no object states none.
pub fn parse_usage_value(usage: &Json) -> (r: TokenUsage)
    ensures
        r == usage_of(usage.model()),
        !(usage.model() is Table) ==> r == no_usage(),
{
    let prompt: u64 = count_of_either(usage, "prompt_tokens", "prompt_eval_count");
    let completion: u64 = count_of_either(usage, "completion_tokens", "eval_count");
    let total: u64 = match usage.count_at("total_tokens") {
        Some(n) => n,
        None => prompt.saturating_add(completion),
    };
    TokenUsage { prompt_tokens: prompt, completion_tokens: completion, total_tokens: total }
}

// ---------------------------------------------------------------------------
// Output
// ---------------------------------------------------------------------------

/// What the model answers: a text, or calls of tools.
pub enum ModelOutput {
    Text(String),
    ToolCalls(Vec<ToolCall>),
}

/// What an answer says.
pub enum OutputModel {
    Text(Seq<char>),
    ToolCalls(Seq<CallModel>),
}

impl ModelOutput {
    pub open spec fn model(self) -> OutputModel {
        match self {
            ModelOutput::Text(t) => OutputModel::Text(t@),
            ModelOutput::ToolCalls(v) => OutputModel::ToolCalls(calls_model(v@)),
        }
    }

    /// What a model that answers all at once shows of its answer while it comes
    /// in: the whole text.
    pub fn shown_at_once(&self) -> (r: Option<String>)
        ensures
            match r {
                Some(t) => self.model() == OutputModel::Text(t@),
                None => self.model() is ToolCalls,
            },
    {
        match self {
            ModelOutput::Text(t) => Some(t.clone()),
            ModelOutput::ToolCalls(_) => None,
        }
    }
}

// ---------------------------------------------------------------------------
// Configuration
// ---------------------------------------------------------------------------

/// How the model is reached.
pub struct OpenAiCompatibleConfig {
    pub base_url: String,
    pub api_key: String,
    pub model: String,
    /// Whether anything may be sent to the model.
    pub cloud_enabled: bool,
}

/// The truth value that a text spells.
pub open spec fn spelt_bool(s: Option<String>, otherwise: bool) -> bool {
    match s {
        Some(t) => if t@ == "true"@ {
            true
        } else if t@ == "false"@ {
            false
        } else {
            otherwise
        },
        None => otherwise,
    }
}

/// A text, or another where it is missing.
pub open spec fn text_or(s: Option<String>, otherwise: Seq<char>) -> Seq<char> {
    match s {
        Some(t) => t@,
        None => otherwise,
    }
}

fn parse_bool_or(s: &Option<String>, otherwise: bool) -> (r: bool)
    ensures
        r == spelt_bool(*s, otherwise),
{
    match s {
        Some(t) => {
            if same_text(t.as_str(), "true") {
                true
            } else if same_text(t.as_str(), "false") {
                false
            } else {
                otherwise
            }
        },
        None => otherwise,
    }
}

impl OpenAiCompatibleConfig {
    /// The configuration from the values of the environment.
    pub fn from_env(
        api_key: Option<String>,
        base_url: Option<String>,
        model: Option<String>,
        cloud_enabled: Option<String>,
    ) -> (r: Result<OpenAiCompatibleConfig, String>)
        ensures
            match r {
                Ok(c) => {
                    &&& api_key == Some(c.api_key)
                    &&& c.base_url@ == text_or(base_url, "https://api.openai.com/v1"@)
                    &&& c.model@ == text_or(model, "deepseek-v4-flash"@)
                    &&& c.cloud_enabled == spelt_bool(cloud_enabled, true)
                },
                Err(e) => api_key is None && e@
                    == "缺少 OPENAI_API_KEY 环境变量（或设置 OPENAI_BASE_URL 指向本地兼容端点）"@,
            },
    {
        match api_key {
            Some(api_key) => {
                let cloud = parse_bool_or(&cloud_enabled, true);
                let base_url = match base_url {
                    Some(u) => u,
                    None => copy_str("https://api.openai.com/v1"),
                };
                let model = match model {
                    Some(m) => m,
                    None => copy_str("deepseek-v4-flash"),
                };
                Ok(OpenAiCompatibleConfig { base_url, api_key, model, cloud_enabled: cloud })
            },
            None => Err(copy_str("缺少 OPENAI_API_KEY 环境变量（或设置 OPENAI_BASE_URL 指向本地兼容端点）")),
        }
    }

    /// Whether anything may be sent: what the environment says now, else the
    /// configuration.
    pub fn cloud_enabled(&self, now: &Option<String>) -> (r: bool)
        ensures
            r == spelt_bool(*now, self.cloud_enabled),
    {
        parse_bool_or(now, self.cloud_enabled)
    }

    /// The model: what the environment names now, unless it is blank, else that
    /// of the configuration.
    pub fn model(&self, now: Option<String>) -> (r: String)
        ensures
            r@ == self.current_model(now),
    {
        match now {
            Some(m) => {
                if blank(m.as_str()) {
                    self.model.clone()
                } else {
                    m
                }
            },
            None => self.model.clone(),
        }
    }

    pub open spec fn current_model(self, now: Option<String>) -> Seq<char> {
        if now matches Some(m) && !is_blank(m@) {
            now->0@
        } else {
            self.model@
        }
    }

    /// Where requests go.
    pub fn endpoint(&self) -> (r: String)
        ensures
            r@ == without_slashes(self.base_url@) + "/chat/completions"@,
    {
        endpoint(self.base_url.as_str(), "/chat/completions")
    }
}

/// The text without the slashes at its end.
pub open spec fn without_slashes(s: Seq<char>) -> Seq<char>
    decreases s.len(),
{
    if s.len() > 0 && s.last() == '/' {
        without_slashes(s.drop_last())
    } else {
        s
    }
}

fn trim_slashes(s: &str) -> (r: String)
    ensures
        r@ == without_slashes(s@),
{
    let v = chars_of(s);
    let mut n: usize = v.len();
    assert(v@.take(n as int) =~= s@);
    while n > 0 && v[n - 1] == '/'
        invariant
            v@ == s@,
            n <= v@.len(),
            without_slashes(s@) == without_slashes(v@.take(n as int)),
        decreases n,
    {
        assert(v@.take(n as int).drop_last() =~= v@.take(n - 1));
        n -= 1;
    }
    assert(v@.subrange(0, n as int) =~= v@.take(n as int));
    string_of(&v, 0, n)
}

/// An address below a base.
pub fn endpoint(base: &str, path: &str) -> (r: String)
    ensures
        r@ == without_slashes(base@) + path@,
{
    let mut r = trim_slashes(base);
    r.append(path);
    r
}

/// The proxy to use: the first that is named and not blank.
pub fn choose_proxy(named: &Vec<Option<String>>) -> (r: Option<usize>)
    ensures
        match r {
            Some(i) => i < named@.len() && names_proxy(named@[i as int]) && forall|j: int|
                0 <= j < i ==> !names_proxy(#[trigger] named@[j]),
            None => forall|j: int| 0 <= j < named@.len() ==> !names_proxy(#[trigger] named@[j]),
        },
{
    for i in 0..named.len()
        invariant
            forall|j: int| 0 <= j < i ==> !names_proxy(#[trigger] named@[j]),
    {
        if let Some(p) = &named[i] {
            if !blank(p.as_str()) {
                return Some(i);
            }
        }
    }
    None
}

pub open spec fn names_proxy(p: Option<String>) -> bool {
    p matches Some(t) && !is_blank(t@)
}

/// Why a request is refused before anything is sent.
pub fn request_refusal(cloud_enabled: bool, budget: Option<String>) -> (r: Option<String>)
    ensures
        if cloud_enabled {
            r == budget
        } else {
            r matches Some(m) && m@ == "云端模型已禁用（数据出境开关关闭）"@
        },
{
    if !cloud_enabled {
        return Some(copy_str("云端模型已禁用（数据出境开关关闭）"));
    }
    budget
}

/// What came of sending a request.
pub enum PostOutcome {
    /// The server answers.
    Accepted,
    /// The server refuses; its status and what it said.
    Refused(String, String),
    /// The request did not reach the server.
    Unsent(String),
}

/// What to do next.
pub enum PostNext {
    Deliver,
    /// Send once more, without the proxy.
    RetryDirect,
    Fail(String),
}

/// How sending goes on: a request that does not get through is sent once more
/// without the proxy, where there was one; a refusal is final.
pub fn after_post(direct_retry_left: bool, is_direct: bool, outcome: PostOutcome) -> (r: PostNext)
    ensures
        match outcome {
            PostOutcome::Accepted => r is Deliver,
            PostOutcome::Refused(status, text) => r matches PostNext::Fail(e) && e@ == "模型返回 "@ + status@ + "："@
                + text@,
            PostOutcome::Unsent(error) => if direct_retry_left {
                r is RetryDirect
            } else {
                r matches PostNext::Fail(e) && e@ == "模型请求失败："@ + (if is_direct {
                    "direct"@
                } else {
                    "proxy"@
                }) + ": "@ + error@
            },
        },
{
    match outcome {
        PostOutcome::Accepted => PostNext::Deliver,
        PostOutcome::Refused(status, text) => {
            let mut e = copy_str("模型返回 ");
            e.append(status.as_str());
            e.append("：");
            e.append(text.as_str());
            PostNext::Fail(e)
        },
        PostOutcome::Unsent(error) => {
            if direct_retry_left {
                PostNext::RetryDirect
            } else {
                let mut e = copy_str("模型请求失败：");
                e.append(
                    if is_direct {
                        "direct"
                    } else {
                        "proxy"
                    },
                );
                e.append(": ");
                e.append(error.as_str());
                PostNext::Fail(e)
            }
        },
    }
}

// ---------------------------------------------------------------------------
// Request
// ---------------------------------------------------------------------------

pub open spec fn empty_table() -> Map<Seq<char>, JsonModel> {
    Map::<Seq<char>, JsonModel>::empty()
}

/// A tool as it is offered to the model.
pub open spec fn tool_wire(t: ToolModel) -> JsonModel {
    JsonModel::Table(
        empty_table().insert("type"@, JsonModel::Text("function"@)).insert(
            "function"@,
            JsonModel::Table(
                empty_table().insert("name"@, JsonModel::Text(t.name)).insert(
                    "description"@,
                    JsonModel::Text(t.description),
                ).insert("parameters"@, t.input_schema),
            ),
        ),
    )
}

/// A call as it is told to the model; the arguments travel as JSON text.
pub open spec fn call_wire(c: CallModel) -> JsonModel {
    JsonModel::Table(
        empty_table().insert("id"@, JsonModel::Text(c.id)).insert("type"@, JsonModel::Text("function"@)).insert(
            "function"@,
            JsonModel::Table(
                empty_table().insert("name"@, JsonModel::Text(c.name)).insert(
                    "arguments"@,
                    JsonModel::Text(json_text(c.arguments)),
                ),
            ),
        ),
    )
}

/// The members of a message as it is told to the model.
pub open spec fn message_members(m: ChatModel) -> Map<Seq<char>, JsonModel> {
    let head = empty_table().insert("role"@, JsonModel::Text(m.role)).insert(
        "content"@,
        match m.content {
            Some(c) => JsonModel::Text(c),
            None => JsonModel::Null,
        },
    );
    let tagged = match m.tool_call_id {
        Some(i) => head.insert("tool_call_id"@, JsonModel::Text(i)),
        None => head,
    };
    match m.tool_calls {
        Some(v) => tagged.insert("tool_calls"@, JsonModel::List(v.map_values(|c: CallModel| call_wire(c)))),
        None => tagged,
    }
}

pub open spec fn message_wire(m: ChatModel) -> JsonModel {
    JsonModel::Table(message_members(m))
}

/// The body of a request.
pub open spec fn body_model(
    model: Seq<char>,
    messages: Seq<ChatModel>,
    tools: Seq<ToolModel>,
    stream: bool,
) -> JsonModel {
    let head = empty_table().insert("model"@, JsonModel::Text(model)).insert(
        "messages"@,
        JsonModel::List(messages.map_values(|m: ChatModel| message_wire(m))),
    ).insert("stream"@, JsonModel::Bool(stream));
    if tools.len() == 0 {
        JsonModel::Table(head)
    } else {
        JsonModel::Table(head.insert("tools"@, JsonModel::List(tools.map_values(|t: ToolModel| tool_wire(t)))))
    }
}

fn tool_json(t: &ToolSpec) -> (r: Json)
    ensures
        r.model() == tool_wire(t.model()),
{
    let function = Json::table().with("name", Json::text(t.name.as_str())).with(
        "description",
        Json::text(t.description.as_str()),
    ).with("parameters", t.input_schema.clone());
    Json::table().with("type", Json::text("function")).with("function", function)
}

fn call_json(c: &ToolCall) -> (r: Json)
    ensures
        r.model() == call_wire(c@),
{
    let function = Json::table().with("name", Json::text(c.name.as_str())).with(
        "arguments",
        Json::Text(c.arguments.to_text()),
    );
    Json::table().with("id", Json::text(c.id.as_str())).with("type", Json::text("function")).with("function", function)
}

fn calls_json(v: &Vec<ToolCall>) -> (r: Json)
    ensures
        r.model() == JsonModel::List(calls_model(v@).map_values(|c: CallModel| call_wire(c))),
{
    let mut list: Vec<Json> = Vec::new();
    for i in 0..v.len()
        invariant
            list@.len() == i,
            forall|j: int| 0 <= j < i ==> (#[trigger] list@[j]).model() == call_wire(v@[j]@),
    {
        list.push(call_json(&v[i]));
    }
    proof {
        list_model_elements(list@);
        assert(list_model(list@) =~= calls_model(v@).map_values(|c: CallModel| call_wire(c)));
    }
    Json::List(list)
}

fn message_json(m: &ChatMessage) -> (r: Json)
    ensures
        r.model() == message_wire(m@),
{
    let content = match &m.content {
        Some(c) => Json::text(c.as_str()),
        None => Json::Null,
    };
    let mut wire = Json::table().with("role", Json::text(m.role.as_str())).with("content", content);
    if let Some(i) = &m.tool_call_id {
        wire = wire.with("tool_call_id", Json::text(i.as_str()));
    }
    if let Some(v) = &m.tool_calls {
        wire = wire.with("tool_calls", calls_json(v));
    }
    wire
}

/// The body of a request to the model.
pub fn request_body(model: &str, messages: &Vec<ChatMessage>, tools: &Vec<ToolSpec>, stream: bool) -> (r: Json)
    ensures
        r.model() == body_model(model@, chat_model(messages@), spec_models(tools@), stream),
{
    let mut wires: Vec<Json> = Vec::new();
    for i in 0..messages.len()
        invariant
            wires@.len() == i,
            forall|j: int| 0 <= j < i ==> (#[trigger] wires@[j]).model() == message_wire(messages@[j]@),
    {
        wires.push(message_json(&messages[i]));
    }
    proof {
        list_model_elements(wires@);
        assert(list_model(wires@) =~= chat_model(messages@).map_values(|m: ChatModel| message_wire(m)));
    }
    let mut offered: Vec<Json> = Vec::new();
    for i in 0..tools.len()
        invariant
            offered@.len() == i,
            forall|j: int| 0 <= j < i ==> (#[trigger] offered@[j]).model() == tool_wire(tools@[j].model()),
    {
        offered.push(tool_json(&tools[i]));
    }
    proof {
        list_model_elements(offered@);
        assert(list_model(offered@) =~= spec_models(tools@).map_values(|t: ToolModel| tool_wire(t)));
    }
    let mut body = Json::table().with("model", Json::text(model)).with("messages", Json::List(wires)).with(
        "stream",
        Json::Bool(stream),
    );
    if offered.len() > 0 {
        body = body.with("tools", Json::List(offered));
    }
    body
}

// ---------------------------------------------------------------------------
// Whole answers
// ---------------------------------------------------------------------------

/// The first of the choices in a reply.
pub open spec fn first_choice(m: JsonModel) -> Option<JsonModel> {
    match member(m, "choices"@) {
        Some(JsonModel::List(l)) => if l.len() > 0 {
            Some(l[0])
        } else {
            None
        },
        Some(c) => member(c, "0"@),
        None => None,
    }
}

/// The member `key` of the first choice.
pub open spec fn in_first_choice(m: JsonModel, key: Seq<char>) -> Option<JsonModel> {
    match first_choice(m) {
        Some(c) => member(c, key),
        None => None,
    }
}

/// The text under `key` in the function that a call names.
pub open spec fn function_text(call: JsonModel, key: Seq<char>) -> Option<Seq<char>> {
    match member(call, "function"@) {
        Some(f) => text_member(f, key),
        None => None,
    }
}

/// The value of a JSON text; nothing is null.
pub open spec fn parsed_or_null(text: Option<Seq<char>>) -> JsonModel {
    match text {
        Some(t) => or_null(parsed_json(t)),
        None => JsonModel::Null,
    }
}

/// The call that a value describes; it needs an identifier and a name.
pub open spec fn described_call(m: JsonModel) -> Option<CallModel> {
    match (text_member(m, "id"@), function_text(m, "name"@)) {
        (Some(id), Some(name)) => Some(
            CallModel { id, name, arguments: parsed_or_null(function_text(m, "arguments"@)) },
        ),
        _ => None,
    }
}

pub open spec fn described_calls(v: Seq<JsonModel>) -> Seq<CallModel>
    decreases v.len(),
{
    if v.len() == 0 {
        seq![]
    } else {
        match described_call(v.last()) {
            Some(c) => described_calls(v.drop_last()).push(c),
            None => described_calls(v.drop_last()),
        }
    }
}

/// The calls in a message.
pub open spec fn message_calls(m: JsonModel) -> Seq<CallModel> {
    match list_member(m, "tool_calls"@) {
        Some(v) => described_calls(v),
        None => seq![],
    }
}

/// What a whole reply answers: the calls in its message, else its text.
pub open spec fn answer_of(payload: JsonModel) -> Result<OutputModel, Seq<char>> {
    match in_first_choice(payload, "message"@) {
        None => Err("响应缺少 choices[0].message"@),
        Some(m) => if message_calls(m).len() > 0 {
            Ok(OutputModel::ToolCalls(message_calls(m)))
        } else {
            match text_member(m, "content"@) {
                Some(t) => Ok(OutputModel::Text(t)),
                None => Err("模型响应既无文本也无工具调用"@),
            }
        },
    }
}

/// `r` holds what `m` says.
pub open spec fn answers(r: Result<ModelOutput, String>, m: Result<OutputModel, Seq<char>>) -> bool {
    match r {
        Ok(o) => m == Ok::<OutputModel, Seq<char>>(o.model()),
        Err(e) => m == Err::<OutputModel, Seq<char>>(e@),
    }
}

pub fn find_in_first_choice<'a>(payload: &'a Json, key: &str) -> (r: Option<&'a Json>)
    ensures
        match r {
            Some(j) => in_first_choice(payload.model(), key@) == Some(j.model()),
            None => in_first_choice(payload.model(), key@) is None,
        },
{
    match payload.get("choices") {
        Some(c) => {
            match c {
                Json::List(l) => {
                    proof {
                        list_model_elements(l@);
                    }
                    if l.len() > 0 {
                        l[0].get(key)
                    } else {
                        None
                    }
                },
                _ => match c.get("0") {
                    Some(first) => first.get(key),
                    None => None,
                },
            }
        },
        None => None,
    }
}

pub fn find_function_text<'a>(call: &'a Json, key: &str) -> (r: Option<&'a String>)
    ensures
        match r {
            Some(t) => function_text(call.model(), key@) == Some(t@),
            None => function_text(call.model(), key@) is None,
        },
{
    match call.get("function") {
        Some(f) => f.text_at(key),
        None => None,
    }
}

fn parse_or_null(text: Option<&String>) -> (r: Json)
    ensures
        r.model() == parsed_or_null(
            match text {
                Some(t) => Some(t@),
                None => None,
            },
        ),
{
    match text {
        Some(t) => match parse_json(t.as_str()) {
            Some(j) => j,
            None => Json::Null,
        },
        None => Json::Null,
    }
}

fn read_call(value: &Json) -> (r: Option<ToolCall>)
    ensures
        match r {
            Some(c) => described_call(value.model()) == Some(c@),
            None => described_call(value.model()) is None,
        },
{
    match (value.text_at("id"), find_function_text(value, "name")) {
        (Some(id), Some(name)) => {
            let arguments = parse_or_null(find_function_text(value, "arguments"));
            Some(ToolCall { id: id.clone(), name: name.clone(), arguments })
        },
        _ => None,
    }
}

fn read_calls(message: &Json) -> (r: Vec<ToolCall>)
    ensures
        calls_model(r@) == message_calls(message.model()),
{
    let mut calls: Vec<ToolCall> = Vec::new();
    match message.list_at("tool_calls") {
        Some(v) => {
            let ghost all = list_model(v@);
            proof {
                list_model_elements(v@);
                assert(calls_model(calls@) =~= described_calls(all.take(0)));
            }
            for i in 0..v.len()
                invariant
                    all == list_model(v@),
                    all.len() == v@.len(),
                    forall|j: int| 0 <= j < v@.len() ==> #[trigger] all[j] == v@[j].model(),
                    calls_model(calls@) == described_calls(all.take(i as int)),
            {
                let ghost before = calls@;
                proof {
                    assert(all.take(i + 1).drop_last() =~= all.take(i as int));
                    assert(all[i as int] == v@[i as int].model());
                }
                if let Some(call) = read_call(&v[i]) {
                    let ghost m = call@;
                    calls.push(call);
                    assert(calls_model(calls@) =~= calls_model(before).push(m));
                }
            }
            assert(all.take(all.len() as int) =~= all);
        },
        None => {
            assert(calls_model(calls@) =~= seq![]);
        },
    }
    calls
}

/// Reads a whole reply; what it used is added to `usage`, also where the reply
/// cannot be used.
pub fn read_completion(payload: &Json, usage: &mut TokenUsage) -> (r: Result<ModelOutput, String>)
    ensures
        answers(r, answer_of(payload.model())),
        *final(usage) == usage_sum(*old(usage), usage_of(or_null(member(payload.model(), "usage"@)))),
{
    let used = match payload.get("usage") {
        Some(u) => parse_usage_value(u),
        None => parse_usage_value(&Json::Null),
    };
    usage.add(&used);
    let message = match find_in_first_choice(payload, "message") {
        Some(m) => m,
        None => {
            return Err(copy_str("响应缺少 choices[0].message"));
        },
    };
    let calls = read_calls(message);
    assert(calls_model(calls@).len() == calls@.len());
    if calls.len() > 0 {
        return Ok(ModelOutput::ToolCalls(calls));
    }
    match message.text_at("content") {
        Some(t) => Ok(ModelOutput::Text(t.clone())),
        None => Err(copy_str("模型响应既无文本也无工具调用")),
    }
}

// ---------------------------------------------------------------------------
// Laws
// ---------------------------------------------------------------------------

/// What was used adds up, up to the largest number there is.
pub proof fn usage_adds_up(a: TokenUsage, b: TokenUsage)
    ensures
        usage_sum(a, b) == usage_sum(b, a),
        usage_sum(a, no_usage()) == a,
        a.prompt_tokens + b.prompt_tokens <= u64::MAX ==> usage_sum(a, b).prompt_tokens == a.prompt_tokens
            + b.prompt_tokens,
        a.completion_tokens + b.completion_tokens <= u64::MAX ==> usage_sum(a, b).completion_tokens
            == a.completion_tokens + b.completion_tokens,
        a.total_tokens + b.total_tokens <= u64::MAX ==> usage_sum(a, b).total_tokens == a.total_tokens
            + b.total_tokens,
        a.total_tokens + b.total_tokens > u64::MAX ==> usage_sum(a, b).total_tokens == u64::MAX,
        no_usage().total_tokens == 0 && no_usage().prompt_tokens == 0 && no_usage().completion_tokens == 0,
{
}

/// The usage is read under either of its names, the first before the second; a total
/// that is not stated is the sum of the two parts, and what is not stated is nothing.
pub proof fn usage_is_read_under_either_name(m: JsonModel, p: u64, c: u64, t: u64)
    ensures
        member(m, "prompt_tokens"@) == Some(JsonModel::Int(p as int)) ==> usage_of(m).prompt_tokens == p,
        member(m, "prompt_tokens"@) is None && member(m, "prompt_eval_count"@) == Some(JsonModel::Int(p as int))
            ==> usage_of(m).prompt_tokens == p,
        member(m, "prompt_tokens"@) is None && member(m, "prompt_eval_count"@) is None ==> usage_of(m).prompt_tokens
            == 0,
        member(m, "completion_tokens"@) == Some(JsonModel::Int(c as int)) ==> usage_of(m).completion_tokens == c,
        member(m, "completion_tokens"@) is None && member(m, "eval_count"@) == Some(JsonModel::Int(c as int))
            ==> usage_of(m).completion_tokens == c,
        member(m, "completion_tokens"@) is None && member(m, "eval_count"@) is None ==> usage_of(m).completion_tokens
            == 0,
        member(m, "total_tokens"@) == Some(JsonModel::Int(t as int)) ==> usage_of(m).total_tokens == t,
        member(m, "total_tokens"@) is None && usage_of(m).prompt_tokens + usage_of(m).completion_tokens <= u64::MAX
            ==> usage_of(m).total_tokens == usage_of(m).prompt_tokens + usage_of(m).completion_tokens,
{
}

/// A switch is on or off where it says so, and else as it was.
pub proof fn switches_say_true_or_false(s: String, otherwise: bool)
    ensures
        s@ == "true"@ ==> spelt_bool(Some(s), otherwise),
        s@ == "false"@ ==> !spelt_bool(Some(s), otherwise),
        s@ != "true"@ && s@ != "false"@ ==> spelt_bool(Some(s), otherwise) == otherwise,
        spelt_bool(None, otherwise) == otherwise,
{
    reveal_strlit("true");
    reveal_strlit("false");
    assert("true"@.len() == 4 && "false"@.len() == 5);
}

/// Slashes at the end of an address are taken off, however many, and nothing else is.
pub proof fn slashes_at_the_end_go(s: Seq<char>)
    ensures
        without_slashes(s.push('/')) == without_slashes(s),
        s.len() == 0 || s.last() != '/' ==> without_slashes(s) == s,
{
    assert(s.push('/').drop_last() =~= s);
}

proof fn wire_names_differ()
    ensures
        "role"@ != "content"@ && "role"@ != "tool_call_id"@ && "role"@ != "tool_calls"@,
        "content"@ != "tool_call_id"@ && "content"@ != "tool_calls"@ && "tool_call_id"@ != "tool_calls"@,
        "id"@ != "type"@ && "id"@ != "function"@ && "type"@ != "function"@,
        "name"@ != "arguments"@ && "name"@ != "description"@ && "name"@ != "parameters"@ && "description"@
            != "parameters"@,
        "model"@ != "messages"@ && "model"@ != "stream"@ && "model"@ != "tools"@ && "messages"@ != "stream"@
            && "messages"@ != "tools"@ && "stream"@ != "tools"@,
{
    reveal_strlit("role");
    reveal_strlit("content");
    reveal_strlit("tool_call_id");
    reveal_strlit("tool_calls");
    reveal_strlit("id");
    reveal_strlit("type");
    reveal_strlit("function");
    reveal_strlit("name");
    reveal_strlit("arguments");
    reveal_strlit("description");
    reveal_strlit("parameters");
    reveal_strlit("model");
    reveal_strlit("messages");
    reveal_strlit("stream");
    reveal_strlit("tools");
    assert("role"@[0] == 'r' && "content"@[0] == 'c' && "tool_call_id"@.len() == 12 && "tool_calls"@.len() == 10
        && "tool_calls"@[0] == 't' && "tool_call_id"@[0] == 't');
    assert("id"@.len() == 2 && "type"@.len() == 4 && "function"@.len() == 8);
    assert("name"@.len() == 4 && "arguments"@.len() == 9 && "description"@.len() == 11 && "parameters"@.len() == 10);
    assert("model"@.len() == 5 && "messages"@.len() == 8 && "stream"@.len() == 6 && "tools"@.len() == 5 && "tools"@[0]
        == 't' && "model"@[0] == 'm');
}

/// The model is told every message, in order and whole: who speaks, what is said,
/// which call is answered and which calls are made.
pub proof fn the_model_is_told_every_message(
    model: Seq<char>,
    messages: Seq<ChatModel>,
    tools: Seq<ToolModel>,
    stream: bool,
    i: int,
    j: int,
)
    requires
        0 <= i < messages.len(),
    ensures
        ({
            let body = body_model(model, messages, tools, stream);
            &&& member(body, "model"@) == Some(JsonModel::Text(model))
            &&& member(body, "stream"@) == Some(JsonModel::Bool(stream))
            &&& member(body, "messages"@) matches Some(JsonModel::List(l)) && {
                &&& l.len() == messages.len()
                &&& member(l[i], "role"@) == Some(JsonModel::Text(messages[i].role))
                &&& messages[i].content matches Some(c) ==> member(l[i], "content"@) == Some(JsonModel::Text(c))
                &&& messages[i].content is None ==> member(l[i], "content"@) == Some(JsonModel::Null)
                &&& messages[i].tool_call_id matches Some(c) ==> member(l[i], "tool_call_id"@) == Some(JsonModel::Text(c))
                &&& messages[i].tool_call_id is None ==> member(l[i], "tool_call_id"@) is None
                &&& messages[i].tool_calls is None ==> member(l[i], "tool_calls"@) is None
                &&& messages[i].tool_calls matches Some(calls) ==> (member(l[i], "tool_calls"@) matches Some(
                    JsonModel::List(w),
                ) && w.len() == calls.len() && (0 <= j < calls.len() ==> member(w[j], "id"@) == Some(
                    JsonModel::Text(calls[j].id),
                ) && (member(w[j], "function"@) matches Some(f) && member(f, "name"@) == Some(
                    JsonModel::Text(calls[j].name),
                ) && member(f, "arguments"@) == Some(JsonModel::Text(json_text(calls[j].arguments))))))
            }
        }),
{
    wire_names_differ();
}

/// The model is offered every tool with its name, what it is for and what it takes,
/// and no list of tools where there are none.
pub proof fn the_model_is_offered_every_tool(
    model: Seq<char>,
    messages: Seq<ChatModel>,
    tools: Seq<ToolModel>,
    stream: bool,
    i: int,
)
    ensures
        tools.len() == 0 ==> member(body_model(model, messages, tools, stream), "tools"@) is None,
        0 <= i < tools.len() ==> (member(body_model(model, messages, tools, stream), "tools"@) matches Some(
            JsonModel::List(l),
        ) && l.len() == tools.len() && (member(l[i], "function"@) matches Some(f) && member(f, "name"@) == Some(
            JsonModel::Text(tools[i].name),
        ) && member(f, "description"@) == Some(JsonModel::Text(tools[i].description)) && member(f, "parameters"@)
            == Some(tools[i].input_schema))),
{
    wire_names_differ();
}

/// A call that is told to the model and read again is the same call, with what its
/// arguments are read as.
pub proof fn told_calls_are_read_again(c: CallModel)
    ensures
        described_call(call_wire(c)) matches Some(d) && d.id == c.id && d.name == c.name && (parsed_json(
            json_text(c.arguments),
        ) matches Some(a) ==> d.arguments == a),
{
    wire_names_differ();
}

/// Of the values that describe calls, each that has an identifier and a name is a
/// call, in their order, and no other is.
pub proof fn described_calls_are_the_calls(a: Seq<JsonModel>, m: JsonModel, f: JsonModel, id: Seq<char>, name: Seq<char>)
    ensures
        described_calls(seq![]) == Seq::<CallModel>::empty(),
        member(m, "id"@) == Some(JsonModel::Text(id)) && member(m, "function"@) == Some(f) && member(f, "name"@) == Some(
            JsonModel::Text(name),
        ) ==> described_calls(a.push(m)).len() == described_calls(a).len() + 1 && described_calls(a.push(m)).drop_last()
            == described_calls(a) && described_calls(a.push(m)).last().id == id && described_calls(a.push(m)).last().name
            == name,
        member(m, "id"@) is None || member(m, "function"@) is None ==> described_calls(a.push(m)) == described_calls(a),
{
    assert(a.push(m).drop_last() =~= a);
    if member(m, "id"@) == Some(JsonModel::Text(id)) && member(m, "function"@) == Some(f) && member(f, "name"@) == Some(
        JsonModel::Text(name),
    ) {
        assert(described_calls(a.push(m)).drop_last() =~= described_calls(a));
    }
}

/// An answer is read from the message of the first choice: its calls where it makes
/// any, else its text.
pub proof fn answers_are_calls_or_text(
    payload: JsonModel,
    choices: Seq<JsonModel>,
    message: JsonModel,
    l: Seq<JsonModel>,
    t: Seq<char>,
)
    requires
        member(payload, "choices"@) == Some(JsonModel::List(choices)),
        choices.len() > 0,
        member(choices[0], "message"@) == Some(message),
    ensures
        member(message, "tool_calls"@) == Some(JsonModel::List(l)) && described_calls(l).len() > 0 ==> answer_of(payload)
            == Ok::<OutputModel, Seq<char>>(OutputModel::ToolCalls(described_calls(l))),
        (member(message, "tool_calls"@) is None || (member(message, "tool_calls"@) == Some(JsonModel::List(l))
            && described_calls(l).len() == 0)) && member(message, "content"@) == Some(JsonModel::Text(t)) ==> answer_of(
            payload,
        ) == Ok::<OutputModel, Seq<char>>(OutputModel::Text(t)),
        member(message, "tool_calls"@) is None && member(message, "content"@) is None ==> answer_of(payload) is Err,
{
}

/// The model that is asked is the one that was set last, unless that is blank.
pub proof fn the_model_set_last_is_asked(c: OpenAiCompatibleConfig, now: String)
    ensures
        !is_blank(now@) ==> c.current_model(Some(now)) == now@,
        is_blank(now@) ==> c.current_model(Some(now)) == c.model@,
        c.current_model(None) == c.model@,
{
}

/// A proxy is named by what is set and is not blank.
pub proof fn blank_names_are_no_proxy(t: String)
    ensures
        names_proxy(Some(t)) <==> exists|i: int| 0 <= i < t@.len() && !crate::text::is_space(#[trigger] t@[i]),
        !names_proxy(None),
{
}

} // verus!
