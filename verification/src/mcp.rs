//! Servers of tools: the JSON-RPC messages of a client, the handshake with a
//! server, and the reading of its replies.

use crate::json::{
    bool_member, json_text, list_member, list_model, list_model_elements, member, parse_json, parsed_json,
    text_member, count_member, Json, JsonModel,
};
use crate::text::{
    after_prefix, begins_with, contains_text, copy_str, finishes_with, has_text, join, joined, lines_of, lowercase,
    parts_stand_in_the_whole, same_text, split_lines,
    strip_prefix, texts, trim, trimmed, unicode_lower,
};
use vstd::prelude::*;

verus! {

/// The version of the protocol that a client speaks.
pub const MCP_PROTOCOL_VERSION: &'static str = "2025-06-18";

/// The transport of a server that names none.
pub fn default_transport() -> (r: String)
    ensures
        r@ == "stdio"@,
{
    copy_str("stdio")
}

/// How a server of tools is reached.
pub struct McpServerConfig {
    pub name: String,
    /// `stdio` or `http`.
    pub transport: String,
    pub command: String,
    pub args: Vec<String>,
    /// Where the server listens, with `http`.
    pub url: Option<String>,
    pub timeout_ms: Option<u64>,
}

impl Clone for McpServerConfig {
    fn clone(&self) -> (r: McpServerConfig)
        ensures
            r.name == self.name,
            r.transport == self.transport,
            r.command == self.command,
            r.args@ == self.args@,
            r.url == self.url,
            r.timeout_ms == self.timeout_ms,
    {
        let args = crate::text::copy_strings(&self.args);
        McpServerConfig {
            name: self.name.clone(),
            transport: self.transport.clone(),
            command: self.command.clone(),
            args,
            url: self.url.clone(),
            timeout_ms: self.timeout_ms,
        }
    }
}

impl McpServerConfig {
    /// A server that is started as a process.
    pub fn stdio(name: String, command: String, args: Vec<String>) -> (r: McpServerConfig)
        ensures
            r.name == name,
            r.transport@ == "stdio"@,
            r.command == command,
            r.args == args,
            r.url is None,
            r.timeout_ms is None,
    {
        McpServerConfig { name, transport: copy_str("stdio"), command, args, url: None, timeout_ms: None }
    }

    /// A server that listens at an address.
    pub fn http(name: String, url: String) -> (r: McpServerConfig)
        ensures
            r.name == name,
            r.transport@ == "http"@,
            r.command@.len() == 0,
            r.args@.len() == 0,
            r.url == Some(url),
            r.timeout_ms is None,
    {
        McpServerConfig {
            name,
            transport: copy_str("http"),
            command: String::new(),
            args: Vec::new(),
            url: Some(url),
            timeout_ms: None,
        }
    }
}

/// How the messages travel.
pub enum Channel {
    /// Line by line through a process.
    Stdio,
    /// As requests to an address.
    Http(String),
}

/// The channel to a server.
pub fn open_channel(config: &McpServerConfig) -> (r: Result<Channel, String>)
    ensures
        match r {
            Ok(Channel::Stdio) => config.transport@ != "http"@,
            Ok(Channel::Http(u)) => config.transport@ == "http"@ && config.url == Some(u),
            Err(e) => config.transport@ == "http"@ && config.url is None && e@ == "HTTP MCP 服务器缺少 url"@,
        },
{
    if same_text(config.transport.as_str(), "http") {
        match &config.url {
            Some(u) => Ok(Channel::Http(u.clone())),
            None => Err(copy_str("HTTP MCP 服务器缺少 url")),
        }
    } else {
        Ok(Channel::Stdio)
    }
}

// ---------------------------------------------------------------------------
// Messages
// ---------------------------------------------------------------------------

/// A request.
pub open spec fn request_model(id: u64, method: Seq<char>, params: JsonModel) -> JsonModel {
    JsonModel::Table(
        Map::<Seq<char>, JsonModel>::empty().insert("jsonrpc"@, JsonModel::Text("2.0"@)).insert(
            "id"@,
            JsonModel::Int(id as int),
        ).insert("method"@, JsonModel::Text(method)).insert("params"@, params),
    )
}

/// A message that asks for no reply.
pub open spec fn notice_model(method: Seq<char>, params: JsonModel) -> JsonModel {
    JsonModel::Table(
        Map::<Seq<char>, JsonModel>::empty().insert("jsonrpc"@, JsonModel::Text("2.0"@)).insert(
            "method"@,
            JsonModel::Text(method),
        ).insert("params"@, params),
    )
}

pub open spec fn no_params() -> JsonModel {
    JsonModel::Table(Map::<Seq<char>, JsonModel>::empty())
}

/// What a client says of itself.
pub open spec fn initialize_params(version: Seq<char>) -> JsonModel {
    JsonModel::Table(
        Map::<Seq<char>, JsonModel>::empty().insert("protocolVersion"@, JsonModel::Text(MCP_PROTOCOL_VERSION@)).insert(
            "capabilities"@,
            no_params(),
        ).insert(
            "clientInfo"@,
            JsonModel::Table(
                Map::<Seq<char>, JsonModel>::empty().insert("name"@, JsonModel::Text("owo-agent"@)).insert(
                    "version"@,
                    JsonModel::Text(version),
                ),
            ),
        ),
    )
}

/// What a call of a tool asks for.
pub open spec fn call_params(name: Seq<char>, arguments: JsonModel) -> JsonModel {
    JsonModel::Table(
        Map::<Seq<char>, JsonModel>::empty().insert("name"@, JsonModel::Text(name)).insert("arguments"@, arguments),
    )
}

fn request_json(id: u64, method: &str, params: Json) -> (r: Json)
    ensures
        r.model() == request_model(id, method@, params.model()),
{
    Json::table().with("jsonrpc", Json::text("2.0")).with("id", Json::UInt(id)).with("method", Json::text(method)).with(
        "params",
        params,
    )
}

/// A message that asks for no reply.
pub fn notification(method: &str, params: Json) -> (r: Json)
    ensures
        r.model() == notice_model(method@, params.model()),
{
    Json::table().with("jsonrpc", Json::text("2.0")).with("method", Json::text(method)).with("params", params)
}

/// What a reply brings: its error, else its result.
pub open spec fn reply_of(m: JsonModel) -> Result<JsonModel, Seq<char>> {
    match member(m, "error"@) {
        Some(e) => Err("MCP 错误："@ + json_text(e)),
        None => Ok(or_null(member(m, "result"@))),
    }
}

pub open spec fn or_null(m: Option<JsonModel>) -> JsonModel {
    match m {
        Some(j) => j,
        None => JsonModel::Null,
    }
}

/// `r` holds what `m` says.
pub open spec fn says(r: Result<Json, String>, m: Result<JsonModel, Seq<char>>) -> bool {
    match r {
        Ok(j) => m == Ok::<JsonModel, Seq<char>>(j.model()),
        Err(e) => m == Err::<JsonModel, Seq<char>>(e@),
    }
}

fn member_or_null(value: &Json, key: &str) -> (r: Json)
    ensures
        r.model() == or_null(member(value.model(), key@)),
{
    match value.get(key) {
        Some(j) => j.clone(),
        None => Json::Null,
    }
}

/// What a reply brings.
pub fn extract_result(value: &Json) -> (r: Result<Json, String>)
    ensures
        says(r, reply_of(value.model())),
{
    if let Some(error) = value.get("error") {
        let mut e = copy_str("MCP 错误：");
        e.append(error.to_text().as_str());
        return Err(e);
    }
    Ok(member_or_null(value, "result"))
}

// ---------------------------------------------------------------------------
// Replies over HTTP
// ---------------------------------------------------------------------------

/// What an event line carries.
pub open spec fn event_value(line: Seq<char>) -> Option<JsonModel> {
    match after_prefix(trimmed(line), "data:"@) {
        Some(payload) => if trimmed(payload) == "[DONE]"@ {
            None
        } else {
            parsed_json(payload)
        },
        None => None,
    }
}

/// The reply in the first event, from line `i` on, that carries a value.
pub open spec fn event_reply(lines: Seq<Seq<char>>, method: Seq<char>, i: int) -> Result<JsonModel, Seq<char>>
    decreases lines.len() - i,
{
    if i >= lines.len() {
        Err("MCP SSE 无有效响应："@ + method)
    } else {
        match event_value(lines[i]) {
            Some(m) => reply_of(m),
            None => event_reply(lines, method, i + 1),
        }
    }
}

fn read_event(line: &str) -> (r: Option<Json>)
    ensures
        match r {
            Some(j) => event_value(line@) == Some(j.model()),
            None => event_value(line@) is None,
        },
{
    let t = trim(line);
    match strip_prefix(t.as_str(), "data:") {
        Some(payload) => {
            let inner = trim(payload.as_str());
            if same_text(inner.as_str(), "[DONE]") {
                None
            } else {
                parse_json(payload.as_str())
            }
        },
        None => None,
    }
}

/// The reply in a stream of events.
pub fn read_event_stream(method: &str, body: &str) -> (r: Result<Json, String>)
    ensures
        says(r, event_reply(lines_of(body@), method@, 0)),
{
    let lines = split_lines(body);
    let mut i: usize = 0;
    while i < lines.len()
        invariant
            texts(lines@) == lines_of(body@),
            i <= lines@.len(),
            event_reply(lines_of(body@), method@, 0) == event_reply(lines_of(body@), method@, i as int),
        decreases lines@.len() - i,
    {
        assert(texts(lines@)[i as int] == lines@[i as int]@);
        match read_event(lines[i].as_str()) {
            Some(value) => {
                return extract_result(&value);
            },
            None => {},
        }
        i += 1;
    }
    assert(texts(lines@).len() == lines@.len());
    let mut e = copy_str("MCP SSE 无有效响应：");
    e.append(method);
    Err(e)
}

/// The form of a body.
pub fn is_event_stream(content_type: &str) -> (r: bool)
    ensures
        r == has_text(unicode_lower(content_type@), "text/event-stream"@),
{
    contains_text(lowercase(content_type).as_str(), "text/event-stream")
}

/// What a client makes of a response.
pub enum HttpReply {
    /// The request did not reach the server.
    Unsent(String),
    /// The server refused; its status and what it said.
    Refused(String, String),
    /// A stream of events.
    Events(String),
    /// A stream of events that could not be read.
    EventsUnread(String),
    /// A value.
    Value(Json),
    /// The body could not be read as a value.
    Unreadable(String),
}

/// What an answer over HTTP brings.
pub open spec fn http_outcome(method: Seq<char>, reply: HttpReply) -> Result<JsonModel, Seq<char>> {
    match reply {
        HttpReply::Unsent(e) => Err("MCP HTTP 请求失败："@ + e@),
        HttpReply::Refused(status, text) => Err("MCP HTTP 返回 "@ + status@ + "："@ + text@),
        HttpReply::Events(body) => event_reply(lines_of(body@), method, 0),
        HttpReply::EventsUnread(e) => Err("MCP SSE 读取失败："@ + e@),
        HttpReply::Value(v) => reply_of(v.model()),
        HttpReply::Unreadable(e) => Err("MCP HTTP 响应解析失败："@ + e@),
    }
}

/// What an answer over HTTP brings.
pub fn read_http_reply(method: &str, reply: &HttpReply) -> (r: Result<Json, String>)
    ensures
        says(r, http_outcome(method@, *reply)),
{
    match reply {
        HttpReply::Unsent(e) => {
            let mut t = copy_str("MCP HTTP 请求失败：");
            t.append(e.as_str());
            Err(t)
        },
        HttpReply::Refused(status, text) => {
            let mut t = copy_str("MCP HTTP 返回 ");
            t.append(status.as_str());
            t.append("：");
            t.append(text.as_str());
            Err(t)
        },
        HttpReply::Events(body) => read_event_stream(method, body.as_str()),
        HttpReply::EventsUnread(e) => {
            let mut t = copy_str("MCP SSE 读取失败：");
            t.append(e.as_str());
            Err(t)
        },
        HttpReply::Value(v) => extract_result(v),
        HttpReply::Unreadable(e) => {
            let mut t = copy_str("MCP HTTP 响应解析失败：");
            t.append(e.as_str());
            Err(t)
        },
    }
}

// ---------------------------------------------------------------------------
// Tools
// ---------------------------------------------------------------------------

/// A tool of a server.
pub struct McpTool {
    pub name: String,
    pub description: String,
    pub input_schema: Json,
}

/// What is known of a tool.
pub struct ToolModel {
    pub name: Seq<char>,
    pub description: Seq<char>,
    pub input_schema: JsonModel,
}

impl McpTool {
    pub open spec fn model(self) -> ToolModel {
        ToolModel { name: self.name@, description: self.description@, input_schema: self.input_schema.model() }
    }
}

impl Clone for McpTool {
    fn clone(&self) -> (r: McpTool)
        ensures
            r.model() == self.model(),
    {
        McpTool {
            name: self.name.clone(),
            description: self.description.clone(),
            input_schema: self.input_schema.clone(),
        }
    }
}

pub open spec fn tool_models(v: Seq<McpTool>) -> Seq<ToolModel> {
    v.map_values(|t: McpTool| t.model())
}

/// The tool that a value describes; one without a name describes none.
pub open spec fn described_tool(m: JsonModel) -> Option<ToolModel> {
    match text_member(m, "name"@) {
        Some(name) => Some(
            ToolModel {
                name,
                description: match text_member(m, "description"@) {
                    Some(d) => d,
                    None => Seq::<char>::empty(),
                },
                input_schema: or_null(member(m, "inputSchema"@)),
            },
        ),
        None => None,
    }
}

/// The tools that a list of values describes.
pub open spec fn described_tools(v: Seq<JsonModel>) -> Seq<ToolModel>
    decreases v.len(),
{
    if v.len() == 0 {
        seq![]
    } else {
        match described_tool(v.last()) {
            Some(t) => described_tools(v.drop_last()).push(t),
            None => described_tools(v.drop_last()),
        }
    }
}

/// The tools that a server lists.
pub open spec fn listed_tools(result: JsonModel) -> Seq<ToolModel> {
    match list_member(result, "tools"@) {
        Some(v) => described_tools(v),
        None => seq![],
    }
}

fn read_tool(value: &Json) -> (r: Option<McpTool>)
    ensures
        match r {
            Some(t) => described_tool(value.model()) == Some(t.model()),
            None => described_tool(value.model()) is None,
        },
{
    match value.text_at("name") {
        Some(name) => {
            let description = match value.text_at("description") {
                Some(d) => d.clone(),
                None => String::new(),
            };
            let tool = McpTool { name: name.clone(), description, input_schema: member_or_null(value, "inputSchema") };
            assert(tool.model() == described_tool(value.model())->0);
            Some(tool)
        },
        None => None,
    }
}

/// The tools that a server lists.
pub fn read_tools(result: &Json) -> (r: Vec<McpTool>)
    ensures
        tool_models(r@) == listed_tools(result.model()),
{
    let mut tools: Vec<McpTool> = Vec::new();
    match result.list_at("tools") {
        Some(v) => {
            let ghost all = list_model(v@);
            proof {
                list_model_elements(v@);
                assert(tool_models(tools@) =~= described_tools(all.take(0)));
            }
            for i in 0..v.len()
                invariant
                    all == list_model(v@),
                    all.len() == v@.len(),
                    forall|j: int| 0 <= j < v@.len() ==> #[trigger] all[j] == v@[j].model(),
                    tool_models(tools@) == described_tools(all.take(i as int)),
            {
                let ghost before = tools@;
                proof {
                    assert(all.take(i + 1).drop_last() =~= all.take(i as int));
                    assert(all[i as int] == v@[i as int].model());
                }
                if let Some(tool) = read_tool(&v[i]) {
                    let ghost m = tool.model();
                    tools.push(tool);
                    assert(tool_models(tools@) =~= tool_models(before).push(m));
                }
            }
            assert(all.take(all.len() as int) =~= all);
        },
        None => {
            assert(tool_models(tools@) =~= seq![]);
        },
    }
    tools
}

/// The texts in the parts of a result.
pub open spec fn part_texts(v: Seq<JsonModel>) -> Seq<Seq<char>>
    decreases v.len(),
{
    if v.len() == 0 {
        seq![]
    } else {
        match text_member(v.last(), "text"@) {
            Some(t) => part_texts(v.drop_last()).push(t),
            None => part_texts(v.drop_last()),
        }
    }
}

/// The text of a result: its parts one below the other.
pub open spec fn result_text(result: JsonModel) -> Seq<char> {
    match list_member(result, "content"@) {
        Some(v) => joined(part_texts(v), "\n"@),
        None => Seq::<char>::empty(),
    }
}

/// What the call of a tool brings.
pub open spec fn call_outcome(result: JsonModel) -> Result<JsonModel, Seq<char>> {
    if bool_member(result, "isError"@) == Some(true) {
        Err(result_text(result))
    } else {
        Ok(
            JsonModel::Table(
                Map::<Seq<char>, JsonModel>::empty().insert("text"@, JsonModel::Text(result_text(result))).insert(
                    "content"@,
                    or_null(member(result, "content"@)),
                ),
            ),
        )
    }
}

fn read_result_text(result: &Json) -> (r: String)
    ensures
        r@ == result_text(result.model()),
{
    match result.list_at("content") {
        Some(v) => {
            let mut parts: Vec<String> = Vec::new();
            let ghost all = list_model(v@);
            proof {
                list_model_elements(v@);
                assert(texts(parts@) =~= part_texts(all.take(0)));
            }
            for i in 0..v.len()
                invariant
                    all == list_model(v@),
                    all.len() == v@.len(),
                    forall|j: int| 0 <= j < v@.len() ==> #[trigger] all[j] == v@[j].model(),
                    texts(parts@) == part_texts(all.take(i as int)),
            {
                let ghost before = parts@;
                proof {
                    assert(all.take(i + 1).drop_last() =~= all.take(i as int));
                    assert(all[i as int] == v@[i as int].model());
                }
                if let Some(t) = v[i].text_at("text") {
                    parts.push(t.clone());
                    assert(texts(parts@) =~= texts(before).push(t@));
                }
            }
            assert(all.take(all.len() as int) =~= all);
            join(&parts, "\n")
        },
        None => String::new(),
    }
}

/// What the call of a tool brings.
pub fn read_call_result(result: &Json) -> (r: Result<Json, String>)
    ensures
        says(r, call_outcome(result.model())),
{
    let text = read_result_text(result);
    let is_error = match result.bool_at("isError") {
        Some(b) => b,
        None => false,
    };
    if is_error {
        Err(text)
    } else {
        Ok(Json::table().with("text", Json::Text(text)).with("content", member_or_null(result, "content")))
    }
}

// ---------------------------------------------------------------------------
// Client
// ---------------------------------------------------------------------------

/// How far the handshake has come.
#[derive(Debug, Clone, Copy, PartialEq, Eq, Structural)]
pub enum Handshake {
    New,
    Introduced,
    Confirmed,
    Listing,
    Ready,
    Failed,
}

/// What came of the last step of the handshake.
pub enum ConnectEvent {
    /// The channel is open.
    Opened,
    /// What a request brought.
    Reply(Result<Json, String>),
    /// Whether a message without reply went out.
    Noticed(Result<(), String>),
}

/// The next step of the handshake.
pub enum ConnectAction {
    /// Send a request and wait for its reply.
    Request(Json),
    /// Send a message that asks for no reply.
    Notice(Json),
    /// The client is ready.
    Ready,
    /// The handshake has failed.
    Fail(String),
}

/// A client of a server of tools.
pub struct McpClient {
    next_id: u64,
    waiting: Vec<u64>,
    handshake: Handshake,
    tools: Vec<McpTool>,
}

/// The number after `n`, starting again at zero after the largest.
pub open spec fn id_after(n: u64) -> u64 {
    if n == u64::MAX {
        0
    } else {
        (n + 1) as u64
    }
}

impl McpClient {
    /// The number of the next request.
    pub closed spec fn next_number(self) -> u64 {
        self.next_id
    }

    /// The numbers of the requests that wait for a reply.
    pub closed spec fn waits_for(self) -> Seq<u64> {
        self.waiting@
    }

    pub closed spec fn stage(self) -> Handshake {
        self.handshake
    }

    /// The tools of the server.
    pub closed spec fn known_tools(self) -> Seq<ToolModel> {
        tool_models(self.tools@)
    }

    /// A client that has not introduced itself.
    pub fn new() -> (r: McpClient)
        ensures
            r.next_number() == 1,
            r.waits_for() == Seq::<u64>::empty(),
            r.stage() == Handshake::New,
            r.known_tools() == Seq::<ToolModel>::empty(),
    {
        let r = McpClient { next_id: 1, waiting: Vec::new(), handshake: Handshake::New, tools: Vec::new() };
        assert(r.known_tools() =~= Seq::<ToolModel>::empty());
        r
    }

    /// The tools of the server.
    pub fn tools(&self) -> (r: Vec<McpTool>)
        ensures
            tool_models(r@) == self.known_tools(),
    {
        let mut r: Vec<McpTool> = Vec::new();
        for i in 0..self.tools.len()
            invariant
                r@.len() == i,
                forall|j: int| 0 <= j < i ==> (#[trigger] r@[j]).model() == self.tools@[j].model(),
        {
            r.push(self.tools[i].clone());
        }
        assert(tool_models(r@) =~= self.known_tools());
        r
    }

    /// The message of a new request, which waits for its reply from now on.
    pub fn request(&mut self, method: &str, params: Json) -> (r: Json)
        ensures
            r.model() == request_model(old(self).next_number(), method@, params.model()),
            final(self).next_number() == id_after(old(self).next_number()),
            final(self).waits_for() == old(self).waits_for().push(old(self).next_number()),
            final(self).stage() == old(self).stage(),
            final(self).known_tools() == old(self).known_tools(),
    {
        let id: u64 = self.next_id;
        self.next_id = if id == u64::MAX {
            0
        } else {
            id + 1
        };
        self.waiting.push(id);
        request_json(id, method, params)
    }

    /// Takes in a line of the server: where it answers a waiting request, the
    /// number of the request and the answer.
    pub fn line_received(&mut self, line: &str) -> (r: Option<(u64, Json)>)
        ensures
            final(self).next_number() == old(self).next_number(),
            final(self).stage() == old(self).stage(),
            final(self).known_tools() == old(self).known_tools(),
            r is Some <==> answers(old(self).waits_for(), parsed_json(line@)),
            match r {
                Some((id, j)) => {
                    &&& parsed_json(line@) == Some(j.model())
                    &&& count_member(j.model(), "id"@) == Some(id as int)
                    &&& final(self).waits_for() == without_first(old(self).waits_for(), id)
                },
                None => final(self).waits_for() == old(self).waits_for(),
            },
    {
        match parse_json(line) {
            Some(value) => {
                match value.count_at("id") {
                    Some(id) => {
                        let n: usize = self.waiting.len();
                        for k in 0..n
                            invariant
                                *self == *old(self),
                                n == self.waiting@.len(),
                                parsed_json(line@) == Some(value.model()),
                                count_member(value.model(), "id"@) == Some(id as int),
                                forall|j: int| 0 <= j < k ==> #[trigger] self.waiting@[j] != id,
                        {
                            if self.waiting[k] == id {
                                let _ = self.waiting.remove(k);
                                proof {
                                    let w = old(self).waiting@;
                                    assert(w[k as int] == id);
                                    assert(w.contains(id));
                                    removed_first(w, id, k as int);
                                }
                                return Some((id, value));
                            }
                        }
                        assert(!self.waiting@.contains(id));
                        None
                    },
                    None => None,
                }
            },
            None => None,
        }
    }

    /// Takes in what came over HTTP of the request with this number, which waits no
    /// more.
    pub fn http_replied(&mut self, id: u64, method: &str, reply: &HttpReply) -> (r: Result<Json, String>)
        ensures
            says(r, http_outcome(method@, *reply)),
            final(self).next_number() == old(self).next_number(),
            final(self).stage() == old(self).stage(),
            final(self).known_tools() == old(self).known_tools(),
            final(self).waits_for() == if old(self).waits_for().contains(id) {
                without_first(old(self).waits_for(), id)
            } else {
                old(self).waits_for()
            },
    {
        let n: usize = self.waiting.len();
        for k in 0..n
            invariant
                *self == *old(self),
                n == self.waiting@.len(),
                forall|j: int| 0 <= j < k ==> #[trigger] self.waiting@[j] != id,
        {
            if self.waiting[k] == id {
                let _ = self.waiting.remove(k);
                proof {
                    let w = old(self).waiting@;
                    assert(w[k as int] == id);
                    removed_first(w, id, k as int);
                }
                return read_http_reply(method, reply);
            }
        }
        assert(!self.waiting@.contains(id));
        read_http_reply(method, reply)
    }

    /// The handshake: the client introduces itself, confirms, asks for the tools
    /// and keeps what it is told. Any step that fails ends it.
    pub fn connect_next(&mut self, event: ConnectEvent, version: &str) -> (r: ConnectAction)
        requires
            fits(old(self).stage(), event),
        ensures
            final(self).stage() == stage_after(old(self).stage(), event),
            match (old(self).stage(), event) {
                (Handshake::New, ConnectEvent::Opened) => {
                    &&& r matches ConnectAction::Request(m)
                    &&& m.model() == request_model(
                        old(self).next_number(),
                        "initialize"@,
                        initialize_params(version@),
                    )
                },
                (Handshake::Introduced, ConnectEvent::Reply(Ok(_))) => {
                    &&& r matches ConnectAction::Notice(m)
                    &&& m.model() == notice_model("notifications/initialized"@, no_params())
                },
                (Handshake::Confirmed, ConnectEvent::Noticed(Ok(_))) => {
                    &&& r matches ConnectAction::Request(m)
                    &&& m.model() == request_model(old(self).next_number(), "tools/list"@, no_params())
                },
                (Handshake::Listing, ConnectEvent::Reply(Ok(result))) => {
                    &&& r is Ready
                    &&& final(self).known_tools() == listed_tools(result.model())
                },
                (_, ConnectEvent::Reply(Err(e))) => r == ConnectAction::Fail(e),
                (_, ConnectEvent::Noticed(Err(e))) => r == ConnectAction::Fail(e),
                _ => true,
            },
            r is Request ==> final(self).next_number() == id_after(old(self).next_number()) && final(self).waits_for()
                == old(self).waits_for().push(old(self).next_number()),
            !(r is Request) ==> final(self).next_number() == old(self).next_number() && final(self).waits_for()
                == old(self).waits_for(),
            !(r is Ready) ==> final(self).known_tools() == old(self).known_tools(),
    {
        match event {
            ConnectEvent::Opened => {
                self.handshake = Handshake::Introduced;
                let info = Json::table().with("name", Json::text("owo-agent")).with("version", Json::text(version));
                let params = Json::table().with("protocolVersion", Json::text(MCP_PROTOCOL_VERSION)).with(
                    "capabilities",
                    Json::table(),
                ).with("clientInfo", info);
                ConnectAction::Request(self.request("initialize", params))
            },
            ConnectEvent::Reply(Err(e)) => {
                self.handshake = Handshake::Failed;
                ConnectAction::Fail(e)
            },
            ConnectEvent::Noticed(Err(e)) => {
                self.handshake = Handshake::Failed;
                ConnectAction::Fail(e)
            },
            ConnectEvent::Reply(Ok(result)) => {
                if let Handshake::Introduced = self.handshake {
                    self.handshake = Handshake::Confirmed;
                    ConnectAction::Notice(notification("notifications/initialized", Json::table()))
                } else {
                    self.handshake = Handshake::Ready;
                    self.tools = read_tools(&result);
                    ConnectAction::Ready
                }
            },
            ConnectEvent::Noticed(Ok(_)) => {
                self.handshake = Handshake::Listing;
                ConnectAction::Request(self.request("tools/list", Json::table()))
            },
        }
    }

    /// The message that calls a tool.
    pub fn call_tool(&mut self, name: &str, arguments: Json) -> (r: Json)
        ensures
            r.model() == request_model(
                old(self).next_number(),
                "tools/call"@,
                call_params(name@, arguments.model()),
            ),
            final(self).next_number() == id_after(old(self).next_number()),
            final(self).waits_for() == old(self).waits_for().push(old(self).next_number()),
            final(self).stage() == old(self).stage(),
            final(self).known_tools() == old(self).known_tools(),
    {
        let params = Json::table().with("name", Json::text(name)).with("arguments", arguments);
        self.request("tools/call", params)
    }

    /// The last message to a server that is a process; one that listens at an
    /// address is told nothing.
    pub fn shutdown(&self, channel: &Channel) -> (r: Option<Json>)
        ensures
            match r {
                Some(m) => *channel is Stdio && m.model() == notice_model("exit"@, no_params()),
                None => !(*channel is Stdio),
            },
    {
        match channel {
            Channel::Stdio => Some(notification("exit", Json::table())),
            Channel::Http(_) => None,
        }
    }
}

/// The value answers one of the waiting requests.
pub open spec fn answers(waiting: Seq<u64>, value: Option<JsonModel>) -> bool {
    value matches Some(m) && count_member(m, "id"@) matches Some(id) && waiting.contains(id as u64)
}

/// The event can come at this point of the handshake.
pub open spec fn fits(stage: Handshake, event: ConnectEvent) -> bool {
    match event {
        ConnectEvent::Opened => stage == Handshake::New,
        ConnectEvent::Reply(_) => stage == Handshake::Introduced || stage == Handshake::Listing,
        ConnectEvent::Noticed(_) => stage == Handshake::Confirmed,
    }
}

/// How far the handshake is after an event.
pub open spec fn stage_after(stage: Handshake, event: ConnectEvent) -> Handshake {
    match event {
        ConnectEvent::Opened => Handshake::Introduced,
        ConnectEvent::Reply(Ok(_)) => if stage == Handshake::Introduced {
            Handshake::Confirmed
        } else {
            Handshake::Ready
        },
        ConnectEvent::Noticed(Ok(_)) => Handshake::Listing,
        _ => Handshake::Failed,
    }
}

/// `w` without the first `id` in it.
pub open spec fn without_first(w: Seq<u64>, id: u64) -> Seq<u64>
    decreases w.len(),
{
    if w.len() == 0 {
        w
    } else if w[0] == id {
        w.skip(1)
    } else {
        seq![w[0]] + without_first(w.skip(1), id)
    }
}

proof fn removed_first(w: Seq<u64>, id: u64, k: int)
    requires
        0 <= k < w.len(),
        w[k] == id,
        forall|j: int| 0 <= j < k ==> w[j] != id,
    ensures
        without_first(w, id) == w.remove(k),
    decreases k,
{
    if k == 0 {
        assert(w.skip(1) =~= w.remove(0));
    } else {
        removed_first(w.skip(1), id, k - 1);
        assert(seq![w[0]] + w.skip(1).remove(k - 1) =~= w.remove(k));
    }
}

// ---------------------------------------------------------------------------
// Laws
// ---------------------------------------------------------------------------

/// How far the handshake is after these events.
pub open spec fn stage_of(events: Seq<ConnectEvent>) -> Handshake
    decreases events.len(),
{
    if events.len() == 0 {
        Handshake::New
    } else {
        stage_after(stage_of(events.drop_last()), events.last())
    }
}

/// Each of the events can come where it comes.
pub open spec fn all_fit(events: Seq<ConnectEvent>) -> bool
    decreases events.len(),
{
    events.len() == 0 || (all_fit(events.drop_last()) && fits(stage_of(events.drop_last()), events.last()))
}

/// The channel is open, the server has answered the introduction, the
/// confirmation went out and the tools were listed, so far as the events go.
pub open spec fn well_so_far(events: Seq<ConnectEvent>) -> bool {
    &&& events.len() > 0 ==> events[0] is Opened
    &&& events.len() > 1 ==> (events[1] matches ConnectEvent::Reply(Ok(_)))
    &&& events.len() > 2 ==> (events[2] matches ConnectEvent::Noticed(Ok(_)))
    &&& events.len() > 3 ==> (events[3] matches ConnectEvent::Reply(Ok(_)))
}

/// A client is ready exactly when each of the steps of the handshake went well,
/// one after the other; there are no others.
pub proof fn handshake_goes_step_by_step(events: Seq<ConnectEvent>)
    requires
        all_fit(events),
    ensures
        events.len() <= 4,
        stage_of(events) == Handshake::Ready <==> events.len() == 4 && well_so_far(events),
        stage_of(events) == Handshake::Failed <==> !well_so_far(events),
        stage_of(events) == Handshake::New <==> events.len() == 0,
        stage_of(events) == Handshake::Introduced <==> events.len() == 1 && well_so_far(events),
        stage_of(events) == Handshake::Confirmed <==> events.len() == 2 && well_so_far(events),
        stage_of(events) == Handshake::Listing <==> events.len() == 3 && well_so_far(events),
    decreases events.len(),
{
    if events.len() > 0 {
        handshake_goes_step_by_step(events.drop_last());
    }
}

/// The numbers of the waiting requests differ, and the next one is greater.
pub open spec fn apart(waiting: Seq<u64>, next: u64) -> bool {
    waiting.no_duplicates() && forall|i: int| 0 <= i < waiting.len() ==> #[trigger] waiting[i] < next
}

/// A new request gets a number that no waiting one has, until the numbers are
/// used up.
pub proof fn requests_stay_apart(waiting: Seq<u64>, next: u64)
    requires
        apart(waiting, next),
        next < u64::MAX,
    ensures
        apart(waiting.push(next), id_after(next)),
{
}

/// A reply is handed on once, and no other request loses its own.
pub proof fn replies_are_handed_on_once(waiting: Seq<u64>, next: u64, id: u64)
    requires
        apart(waiting, next),
    ensures
        apart(without_first(waiting, id), next),
        forall|k: u64| #[trigger] without_first(waiting, id).contains(k) <==> waiting.contains(k) && k != id,
    decreases waiting.len(),
{
    let w = waiting;
    let left = without_first(w, id);
    if w.contains(id) {
        let k = choose|k: int| 0 <= k < w.len() && w[k] == id;
        removed_first(w, id, k);
        assert(left == w.remove(k));
        assert forall|x: u64| #[trigger] left.contains(x) <==> w.contains(x) && x != id by {
            if left.contains(x) {
                let j = choose|j: int| 0 <= j < left.len() && left[j] == x;
                let j2 = if j < k { j } else { j + 1 };
                assert(w[j2] == x);
            }
            if w.contains(x) && x != id {
                let j = choose|j: int| 0 <= j < w.len() && w[j] == x;
                let j2 = if j < k { j } else { j - 1 };
                assert(left[j2] == x);
            }
        }
    } else {
        never_removed(w, id);
    }
}

proof fn never_removed(w: Seq<u64>, id: u64)
    requires
        !w.contains(id),
    ensures
        without_first(w, id) == w,
    decreases w.len(),
{
    if w.len() > 0 {
        assert(w.contains(w[0]));
        assert forall|i: int| 0 <= i < w.skip(1).len() implies #[trigger] w.skip(1)[i] != id by {
            assert(w[i + 1] != id);
        }
        assert(!w.skip(1).contains(id));
        never_removed(w.skip(1), id);
        assert(seq![w[0]] + w.skip(1) =~= w);
    }
}

// ---------------------------------------------------------------------------
// Laws of the messages
// ---------------------------------------------------------------------------

proof fn rpc_words_differ()
    ensures
        "jsonrpc"@ != "id"@ && "jsonrpc"@ != "method"@ && "jsonrpc"@ != "params"@ && "id"@ != "method"@ && "id"@
            != "params"@ && "method"@ != "params"@,
        "name"@ != "arguments"@ && "name"@ != "version"@,
        "protocolVersion"@ != "capabilities"@ && "protocolVersion"@ != "clientInfo"@ && "capabilities"@ != "clientInfo"@,
        "text"@ != "content"@,
{
    reveal_strlit("jsonrpc");
    reveal_strlit("id");
    reveal_strlit("method");
    reveal_strlit("params");
    reveal_strlit("name");
    reveal_strlit("arguments");
    reveal_strlit("version");
    reveal_strlit("protocolVersion");
    reveal_strlit("capabilities");
    reveal_strlit("clientInfo");
    reveal_strlit("text");
    reveal_strlit("content");
    assert("jsonrpc"@[0] == 'j' && "id"@[0] == 'i' && "method"@[0] == 'm' && "params"@[0] == 'p');
    assert("name"@[0] == 'n' && "arguments"@[0] == 'a' && "version"@[0] == 'v');
    assert("protocolVersion"@[0] == 'p' && "capabilities"@[1] == 'a' && "clientInfo"@[1] == 'l' && "capabilities"@[0] == 'c');
    assert("text"@[0] == 't' && "content"@[0] == 'c');
}

/// A request says its number, what is asked and with what; a notice has no number and
/// so asks for no reply. A tool is called by its name with its arguments.
pub proof fn requests_say_what_is_asked(id: u64, method: Seq<char>, params: JsonModel, name: Seq<char>)
    ensures
        member(request_model(id, method, params), "jsonrpc"@) == Some(JsonModel::Text("2.0"@)),
        member(request_model(id, method, params), "id"@) == Some(JsonModel::Int(id as int)),
        member(request_model(id, method, params), "method"@) == Some(JsonModel::Text(method)),
        member(request_model(id, method, params), "params"@) == Some(params),
        member(notice_model(method, params), "id"@) is None,
        member(notice_model(method, params), "method"@) == Some(JsonModel::Text(method)),
        member(notice_model(method, params), "params"@) == Some(params),
        member(call_params(name, params), "name"@) == Some(JsonModel::Text(name)),
        member(call_params(name, params), "arguments"@) == Some(params),
        member(initialize_params(name), "protocolVersion"@) == Some(JsonModel::Text(MCP_PROTOCOL_VERSION@)),
        member(initialize_params(name), "clientInfo"@) matches Some(c) && member(c, "version"@) == Some(
            JsonModel::Text(name),
        ),
{
    rpc_words_differ();
}

/// A reply with an error is a failure and says the error, whatever else it holds; any
/// other hands on its result, null where it has none.
pub proof fn errors_come_before_results(m: JsonModel, e: JsonModel, v: JsonModel)
    ensures
        member(m, "error"@) == Some(e) ==> (reply_of(m) matches Err(t) && finishes_with(t, json_text(e))),
        member(m, "error"@) is None && member(m, "result"@) == Some(v) ==> reply_of(m) == Ok::<JsonModel, Seq<char>>(v),
        member(m, "error"@) is None && member(m, "result"@) is None ==> reply_of(m) == Ok::<JsonModel, Seq<char>>(
            JsonModel::Null,
        ),
{
    let t = "MCP 错误："@ + json_text(e);
    assert(t.skip(t.len() - json_text(e).len()) =~= json_text(e));
}

/// In a stream of events the first that holds a value is the reply: lines without one
/// are passed over, and where none holds one there is none.
pub proof fn the_first_event_is_the_reply(lines: Seq<Seq<char>>, method: Seq<char>, i: int, m: JsonModel)
    requires
        0 <= i < lines.len(),
        forall|j: int| 0 <= j < i ==> event_value(#[trigger] lines[j]) is None,
    ensures
        event_value(lines[i]) == Some(m) ==> event_reply(lines, method, 0) == reply_of(m),
        (forall|j: int| 0 <= j < lines.len() ==> event_value(#[trigger] lines[j]) is None) ==> (event_reply(lines, method, 0)
            matches Err(t) && finishes_with(t, method)),
{
    passed_over(lines, method, 0, i);
    if forall|j: int| 0 <= j < lines.len() ==> event_value(#[trigger] lines[j]) is None {
        passed_over(lines, method, 0, lines.len() as int);
        let t = "MCP SSE 无有效响应："@ + method;
        assert(t.skip(t.len() - method.len()) =~= method);
    }
}

proof fn passed_over(lines: Seq<Seq<char>>, method: Seq<char>, from: int, to: int)
    requires
        0 <= from <= to <= lines.len(),
        forall|j: int| from <= j < to ==> event_value(#[trigger] lines[j]) is None,
    ensures
        event_reply(lines, method, from) == event_reply(lines, method, to),
    decreases to - from,
{
    if from < to {
        assert(event_value(lines[from]) is None);
        passed_over(lines, method, from + 1, to);
    }
}

/// A line is an event if it begins with its mark; the mark of the end and what is no
/// JSON hold no value.
pub proof fn event_lines_hold_json(line: Seq<char>, payload: Seq<char>)
    ensures
        trimmed(line) == "data:"@ + payload && trimmed(payload) != "[DONE]"@ ==> event_value(line) == parsed_json(payload),
        trimmed(line) == "data:"@ + payload && trimmed(payload) == "[DONE]"@ ==> event_value(line) is None,
        !begins_with(trimmed(line), "data:"@) ==> event_value(line) is None,
{
    parts_stand_in_the_whole(payload, "data:"@, payload, trimmed(line));
}

/// Only a value or events can succeed over HTTP; whatever else comes back is a failure
/// that says what it was.
pub proof fn http_failures_are_told(method: Seq<char>, reply: HttpReply)
    ensures
        reply matches HttpReply::Value(v) ==> http_outcome(method, reply) == reply_of(v.model()),
        reply matches HttpReply::Events(body) ==> http_outcome(method, reply) == event_reply(lines_of(body@), method, 0),
        reply matches HttpReply::Unsent(e) ==> (http_outcome(method, reply) matches Err(t) && finishes_with(t, e@)),
        reply matches HttpReply::Refused(status, text) ==> (http_outcome(method, reply) matches Err(t) && finishes_with(
            t,
            text@,
        ) && has_text(t, status@)),
        reply matches HttpReply::EventsUnread(e) ==> (http_outcome(method, reply) matches Err(t) && finishes_with(t, e@)),
        reply matches HttpReply::Unreadable(e) ==> (http_outcome(method, reply) matches Err(t) && finishes_with(t, e@)),
{
    match reply {
        HttpReply::Unsent(e) => {
            let t = "MCP HTTP 请求失败："@ + e@;
            assert(t.skip(t.len() - e@.len()) =~= e@);
        },
        HttpReply::Refused(status, text) => {
            let t = "MCP HTTP 返回 "@ + status@ + "："@ + text@;
            assert(t.skip(t.len() - text@.len()) =~= text@);
            assert(t =~= "MCP HTTP 返回 "@ + status@ + ("："@ + text@));
            parts_stand_in_the_whole("MCP HTTP 返回 "@, status@, "："@ + text@, t);
        },
        HttpReply::EventsUnread(e) => {
            let t = "MCP SSE 读取失败："@ + e@;
            assert(t.skip(t.len() - e@.len()) =~= e@);
        },
        HttpReply::Unreadable(e) => {
            let t = "MCP HTTP 响应解析失败："@ + e@;
            assert(t.skip(t.len() - e@.len()) =~= e@);
        },
        _ => {},
    }
}

/// Every tool that is listed with a name is known, in the order of the list, with what
/// it is said to be; one without a name is passed over.
pub proof fn listed_tools_are_known(v: Seq<JsonModel>, m: JsonModel, name: Seq<char>, d: Seq<char>, s: JsonModel, result: JsonModel)
    ensures
        described_tools(seq![]) == Seq::<ToolModel>::empty(),
        member(m, "name"@) == Some(JsonModel::Text(name)) ==> ({
            let all = described_tools(v.push(m));
            &&& all.len() == described_tools(v).len() + 1
            &&& all.drop_last() == described_tools(v)
            &&& all.last().name == name
            &&& member(m, "description"@) == Some(JsonModel::Text(d)) ==> all.last().description == d
            &&& member(m, "description"@) is None ==> all.last().description.len() == 0
            &&& member(m, "inputSchema"@) == Some(s) ==> all.last().input_schema == s
        }),
        member(m, "name"@) is None ==> described_tools(v.push(m)) == described_tools(v),
        member(result, "tools"@) == Some(JsonModel::List(v)) ==> listed_tools(result) == described_tools(v),
        member(result, "tools"@) is None ==> listed_tools(result).len() == 0,
{
    assert(v.push(m).drop_last() =~= v);
    if member(m, "name"@) == Some(JsonModel::Text(name)) {
        assert(described_tools(v.push(m)).drop_last() =~= described_tools(v));
    }
}

/// What a tool answers is the text of its parts, line by line; a call that went wrong
/// fails with it, and any other hands it on with the parts themselves.
pub proof fn answers_are_the_text_of_their_parts(result: JsonModel, v: Seq<JsonModel>, p: JsonModel, t: Seq<char>)
    ensures
        part_texts(seq![]) == Seq::<Seq<char>>::empty(),
        member(p, "text"@) == Some(JsonModel::Text(t)) ==> part_texts(v.push(p)) == part_texts(v).push(t),
        member(p, "text"@) is None ==> part_texts(v.push(p)) == part_texts(v),
        member(result, "content"@) == Some(JsonModel::List(v)) ==> ({
            let text = joined(part_texts(v), "\n"@);
            &&& member(result, "isError"@) == Some(JsonModel::Bool(true)) ==> call_outcome(result) == Err::<
                JsonModel,
                Seq<char>,
            >(text)
            &&& member(result, "isError"@) is None || member(result, "isError"@) == Some(JsonModel::Bool(false)) ==> (
            call_outcome(result) matches Ok(j) && member(j, "text"@) == Some(JsonModel::Text(text)) && member(
                j,
                "content"@,
            ) == Some(JsonModel::List(v)))
        }),
{
    rpc_words_differ();
    assert(v.push(p).drop_last() =~= v);
}

/// A reply is one to a request that waits: its number is among them.
pub proof fn replies_answer_waiting_requests(waiting: Seq<u64>, m: JsonModel, id: u64)
    ensures
        member(m, "id"@) == Some(JsonModel::Int(id as int)) ==> (answers(waiting, Some(m)) <==> waiting.contains(id)),
        member(m, "id"@) is None ==> !answers(waiting, Some(m)),
        !answers(waiting, None),
        id < u64::MAX ==> id_after(id) == id + 1,
{
}

/// A reply says one thing.
pub proof fn replies_say_one_thing(r: Result<Json, String>, m: Result<JsonModel, Seq<char>>, n: Result<JsonModel, Seq<char>>)
    ensures
        says(r, m) && says(r, n) ==> m == n,
        r matches Ok(j) ==> says(r, Ok::<JsonModel, Seq<char>>(j.model())),
        r matches Err(e) ==> says(r, Err::<JsonModel, Seq<char>>(e@)),
{
}

} // verus!
