//! The messages between the user, the model and the tools.

use crate::audit::opt_text;
use crate::json::{json_text, Json, JsonModel};
use crate::text::{copy_str, has_text, join, joined, joined_holds, occurs_at, parts_stand_in_the_whole, texts};
use vstd::prelude::*;

verus! {

/// A call of a tool that the model asks for.
pub struct ToolCall {
    pub id: String,
    pub name: String,
    pub arguments: Json,
}

/// What a call says.
pub struct CallModel {
    pub id: Seq<char>,
    pub name: Seq<char>,
    pub arguments: JsonModel,
}

impl View for ToolCall {
    type V = CallModel;

    open spec fn view(&self) -> CallModel {
        CallModel { id: self.id@, name: self.name@, arguments: self.arguments.model() }
    }
}

impl Clone for ToolCall {
    fn clone(&self) -> (r: ToolCall)
        ensures
            r@ == self@,
    {
        ToolCall { id: self.id.clone(), name: self.name.clone(), arguments: self.arguments.clone() }
    }
}

/// What a list of calls says.
pub open spec fn calls_model(v: Seq<ToolCall>) -> Seq<CallModel> {
    v.map_values(|c: ToolCall| c@)
}

/// Copies a list of calls.
pub fn copy_calls(v: &Vec<ToolCall>) -> (r: Vec<ToolCall>)
    ensures
        calls_model(r@) == calls_model(v@),
{
    let mut r: Vec<ToolCall> = Vec::new();
    for i in 0..v.len()
        invariant
            r@.len() == i,
            forall|j: int| 0 <= j < i ==> (#[trigger] r@[j])@ == v@[j]@,
    {
        r.push(v[i].clone());
    }
    assert(calls_model(r@) =~= calls_model(v@));
    r
}

/// A message.
pub struct ChatMessage {
    pub role: String,
    pub content: Option<String>,
    pub tool_calls: Option<Vec<ToolCall>>,
    pub tool_call_id: Option<String>,
}

/// What a message says.
pub struct ChatModel {
    pub role: Seq<char>,
    pub content: Option<Seq<char>>,
    pub tool_calls: Option<Seq<CallModel>>,
    pub tool_call_id: Option<Seq<char>>,
}

impl View for ChatMessage {
    type V = ChatModel;

    open spec fn view(&self) -> ChatModel {
        ChatModel {
            role: self.role@,
            content: opt_text(self.content),
            tool_calls: match self.tool_calls {
                Some(v) => Some(calls_model(v@)),
                None => None,
            },
            tool_call_id: opt_text(self.tool_call_id),
        }
    }
}

/// What a list of messages says.
pub open spec fn chat_model(v: Seq<ChatMessage>) -> Seq<ChatModel> {
    v.map_values(|m: ChatMessage| m@)
}

/// A message of the role `role` with the text `content`.
pub open spec fn says(role: Seq<char>, content: Seq<char>) -> ChatModel {
    ChatModel { role, content: Some(content), tool_calls: None, tool_call_id: None }
}

impl Clone for ChatMessage {
    fn clone(&self) -> (r: ChatMessage)
        ensures
            r@ == self@,
    {
        ChatMessage {
            role: self.role.clone(),
            content: match &self.content {
                Some(c) => Some(c.clone()),
                None => None,
            },
            tool_calls: match &self.tool_calls {
                Some(v) => Some(copy_calls(v)),
                None => None,
            },
            tool_call_id: match &self.tool_call_id {
                Some(c) => Some(c.clone()),
                None => None,
            },
        }
    }
}

impl ChatMessage {
    pub fn system(content: String) -> (r: ChatMessage)
        ensures
            r@ == says("system"@, content@),
    {
        ChatMessage { role: copy_str("system"), content: Some(content), tool_calls: None, tool_call_id: None }
    }

    pub fn user(content: String) -> (r: ChatMessage)
        ensures
            r@ == says("user"@, content@),
    {
        ChatMessage { role: copy_str("user"), content: Some(content), tool_calls: None, tool_call_id: None }
    }

    pub fn assistant_text(content: String) -> (r: ChatMessage)
        ensures
            r@ == says("assistant"@, content@),
    {
        ChatMessage { role: copy_str("assistant"), content: Some(content), tool_calls: None, tool_call_id: None }
    }

    pub fn assistant_tool_calls(tool_calls: Vec<ToolCall>) -> (r: ChatMessage)
        ensures
            r@ == (ChatModel {
                role: "assistant"@,
                content: None,
                tool_calls: Some(calls_model(tool_calls@)),
                tool_call_id: None,
            }),
    {
        ChatMessage { role: copy_str("assistant"), content: None, tool_calls: Some(tool_calls), tool_call_id: None }
    }

    pub fn tool(tool_call_id: String, content: String) -> (r: ChatMessage)
        ensures
            r@ == (ChatModel {
                role: "tool"@,
                content: Some(content@),
                tool_calls: None,
                tool_call_id: Some(tool_call_id@),
            }),
    {
        ChatMessage {
            role: copy_str("tool"),
            content: Some(content),
            tool_calls: None,
            tool_call_id: Some(tool_call_id),
        }
    }
}

/// Copies the messages `v[from..to]`.
pub fn copy_messages(v: &Vec<ChatMessage>, from: usize, to: usize) -> (r: Vec<ChatMessage>)
    requires
        from <= to <= v@.len(),
    ensures
        chat_model(r@) == chat_model(v@).subrange(from as int, to as int),
{
    let mut r: Vec<ChatMessage> = Vec::new();
    let mut i: usize = from;
    while i < to
        invariant
            from <= i <= to <= v@.len(),
            r@.len() == i - from,
            forall|j: int| 0 <= j < i - from ==> (#[trigger] r@[j])@ == v@[from + j]@,
        decreases to - i,
    {
        r.push(v[i].clone());
        i += 1;
    }
    assert(chat_model(r@) =~= chat_model(v@).subrange(from as int, to as int));
    r
}

// ---------------------------------------------------------------------------
// JSON text of messages, member by member
// ---------------------------------------------------------------------------

/// The JSON text of a call.
pub open spec fn call_text(c: CallModel) -> Seq<char> {
    "{\"id\":"@ + json_text(JsonModel::Text(c.id)) + ",\"name\":"@ + json_text(JsonModel::Text(c.name)) + ",\"arguments\":"@
        + json_text(c.arguments) + "}"@
}

/// The JSON text of a message; members without a value are left out.
pub open spec fn message_text(m: ChatModel) -> Seq<char> {
    "{\"role\":"@ + json_text(JsonModel::Text(m.role)) + match m.content {
        Some(c) => ",\"content\":"@ + json_text(JsonModel::Text(c)),
        None => Seq::empty(),
    } + match m.tool_calls {
        Some(v) => ",\"tool_calls\":["@ + joined(v.map_values(|c: CallModel| call_text(c)), ","@) + "]"@,
        None => Seq::empty(),
    } + match m.tool_call_id {
        Some(i) => ",\"tool_call_id\":"@ + json_text(JsonModel::Text(i)),
        None => Seq::empty(),
    } + "}"@
}

/// The JSON text of a list of messages.
pub open spec fn messages_text(v: Seq<ChatModel>) -> Seq<char> {
    "["@ + joined(v.map_values(|m: ChatModel| message_text(m)), ","@) + "]"@
}

fn quoted(s: &str) -> (r: String)
    ensures
        r@ == json_text(JsonModel::Text(s@)),
{
    let j = Json::text(s);
    j.to_text()
}

fn call_to_text(c: &ToolCall) -> (r: String)
    ensures
        r@ == call_text(c@),
{
    let mut r = copy_str("{\"id\":");
    let id = quoted(c.id.as_str());
    r.append(id.as_str());
    r.append(",\"name\":");
    let name = quoted(c.name.as_str());
    r.append(name.as_str());
    r.append(",\"arguments\":");
    let arguments = c.arguments.to_text();
    r.append(arguments.as_str());
    r.append("}");
    r
}

fn message_to_text(m: &ChatMessage) -> (r: String)
    ensures
        r@ == message_text(m@),
{
    let mut r = copy_str("{\"role\":");
    let role = quoted(m.role.as_str());
    r.append(role.as_str());
    let mut content = String::new();
    match &m.content {
        Some(c) => {
            content.append(",\"content\":");
            let t = quoted(c.as_str());
            content.append(t.as_str());
            assert(content@ =~= ",\"content\":"@ + json_text(JsonModel::Text(c@)));
        },
        None => {},
    }
    r.append(content.as_str());
    let mut calls = String::new();
    match &m.tool_calls {
        Some(v) => {
            calls.append(",\"tool_calls\":[");
            let mut parts: Vec<String> = Vec::new();
            for i in 0..v.len()
                invariant
                    parts@.len() == i,
                    forall|j: int| 0 <= j < i ==> #[trigger] parts@[j]@ == call_text(v@[j]@),
            {
                parts.push(call_to_text(&v[i]));
            }
            assert(texts(parts@) =~= calls_model(v@).map_values(|c: CallModel| call_text(c)));
            let list = join(&parts, ",");
            calls.append(list.as_str());
            calls.append("]");
            assert(calls@ =~= ",\"tool_calls\":["@ + joined(texts(parts@), ","@) + "]"@);
        },
        None => {},
    }
    r.append(calls.as_str());
    let mut id = String::new();
    match &m.tool_call_id {
        Some(i) => {
            id.append(",\"tool_call_id\":");
            let t = quoted(i.as_str());
            id.append(t.as_str());
            assert(id@ =~= ",\"tool_call_id\":"@ + json_text(JsonModel::Text(i@)));
        },
        None => {},
    }
    r.append(id.as_str());
    r.append("}");
    r
}

/// The JSON text of a list of messages.
pub fn messages_to_text(v: &Vec<ChatMessage>) -> (r: String)
    ensures
        r@ == messages_text(chat_model(v@)),
{
    let mut parts: Vec<String> = Vec::new();
    for i in 0..v.len()
        invariant
            parts@.len() == i,
            forall|j: int| 0 <= j < i ==> #[trigger] parts@[j]@ == message_text(v@[j]@),
    {
        parts.push(message_to_text(&v[i]));
    }
    assert(texts(parts@) =~= chat_model(v@).map_values(|m: ChatModel| message_text(m)));
    let mut r = copy_str("[");
    let list = join(&parts, ",");
    r.append(list.as_str());
    r.append("]");
    r
}

/// A conversation in writing holds every message, and a message its role, its text,
/// its calls and the call that it answers.
pub proof fn written_conversations_hold_every_message(v: Seq<ChatModel>, k: int)
    requires
        0 <= k < v.len(),
    ensures
        has_text(messages_text(v), message_text(v[k])),
        has_text(message_text(v[k]), json_text(JsonModel::Text(v[k].role))),
        v[k].content matches Some(c) ==> has_text(message_text(v[k]), json_text(JsonModel::Text(c))),
        v[k].tool_call_id matches Some(c) ==> has_text(message_text(v[k]), json_text(JsonModel::Text(c))),
        v[k].tool_calls matches Some(calls) ==> forall|j: int|
            0 <= j < calls.len() ==> has_text(message_text(v[k]), call_text(#[trigger] calls[j])),
{
    assert(has_text(messages_text(v), message_text(v[k]))) by {
        let parts = v.map_values(|m: ChatModel| message_text(m));
        assert(parts[k] == message_text(v[k]));
        joined_holds(parts, ","@, k);
        within("["@, joined(parts, ","@), "]"@, message_text(v[k]));
    }
    written_messages_hold_their_parts(v[k]);
}

#[verifier::spinoff_prover]
#[verifier::rlimit(40)]
proof fn written_messages_hold_their_parts(m: ChatModel)
    ensures
        has_text(message_text(m), json_text(JsonModel::Text(m.role))),
        m.content matches Some(c) ==> has_text(message_text(m), json_text(JsonModel::Text(c))),
        m.tool_call_id matches Some(c) ==> has_text(message_text(m), json_text(JsonModel::Text(c))),
        m.tool_calls matches Some(calls) ==> forall|j: int|
            0 <= j < calls.len() ==> has_text(message_text(m), call_text(#[trigger] calls[j])),
{
    let none = Seq::<char>::empty();
    let a = "{\"role\":"@;
    let role = json_text(JsonModel::Text(m.role));
    let content = match m.content {
        Some(c) => ",\"content\":"@ + json_text(JsonModel::Text(c)),
        None => none,
    };
    let calls = match m.tool_calls {
        Some(w) => ",\"tool_calls\":["@ + joined(w.map_values(|c: CallModel| call_text(c)), ","@) + "]"@,
        None => none,
    };
    let id = match m.tool_call_id {
        Some(i) => ",\"tool_call_id\":"@ + json_text(JsonModel::Text(i)),
        None => none,
    };
    let z = "}"@;
    let t = message_text(m);
    assert(t =~= a + role + content + calls + id + z);
    assert(has_text(t, role)) by {
        assert(t =~= a + role + (content + calls + id + z));
        parts_stand_in_the_whole(a, role, content + calls + id + z, t);
    }
    if m.content is Some {
        let c = json_text(JsonModel::Text(m.content->0));
        assert(has_text(t, c)) by {
            parts_stand_in_the_whole(",\"content\":"@, c, none, t);
            assert(",\"content\":"@ + c + none =~= content);
            assert(t =~= (a + role) + content + (calls + id + z));
            within(a + role, content, calls + id + z, c);
        }
    }
    if m.tool_call_id is Some {
        let c = json_text(JsonModel::Text(m.tool_call_id->0));
        assert(has_text(t, c)) by {
            parts_stand_in_the_whole(",\"tool_call_id\":"@, c, none, t);
            assert(",\"tool_call_id\":"@ + c + none =~= id);
            assert(t =~= (a + role + content + calls) + id + z);
            within(a + role + content + calls, id, z, c);
        }
    }
    if m.tool_calls is Some {
        let w = m.tool_calls->0;
        let texts_of = w.map_values(|c: CallModel| call_text(c));
        let list = joined(texts_of, ","@);
        assert forall|j: int| 0 <= j < w.len() implies has_text(t, call_text(#[trigger] w[j])) by {
            assert(texts_of[j] == call_text(w[j]));
            joined_holds(texts_of, ","@, j);
            within(",\"tool_calls\":["@, list, "]"@, call_text(w[j]));
            assert(t =~= (a + role + content) + calls + (id + z));
            within(a + role + content, calls, id + z, call_text(w[j]));
        }
    }
}

proof fn within(a: Seq<char>, s: Seq<char>, b: Seq<char>, p: Seq<char>)
    requires
        has_text(s, p),
    ensures
        has_text(a + s + b, p),
{
    let i = choose|i: int| occurs_at(s, p, i);
    let all = a + s + b;
    let at = a.len() + i;
    assert(all.subrange(at, at + p.len()) =~= s.subrange(i, i + p.len()));
    assert(occurs_at(all, p, at));
}

/// A call in writing holds its identifier, its name and its arguments.
pub proof fn written_calls_are_whole(c: CallModel)
    ensures
        has_text(call_text(c), json_text(JsonModel::Text(c.id))),
        has_text(call_text(c), json_text(JsonModel::Text(c.name))),
        has_text(call_text(c), json_text(c.arguments)),
{
    let a = "{\"id\":"@;
    let id = json_text(JsonModel::Text(c.id));
    let b = ",\"name\":"@;
    let name = json_text(JsonModel::Text(c.name));
    let d = ",\"arguments\":"@;
    let args = json_text(c.arguments);
    let t = call_text(c);
    assert(t =~= a + id + (b + name + d + args + "}"@));
    parts_stand_in_the_whole(a, id, b + name + d + args + "}"@, t);
    assert(t =~= (a + id + b) + name + (d + args + "}"@));
    parts_stand_in_the_whole(a + id + b, name, d + args + "}"@, t);
    assert(t =~= (a + id + b + name + d) + args + "}"@);
    parts_stand_in_the_whole(a + id + b + name + d, args, "}"@, t);
}

} // verus!
