use owo_agent_core::agent::{compact_truncate, AgentConfig, CallStep, RoundStep, Turn, TurnEvent};
use owo_agent_core::chat::{ChatMessage, ToolCall};
use owo_agent_core::cloud_exec::{compute_diff, FileAction};
use owo_agent_core::computer_use::{
    close_result, key_result, ocr_screen, screen_text, shortcut_result, wait_result, ScreenNext,
};
use owo_agent_core::fleet::message::{dedupe_messages, message_dedup_key, BusMessage, MessageKind};
use owo_agent_core::fleet::supervisor::backoff_secs;
use owo_agent_core::gateway::stream::StreamReader;
use owo_agent_core::gateway::{ModelOutput, TokenUsage};
use owo_agent_core::json::{read_json, Json};
use owo_agent_core::mcp::{read_call_result, read_http_reply, ConnectAction, ConnectEvent, HttpReply, McpClient};
use owo_agent_core::ocr::{OcrBox, OcrSummary};
use owo_agent_core::permissions::{Decision, Policy};
use owo_agent_core::session::{Restore, Session};
use owo_agent_core::share::html_escape;
use owo_agent_core::subagent::SubagentRunner;
use owo_agent_core::table::Table;
use owo_agent_core::trace::{list_traces, trace_file_name};
use owo_agent_core::version::{version_gte, version_higher};

fn json(text: &str) -> Json {
    read_json(text).unwrap_or_else(|e| panic!("{}", e))
}

const STREAM: &str = "data: {\"choices\":[{\"delta\":{\"content\":\"你\"}}]}\n: ping\n\ndata: {\"choices\":[{\"delta\":{\"content\":\"好\"}}]}\ndata: {\"choices\":[{\"delta\":{}}],\"usage\":{\"prompt_tokens\":3,\"completion_tokens\":4,\"total_tokens\":7}}\n";

#[test]
fn stream_is_read_alike_wherever_it_is_cut() {
    let chars: Vec<char> = STREAM.chars().collect();
    for cut in 0..=chars.len() {
        let first: String = chars[..cut].iter().collect();
        let second: String = chars[cut..].iter().collect();
        let mut reader = StreamReader::new();
        let mut usage = TokenUsage::default();
        let mut shown = reader.push_chunk(&first, &mut usage);
        shown.extend(reader.push_chunk(&second, &mut usage));
        assert_eq!(shown, vec!["你".to_string(), "好".to_string()]);
        assert_eq!(usage.total_tokens, 7);
        match reader.finish() {
            ModelOutput::Text(t) => assert_eq!(t, "你好"),
            _ => panic!("a text is due"),
        }
    }
}

#[test]
fn undo_brings_back_what_was_there_first() {
    let mut s = Session::new("/w".to_string(), "mock".to_string(), None);
    for content in ["first", "second", "third"] {
        s.take_snapshot("/w/a.txt".to_string(), Some(&content.as_bytes().to_vec()));
    }
    assert_eq!(s.snapshots.len(), 1);
    assert_eq!(s.snapshots.entries[0].1.original_b64.as_deref(), Some("Zmlyc3Q="));
    match s.revert_step(0) {
        Ok(Restore::Write(bytes)) => assert_eq!(bytes, b"first".to_vec()),
        _ => panic!("the file is written back"),
    }
}

fn call(id: &str, name: &str, args: &str) -> ToolCall {
    ToolCall { id: id.to_string(), name: name.to_string(), arguments: json(args) }
}

#[test]
fn every_call_is_answered_and_every_start_is_on_record() {
    let mut turn = Turn::begin(AgentConfig::default(), "s", "sys".to_string(), &Vec::new(), "hi");
    let policy = Policy::new("/w");
    assert!(matches!(turn.begin_round(false), RoundStep::AskModel));
    turn.ask_model();
    turn.model_said(ModelOutput::ToolCalls(vec![
        call("c1", "read_file", r#"{"path":"a.txt"}"#),
        call("c2", "write_file", r#"{"path":"a.txt","content":"x"}"#),
        call("c3", "run_command", r#"{"command":"ls"}"#),
    ]));
    let answers = [Decision::Allow, Decision::Deny, Decision::Allow];
    for given in answers {
        let (request, decision) = match turn.judge_call(&policy, &Ok("/w/a.txt".to_string()), false) {
            CallStep::Approve(request) => (request, given),
            CallStep::Decided(request, decision) => (request, decision),
            CallStep::Aborted => panic!("nobody gave up"),
        };
        if turn.decided(&request, decision) {
            turn.tool_done(Ok(json("{\"ok\":true}")));
        }
    }
    assert!(!turn.has_call());
    assert_eq!(turn.steps, 3);
    let starts = turn.events.iter().filter(|e| matches!(e, TurnEvent::ToolStart { .. })).count();
    let approvals =
        turn.audit.entries.iter().filter(|e| e.event == "permission" && e.approved == Some(true)).count();
    assert_eq!((starts, approvals), (2, 2));
    let ids: Vec<&str> = turn.messages.iter().filter_map(|m| m.tool_call_id.as_deref()).collect();
    assert_eq!(ids, vec!["c1", "c2", "c3"]);
    let refusal = turn.messages[4].content.as_deref().unwrap();
    assert!(refusal.starts_with("工具错误：permission denied: "));
    assert_eq!(turn.messages[3].content.as_deref(), Some("{\"ok\":true}"));
}

#[test]
fn history_is_summarised_once() {
    let config = AgentConfig { token_budget: 10, keep_recent: 2, ..AgentConfig::default() };
    let history: Vec<ChatMessage> = (0..6).map(|i| ChatMessage::user(format!("message {i}"))).collect();
    let mut turn = Turn::begin(config, "s", "sys".to_string(), &history, "hi");
    match turn.begin_round(false) {
        RoundStep::Summarise(prompt) => assert!(prompt.contains("message 4") && !prompt.contains("message 5")),
        _ => panic!("a summary is due"),
    }
    turn.summarised(Some("so far".to_string()));
    assert_eq!(turn.messages.len(), 4);
    assert_eq!(turn.messages[1].content.as_deref(), Some("历史摘要（已压缩）：\nso far"));
    assert_eq!(turn.messages[3].content.as_deref(), Some("hi"));
    assert_eq!(turn.audit.entries[0].detail, "压缩 5 条历史消息");
    assert!(matches!(turn.begin_round(false), RoundStep::AskModel));
    let mut few = vec![ChatMessage::system("s".to_string()), ChatMessage::user("a".to_string())];
    compact_truncate(&mut few, 1);
    assert_eq!((few.len(), few[0].role.as_str()), (1, "system"));
}

#[test]
fn agents_are_nested_two_deep_at_most() {
    let mut depth = 0;
    let mut nested = 0;
    while let Ok(plan) = (SubagentRunner { depth, max_turns: 50, model: "m".to_string() }).run("/w", false) {
        depth = plan.config.subagent_depth;
        nested += 1;
        assert_eq!(plan.config.max_turns, 12);
    }
    assert_eq!((depth, nested), (2, 2));
}

#[test]
fn numbers_of_requests_differ_and_replies_are_taken_once() {
    let mut client = McpClient::new();
    let first = client.request("a", Json::table());
    let second = client.request("b", Json::table());
    assert_eq!((first.count_at("id"), second.count_at("id")), (Some(1), Some(2)));
    assert_eq!(client.line_received("{\"id\":2,\"result\":1}").map(|r| r.0), Some(2));
    assert!(client.line_received("{\"id\":2,\"result\":1}").is_none());
    assert_eq!(client.line_received("{\"id\":1,\"result\":1}").map(|r| r.0), Some(1));
    let mut other = McpClient::new();
    other.connect_next(ConnectEvent::Opened, "v");
    other.connect_next(ConnectEvent::Reply(Ok(Json::Null)), "v");
    match other.connect_next(ConnectEvent::Noticed(Err("gone".to_string())), "v") {
        ConnectAction::Fail(e) => assert_eq!(e, "gone"),
        _ => panic!("the handshake has failed"),
    }
}

#[test]
fn replies_tell_what_went_wrong() {
    let wrong = |reply: HttpReply| match read_http_reply("tools/list", &reply) {
        Ok(_) => String::new(),
        Err(e) => e,
    };
    assert_eq!(wrong(HttpReply::Unsent("x".to_string())), "MCP HTTP 请求失败：x");
    assert_eq!(wrong(HttpReply::Refused("500".to_string(), "y".to_string())), "MCP HTTP 返回 500：y");
    assert_eq!(wrong(HttpReply::EventsUnread("e".to_string())), "MCP SSE 读取失败：e");
    assert_eq!(wrong(HttpReply::Unreadable("z".to_string())), "MCP HTTP 响应解析失败：z");
    assert_eq!(wrong(HttpReply::Events("data: [DONE]\n".to_string())), "MCP SSE 无有效响应：tools/list");
    assert_eq!(wrong(HttpReply::Value(json("{\"error\":{\"code\":1}}"))), "MCP 错误：{\"code\":1}");
    let failed = json(r#"{"isError":true,"content":[{"text":"a"},{"kind":"x"},{"text":"b"}]}"#);
    assert_eq!(read_call_result(&failed).err().as_deref(), Some("a\nb"));
}

#[test]
fn fractions_are_written_as_they_were_read() {
    for text in ["0.1", "1.5", "2.0", "123456.789", "1e-7", "0.30000000000000004", "-2.5", "1.7976931348623157e308"] {
        assert_eq!(json(text).clone().to_text(), read_json(text).map(|j| j.to_text()).unwrap_or_default());
        let again = json(&json(text).to_text());
        assert_eq!(again.to_text(), json(text).to_text());
    }
    assert_eq!(json("0.30000000000000004").to_text(), "0.30000000000000004");
    assert_eq!(json("1.5").to_text(), "1.5");
}

#[test]
fn changes_are_applied_and_taken_back() {
    let table = |entries: &[(&str, &str)]| {
        let mut t: Table<String> = Table::new();
        for (k, v) in entries {
            t.insert_sorted(k.to_string(), v.to_string());
        }
        t
    };
    let before = table(&[("a", "1"), ("b", "2")]);
    let after = table(&[("b", "3"), ("c", "4")]);
    let (diff, cut) = compute_diff(&before, &after);
    assert!(!cut);
    let mut files = before.entries.clone();
    let run = |files: &mut Vec<(String, String)>, action: FileAction| match action {
        FileAction::Write { path, content } => {
            files.retain(|f| f.0 != path);
            files.push((path, content));
            files.sort();
        }
        FileAction::Remove { path } => files.retain(|f| f.0 != path),
    };
    for d in &diff {
        run(&mut files, d.apply());
    }
    assert_eq!(files, after.entries);
    for d in &diff {
        run(&mut files, d.reverse());
    }
    assert_eq!(files, before.entries);
}

#[test]
fn repetitions_are_dropped_once_and_for_all() {
    let message = |id: u64, payload: &str| BusMessage {
        id,
        from: "a".to_string(),
        to: "b".to_string(),
        kind: MessageKind::Task,
        correlation_id: "c".to_string(),
        payload: json(payload),
    };
    let all = vec![message(1, "{\"x\":1}"), message(2, "{\"x\":1}"), message(3, "{\"x\":2}")];
    assert_eq!(message_dedup_key(&all[0]), message_dedup_key(&all[1]));
    assert_ne!(message_dedup_key(&all[0]), message_dedup_key(&all[2]));
    assert_eq!(message_dedup_key(&all[0]).len(), 16);
    let once = dedupe_messages(&all);
    let ids: Vec<u64> = once.iter().map(|m| m.id).collect();
    assert_eq!(ids, vec![1, 3]);
    assert_eq!(dedupe_messages(&once).len(), 2);
}

#[test]
fn orders_and_waits_go_one_way() {
    assert!(version_gte("1.10.0", "1.9.9") && version_higher("1.10.0", "1.9.9"));
    assert!(version_gte("1.0", "1.0") && !version_higher("1.0", "1.0"));
    assert!(version_gte("1.2 .0", "1.2.0.0") && version_gte("1.2.0.0", "1.2 .0") && version_higher("1.3", "1.2.0"));
    let mut last = 0;
    for attempt in 0..12 {
        let wait = backoff_secs(1, attempt);
        assert!(wait >= last && wait <= 60);
        last = wait;
    }
    assert_eq!(last, 60);
}

#[test]
fn escaped_text_holds_no_markup() {
    let escaped = html_escape("<a href=\"x\">'&'</a>");
    assert!(!escaped.contains('<') && !escaped.contains('>') && !escaped.contains('"'));
}

#[test]
fn saved_record_is_listed() {
    let name = trace_file_name("s", -5);
    assert_eq!(name, "s--5.json");
    assert_eq!(list_traces(&vec!["x.txt".to_string(), name.clone(), ".json".to_string()]), vec![name]);
}

#[test]
fn desktop_tools_answer_with_what_they_did() {
    assert_eq!(key_result("enter").to_text(), "{\"key\":\"enter\"}");
    assert_eq!(shortcut_result("ctrl+c").to_text(), "{\"combo\":\"ctrl+c\"}");
    assert_eq!(wait_result(50).to_text(), "{\"waited_ms\":50}");
    assert_eq!(close_result().to_text(), "{\"closed\":true}");
    assert!(matches!(ocr_screen(true, Some(Json::Null)), ScreenNext::Known(Json::Null)));
    assert!(matches!(ocr_screen(true, None), ScreenNext::Frame));
    assert!(matches!(ocr_screen(false, Some(Json::Null)), ScreenNext::Capture));
    let seen = || {
        let b = OcrBox { text: "发送".to_string(), x: 0, y: 100, width: 10, height: 10 };
        let c = OcrBox { text: "发送".to_string(), x: 0, y: 100, width: 10, height: 10 };
        (OcrSummary { text: "发送".to_string(), chars: 2, boxes: vec![b] }, vec![c])
    };
    match screen_text(Ok(seen()), false, 5, true) {
        Ok(j) => assert_eq!(j.text_at("surface").unwrap(), "sim"),
        Err(e) => panic!("{}", e),
    }
    assert_eq!(screen_text(Err("x".to_string()), true, 5, false).err().as_deref(), Some("区域 OCR 失败：x"));
    assert_eq!(screen_text(Err("x".to_string()), false, 5, false).err().as_deref(), Some("OCR 失败：x"));
}
